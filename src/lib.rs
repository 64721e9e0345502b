//! Crawl orchestration core: egress pool, search automation decisions,
//! result extraction and the job queue, with their contracts.
pub mod api;
pub mod challenge;
pub mod content;
pub mod html;
pub mod proxy;
pub mod queue;
pub mod redirect;
pub mod scheduler;
pub mod search;
pub mod serp;
pub mod text;
pub mod worker;
