//! Recurring schedule entries: what fires when, and the job a firing
//! enqueues. Firing does not look at the queue's depth.
use vstd::prelude::*;
use crate::queue::CrawlJob;

verus! {

pub const SECS_PER_DAY: u64 = 86400;

/// The heartbeat fires every five minutes.
pub const HEARTBEAT_SECS: u64 = 300;

/// The job that the daily firing enqueues.
pub fn daily_job(id: String) -> (r: CrawlJob)
    ensures
        r.id@ == id@,
        r.keyword@ == "daily trend analysis"@,
        r.engine@ == "bing"@,
        r.selectors is None,
{
    CrawlJob {
        id,
        keyword: "daily trend analysis".to_owned(),
        engine: "bing".to_owned(),
        selectors: None,
    }
}

/// Seconds from `secs_of_day` (seconds since midnight) to the next
/// midnight, when the daily job fires; none at midnight itself.
pub fn secs_until_midnight(secs_of_day: u64) -> (r: u64)
    ensures
        secs_of_day == 0 || secs_of_day >= SECS_PER_DAY ==> r == 0,
        0 < secs_of_day < SECS_PER_DAY ==> r == SECS_PER_DAY - secs_of_day,
{
    if secs_of_day == 0 || secs_of_day >= SECS_PER_DAY {
        0
    } else {
        SECS_PER_DAY - secs_of_day
    }
}

} // verus!
