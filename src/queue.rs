//! Crawl jobs, engine dispatch, and an in-process first-in, first-out job
//! queue: the delivery order that any queue transport between producers and
//! the worker must keep.
use vstd::prelude::*;
use crate::text::same_text;

verus! {

/// A unit of work: what to search or crawl, and with which engine.
#[derive(Debug)]
pub struct CrawlJob {
    pub id: String,
    /// The search keyword, or the target URL for a generic crawl.
    pub keyword: String,
    /// `"bing"`, `"google"` or `"generic"`.
    pub engine: String,
    /// For a generic crawl: field names, each named once, and the CSS
    /// selectors whose text fills them, in order (see `selectors_ok`).
    pub selectors: Option<Vec<(String, String)>>,
}

pub struct JobView {
    pub id: Seq<char>,
    pub keyword: Seq<char>,
    pub engine: Seq<char>,
    pub selectors: Option<Seq<(Seq<char>, Seq<char>)>>,
}

impl View for CrawlJob {
    type V = JobView;

    open spec fn view(&self) -> JobView {
        JobView {
            id: self.id@,
            keyword: self.keyword@,
            engine: self.engine@,
            selectors: crate::serp::selectors_view(self.selectors),
        }
    }
}

/// The search engines a job can name.
#[derive(PartialEq, Eq, Structural, Clone, Copy, Debug)]
pub enum Engine {
    Bing,
    Google,
    Generic,
}

/// The engine that an engine name selects: `google` and `generic` by name,
/// Bing for anything else.
pub open spec fn engine_named(name: Seq<char>) -> Engine {
    if name == "google"@ {
        Engine::Google
    } else if name == "generic"@ {
        Engine::Generic
    } else {
        Engine::Bing
    }
}

/// The engine that an engine name selects (see `engine_named`).
pub fn engine_of(name: &str) -> (r: Engine)
    ensures
        r == engine_named(name@),
{
    if same_text(name, "google") {
        Engine::Google
    } else if same_text(name, "generic") {
        Engine::Generic
    } else {
        Engine::Bing
    }
}

impl Engine {
    /// The engine's name as jobs and storage keys write it.
    pub fn name(&self) -> (r: &'static str)
        ensures
            *self == Engine::Bing ==> r@ == "bing"@,
            *self == Engine::Google ==> r@ == "google"@,
            *self == Engine::Generic ==> r@ == "generic"@,
    {
        match self {
            Engine::Bing => "bing",
            Engine::Google => "google",
            Engine::Generic => "generic",
        }
    }
}

/// A first-in, first-out queue of crawl jobs, held in memory.
pub struct JobQueue {
    jobs: Vec<CrawlJob>,
}

impl View for JobQueue {
    type V = Seq<JobView>;

    closed spec fn view(&self) -> Seq<JobView> {
        self.jobs@.map_values(|j: CrawlJob| j@)
    }
}

impl JobQueue {
    /// An empty queue.
    pub fn new() -> (r: JobQueue)
        ensures
            r@ == Seq::<JobView>::empty(),
    {
        let r = JobQueue { jobs: Vec::new() };
        assert(r@ =~= Seq::<JobView>::empty());
        r
    }

    /// The number of jobs waiting.
    pub fn len(&self) -> (r: usize)
        ensures
            r == self@.len(),
    {
        self.jobs.len()
    }

    /// Appends `job`; acceptance never waits on processing.
    pub fn push_job(&mut self, job: CrawlJob)
        ensures
            final(self)@ == old(self)@.push(job@),
    {
        self.jobs.push(job);
        assert(self@ =~= old(self)@.push(job@));
    }

    /// Removes and returns the oldest job; `None` on an empty queue.
    pub fn pop_job(&mut self) -> (r: Option<CrawlJob>)
        ensures
            old(self)@.len() == 0 ==> r is None && final(self)@ == old(self)@,
            old(self)@.len() > 0 ==> (r matches Some(j) && j@ == old(self)@[0] && final(self)@
                == old(self)@.drop_first()),
    {
        if self.jobs.len() == 0 {
            return None;
        }
        let j = self.jobs.remove(0);
        assert(self@ =~= old(self)@.drop_first());
        Some(j)
    }
}

} // verus!
