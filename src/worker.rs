//! The worker's decisions: what to do after polling the queue, and what a
//! finished job leaves behind.
use vstd::prelude::*;
use crate::api::TaskResult;
use crate::content::WebsiteData;
use crate::queue::{CrawlJob, Engine, JobView};
use crate::search::SearchOutcome;
use crate::serp::{SerpData, SerpView};
use crate::text::opt_view;

verus! {

/// Pause after finding the queue empty, in milliseconds.
pub const EMPTY_PAUSE_MS: u64 = 1000;

/// Pause after failing to reach the queue, in milliseconds.
pub const ERROR_PAUSE_MS: u64 = 5000;

/// What polling the queue gave.
pub enum Poll {
    Job(CrawlJob),
    Empty,
    QueueError,
}

/// What the worker does next.
pub enum WorkerStep {
    Process(CrawlJob),
    /// Pause this many milliseconds, then poll again.
    Pause(u64),
}

/// The worker's reaction to a poll: a job is processed; an empty queue
/// means a short pause, a queue error a longer one, then another poll.
pub fn next_step(p: Poll) -> (r: WorkerStep)
    ensures
        match p {
            Poll::Job(j) => r matches WorkerStep::Process(k) && k@ == j@,
            Poll::Empty => r matches WorkerStep::Pause(ms) && ms == EMPTY_PAUSE_MS,
            Poll::QueueError => r matches WorkerStep::Pause(ms) && ms == ERROR_PAUSE_MS,
        },
{
    match p {
        Poll::Job(j) => WorkerStep::Process(j),
        Poll::Empty => WorkerStep::Pause(EMPTY_PAUSE_MS),
        Poll::QueueError => WorkerStep::Pause(ERROR_PAUSE_MS),
    }
}

/// The link of the first result, which deep extraction follows.
pub fn first_result_link(d: &SerpData) -> (r: Option<String>)
    ensures
        d@.results.len() == 0 ==> r is None,
        d@.results.len() > 0 ==> (r matches Some(l) && l@ == d@.results[0].link),
{
    if d.results.len() == 0 {
        None
    } else {
        Some(d.results[0].link.clone())
    }
}

/// The storage key of a job's page markup: `{engine}/{job id}.html`.
pub open spec fn blob_key_of(job: JobView) -> Seq<char> {
    job.engine + "/"@ + job.id + ".html"@
}

/// The storage key of a job's page markup.
pub fn blob_key(job: &CrawlJob) -> (r: String)
    ensures
        r@ == blob_key_of(job@),
{
    let mut k = job.engine.clone();
    k.append("/");
    k.append(job.id.as_str());
    k.append(".html");
    k
}

/// The markup to store for a job and its key: only where deep extraction
/// gave a page with markup.
pub fn markup_to_store(job: &CrawlJob, page: &Option<WebsiteData>) -> (r: Option<(String, String)>)
    ensures
        match page {
            Some(w) => if w.html@.len() > 0 {
                r matches Some((k, h)) && k@ == blob_key_of(job@) && h@ == w.html@
            } else {
                r is None
            },
            None => r is None,
        },
{
    match page {
        Some(w) => if w.html.as_str().unicode_len() > 0 {
            Some((blob_key(job), w.html.clone()))
        } else {
            None
        },
        None => None,
    }
}

/// The record of a completed job: its identity, the serialized results,
/// and from the first result's page its main text, markup, description,
/// author and date (empty where there was no page).
pub fn completed_record(job: &CrawlJob, results_json: String, page: &Option<WebsiteData>) -> (r:
    TaskResult)
    ensures
        r.id@ == job.id@,
        r.keyword@ == job.keyword@,
        r.engine@ == job.engine@,
        r.status@ == "completed"@,
        opt_view(r.results_json) == Some(results_json@),
        match page {
            Some(w) => opt_view(r.extracted_text) == Some(w.main_text@) && opt_view(
                r.first_page_html,
            ) == Some(w.html@) && opt_view(r.meta_description) == opt_view(w.meta_description)
                && opt_view(r.meta_author) == opt_view(w.meta_author) && opt_view(r.meta_date)
                == opt_view(w.meta_date),
            None => opt_view(r.extracted_text) == Some(Seq::<char>::empty()) && opt_view(
                r.first_page_html,
            ) == Some(Seq::<char>::empty()) && r.meta_description is None && r.meta_author is None
                && r.meta_date is None,
        },
{
    let (text, html, description, author, date) = match page {
        Some(w) => w.record_fields(),
        None => (String::new(), String::new(), None, None, None),
    };
    TaskResult {
        id: job.id.clone(),
        keyword: job.keyword.clone(),
        engine: job.engine.clone(),
        status: "completed".to_owned(),
        results_json: Some(results_json),
        extracted_text: Some(text),
        first_page_html: Some(html),
        meta_description: description,
        meta_author: author,
        meta_date: date,
    }
}

/// What a search's outcome makes of its job.
pub enum JobDisposition {
    /// The job completes, and its record holds these results (maybe none).
    Complete(SerpData),
    /// The job fails and leaves no record; the reason is for the log.
    Fail(&'static str),
}

/// Search data with no results and nothing else.
pub open spec fn empty_serp() -> SerpView {
    SerpView {
        results: Seq::empty(),
        people_also_ask: Seq::empty(),
        related_searches: Seq::empty(),
        featured_snippet: None,
        total_results: None,
    }
}

/// Decides a job by its search outcome. Results complete it. A challenge
/// page or a renderer failure fails it. A page without results completes a
/// Bing or generic job with no results, and fails a Google job, which has
/// already used up its retries.
pub fn disposition(engine: Engine, outcome: SearchOutcome) -> (r: JobDisposition)
    ensures
        match outcome {
            SearchOutcome::Found(d) => r matches JobDisposition::Complete(x) && x@ == d@,
            SearchOutcome::ChallengeDetected(_) => r matches JobDisposition::Fail(m) && m@
                == "challenge_detected"@,
            SearchOutcome::Failed(_) => r matches JobDisposition::Fail(m) && m@ == "renderer_failure"@,
            SearchOutcome::PageTooSmall(_) => if engine == Engine::Google {
                r matches JobDisposition::Fail(m) && m@ == "page_too_small"@
            } else {
                r matches JobDisposition::Complete(x) && x@ == empty_serp()
            },
            SearchOutcome::EmptyResult(_) => if engine == Engine::Google {
                r matches JobDisposition::Fail(m) && m@ == "no_results_found"@
            } else {
                r matches JobDisposition::Complete(x) && x@ == empty_serp()
            },
        },
{
    match outcome {
        SearchOutcome::Found(d) => JobDisposition::Complete(d),
        SearchOutcome::ChallengeDetected(_) => JobDisposition::Fail("challenge_detected"),
        SearchOutcome::Failed(_) => JobDisposition::Fail("renderer_failure"),
        SearchOutcome::PageTooSmall(_) => if engine == Engine::Google {
            JobDisposition::Fail("page_too_small")
        } else {
            empty_completion()
        },
        SearchOutcome::EmptyResult(_) => if engine == Engine::Google {
            JobDisposition::Fail("no_results_found")
        } else {
            empty_completion()
        },
    }
}

fn empty_completion() -> (r: JobDisposition)
    ensures
        r matches JobDisposition::Complete(x) && x@ == empty_serp(),
{
    let d = SerpData {
        results: Vec::new(),
        people_also_ask: Vec::new(),
        related_searches: Vec::new(),
        featured_snippet: None,
        total_results: None,
    };
    assert(d@.results =~= Seq::<crate::serp::ResultView>::empty());
    assert(d@.people_also_ask =~= Seq::<Seq<char>>::empty());
    assert(d@.related_searches =~= Seq::<Seq<char>>::empty());
    JobDisposition::Complete(d)
}

} // verus!
