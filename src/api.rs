//! Requests and responses of the operator-facing surface, and the logic
//! behind them; the transport lives outside the library.
use vstd::prelude::*;
use crate::proxy::{fresh_descriptor, parse_proxy_spec, ProxyDescriptor, ProxyError, ProxyPool};
use crate::queue::CrawlJob;
use crate::serp::selectors_view;

verus! {

/// A request to crawl: a keyword (or URL), an engine name (Bing where
/// none is given) and, for a generic crawl, field selectors.
pub struct CrawlRequest {
    pub keyword: String,
    pub engine: Option<String>,
    pub selectors: Option<Vec<(String, String)>>,
}

/// The acknowledgment of a crawl request.
#[derive(Debug)]
pub struct CrawlResponse {
    pub task_id: String,
    pub message: String,
}

/// A task record as stored.
#[derive(Debug)]
pub struct TaskResult {
    pub id: String,
    pub keyword: String,
    pub engine: String,
    pub status: String,
    pub results_json: Option<String>,
    pub extracted_text: Option<String>,
    pub first_page_html: Option<String>,
    pub meta_description: Option<String>,
    pub meta_author: Option<String>,
    pub meta_date: Option<String>,
}

pub struct AddProxyRequest {
    /// `host:port` or `user:pass@host:port`.
    pub proxy: String,
}

#[derive(Debug)]
pub struct AddProxyResponse {
    pub success: bool,
    pub proxy: Option<ProxyDescriptor>,
    pub error: Option<String>,
}

#[derive(Debug)]
pub struct RemoveProxyResponse {
    pub success: bool,
    pub error: Option<String>,
}

/// Lower-case hexadecimal digits.
pub open spec fn is_lower_hex(c: char) -> bool {
    ('0' <= c && c <= '9') || ('a' <= c && c <= 'f')
}

/// The hyphenated text form of a UUID: 8-4-4-4-12 lower-case hex digits.
pub open spec fn is_hyphenated_uuid(s: Seq<char>) -> bool {
    &&& s.len() == 36
    &&& forall|i: int|
        0 <= i < 36 ==> if i == 8 || i == 13 || i == 18 || i == 23 {
            s[i] == '-'
        } else {
            is_lower_hex(#[trigger] s[i])
        }
}

/// Relies on `uuid::Uuid::new_v4` and its `Display` text, which is the
/// hyphenated lower-case form.
#[verifier::external_body]
fn random_id() -> (r: String)
    ensures
        is_hyphenated_uuid(r@),
{
    uuid::Uuid::new_v4().to_string()
}

/// A fresh random task id, in the hyphenated UUID form.
pub fn new_task_id() -> (r: String)
    ensures
        is_hyphenated_uuid(r@),
{
    random_id()
}

/// The job for a crawl request under id `task_id`; the engine is Bing
/// where the request names none.
pub fn job_for_request(task_id: String, payload: CrawlRequest) -> (r: CrawlJob)
    ensures
        r.id@ == task_id@,
        r.keyword@ == payload.keyword@,
        r.engine@ == match payload.engine {
            Some(e) => e@,
            None => "bing"@,
        },
        selectors_view(r.selectors) == selectors_view(payload.selectors),
{
    let engine = match payload.engine {
        Some(e) => e,
        None => "bing".to_owned(),
    };
    CrawlJob { id: task_id, keyword: payload.keyword, engine, selectors: payload.selectors }
}

/// The acknowledgment of a crawl request, by whether its job was queued.
pub fn crawl_response(task_id: String, queued: bool) -> (r: CrawlResponse)
    ensures
        r.task_id@ == task_id@,
        queued ==> r.message@ == "Crawl job queued successfully"@,
        !queued ==> r.message@ == "Failed to queue job"@,
{
    let message = if queued {
        "Crawl job queued successfully".to_owned()
    } else {
        "Failed to queue job".to_owned()
    };
    CrawlResponse { task_id, message }
}

/// The message that reports a refused pool operation.
pub open spec fn message_of(e: ProxyError) -> Seq<char> {
    match e {
        ProxyError::Parse => "invalid proxy spec, expected host:port or user:pass@host:port"@,
        ProxyError::Duplicate => "proxy already exists"@,
        ProxyError::NotFound => "proxy not found"@,
    }
}

/// The message that reports a refused pool operation.
pub fn error_message(e: ProxyError) -> (r: String)
    ensures
        r@ == message_of(e),
{
    match e {
        ProxyError::Parse => "invalid proxy spec, expected host:port or user:pass@host:port".to_owned(),
        ProxyError::Duplicate => "proxy already exists".to_owned(),
        ProxyError::NotFound => "proxy not found".to_owned(),
    }
}

/// Adds the proxy of a request to the pool and reports how it went.
pub fn add_proxy(pool: &mut ProxyPool, payload: AddProxyRequest) -> (r: AddProxyResponse)
    requires
        old(pool).wf(),
    ensures
        final(pool).wf(),
        r.success == (parse_proxy_spec(payload.proxy@) matches Some(p) && !crate::proxy::has_id(
            old(pool)@.proxies,
            p.id,
        )),
        r.success ==> (parse_proxy_spec(payload.proxy@) matches Some(p) && r.proxy matches Some(d)
            && d@ == fresh_descriptor(p) && final(pool)@.proxies == old(pool)@.proxies.push(
            fresh_descriptor(p),
        ) && final(pool)@.cursor == old(pool)@.cursor && r.error is None),
        !r.success ==> r.proxy is None && final(pool)@ == old(pool)@ && (r.error matches Some(m)
            && m@ == message_of(
            if parse_proxy_spec(payload.proxy@) is None {
                ProxyError::Parse
            } else {
                ProxyError::Duplicate
            },
        )),
{
    match pool.add(payload.proxy.as_str()) {
        Ok(d) => AddProxyResponse { success: true, proxy: Some(d), error: None },
        Err(e) => AddProxyResponse { success: false, proxy: None, error: Some(error_message(e)) },
    }
}

fn outcome_response(r: Result<(), ProxyError>) -> (out: RemoveProxyResponse)
    ensures
        out.success == (r is Ok),
        r is Ok ==> out.error is None,
        r matches Err(e) ==> (out.error matches Some(m) && m@ == message_of(e)),
{
    match r {
        Ok(()) => RemoveProxyResponse { success: true, error: None },
        Err(e) => RemoveProxyResponse { success: false, error: Some(error_message(e)) },
    }
}

/// Removes a proxy from the pool and reports how it went.
pub fn remove_proxy(pool: &mut ProxyPool, proxy_id: &str) -> (r: RemoveProxyResponse)
    requires
        old(pool).wf(),
    ensures
        final(pool).wf(),
        r.success == crate::proxy::has_id(old(pool)@.proxies, proxy_id@),
        r.success ==> r.error is None && final(pool)@.cursor == old(pool)@.cursor,
        !r.success ==> final(pool)@ == old(pool)@ && (r.error matches Some(m) && m@ == message_of(
            ProxyError::NotFound,
        )),
        forall|i: int|
            0 <= i < old(pool)@.proxies.len() && old(pool)@.proxies[i].id == proxy_id@
                ==> final(pool)@.proxies == old(pool)@.proxies.remove(i),
{
    outcome_response(pool.remove(proxy_id))
}

/// Puts a proxy back into the rotation and reports how it went.
pub fn enable_proxy(pool: &mut ProxyPool, proxy_id: &str) -> (r: RemoveProxyResponse)
    requires
        old(pool).wf(),
    ensures
        final(pool).wf(),
        r.success == crate::proxy::has_id(old(pool)@.proxies, proxy_id@),
        r.success ==> r.error is None && final(pool)@.cursor == old(pool)@.cursor,
        !r.success ==> final(pool)@ == old(pool)@ && (r.error matches Some(m) && m@ == message_of(
            ProxyError::NotFound,
        )),
        forall|i: int|
            0 <= i < old(pool)@.proxies.len() && old(pool)@.proxies[i].id == proxy_id@
                ==> final(pool)@.proxies == old(pool)@.proxies.update(
                i,
                crate::proxy::enabled(old(pool)@.proxies[i]),
            ),
{
    outcome_response(pool.enable(proxy_id))
}

} // verus!
