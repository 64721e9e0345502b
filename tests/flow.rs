use rust_crawler::api::{
    add_proxy, crawl_response, enable_proxy, job_for_request, new_task_id, remove_proxy,
    AddProxyRequest, CrawlRequest,
};
use rust_crawler::content::extract_website_data;
use rust_crawler::proxy::ProxyPool;
use rust_crawler::queue::{engine_of, CrawlJob, Engine, JobQueue};
use rust_crawler::scheduler::{daily_job, secs_until_midnight};
use rust_crawler::search::{
    after_attempt, keystroke_delay_ms, launch_args, pause_for, plan_launch, stealth_script, Action,
    CrawlError, Event,
    ExtractionMethod, RetryStep, SearchOutcome, SearchSession, Stage,
};
use rust_crawler::serp::{selector_keys_unique, SearchResult};
use rust_crawler::worker::{
    blob_key, completed_record, disposition, first_result_link, markup_to_store, next_step, JobDisposition,
    Poll, WorkerStep,
};

fn job(id: &str) -> CrawlJob {
    CrawlJob { id: id.to_string(), keyword: "rust".to_string(), engine: "bing".to_string(), selectors: None }
}

fn big_page(body: &str) -> String {
    format!("<html><body>{}<div>{}</div></body></html>", body, "z".repeat(60000))
}

#[test]
fn queue_scenario() {
    let mut q = JobQueue::new();
    assert!(q.pop_job().is_none());
    q.push_job(job("j1"));
    let got = q.pop_job().unwrap();
    assert_eq!(got.id, "j1");
    assert_eq!(got.keyword, "rust");
    assert!(q.pop_job().is_none());
}

#[test]
fn queue_is_first_in_first_out() {
    let mut q = JobQueue::new();
    q.push_job(job("a"));
    q.push_job(job("b"));
    assert_eq!(q.len(), 2);
    assert_eq!(q.pop_job().unwrap().id, "a");
    assert_eq!(q.pop_job().unwrap().id, "b");
}

#[test]
fn engine_names_dispatch() {
    assert_eq!(engine_of("google"), Engine::Google);
    assert_eq!(engine_of("generic"), Engine::Generic);
    assert_eq!(engine_of("bing"), Engine::Bing);
    assert_eq!(engine_of("yahoo"), Engine::Bing);
    assert_eq!(Engine::Google.name(), "google");
}

fn expect_navigate(a: Action) -> String {
    match a {
        Action::Navigate(u) => u,
        _ => panic!("expected navigation"),
    }
}

#[test]
fn bing_attempt_runs_to_results() {
    let mut s = SearchSession::start(Engine::Bing, "rust".to_string(), None);
    assert_eq!(expect_navigate(s.advance(Event::Completed)), "https://www.bing.com/?cc=US");
    assert!(matches!(s.advance(Event::Completed), Action::TypeQuery(q) if q == "rust"));
    assert!(matches!(s.advance(Event::Completed), Action::Submit));
    assert!(matches!(s.advance(Event::Completed), Action::AwaitSettle));
    assert!(matches!(s.advance(Event::Completed), Action::ReadPage));
    let page = big_page(r#"<li class="b_algo"><h2><a href="https://a.example/">A</a></h2><p>s</p></li>"#);
    match s.advance(Event::Page(page)) {
        Action::Finish(SearchOutcome::Found(d)) => assert_eq!(d.results[0].link, "https://a.example/"),
        _ => panic!("expected results"),
    }
    assert_eq!(s.stage(), Stage::Done);
    assert_eq!(s.method(), Some(ExtractionMethod::Dom));
}

#[test]
fn bing_challenge_page_ends_attempt() {
    let mut s = SearchSession::start(Engine::Bing, "rust".to_string(), None);
    for _ in 0..5 {
        s.advance(Event::Completed);
    }
    let page = big_page(r#"<p>unusual traffic</p><li class="b_algo"><h2><a href="https://a.example/">A</a></h2></li>"#);
    assert!(matches!(s.advance(Event::Page(page)), Action::Finish(SearchOutcome::ChallengeDetected(_))));
}

#[test]
fn google_attempt_falls_back_through_extractors() {
    let mut s = SearchSession::start(Engine::Google, "rust".to_string(), None);
    assert_eq!(expect_navigate(s.advance(Event::Completed)), "https://www.google.com/?hl=en");
    assert!(matches!(s.advance(Event::Completed), Action::CheckConsent));
    assert!(matches!(s.advance(Event::Consent(true)), Action::AwaitNavigation));
    assert!(matches!(s.advance(Event::Completed), Action::TypeQuery(_)));
    assert!(matches!(s.advance(Event::Completed), Action::Submit));
    assert!(matches!(s.advance(Event::Completed), Action::CheckAutocorrect));
    assert!(matches!(s.advance(Event::Autocorrect(false)), Action::AwaitSettle));
    assert!(matches!(s.advance(Event::Completed), Action::ReadPage));
    assert!(matches!(s.advance(Event::Page(big_page("<p>ok</p>"))), Action::ExtractDom));
    assert!(matches!(s.advance(Event::Candidates(vec![])), Action::ScanScripts));
    assert!(matches!(s.advance(Event::ScriptFailed), Action::ReadScriptContext));
    let found = vec![SearchResult { title: "T".into(), link: "https://t.example/".into(), snippet: "".into() }];
    assert!(matches!(s.advance(Event::Candidates(found)), Action::Finish(SearchOutcome::Found(_))));
    assert_eq!(s.method(), Some(ExtractionMethod::JsContext));
}

#[test]
fn renderer_failure_and_stray_events_end_attempt() {
    let mut s = SearchSession::start(Engine::Google, "rust".to_string(), None);
    assert!(matches!(s.advance(Event::Failed(CrawlError::Launch)), Action::Finish(SearchOutcome::Failed(CrawlError::Launch))));
    let mut t = SearchSession::start(Engine::Bing, "rust".to_string(), None);
    assert!(matches!(t.advance(Event::ScriptFailed), Action::Finish(SearchOutcome::Failed(CrawlError::Protocol))));
}

#[test]
fn generic_attempt_uses_selectors() {
    let sel = Some(vec![("title".to_string(), "h1".to_string())]);
    let mut s = SearchSession::start(Engine::Generic, "http://example.test".to_string(), sel);
    assert_eq!(expect_navigate(s.advance(Event::Completed)), "http://example.test");
    assert!(matches!(s.advance(Event::Completed), Action::AwaitSettle));
    assert!(matches!(s.advance(Event::Completed), Action::ReadPage));
    match s.advance(Event::Page("<html><body><h1>Hello</h1></body></html>".to_string())) {
        Action::Finish(SearchOutcome::Found(d)) => {
            assert_eq!(d.results.len(), 1);
            assert!(d.results[0].snippet.contains("Hello"));
        }
        _ => panic!("expected results"),
    }
}

#[test]
fn google_retries_with_linear_backoff() {
    let empty = SearchOutcome::EmptyResult(String::new());
    assert_eq!(after_attempt(Engine::Google, 1, &empty), RetryStep::RetryAfter(5));
    assert_eq!(after_attempt(Engine::Google, 2, &SearchOutcome::Failed(CrawlError::Navigation)), RetryStep::RetryAfter(10));
    assert_eq!(after_attempt(Engine::Google, 3, &empty), RetryStep::Deliver);
    assert_eq!(after_attempt(Engine::Bing, 1, &empty), RetryStep::Deliver);
}

#[test]
fn keystroke_pauses_stay_in_range() {
    assert_eq!(pause_for(Engine::Bing, 0), 80);
    assert_eq!(pause_for(Engine::Bing, 119), 199);
    assert_eq!(pause_for(Engine::Google, 150), 100);
    for _ in 0..50 {
        let d = keystroke_delay_ms(Engine::Bing);
        assert!((80..200).contains(&d));
    }
}

#[test]
fn launch_plan_rotates_pool() {
    let mut pool = ProxyPool::new();
    pool.add("a:1").unwrap();
    pool.add("b:2").unwrap();
    assert_eq!(plan_launch(Engine::Bing, &mut pool).proxy.unwrap().id, "a:1");
    assert_eq!(plan_launch(Engine::Google, &mut pool).proxy.unwrap().id, "b:2");
    let g = plan_launch(Engine::Generic, &mut pool);
    assert!(g.proxy.is_none());
    assert!(g.user_agent.starts_with("Mozilla/5.0"));
}

#[test]
fn worker_reacts_to_polls() {
    assert!(matches!(next_step(Poll::Empty), WorkerStep::Pause(1000)));
    assert!(matches!(next_step(Poll::QueueError), WorkerStep::Pause(5000)));
    assert!(matches!(next_step(Poll::Job(job("x"))), WorkerStep::Process(j) if j.id == "x"));
}

#[test]
fn finished_job_leaves_record_and_blob() {
    let j = job("42");
    assert_eq!(blob_key(&j), "bing/42.html");
    let html = "<html><head><meta name=\"author\" content=\"Ann\"></head><body>x</body></html>";
    let page = Some(extract_website_data("https://a.example/", "https://a.example/", "A", html, "body"));
    let (key, stored) = markup_to_store(&j, &page).unwrap();
    assert_eq!(key, "bing/42.html");
    assert_eq!(stored, html);
    let rec = completed_record(&j, "{}".to_string(), &page);
    assert_eq!(rec.status, "completed");
    assert_eq!(rec.meta_author.as_deref(), Some("Ann"));
    let none = completed_record(&j, "{}".to_string(), &None);
    assert_eq!(none.extracted_text.as_deref(), Some(""));
    assert!(markup_to_store(&j, &None).is_none());
}

#[test]
fn first_link_is_followed() {
    let d = rust_crawler::serp::generic_crawl("http://x.test", "<html></html>", &None);
    assert_eq!(first_result_link(&d).as_deref(), Some("http://x.test"));
}

#[test]
fn crawl_request_becomes_job() {
    let id = new_task_id();
    assert_eq!(id.len(), 36);
    assert_eq!(id.matches('-').count(), 4);
    assert!(id.chars().all(|c| c == '-' || c.is_ascii_digit() || ('a'..='f').contains(&c)));
    let j = job_for_request(id.clone(), CrawlRequest { keyword: "k".into(), engine: None, selectors: None });
    assert_eq!(j.engine, "bing");
    assert_eq!(j.id, id);
    let r = crawl_response(id.clone(), true);
    assert_eq!(r.message, "Crawl job queued successfully");
    assert_eq!(crawl_response(id, false).message, "Failed to queue job");
}

#[test]
fn proxy_endpoints_report_outcomes() {
    let mut pool = ProxyPool::new();
    let ok = add_proxy(&mut pool, AddProxyRequest { proxy: "u:p@h.example:80".into() });
    assert!(ok.success);
    assert_eq!(ok.proxy.unwrap().id, "h.example:80");
    let bad = add_proxy(&mut pool, AddProxyRequest { proxy: "nonsense".into() });
    assert!(!bad.success && bad.error.is_some());
    assert!(enable_proxy(&mut pool, "h.example:80").success);
    assert!(remove_proxy(&mut pool, "h.example:80").success);
    let gone = remove_proxy(&mut pool, "h.example:80");
    assert_eq!(gone.error.as_deref(), Some("proxy not found"));
}

#[test]
fn scheduler_fires_daily_job() {
    let j = daily_job("d1".to_string());
    assert_eq!(j.keyword, "daily trend analysis");
    assert_eq!(j.engine, "bing");
    assert_eq!(secs_until_midnight(86399), 1);
    assert_eq!(secs_until_midnight(0), 0);
}

#[test]
fn launch_arguments_carry_agent_and_proxy() {
    let mut pool = ProxyPool::new();
    pool.add("socks5://p.example:1080").unwrap();
    let plan = plan_launch(Engine::Bing, &mut pool);
    let args = launch_args(&plan);
    assert_eq!(args.len(), 9);
    assert_eq!(args[0], "--disable-blink-features=AutomationControlled");
    assert!(args[7].starts_with("--user-agent=Mozilla/5.0"));
    assert_eq!(args[8], "--proxy-server=socks5://p.example:1080");
    let generic = plan_launch(Engine::Generic, &mut pool);
    assert_eq!(launch_args(&generic).len(), 8);
}

#[test]
fn stealth_script_masks_automation() {
    let s = stealth_script();
    assert!(s.contains("'webdriver'"));
    assert!(s.contains("RTCPeerConnection"));
    assert!(s.contains("37445"));
}

#[test]
fn repeated_selector_keys_are_detected() {
    let ok = Some(vec![("a".to_string(), "h1".to_string()), ("b".to_string(), "h2".to_string())]);
    let dup = Some(vec![("a".to_string(), "h1".to_string()), ("a".to_string(), "h2".to_string())]);
    assert!(selector_keys_unique(&ok));
    assert!(!selector_keys_unique(&dup));
    assert!(selector_keys_unique(&None));
}

#[test]
fn added_proxy_is_the_parsed_one() {
    let mut pool = ProxyPool::new();
    let r = add_proxy(&mut pool, AddProxyRequest { proxy: "10.0.0.1:8080".into() });
    let d = r.proxy.unwrap();
    assert_eq!((d.id.as_str(), d.host.as_str(), d.port), ("10.0.0.1:8080", "10.0.0.1", 8080));
    assert!(d.username.is_none() && d.password.is_none());
    assert!(enable_proxy(&mut pool, "10.0.0.1:8080").success);
    assert!(enable_proxy(&mut pool, "10.0.0.1:8080").success);
    assert_eq!(pool.list().len(), 1);
}

#[test]
fn outcomes_decide_jobs() {
    let empty = || SearchOutcome::EmptyResult(String::new());
    assert!(matches!(disposition(Engine::Bing, empty()), JobDisposition::Complete(d) if d.results.is_empty()));
    assert!(matches!(disposition(Engine::Google, empty()), JobDisposition::Fail("no_results_found")));
    assert!(matches!(
        disposition(Engine::Bing, SearchOutcome::ChallengeDetected(String::new())),
        JobDisposition::Fail("challenge_detected")
    ));
    assert!(matches!(
        disposition(Engine::Generic, SearchOutcome::Failed(CrawlError::Navigation)),
        JobDisposition::Fail("renderer_failure")
    ));
    let d = rust_crawler::serp::generic_crawl("http://x.test", "<html></html>", &None);
    assert!(matches!(disposition(Engine::Generic, SearchOutcome::Found(d)), JobDisposition::Complete(x) if x.results.len() == 1));
}
