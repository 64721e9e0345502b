//! Search automation as a state machine. The renderer is driven from
//! outside: each step takes the event of the last action performed and
//! gives the next action, up to a final outcome.
use vstd::prelude::*;
use crate::challenge::{classify_page, verdict_of, PageVerdict};
use crate::proxy::{scheme_name, ProxyDescriptor, ProxyPool};
use crate::queue::Engine;
use crate::serp::{
    bing_serp, generic_crawl, generic_serp, google_serp, parse_bing, parse_google, results_view,
    selectors_ok, selectors_view, texts_view, ResultView, SearchResult, SerpData, SerpView,
};

verus! {

/// Attempts that a Google search makes before it gives up.
pub const MAX_GOOGLE_ATTEMPTS: u32 = 3;

/// Seconds of backoff per attempt number before a Google retry.
pub const BACKOFF_SECS: u64 = 5;

/// Renderer-level failures.
#[derive(PartialEq, Eq, Structural, Clone, Copy, Debug)]
pub enum CrawlError {
    /// The browser could not be started.
    Launch,
    /// A navigation did not commit.
    Navigation,
    /// A script evaluation or page read failed.
    Script,
    /// The renderer reported an event that the current stage does not expect.
    Protocol,
}

/// Where extracted results came from.
#[derive(PartialEq, Eq, Structural, Clone, Copy, Debug)]
pub enum ExtractionMethod {
    /// Structural extraction from the rendered page.
    Dom,
    /// A data blob embedded in an inline script.
    ScriptFallback,
    /// The page's script-context global.
    JsContext,
    /// The operator's field selectors.
    Selectors,
}

#[derive(PartialEq, Eq, Structural, Clone, Copy, Debug)]
pub enum Stage {
    Launch,
    NavigateHome,
    ConsentCheck,
    ConsentWait,
    TypeQuery,
    Submit,
    AutocorrectCheck,
    AutocorrectWait,
    Settle,
    ChallengeCheck,
    ExtractDom,
    ExtractScripts,
    ExtractContext,
    Done,
}

/// What the renderer reports after an action.
pub enum Event {
    /// The action finished.
    Completed,
    /// The action failed.
    Failed(CrawlError),
    /// The consent check ran; whether it clicked an accept button.
    Consent(bool),
    /// The autocorrect check ran; whether it clicked the link back to the query as typed.
    Autocorrect(bool),
    /// The rendered markup.
    Page(String),
    /// Result candidates that an extraction script returned.
    Candidates(Vec<SearchResult>),
    /// An extraction script itself failed.
    ScriptFailed,
}

pub enum EventView {
    Completed,
    Failed(CrawlError),
    Consent(bool),
    Autocorrect(bool),
    Page(Seq<char>),
    Candidates(Seq<ResultView>),
    ScriptFailed,
}

impl View for Event {
    type V = EventView;

    open spec fn view(&self) -> EventView {
        match self {
            Event::Completed => EventView::Completed,
            Event::Failed(e) => EventView::Failed(*e),
            Event::Consent(b) => EventView::Consent(*b),
            Event::Autocorrect(b) => EventView::Autocorrect(*b),
            Event::Page(h) => EventView::Page(h@),
            Event::Candidates(c) => EventView::Candidates(results_view(c@)),
            Event::ScriptFailed => EventView::ScriptFailed,
        }
    }
}

/// How a search ended.
pub enum SearchOutcome {
    Found(SerpData),
    /// A block or verification page; its markup, for triage.
    ChallengeDetected(String),
    /// A page too small to hold results; its markup.
    PageTooSmall(String),
    /// No results on an ordinary page; its markup.
    EmptyResult(String),
    Failed(CrawlError),
}

pub enum OutcomeView {
    Found(SerpView),
    ChallengeDetected(Seq<char>),
    PageTooSmall(Seq<char>),
    EmptyResult(Seq<char>),
    Failed(CrawlError),
}

impl View for SearchOutcome {
    type V = OutcomeView;

    open spec fn view(&self) -> OutcomeView {
        match self {
            SearchOutcome::Found(d) => OutcomeView::Found(d@),
            SearchOutcome::ChallengeDetected(h) => OutcomeView::ChallengeDetected(h@),
            SearchOutcome::PageTooSmall(h) => OutcomeView::PageTooSmall(h@),
            SearchOutcome::EmptyResult(h) => OutcomeView::EmptyResult(h@),
            SearchOutcome::Failed(e) => OutcomeView::Failed(*e),
        }
    }
}

/// What the renderer is to do next.
pub enum Action {
    Navigate(String),
    CheckConsent,
    AwaitNavigation,
    /// Type the text one character at a time.
    TypeQuery(String),
    Submit,
    CheckAutocorrect,
    /// Wait for the page to stop changing.
    AwaitSettle,
    ReadPage,
    ExtractDom,
    ScanScripts,
    ReadScriptContext,
    Finish(SearchOutcome),
}

pub enum ActionView {
    Navigate(Seq<char>),
    CheckConsent,
    AwaitNavigation,
    TypeQuery(Seq<char>),
    Submit,
    CheckAutocorrect,
    AwaitSettle,
    ReadPage,
    ExtractDom,
    ScanScripts,
    ReadScriptContext,
    Finish(OutcomeView),
}

impl View for Action {
    type V = ActionView;

    open spec fn view(&self) -> ActionView {
        match self {
            Action::Navigate(u) => ActionView::Navigate(u@),
            Action::CheckConsent => ActionView::CheckConsent,
            Action::AwaitNavigation => ActionView::AwaitNavigation,
            Action::TypeQuery(q) => ActionView::TypeQuery(q@),
            Action::Submit => ActionView::Submit,
            Action::CheckAutocorrect => ActionView::CheckAutocorrect,
            Action::AwaitSettle => ActionView::AwaitSettle,
            Action::ReadPage => ActionView::ReadPage,
            Action::ExtractDom => ActionView::ExtractDom,
            Action::ScanScripts => ActionView::ScanScripts,
            Action::ReadScriptContext => ActionView::ReadScriptContext,
            Action::Finish(o) => ActionView::Finish(o@),
        }
    }
}

/// One search attempt in progress.
pub struct SearchSession {
    engine: Engine,
    target: String,
    selectors: Option<Vec<(String, String)>>,
    stage: Stage,
    page: String,
    method: Option<ExtractionMethod>,
}

pub struct SessionView {
    pub engine: Engine,
    /// The keyword, or the URL of a generic crawl.
    pub target: Seq<char>,
    pub selectors: Option<Seq<(Seq<char>, Seq<char>)>>,
    pub stage: Stage,
    /// The markup read at the challenge check.
    pub page: Seq<char>,
    pub method: Option<ExtractionMethod>,
}

impl View for SearchSession {
    type V = SessionView;

    closed spec fn view(&self) -> SessionView {
        SessionView {
            engine: self.engine,
            target: self.target@,
            selectors: selectors_view(self.selectors),
            stage: self.stage,
            page: self.page@,
            method: self.method,
        }
    }
}

/// Where an attempt starts: the engine's home page, or the target itself
/// for a generic crawl.
pub open spec fn home_of(engine: Engine, target: Seq<char>) -> Seq<char> {
    match engine {
        Engine::Bing => "https://www.bing.com/?cc=US"@,
        Engine::Google => "https://www.google.com/?hl=en"@,
        Engine::Generic => target,
    }
}

/// The outcome that a page and its results give, by `verdict_of`.
pub open spec fn judged(page: Seq<char>, d: SerpView) -> OutcomeView {
    match verdict_of(page, d.results.len()) {
        PageVerdict::Results => OutcomeView::Found(d),
        PageVerdict::ChallengeDetected => OutcomeView::ChallengeDetected(page),
        PageVerdict::PageTooSmall => OutcomeView::PageTooSmall(page),
        PageVerdict::EmptyResult => OutcomeView::EmptyResult(page),
    }
}

/// A Google attempt's outcome from its page and extracted candidates.
pub open spec fn google_outcome(page: Seq<char>, c: Seq<ResultView>) -> OutcomeView {
    let d = google_serp(page, c);
    if d.results.len() == 0 {
        OutcomeView::EmptyResult(page)
    } else {
        OutcomeView::Found(d)
    }
}

pub open spec fn moved(s: SessionView, stage: Stage) -> SessionView {
    SessionView { stage, ..s }
}

pub open spec fn finished(s: SessionView, o: OutcomeView) -> (SessionView, ActionView) {
    (moved(s, Stage::Done), ActionView::Finish(o))
}

/// The renderer's read of the page at the challenge check.
pub open spec fn after_page(s: SessionView, html: Seq<char>) -> (SessionView, ActionView) {
    match s.engine {
        Engine::Generic => (
            SessionView { stage: Stage::Done, method: Some(ExtractionMethod::Selectors), ..s },
            ActionView::Finish(OutcomeView::Found(generic_serp(s.target, html, s.selectors))),
        ),
        Engine::Bing => (
            SessionView { stage: Stage::Done, method: Some(ExtractionMethod::Dom), ..s },
            ActionView::Finish(judged(html, bing_serp(html))),
        ),
        Engine::Google => if verdict_of(html, 1) == PageVerdict::Results {
            (SessionView { stage: Stage::ExtractDom, page: html, ..s }, ActionView::ExtractDom)
        } else {
            finished(s, judged(html, google_serp(html, Seq::empty())))
        },
    }
}

/// Finishing a Google attempt with candidates found by `method`.
pub open spec fn google_done(s: SessionView, c: Seq<ResultView>, method: ExtractionMethod) -> (
    SessionView,
    ActionView,
) {
    (
        SessionView { stage: Stage::Done, method: Some(method), ..s },
        ActionView::Finish(google_outcome(s.page, c)),
    )
}

/// One step of the attempt: the session after event `e` and the next action.
pub open spec fn step(s: SessionView, e: EventView) -> (SessionView, ActionView) {
    let g = s.engine == Engine::Google;
    match (s.stage, e) {
        (Stage::Done, _) => finished(s, OutcomeView::Failed(CrawlError::Protocol)),
        (_, EventView::Failed(err)) => finished(s, OutcomeView::Failed(err)),
        (Stage::Launch, EventView::Completed) => (
            moved(s, Stage::NavigateHome),
            ActionView::Navigate(home_of(s.engine, s.target)),
        ),
        (Stage::NavigateHome, EventView::Completed) => match s.engine {
            Engine::Google => (moved(s, Stage::ConsentCheck), ActionView::CheckConsent),
            Engine::Bing => (moved(s, Stage::TypeQuery), ActionView::TypeQuery(s.target)),
            Engine::Generic => (moved(s, Stage::Settle), ActionView::AwaitSettle),
        },
        (Stage::ConsentCheck, EventView::Consent(clicked)) => if clicked {
            (moved(s, Stage::ConsentWait), ActionView::AwaitNavigation)
        } else {
            (moved(s, Stage::TypeQuery), ActionView::TypeQuery(s.target))
        },
        (Stage::ConsentWait, EventView::Completed) => (
            moved(s, Stage::TypeQuery),
            ActionView::TypeQuery(s.target),
        ),
        (Stage::TypeQuery, EventView::Completed) => (moved(s, Stage::Submit), ActionView::Submit),
        (Stage::Submit, EventView::Completed) => if g {
            (moved(s, Stage::AutocorrectCheck), ActionView::CheckAutocorrect)
        } else {
            (moved(s, Stage::Settle), ActionView::AwaitSettle)
        },
        (Stage::AutocorrectCheck, EventView::Autocorrect(clicked)) => if clicked {
            (moved(s, Stage::AutocorrectWait), ActionView::AwaitNavigation)
        } else {
            (moved(s, Stage::Settle), ActionView::AwaitSettle)
        },
        (Stage::AutocorrectWait, EventView::Completed) => (
            moved(s, Stage::Settle),
            ActionView::AwaitSettle,
        ),
        (Stage::Settle, EventView::Completed) => (
            moved(s, Stage::ChallengeCheck),
            ActionView::ReadPage,
        ),
        (Stage::ChallengeCheck, EventView::Page(html)) => after_page(s, html),
        (Stage::ExtractDom, EventView::Candidates(c)) => if c.len() > 0 {
            google_done(s, c, ExtractionMethod::Dom)
        } else {
            (moved(s, Stage::ExtractScripts), ActionView::ScanScripts)
        },
        (Stage::ExtractDom, EventView::ScriptFailed) => (
            moved(s, Stage::ExtractContext),
            ActionView::ReadScriptContext,
        ),
        (Stage::ExtractScripts, EventView::Candidates(c)) => google_done(
            s,
            c,
            ExtractionMethod::ScriptFallback,
        ),
        (Stage::ExtractScripts, EventView::ScriptFailed) => (
            moved(s, Stage::ExtractContext),
            ActionView::ReadScriptContext,
        ),
        (Stage::ExtractContext, EventView::Candidates(c)) => google_done(
            s,
            c,
            ExtractionMethod::JsContext,
        ),
        (Stage::ExtractContext, EventView::ScriptFailed) => google_done(
            s,
            Seq::empty(),
            ExtractionMethod::JsContext,
        ),
        _ => finished(s, OutcomeView::Failed(CrawlError::Protocol)),
    }
}

impl SearchSession {
    /// A new attempt at `target` (a keyword, or a URL for a generic crawl),
    /// waiting for the renderer's launch.
    pub fn start(engine: Engine, target: String, selectors: Option<Vec<(String, String)>>) -> (r:
        SearchSession)
        requires
            selectors_ok(selectors_view(selectors)),
        ensures
            r@ == (SessionView {
                engine,
                target: target@,
                selectors: selectors_view(selectors),
                stage: Stage::Launch,
                page: Seq::empty(),
                method: None,
            }),
    {
        SearchSession { engine, target, selectors, stage: Stage::Launch, page: String::new(), method: None }
    }

    pub fn stage(&self) -> (r: Stage)
        ensures
            r == self@.stage,
    {
        self.stage
    }

    pub fn method(&self) -> (r: Option<ExtractionMethod>)
        ensures
            r == self@.method,
    {
        self.method
    }

    fn finish(&mut self, o: SearchOutcome) -> (r: Action)
        ensures
            final(self)@ == moved(old(self)@, Stage::Done),
            r@ == ActionView::Finish(o@),
    {
        self.stage = Stage::Done;
        Action::Finish(o)
    }

    fn go(&mut self, stage: Stage, a: Action) -> (r: Action)
        ensures
            final(self)@ == moved(old(self)@, stage),
            r@ == a@,
    {
        self.stage = stage;
        a
    }

    fn google_finish(&mut self, c: Vec<SearchResult>, method: ExtractionMethod) -> (r: Action)
        ensures
            (final(self)@, r@) == google_done(old(self)@, results_view(c@), method),
    {
        let d = parse_google(self.page.as_str(), c);
        self.stage = Stage::Done;
        self.method = Some(method);
        if d.results.len() == 0 {
            Action::Finish(SearchOutcome::EmptyResult(self.page.clone()))
        } else {
            Action::Finish(SearchOutcome::Found(d))
        }
    }

    fn read_page(&mut self, html: String) -> (r: Action)
        requires
            old(self)@.stage == Stage::ChallengeCheck,
            selectors_ok(old(self)@.selectors),
        ensures
            (final(self)@, r@) == after_page(old(self)@, html@),
    {
        match self.engine {
            Engine::Generic => {
                let d = generic_crawl(self.target.as_str(), html.as_str(), &self.selectors);
                self.stage = Stage::Done;
                self.method = Some(ExtractionMethod::Selectors);
                Action::Finish(SearchOutcome::Found(d))
            },
            Engine::Bing => {
                let d = parse_bing(html.as_str());
                self.stage = Stage::Done;
                self.method = Some(ExtractionMethod::Dom);
                match classify_page(html.as_str(), d.results.len()) {
                    PageVerdict::Results => Action::Finish(SearchOutcome::Found(d)),
                    PageVerdict::ChallengeDetected => Action::Finish(
                        SearchOutcome::ChallengeDetected(html),
                    ),
                    PageVerdict::PageTooSmall => Action::Finish(SearchOutcome::PageTooSmall(html)),
                    PageVerdict::EmptyResult => Action::Finish(SearchOutcome::EmptyResult(html)),
                }
            },
            Engine::Google => {
                match classify_page(html.as_str(), 1) {
                    PageVerdict::Results => {
                        self.stage = Stage::ExtractDom;
                        self.page = html;
                        Action::ExtractDom
                    },
                    PageVerdict::ChallengeDetected => self.finish(
                        SearchOutcome::ChallengeDetected(html),
                    ),
                    _ => self.finish(SearchOutcome::PageTooSmall(html)),
                }
            },
        }
    }

    /// Takes the event of the last action and gives the next action (see
    /// `step`). A failure ends the attempt with that failure; an event that
    /// the stage does not expect ends it as a protocol failure.
    pub fn advance(&mut self, e: Event) -> (r: Action)
        requires
            selectors_ok(old(self)@.selectors),
        ensures
            (final(self)@, r@) == step(old(self)@, e@),
            final(self)@.selectors == old(self)@.selectors,
    {
        let google = self.engine == Engine::Google;
        if self.stage == Stage::Done {
            return self.finish(SearchOutcome::Failed(CrawlError::Protocol));
        }
        match e {
            Event::Failed(err) => self.finish(SearchOutcome::Failed(err)),
            Event::Completed => match self.stage {
                Stage::Launch => {
                    let url = match self.engine {
                        Engine::Bing => "https://www.bing.com/?cc=US".to_owned(),
                        Engine::Google => "https://www.google.com/?hl=en".to_owned(),
                        Engine::Generic => self.target.clone(),
                    };
                    self.go(Stage::NavigateHome, Action::Navigate(url))
                },
                Stage::NavigateHome => match self.engine {
                    Engine::Google => self.go(Stage::ConsentCheck, Action::CheckConsent),
                    Engine::Bing => {
                        let q = self.target.clone();
                        self.go(Stage::TypeQuery, Action::TypeQuery(q))
                    },
                    Engine::Generic => self.go(Stage::Settle, Action::AwaitSettle),
                },
                Stage::ConsentWait => {
                    let q = self.target.clone();
                    self.go(Stage::TypeQuery, Action::TypeQuery(q))
                },
                Stage::TypeQuery => self.go(Stage::Submit, Action::Submit),
                Stage::Submit => if google {
                    self.go(Stage::AutocorrectCheck, Action::CheckAutocorrect)
                } else {
                    self.go(Stage::Settle, Action::AwaitSettle)
                },
                Stage::AutocorrectWait => self.go(Stage::Settle, Action::AwaitSettle),
                Stage::Settle => self.go(Stage::ChallengeCheck, Action::ReadPage),
                _ => self.finish(SearchOutcome::Failed(CrawlError::Protocol)),
            },
            Event::Consent(clicked) => if self.stage == Stage::ConsentCheck {
                if clicked {
                    self.go(Stage::ConsentWait, Action::AwaitNavigation)
                } else {
                    let q = self.target.clone();
                    self.go(Stage::TypeQuery, Action::TypeQuery(q))
                }
            } else {
                self.finish(SearchOutcome::Failed(CrawlError::Protocol))
            },
            Event::Autocorrect(clicked) => if self.stage == Stage::AutocorrectCheck {
                if clicked {
                    self.go(Stage::AutocorrectWait, Action::AwaitNavigation)
                } else {
                    self.go(Stage::Settle, Action::AwaitSettle)
                }
            } else {
                self.finish(SearchOutcome::Failed(CrawlError::Protocol))
            },
            Event::Page(html) => if self.stage == Stage::ChallengeCheck {
                self.read_page(html)
            } else {
                self.finish(SearchOutcome::Failed(CrawlError::Protocol))
            },
            Event::Candidates(c) => match self.stage {
                Stage::ExtractDom => if c.len() > 0 {
                    self.google_finish(c, ExtractionMethod::Dom)
                } else {
                    self.go(Stage::ExtractScripts, Action::ScanScripts)
                },
                Stage::ExtractScripts => self.google_finish(c, ExtractionMethod::ScriptFallback),
                Stage::ExtractContext => self.google_finish(c, ExtractionMethod::JsContext),
                _ => self.finish(SearchOutcome::Failed(CrawlError::Protocol)),
            },
            Event::ScriptFailed => match self.stage {
                Stage::ExtractDom => self.go(Stage::ExtractContext, Action::ReadScriptContext),
                Stage::ExtractScripts => self.go(Stage::ExtractContext, Action::ReadScriptContext),
                Stage::ExtractContext => self.google_finish(Vec::new(), ExtractionMethod::JsContext),
                _ => self.finish(SearchOutcome::Failed(CrawlError::Protocol)),
            },
        }
    }
}

/// What to do once an attempt has finished.
#[derive(PartialEq, Eq, Structural, Clone, Copy, Debug)]
pub enum RetryStep {
    /// Hand the outcome to the caller.
    Deliver,
    /// Wait this many seconds, then make another attempt.
    RetryAfter(u64),
}

/// The retry policy: a Google attempt that found nothing, for whatever
/// reason, is repeated after `BACKOFF_SECS` times its number in seconds, up
/// to `MAX_GOOGLE_ATTEMPTS` attempts; every other outcome is delivered.
pub open spec fn retry_step(engine: Engine, attempt: u32, found: bool) -> RetryStep {
    if engine == Engine::Google && !found && attempt < MAX_GOOGLE_ATTEMPTS {
        RetryStep::RetryAfter((BACKOFF_SECS * attempt) as u64)
    } else {
        RetryStep::Deliver
    }
}

/// Whether an outcome found results.
pub fn succeeded(o: &SearchOutcome) -> (r: bool)
    ensures
        r == (o is Found),
{
    match o {
        SearchOutcome::Found(_) => true,
        _ => false,
    }
}

/// Decides what follows attempt number `attempt` (counted from one).
pub fn after_attempt(engine: Engine, attempt: u32, outcome: &SearchOutcome) -> (r: RetryStep)
    ensures
        r == retry_step(engine, attempt, outcome is Found),
{
    if engine == Engine::Google && !succeeded(outcome) && attempt < MAX_GOOGLE_ATTEMPTS {
        RetryStep::RetryAfter(BACKOFF_SECS * (attempt as u64))
    } else {
        RetryStep::Deliver
    }
}

/// A search never makes more than `MAX_GOOGLE_ATTEMPTS` attempts, and only
/// Google searches make more than one.
pub proof fn lemma_retry_bounded(engine: Engine, attempt: u32, found: bool)
    ensures
        attempt >= MAX_GOOGLE_ATTEMPTS ==> retry_step(engine, attempt, found) == RetryStep::Deliver,
        engine != Engine::Google ==> retry_step(engine, attempt, found) == RetryStep::Deliver,
        found ==> retry_step(engine, attempt, found) == RetryStep::Deliver,
{
}

/// Relies on `rand::random` for a `u64`; nothing is known of the value.
#[verifier::external_body]
fn random_roll() -> (r: u64) {
    rand::random::<u64>()
}

/// The user agents that launches present themselves as.
pub open spec fn user_agents() -> Seq<Seq<char>> {
    seq![
        "Mozilla/5.0 (Windows NT 10.0; Win64; x64) AppleWebKit/537.36 (KHTML, like Gecko) Chrome/123.0.0.0 Safari/537.36"@,
        "Mozilla/5.0 (Macintosh; Intel Mac OS X 10_15_7) AppleWebKit/537.36 (KHTML, like Gecko) Chrome/123.0.0.0 Safari/537.36"@,
        "Mozilla/5.0 (Windows NT 10.0; Win64; x64; rv:124.0) Gecko/20100101 Firefox/124.0"@,
        "Mozilla/5.0 (Macintosh; Intel Mac OS X 10.15; rv:124.0) Gecko/20100101 Firefox/124.0"@,
        "Mozilla/5.0 (Macintosh; Intel Mac OS X 10_15_7) AppleWebKit/605.1.15 (KHTML, like Gecko) Version/17.4 Safari/605.1.15"@,
        "Mozilla/5.0 (Windows NT 10.0; Win64; x64) AppleWebKit/537.36 (KHTML, like Gecko) Edge/123.0.0.0 Safari/537.36"@,
    ]
}

/// The user agent that a roll of the dice picks.
pub fn user_agent_for(roll: u64) -> (r: &'static str)
    ensures
        r@ == user_agents()[(roll % 6) as int],
{
    let agents: [&'static str; 6] = [
        "Mozilla/5.0 (Windows NT 10.0; Win64; x64) AppleWebKit/537.36 (KHTML, like Gecko) Chrome/123.0.0.0 Safari/537.36",
        "Mozilla/5.0 (Macintosh; Intel Mac OS X 10_15_7) AppleWebKit/537.36 (KHTML, like Gecko) Chrome/123.0.0.0 Safari/537.36",
        "Mozilla/5.0 (Windows NT 10.0; Win64; x64; rv:124.0) Gecko/20100101 Firefox/124.0",
        "Mozilla/5.0 (Macintosh; Intel Mac OS X 10.15; rv:124.0) Gecko/20100101 Firefox/124.0",
        "Mozilla/5.0 (Macintosh; Intel Mac OS X 10_15_7) AppleWebKit/605.1.15 (KHTML, like Gecko) Version/17.4 Safari/605.1.15",
        "Mozilla/5.0 (Windows NT 10.0; Win64; x64) AppleWebKit/537.36 (KHTML, like Gecko) Edge/123.0.0.0 Safari/537.36",
    ];
    assert(agents@.map_values(|a: &str| a@) =~= user_agents());
    let i = (roll % 6) as usize;
    assert(agents@.map_values(|a: &str| a@)[i as int] == agents@[i as int]@);
    agents[i]
}

/// The script that runs before any page script: it hides the automation
/// flag, pins the reported core count, adds noise to canvas reads, spoofs
/// the GPU vendor and renderer strings, mocks the browser runtime object
/// and removes the real-time communication constructors that could leak
/// the true network address.
pub open spec fn stealth_source() -> Seq<char> {
    "Object.defineProperty(navigator, 'webdriver', { get: () => undefined });
Object.defineProperty(navigator, 'hardwareConcurrency', { get: () => 4 });
const nativeToDataURL = HTMLCanvasElement.prototype.toDataURL;
HTMLCanvasElement.prototype.toDataURL = function(...args) {
    if (this.width > 0 && this.height > 0) {
        const context = this.getContext('2d');
        if (context) {
            const imageData = context.getImageData(0, 0, this.width, this.height);
            if (imageData.data.length > 3) {
                imageData.data[3] = Math.max(0, Math.min(255, imageData.data[3] + (Math.random() > 0.5 ? 1 : -1)));
                context.putImageData(imageData, 0, 0);
            }
        }
    }
    return nativeToDataURL.apply(this, args);
};
const getParameter = WebGLRenderingContext.prototype.getParameter;
WebGLRenderingContext.prototype.getParameter = function(parameter) {
    if (parameter === 37445) return 'Intel Inc.';
    if (parameter === 37446) return 'Intel Iris OpenGL Engine';
    return getParameter.apply(this, [parameter]);
};
window.chrome = { runtime: {}, loadTimes: function() {}, csi: function() {}, app: {} };
['RTCPeerConnection', 'webkitRTCPeerConnection', 'mozRTCPeerConnection', 'msRTCPeerConnection'].forEach(name => {
    if (window[name]) window[name] = undefined;
});
"@
}

/// The anti-detection script to inject before any page script runs.
pub fn stealth_script() -> (r: &'static str)
    ensures
        r@ == stealth_source(),
{
    "Object.defineProperty(navigator, 'webdriver', { get: () => undefined });
Object.defineProperty(navigator, 'hardwareConcurrency', { get: () => 4 });
const nativeToDataURL = HTMLCanvasElement.prototype.toDataURL;
HTMLCanvasElement.prototype.toDataURL = function(...args) {
    if (this.width > 0 && this.height > 0) {
        const context = this.getContext('2d');
        if (context) {
            const imageData = context.getImageData(0, 0, this.width, this.height);
            if (imageData.data.length > 3) {
                imageData.data[3] = Math.max(0, Math.min(255, imageData.data[3] + (Math.random() > 0.5 ? 1 : -1)));
                context.putImageData(imageData, 0, 0);
            }
        }
    }
    return nativeToDataURL.apply(this, args);
};
const getParameter = WebGLRenderingContext.prototype.getParameter;
WebGLRenderingContext.prototype.getParameter = function(parameter) {
    if (parameter === 37445) return 'Intel Inc.';
    if (parameter === 37446) return 'Intel Iris OpenGL Engine';
    return getParameter.apply(this, [parameter]);
};
window.chrome = { runtime: {}, loadTimes: function() {}, csi: function() {}, app: {} };
['RTCPeerConnection', 'webkitRTCPeerConnection', 'mozRTCPeerConnection', 'msRTCPeerConnection'].forEach(name => {
    if (window[name]) window[name] = undefined;
});
"
}

/// How a renderer is to be launched for one attempt.
pub struct LaunchPlan {
    /// The egress point, where the pool has one in rotation.
    pub proxy: Option<ProxyDescriptor>,
    pub user_agent: &'static str,
}

/// The flags that every launch carries: automation markers off, sandbox
/// and shared-memory limits off, certificate errors ignored.
pub open spec fn base_flags() -> Seq<Seq<char>> {
    seq![
        "--disable-blink-features=AutomationControlled"@,
        "--no-sandbox"@,
        "--disable-dev-shm-usage"@,
        "--disable-infobars"@,
        "--window-position=0,0"@,
        "--ignore-certificate-errors"@,
        "--ignore-certificate-errors-spki-list"@,
    ]
}

/// The renderer's command-line arguments for a launch: the base flags, the
/// user agent, and the proxy server where the plan has one.
pub open spec fn launch_args_of(plan: LaunchPlan) -> Seq<Seq<char>> {
    base_flags() + seq!["--user-agent="@ + plan.user_agent@] + match plan.proxy {
        Some(p) => seq!["--proxy-server="@ + scheme_name(p.protocol) + "://"@ + p.id@],
        None => Seq::empty(),
    }
}

/// The renderer's command-line arguments for a launch (see `launch_args_of`).
pub fn launch_args(plan: &LaunchPlan) -> (r: Vec<String>)
    ensures
        texts_view(r@) == launch_args_of(*plan),
{
    let flags: [&'static str; 7] = [
        "--disable-blink-features=AutomationControlled",
        "--no-sandbox",
        "--disable-dev-shm-usage",
        "--disable-infobars",
        "--window-position=0,0",
        "--ignore-certificate-errors",
        "--ignore-certificate-errors-spki-list",
    ];
    assert(flags@.map_values(|f: &str| f@) =~= base_flags());
    let mut out: Vec<String> = Vec::new();
    let mut i: usize = 0;
    while i < 7
        invariant
            flags@.map_values(|f: &str| f@) == base_flags(),
            i <= 7,
            out@.len() == i,
            forall|k: int| 0 <= k < i ==> (#[trigger] out@[k])@ == base_flags()[k],
        decreases 7 - i,
    {
        assert(flags@.map_values(|f: &str| f@)[i as int] == flags@[i as int]@);
        out.push(flags[i].to_owned());
        i = i + 1;
    }
    assert(texts_view(out@) =~= base_flags());
    let mut ua = "--user-agent=".to_owned();
    ua.append(plan.user_agent);
    out.push(ua);
    assert(texts_view(out@) =~= base_flags() + seq!["--user-agent="@ + plan.user_agent@]);
    match &plan.proxy {
        Some(p) => {
            let mut server = "--proxy-server=".to_owned();
            let arg = p.chrome_arg();
            server.append(arg.as_str());
            let ghost before = texts_view(out@);
            out.push(server);
            assert(texts_view(out@) =~= before.push(server@));
            assert(server@ =~= "--proxy-server="@ + scheme_name(p.protocol) + "://"@ + p.id@);
        },
        None => {},
    }
    assert(texts_view(out@) =~= launch_args_of(*plan));
    out
}

/// Plans a launch: a random user agent and, except for a generic crawl,
/// the pool's next egress point.
pub fn plan_launch(engine: Engine, pool: &mut ProxyPool) -> (r: LaunchPlan)
    requires
        old(pool).wf(),
    ensures
        final(pool).wf(),
        user_agents().contains(r.user_agent@),
        engine == Engine::Generic ==> r.proxy is None && final(pool)@ == old(pool)@,
        engine != Engine::Generic ==> final(pool)@ == old(pool)@.advanced() && match old(
            pool,
        )@.pick() {
            Some(d) => r.proxy matches Some(x) && x@ == d,
            None => r.proxy is None,
        },
{
    let roll: u64 = random_roll();
    let user_agent = user_agent_for(roll);
    assert(user_agents()[(roll % 6) as int] == user_agent@);
    let proxy = if engine == Engine::Generic {
        None
    } else {
        pool.get_next()
    };
    LaunchPlan { proxy, user_agent }
}

/// The pause after a keystroke, in milliseconds, for a roll of the dice:
/// 80 to 199 on Bing, 100 to 249 on Google and for generic pages.
pub open spec fn keystroke_pause(engine: Engine, roll: u64) -> u64 {
    if engine == Engine::Bing {
        (80 + roll % 120) as u64
    } else {
        (100 + roll % 150) as u64
    }
}

/// The pause after a keystroke for a given roll (see `keystroke_pause`).
pub fn pause_for(engine: Engine, roll: u64) -> (r: u64)
    ensures
        r == keystroke_pause(engine, roll),
{
    if engine == Engine::Bing {
        80 + roll % 120
    } else {
        100 + roll % 150
    }
}

/// A random pause after a keystroke (see `keystroke_pause`).
pub fn keystroke_delay_ms(engine: Engine) -> (r: u64)
    ensures
        engine == Engine::Bing ==> 80 <= r < 200,
        engine != Engine::Bing ==> 100 <= r < 250,
{
    let roll: u64 = random_roll();
    pause_for(engine, roll)
}

} // verus!
