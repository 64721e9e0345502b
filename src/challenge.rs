//! Challenge detection: whether a rendered page is a provider's block or
//! verification page rather than results, and how an attempt is classified.
use vstd::prelude::*;
use vstd::utf8::encode_utf8;
use crate::text::{chars_of, contains, occurs_at};

verus! {

/// Pages of fewer bytes (UTF-8) are too small to be a results page.
pub const MIN_RESULTS_PAGE_BYTES: usize = 50000;

/// ASCII case folding: upper-case letters become lower-case, nothing else
/// changes.
pub open spec fn fold(c: char) -> char {
    if 'A' <= c && c <= 'Z' {
        ((c as u32) + 32) as char
    } else {
        c
    }
}

/// `pat` (lower-case) occurs at `i` in `s`, ignoring ASCII case.
pub open spec fn folded_occurs_at(s: Seq<char>, pat: Seq<char>, i: int) -> bool {
    0 <= i && i + pat.len() <= s.len() && forall|k: int|
        0 <= k < pat.len() ==> fold(#[trigger] s[i + k]) == pat[k]
}

/// `pat` (lower-case) occurs somewhere in `s`, ignoring ASCII case.
pub open spec fn mentions(s: Seq<char>, pat: Seq<char>) -> bool {
    exists|i: int| folded_occurs_at(s, pat, i)
}

/// The phrases of known block and verification pages, lower-case.
pub open spec fn challenge_phrases() -> Seq<Seq<char>> {
    seq![
        "prove you're not a robot"@,
        "humanity"@,
        "unusual traffic"@,
        "automated requests"@,
        "hcaptcha"@,
        "recaptcha"@,
        "turnstile"@,
        "security check"@,
        "one last step"@,
    ]
}

/// The page text mentions one of the challenge phrases, in any case.
pub open spec fn is_challenge(text: Seq<char>) -> bool {
    exists|j: int| 0 <= j < challenge_phrases().len() && mentions(text, challenge_phrases()[j])
}

/// How a search attempt ended, by what its page showed.
#[derive(PartialEq, Eq, Structural, Clone, Copy, Debug)]
pub enum PageVerdict {
    /// Results were found on an ordinary page.
    Results,
    /// The page is a block or verification page.
    ChallengeDetected,
    /// The page is smaller than a results page can be.
    PageTooSmall,
    /// An ordinary page with no results on it.
    EmptyResult,
}

impl PageVerdict {
    /// The reason that the failure log records for this verdict.
    pub fn reason(&self) -> (r: &'static str)
        ensures
            *self == PageVerdict::Results ==> r@ == "ok"@,
            *self == PageVerdict::ChallengeDetected ==> r@ == "challenge_detected"@,
            *self == PageVerdict::PageTooSmall ==> r@ == "page_too_small"@,
            *self == PageVerdict::EmptyResult ==> r@ == "no_results_found"@,
    {
        match self {
            PageVerdict::Results => "ok",
            PageVerdict::ChallengeDetected => "challenge_detected",
            PageVerdict::PageTooSmall => "page_too_small",
            PageVerdict::EmptyResult => "no_results_found",
        }
    }
}

/// The verdict on a page with characters `text`, from which `results`
/// results were extracted: a challenge phrase wins over everything, then a
/// page too small (by the length of its UTF-8 encoding), then the absence
/// of results.
pub open spec fn verdict_of(text: Seq<char>, results: nat) -> PageVerdict {
    if is_challenge(text) {
        PageVerdict::ChallengeDetected
    } else if encode_utf8(text).len() < MIN_RESULTS_PAGE_BYTES {
        PageVerdict::PageTooSmall
    } else if results == 0 {
        PageVerdict::EmptyResult
    } else {
        PageVerdict::Results
    }
}

fn fold_char(c: char) -> (r: char)
    ensures
        r == fold(c),
{
    if 'A' <= c && c <= 'Z' {
        ((c as u8) + 32) as char
    } else {
        c
    }
}

fn folded_match_at(s: &Vec<char>, pat: &Vec<char>, i: usize) -> (r: bool)
    requires
        i + pat@.len() <= s@.len(),
    ensures
        r == folded_occurs_at(s@, pat@, i as int),
{
    let mut k: usize = 0;
    while k < pat.len()
        invariant
            i + pat.len() <= s.len(),
            k <= pat.len(),
            forall|m: int| 0 <= m < k ==> fold(#[trigger] s@[i + m]) == pat@[m],
        decreases pat.len() - k,
    {
        if fold_char(s[i + k]) != pat[k] {
            return false;
        }
        k = k + 1;
    }
    true
}

/// Whether `s` mentions the lower-case `pat`, ignoring ASCII case.
pub fn mentions_folded(s: &Vec<char>, pat: &Vec<char>) -> (r: bool)
    ensures
        r == mentions(s@, pat@),
{
    if pat.len() > s.len() {
        return false;
    }
    let last = s.len() - pat.len();
    let mut i: usize = 0;
    loop
        invariant
            last == s@.len() - pat@.len(),
            i <= last,
            forall|j: int| 0 <= j < i ==> !folded_occurs_at(s@, pat@, j),
        decreases last - i,
    {
        if folded_match_at(s, pat, i) {
            return true;
        }
        if i == last {
            assert forall|j: int| !folded_occurs_at(s@, pat@, j) by {
                if 0 <= j && j < i {
                }
            }
            return false;
        }
        i = i + 1;
    }
}

/// Whether the page text holds one of the challenge phrases, in any case.
pub fn detect_challenge(html: &str) -> (r: bool)
    ensures
        r == is_challenge(html@),
{
    let s = chars_of(html);
    let phrases: [&str; 9] = [
        "prove you're not a robot",
        "humanity",
        "unusual traffic",
        "automated requests",
        "hcaptcha",
        "recaptcha",
        "turnstile",
        "security check",
        "one last step",
    ];
    assert(phrases@.map_values(|p: &str| p@) =~= challenge_phrases());
    let mut j: usize = 0;
    while j < 9
        invariant
            phrases@.map_values(|p: &str| p@) == challenge_phrases(),
            s@ == html@,
            j <= 9,
            forall|m: int| 0 <= m < j ==> !mentions(s@, challenge_phrases()[m]),
        decreases 9 - j,
    {
        let p = chars_of(phrases[j]);
        assert(p@ == challenge_phrases()[j as int]);
        if mentions_folded(&s, &p) {
            return true;
        }
        j = j + 1;
    }
    false
}

/// Classifies a search attempt by its rendered page and the number of
/// results extracted from it.
pub fn classify_page(html: &str, results: usize) -> (r: PageVerdict)
    ensures
        r == verdict_of(html@, results as nat),
{
    if detect_challenge(html) {
        PageVerdict::ChallengeDetected
    } else if html.as_bytes().len() < MIN_RESULTS_PAGE_BYTES {
        PageVerdict::PageTooSmall
    } else if results == 0 {
        PageVerdict::EmptyResult
    } else {
        PageVerdict::Results
    }
}

/// A page whose text holds "unusual traffic" is a challenge page, whatever
/// its size and however many results were extracted from it.
pub proof fn lemma_unusual_traffic_is_challenge(text: Seq<char>, results: nat)
    requires
        contains(text, "unusual traffic"@),
    ensures
        verdict_of(text, results) == PageVerdict::ChallengeDetected,
{
    reveal_strlit("unusual traffic");
    let pat = "unusual traffic"@;
    let i = choose|i: int| occurs_at(text, pat, i);
    assert forall|k: int| 0 <= k < pat.len() implies fold(#[trigger] text[i + k]) == pat[k] by {
        assert(text.subrange(i, i + pat.len())[k] == text[i + k]);
    }
    assert(folded_occurs_at(text, pat, i));
    assert(challenge_phrases()[2] == pat);
}

/// The decimal digits of `n`.
pub open spec fn decimal(n: nat) -> Seq<char>
    decreases n,
{
    if n < 10 {
        seq![(n + 48) as char]
    } else {
        decimal(n / 10).push(((n % 10) + 48) as char)
    }
}

fn digit_text(d: usize) -> (r: &'static str)
    requires
        d < 10,
    ensures
        r@ == seq![(d + 48) as char],
{
    proof {
        reveal_strlit("0");
        reveal_strlit("1");
        reveal_strlit("2");
        reveal_strlit("3");
        reveal_strlit("4");
        reveal_strlit("5");
        reveal_strlit("6");
        reveal_strlit("7");
        reveal_strlit("8");
        reveal_strlit("9");
    }
    match d {
        0 => "0",
        1 => "1",
        2 => "2",
        3 => "3",
        4 => "4",
        5 => "5",
        6 => "6",
        7 => "7",
        8 => "8",
        _ => "9",
    }
}

/// `n` written in decimal.
pub fn decimal_text(n: usize) -> (r: String)
    ensures
        r@ == decimal(n as nat),
    decreases n,
{
    if n < 10 {
        let r = digit_text(n).to_owned();
        assert(r@ =~= decimal(n as nat));
        r
    } else {
        let mut r = decimal_text(n / 10);
        r.append(digit_text(n % 10));
        assert(r@ =~= decimal(n as nat));
        r
    }
}

/// The failure log's line for an attempt that found nothing: a JSON
/// object with timestamp, engine, keyword, reason and page length.
pub fn failure_log_line(timestamp: &str, engine: &str, keyword: &str, reason: &str, html_len: usize) -> (r:
    String)
    ensures
        r@ == "{\"timestamp\":\""@ + timestamp@ + "\",\"engine\":\""@ + engine@
            + "\",\"keyword\":\""@ + keyword@ + "\",\"reason\":\""@ + reason@ + "\",\"html_len\":"@
            + decimal(html_len as nat) + "}\n"@,
{
    let mut line = "{\"timestamp\":\"".to_owned();
    line.append(timestamp);
    line.append("\",\"engine\":\"");
    line.append(engine);
    line.append("\",\"keyword\":\"");
    line.append(keyword);
    line.append("\",\"reason\":\"");
    line.append(reason);
    line.append("\",\"html_len\":");
    line.append(decimal_text(html_len).as_str());
    line.append("}\n");
    line
}

} // verus!
