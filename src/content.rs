//! The content extractor: turns a rendered page into a structured record.
//! Each step stands alone; one that finds nothing leaves its field empty.
use vstd::prelude::*;
use crate::html::{all_of, attr_of, first_of, select_all, select_first, selected, ElementView};
use vstd::utf8::encode_utf8;
use crate::redirect::{decode_search_url, destination_of};
use crate::serp::texts_view;
use crate::text::{chars_of, contains, copy_opt, occurs_at, opt_view, same_text};

verus! {

/// At most this many images are kept.
pub const MAX_IMAGES: usize = 20;

/// At most this many outbound links are kept.
pub const MAX_LINKS: usize = 50;

/// Phone-number matches shorter than this many bytes (UTF-8) are dropped.
pub const MIN_PHONE_BYTES: usize = 7;

#[verifier::external_type_specification]
#[verifier::external_body]
pub struct ExJsonValue(serde_json::Value);

/// An image on a page.
#[derive(Debug)]
pub struct ImageData {
    pub src: String,
    pub alt: Option<String>,
    pub title: Option<String>,
}

pub struct ImageView {
    pub src: Seq<char>,
    pub alt: Option<Seq<char>>,
    pub title: Option<Seq<char>>,
}

impl View for ImageData {
    type V = ImageView;

    open spec fn view(&self) -> ImageView {
        ImageView { src: self.src@, alt: opt_view(self.alt), title: opt_view(self.title) }
    }
}

pub open spec fn images_view(v: Seq<ImageData>) -> Seq<ImageView> {
    v.map_values(|i: ImageData| i@)
}

/// Everything extracted from one page.
#[derive(Debug)]
pub struct WebsiteData {
    pub url: String,
    pub final_url: String,
    pub title: String,
    pub meta_description: Option<String>,
    pub meta_keywords: Option<String>,
    pub meta_author: Option<String>,
    pub meta_date: Option<String>,
    pub main_text: String,
    /// The rendered markup.
    pub html: String,
    pub word_count: u32,
    /// Size of the markup in bytes (UTF-8).
    pub html_size: u32,
    pub schema_org: Vec<serde_json::Value>,
    pub og_title: Option<String>,
    pub og_description: Option<String>,
    pub og_image: Option<String>,
    pub og_type: Option<String>,
    /// Distinct e-mail addresses, in order of first appearance.
    pub emails: Vec<String>,
    /// Distinct phone numbers, in order of first appearance.
    pub phone_numbers: Vec<String>,
    pub images: Vec<ImageData>,
    pub outbound_links: Vec<String>,
}

/// A search together with the record of its first result's page.
#[derive(Debug)]
pub struct CrawlResult {
    pub keyword: String,
    pub engine: String,
    pub serp_data: crate::serp::SerpData,
    pub first_result_data: Option<WebsiteData>,
}

/// The text and metadata of a fetched page.
#[derive(Debug)]
pub struct ExtractedContent {
    pub html: String,
    pub text: String,
    pub meta_description: Option<String>,
    pub meta_author: Option<String>,
    pub meta_date: Option<String>,
}

/// The successive matches of regular expression `pattern` in `text`;
/// `None` where the pattern does not compile.
pub uninterp spec fn regex_matches(pattern: Seq<char>, text: Seq<char>) -> Option<Seq<Seq<char>>>;

/// Relies on `regex::Regex::new`, which refuses an invalid pattern, and on
/// `Regex::find_iter`, which gives the successive non-overlapping matches.
#[verifier::external_body]
fn find_matches(pattern: &str, text: &str) -> (r: Option<Vec<String>>)
    ensures
        r matches Some(v) ==> regex_matches(pattern@, text@) == Some(texts_view(v@)),
        r is None ==> regex_matches(pattern@, text@) is None,
{
    let re = regex::Regex::new(pattern).ok()?;
    Some(re.find_iter(text).map(|m| m.as_str().to_string()).collect())
}

/// Whether `s` is a JSON document.
pub uninterp spec fn is_json(s: Seq<char>) -> bool;

/// Relies on `serde_json::from_str`, which parses `s` as one JSON value and
/// fails exactly when it is not one.
#[verifier::external_body]
fn parse_json(s: &str) -> (r: Option<serde_json::Value>)
    ensures
        r is Some <==> is_json(s@),
{
    serde_json::from_str(s).ok()
}

/// The main text that readability gives for page `html` at `url`; `None`
/// where `url` does not parse as a URL or the page cannot be read.
pub uninterp spec fn readable_text(html: Seq<char>, url: Seq<char>) -> Option<Seq<char>>;

/// Relies on `reqwest::Url::parse` and `readability::extractor::extract`,
/// which reads the main text out of a page.
#[verifier::external_body]
fn readability_text(html: &str, url: &str) -> (r: Option<String>)
    ensures
        opt_view(r) == readable_text(html@, url@),
{
    let base = reqwest::Url::parse(url).ok()?;
    let mut reader = std::io::Cursor::new(html.as_bytes());
    readability::extractor::extract(&mut reader, &base).ok().map(|p| p.text)
}

/// The host part of URL `url`, where it parses and has one.
pub uninterp spec fn host_of(url: Seq<char>) -> Option<Seq<char>>;

/// Relies on `reqwest::Url::parse` and `Url::host_str`.
#[verifier::external_body]
fn url_host(url: &str) -> (r: Option<String>)
    ensures
        opt_view(r) == host_of(url@),
{
    reqwest::Url::parse(url).ok()?.host_str().map(|h| h.to_string())
}

/// Characters with the Unicode `White_Space` property.
pub open spec fn is_white_space(c: char) -> bool {
    ('\u{9}' <= c && c <= '\u{d}') || c == ' ' || c == '\u{85}' || c == '\u{a0}' || c
        == '\u{1680}' || ('\u{2000}' <= c && c <= '\u{200a}') || c == '\u{2028}' || c
        == '\u{2029}' || c == '\u{202f}' || c == '\u{205f}' || c == '\u{3000}'
}

/// The number of maximal runs of non-whitespace characters of `s`: a word
/// begins at each non-whitespace character that is first or follows
/// whitespace.
pub open spec fn word_count_of(s: Seq<char>) -> nat
    decreases s.len(),
{
    if s.len() == 0 {
        0
    } else {
        word_count_of(s.drop_last()) + if !is_white_space(s.last()) && (s.len() == 1
            || is_white_space(s[s.len() - 2])) {
            1nat
        } else {
            0nat
        }
    }
}

fn white_space(c: char) -> (r: bool)
    ensures
        r == is_white_space(c),
{
    ('\u{9}' <= c && c <= '\u{d}') || c == ' ' || c == '\u{85}' || c == '\u{a0}' || c
        == '\u{1680}' || ('\u{2000}' <= c && c <= '\u{200a}') || c == '\u{2028}' || c
        == '\u{2029}' || c == '\u{202f}' || c == '\u{205f}' || c == '\u{3000}'
}

proof fn lemma_word_count_bound(s: Seq<char>)
    ensures
        word_count_of(s) <= s.len(),
    decreases s.len(),
{
    if s.len() > 0 {
        lemma_word_count_bound(s.drop_last());
    }
}

/// The number of whitespace-separated words of `s`.
pub fn count_words(s: &str) -> (r: usize)
    ensures
        r == word_count_of(s@),
{
    let cs = chars_of(s);
    let mut n: usize = 0;
    let mut i: usize = 0;
    while i < cs.len()
        invariant
            cs@ == s@,
            i <= cs@.len(),
            n == word_count_of(cs@.take(i as int)),
        decreases cs.len() - i,
    {
        let ghost t = cs@.take(i + 1);
        assert(t.drop_last() =~= cs@.take(i as int));
        proof {
            lemma_word_count_bound(cs@.take(i as int));
        }
        if !white_space(cs[i]) && (i == 0 || white_space(cs[i - 1])) {
            n = n + 1;
        }
        i = i + 1;
    }
    assert(cs@.take(i as int) =~= s@);
    n
}

/// `s` without repeats, each kept where it first appears.
pub open spec fn distinct(s: Seq<Seq<char>>) -> Seq<Seq<char>>
    decreases s.len(),
{
    if s.len() == 0 {
        Seq::empty()
    } else if distinct(s.drop_last()).contains(s.last()) {
        distinct(s.drop_last())
    } else {
        distinct(s.drop_last()).push(s.last())
    }
}

fn holds_text(v: &Vec<String>, t: &str) -> (r: bool)
    ensures
        r == texts_view(v@).contains(t@),
{
    let mut i: usize = 0;
    while i < v.len()
        invariant
            i <= v@.len(),
            forall|k: int| 0 <= k < i ==> v@[k]@ != t@,
        decreases v.len() - i,
    {
        if same_text(v[i].as_str(), t) {
            assert(texts_view(v@)[i as int] == t@);
            return true;
        }
        i = i + 1;
    }
    false
}

/// Drops repeats, keeping each text where it first appears.
pub fn dedup_texts(v: Vec<String>) -> (r: Vec<String>)
    ensures
        texts_view(r@) == distinct(texts_view(v@)),
{
    let ghost tv = texts_view(v@);
    let mut out: Vec<String> = Vec::new();
    let mut i: usize = 0;
    while i < v.len()
        invariant
            tv == texts_view(v@),
            i <= v@.len(),
            texts_view(out@) == distinct(tv.take(i as int)),
        decreases v.len() - i,
    {
        assert(tv.take(i + 1).drop_last() =~= tv.take(i as int));
        if !holds_text(&out, v[i].as_str()) {
            out.push(v[i].clone());
            assert(texts_view(out@) =~= distinct(tv.take(i + 1)));
        }
        i = i + 1;
    }
    assert(tv.take(i as int) =~= tv);
    out
}

pub open spec fn email_pattern() -> Seq<char> {
    "[a-zA-Z0-9._%+-]+@[a-zA-Z0-9.-]+\\.[a-zA-Z]{2,}"@
}

pub open spec fn phone_pattern() -> Seq<char> {
    "[\\+]?[(]?[0-9]{1,3}[)]?[-\\s\\.]?[(]?[0-9]{1,4}[)]?[-\\s\\.]?[0-9]{1,4}[-\\s\\.]?[0-9]{1,9}"@
}

pub open spec fn matches_of(m: Option<Seq<Seq<char>>>) -> Seq<Seq<char>> {
    match m {
        Some(v) => v,
        None => Seq::empty(),
    }
}

/// The distinct e-mail addresses in `text`, in order of first appearance.
pub fn extract_emails(text: &str) -> (r: Vec<String>)
    ensures
        texts_view(r@) == distinct(matches_of(regex_matches(email_pattern(), text@))),
{
    match find_matches("[a-zA-Z0-9._%+-]+@[a-zA-Z0-9.-]+\\.[a-zA-Z]{2,}", text) {
        Some(v) => dedup_texts(v),
        None => Vec::new(),
    }
}

/// Those of `s` whose UTF-8 encoding is at least `MIN_PHONE_BYTES` long.
pub open spec fn long_enough(s: Seq<Seq<char>>) -> Seq<Seq<char>>
    decreases s.len(),
{
    if s.len() == 0 {
        Seq::empty()
    } else if encode_utf8(s.last()).len() >= MIN_PHONE_BYTES {
        long_enough(s.drop_last()).push(s.last())
    } else {
        long_enough(s.drop_last())
    }
}

/// The distinct phone numbers in `text` of at least `MIN_PHONE_BYTES`
/// bytes, in order of first appearance.
pub fn extract_phone_numbers(text: &str) -> (r: Vec<String>)
    ensures
        texts_view(r@) == distinct(long_enough(matches_of(regex_matches(phone_pattern(), text@)))),
{
    let found = match find_matches(
        "[\\+]?[(]?[0-9]{1,3}[)]?[-\\s\\.]?[(]?[0-9]{1,4}[)]?[-\\s\\.]?[0-9]{1,4}[-\\s\\.]?[0-9]{1,9}",
        text,
    ) {
        Some(v) => v,
        None => Vec::new(),
    };
    let ghost fv = texts_view(found@);
    let mut kept: Vec<String> = Vec::new();
    let mut i: usize = 0;
    while i < found.len()
        invariant
            fv == texts_view(found@),
            i <= found@.len(),
            texts_view(kept@) == long_enough(fv.take(i as int)),
        decreases found.len() - i,
    {
        assert(fv.take(i + 1).drop_last() =~= fv.take(i as int));
        if found[i].as_str().as_bytes().len() >= MIN_PHONE_BYTES {
            kept.push(found[i].clone());
        }
        assert(texts_view(kept@) =~= long_enough(fv.take(i + 1)));
        i = i + 1;
    }
    assert(fv.take(i as int) =~= fv);
    dedup_texts(kept)
}

/// How many of `ts` are JSON documents.
pub open spec fn json_count(ts: Seq<Seq<char>>) -> nat
    decreases ts.len(),
{
    if ts.len() == 0 {
        0
    } else {
        json_count(ts.drop_last()) + if is_json(ts.last()) {
            1nat
        } else {
            0nat
        }
    }
}

pub open spec fn texts_of(es: Seq<ElementView>) -> Seq<Seq<char>> {
    es.map_values(|e: ElementView| crate::html::text_of(e))
}

/// The structured-data blocks of a page: every `application/ld+json`
/// script that parses as JSON, in order; the others are skipped.
pub fn extract_schema_org(html: &str) -> (r: Vec<serde_json::Value>)
    ensures
        r@.len() == json_count(texts_of(all_of(selected(html@, "script[type='application/ld+json']"@)))),
{
    let scripts = select_all(html, "script[type='application/ld+json']");
    let ghost ts = texts_of(crate::html::elements_view(scripts@));
    let mut out: Vec<serde_json::Value> = Vec::new();
    let mut i: usize = 0;
    while i < scripts.len()
        invariant
            ts == texts_of(crate::html::elements_view(scripts@)),
            i <= scripts@.len(),
            out@.len() == json_count(ts.take(i as int)),
        decreases scripts.len() - i,
    {
        assert(ts.take(i + 1).drop_last() =~= ts.take(i as int));
        let body = scripts[i].text();
        match parse_json(body.as_str()) {
            Some(v) => out.push(v),
            None => {},
        }
        i = i + 1;
    }
    assert(ts.take(i as int) =~= ts);
    out
}

/// The `content` attribute of the first element that `css` selects.
pub open spec fn content_of(html: Seq<char>, css: Seq<char>) -> Option<Seq<char>> {
    match first_of(selected(html, css)) {
        Some(e) => attr_of(e, "content"@),
        None => None,
    }
}

/// The `content` attribute of the first element that `css` selects.
pub fn meta_content(html: &str, css: &str) -> (r: Option<String>)
    ensures
        opt_view(r) == content_of(html@, css@),
{
    match select_first(html, css) {
        Some(e) => e.attr("content"),
        None => None,
    }
}

/// The Open Graph title, description, image and type of a page.
pub fn extract_open_graph(html: &str) -> (r: (Option<String>, Option<String>, Option<String>, Option<String>))
    ensures
        opt_view(r.0) == content_of(html@, "meta[property='og:title']"@),
        opt_view(r.1) == content_of(html@, "meta[property='og:description']"@),
        opt_view(r.2) == content_of(html@, "meta[property='og:image']"@),
        opt_view(r.3) == content_of(html@, "meta[property='og:type']"@),
{
    (
        meta_content(html, "meta[property='og:title']"),
        meta_content(html, "meta[property='og:description']"),
        meta_content(html, "meta[property='og:image']"),
        meta_content(html, "meta[property='og:type']"),
    )
}

/// The source of an image element: `src`, else `data-src`.
pub open spec fn image_src(e: ElementView) -> Option<Seq<char>> {
    match attr_of(e, "src"@) {
        Some(s) => Some(s),
        None => attr_of(e, "data-src"@),
    }
}

/// Sources that look like tracking pixels.
pub open spec fn is_tracking(src: Seq<char>) -> bool {
    contains(src, "1x1"@) || contains(src, "pixel"@) || encode_utf8(src).len() < 10
}

/// The image that an element yields: its source made absolute against
/// `base`, with its `alt` and `title`; none for a tracking pixel.
pub open spec fn image_of(e: ElementView, base: Seq<char>) -> Option<ImageView> {
    match image_src(e) {
        Some(src) => if is_tracking(src) {
            None
        } else {
            Some(
                ImageView {
                    src: if occurs_at(src, "http"@, 0) {
                        src
                    } else {
                        base + src
                    },
                    alt: attr_of(e, "alt"@),
                    title: attr_of(e, "title"@),
                },
            )
        },
        None => None,
    }
}

pub open spec fn images_of(es: Seq<ElementView>, base: Seq<char>) -> Seq<ImageView>
    decreases es.len(),
{
    if es.len() == 0 {
        Seq::empty()
    } else {
        match image_of(es.last(), base) {
            Some(i) => images_of(es.drop_last(), base).push(i),
            None => images_of(es.drop_last(), base),
        }
    }
}

pub open spec fn first_n<T>(s: Seq<T>, n: nat) -> Seq<T> {
    if s.len() > n {
        s.take(n as int)
    } else {
        s
    }
}

fn mentions_text(s: &str, pat: &str) -> (r: bool)
    ensures
        r == contains(s@, pat@),
{
    let cs = chars_of(s);
    let ps = chars_of(pat);
    proof {
        crate::text::lemma_contains_iff_found(cs@, ps@);
    }
    crate::text::find(&cs, &ps, 0).is_some()
}

fn begins_with(s: &str, pat: &str) -> (r: bool)
    ensures
        r == occurs_at(s@, pat@, 0),
{
    let cs = chars_of(s);
    let ps = chars_of(pat);
    crate::text::matches_at(&cs, &ps, 0)
}

/// The images of a page, tracking pixels left out, sources made absolute
/// against `base_url`; at most `MAX_IMAGES`.
pub fn extract_images(html: &str, base_url: &str) -> (r: Vec<ImageData>)
    ensures
        images_view(r@) == first_n(
            images_of(all_of(selected(html@, "img"@)), base_url@),
            MAX_IMAGES as nat,
        ),
{
    let imgs = select_all(html, "img");
    let ghost es = crate::html::elements_view(imgs@);
    let mut out: Vec<ImageData> = Vec::new();
    let mut i: usize = 0;
    while i < imgs.len()
        invariant
            es == crate::html::elements_view(imgs@),
            i <= imgs@.len(),
            images_view(out@) == images_of(es.take(i as int), base_url@),
        decreases imgs.len() - i,
    {
        assert(es.take(i + 1).drop_last() =~= es.take(i as int));
        let e = &imgs[i];
        let src = match e.attr("src") {
            Some(s) => Some(s),
            None => e.attr("data-src"),
        };
        match src {
            Some(s) => {
                let tracking = mentions_text(s.as_str(), "1x1") || mentions_text(s.as_str(), "pixel")
                    || s.as_str().as_bytes().len() < 10;
                if !tracking {
                    let full = if begins_with(s.as_str(), "http") {
                        s
                    } else {
                        let mut f = base_url.to_owned();
                        f.append(s.as_str());
                        f
                    };
                    out.push(ImageData { src: full, alt: e.attr("alt"), title: e.attr("title") });
                }
            },
            None => {},
        }
        assert(images_view(out@) =~= images_of(es.take(i + 1), base_url@));
        i = i + 1;
    }
    assert(es.take(i as int) =~= es);
    let ghost all = out@;
    out.truncate(MAX_IMAGES);
    assert(images_view(out@) =~= first_n(images_view(all), MAX_IMAGES as nat));
    out
}

/// The `href` values of elements that have one.
pub open spec fn hrefs_of(es: Seq<ElementView>) -> Seq<Seq<char>>
    decreases es.len(),
{
    if es.len() == 0 {
        Seq::empty()
    } else {
        match attr_of(es.last(), "href"@) {
            Some(h) => hrefs_of(es.drop_last()).push(h),
            None => hrefs_of(es.drop_last()),
        }
    }
}

/// Absolute `http(s)` links whose host is not `domain`.
pub open spec fn outbound(hs: Seq<Seq<char>>, domain: Seq<char>) -> Seq<Seq<char>>
    decreases hs.len(),
{
    if hs.len() == 0 {
        Seq::empty()
    } else if occurs_at(hs.last(), "http"@, 0) && host_of(hs.last()) != Some(domain) {
        outbound(hs.drop_last(), domain).push(hs.last())
    } else {
        outbound(hs.drop_last(), domain)
    }
}

fn other_host(link: &str, domain: &str) -> (r: bool)
    ensures
        r == (host_of(link@) != Some(domain@)),
{
    match url_host(link) {
        Some(h) => !same_text(h.as_str(), domain),
        None => true,
    }
}

/// The distinct absolute links of a page whose host is not `base_domain`,
/// in order of first appearance; at most `MAX_LINKS`.
pub fn extract_outbound_links(html: &str, base_domain: &str) -> (r: Vec<String>)
    ensures
        texts_view(r@) == first_n(
            distinct(outbound(hrefs_of(all_of(selected(html@, "a[href]"@))), base_domain@)),
            MAX_LINKS as nat,
        ),
{
    let anchors = select_all(html, "a[href]");
    let ghost es = crate::html::elements_view(anchors@);
    let mut kept: Vec<String> = Vec::new();
    let mut i: usize = 0;
    while i < anchors.len()
        invariant
            es == crate::html::elements_view(anchors@),
            i <= anchors@.len(),
            texts_view(kept@) == outbound(hrefs_of(es.take(i as int)), base_domain@),
        decreases anchors.len() - i,
    {
        assert(es.take(i + 1).drop_last() =~= es.take(i as int));
        match anchors[i].attr("href") {
            Some(h) => {
                assert(hrefs_of(es.take(i + 1)).drop_last() =~= hrefs_of(es.take(i as int)));
                if begins_with(h.as_str(), "http") && other_host(h.as_str(), base_domain) {
                    kept.push(h);
                }
            },
            None => {},
        }
        assert(texts_view(kept@) =~= outbound(hrefs_of(es.take(i + 1)), base_domain@));
        i = i + 1;
    }
    assert(es.take(i as int) =~= es);
    let mut out = dedup_texts(kept);
    let ghost all = out@;
    out.truncate(MAX_LINKS);
    assert(texts_view(out@) =~= first_n(texts_view(all), MAX_LINKS as nat));
    out
}

/// `n` as a `u32`, the largest `u32` where it does not fit.
pub open spec fn clamp_u32(n: nat) -> u32 {
    if n > u32::MAX {
        u32::MAX
    } else {
        n as u32
    }
}

fn to_u32(n: usize) -> (r: u32)
    ensures
        r == clamp_u32(n as nat),
{
    if n > 4294967295 {
        4294967295
    } else {
        n as u32
    }
}

/// The main text of a page: what readability finds, else `fallback`.
pub open spec fn main_text_of(html: Seq<char>, url: Seq<char>, fallback: Seq<char>) -> Seq<char> {
    match readable_text(html, url) {
        Some(t) => t,
        None => fallback,
    }
}

/// The host of `url`, or nothing.
pub open spec fn domain_of(url: Seq<char>) -> Seq<char> {
    match host_of(url) {
        Some(h) => h,
        None => Seq::empty(),
    }
}

/// Extracts the record of a page reached by following `link` (unwrapped
/// from a search provider's redirect, see `decode_search_url`) that ended
/// at `final_url` with title `title` and markup `html`; `body_text` is the
/// page's visible text, the main text where readability finds none.
pub fn extract_website_data(link: &str, final_url: &str, title: &str, html: &str, body_text: &str) -> (r:
    WebsiteData)
    ensures
        r.url@ == destination_of(link@),
        r.final_url@ == final_url@,
        r.title@ == title@,
        r.html@ == html@,
        opt_view(r.meta_description) == content_of(html@, "meta[name='description']"@),
        opt_view(r.meta_keywords) == content_of(html@, "meta[name='keywords']"@),
        opt_view(r.meta_author) == content_of(html@, "meta[name='author']"@),
        opt_view(r.meta_date) == content_of(html@, "meta[property='article:published_time']"@),
        r.main_text@ == main_text_of(html@, final_url@, body_text@),
        r.word_count == clamp_u32(word_count_of(r.main_text@)),
        r.html_size == clamp_u32(encode_utf8(html@).len()),
        r.schema_org@.len() == json_count(
            texts_of(all_of(selected(html@, "script[type='application/ld+json']"@))),
        ),
        opt_view(r.og_title) == content_of(html@, "meta[property='og:title']"@),
        opt_view(r.og_description) == content_of(html@, "meta[property='og:description']"@),
        opt_view(r.og_image) == content_of(html@, "meta[property='og:image']"@),
        opt_view(r.og_type) == content_of(html@, "meta[property='og:type']"@),
        texts_view(r.emails@) == distinct(matches_of(regex_matches(email_pattern(), html@))),
        texts_view(r.phone_numbers@) == distinct(
            long_enough(matches_of(regex_matches(phone_pattern(), r.main_text@))),
        ),
        images_view(r.images@) == first_n(
            images_of(all_of(selected(html@, "img"@)), "https://"@ + domain_of(final_url@)),
            MAX_IMAGES as nat,
        ),
        texts_view(r.outbound_links@) == first_n(
            distinct(outbound(hrefs_of(all_of(selected(html@, "a[href]"@))), domain_of(final_url@))),
            MAX_LINKS as nat,
        ),
{
    let domain = match url_host(final_url) {
        Some(h) => h,
        None => String::new(),
    };
    let main_text = match readability_text(html, final_url) {
        Some(t) => t,
        None => body_text.to_owned(),
    };
    let word_count = to_u32(count_words(main_text.as_str()));
    let (og_title, og_description, og_image, og_type) = extract_open_graph(html);
    let mut base = "https://".to_owned();
    base.append(domain.as_str());
    let emails = extract_emails(html);
    let phone_numbers = extract_phone_numbers(main_text.as_str());
    WebsiteData {
        url: decode_search_url(link),
        final_url: final_url.to_owned(),
        title: title.to_owned(),
        meta_description: meta_content(html, "meta[name='description']"),
        meta_keywords: meta_content(html, "meta[name='keywords']"),
        meta_author: meta_content(html, "meta[name='author']"),
        meta_date: meta_content(html, "meta[property='article:published_time']"),
        main_text,
        html: html.to_owned(),
        word_count,
        html_size: to_u32(html.as_bytes().len()),
        schema_org: extract_schema_org(html),
        og_title,
        og_description,
        og_image,
        og_type,
        emails,
        phone_numbers,
        images: extract_images(html, base.as_str()),
        outbound_links: extract_outbound_links(html, domain.as_str()),
    }
}

/// Extracts the text and metadata of a page fetched from `final_url`; where
/// readability finds no main text, the text is `visible_text`, the page's
/// raw visible text.
pub fn extract_content(final_url: &str, html: &str, visible_text: &str) -> (r: ExtractedContent)
    ensures
        r.html@ == html@,
        r.text@ == main_text_of(html@, final_url@, visible_text@),
        opt_view(r.meta_description) == content_of(html@, "meta[name='description']"@),
        opt_view(r.meta_author) == content_of(html@, "meta[name='author']"@),
        opt_view(r.meta_date) == content_of(html@, "meta[property='article:published_time']"@),
{
    let text = match readability_text(html, final_url) {
        Some(t) => t,
        None => visible_text.to_owned(),
    };
    ExtractedContent {
        html: html.to_owned(),
        text,
        meta_description: meta_content(html, "meta[name='description']"),
        meta_author: meta_content(html, "meta[name='author']"),
        meta_date: meta_content(html, "meta[property='article:published_time']"),
    }
}

impl WebsiteData {
    /// The fields that the task record keeps of this page: main text,
    /// markup, description, author and date.
    pub fn record_fields(&self) -> (r: (String, String, Option<String>, Option<String>, Option<String>))
        ensures
            r.0@ == self.main_text@,
            r.1@ == self.html@,
            opt_view(r.2) == opt_view(self.meta_description),
            opt_view(r.3) == opt_view(self.meta_author),
            opt_view(r.4) == opt_view(self.meta_date),
    {
        (
            self.main_text.clone(),
            self.html.clone(),
            copy_opt(&self.meta_description),
            copy_opt(&self.meta_author),
            copy_opt(&self.meta_date),
        )
    }
}

} // verus!
