//! Search-results data and its extraction from rendered result pages.
use vstd::prelude::*;
use crate::html::{
    all_of, attr_of, first_of, first_text_of, select_all, select_elements, select_first,
    selected, text_of, Element, ElementView,
};
use crate::text::{opt_view, same_text};

verus! {

/// At most this many results are kept from one page.
pub const MAX_RESULTS: usize = 10;

/// One organic search result.
#[derive(Debug)]
pub struct SearchResult {
    pub title: String,
    pub link: String,
    pub snippet: String,
}

pub struct ResultView {
    pub title: Seq<char>,
    pub link: Seq<char>,
    pub snippet: Seq<char>,
}

impl View for SearchResult {
    type V = ResultView;

    open spec fn view(&self) -> ResultView {
        ResultView { title: self.title@, link: self.link@, snippet: self.snippet@ }
    }
}

/// The answer box some result pages show above the results.
#[derive(Debug)]
pub struct FeaturedSnippet {
    pub content: String,
    pub source_url: Option<String>,
    pub source_title: Option<String>,
}

/// What a results page yields.
#[derive(Debug)]
pub struct SerpData {
    /// Organic results, at most `MAX_RESULTS`.
    pub results: Vec<SearchResult>,
    /// "People also ask" questions.
    pub people_also_ask: Vec<String>,
    /// Related searches offered at the foot of the page.
    pub related_searches: Vec<String>,
    pub featured_snippet: Option<FeaturedSnippet>,
    /// The total-results line, where the page shows one.
    pub total_results: Option<String>,
}

pub struct SerpView {
    pub results: Seq<ResultView>,
    pub people_also_ask: Seq<Seq<char>>,
    pub related_searches: Seq<Seq<char>>,
    pub featured_snippet: Option<Seq<char>>,
    pub total_results: Option<Seq<char>>,
}

impl View for SerpData {
    type V = SerpView;

    open spec fn view(&self) -> SerpView {
        SerpView {
            results: results_view(self.results@),
            people_also_ask: texts_view(self.people_also_ask@),
            related_searches: texts_view(self.related_searches@),
            featured_snippet: match self.featured_snippet {
                Some(f) => Some(f.content@),
                None => None,
            },
            total_results: opt_view(self.total_results),
        }
    }
}

pub open spec fn results_view(v: Seq<SearchResult>) -> Seq<ResultView> {
    v.map_values(|r: SearchResult| r@)
}

pub open spec fn texts_view(v: Seq<String>) -> Seq<Seq<char>> {
    v.map_values(|t: String| t@)
}

/// The first `MAX_RESULTS` of `s`.
pub open spec fn capped<T>(s: Seq<T>) -> Seq<T> {
    if s.len() > MAX_RESULTS {
        s.take(MAX_RESULTS as int)
    } else {
        s
    }
}

/// Keeps the top `MAX_RESULTS` candidates, in order.
pub fn cap_results(candidates: Vec<SearchResult>) -> (r: Vec<SearchResult>)
    ensures
        results_view(r@) == capped(results_view(candidates@)),
        r@.len() <= MAX_RESULTS,
{
    let mut v = candidates;
    let ghost before = v@;
    v.truncate(MAX_RESULTS);
    assert(results_view(v@) =~= capped(results_view(before)));
    v
}

/// The result that a result block yields: the title and target of its
/// heading link, and the text of its first paragraph as the snippet; none
/// without a heading link that has a target.
pub open spec fn entry_of(anchor: Option<ElementView>, para: Option<ElementView>) -> Option<
    ResultView,
> {
    match anchor {
        Some(a) => match attr_of(a, "href"@) {
            Some(link) => Some(
                ResultView {
                    title: text_of(a),
                    link,
                    snippet: match para {
                        Some(p) => text_of(p),
                        None => Seq::empty(),
                    },
                },
            ),
            None => None,
        },
        None => None,
    }
}

/// Reads one result block from its heading link and first paragraph.
pub fn result_from(anchor: Option<Element>, para: Option<Element>) -> (r: Option<SearchResult>)
    ensures
        match entry_of(
            match anchor {
                Some(a) => Some(a@),
                None => None,
            },
            match para {
                Some(p) => Some(p@),
                None => None,
            },
        ) {
            Some(e) => r matches Some(x) && x@ == e,
            None => r is None,
        },
{
    match anchor {
        Some(a) => match a.attr("href") {
            Some(link) => {
                let snippet = match para {
                    Some(p) => p.text(),
                    None => String::new(),
                };
                Some(SearchResult { title: a.text(), link, snippet })
            },
            None => None,
        },
        None => None,
    }
}

/// The result of a Bing result block.
pub open spec fn bing_entry(block: ElementView) -> Option<ResultView> {
    entry_of(first_of(selected(block.2, "h2 > a"@)), first_of(selected(block.2, "p"@)))
}

/// The present entries, in order.
pub open spec fn present(s: Seq<Option<ResultView>>) -> Seq<ResultView>
    decreases s.len(),
{
    if s.len() == 0 {
        Seq::empty()
    } else {
        match s.last() {
            Some(x) => present(s.drop_last()).push(x),
            None => present(s.drop_last()),
        }
    }
}

/// The results of a Bing page's result blocks.
pub open spec fn bing_results(blocks: Seq<ElementView>) -> Seq<ResultView> {
    present(blocks.map_values(|b: ElementView| bing_entry(b)))
}

/// The first text nodes of those elements that have one.
pub open spec fn first_texts(es: Seq<ElementView>) -> Seq<Seq<char>>
    decreases es.len(),
{
    if es.len() == 0 {
        Seq::empty()
    } else {
        match first_text_of(es.last()) {
            Some(t) => first_texts(es.drop_last()).push(t),
            None => first_texts(es.drop_last()),
        }
    }
}

/// Those of `ts` longer than three characters.
pub open spec fn longer_than_three(ts: Seq<Seq<char>>) -> Seq<Seq<char>>
    decreases ts.len(),
{
    if ts.len() == 0 {
        Seq::empty()
    } else if ts.last().len() > 3 {
        longer_than_three(ts.drop_last()).push(ts.last())
    } else {
        longer_than_three(ts.drop_last())
    }
}

pub open spec fn text_of_first(sel: Option<Seq<ElementView>>) -> Option<Seq<char>> {
    match first_of(sel) {
        Some(e) => Some(text_of(e)),
        None => None,
    }
}

/// Reads the results of Bing result blocks.
pub fn bing_results_from(blocks: &Vec<Element>) -> (r: Vec<SearchResult>)
    ensures
        results_view(r@) == bing_results(crate::html::elements_view(blocks@)),
{
    let ghost bs = crate::html::elements_view(blocks@);
    let mut out: Vec<SearchResult> = Vec::new();
    let mut i: usize = 0;
    while i < blocks.len()
        invariant
            bs == crate::html::elements_view(blocks@),
            i <= blocks@.len(),
            results_view(out@) == bing_results(bs.take(i as int)),
        decreases blocks.len() - i,
    {
        let markup = blocks[i].markup.as_str();
        let anchor = select_first(markup, "h2 > a");
        let para = select_first(markup, "p");
        let entry = result_from(anchor, para);
        proof {
            let m = bs.take(i + 1).map_values(|b: ElementView| bing_entry(b));
            assert(m.drop_last() =~= bs.take(i as int).map_values(|b: ElementView| bing_entry(b)));
            assert(m.last() == bing_entry(bs[i as int]));
        }
        match entry {
            Some(e) => {
                out.push(e);
                assert(results_view(out@) =~= bing_results(bs.take(i + 1)));
            },
            None => {
                assert(results_view(out@) =~= bing_results(bs.take(i + 1)));
            },
        }
        i = i + 1;
    }
    assert(bs.take(i as int) =~= bs);
    out
}

/// The first text nodes of elements, where they have one.
pub fn first_texts_from(es: &Vec<Element>) -> (r: Vec<String>)
    ensures
        texts_view(r@) == first_texts(crate::html::elements_view(es@)),
{
    let ghost v = crate::html::elements_view(es@);
    let mut out: Vec<String> = Vec::new();
    let mut i: usize = 0;
    while i < es.len()
        invariant
            v == crate::html::elements_view(es@),
            i <= es@.len(),
            texts_view(out@) == first_texts(v.take(i as int)),
        decreases es.len() - i,
    {
        assert(v.take(i + 1).drop_last() =~= v.take(i as int));
        match es[i].first_text() {
            Some(t) => {
                out.push(t);
            },
            None => {},
        }
        assert(texts_view(out@) =~= first_texts(v.take(i + 1)));
        i = i + 1;
    }
    assert(v.take(i as int) =~= v);
    out
}

/// Those texts longer than three characters.
pub fn keep_longer_than_three(ts: Vec<String>) -> (r: Vec<String>)
    ensures
        texts_view(r@) == longer_than_three(texts_view(ts@)),
{
    let ghost v = texts_view(ts@);
    let mut out: Vec<String> = Vec::new();
    let mut i: usize = 0;
    while i < ts.len()
        invariant
            v == texts_view(ts@),
            i <= ts@.len(),
            texts_view(out@) == longer_than_three(v.take(i as int)),
        decreases ts.len() - i,
    {
        assert(v.take(i + 1).drop_last() =~= v.take(i as int));
        if ts[i].as_str().unicode_len() > 3 {
            out.push(ts[i].clone());
        }
        assert(texts_view(out@) =~= longer_than_three(v.take(i + 1)));
        i = i + 1;
    }
    assert(v.take(i as int) =~= v);
    out
}

fn first_text_in(html: &str, css: &str) -> (r: Option<String>)
    ensures
        opt_view(r) == text_of_first(selected(html@, css@)),
{
    match select_first(html, css) {
        Some(e) => Some(e.text()),
        None => None,
    }
}

/// What a Bing results page yields: the results of its `li.b_algo` blocks
/// (at most `MAX_RESULTS`), its related searches and its result count.
pub open spec fn bing_serp(html: Seq<char>) -> SerpView {
    SerpView {
        results: capped(bing_results(all_of(selected(html, "li.b_algo"@)))),
        people_also_ask: Seq::empty(),
        related_searches: first_texts(all_of(selected(html, "li.b_ans ul li a, .b_rs ul li a"@))),
        featured_snippet: None,
        total_results: text_of_first(selected(html, ".sb_count"@)),
    }
}

/// Reads a rendered Bing results page.
pub fn parse_bing(html: &str) -> (r: SerpData)
    ensures
        r@ == bing_serp(html@),
{
    let blocks = select_all(html, "li.b_algo");
    let results = cap_results(bing_results_from(&blocks));
    let related = first_texts_from(&select_all(html, "li.b_ans ul li a, .b_rs ul li a"));
    let total = first_text_in(html, ".sb_count");
    let r = SerpData {
        results,
        people_also_ask: Vec::new(),
        related_searches: related,
        featured_snippet: None,
        total_results: total,
    };
    assert(r@.people_also_ask =~= Seq::<Seq<char>>::empty());
    r
}

/// What a Google results page yields besides the results that the page
/// script extracted: "people also ask", related searches longer than three
/// characters, the result count and the featured snippet.
pub open spec fn google_serp(html: Seq<char>, results: Seq<ResultView>) -> SerpView {
    SerpView {
        results: capped(results),
        people_also_ask: first_texts(all_of(selected(html, ".related-question-pair .s75CSd"@))),
        related_searches: longer_than_three(
            first_texts(all_of(selected(html, ".s75CSd, .k8XOCe, .related-searches-list a"@))),
        ),
        featured_snippet: text_of_first(selected(html, ".xpdopen .block-component, .c2xzTb"@)),
        total_results: text_of_first(selected(html, "#result-stats"@)),
    }
}

/// Completes a Google results page from its rendered markup and the
/// candidates that the page script extracted.
pub fn parse_google(html: &str, candidates: Vec<SearchResult>) -> (r: SerpData)
    ensures
        r@ == google_serp(html@, results_view(candidates@)),
{
    let results = cap_results(candidates);
    let paa = first_texts_from(&select_all(html, ".related-question-pair .s75CSd"));
    let related = keep_longer_than_three(
        first_texts_from(&select_all(html, ".s75CSd, .k8XOCe, .related-searches-list a")),
    );
    let featured = match first_text_in(html, ".xpdopen .block-component, .c2xzTb") {
        Some(content) => Some(FeaturedSnippet { content, source_url: None, source_title: None }),
        None => None,
    };
    let total = first_text_in(html, "#result-stats");
    SerpData {
        results,
        people_also_ask: paa,
        related_searches: related,
        featured_snippet: featured,
        total_results: total,
    }
}

/// The texts of elements, each followed by a line break.
pub open spec fn lines_of(es: Seq<ElementView>) -> Seq<char>
    decreases es.len(),
{
    if es.len() == 0 {
        Seq::empty()
    } else {
        lines_of(es.drop_last()) + text_of(es.last()) + "\n"@
    }
}

/// The snippet section for field `key`: a header line, then one line per
/// matched element; nothing where the selector is invalid.
pub open spec fn section_of(key: Seq<char>, found: Option<Seq<ElementView>>) -> Seq<char> {
    match found {
        Some(es) => "--- "@ + key + " ---\n"@ + lines_of(es),
        None => Seq::empty(),
    }
}

/// The sections for field/selector pairs, in order.
pub open spec fn sections_of(html: Seq<char>, pairs: Seq<(Seq<char>, Seq<char>)>) -> Seq<char>
    decreases pairs.len(),
{
    if pairs.len() == 0 {
        Seq::empty()
    } else {
        sections_of(html, pairs.drop_last()) + section_of(
            pairs.last().0,
            selected(html, pairs.last().1),
        )
    }
}

/// The snippet of a generic crawl: the sections of the selector map, or
/// without one a notice and the page title.
pub open spec fn generic_snippet(html: Seq<char>, selectors: Option<Seq<(Seq<char>, Seq<char>)>>) -> Seq<
    char,
> {
    match selectors {
        Some(pairs) => sections_of(html, pairs),
        None => "No selectors provided. Dumping title.\n"@ + match text_of_first(
            selected(html, "title"@),
        ) {
            Some(t) => t,
            None => Seq::empty(),
        },
    }
}

pub open spec fn pairs_view(v: Seq<(String, String)>) -> Seq<(Seq<char>, Seq<char>)> {
    v.map_values(|p: (String, String)| (p.0@, p.1@))
}

/// No two pairs share a field name.
pub open spec fn unique_keys(p: Seq<(Seq<char>, Seq<char>)>) -> bool {
    forall|i: int, j: int| 0 <= i < p.len() && 0 <= j < p.len() && i != j ==> p[i].0 != p[j].0
}

/// A selector map, where there is one, names each field once.
pub open spec fn selectors_ok(o: Option<Seq<(Seq<char>, Seq<char>)>>) -> bool {
    o matches Some(p) ==> unique_keys(p)
}

/// Whether a selector map names each field once.
pub fn selector_keys_unique(selectors: &Option<Vec<(String, String)>>) -> (r: bool)
    ensures
        r == selectors_ok(selectors_view(*selectors)),
{
    match selectors {
        None => true,
        Some(v) => {
            let ghost pv = pairs_view(v@);
            assert(selectors_view(*selectors) == Some(pv));
            let mut i: usize = 0;
            while i < v.len()
                invariant
                    pv == pairs_view(v@),
                    selectors_view(*selectors) == Some(pv),
                    i <= v@.len(),
                    forall|a: int, b: int| 0 <= a < i && 0 <= b < v@.len() && a != b ==> pv[a].0 != pv[b].0,
                decreases v.len() - i,
            {
                let mut j: usize = 0;
                while j < v.len()
                    invariant
                        pv == pairs_view(v@),
                        selectors_view(*selectors) == Some(pv),
                        i < v@.len(),
                        j <= v@.len(),
                        forall|a: int, b: int| 0 <= a < i && 0 <= b < v@.len() && a != b ==> pv[a].0 != pv[b].0,
                        forall|b: int| 0 <= b < j && b != i ==> pv[i as int].0 != pv[b].0,
                    decreases v.len() - j,
                {
                    if j != i && same_text(v[i].0.as_str(), v[j].0.as_str()) {
                        assert(pv[i as int].0 == pv[j as int].0);
                        assert(selectors_view(*selectors) == Some(pv));
                        assert(!unique_keys(pv));
                        return false;
                    }
                    j = j + 1;
                }
                i = i + 1;
            }
            assert(selectors_view(*selectors) == Some(pv));
            assert(unique_keys(pv));
            true
        },
    }
}

pub open spec fn selectors_view(o: Option<Vec<(String, String)>>) -> Option<
    Seq<(Seq<char>, Seq<char>)>,
> {
    match o {
        Some(v) => Some(pairs_view(v@)),
        None => None,
    }
}

/// What a generic crawl of page `url` yields: one result holding the
/// snippet, and a total of one.
pub open spec fn generic_serp(
    url: Seq<char>,
    html: Seq<char>,
    selectors: Option<Seq<(Seq<char>, Seq<char>)>>,
) -> SerpView {
    SerpView {
        results: seq![
            ResultView { title: "Forum Data"@, link: url, snippet: generic_snippet(html, selectors) },
        ],
        people_also_ask: Seq::empty(),
        related_searches: Seq::empty(),
        featured_snippet: None,
        total_results: Some("1"@),
    }
}

/// The snippet section for field `key` from the elements its selector
/// found (`None` for an invalid selector).
pub fn selector_section(key: &str, found: &Option<Vec<Element>>) -> (r: String)
    ensures
        r@ == section_of(
            key@,
            match found {
                Some(v) => Some(crate::html::elements_view(v@)),
                None => None,
            },
        ),
{
    match found {
        Some(es) => {
            let ghost v = crate::html::elements_view(es@);
            let mut out = String::new();
            out.append("--- ");
            out.append(key);
            out.append(" ---\n");
            let ghost head = out@;
            let mut i: usize = 0;
            while i < es.len()
                invariant
                    v == crate::html::elements_view(es@),
                    i <= es@.len(),
                    out@ == head + lines_of(v.take(i as int)),
                decreases es.len() - i,
            {
                assert(v.take(i + 1).drop_last() =~= v.take(i as int));
                let t = es[i].text();
                out.append(t.as_str());
                out.append("\n");
                assert(out@ =~= head + lines_of(v.take(i + 1)));
                i = i + 1;
            }
            assert(v.take(i as int) =~= v);
            out
        },
        None => String::new(),
    }
}

/// Reads a page rendered for a generic crawl: with a field-to-selector
/// map, the text that each selector matches, field by field in the order
/// given; without one, the page title.
pub fn generic_crawl(url: &str, html: &str, selectors: &Option<Vec<(String, String)>>) -> (r: SerpData)
    requires
        selectors_ok(selectors_view(*selectors)),
    ensures
        r@ == generic_serp(url@, html@, selectors_view(*selectors)),
{
    let ghost sel_view = selectors_view(*selectors);
    let mut snippet = String::new();
    match selectors {
        Some(pairs) => {
            let ghost pv = pairs_view(pairs@);
            let mut i: usize = 0;
            while i < pairs.len()
                invariant
                    pv == pairs_view(pairs@),
                    i <= pairs@.len(),
                    snippet@ == sections_of(html@, pv.take(i as int)),
                decreases pairs.len() - i,
            {
                assert(pv.take(i + 1).drop_last() =~= pv.take(i as int));
                let found = select_elements(html, pairs[i].1.as_str());
                let section = selector_section(pairs[i].0.as_str(), &found);
                snippet.append(section.as_str());
                i = i + 1;
            }
            assert(pv.take(i as int) =~= pv);
        },
        None => {
            snippet.append("No selectors provided. Dumping title.\n");
            match first_text_in(html, "title") {
                Some(t) => snippet.append(t.as_str()),
                None => {},
            }
            assert(snippet@ =~= generic_snippet(html@, sel_view));
        },
    }
    let mut results: Vec<SearchResult> = Vec::new();
    results.push(SearchResult { title: "Forum Data".to_owned(), link: url.to_owned(), snippet });
    let r = SerpData {
        results,
        people_also_ask: Vec::new(),
        related_searches: Vec::new(),
        featured_snippet: None,
        total_results: Some("1".to_owned()),
    };
    assert(r@.results =~= generic_serp(url@, html@, sel_view).results);
    assert(r@.people_also_ask =~= Seq::<Seq<char>>::empty());
    assert(r@.related_searches =~= Seq::<Seq<char>>::empty());
    r
}

} // verus!
