//! Elements of an HTML document, as the selector engine finds them, and the
//! verified readings of them that extraction uses.
use vstd::prelude::*;
use crate::text::same_text;

verus! {

/// One element that a CSS selector matched.
pub struct Element {
    /// Its descendant text nodes, in document order.
    pub texts: Vec<String>,
    /// Its attributes, as name and value.
    pub attrs: Vec<(String, String)>,
    /// Its own markup, the element included.
    pub markup: String,
}

/// An element as plain values: text nodes, attributes, markup.
pub type ElementView = (Seq<Seq<char>>, Seq<(Seq<char>, Seq<char>)>, Seq<char>);

impl View for Element {
    type V = ElementView;

    open spec fn view(&self) -> ElementView {
        (
            self.texts@.map_values(|t: String| t@),
            self.attrs@.map_values(|a: (String, String)| (a.0@, a.1@)),
            self.markup@,
        )
    }
}

/// The elements of document `html` that selector `css` matches, in
/// document order; `None` where `css` is not a valid selector.
pub uninterp spec fn selected(html: Seq<char>, css: Seq<char>) -> Option<Seq<ElementView>>;

pub open spec fn elements_view(v: Seq<Element>) -> Seq<ElementView> {
    v.map_values(|e: Element| e@)
}

/// Relies on the `scraper` crate: `Selector::parse` refuses an invalid
/// selector; `Html::parse_document` and `Html::select` give the matching
/// elements in document order, and `ElementRef::text`, `Element::attrs` and
/// `ElementRef::html` give each one's text nodes, attributes and markup.
#[verifier::external_body]
pub(crate) fn select_elements(html: &str, css: &str) -> (r: Option<Vec<Element>>)
    ensures
        r matches Some(v) ==> selected(html@, css@) == Some(elements_view(v@)),
        r is None ==> selected(html@, css@) is None,
{
    let selector = scraper::Selector::parse(css).ok()?;
    let document = scraper::Html::parse_document(html);
    let found = document.select(&selector).map(|el| Element {
        texts: el.text().map(|t| t.to_string()).collect(),
        attrs: el.value().attrs().map(|(k, v)| (k.to_string(), v.to_string())).collect(),
        markup: el.html(),
    }).collect();
    Some(found)
}

/// The texts of `ts` one after another.
pub open spec fn concat(ts: Seq<Seq<char>>) -> Seq<char>
    decreases ts.len(),
{
    if ts.len() == 0 {
        Seq::empty()
    } else {
        concat(ts.drop_last()) + ts.last()
    }
}

/// All text of an element.
pub open spec fn text_of(e: ElementView) -> Seq<char> {
    concat(e.0)
}

/// The first text node of an element, where it has one.
pub open spec fn first_text_of(e: ElementView) -> Option<Seq<char>> {
    if e.0.len() > 0 {
        Some(e.0[0])
    } else {
        None
    }
}

/// The value of the first attribute named `name` among `attrs`.
pub open spec fn lookup(attrs: Seq<(Seq<char>, Seq<char>)>, name: Seq<char>) -> Option<Seq<char>>
    decreases attrs.len(),
{
    if attrs.len() == 0 {
        None
    } else if attrs[0].0 == name {
        Some(attrs[0].1)
    } else {
        lookup(attrs.drop_first(), name)
    }
}

/// The value of attribute `name` of an element.
pub open spec fn attr_of(e: ElementView, name: Seq<char>) -> Option<Seq<char>> {
    lookup(e.1, name)
}

/// The first of a selection, where there is one.
pub open spec fn first_of(sel: Option<Seq<ElementView>>) -> Option<ElementView> {
    match sel {
        Some(v) => if v.len() > 0 {
            Some(v[0])
        } else {
            None
        },
        None => None,
    }
}

/// A selection as a sequence: an invalid selector selects nothing.
pub open spec fn all_of(sel: Option<Seq<ElementView>>) -> Seq<ElementView> {
    match sel {
        Some(v) => v,
        None => Seq::empty(),
    }
}

impl Element {
    /// All text of the element.
    pub fn text(&self) -> (r: String)
        ensures
            r@ == text_of(self@),
    {
        let mut out = String::new();
        let mut i: usize = 0;
        while i < self.texts.len()
            invariant
                i <= self.texts@.len(),
                out@ == concat(self@.0.take(i as int)),
            decreases self.texts.len() - i,
        {
            assert(self@.0.take(i + 1).drop_last() =~= self@.0.take(i as int));
            out.append(self.texts[i].as_str());
            i = i + 1;
        }
        assert(self@.0.take(i as int) =~= self@.0);
        out
    }

    /// The first text node of the element.
    pub fn first_text(&self) -> (r: Option<String>)
        ensures
            crate::text::opt_view(r) == first_text_of(self@),
    {
        if self.texts.len() > 0 {
            Some(self.texts[0].clone())
        } else {
            None
        }
    }

    /// The value of attribute `name`.
    pub fn attr(&self, name: &str) -> (r: Option<String>)
        ensures
            crate::text::opt_view(r) == attr_of(self@, name@),
    {
        let mut i: usize = 0;
        assert(self@.1.skip(0) =~= self@.1);
        while i < self.attrs.len()
            invariant
                i <= self.attrs@.len(),
                lookup(self@.1, name@) == lookup(self@.1.skip(i as int), name@),
            decreases self.attrs.len() - i,
        {
            assert(self@.1.skip(i as int).drop_first() =~= self@.1.skip(i + 1));
            if same_text(self.attrs[i].0.as_str(), name) {
                return Some(self.attrs[i].1.clone());
            }
            i = i + 1;
        }
        None
    }
}

/// The first element that `css` selects in `html`.
pub fn select_first(html: &str, css: &str) -> (r: Option<Element>)
    ensures
        match first_of(selected(html@, css@)) {
            Some(e) => r matches Some(x) && x@ == e,
            None => r is None,
        },
{
    match select_elements(html, css) {
        Some(mut v) => {
            if v.len() > 0 {
                let e = v.remove(0);
                Some(e)
            } else {
                None
            }
        },
        None => None,
    }
}

/// All elements that `css` selects in `html`; none for an invalid selector.
pub fn select_all(html: &str, css: &str) -> (r: Vec<Element>)
    ensures
        elements_view(r@) == all_of(selected(html@, css@)),
{
    match select_elements(html, css) {
        Some(v) => v,
        None => Vec::new(),
    }
}

} // verus!
