//! Extraction of element contents from fetched pages.
use vstd::prelude::*;

verus! {

/// The inner HTML of every element of the document `html` that matches
/// `selector`, in document order.
pub uninterp spec fn selected_inner_html(html: Seq<char>, selector: Seq<char>) -> Seq<Seq<char>>;

/// Whether scraper's `Selector::parse` accepts `selector`.
pub uninterp spec fn selector_accepted(selector: Seq<char>) -> bool;

/// A selector made of lower-case ASCII letters alone: a plain element name.
pub open spec fn is_element_name(selector: Seq<char>) -> bool {
    selector.len() > 0 && forall|i: int| 0 <= i < selector.len() ==> 'a' <= #[trigger] selector[i] <= 'z'
}

pub open spec fn strings_view(v: Seq<String>) -> Seq<Seq<char>> {
    v.map_values(|s: String| s@)
}

/// Relies on scraper's `Selector::parse` (a selector it refuses gives
/// `None`; a plain element name is a type selector, which it accepts),
/// `Html::parse_document`, `Html::select` and `ElementRef::inner_html`: the
/// inner HTML of each matching element, in document order. With the crate's
/// `deterministic` feature attributes keep their source order, so the text
/// depends on the page and the selector alone.
#[verifier::external_body]
fn select_inner_html(html: &str, selector: &str) -> (r: Option<Vec<String>>)
    ensures
        r is Some <==> selector_accepted(selector@),
        is_element_name(selector@) ==> r is Some,
        r is Some ==> strings_view(r->0@) == selected_inner_html(html@, selector@),
{
    match scraper::Selector::parse(selector) {
        Ok(sel) => Some(scraper::Html::parse_document(html).select(&sel).map(|e| e.inner_html()).collect()),
        Err(_) => None,
    }
}

/// The contents of the page's `script` elements, in document order.
pub fn script_contents(html: &str) -> (r: Vec<String>)
    ensures
        strings_view(r@) == selected_inner_html(html@, "script"@),
{
    proof {
        reveal_strlit("script");
    }
    match select_inner_html(html, "script") {
        Some(v) => v,
        None => Vec::new(),
    }
}

/// The content of the page's first `title` element; empty where it has none.
pub fn html_title(html: &str) -> (r: String)
    ensures
        ({
            let t = selected_inner_html(html@, "title"@);
            r@ == if t.len() > 0 {
                t[0]
            } else {
                Seq::empty()
            }
        }),
{
    proof {
        reveal_strlit("title");
    }
    match select_inner_html(html, "title") {
        Some(v) => {
            if v.len() > 0 {
                let t = v[0].clone();
                assert(strings_view(v@)[0] == v@[0]@);
                t
            } else {
                String::new()
            }
        },
        None => String::new(),
    }
}

} // verus!
