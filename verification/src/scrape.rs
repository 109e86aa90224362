//! Reading attributes out of an HTML page with `scraper`.

use vstd::prelude::*;

verus! {

/// What `scraper` finds in `html` for a CSS `selector`: `None` when the
/// selector does not parse, else, for each element that it matches, in the
/// order in which `Html::select` yields them, the value of attribute `attr`
/// if the element has one.
pub uninterp spec fn selected_attrs(html: Seq<char>, selector: Seq<char>, attr: Seq<char>) -> Option<
    Seq<Option<Seq<char>>>,
>;

/// The text of each optional attribute value.
pub open spec fn attr_views(v: Seq<Option<String>>) -> Seq<Option<Seq<char>>> {
    Seq::new(
        v.len(),
        |i: int|
            match v[i] {
                Some(s) => Some(s@),
                None => None,
            },
    )
}

/// Parses `html` as a document (`Html::parse_document`) and `selector` as a
/// CSS selector (`Selector::parse`), then reads `attr` of every selected
/// element (`Html::select`, `Element::attr`). Trusted to give exactly
/// `selected_attrs(html, selector, attr)`, a function of the three texts.
#[verifier::external_body]
pub fn select_attrs(html: &str, selector: &str, attr: &str) -> (r: Option<Vec<Option<String>>>)
    ensures
        r is None <==> selected_attrs(html@, selector@, attr@) is None,
        r matches Some(v) ==> selected_attrs(html@, selector@, attr@) == Some(attr_views(v@)),
{
    let sel = scraper::Selector::parse(selector).ok()?;
    let doc = scraper::Html::parse_document(html);
    Some(doc.select(&sel).map(|el| el.value().attr(attr).map(|a| a.to_string())).collect())
}

} // verus!
