//! The boundary to the HTML tree: the only place where the nodes of a parsed
//! document are touched. Nothing in this file is proved. Each function
//! below makes one call into the `scraper` crate, and its contract gives the
//! outcome of that call a name, so that the rest of the library can say what
//! it does with it.

use crate::text::option_text;
use scraper::{ElementRef, Html, Selector};
use vstd::prelude::*;

verus! {

/// `scraper::Html`, a parsed document. Its inside is hidden from the
/// proofs: a document is only handed on.
#[verifier::external_type_specification]
#[verifier::external_body]
pub struct ExHtml(Html);

/// `scraper::ElementRef`, a reference to an element of a parsed document.
/// Its inside is hidden from the proofs: what is known of an element is
/// what the names below say.
#[verifier::external_type_specification]
#[verifier::external_body]
pub struct ExElementRef<'a>(ElementRef<'a>);

/// The first element that a select over the document yields under the
/// selector that a text spells out, if the text is a selector and the select
/// yields any element.
pub uninterp spec fn first_match_of(html: &Html, selector: Seq<char>) -> Option<ElementRef>;

/// The children of an element that are elements themselves, in document
/// order.
pub uninterp spec fn children_of(element: ElementRef) -> Seq<ElementRef>;

/// The local name of an element's tag.
pub uninterp spec fn tag_of(element: ElementRef) -> Seq<char>;

/// The first text node among the descendants of an element, in document
/// order, if there is one.
pub uninterp spec fn first_text_of(element: ElementRef) -> Option<Seq<char>>;

/// The value of the attribute of that name, if the element has it.
pub uninterp spec fn attr_of(element: ElementRef, name: Seq<char>) -> Option<Seq<char>>;

/// Calls `Selector::parse` on the text and `Html::select` with the outcome,
/// and takes the first element that the select yields.
///
/// Trusted: the outcome depends on the document and the text alone.
#[verifier::external_body]
pub(crate) fn first_match<'a>(html: &'a Html, selector: &str) -> (found: Option<ElementRef<'a>>)
    ensures
        found == first_match_of(html, selector@),
{
    let selector = Selector::parse(selector).ok()?;
    html.select(&selector).next()
}

/// Calls `ElementRef::child_elements` and collects what it yields.
///
/// Trusted: the outcome depends on the element alone.
#[verifier::external_body]
pub(crate) fn child_elements<'a>(element: ElementRef<'a>) -> (children: Vec<ElementRef<'a>>)
    ensures
        children@ == children_of(element),
{
    element.child_elements().collect()
}

/// Calls `Element::name` on the node behind the reference.
///
/// Trusted: the outcome depends on the element alone.
#[verifier::external_body]
pub(crate) fn tag_name<'a>(element: ElementRef<'a>) -> (name: &'a str)
    ensures
        name@ == tag_of(element),
{
    element.value().name()
}

/// Calls `ElementRef::text` and takes the first text that it yields.
///
/// Trusted: the outcome depends on the element alone.
#[verifier::external_body]
pub(crate) fn first_text<'a>(element: ElementRef<'a>) -> (text: Option<&'a str>)
    ensures
        option_text(text) == first_text_of(element),
{
    element.text().next()
}

/// Calls `ElementRef::attr`.
///
/// Trusted: the outcome depends on the element and the name alone.
#[verifier::external_body]
pub(crate) fn attribute<'a>(element: ElementRef<'a>, name: &str) -> (value: Option<&'a str>)
    ensures
        option_text(value) == attr_of(element, name@),
{
    element.attr(name)
}

} // verus!
