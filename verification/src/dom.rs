//! The parsed page. Parsing and selector matching are the work of `scraper`;
//! this module declares its types and gives each call a contract. The values
//! stay opaque: what is known of them is what the calls below return.

use scraper::error::SelectorErrorKind;
use scraper::ElementRef;
use scraper::Html;
use scraper::Selector;
use vstd::prelude::*;

verus! {

/// `scraper::Html`: a parsed document.
#[verifier::external_type_specification]
#[verifier::external_body]
pub struct ExHtml(Html);

/// `scraper::Selector`: a compiled group of CSS selectors.
#[verifier::external_type_specification]
#[verifier::external_body]
pub struct ExSelector(Selector);

/// `scraper::ElementRef`: one element of a parsed document.
#[verifier::external_type_specification]
#[verifier::external_body]
pub struct ExElementRef<'a>(ElementRef<'a>);

/// `scraper::error::SelectorErrorKind`: why a selector did not compile.
#[verifier::external_type_specification]
#[verifier::external_body]
pub struct ExSelectorErrorKind(SelectorErrorKind);

/// The document that `Html::parse_document` builds from the text `html`.
pub uninterp spec fn document_of(html: Seq<char>) -> Html;

/// The selector that `Selector::parse` compiles from `css`, if it compiles.
pub uninterp spec fn selector_of(css: Seq<char>) -> Option<Selector>;

/// The elements of `doc` that `selector` matches, in the order in which
/// `Html::select` yields them.
pub uninterp spec fn document_matches(doc: &Html, selector: Selector) -> Seq<ElementRef<'_>>;

/// The descendants of `element` that `selector` matches, in the order in
/// which `ElementRef::select` yields them.
pub uninterp spec fn element_matches(element: ElementRef<'_>, selector: Selector) -> Seq<
    ElementRef<'_>,
>;

/// The text nodes below `element`, in the order in which `ElementRef::text`
/// yields them.
pub uninterp spec fn element_texts(element: ElementRef<'_>) -> Seq<Seq<char>>;

/// The value of the attribute `name` of `element`, as `ElementRef::attr`
/// returns it.
pub uninterp spec fn element_attr(element: ElementRef<'_>, name: Seq<char>) -> Option<Seq<char>>;

/// `Html::parse_document`: parses a page. The parser accepts every text, and
/// equal texts give equal documents.
#[verifier::external_body]
pub(crate) fn parse_document(html: &str) -> (doc: Html)
    ensures
        doc == document_of(html@),
{
    Html::parse_document(html)
}

/// `Selector::parse`: compiles a selector. Whether it compiles, and to what,
/// depends on the text alone.
#[verifier::external_body]
pub(crate) fn parse_selector(css: &str) -> (r: Result<Selector, SelectorErrorKind>)
    ensures
        match r {
            Ok(selector) => selector_of(css@) == Some(selector),
            Err(_) => selector_of(css@) is None,
        },
{
    Selector::parse(css)
}

/// `Html::select`: the elements of the document that the selector matches.
#[verifier::external_body]
pub(crate) fn select_in_document<'a>(doc: &'a Html, selector: &Selector) -> (r: Vec<
    ElementRef<'a>,
>)
    ensures
        r@ == document_matches(doc, *selector),
{
    doc.select(selector).collect()
}

/// `ElementRef::select`: the descendants of the element that the selector
/// matches.
#[verifier::external_body]
pub(crate) fn select_in_element<'a>(element: &ElementRef<'a>, selector: &Selector) -> (r: Vec<
    ElementRef<'a>,
>)
    ensures
        r@ == element_matches(*element, *selector),
{
    element.select(selector).collect()
}

/// `ElementRef::text`: the text nodes below the element.
#[verifier::external_body]
pub(crate) fn texts_in(element: &ElementRef<'_>) -> (r: Vec<String>)
    ensures
        r.deep_view() == element_texts(*element),
{
    element.text().map(|t| t.to_string()).collect()
}

/// `ElementRef::attr`: the value of an attribute, if the element has it.
#[verifier::external_body]
pub(crate) fn attr_in(element: &ElementRef<'_>, name: &str) -> (r: Option<String>)
    ensures
        r.deep_view() == element_attr(*element, name@),
{
    element.attr(name).map(|v| v.to_string())
}

} // verus!
