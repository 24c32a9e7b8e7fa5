//! Reading parsed HTML.
//!
//! Parsing and selector matching are the work of the `scraper` crate. This
//! module declares its types, gives each of its results a name that
//! contracts can speak of, and wraps each call that the library makes. What
//! the wrappers claim is believed, not proved: each says that one call's
//! result is the value of its named function at the arguments, which holds
//! because the call computes from its arguments alone. Everything built on
//! the wrappers here, the walks over several levels of nesting and the
//! reading of anchors, is proved.
//!
//! The parser keeps text in buffers whose lengths are counted in 32 bits,
//! and panics where a length does not fit. A text is therefore parsed only
//! where it has at most [`MAX_PAGE_CHARS`] characters; callers test this
//! before they parse.

use vstd::prelude::*;
use scraper::error::SelectorErrorKind;
use scraper::{ElementRef, Html, Selector};
use crate::extract::{anchor_views, Anchor, AnchorView};

verus! {

/// A parsed HTML document: `scraper::Html`.
#[verifier::external_type_specification]
#[verifier::external_body]
pub struct ExHtml(scraper::Html);

/// A compiled group of CSS selectors: `scraper::Selector`.
#[verifier::external_type_specification]
#[verifier::external_body]
pub struct ExSelector(scraper::Selector);

/// A reference to an element of a parsed document: `scraper::ElementRef`.
#[verifier::external_type_specification]
#[verifier::external_body]
pub struct ExElementRef<'a>(scraper::ElementRef<'a>);

/// Why a selector did not compile: `scraper::error::SelectorErrorKind`.
#[verifier::external_type_specification]
#[verifier::external_body]
pub struct ExSelectorErrorKind(scraper::error::SelectorErrorKind);

/// The most characters that a text may have to be parsed.
///
/// The parser's buffers hold up to `u32::MAX` bytes and grow by doubling,
/// so none may pass 2^31 bytes. A character takes at most four bytes, also
/// where the parser replaces it, so a text of 2^28 characters stays below
/// that with room to spare.
pub const MAX_PAGE_CHARS: usize = 0x1000_0000;

/// The document that `scraper::Html::parse_document` builds from `text`.
pub uninterp spec fn parsed_document(text: Seq<char>) -> Html;

/// What `scraper::Selector::parse` makes of `text`: the compiled selector,
/// or the reason why `text` is not a selector group.
pub uninterp spec fn compiled_selector(text: Seq<char>) -> Result<Selector, SelectorErrorKind>;

/// The elements that `scraper::Html::select` yields for `selector` in
/// `document`, in the order it yields them.
pub uninterp spec fn document_matches(document: Html, selector: Selector) -> Seq<
    ElementRef<'static>,
>;

/// The elements that `scraper::ElementRef::select` yields for `selector`
/// below `element`, in the order it yields them.
pub uninterp spec fn element_matches(element: ElementRef, selector: Selector) -> Seq<
    ElementRef<'static>,
>;

/// What `scraper::ElementRef::attr` returns for the attribute `name` of
/// `element`.
pub uninterp spec fn element_attribute(element: ElementRef, name: Seq<char>) -> Option<
    Seq<char>,
>;

/// The text nodes that `scraper::ElementRef::text` yields below `element`,
/// in the order it yields them.
pub uninterp spec fn element_texts(element: ElementRef) -> Seq<Seq<char>>;

/// Calls `scraper::Html::parse_document`, which builds a tree from any
/// text and reports no error. It panics where the text, or a text node or
/// attribute value built from it, is too long for a buffer whose length is
/// counted in 32 bits; the bound on the characters leaves such texts out.
/// The result is a function of the text alone.
#[verifier::external_body]
pub(crate) fn parse_document(text: &str) -> (document: Html)
    requires
        text@.len() <= MAX_PAGE_CHARS,
    ensures
        document == parsed_document(text@),
{
    scraper::Html::parse_document(text)
}

/// Calls `scraper::Selector::parse`. Whether `text` compiles, and to what,
/// is a function of the text alone.
#[verifier::external_body]
pub(crate) fn parse_selector(text: &str) -> (made: Result<Selector, SelectorErrorKind>)
    ensures
        made == compiled_selector(text@),
{
    scraper::Selector::parse(text)
}

/// Calls `scraper::Html::select` and collects what the iterator yields: the
/// elements of the document that match, in the order in which it yields
/// them. What it yields is a function of the document and the selector.
#[verifier::external_body]
pub(crate) fn select_in_document<'a>(document: &'a Html, selector: &Selector) -> (found: Vec<
    ElementRef<'a>,
>)
    ensures
        found@ == document_matches(*document, *selector),
{
    document.select(selector).collect()
}

/// Calls `scraper::ElementRef::select` and collects what the iterator
/// yields: the descendants of the element that match, in the order in which
/// it yields them. What it yields is a function of the element and the
/// selector.
#[verifier::external_body]
pub(crate) fn select_in_element<'a>(element: &ElementRef<'a>, selector: &Selector) -> (found: Vec<
    ElementRef<'a>,
>)
    ensures
        found@ == element_matches(*element, *selector),
{
    element.select(selector).collect()
}

/// Calls `scraper::ElementRef::attr` and copies the value, if there is one.
/// Whether there is one, and what it is, is a function of the element and
/// the name.
#[verifier::external_body]
pub(crate) fn attribute(element: &ElementRef, name: &str) -> (value: Option<String>)
    ensures
        match value {
            Some(v) => element_attribute(*element, name@) == Some(v@),
            None => element_attribute(*element, name@) is None,
        },
{
    element.attr(name).map(|v| v.to_string())
}

/// Calls `scraper::ElementRef::text` and copies each text node that the
/// iterator yields, in order. What it yields is a function of the element.
#[verifier::external_body]
pub(crate) fn text_nodes(element: &ElementRef) -> (texts: Vec<String>)
    ensures
        texts@.map_values(|t: String| t@) == element_texts(*element),
{
    element.text().map(|t| t.to_string()).collect()
}

/// `text` is short enough to be parsed.
pub open spec fn parsable(text: Seq<char>) -> bool {
    text.len() <= MAX_PAGE_CHARS
}

/// Whether `text` is short enough to be parsed.
pub fn is_parsable(text: &str) -> (yes: bool)
    ensures
        yes == parsable(text@),
{
    text.unicode_len() <= MAX_PAGE_CHARS
}

/// The anchor that `element` is read as: its `href` and its text nodes.
pub open spec fn anchor_at(element: ElementRef) -> AnchorView {
    AnchorView { href: element_attribute(element, "href"@), texts: element_texts(element) }
}

/// The anchors that `elements` are read as, in order.
pub open spec fn anchors_at(elements: Seq<ElementRef>) -> Seq<AnchorView> {
    elements.map_values(|e: ElementRef| anchor_at(e))
}

/// For each of `elements` in turn, its descendants that match `selector`.
/// An element that lies below two of `elements` is listed under both.
pub open spec fn matches_below(elements: Seq<ElementRef>, selector: Selector) -> Seq<
    ElementRef<'static>,
>
    decreases elements.len(),
{
    if elements.len() == 0 {
        Seq::empty()
    } else {
        matches_below(elements.drop_last(), selector) + element_matches(elements.last(), selector)
    }
}

/// The anchors found by matching `outer` in `document` and `inner` below
/// each match.
pub open spec fn nested_anchors(document: Html, outer: Selector, inner: Selector) -> Seq<
    AnchorView,
> {
    anchors_at(matches_below(document_matches(document, outer), inner))
}

/// Reads `element` as an anchor.
pub fn read_anchor(element: &ElementRef) -> (anchor: Anchor)
    ensures
        anchor@ == anchor_at(*element),
{
    let href = attribute(element, "href");
    let texts = text_nodes(element);
    Anchor { href, texts }
}

/// Reads each of `elements` as an anchor.
pub fn read_anchors(elements: &Vec<ElementRef>) -> (anchors: Vec<Anchor>)
    ensures
        anchor_views(anchors@) == anchors_at(elements@),
{
    let mut anchors: Vec<Anchor> = Vec::new();
    let mut i: usize = 0;
    while i < elements.len()
        invariant
            i <= elements@.len(),
            anchors@.len() == i,
            forall|j: int| 0 <= j < i ==> (#[trigger] anchors@[j])@ == anchor_at(elements@[j]),
        decreases elements.len() - i,
    {
        let anchor = read_anchor(&elements[i]);
        anchors.push(anchor);
        i = i + 1;
    }
    assert(anchor_views(anchors@) =~= anchors_at(elements@));
    anchors
}

/// Collects, for each of `elements` in turn, its descendants that match
/// `selector`.
pub fn select_below<'a>(elements: &Vec<ElementRef<'a>>, selector: &Selector) -> (found: Vec<
    ElementRef<'a>,
>)
    ensures
        found@ == matches_below(elements@, *selector),
{
    let mut found: Vec<ElementRef<'a>> = Vec::new();
    let mut i: usize = 0;
    while i < elements.len()
        invariant
            i <= elements@.len(),
            found@ == matches_below(elements@.take(i as int), *selector),
        decreases elements.len() - i,
    {
        let mut more = select_in_element(&elements[i], selector);
        proof {
            assert(elements@.take(i + 1).drop_last() == elements@.take(i as int));
            assert(elements@.take(i + 1).last() == elements@[i as int]);
        }
        found.append(&mut more);
        i = i + 1;
    }
    assert(elements@.take(elements@.len() as int) == elements@);
    found
}

} // verus!
