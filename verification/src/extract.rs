//! Extraction of records from anchors.
//!
//! An anchor is what a link element gives to read: its `href`, if it has
//! one, and its text nodes. Three kinds of record are read from a run of
//! anchors: index links, listing pages and product descriptions. Of several
//! text nodes the first is the caption. An anchor that lacks an `href`, or
//! whose caption shows nothing, is passed over. Every such irregularity is
//! reported on the side, by the position of the anchor, and never stops the
//! run.

use vstd::prelude::*;
use crate::decimal::{parse_positive, positive_numeral};
use crate::records::{
    description_views,
    page_views,
    DescriptionView,
    Page,
    PageView,
    ProductDescription,
};
use crate::text::{blank, chars_of, is_blank, join, joined, trim, trimmed};

verus! {

/// A link element: the value of its `href` attribute, and its text nodes in
/// document order.
#[derive(Clone, Debug, PartialEq, Eq)]
pub struct Anchor {
    pub href: Option<String>,
    pub texts: Vec<String>,
}

/// A link with its caption, as found on an index page.
#[derive(Clone, Debug, PartialEq, Eq)]
pub struct IndexLink {
    pub href: String,
    pub caption: String,
}

/// What can be odd about an anchor.
#[derive(Clone, Copy, Debug, PartialEq, Eq, Structural)]
pub enum AnomalyKind {
    /// The anchor has no `href`; it is passed over.
    MissingAttribute,
    /// The anchor has no text, or its caption is white space only; it is
    /// passed over.
    MissingText,
    /// The anchor has several text nodes; the first is its caption.
    AmbiguousCaption,
}

/// An irregular anchor: its position in the run that was read, and what is
/// odd about it.
#[derive(Clone, Copy, Debug, PartialEq, Eq, Structural)]
pub struct Anomaly {
    pub position: usize,
    pub kind: AnomalyKind,
}

/// An anchor as contracts see it.
pub struct AnchorView {
    pub href: Option<Seq<char>>,
    pub texts: Seq<Seq<char>>,
}

/// An index link as contracts see it.
pub struct LinkView {
    pub href: Seq<char>,
    pub caption: Seq<char>,
}

impl View for Anchor {
    type V = AnchorView;

    open spec fn view(&self) -> AnchorView {
        AnchorView {
            href: match self.href {
                Some(h) => Some(h@),
                None => None,
            },
            texts: self.texts@.map_values(|t: String| t@),
        }
    }
}

impl View for IndexLink {
    type V = LinkView;

    open spec fn view(&self) -> LinkView {
        LinkView { href: self.href@, caption: self.caption@ }
    }
}

/// The views of a run of anchors, in order.
pub open spec fn anchor_views(anchors: Seq<Anchor>) -> Seq<AnchorView> {
    anchors.map_values(|a: Anchor| a@)
}

/// The views of a run of index links, in order.
pub open spec fn link_views(links: Seq<IndexLink>) -> Seq<LinkView> {
    links.map_values(|l: IndexLink| l@)
}

/// The items that `pick` takes from `items`, in order.
pub open spec fn picked<T, U>(items: Seq<T>, pick: spec_fn(T) -> Option<U>) -> Seq<U>
    decreases items.len(),
{
    if items.len() == 0 {
        Seq::empty()
    } else {
        let before = picked(items.drop_last(), pick);
        match pick(items.last()) {
            Some(item) => before.push(item),
            None => before,
        }
    }
}

/// `anchor` has a caption: its first text node is there and shows
/// something.
pub open spec fn has_caption(anchor: AnchorView) -> bool {
    anchor.texts.len() > 0 && !blank(anchor.texts[0])
}

/// What is odd about `anchor`, if anything. A missing `href` is reported
/// before a missing caption.
pub open spec fn anomaly_of(anchor: AnchorView) -> Option<AnomalyKind> {
    if anchor.href is None {
        Some(AnomalyKind::MissingAttribute)
    } else if !has_caption(anchor) {
        Some(AnomalyKind::MissingText)
    } else if anchor.texts.len() > 1 {
        Some(AnomalyKind::AmbiguousCaption)
    } else {
        None
    }
}

/// The irregular anchors of `anchors`, each with its position, in order.
pub open spec fn anomalies_of(anchors: Seq<AnchorView>) -> Seq<Anomaly>
    decreases anchors.len(),
{
    if anchors.len() == 0 {
        Seq::empty()
    } else {
        let before = anomalies_of(anchors.drop_last());
        match anomaly_of(anchors.last()) {
            Some(kind) => before.push(
                Anomaly { position: (anchors.len() - 1) as usize, kind },
            ),
            None => before,
        }
    }
}

/// The index link that `anchor` gives: its `href` and its caption, as the
/// text node has it. None where the `href` is missing or the caption shows
/// nothing.
pub open spec fn link_of(anchor: AnchorView) -> Option<LinkView> {
    match anchor.href {
        Some(href) if has_caption(anchor) => Some(LinkView { href, caption: anchor.texts[0] }),
        _ => None,
    }
}

/// The listing page that `anchor` gives under `url_root`: the caption read
/// as a numeral above zero is its number, `url_root`, a `/` and the `href`
/// are its URL. None where the `href` is missing or the caption is no such
/// numeral.
pub open spec fn page_of(anchor: AnchorView, url_root: Seq<char>) -> Option<PageView> {
    match link_of(anchor) {
        Some(link) => match positive_numeral(link.caption) {
            Some(page) => Some(PageView { page, url: joined(url_root, link.href) }),
            None => None,
        },
        None => None,
    }
}

/// The product description that `anchor` gives: the caption without the
/// white space around it, and the `href`. None where the `href` is missing
/// or the caption shows nothing, so no description is ever empty.
pub open spec fn description_of(anchor: AnchorView) -> Option<DescriptionView> {
    match link_of(anchor) {
        Some(link) => Some(DescriptionView { description: trimmed(link.caption), url: link.href }),
        None => None,
    }
}

/// The index links that `anchors` give, in order.
pub open spec fn links_of(anchors: Seq<AnchorView>) -> Seq<LinkView> {
    picked(anchors, |a: AnchorView| link_of(a))
}

/// The listing pages that `anchors` give under `url_root`, in order.
pub open spec fn pages_of(anchors: Seq<AnchorView>, url_root: Seq<char>) -> Seq<PageView> {
    picked(anchors, |a: AnchorView| page_of(a, url_root))
}

/// The product descriptions that `anchors` give, in order.
pub open spec fn descriptions_of(anchors: Seq<AnchorView>) -> Seq<DescriptionView> {
    picked(anchors, |a: AnchorView| description_of(a))
}

/// Reading one more item extends what was picked by what that item gives.
pub proof fn lemma_picked_step<T, U>(items: Seq<T>, pick: spec_fn(T) -> Option<U>, i: int)
    requires
        0 <= i < items.len(),
    ensures
        picked(items.take(i + 1), pick) == match pick(items[i]) {
            Some(item) => picked(items.take(i), pick).push(item),
            None => picked(items.take(i), pick),
        },
{
    assert(items.take(i + 1).drop_last() == items.take(i));
    assert(items.take(i + 1).last() == items[i]);
}

/// Whatever was picked was given by one of the items.
pub proof fn lemma_picked_from<T, U>(items: Seq<T>, pick: spec_fn(T) -> Option<U>, i: int)
    requires
        0 <= i < picked(items, pick).len(),
    ensures
        exists|j: int| 0 <= j < items.len() && pick(#[trigger] items[j]) == Some(
            picked(items, pick)[i],
        ),
    decreases items.len(),
{
    let before = picked(items.drop_last(), pick);
    if i < before.len() {
        lemma_picked_from(items.drop_last(), pick, i);
        let j = choose|j: int|
            0 <= j < items.drop_last().len() && pick(#[trigger] items.drop_last()[j]) == Some(
                before[i],
            );
        assert(items[j] == items.drop_last()[j]);
    } else {
        assert(pick(items[items.len() - 1]) == Some(picked(items, pick)[i]));
    }
}

/// No extracted description is empty, and no extracted page is numbered
/// zero.
pub proof fn lemma_records_are_sound(anchors: Seq<AnchorView>, url_root: Seq<char>)
    ensures
        forall|i: int|
            0 <= i < descriptions_of(anchors).len() ==> (#[trigger] descriptions_of(
                anchors,
            )[i]).description.len() > 0,
        forall|i: int|
            0 <= i < pages_of(anchors, url_root).len() ==> (#[trigger] pages_of(
                anchors,
                url_root,
            )[i]).page > 0,
{
    assert forall|i: int| 0 <= i < descriptions_of(anchors).len() implies (
    #[trigger] descriptions_of(anchors)[i]).description.len() > 0 by {
        lemma_picked_from(anchors, |a: AnchorView| description_of(a), i);
    }
    assert forall|i: int| 0 <= i < pages_of(anchors, url_root).len() implies (#[trigger] pages_of(
        anchors,
        url_root,
    )[i]).page > 0 by {
        lemma_picked_from(anchors, |a: AnchorView| page_of(a, url_root), i);
    }
}

impl Anchor {
    /// Whether the anchor's first text node is there and shows something.
    pub fn has_caption(&self) -> (yes: bool)
        ensures
            yes == has_caption(self@),
    {
        self.texts.len() > 0 && !is_blank(self.texts[0].as_str())
    }

    /// The anchor's `href` and caption, where it has both.
    pub fn link(&self) -> (found: Option<IndexLink>)
        ensures
            match found {
                Some(link) => link_of(self@) == Some(link@),
                None => link_of(self@) is None,
            },
    {
        match &self.href {
            Some(href) => {
                if self.has_caption() {
                    Some(IndexLink { href: href.clone(), caption: self.texts[0].clone() })
                } else {
                    None
                }
            },
            None => None,
        }
    }

    /// What is odd about the anchor, if anything.
    pub fn anomaly(&self) -> (found: Option<AnomalyKind>)
        ensures
            found == anomaly_of(self@),
    {
        if self.href.is_none() {
            Some(AnomalyKind::MissingAttribute)
        } else if !self.has_caption() {
            Some(AnomalyKind::MissingText)
        } else if self.texts.len() > 1 {
            Some(AnomalyKind::AmbiguousCaption)
        } else {
            None
        }
    }
}

/// Lists the irregular anchors of `anchors`, each with its position.
pub fn anomalies(anchors: &Vec<Anchor>) -> (found: Vec<Anomaly>)
    ensures
        found@ == anomalies_of(anchor_views(anchors@)),
{
    let ghost all = anchor_views(anchors@);
    let mut found: Vec<Anomaly> = Vec::new();
    let mut i: usize = 0;
    while i < anchors.len()
        invariant
            i <= anchors@.len(),
            all == anchor_views(anchors@),
            found@ == anomalies_of(all.take(i as int)),
        decreases anchors.len() - i,
    {
        proof {
            assert(all.take(i + 1).drop_last() == all.take(i as int));
            assert(all.take(i + 1).last() == anchors@[i as int]@);
        }
        match anchors[i].anomaly() {
            Some(kind) => {
                found.push(Anomaly { position: i, kind });
            },
            None => {},
        }
        i = i + 1;
    }
    assert(all.take(anchors@.len() as int) == all);
    found
}

/// Index-link extraction: the `href` and caption of every anchor that has
/// both, in order.
pub fn index_links(anchors: &Vec<Anchor>) -> (links: Vec<IndexLink>)
    ensures
        link_views(links@) == links_of(anchor_views(anchors@)),
{
    let ghost all = anchor_views(anchors@);
    let ghost pick = |a: AnchorView| link_of(a);
    let mut links: Vec<IndexLink> = Vec::new();
    let mut i: usize = 0;
    while i < anchors.len()
        invariant
            i <= anchors@.len(),
            all == anchor_views(anchors@),
            pick == |a: AnchorView| link_of(a),
            link_views(links@) == picked(all.take(i as int), pick),
        decreases anchors.len() - i,
    {
        proof {
            lemma_picked_step(all, pick, i as int);
        }
        match anchors[i].link() {
            Some(link) => {
                assert(link_views(links@.push(link)) == link_views(links@).push(link@));
                links.push(link);
            },
            None => {},
        }
        i = i + 1;
    }
    assert(all.take(anchors@.len() as int) == all);
    links
}

/// Pagination extraction: a listing page for every anchor that has an
/// `href` and whose caption is a numeral above zero, in order. Other
/// anchors give nothing.
pub fn listing_pages(anchors: &Vec<Anchor>, url_root: &str) -> (pages: Vec<Page>)
    ensures
        page_views(pages@) == pages_of(anchor_views(anchors@), url_root@),
{
    let ghost all = anchor_views(anchors@);
    let ghost pick = |a: AnchorView| page_of(a, url_root@);
    let mut pages: Vec<Page> = Vec::new();
    let mut i: usize = 0;
    while i < anchors.len()
        invariant
            i <= anchors@.len(),
            all == anchor_views(anchors@),
            pick == |a: AnchorView| page_of(a, url_root@),
            page_views(pages@) == picked(all.take(i as int), pick),
        decreases anchors.len() - i,
    {
        proof {
            lemma_picked_step(all, pick, i as int);
        }
        match anchors[i].link() {
            Some(link) => {
                let caption = chars_of(link.caption.as_str());
                match parse_positive(&caption) {
                    Some(page) => {
                        let made = Page { page, url: join(url_root, link.href.as_str()) };
                        assert(page_views(pages@.push(made)) == page_views(pages@).push(made@));
                        pages.push(made);
                    },
                    None => {},
                }
            },
            None => {},
        }
        i = i + 1;
    }
    assert(all.take(anchors@.len() as int) == all);
    pages
}

/// Description extraction: for every anchor that has an `href` and a
/// caption that shows something, the caption without surrounding white
/// space and the `href`, in order.
pub fn descriptions(anchors: &Vec<Anchor>) -> (list: Vec<ProductDescription>)
    ensures
        description_views(list@) == descriptions_of(anchor_views(anchors@)),
{
    let ghost all = anchor_views(anchors@);
    let ghost pick = |a: AnchorView| description_of(a);
    let mut list: Vec<ProductDescription> = Vec::new();
    let mut i: usize = 0;
    while i < anchors.len()
        invariant
            i <= anchors@.len(),
            all == anchor_views(anchors@),
            pick == |a: AnchorView| description_of(a),
            description_views(list@) == picked(all.take(i as int), pick),
        decreases anchors.len() - i,
    {
        proof {
            lemma_picked_step(all, pick, i as int);
        }
        match anchors[i].link() {
            Some(link) => {
                let made = ProductDescription {
                    description: trim(link.caption.as_str()),
                    url: link.href,
                };
                assert(description_views(list@.push(made)) == description_views(list@).push(
                    made@,
                ));
                list.push(made);
            },
            None => {},
        }
        i = i + 1;
    }
    assert(all.take(anchors@.len() as int) == all);
    list
}

} // verus!
