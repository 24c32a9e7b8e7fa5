//! The extra pages of a day's listing.
//!
//! The first page of a listing is the day's own URL. Of the page links found
//! on it, those numbered higher than the first link lead to the extra pages.
//! Each page number is visited once, by ascending number. Where several
//! links carry one number, as when a page shows its page bar twice, the
//! first of them in the document gives the URL.

use vstd::prelude::*;
use crate::extract::{lemma_picked_step, picked};
use crate::records::{page_views, Page, PageView};

verus! {

/// The numbers of `pages` rise from each page to the next.
pub open spec fn ascending(pages: Seq<PageView>) -> bool {
    forall|i: int, j: int|
        0 <= i < j < pages.len() ==> (#[trigger] pages[i]).page < (#[trigger] pages[j]).page
}

/// Some page of `pages` is numbered `number`.
pub open spec fn has_number(pages: Seq<PageView>, number: u32) -> bool {
    exists|i: int| 0 <= i < pages.len() && (#[trigger] pages[i]).page == number
}

/// The pages of `pages` that are numbered `number`, in their given order.
pub open spec fn numbered(pages: Seq<PageView>, number: u32) -> Seq<PageView> {
    picked(
        pages,
        |p: PageView|
            if p.page == number {
                Some(p)
            } else {
                None
            },
    )
}

/// The pages of `pages` numbered higher than its first, in document order.
pub open spec fn later_pages(pages: Seq<PageView>) -> Seq<PageView> {
    if pages.len() == 0 {
        Seq::empty()
    } else {
        picked(
            pages,
            |p: PageView|
                if p.page > pages[0].page {
                    Some(p)
                } else {
                    None
                },
        )
    }
}

/// `sorted` with `page` put behind the last page whose number is not higher
/// than its own.
pub open spec fn inserted(sorted: Seq<PageView>, page: PageView) -> Seq<PageView>
    decreases sorted.len(),
{
    if sorted.len() == 0 || sorted.last().page <= page.page {
        sorted.push(page)
    } else {
        inserted(sorted.drop_last(), page).push(sorted.last())
    }
}

/// `sorted` with `page` put in its place by number, unless a page of that
/// number is there already: then `sorted` as it is.
pub open spec fn placed(sorted: Seq<PageView>, page: PageView) -> Seq<PageView> {
    if has_number(sorted, page.page) {
        sorted
    } else {
        inserted(sorted, page)
    }
}

/// One page for each number of `pages`, the first of that number in
/// `pages`, by ascending number.
pub open spec fn lined_up(pages: Seq<PageView>) -> Seq<PageView>
    decreases pages.len(),
{
    if pages.len() == 0 {
        Seq::empty()
    } else {
        placed(lined_up(pages.drop_last()), pages.last())
    }
}

/// The extra pages to visit after a first page that links to `pages`: one
/// for each number higher than that of the first link, by ascending number.
pub open spec fn extra_pages_of(pages: Seq<PageView>) -> Seq<PageView> {
    lined_up(later_pages(pages))
}

/// Putting `page` at position `k` is what `inserted` does, where every page
/// from `k` on has a higher number and the page before `k` has not.
pub proof fn lemma_inserted_at(sorted: Seq<PageView>, page: PageView, k: int)
    requires
        0 <= k <= sorted.len(),
        forall|i: int| k <= i < sorted.len() ==> (#[trigger] sorted[i]).page > page.page,
        k > 0 ==> sorted[k - 1].page <= page.page,
    ensures
        inserted(sorted, page) == sorted.insert(k, page),
    decreases sorted.len() - k,
{
    if k == sorted.len() {
        assert(sorted.insert(k, page) == sorted.push(page));
    } else {
        assert(sorted.last() == sorted[sorted.len() - 1]);
        let shorter = sorted.drop_last();
        assert forall|i: int| k <= i < shorter.len() implies (#[trigger] shorter[i]).page
            > page.page by {
            assert(shorter[i] == sorted[i]);
        }
        if k > 0 {
            assert(shorter[k - 1] == sorted[k - 1]);
        }
        lemma_inserted_at(shorter, page, k);
        assert(shorter.insert(k, page).push(sorted.last()) == sorted.insert(k, page));
    }
}

/// `inserted` adds the number of the page and no other.
pub proof fn lemma_inserted_numbers(sorted: Seq<PageView>, page: PageView, number: u32)
    ensures
        has_number(inserted(sorted, page), number) <==> has_number(sorted, number) || number
            == page.page,
        inserted(sorted, page).len() == sorted.len() + 1,
    decreases sorted.len(),
{
    let after = inserted(sorted, page);
    if sorted.len() == 0 || sorted.last().page <= page.page {
        assert(after[sorted.len() as int] == page);
        if has_number(sorted, number) {
            let i = choose|i: int| 0 <= i < sorted.len() && (#[trigger] sorted[i]).page == number;
            assert(after[i].page == number);
        }
        if has_number(after, number) && number != page.page {
            let i = choose|i: int| 0 <= i < after.len() && (#[trigger] after[i]).page == number;
            assert(sorted[i].page == number);
        }
    } else {
        let shorter = sorted.drop_last();
        let inner = inserted(shorter, page);
        lemma_inserted_numbers(shorter, page, number);
        assert(after[inner.len() as int] == sorted.last());
        if has_number(inner, number) {
            let i = choose|i: int| 0 <= i < inner.len() && (#[trigger] inner[i]).page == number;
            assert(after[i].page == number);
        }
        if has_number(shorter, number) {
            let i = choose|i: int| 0 <= i < shorter.len() && (#[trigger] shorter[i]).page == number;
            assert(sorted[i].page == number);
        }
        if has_number(sorted, number) {
            let i = choose|i: int| 0 <= i < sorted.len() && (#[trigger] sorted[i]).page == number;
            if i < shorter.len() {
                assert(shorter[i].page == number);
            } else {
                assert(after[inner.len() as int].page == number);
            }
        }
        if has_number(after, number) {
            let i = choose|i: int| 0 <= i < after.len() && (#[trigger] after[i]).page == number;
            if i < inner.len() {
                assert(inner[i].page == number);
            } else {
                assert(sorted[sorted.len() - 1].page == number);
            }
        }
    }
}

/// Putting a page of a new number into a run of rising numbers leaves the
/// numbers rising.
pub proof fn lemma_inserted_ascending(sorted: Seq<PageView>, page: PageView)
    requires
        ascending(sorted),
        !has_number(sorted, page.page),
    ensures
        ascending(inserted(sorted, page)),
    decreases sorted.len(),
{
    let after = inserted(sorted, page);
    if sorted.len() == 0 || sorted.last().page <= page.page {
        assert forall|i: int, j: int| 0 <= i < j < after.len() implies (
        #[trigger] after[i]).page < (#[trigger] after[j]).page by {
            if j < sorted.len() {
                assert(after[i] == sorted[i] && after[j] == sorted[j]);
            } else {
                assert(after[i] == sorted[i]);
                assert(sorted[sorted.len() - 1].page != page.page);
                if i < sorted.len() - 1 {
                    assert(sorted[i].page < sorted[sorted.len() - 1].page);
                }
            }
        }
    } else {
        let shorter = sorted.drop_last();
        let inner = inserted(shorter, page);
        assert(ascending(shorter)) by {
            assert forall|i: int, j: int| 0 <= i < j < shorter.len() implies (
            #[trigger] shorter[i]).page < (#[trigger] shorter[j]).page by {
                assert(shorter[i] == sorted[i] && shorter[j] == sorted[j]);
            }
        }
        assert(!has_number(shorter, page.page)) by {
            if has_number(shorter, page.page) {
                let i = choose|i: int|
                    0 <= i < shorter.len() && (#[trigger] shorter[i]).page == page.page;
                assert(sorted[i].page == page.page);
            }
        }
        lemma_inserted_ascending(shorter, page);
        assert forall|i: int| 0 <= i < inner.len() implies (#[trigger] inner[i]).page
            < sorted.last().page by {
            lemma_inserted_numbers(shorter, page, inner[i].page);
            if inner[i].page != page.page {
                let at = choose|at: int|
                    0 <= at < shorter.len() && (#[trigger] shorter[at]).page == inner[i].page;
                assert(sorted[at] == shorter[at]);
                assert(sorted[at].page < sorted[sorted.len() - 1].page);
            }
        }
        assert forall|i: int, j: int| 0 <= i < j < after.len() implies (
        #[trigger] after[i]).page < (#[trigger] after[j]).page by {
            if j < inner.len() {
                assert(after[i] == inner[i] && after[j] == inner[j]);
            } else {
                assert(after[i] == inner[i]);
            }
        }
    }
}

/// `inserted` puts the page behind those of its number that are there, and
/// leaves the pages of every number in the order they had.
pub proof fn lemma_inserted_is_stable(sorted: Seq<PageView>, page: PageView, number: u32)
    ensures
        numbered(inserted(sorted, page), number) == if page.page == number {
            numbered(sorted, number).push(page)
        } else {
            numbered(sorted, number)
        },
    decreases sorted.len(),
{
    let pick = |p: PageView|
        if p.page == number {
            Some(p)
        } else {
            None
        };
    if sorted.len() == 0 || sorted.last().page <= page.page {
        assert(sorted.push(page).drop_last() == sorted);
    } else {
        let shorter = sorted.drop_last();
        let inner = inserted(shorter, page);
        lemma_inserted_is_stable(shorter, page, number);
        assert(inner.push(sorted.last()).drop_last() == inner);
        assert(numbered(sorted, number) == match pick(sorted.last()) {
            Some(p) => numbered(shorter, number).push(p),
            None => numbered(shorter, number),
        });
    }
}

/// The pages numbered `number` are none exactly where no page has the
/// number.
pub proof fn lemma_numbered_none(pages: Seq<PageView>, number: u32)
    ensures
        numbered(pages, number).len() == 0 <==> !has_number(pages, number),
    decreases pages.len(),
{
    if pages.len() > 0 {
        let shorter = pages.drop_last();
        lemma_numbered_none(shorter, number);
        if has_number(shorter, number) {
            let i = choose|i: int| 0 <= i < shorter.len() && (#[trigger] shorter[i]).page == number;
            assert(pages[i].page == number);
        }
        if pages.last().page == number {
            assert(pages[pages.len() - 1].page == number);
        }
        if has_number(pages, number) && pages.last().page != number {
            let i = choose|i: int| 0 <= i < pages.len() && (#[trigger] pages[i]).page == number;
            assert(shorter[i].page == number);
        }
    }
}

/// `lined_up` has the numbers of the pages it was given, each once, rising.
pub proof fn lemma_lined_up(pages: Seq<PageView>, number: u32)
    ensures
        ascending(lined_up(pages)),
        has_number(lined_up(pages), number) <==> has_number(pages, number),
    decreases pages.len(),
{
    if pages.len() > 0 {
        let shorter = pages.drop_last();
        let before = lined_up(shorter);
        let last = pages.last();
        lemma_lined_up(shorter, number);
        lemma_lined_up(shorter, last.page);
        if !has_number(before, last.page) {
            lemma_inserted_ascending(before, last);
            lemma_inserted_numbers(before, last, number);
        }
        if has_number(shorter, number) {
            let i = choose|i: int| 0 <= i < shorter.len() && (#[trigger] shorter[i]).page == number;
            assert(pages[i].page == number);
        }
        if last.page == number {
            assert(pages[pages.len() - 1].page == number);
        }
        if has_number(pages, number) && last.page != number {
            let i = choose|i: int| 0 <= i < pages.len() && (#[trigger] pages[i]).page == number;
            assert(shorter[i].page == number);
        }
    }
}

/// For every number, `lined_up` keeps the first page of that number and no
/// other. With the rising numbers this settles the whole line-up.
pub proof fn lemma_lined_up_keeps_first(pages: Seq<PageView>, number: u32)
    ensures
        numbered(lined_up(pages), number) == numbered(pages, number).take(
            if has_number(pages, number) {
                1int
            } else {
                0int
            },
        ),
    decreases pages.len(),
{
    if pages.len() == 0 {
        assert(numbered(pages, number).take(0) == numbered(pages, number));
    } else {
        let shorter = pages.drop_last();
        let before = lined_up(shorter);
        let last = pages.last();
        let held = numbered(shorter, number);
        lemma_lined_up_keeps_first(shorter, number);
        lemma_lined_up(shorter, last.page);
        lemma_numbered_none(shorter, number);
        lemma_numbered_none(pages, number);
        if last.page == number {
            assert(numbered(pages, number) == held.push(last));
            if has_number(before, last.page) {
                assert(held.push(last).take(1) == held.take(1));
            } else {
                lemma_inserted_is_stable(before, last, number);
                assert(held.take(0).push(last) == held.push(last).take(1));
            }
        } else {
            assert(numbered(pages, number) == held);
            if !has_number(before, last.page) {
                lemma_inserted_is_stable(before, last, number);
            }
        }
    }
}

/// Everything picked by the rule "numbered higher than `floor`" is numbered
/// higher than `floor`.
pub proof fn lemma_picked_all(
    pages: Seq<PageView>,
    pick: spec_fn(PageView) -> Option<PageView>,
    floor: u32,
)
    requires
        forall|p: PageView|
            #[trigger] pick(p) == if p.page > floor {
                Some(p)
            } else {
                None
            },
    ensures
        forall|i: int|
            0 <= i < picked(pages, pick).len() ==> (#[trigger] picked(pages, pick)[i]).page > floor,
    decreases pages.len(),
{
    if pages.len() > 0 {
        lemma_picked_all(pages.drop_last(), pick, floor);
        let before = picked(pages.drop_last(), pick);
        let all = picked(pages, pick);
        let last = pages.last();
        assert(pick(last) == if last.page > floor {
            Some(last)
        } else {
            None
        });
        assert forall|i: int| 0 <= i < all.len() implies (#[trigger] all[i]).page > floor by {
            if i < before.len() {
                assert(all[i] == before[i]);
            }
        }
    }
}

/// The extra pages are numbered higher than the first page link, each
/// number once, rising.
pub proof fn lemma_extra_pages_are_later(pages: Seq<PageView>)
    ensures
        forall|i: int|
            0 <= i < extra_pages_of(pages).len() ==> (#[trigger] extra_pages_of(pages)[i]).page
                > pages[0].page,
        ascending(extra_pages_of(pages)),
{
    let later = later_pages(pages);
    let extra = extra_pages_of(pages);
    lemma_lined_up(later, 0);
    if pages.len() > 0 {
        let pick = |p: PageView|
            if p.page > pages[0].page {
                Some(p)
            } else {
                None
            };
        lemma_picked_all(pages, pick, pages[0].page);
        assert forall|i: int| 0 <= i < extra.len() implies (#[trigger] extra[i]).page
            > pages[0].page by {
            lemma_lined_up(later, extra[i].page);
            let at = choose|at: int|
                0 <= at < later.len() && (#[trigger] later[at]).page == extra[i].page;
            assert(later[at].page > pages[0].page);
        }
    }
}

/// The extra pages to visit after a first page that links to `pages`: one
/// for each number higher than that of the first link, with the URL of the
/// first link of that number, by ascending number.
pub fn extra_pages(pages: &Vec<Page>) -> (extra: Vec<Page>)
    ensures
        page_views(extra@) == extra_pages_of(page_views(pages@)),
{
    let mut extra: Vec<Page> = Vec::new();
    if pages.len() == 0 {
        assert(page_views(extra@) =~= Seq::<PageView>::empty());
        assert(page_views(pages@).len() == 0);
        return extra;
    }
    let ghost all = page_views(pages@);
    let floor: u32 = pages[0].page;
    let ghost pick = |p: PageView|
        if p.page > all[0].page {
            Some(p)
        } else {
            None
        };
    assert(page_views(extra@) =~= Seq::<PageView>::empty());
    let mut i: usize = 0;
    while i < pages.len()
        invariant
            i <= pages@.len(),
            pages@.len() > 0,
            all == page_views(pages@),
            floor == all[0].page,
            pick == |p: PageView|
                if p.page > all[0].page {
                    Some(p)
                } else {
                    None
                },
            page_views(extra@) == lined_up(picked(all.take(i as int), pick)),
        decreases pages.len() - i,
    {
        proof {
            lemma_picked_step(all, pick, i as int);
        }
        if pages[i].page > floor {
            let number: u32 = pages[i].page;
            let ghost before = picked(all.take(i as int), pick);
            let ghost sorted = page_views(extra@);
            proof {
                lemma_lined_up(before, number);
            }
            let mut k: usize = extra.len();
            while k > 0 && extra[k - 1].page > number
                invariant
                    k <= extra@.len(),
                    forall|j: int| k <= j < extra@.len() ==> (#[trigger] extra@[j]).page > number,
                decreases k,
            {
                k = k - 1;
            }
            let known: bool = k > 0 && extra[k - 1].page == number;
            proof {
                assert(before.push(all[i as int]).drop_last() == before);
                assert forall|j: int| k <= j < sorted.len() implies (#[trigger] sorted[j]).page
                    > number by {
                    assert(sorted[j] == extra@[j]@);
                }
                if k > 0 {
                    assert(sorted[k - 1] == extra@[k - 1]@);
                }
                if known {
                    assert(has_number(sorted, number));
                } else if has_number(sorted, number) {
                    let at = choose|at: int|
                        0 <= at < sorted.len() && (#[trigger] sorted[at]).page == number;
                    if at < k - 1 {
                        assert(sorted[at].page < sorted[k - 1].page);
                    }
                }
            }
            if !known {
                let made = Page { page: number, url: pages[i].url.clone() };
                proof {
                    assert(made@ == all[i as int]);
                    lemma_inserted_at(sorted, made@, k as int);
                    assert(page_views(extra@.insert(k as int, made)) =~= sorted.insert(
                        k as int,
                        made@,
                    ));
                }
                extra.insert(k, made);
            }
        }
        i = i + 1;
    }
    assert(all.take(pages@.len() as int) == all);
    extra
}

} // verus!
