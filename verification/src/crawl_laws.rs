//! What holds of every crawl.
//!
//! A crawl is a run of the state machine: a sequence of inputs, each fed to
//! [`advanced`]. Some laws here hold of every step. Others speak of runs
//! whose fetches are answered by one unchanging source, a map from URL to
//! page text.

use vstd::prelude::*;
use scraper::Selector;
use crate::catalog::{
    distinct_days,
    lemma_merge_all,
    lemma_merge_all_known,
    lists_day,
    merged_all,
    DayView,
    MonthView,
};
use crate::crawl::{
    advanced,
    awaited,
    in_bounds,
    initial,
    links_on,
    next_selected,
    pending_url,
    reading,
    year_selected,
    ActionView,
    CrawlState,
    EventView,
    InputView,
    Phase,
    StepView,
    THROTTLE_MILLIS,
};
use crate::error::CrawlErrorView;
use crate::extract::{descriptions_of, links_of, pages_of, AnchorView};
use crate::pages::{ascending, lemma_extra_pages_are_later};
use crate::records::{DailyProductsView, DescriptionView};
use crate::scrape::{day_urls, days_read};

verus! {

/// The state that the inputs `inputs`, fed one after the other, lead to
/// from `s`.
pub open spec fn run(s: CrawlState, inputs: Seq<InputView>) -> CrawlState
    decreases inputs.len(),
{
    if inputs.len() == 0 {
        s
    } else {
        advanced(run(s, inputs.drop_last()), inputs.last()).0
    }
}

/// What the last of `inputs` makes the crawler ask for, in the run from `s`.
pub open spec fn last_step(s: CrawlState, inputs: Seq<InputView>) -> StepView
    recommends
        inputs.len() > 0,
{
    advanced(run(s, inputs.drop_last()), inputs.last()).1
}

/// `input` reports what `source` holds for the URL that `s` is fetching:
/// where the source has the URL, the reading of the text it has for it, and
/// a failure where it has not. Inputs that report no fetch are not bound by
/// the source.
pub open spec fn answers(
    s: CrawlState,
    input: InputView,
    source: Map<Seq<char>, Seq<char>>,
) -> bool {
    match input {
        InputView::MonthIndex { .. }
        | InputView::DayPage { .. }
        | InputView::ExtraPage { .. }
        | InputView::FetchFailed
        | InputView::Oversized => if source.contains_key(pending_url(s)) {
            input == reading(s, EventView::Fetched { body: source[pending_url(s)] })
        } else {
            input is FetchFailed
        },
        _ => true,
    }
}

/// Every input of the run `inputs` from `s` reports what `source` holds.
pub open spec fn faithful(
    s: CrawlState,
    inputs: Seq<InputView>,
    source: Map<Seq<char>, Seq<char>>,
) -> bool
    decreases inputs.len(),
{
    inputs.len() == 0 || (faithful(s, inputs.drop_last(), source) && answers(
        run(s, inputs.drop_last()),
        inputs.last(),
        source,
    ))
}

/// The year filter of `s` selects the month at position `m`.
pub open spec fn selected_at(s: CrawlState, m: int) -> bool {
    year_selected(s.years, s.catalog[m].year)
}

/// No month of `catalog` lists a day number twice.
pub open spec fn all_distinct(catalog: Seq<MonthView>) -> bool {
    forall|m: int| 0 <= m < catalog.len() ==> distinct_days(#[trigger] catalog[m].days)
}

/// `s` is a state that a crawl can be in: its cursors point at what its
/// phase works on, the month it works on is one that the filter selects,
/// and the extra pages of the day are lined up by ascending number.
pub open spec fn on_track(s: CrawlState) -> bool {
    &&& in_bounds(s)
    &&& ascending(s.extra)
    &&& match s.phase {
        Phase::Ready | Phase::Finished | Phase::Aborted => true,
        _ => selected_at(s, s.month),
    }
}

/// `days` lists the number of every day of `found`.
pub open spec fn lists_all(days: Seq<DayView>, found: Seq<DayView>) -> bool {
    forall|i: int| 0 <= i < found.len() ==> lists_day(days, (#[trigger] found[i]).day)
}

/// The days that the links `links` of a month index lead to under
/// `url_root`, up to the first that names no day.
pub open spec fn days_linked(links: Seq<AnchorView>, url_root: Seq<char>) -> Seq<DayView> {
    days_read(day_urls(links_of(links), url_root)).0
}

/// The month at position `m` already lists every day that its index, as
/// `source` has it, links to.
pub open spec fn settled_at(s: CrawlState, m: int, source: Map<Seq<char>, Seq<char>>) -> bool {
    source.contains_key(s.catalog[m].url) ==> lists_all(
        s.catalog[m].days,
        days_linked(links_on(s, source[s.catalog[m].url]), s.url_root),
    )
}

/// Every selected month before position `upto` is settled.
pub open spec fn settled_before(
    s: CrawlState,
    source: Map<Seq<char>, Seq<char>>,
    upto: int,
) -> bool {
    forall|m: int|
        0 <= m < upto && m < s.catalog.len() && selected_at(s, m) ==> #[trigger] settled_at(
            s,
            m,
            source,
        )
}

/// The position up to which a crawl in state `s` has merged the days of
/// the selected months.
pub open spec fn merged_upto(s: CrawlState) -> int {
    match s.phase {
        Phase::Ready | Phase::Aborted => 0,
        Phase::MonthIndex => s.month,
        Phase::Finished => s.catalog.len() as int,
        _ => s.month + 1,
    }
}

/// What a step never touches: the filter, the root URL and the selectors.
pub open spec fn same_setup(a: CrawlState, b: CrawlState) -> bool {
    &&& a.years == b.years
    &&& a.url_root == b.url_root
    &&& a.table_tag == b.table_tag
    &&& a.list_tag == b.list_tag
    &&& a.a_tag == b.a_tag
}

/// What a step never touches in the catalog: the months' number, keys and
/// URLs.
pub open spec fn same_months(a: Seq<MonthView>, b: Seq<MonthView>) -> bool {
    &&& a.len() == b.len()
    &&& forall|m: int|
        0 <= m < a.len() ==> (#[trigger] a[m]).year == b[m].year && a[m].month == b[m].month
            && a[m].url == b[m].url
}

/// `next_selected` skips months that the filter does not select and stops
/// at one that it selects, or at the end.
pub proof fn lemma_next_selected(catalog: Seq<MonthView>, years: Seq<u32>, from: int)
    requires
        0 <= from <= catalog.len(),
    ensures
        from <= next_selected(catalog, years, from) <= catalog.len(),
        forall|m: int|
            from <= m < next_selected(catalog, years, from) ==> !year_selected(
                years,
                (#[trigger] catalog[m]).year,
            ),
        next_selected(catalog, years, from) < catalog.len() ==> year_selected(
            years,
            catalog[next_selected(catalog, years, from)].year,
        ),
    decreases catalog.len() - from,
{
    if from < catalog.len() && !year_selected(years, catalog[from].year) {
        lemma_next_selected(catalog, years, from + 1);
    }
}

/// Every fetch that the crawler asks for is followed by the fixed pause.
pub proof fn lemma_every_fetch_is_throttled(s: CrawlState, input: InputView)
    ensures
        advanced(s, input).1.action matches ActionView::Fetch { wait_millis, .. } ==> wait_millis
            == THROTTLE_MILLIS,
{
}

/// A failed fetch ends the crawl at once, with the URL that failed; the
/// catalog is left as it was.
pub proof fn lemma_failed_fetch_aborts(s: CrawlState)
    requires
        awaited(s, InputView::FetchFailed),
    ensures
        advanced(s, InputView::FetchFailed).0.phase == Phase::Aborted,
        advanced(s, InputView::FetchFailed).0.catalog == s.catalog,
        advanced(s, InputView::FetchFailed).1.action == (ActionView::Abort {
            error: CrawlErrorView::FetchFailed { url: pending_url(s) },
        }),
{
}

/// The crawl is given up exactly on a failed fetch, on a page too long to
/// be parsed, and on a month index with a link that should name a day and
/// names none.
pub proof fn lemma_when_the_crawl_aborts(s: CrawlState, input: InputView)
    ensures
        advanced(s, input).1.action is Abort <==> awaited(s, input) && (input is FetchFailed
            || input is Oversized || (
        input matches InputView::MonthIndex { links } && days_read(
            day_urls(links_of(links), s.url_root),
        ).1 is Some)),
{
}

/// The catalog is saved only in answer to a backup: a save is asked for
/// exactly when the backup that was asked for before is reported done, and
/// nothing but that save is asked for then.
pub proof fn lemma_backup_before_save(s: CrawlState, input: InputView)
    ensures
        advanced(s, input).1.action is Checkpoint <==> awaited(s, input) && s.phase
            == Phase::BackingUp,
        advanced(s, input).1.action is Checkpoint ==> input is BackedUp && advanced(
            s,
            input,
        ).0.catalog == s.catalog,
        advanced(s, input).1.action is Backup ==> advanced(s, input).0.phase == Phase::BackingUp,
{
}

/// The crawl goes through the catalog in order. After a save it turns to
/// the next month that the filter selects, passing over none that it
/// selects; after a day's record is stored it turns to the next day of the
/// month; after an extra page it turns to the next extra page.
pub proof fn lemma_crawl_order(s: CrawlState, input: InputView)
    requires
        awaited(s, input),
    ensures
        input is Saved ==> advanced(s, input).0.month > s.month && forall|m: int|
            s.month < m < advanced(s, input).0.month && m < s.catalog.len() ==> !selected_at(s, m),
        input is Saved && advanced(s, input).0.phase == Phase::MonthIndex ==> selected_at(
            s,
            advanced(s, input).0.month,
        ),
        input is Saved ==> advanced(s, input).0.phase == Phase::MonthIndex || advanced(
            s,
            input,
        ).0.phase == Phase::Finished,
        input is Emitted ==> advanced(s, input).0.month == s.month && advanced(s, input).0.day
            == s.day + 1,
        input is ExtraPage ==> advanced(s, input).0.month == s.month && advanced(s, input).0.day
            == s.day && advanced(s, input).0.next_extra == s.next_extra + 1 && advanced(
            s,
            input,
        ).0.extra == s.extra,
        input is DayPage ==> advanced(s, input).0.month == s.month && advanced(s, input).0.day
            == s.day && advanced(s, input).0.next_extra == 0,
{
    if input is Saved {
        lemma_next_selected(s.catalog, s.years, s.month + 1);
    }
}

/// Once the crawl is finished or given up, nothing changes anything.
pub proof fn lemma_terminal_states_stay(s: CrawlState, input: InputView)
    requires
        s.phase == Phase::Finished || s.phase == Phase::Aborted,
    ensures
        advanced(s, input).0 == s,
        advanced(s, input).1.action == ActionView::Unexpected,
{
}

/// A step keeps a crawl on track, keeps the setup and the months' keys, and
/// keeps every month free of repeated day numbers.
pub proof fn lemma_step_keeps_track(s: CrawlState, input: InputView)
    requires
        on_track(s),
    ensures
        on_track(advanced(s, input).0),
        same_setup(s, advanced(s, input).0),
        same_months(s.catalog, advanced(s, input).0.catalog),
        all_distinct(s.catalog) ==> all_distinct(advanced(s, input).0.catalog),
{
    let t = advanced(s, input).0;
    if awaited(s, input) {
        match input {
            InputView::Start => {
                lemma_next_selected(s.catalog, s.years, 0);
            },
            InputView::Saved => {
                lemma_next_selected(s.catalog, s.years, s.month + 1);
            },
            InputView::MonthIndex { links } => {
                let found = days_linked(links, s.url_root);
                lemma_merge_all(s.catalog[s.month].days, found);
                assert(same_months(s.catalog, t.catalog));
                if all_distinct(s.catalog) {
                    assert forall|m: int| 0 <= m < t.catalog.len() implies distinct_days(
                        #[trigger] t.catalog[m].days,
                    ) by {
                        if m != s.month {
                            assert(t.catalog[m] == s.catalog[m]);
                        }
                    }
                }
            },
            InputView::DayPage { page_links, product_links } => {
                lemma_extra_pages_are_later(pages_of(page_links, s.url_root));
            },
            _ => {},
        }
    }
}

/// A run keeps a crawl on track, keeps the setup and the months' keys, and
/// keeps every month free of repeated day numbers.
pub proof fn lemma_run_keeps_track(s: CrawlState, inputs: Seq<InputView>)
    requires
        on_track(s),
    ensures
        on_track(run(s, inputs)),
        same_setup(s, run(s, inputs)),
        same_months(s.catalog, run(s, inputs).catalog),
        all_distinct(s.catalog) ==> all_distinct(run(s, inputs).catalog),
    decreases inputs.len(),
{
    if inputs.len() > 0 {
        let before = run(s, inputs.drop_last());
        let after = run(s, inputs);
        lemma_run_keeps_track(s, inputs.drop_last());
        lemma_step_keeps_track(before, inputs.last());
        assert forall|m: int| 0 <= m < s.catalog.len() implies (#[trigger] s.catalog[m]).year
            == after.catalog[m].year && s.catalog[m].month == after.catalog[m].month
            && s.catalog[m].url == after.catalog[m].url by {
            assert(before.catalog[m].year == after.catalog[m].year);
        }
    }
}

/// Every state that a crawl reaches is on track, whatever comes in: the
/// cursors stay within the catalog, only selected months are worked on, the
/// extra pages stay in ascending order, and a catalog without repeated day
/// numbers stays so.
pub proof fn lemma_every_state_is_on_track(
    catalog: Seq<MonthView>,
    years: Seq<u32>,
    url_root: Seq<char>,
    table_tag: Selector,
    list_tag: Selector,
    a_tag: Selector,
    inputs: Seq<InputView>,
)
    ensures
        on_track(run(initial(catalog, years, url_root, table_tag, list_tag, a_tag), inputs)),
        same_months(
            catalog,
            run(initial(catalog, years, url_root, table_tag, list_tag, a_tag), inputs).catalog,
        ),
        all_distinct(catalog) ==> all_distinct(
            run(initial(catalog, years, url_root, table_tag, list_tag, a_tag), inputs).catalog,
        ),
{
    lemma_run_keeps_track(initial(catalog, years, url_root, table_tag, list_tag, a_tag), inputs);
}

/// Where every selected month is settled, a step that reports what the
/// source holds leaves the catalog as it is.
pub proof fn lemma_settled_step(s: CrawlState, input: InputView, source: Map<Seq<char>, Seq<char>>)
    requires
        on_track(s),
        settled_before(s, source, s.catalog.len() as int),
        answers(s, input, source),
    ensures
        advanced(s, input).0.catalog == s.catalog,
{
    if awaited(s, input) {
        if let InputView::MonthIndex { links } = input {
            let month = s.catalog[s.month];
            assert(settled_at(s, s.month, source));
            lemma_merge_all_known(month.days, days_linked(links, s.url_root));
            assert(advanced(s, input).0.catalog =~= s.catalog);
        }
    }
}

/// A run that reports what the source holds, from a state where every
/// selected month is settled, leaves the catalog as it is.
pub proof fn lemma_settled_run(
    s: CrawlState,
    inputs: Seq<InputView>,
    source: Map<Seq<char>, Seq<char>>,
)
    requires
        on_track(s),
        settled_before(s, source, s.catalog.len() as int),
        faithful(s, inputs, source),
    ensures
        run(s, inputs).catalog == s.catalog,
    decreases inputs.len(),
{
    if inputs.len() > 0 {
        let before = run(s, inputs.drop_last());
        lemma_settled_run(s, inputs.drop_last(), source);
        lemma_run_keeps_track(s, inputs.drop_last());
        assert(settled_before(before, source, before.catalog.len() as int)) by {
            assert forall|m: int|
                0 <= m < before.catalog.len() && selected_at(
                    before,
                    m,
                ) implies #[trigger] settled_at(before, m, source) by {
                assert(selected_at(s, m));
                assert(settled_at(s, m, source));
                lemma_settled_at_depends(s, before, m, source);
            }
        }
        lemma_settled_step(before, inputs.last(), source);
    }
}

/// Whether a month is settled depends on the month, the root URL and the
/// link selector, and on nothing else of the state.
pub proof fn lemma_settled_at_depends(
    a: CrawlState,
    b: CrawlState,
    m: int,
    source: Map<Seq<char>, Seq<char>>,
)
    requires
        same_setup(a, b),
        a.catalog[m] == b.catalog[m],
    ensures
        settled_at(a, m, source) == settled_at(b, m, source),
{
}

/// A step that reports what the source holds keeps settled what the crawl
/// has merged so far, and settles the month whose index it reads.
pub proof fn lemma_step_settles(s: CrawlState, input: InputView, source: Map<Seq<char>, Seq<char>>)
    requires
        on_track(s),
        settled_before(s, source, merged_upto(s)),
        answers(s, input, source),
    ensures
        settled_before(advanced(s, input).0, source, merged_upto(advanced(s, input).0)),
{
    let t = advanced(s, input).0;
    lemma_step_keeps_track(s, input);
    if awaited(s, input) {
        match input {
            InputView::Start => {
                lemma_next_selected(s.catalog, s.years, 0);
            },
            InputView::Saved => {
                lemma_next_selected(s.catalog, s.years, s.month + 1);
                assert forall|m: int|
                    0 <= m < merged_upto(t) && m < t.catalog.len() && selected_at(
                        t,
                        m,
                    ) implies #[trigger] settled_at(t, m, source) by {
                    assert(selected_at(s, m));
                    assert(m < s.month + 1);
                    assert(settled_at(s, m, source));
                    lemma_settled_at_depends(s, t, m, source);
                }
            },
            InputView::MonthIndex { links } => {
                let month = s.catalog[s.month];
                let found = days_linked(links, s.url_root);
                lemma_merge_all(month.days, found);
                assert forall|m: int|
                    0 <= m < merged_upto(t) && m < t.catalog.len() && selected_at(
                        t,
                        m,
                    ) implies #[trigger] settled_at(t, m, source) by {
                    if m == s.month {
                        assert(t.catalog[m].url == month.url);
                        assert(t.catalog[m].days == merged_all(month.days, found));
                        assert(links_on(t, source[month.url]) == links);
                    } else {
                        assert(t.catalog[m] == s.catalog[m]);
                        assert(selected_at(s, m));
                        assert(settled_at(s, m, source));
                        lemma_settled_at_depends(s, t, m, source);
                    }
                }
            },
            InputView::FetchFailed => {},
            _ => {
                assert(t.catalog == s.catalog);
                assert forall|m: int|
                    0 <= m < merged_upto(t) && m < t.catalog.len() && selected_at(
                        t,
                        m,
                    ) implies #[trigger] settled_at(t, m, source) by {
                    assert(selected_at(s, m));
                    assert(settled_at(s, m, source));
                    lemma_settled_at_depends(s, t, m, source);
                }
            },
        }
    }
}

/// A run that reports what the source holds keeps settled what it has
/// merged so far.
pub proof fn lemma_run_settles(
    s: CrawlState,
    inputs: Seq<InputView>,
    source: Map<Seq<char>, Seq<char>>,
)
    requires
        on_track(s),
        settled_before(s, source, merged_upto(s)),
        faithful(s, inputs, source),
    ensures
        settled_before(run(s, inputs), source, merged_upto(run(s, inputs))),
    decreases inputs.len(),
{
    if inputs.len() > 0 {
        let before = run(s, inputs.drop_last());
        lemma_run_settles(s, inputs.drop_last(), source);
        lemma_run_keeps_track(s, inputs.drop_last());
        lemma_step_settles(before, inputs.last(), source);
    }
}

/// The product descriptions on the pages whose product links are `pages`,
/// page after page.
pub open spec fn all_descriptions(pages: Seq<Seq<AnchorView>>) -> Seq<DescriptionView>
    decreases pages.len(),
{
    if pages.len() == 0 {
        Seq::empty()
    } else {
        all_descriptions(pages.drop_last()) + descriptions_of(pages.last())
    }
}

/// The inputs that report the pages of one day: the first page with its
/// page links `page_links`, then the extra pages; `pages` are the product
/// links of each, the first page first.
pub open spec fn day_inputs(page_links: Seq<AnchorView>, pages: Seq<Seq<AnchorView>>) -> Seq<
    InputView,
> {
    Seq::new(
        pages.len(),
        |i: int|
            if i == 0 {
                InputView::DayPage { page_links, product_links: pages[0] }
            } else {
                InputView::ExtraPage { product_links: pages[i] }
            },
    )
}

/// While the pages of a day come in, the crawler stays with the day and
/// holds the descriptions of the pages read so far, page after page.
pub proof fn lemma_day_progress(
    s: CrawlState,
    page_links: Seq<AnchorView>,
    pages: Seq<Seq<AnchorView>>,
    j: int,
)
    requires
        s.phase == Phase::DayPage,
        in_bounds(s),
        1 <= j <= pages.len(),
        pages.len() == 1 + advanced(
            s,
            InputView::DayPage { page_links, product_links: pages[0] },
        ).0.extra.len(),
    ensures
        run(s, day_inputs(page_links, pages).take(j)).catalog == s.catalog,
        run(s, day_inputs(page_links, pages).take(j)).month == s.month,
        run(s, day_inputs(page_links, pages).take(j)).day == s.day,
        run(s, day_inputs(page_links, pages).take(j)).extra == advanced(
            s,
            InputView::DayPage { page_links, product_links: pages[0] },
        ).0.extra,
        j < pages.len() ==> run(s, day_inputs(page_links, pages).take(j)).phase == Phase::ExtraPage
            && run(s, day_inputs(page_links, pages).take(j)).next_extra == j - 1 && run(
            s,
            day_inputs(page_links, pages).take(j),
        ).products == all_descriptions(pages.take(j)),
        j == pages.len() ==> run(s, day_inputs(page_links, pages).take(j)).phase == Phase::Emitting
            && last_step(s, day_inputs(page_links, pages).take(j)).action == (ActionView::Emit {
            record: DailyProductsView {
                year: s.catalog[s.month].year,
                month: s.catalog[s.month].month,
                day: s.catalog[s.month].days[s.day].day,
                products: all_descriptions(pages),
            },
        }),
    decreases j,
{
    let inputs = day_inputs(page_links, pages);
    let upto = inputs.take(j);
    assert(upto.drop_last() == inputs.take(j - 1));
    assert(upto.last() == inputs[j - 1]);
    assert(pages.take(j).drop_last() == pages.take(j - 1));
    assert(pages.take(j).last() == pages[j - 1]);
    if j == pages.len() {
        assert(pages.take(j) == pages);
    }
    if j == 1 {
        assert(inputs.take(0).len() == 0);
        assert(run(s, inputs.take(0)) == s);
        assert(all_descriptions(pages.take(0)) == Seq::<DescriptionView>::empty());
        assert(all_descriptions(pages.take(1)) == descriptions_of(pages[0]));
    } else {
        lemma_day_progress(s, page_links, pages, j - 1);
    }
}

/// The record of a day holds the descriptions of its first page and of each
/// of its extra pages, page after page in the order of the visit: nothing is
/// left out and nothing is taken twice.
///
/// `page_links` are the page links of the day's first page; they decide how
/// many extra pages there are. `pages` are the product links of the pages
/// as they are fetched, the first page first.
pub proof fn lemma_day_record(
    s: CrawlState,
    page_links: Seq<AnchorView>,
    pages: Seq<Seq<AnchorView>>,
)
    requires
        s.phase == Phase::DayPage,
        in_bounds(s),
        pages.len() >= 1,
        pages.len() == 1 + advanced(
            s,
            InputView::DayPage { page_links, product_links: pages[0] },
        ).0.extra.len(),
    ensures
        run(s, day_inputs(page_links, pages)).phase == Phase::Emitting,
        last_step(s, day_inputs(page_links, pages)).action == (ActionView::Emit {
            record: DailyProductsView {
                year: s.catalog[s.month].year,
                month: s.catalog[s.month].month,
                day: s.catalog[s.month].days[s.day].day,
                products: all_descriptions(pages),
            },
        }),
{
    lemma_day_progress(s, page_links, pages, pages.len() as int);
    assert(day_inputs(page_links, pages).take(pages.len() as int) == day_inputs(page_links, pages));
}

/// Crawling an unchanged source a second time leaves the catalog as the
/// first crawl left it.
///
/// The first crawl starts from the catalog `catalog` and runs to its end
/// with the inputs `first`. A second crawl starts from the catalog that the
/// first one ended with, under the same filter, root URL and selectors, and
/// is at any point of its run, after the inputs `second`. Both are answered
/// by the same `source`. Then the catalog of the second crawl is the one it
/// started with: no day is added, duplicated or moved.
pub proof fn lemma_second_crawl_changes_nothing(
    catalog: Seq<MonthView>,
    years: Seq<u32>,
    url_root: Seq<char>,
    table_tag: Selector,
    list_tag: Selector,
    a_tag: Selector,
    source: Map<Seq<char>, Seq<char>>,
    first: Seq<InputView>,
    second: Seq<InputView>,
)
    requires
        faithful(initial(catalog, years, url_root, table_tag, list_tag, a_tag), first, source),
        run(initial(catalog, years, url_root, table_tag, list_tag, a_tag), first).phase
            == Phase::Finished,
        faithful(
            initial(
                run(initial(catalog, years, url_root, table_tag, list_tag, a_tag), first).catalog,
                years,
                url_root,
                table_tag,
                list_tag,
                a_tag,
            ),
            second,
            source,
        ),
    ensures
        run(
            initial(
                run(initial(catalog, years, url_root, table_tag, list_tag, a_tag), first).catalog,
                years,
                url_root,
                table_tag,
                list_tag,
                a_tag,
            ),
            second,
        ).catalog == run(
            initial(catalog, years, url_root, table_tag, list_tag, a_tag),
            first,
        ).catalog,
{
    let s0 = initial(catalog, years, url_root, table_tag, list_tag, a_tag);
    let end = run(s0, first);
    lemma_run_keeps_track(s0, first);
    lemma_run_settles(s0, first, source);
    let again = initial(end.catalog, years, url_root, table_tag, list_tag, a_tag);
    assert(settled_before(again, source, again.catalog.len() as int)) by {
        assert forall|m: int|
            0 <= m < again.catalog.len() && selected_at(again, m) implies #[trigger] settled_at(
            again,
            m,
            source,
        ) by {
            assert(selected_at(end, m));
            assert(settled_at(end, m, source));
            lemma_settled_at_depends(end, again, m, source);
        }
    }
    lemma_settled_run(again, second, source);
}

} // verus!
