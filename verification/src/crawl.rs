//! The crawl, one decision at a time.
//!
//! A crawl walks the months of a catalog that a year filter selects. For
//! each it fetches the month index and merges the days found there, then
//! takes every day of the month in turn: it fetches the day's first page,
//! gathers the product descriptions on it and on each extra page, and emits
//! one record for the day. When all days of a month are done the saved
//! catalog is backed up and then the catalog is saved. A page that cannot be
//! fetched or is too long to be parsed, or a discovered URL that names no
//! day, ends the crawl at once.
//!
//! The crawler does none of the outside work itself. It is a state machine:
//! [`Crawler::step`] takes the outcome of the action it asked for last and
//! returns the next action. Whoever drives it performs the action (a fetch
//! followed by a pause, a store of the record, a backup, a save of the
//! catalog) and hands back the outcome.
//!
//! A step has two halves. [`Crawler::read`] turns a fetched page into the
//! anchors that the phase reads on it; this is where the HTML is parsed.
//! [`Crawler::advance`] decides on the anchors alone. The whole behaviour
//! of the second half is the function [`advanced`], that of a step is
//! [`next`].

use vstd::prelude::*;
use scraper::{Html, Selector};
use crate::catalog::{month_views, merged_all, MonthView, MonthlyRoot};
use crate::error::{CrawlError, CrawlErrorView};
use crate::extract::{
    anchor_views,
    anomalies,
    anomalies_of,
    descriptions,
    descriptions_of,
    index_links,
    links_of,
    listing_pages,
    pages_of,
    Anchor,
    AnchorView,
    Anomaly,
};
use crate::html::{
    anchors_at,
    compiled_selector,
    document_matches,
    is_parsable,
    nested_anchors,
    parsable,
    parse_document,
    parsed_document,
    read_anchors,
    select_below,
    select_in_document,
};
use crate::pages::{extra_pages, extra_pages_of};
use crate::records::{
    description_views,
    page_views,
    DailyProducts,
    DailyProductsView,
    DescriptionView,
    Page,
    PageView,
    ProductDescription,
};
use crate::scrape::{compile, day_urls, day_urls_from, days_read, merge_days};

verus! {

/// The pause, in milliseconds, that follows every fetch, whether it
/// succeeded or not, before anything else is asked of the source site.
pub const THROTTLE_MILLIS: u64 = 750;

/// Where a crawl stands.
#[derive(Clone, Copy, Debug, PartialEq, Eq, Structural)]
pub enum Phase {
    /// Nothing has been asked for yet.
    Ready,
    /// The index of the current month is being fetched.
    MonthIndex,
    /// The first page of the current day is being fetched.
    DayPage,
    /// An extra page of the current day is being fetched.
    ExtraPage,
    /// The record of the current day is being stored.
    Emitting,
    /// The saved catalog is being copied to the backup.
    BackingUp,
    /// The catalog is being saved after the current month.
    Saving,
    /// Every selected month is done.
    Finished,
    /// The crawl was given up.
    Aborted,
}

/// The outcome of the action that the crawler asked for last.
#[derive(Clone, Debug, PartialEq, Eq)]
pub enum Event {
    /// The driver is ready to begin.
    Start,
    /// The page was fetched; this is its text.
    Fetched { body: String },
    /// The page could not be fetched.
    FetchFailed,
    /// The record was stored.
    Emitted,
    /// The saved catalog was copied to the backup.
    BackedUp,
    /// The catalog was saved.
    Saved,
}

/// An outcome as the crawler decides on it: a fetched page is given by the
/// anchors that were read on it.
#[derive(Clone, Debug, PartialEq, Eq)]
pub enum Input {
    /// The driver is ready to begin.
    Start,
    /// A month index was fetched; these are its links.
    MonthIndex { links: Vec<Anchor> },
    /// The first page of a day was fetched; these are its page links and
    /// its product links.
    DayPage { page_links: Vec<Anchor>, product_links: Vec<Anchor> },
    /// An extra page of a day was fetched; these are its product links.
    ExtraPage { product_links: Vec<Anchor> },
    /// The page could not be fetched.
    FetchFailed,
    /// The page was fetched and is too long to be parsed.
    Oversized,
    /// The record was stored.
    Emitted,
    /// The saved catalog was copied to the backup.
    BackedUp,
    /// The catalog was saved.
    Saved,
}

/// What the crawler asks its driver to do next.
#[derive(Debug, PartialEq, Eq)]
pub enum Action {
    /// Fetch `url`, then pause for `wait_millis`, then report `Fetched` or
    /// `FetchFailed`.
    Fetch { url: String, wait_millis: u64 },
    /// Store `record`, then report `Emitted`.
    Emit { record: DailyProducts },
    /// Copy the catalog as it was last saved to the backup, then report
    /// `BackedUp`.
    Backup,
    /// Save the catalog in place of the last save, then report `Saved`.
    Checkpoint,
    /// Nothing is left to do.
    Finished,
    /// The crawl is given up for the reason `error`.
    Abort { error: CrawlError },
    /// What came in was no outcome of what was asked for; nothing changed.
    Unexpected,
}

/// An action together with what was odd on the page just read.
#[derive(Debug, PartialEq, Eq)]
pub struct Step {
    pub action: Action,
    pub anomalies: Vec<Anomaly>,
}

/// An event as contracts see it.
pub enum EventView {
    Start,
    Fetched { body: Seq<char> },
    FetchFailed,
    Emitted,
    BackedUp,
    Saved,
}

/// An input as contracts see it.
pub enum InputView {
    Start,
    MonthIndex { links: Seq<AnchorView> },
    DayPage { page_links: Seq<AnchorView>, product_links: Seq<AnchorView> },
    ExtraPage { product_links: Seq<AnchorView> },
    FetchFailed,
    Oversized,
    Emitted,
    BackedUp,
    Saved,
}

/// An action as contracts see it.
pub enum ActionView {
    Fetch { url: Seq<char>, wait_millis: u64 },
    Emit { record: DailyProductsView },
    Backup,
    Checkpoint,
    Finished,
    Abort { error: CrawlErrorView },
    Unexpected,
}

/// A step as contracts see it.
pub struct StepView {
    pub action: ActionView,
    pub anomalies: Seq<Anomaly>,
}

/// A crawler as contracts see it.
pub struct CrawlState {
    /// The catalog, with everything merged so far.
    pub catalog: Seq<MonthView>,
    /// The years to crawl; empty for all.
    pub years: Seq<u32>,
    /// What relative links are resolved against.
    pub url_root: Seq<char>,
    /// Selects the tables that hold a listing's page links.
    pub table_tag: Selector,
    /// Selects the lists that hold a listing's product links.
    pub list_tag: Selector,
    /// Selects links.
    pub a_tag: Selector,
    pub phase: Phase,
    /// Position of the current month in the catalog.
    pub month: int,
    /// Position of the current day in its month.
    pub day: int,
    /// The extra pages of the current day, in the order of their visit.
    pub extra: Seq<PageView>,
    /// Position in `extra` of the page being fetched.
    pub next_extra: int,
    /// The descriptions gathered so far for the current day.
    pub products: Seq<DescriptionView>,
}

impl View for Event {
    type V = EventView;

    open spec fn view(&self) -> EventView {
        match *self {
            Event::Start => EventView::Start,
            Event::Fetched { body } => EventView::Fetched { body: body@ },
            Event::FetchFailed => EventView::FetchFailed,
            Event::Emitted => EventView::Emitted,
            Event::BackedUp => EventView::BackedUp,
            Event::Saved => EventView::Saved,
        }
    }
}

impl View for Input {
    type V = InputView;

    open spec fn view(&self) -> InputView {
        match *self {
            Input::Start => InputView::Start,
            Input::MonthIndex { links } => InputView::MonthIndex { links: anchor_views(links@) },
            Input::DayPage { page_links, product_links } => InputView::DayPage {
                page_links: anchor_views(page_links@),
                product_links: anchor_views(product_links@),
            },
            Input::ExtraPage { product_links } => InputView::ExtraPage {
                product_links: anchor_views(product_links@),
            },
            Input::FetchFailed => InputView::FetchFailed,
            Input::Oversized => InputView::Oversized,
            Input::Emitted => InputView::Emitted,
            Input::BackedUp => InputView::BackedUp,
            Input::Saved => InputView::Saved,
        }
    }
}

impl View for Action {
    type V = ActionView;

    open spec fn view(&self) -> ActionView {
        match *self {
            Action::Fetch { url, wait_millis } => ActionView::Fetch { url: url@, wait_millis },
            Action::Emit { record } => ActionView::Emit { record: record@ },
            Action::Backup => ActionView::Backup,
            Action::Checkpoint => ActionView::Checkpoint,
            Action::Finished => ActionView::Finished,
            Action::Abort { error } => ActionView::Abort { error: error@ },
            Action::Unexpected => ActionView::Unexpected,
        }
    }
}

impl View for Step {
    type V = StepView;

    open spec fn view(&self) -> StepView {
        StepView { action: self.action@, anomalies: self.anomalies@ }
    }
}

/// The filter `years` selects `year`: an empty filter selects every year.
pub open spec fn year_selected(years: Seq<u32>, year: u32) -> bool {
    years.len() == 0 || years.contains(year)
}

/// The position of the first selected month at or after `from`; the length
/// of the catalog where there is none.
pub open spec fn next_selected(catalog: Seq<MonthView>, years: Seq<u32>, from: int) -> int
    decreases catalog.len() - from,
{
    if from < 0 || from >= catalog.len() {
        catalog.len() as int
    } else if year_selected(years, catalog[from].year) {
        from
    } else {
        next_selected(catalog, years, from + 1)
    }
}

/// The request to fetch `url`. Every fetch is followed by the same pause.
pub open spec fn fetch_of(url: Seq<char>) -> ActionView {
    ActionView::Fetch { url, wait_millis: THROTTLE_MILLIS }
}

/// Moves on to the first selected month at or after `from`: asks for its
/// index, or finishes where no month is left.
pub open spec fn enter_month(s: CrawlState, from: int) -> (CrawlState, ActionView) {
    let m = next_selected(s.catalog, s.years, from);
    if m >= s.catalog.len() {
        (CrawlState { phase: Phase::Finished, month: m, ..s }, ActionView::Finished)
    } else {
        (CrawlState { phase: Phase::MonthIndex, month: m, ..s }, fetch_of(s.catalog[m].url))
    }
}

/// Moves on to day `d` of the current month: asks for its first page, or,
/// where the month has no such day, for the backup that goes before a save.
pub open spec fn enter_day(s: CrawlState, d: int) -> (CrawlState, ActionView) {
    let days = s.catalog[s.month].days;
    if d >= days.len() {
        (CrawlState { phase: Phase::BackingUp, day: d, ..s }, ActionView::Backup)
    } else {
        (
            CrawlState {
                phase: Phase::DayPage,
                day: d,
                extra: Seq::empty(),
                next_extra: 0,
                products: Seq::empty(),
                ..s
            },
            fetch_of(days[d].url),
        )
    }
}

/// Moves on to extra page `k` of the current day: asks for it, or, where
/// the day has no such page, hands out the day's record.
pub open spec fn enter_extra(s: CrawlState, k: int) -> (CrawlState, ActionView) {
    if k >= s.extra.len() {
        let month = s.catalog[s.month];
        (
            CrawlState { phase: Phase::Emitting, next_extra: k, products: Seq::empty(), ..s },
            ActionView::Emit {
                record: DailyProductsView {
                    year: month.year,
                    month: month.month,
                    day: month.days[s.day].day,
                    products: s.products,
                },
            },
        )
    } else {
        (CrawlState { phase: Phase::ExtraPage, next_extra: k, ..s }, fetch_of(s.extra[k].url))
    }
}

/// The URL whose fetch is under way in `s`.
pub open spec fn pending_url(s: CrawlState) -> Seq<char> {
    match s.phase {
        Phase::MonthIndex => s.catalog[s.month].url,
        Phase::DayPage => s.catalog[s.month].days[s.day].url,
        _ => s.extra[s.next_extra].url,
    }
}

/// The cursors of `s` point at what its phase works on.
pub open spec fn in_bounds(s: CrawlState) -> bool {
    match s.phase {
        Phase::Ready | Phase::Finished | Phase::Aborted => true,
        Phase::MonthIndex | Phase::BackingUp | Phase::Saving => 0 <= s.month < s.catalog.len(),
        Phase::DayPage | Phase::Emitting => 0 <= s.month < s.catalog.len() && 0 <= s.day
            < s.catalog[s.month].days.len(),
        Phase::ExtraPage => 0 <= s.month < s.catalog.len() && 0 <= s.day
            < s.catalog[s.month].days.len() && 0 <= s.next_extra < s.extra.len(),
    }
}

/// `input` is an outcome of the action that `s` waits for.
pub open spec fn awaited(s: CrawlState, input: InputView) -> bool {
    in_bounds(s) && match s.phase {
        Phase::Ready => input is Start,
        Phase::MonthIndex => input is MonthIndex || input is FetchFailed || input is Oversized,
        Phase::DayPage => input is DayPage || input is FetchFailed || input is Oversized,
        Phase::ExtraPage => input is ExtraPage || input is FetchFailed || input is Oversized,
        Phase::Emitting => input is Emitted,
        Phase::BackingUp => input is BackedUp,
        Phase::Saving => input is Saved,
        Phase::Finished | Phase::Aborted => false,
    }
}

/// The crawler with the days merged that the links of a month index lead
/// to, the fault that stopped the merge if there was one, and what was odd
/// about the links.
pub open spec fn after_month_index(s: CrawlState, links: Seq<AnchorView>) -> (
    CrawlState,
    StepView,
) {
    let (days, fault) = days_read(day_urls(links_of(links), s.url_root));
    let month = s.catalog[s.month];
    let merged = CrawlState {
        catalog: s.catalog.update(
            s.month,
            MonthView { days: merged_all(month.days, days), ..month },
        ),
        ..s
    };
    let anomalies = anomalies_of(links);
    match fault {
        Some(f) => (
            CrawlState { phase: Phase::Aborted, ..merged },
            StepView {
                action: ActionView::Abort { error: CrawlErrorView::MalformedIdentifier(f) },
                anomalies,
            },
        ),
        None => {
            let (entered, action) = enter_day(merged, 0);
            (entered, StepView { action, anomalies })
        },
    }
}

/// The crawler with the descriptions of a day's first page gathered and
/// its extra pages lined up.
pub open spec fn after_day_page(
    s: CrawlState,
    page_links: Seq<AnchorView>,
    product_links: Seq<AnchorView>,
) -> (CrawlState, StepView) {
    let gathered = CrawlState {
        products: descriptions_of(product_links),
        extra: extra_pages_of(pages_of(page_links, s.url_root)),
        ..s
    };
    let (entered, action) = enter_extra(gathered, 0);
    (
        entered,
        StepView { action, anomalies: anomalies_of(page_links) + anomalies_of(product_links) },
    )
}

/// The crawler with the descriptions of an extra page added to those
/// gathered before.
pub open spec fn after_extra_page(s: CrawlState, product_links: Seq<AnchorView>) -> (
    CrawlState,
    StepView,
) {
    let gathered = CrawlState { products: s.products + descriptions_of(product_links), ..s };
    let (entered, action) = enter_extra(gathered, s.next_extra + 1);
    (entered, StepView { action, anomalies: anomalies_of(product_links) })
}

/// An action with nothing odd to report.
pub open spec fn quiet(action: ActionView) -> StepView {
    StepView { action, anomalies: Seq::empty() }
}

/// The crawler after the input `input`, and what it asks for next.
///
/// An input that is no outcome of the pending action changes nothing and is
/// answered with `Unexpected`.
pub open spec fn advanced(s: CrawlState, input: InputView) -> (CrawlState, StepView) {
    if !awaited(s, input) {
        (s, quiet(ActionView::Unexpected))
    } else {
        match input {
            InputView::Start => {
                let (entered, action) = enter_month(s, 0);
                (entered, quiet(action))
            },
            InputView::FetchFailed => (
                CrawlState { phase: Phase::Aborted, ..s },
                quiet(
                    ActionView::Abort {
                        error: CrawlErrorView::FetchFailed { url: pending_url(s) },
                    },
                ),
            ),
            InputView::Oversized => (
                CrawlState { phase: Phase::Aborted, ..s },
                quiet(ActionView::Abort { error: CrawlErrorView::PageTooLarge }),
            ),
            InputView::MonthIndex { links } => after_month_index(s, links),
            InputView::DayPage { page_links, product_links } => after_day_page(
                s,
                page_links,
                product_links,
            ),
            InputView::ExtraPage { product_links } => after_extra_page(s, product_links),
            InputView::Emitted => {
                let (entered, action) = enter_day(s, s.day + 1);
                (entered, quiet(action))
            },
            InputView::BackedUp => (
                CrawlState { phase: Phase::Saving, ..s },
                quiet(ActionView::Checkpoint),
            ),
            InputView::Saved => {
                let (entered, action) = enter_month(s, s.month + 1);
                (entered, quiet(action))
            },
        }
    }
}

/// The links on the page with the text `body`: every anchor that the link
/// selector of `s` finds in it.
pub open spec fn links_on(s: CrawlState, body: Seq<char>) -> Seq<AnchorView> {
    anchors_at(document_matches(parsed_document(body), s.a_tag))
}

/// The page links on the page with the text `body`: the anchors in its
/// tables.
pub open spec fn page_links_on(s: CrawlState, body: Seq<char>) -> Seq<AnchorView> {
    nested_anchors(parsed_document(body), s.table_tag, s.a_tag)
}

/// The product links on the page with the text `body`: the anchors in its
/// lists.
pub open spec fn product_links_on(s: CrawlState, body: Seq<char>) -> Seq<AnchorView> {
    nested_anchors(parsed_document(body), s.list_tag, s.a_tag)
}

/// The input that the event `e` is read as in state `s`. A fetched page
/// that is too long to be parsed is oversized. Any other is read for what
/// the phase looks for: on a month index, all links; on a day's first page,
/// the page links and the product links; on any other page, the product
/// links.
pub open spec fn reading(s: CrawlState, e: EventView) -> InputView {
    match e {
        EventView::Start => InputView::Start,
        EventView::FetchFailed => InputView::FetchFailed,
        EventView::Emitted => InputView::Emitted,
        EventView::BackedUp => InputView::BackedUp,
        EventView::Saved => InputView::Saved,
        EventView::Fetched { body } => if !parsable(body) {
            InputView::Oversized
        } else {
            match s.phase {
                Phase::MonthIndex => InputView::MonthIndex { links: links_on(s, body) },
                Phase::DayPage => InputView::DayPage {
                    page_links: page_links_on(s, body),
                    product_links: product_links_on(s, body),
                },
                _ => InputView::ExtraPage { product_links: product_links_on(s, body) },
            }
        },
    }
}

/// The crawler after the event `e`, and what it asks for next.
pub open spec fn next(s: CrawlState, e: EventView) -> (CrawlState, StepView) {
    advanced(s, reading(s, e))
}

/// A crawler that has not begun.
pub open spec fn initial(
    catalog: Seq<MonthView>,
    years: Seq<u32>,
    url_root: Seq<char>,
    table_tag: Selector,
    list_tag: Selector,
    a_tag: Selector,
) -> CrawlState {
    CrawlState {
        catalog,
        years,
        url_root,
        table_tag,
        list_tag,
        a_tag,
        phase: Phase::Ready,
        month: 0,
        day: 0,
        extra: Seq::empty(),
        next_extra: 0,
        products: Seq::empty(),
    }
}

/// What starting a crawler gives: the crawler that has not begun, or the
/// first selector of `table`, `ul`, `a` that does not compile.
pub open spec fn started(catalog: Seq<MonthView>, years: Seq<u32>, url_root: Seq<char>) -> Result<
    CrawlState,
    CrawlErrorView,
> {
    match compiled_selector("table"@) {
        Err(_) => Err(CrawlErrorView::SelectorCompile { selector: "table"@ }),
        Ok(table_tag) => match compiled_selector("ul"@) {
            Err(_) => Err(CrawlErrorView::SelectorCompile { selector: "ul"@ }),
            Ok(list_tag) => match compiled_selector("a"@) {
                Err(_) => Err(CrawlErrorView::SelectorCompile { selector: "a"@ }),
                Ok(a_tag) => Ok(initial(catalog, years, url_root, table_tag, list_tag, a_tag)),
            },
        },
    }
}

/// Whether the filter `years` selects `year`.
pub fn is_year_selected(years: &Vec<u32>, year: u32) -> (yes: bool)
    ensures
        yes == year_selected(years@, year),
{
    if years.len() == 0 {
        return true;
    }
    let mut i: usize = 0;
    while i < years.len()
        invariant
            i <= years@.len(),
            forall|j: int| 0 <= j < i ==> years@[j] != year,
        decreases years.len() - i,
    {
        if years[i] == year {
            assert(years@.contains(year));
            return true;
        }
        i = i + 1;
    }
    false
}

/// The state of a crawl: the catalog it fills and where it stands.
pub struct Crawler {
    catalog: Vec<MonthlyRoot>,
    years: Vec<u32>,
    url_root: String,
    table_tag: Selector,
    list_tag: Selector,
    a_tag: Selector,
    phase: Phase,
    month: usize,
    day: usize,
    extra: Vec<Page>,
    next_extra: usize,
    products: Vec<ProductDescription>,
}

impl View for Crawler {
    type V = CrawlState;

    closed spec fn view(&self) -> CrawlState {
        CrawlState {
            catalog: month_views(self.catalog@),
            years: self.years@,
            url_root: self.url_root@,
            table_tag: self.table_tag,
            list_tag: self.list_tag,
            a_tag: self.a_tag,
            phase: self.phase,
            month: self.month as int,
            day: self.day as int,
            extra: page_views(self.extra@),
            next_extra: self.next_extra as int,
            products: description_views(self.products@),
        }
    }
}

impl Crawler {
    /// A crawler over `catalog` that has not begun. It will crawl the
    /// months whose year is in `years`, or every month where `years` is
    /// empty, and resolve relative links against `url_root`.
    ///
    /// The selectors are compiled here, before anything is fetched; one
    /// that does not compile is returned as the error.
    pub fn new(catalog: Vec<MonthlyRoot>, years: Vec<u32>, url_root: String) -> (made: Result<
        Crawler,
        CrawlError,
    >)
        ensures
            match made {
                Ok(crawler) => started(month_views(catalog@), years@, url_root@) == Ok::<
                    CrawlState,
                    CrawlErrorView,
                >(crawler@),
                Err(e) => started(month_views(catalog@), years@, url_root@) == Err::<
                    CrawlState,
                    CrawlErrorView,
                >(e@),
            },
    {
        let table_tag = match compile("table") {
            Ok(s) => s,
            Err(e) => {
                return Err(e);
            },
        };
        let list_tag = match compile("ul") {
            Ok(s) => s,
            Err(e) => {
                return Err(e);
            },
        };
        let a_tag = match compile("a") {
            Ok(s) => s,
            Err(e) => {
                return Err(e);
            },
        };
        Ok(Crawler::with_selectors(catalog, years, url_root, table_tag, list_tag, a_tag))
    }

    /// A crawler over `catalog` that has not begun, with the selectors it
    /// is to read pages by: `table_tag` for the tables that hold page
    /// links, `list_tag` for the lists that hold product links, `a_tag` for
    /// links.
    pub fn with_selectors(
        catalog: Vec<MonthlyRoot>,
        years: Vec<u32>,
        url_root: String,
        table_tag: Selector,
        list_tag: Selector,
        a_tag: Selector,
    ) -> (crawler: Crawler)
        ensures
            crawler@ == initial(
                month_views(catalog@),
                years@,
                url_root@,
                table_tag,
                list_tag,
                a_tag,
            ),
    {
        let crawler = Crawler {
            catalog,
            years,
            url_root,
            table_tag,
            list_tag,
            a_tag,
            phase: Phase::Ready,
            month: 0,
            day: 0,
            extra: Vec::new(),
            next_extra: 0,
            products: Vec::new(),
        };
        assert(crawler@.extra =~= Seq::<PageView>::empty());
        assert(crawler@.products =~= Seq::<DescriptionView>::empty());
        crawler
    }

    /// The catalog as it stands.
    pub fn catalog(&self) -> (months: &Vec<MonthlyRoot>)
        ensures
            month_views(months@) == self@.catalog,
    {
        &self.catalog
    }

    /// Gives up the crawler for its catalog.
    pub fn into_catalog(self) -> (months: Vec<MonthlyRoot>)
        ensures
            month_views(months@) == self@.catalog,
    {
        self.catalog
    }

    /// Where the crawl stands.
    pub fn phase(&self) -> (phase: Phase)
        ensures
            phase == self@.phase,
    {
        self.phase
    }

    /// Whether the cursors point at what the phase works on.
    fn check_bounds(&self) -> (ok: bool)
        ensures
            ok == in_bounds(self@),
    {
        match self.phase {
            Phase::Ready | Phase::Finished | Phase::Aborted => true,
            Phase::MonthIndex | Phase::BackingUp | Phase::Saving => self.month
                < self.catalog.len(),
            Phase::DayPage | Phase::Emitting => self.month < self.catalog.len() && self.day
                < self.catalog[self.month].products.len(),
            Phase::ExtraPage => self.month < self.catalog.len() && self.day
                < self.catalog[self.month].products.len() && self.next_extra < self.extra.len(),
        }
    }

    /// Whether `input` is an outcome of the pending action.
    fn is_awaited(&self, input: &Input) -> (ok: bool)
        ensures
            ok == awaited(self@, input@),
    {
        self.check_bounds() && match self.phase {
            Phase::Ready => matches!(input, Input::Start),
            Phase::MonthIndex => matches!(
                input,
                Input::MonthIndex { .. } | Input::FetchFailed | Input::Oversized
            ),
            Phase::DayPage => matches!(
                input,
                Input::DayPage { .. } | Input::FetchFailed | Input::Oversized
            ),
            Phase::ExtraPage => matches!(
                input,
                Input::ExtraPage { .. } | Input::FetchFailed | Input::Oversized
            ),
            Phase::Emitting => matches!(input, Input::Emitted),
            Phase::BackingUp => matches!(input, Input::BackedUp),
            Phase::Saving => matches!(input, Input::Saved),
            Phase::Finished | Phase::Aborted => false,
        }
    }

    /// Moves on to the first selected month at or after `from`.
    fn go_to_month(&mut self, from: usize) -> (action: Action)
        ensures
            (final(self)@, action@) == enter_month(old(self)@, from as int),
    {
        let mut m: usize = from;
        while m < self.catalog.len() && !is_year_selected(&self.years, self.catalog[m].year)
            invariant
                from <= m,
                self == old(self),
                next_selected(self@.catalog, self@.years, from as int) == next_selected(
                    self@.catalog,
                    self@.years,
                    m as int,
                ),
            decreases self.catalog.len() - m,
        {
            m = m + 1;
        }
        if m >= self.catalog.len() {
            self.month = self.catalog.len();
            self.phase = Phase::Finished;
            Action::Finished
        } else {
            self.month = m;
            self.phase = Phase::MonthIndex;
            Action::Fetch { url: self.catalog[m].url.clone(), wait_millis: THROTTLE_MILLIS }
        }
    }

    /// Moves on to day `d` of the current month.
    fn go_to_day(&mut self, d: usize) -> (action: Action)
        requires
            old(self).month < old(self).catalog@.len(),
        ensures
            (final(self)@, action@) == enter_day(old(self)@, d as int),
    {
        self.day = d;
        if d >= self.catalog[self.month].products.len() {
            self.phase = Phase::BackingUp;
            Action::Backup
        } else {
            self.phase = Phase::DayPage;
            self.extra = Vec::new();
            self.next_extra = 0;
            self.products = Vec::new();
            assert(self@.extra =~= Seq::<PageView>::empty());
            assert(self@.products =~= Seq::<DescriptionView>::empty());
            Action::Fetch {
                url: self.catalog[self.month].products[d].url.clone(),
                wait_millis: THROTTLE_MILLIS,
            }
        }
    }

    /// Moves on to extra page `k` of the current day.
    fn go_to_extra(&mut self, k: usize) -> (action: Action)
        requires
            old(self).month < old(self).catalog@.len(),
            old(self).day < old(self).catalog@[old(self).month as int].products@.len(),
        ensures
            (final(self)@, action@) == enter_extra(old(self)@, k as int),
    {
        self.next_extra = k;
        if k >= self.extra.len() {
            self.phase = Phase::Emitting;
            let mut products: Vec<ProductDescription> = Vec::new();
            core::mem::swap(&mut self.products, &mut products);
            assert(self@.products =~= Seq::<DescriptionView>::empty());
            let month = &self.catalog[self.month];
            Action::Emit {
                record: DailyProducts {
                    year: month.year,
                    month: month.month,
                    day: month.products[self.day].day,
                    products,
                },
            }
        } else {
            self.phase = Phase::ExtraPage;
            Action::Fetch { url: self.extra[k].url.clone(), wait_millis: THROTTLE_MILLIS }
        }
    }

    /// The URL whose fetch is under way.
    fn pending(&self) -> (url: String)
        requires
            in_bounds(self@),
            self.phase == Phase::MonthIndex || self.phase == Phase::DayPage || self.phase
                == Phase::ExtraPage,
        ensures
            url@ == pending_url(self@),
    {
        match self.phase {
            Phase::MonthIndex => self.catalog[self.month].url.clone(),
            Phase::DayPage => self.catalog[self.month].products[self.day].url.clone(),
            _ => self.extra[self.next_extra].url.clone(),
        }
    }

    /// Takes in the links of the current month's index: merges the days
    /// they lead to into the month and moves on to the month's first day.
    fn take_month_index(&mut self, links: Vec<Anchor>) -> (out: Step)
        requires
            old(self).phase == Phase::MonthIndex,
            in_bounds(old(self)@),
        ensures
            (final(self)@, out@) == after_month_index(old(self)@, anchor_views(links@)),
    {
        let anomalies = anomalies(&links);
        let found = index_links(&links);
        let urls = day_urls_from(&found, self.url_root.as_str());
        let ghost before = self@;
        let done = merge_days(&mut self.catalog[self.month], urls);
        assert(self@.catalog =~= before.catalog.update(
            before.month,
            MonthView {
                days: merged_all(
                    before.catalog[before.month].days,
                    days_read(day_urls(links_of(anchor_views(links@)), before.url_root)).0,
                ),
                ..before.catalog[before.month]
            },
        ));
        match done {
            Ok(_) => {
                let action = self.go_to_day(0);
                Step { action, anomalies }
            },
            Err(e) => {
                self.phase = Phase::Aborted;
                Step {
                    action: Action::Abort { error: CrawlError::MalformedIdentifier(e) },
                    anomalies,
                }
            },
        }
    }

    /// Takes in the links of the current day's first page: gathers its
    /// descriptions, lines up its extra pages and moves on to the first.
    fn take_day_page(&mut self, page_links: Vec<Anchor>, product_links: Vec<Anchor>) -> (out: Step)
        requires
            old(self).phase == Phase::DayPage,
            in_bounds(old(self)@),
        ensures
            (final(self)@, out@) == after_day_page(
                old(self)@,
                anchor_views(page_links@),
                anchor_views(product_links@),
            ),
    {
        let mut found = anomalies(&page_links);
        let mut more = anomalies(&product_links);
        found.append(&mut more);
        let pages = listing_pages(&page_links, self.url_root.as_str());
        self.extra = extra_pages(&pages);
        self.products = descriptions(&product_links);
        let action = self.go_to_extra(0);
        Step { action, anomalies: found }
    }

    /// Takes in the links of an extra page of the current day: adds its
    /// descriptions to those gathered and moves on to the next extra page.
    fn take_extra_page(&mut self, product_links: Vec<Anchor>) -> (out: Step)
        requires
            old(self).phase == Phase::ExtraPage,
            in_bounds(old(self)@),
        ensures
            (final(self)@, out@) == after_extra_page(old(self)@, anchor_views(product_links@)),
    {
        let found = anomalies(&product_links);
        let mut list = descriptions(&product_links);
        assert(description_views(self.products@ + list@) =~= description_views(self.products@)
            + description_views(list@));
        self.products.append(&mut list);
        let len: usize = self.extra.len();
        assert(self.next_extra < len);
        let k: usize = self.next_extra + 1;
        let action = self.go_to_extra(k);
        Step { action, anomalies: found }
    }

    /// Takes the outcome of the action asked for last, a fetched page
    /// given by its anchors, and says what to do next.
    ///
    /// This is the whole of the crawler's decisions. It parses nothing and
    /// fetches nothing.
    pub fn advance(&mut self, input: Input) -> (out: Step)
        ensures
            (final(self)@, out@) == advanced(old(self)@, input@),
    {
        if !self.is_awaited(&input) {
            return Step { action: Action::Unexpected, anomalies: Vec::new() };
        }
        match input {
            Input::Start => {
                let action = self.go_to_month(0);
                Step { action, anomalies: Vec::new() }
            },
            Input::FetchFailed => {
                let url = self.pending();
                self.phase = Phase::Aborted;
                Step {
                    action: Action::Abort { error: CrawlError::FetchFailed { url } },
                    anomalies: Vec::new(),
                }
            },
            Input::Oversized => {
                self.phase = Phase::Aborted;
                Step {
                    action: Action::Abort { error: CrawlError::PageTooLarge },
                    anomalies: Vec::new(),
                }
            },
            Input::MonthIndex { links } => self.take_month_index(links),
            Input::DayPage { page_links, product_links } => self.take_day_page(
                page_links,
                product_links,
            ),
            Input::ExtraPage { product_links } => self.take_extra_page(product_links),
            Input::Emitted => {
                let len: usize = self.catalog[self.month].products.len();
                assert(self.day < len);
                let d: usize = self.day + 1;
                let action = self.go_to_day(d);
                Step { action, anomalies: Vec::new() }
            },
            Input::BackedUp => {
                self.phase = Phase::Saving;
                Step { action: Action::Checkpoint, anomalies: Vec::new() }
            },
            Input::Saved => {
                let len: usize = self.catalog.len();
                assert(self.month < len);
                let m: usize = self.month + 1;
                let action = self.go_to_month(m);
                Step { action, anomalies: Vec::new() }
            },
        }
    }

    /// The anchors below each `outer` match in `document`.
    fn anchors_below(&self, document: &Html, outer: &Selector) -> (anchors: Vec<
        Anchor,
    >)
        ensures
            anchor_views(anchors@) == nested_anchors(*document, *outer, self.a_tag),
    {
        let containers = select_in_document(document, outer);
        let elements = select_below(&containers, &self.a_tag);
        read_anchors(&elements)
    }

    /// Reads `event` as an input: parses a fetched page and reads on it the
    /// anchors that the phase looks for. A page of more than
    /// `MAX_PAGE_CHARS` characters is not parsed and is read as oversized.
    pub fn read(&self, event: Event) -> (input: Input)
        ensures
            input@ == reading(self@, event@),
    {
        match event {
            Event::Start => Input::Start,
            Event::FetchFailed => Input::FetchFailed,
            Event::Emitted => Input::Emitted,
            Event::BackedUp => Input::BackedUp,
            Event::Saved => Input::Saved,
            Event::Fetched { body } => {
                if !is_parsable(body.as_str()) {
                    return Input::Oversized;
                }
                let document = parse_document(body.as_str());
                match self.phase {
                    Phase::MonthIndex => {
                        let elements = select_in_document(&document, &self.a_tag);
                        Input::MonthIndex { links: read_anchors(&elements) }
                    },
                    Phase::DayPage => {
                        let page_links = self.anchors_below(&document, &self.table_tag);
                        let product_links = self.anchors_below(&document, &self.list_tag);
                        Input::DayPage { page_links, product_links }
                    },
                    _ => Input::ExtraPage {
                        product_links: self.anchors_below(&document, &self.list_tag),
                    },
                }
            },
        }
    }

    /// Takes the outcome of the action asked for last and says what to do
    /// next.
    ///
    /// Begin with `Event::Start`. After a `Fetch` report `Fetched` or
    /// `FetchFailed`, after an `Emit` report `Emitted`, after a `Backup`
    /// report `BackedUp`, after a `Checkpoint` report `Saved`. `Finished`
    /// and `Abort` end the crawl.
    pub fn step(&mut self, event: Event) -> (out: Step)
        ensures
            (final(self)@, out@) == next(old(self)@, event@),
    {
        let input = self.read(event);
        self.advance(input)
    }
}

} // verus!
