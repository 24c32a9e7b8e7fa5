//! Scraping the three sorts of page: the root index, a month index and a
//! day's listing.
//!
//! Each function here selects elements in a parsed document, reads them as
//! anchors and extracts records from the anchors. What a function returns is
//! stated over the anchors that the selectors find.

use vstd::prelude::*;
use scraper::error::SelectorErrorKind;
use scraper::{Html, Selector};
use crate::catalog::{
    day_views,
    merged_all,
    month_views,
    DailyRoot,
    DayView,
    MonthView,
    MonthlyRoot,
};
use crate::error::{CrawlError, CrawlErrorView, MalformedIdentifier, MalformedView};
use crate::extract::{
    anchor_views,
    descriptions,
    descriptions_of,
    index_links,
    lemma_picked_step,
    link_views,
    links_of,
    listing_pages,
    pages_of,
    picked,
    Anchor,
    IndexLink,
    LinkView,
};
use crate::html::{
    anchors_at,
    compiled_selector,
    document_matches,
    matches_below,
    nested_anchors,
    is_parsable,
    parsable,
    parse_document,
    parse_selector,
    parsed_document,
    read_anchors,
    select_below,
    select_in_document,
};
use crate::identifier::{day_key, month_key};
use crate::records::{description_views, page_views, Page, ProductDescription};
use crate::text::{
    chars_of,
    chain,
    ends_with,
    has_suffix,
    join,
    joined,
    strip_trailing_slash,
    without_trailing_slash,
};

verus! {

/// What the `href` of the first page of a day's listing ends with.
pub const FIRST_PAGE_MARKER: &'static str = "_1";

/// The characters of the first-page marker.
pub open spec fn first_page_marker() -> Seq<char> {
    seq!['_', '1']
}

/// The URL of the day that `link` leads to, under `root`: `root`, a `/` and
/// the `href`. None unless the `href` ends with the first-page marker.
pub open spec fn day_url_of(link: LinkView, root: Seq<char>) -> Option<Seq<char>> {
    if ends_with(link.href, first_page_marker()) {
        Some(joined(root, link.href))
    } else {
        None
    }
}

/// The URL of the month that `link` leads to, under `root`: `root` directly
/// followed by the `href`, without one trailing `/`.
pub open spec fn month_url_of(link: LinkView, root: Seq<char>) -> Option<Seq<char>> {
    Some(without_trailing_slash(root + link.href))
}

/// The day URLs that `links` lead to under `root`, in order.
pub open spec fn day_urls(links: Seq<LinkView>, root: Seq<char>) -> Seq<Seq<char>> {
    picked(links, |l: LinkView| day_url_of(l, root))
}

/// The month URLs that `links` lead to under `root`, in order.
pub open spec fn month_urls(links: Seq<LinkView>, root: Seq<char>) -> Seq<Seq<char>> {
    picked(links, |l: LinkView| month_url_of(l, root))
}

/// The days that `urls` name, read first to last up to the first URL that
/// names none, and that URL with its fault where there is one.
pub open spec fn days_read(urls: Seq<Seq<char>>) -> (Seq<DayView>, Option<MalformedView>)
    decreases urls.len(),
{
    if urls.len() == 0 {
        (Seq::empty(), None)
    } else {
        let (days, stopped) = days_read(urls.drop_last());
        if stopped is Some {
            (days, stopped)
        } else {
            match day_key(urls.last()) {
                Ok(day) => (days.push(DayView { day, url: urls.last() }), None),
                Err(fault) => (days, Some(MalformedView { url: urls.last(), fault })),
            }
        }
    }
}

/// The months that `urls` name, each without days, or the first URL that
/// names none with its fault.
pub open spec fn months_read(urls: Seq<Seq<char>>) -> Result<Seq<MonthView>, MalformedView>
    decreases urls.len(),
{
    if urls.len() == 0 {
        Ok(Seq::empty())
    } else {
        match months_read(urls.drop_last()) {
            Err(e) => Err(e),
            Ok(months) => match month_key(urls.last()) {
                Ok((year, month)) => Ok(
                    months.push(MonthView { year, month, url: urls.last(), days: Seq::empty() }),
                ),
                Err(fault) => Err(MalformedView { url: urls.last(), fault }),
            },
        }
    }
}

/// The listing pages of a day's first page: for each `table_tag` match in
/// `html`, the `a_tag` matches below it, read by pagination extraction.
pub fn scrape_pages(
    html: &Html,
    table_tag: &Selector,
    a_tag: &Selector,
    url_root: &str,
) -> (pages: Vec<Page>)
    ensures
        page_views(pages@) == pages_of(nested_anchors(*html, *table_tag, *a_tag), url_root@),
{
    let tables = select_in_document(html, table_tag);
    let links = select_below(&tables, a_tag);
    let anchors = read_anchors(&links);
    listing_pages(&anchors, url_root)
}

/// The product descriptions of a listing page: for each `ul_tag` match in
/// `html`, the `a_tag` matches below it, read by description extraction.
pub fn scrape_descriptions(
    html: &Html,
    ul_tag: &Selector,
    a_tag: &Selector,
) -> (list: Vec<ProductDescription>)
    ensures
        description_views(list@) == descriptions_of(nested_anchors(*html, *ul_tag, *a_tag)),
{
    let lists = select_in_document(html, ul_tag);
    let links = select_below(&lists, a_tag);
    let anchors = read_anchors(&links);
    descriptions(&anchors)
}

/// Turns the index links of a month index into day URLs under `root`.
pub fn day_urls_from(links: &Vec<IndexLink>, root: &str) -> (urls: Vec<String>)
    ensures
        urls@.map_values(|u: String| u@) == day_urls(link_views(links@), root@),
{
    let ghost all = link_views(links@);
    let ghost pick = |l: LinkView| day_url_of(l, root@);
    let marker = chars_of(FIRST_PAGE_MARKER);
    proof {
        reveal_strlit("_1");
        assert(marker@ =~= first_page_marker());
    }
    let mut urls: Vec<String> = Vec::new();
    let mut i: usize = 0;
    while i < links.len()
        invariant
            i <= links@.len(),
            all == link_views(links@),
            pick == |l: LinkView| day_url_of(l, root@),
            marker@ == first_page_marker(),
            urls@.map_values(|u: String| u@) == picked(all.take(i as int), pick),
        decreases links.len() - i,
    {
        proof {
            lemma_picked_step(all, pick, i as int);
        }
        let href = chars_of(links[i].href.as_str());
        if has_suffix(&href, &marker) {
            let url = join(root, links[i].href.as_str());
            assert(urls@.push(url).map_values(|u: String| u@) == urls@.map_values(
                |u: String| u@,
            ).push(url@));
            urls.push(url);
        }
        i = i + 1;
    }
    assert(all.take(links@.len() as int) == all);
    urls
}

/// Turns the index links of the root index into month URLs under `root`.
pub fn month_urls_from(links: &Vec<IndexLink>, root: &str) -> (urls: Vec<String>)
    ensures
        urls@.map_values(|u: String| u@) == month_urls(link_views(links@), root@),
{
    let ghost all = link_views(links@);
    let ghost pick = |l: LinkView| month_url_of(l, root@);
    let mut urls: Vec<String> = Vec::new();
    let mut i: usize = 0;
    while i < links.len()
        invariant
            i <= links@.len(),
            all == link_views(links@),
            pick == |l: LinkView| month_url_of(l, root@),
            urls@.map_values(|u: String| u@) == picked(all.take(i as int), pick),
        decreases links.len() - i,
    {
        proof {
            lemma_picked_step(all, pick, i as int);
        }
        let whole = chain(root, links[i].href.as_str());
        let url = strip_trailing_slash(whole.as_str());
        assert(urls@.push(url).map_values(|u: String| u@) == urls@.map_values(|u: String| u@).push(
            url@,
        ));
        urls.push(url);
        i = i + 1;
    }
    assert(all.take(links@.len() as int) == all);
    urls
}

/// Merges into `month` the days that `urls` name, first to last, and stops
/// at the first URL that names none: the days before it stay merged, and the
/// URL is returned with its fault.
pub fn merge_days(month: &mut MonthlyRoot, urls: Vec<String>) -> (done: Result<
    (),
    MalformedIdentifier,
>)
    ensures
        final(month)@.days == merged_all(
            old(month)@.days,
            days_read(urls@.map_values(|u: String| u@)).0,
        ),
        match done {
            Ok(_) => days_read(urls@.map_values(|u: String| u@)).1 is None,
            Err(e) => days_read(urls@.map_values(|u: String| u@)).1 == Some(e@),
        },
        final(month).year == old(month).year,
        final(month).month == old(month).month,
        final(month).url == old(month).url,
        old(month).well_formed() ==> final(month).well_formed(),
{
    let ghost all = urls@.map_values(|u: String| u@);
    let mut i: usize = 0;
    while i < urls.len()
        invariant
            i <= urls@.len(),
            all == urls@.map_values(|u: String| u@),
            days_read(all.take(i as int)).1 is None,
            month@.days == merged_all(old(month)@.days, days_read(all.take(i as int)).0),
            month.year == old(month).year,
            month.month == old(month).month,
            month.url == old(month).url,
            old(month).well_formed() ==> month.well_formed(),
        decreases urls.len() - i,
    {
        proof {
            assert(all.take(i + 1).drop_last() == all.take(i as int));
            assert(all.take(i + 1).last() == urls@[i as int]@);
        }
        match DailyRoot::from_url(urls[i].clone()) {
            Ok(day) => {
                proof {
                    let read = days_read(all.take(i as int)).0;
                    assert(read.push(day@).drop_last() == read);
                }
                month.merge_day(day);
            },
            Err(e) => {
                proof {
                    lemma_days_read_stops(all, i + 1);
                }
                return Err(e);
            },
        }
        i = i + 1;
    }
    assert(all.take(urls@.len() as int) == all);
    Ok(())
}

/// Once reading has stopped at a fault, further URLs change nothing.
pub proof fn lemma_days_read_stops(urls: Seq<Seq<char>>, k: int)
    requires
        0 <= k <= urls.len(),
        days_read(urls.take(k)).1 is Some,
    ensures
        days_read(urls) == days_read(urls.take(k)),
    decreases urls.len() - k,
{
    if k == urls.len() {
        assert(urls.take(k) == urls);
    } else {
        assert(urls.take(k + 1).drop_last() == urls.take(k));
        lemma_days_read_stops(urls, k + 1);
    }
}

/// Reads the months that `urls` name, or returns the first URL that names
/// none, with its fault.
pub fn read_months(urls: Vec<String>) -> (made: Result<Vec<MonthlyRoot>, MalformedIdentifier>)
    ensures
        match made {
            Ok(months) => months_read(urls@.map_values(|u: String| u@)) == Ok::<
                Seq<MonthView>,
                MalformedView,
            >(month_views(months@)),
            Err(e) => months_read(urls@.map_values(|u: String| u@)) == Err::<
                Seq<MonthView>,
                MalformedView,
            >(e@),
        },
{
    let ghost all = urls@.map_values(|u: String| u@);
    let mut months: Vec<MonthlyRoot> = Vec::new();
    let mut i: usize = 0;
    assert(month_views(months@) =~= Seq::<MonthView>::empty());
    while i < urls.len()
        invariant
            i <= urls@.len(),
            all == urls@.map_values(|u: String| u@),
            months_read(all.take(i as int)) == Ok::<Seq<MonthView>, MalformedView>(
                month_views(months@),
            ),
        decreases urls.len() - i,
    {
        proof {
            assert(all.take(i + 1).drop_last() == all.take(i as int));
            assert(all.take(i + 1).last() == urls@[i as int]@);
        }
        match MonthlyRoot::from_url(urls[i].clone()) {
            Ok(month) => {
                proof {
                    assert(day_views(month.products@) =~= Seq::<DayView>::empty());
                    assert(month_views(months@.push(month)) == month_views(months@).push(month@));
                }
                months.push(month);
            },
            Err(e) => {
                proof {
                    lemma_months_read_stops(all, i + 1);
                }
                return Err(e);
            },
        }
        i = i + 1;
    }
    assert(all.take(urls@.len() as int) == all);
    Ok(months)
}

/// Once reading has failed, further URLs change nothing.
pub proof fn lemma_months_read_stops(urls: Seq<Seq<char>>, k: int)
    requires
        0 <= k <= urls.len(),
        months_read(urls.take(k)) is Err,
    ensures
        months_read(urls) == months_read(urls.take(k)),
    decreases urls.len() - k,
{
    if k == urls.len() {
        assert(urls.take(k) == urls);
    } else {
        assert(urls.take(k + 1).drop_last() == urls.take(k));
        lemma_months_read_stops(urls, k + 1);
    }
}

/// The anchors of a month index: every `a_tag` match in `html`.
pub fn index_anchors(html: &Html, a_tag: &Selector) -> (anchors: Vec<Anchor>)
    ensures
        anchor_views(anchors@) == anchors_at(document_matches(*html, *a_tag)),
{
    let elements = select_in_document(html, a_tag);
    read_anchors(&elements)
}

/// The anchors of the root index: the `a_tag` matches below the `data_tag`
/// matches below the `row_tag` matches below each `table_tag` match in
/// `document`.
pub fn root_anchors(
    document: &Html,
    table_tag: &Selector,
    row_tag: &Selector,
    data_tag: &Selector,
    a_tag: &Selector,
) -> (anchors: Vec<Anchor>)
    ensures
        anchor_views(anchors@) == anchors_at(
            matches_below(
                matches_below(
                    matches_below(document_matches(*document, *table_tag), *row_tag),
                    *data_tag,
                ),
                *a_tag,
            ),
        ),
{
    let tables = select_in_document(document, table_tag);
    let rows = select_below(&tables, row_tag);
    let cells = select_below(&rows, data_tag);
    let elements = select_below(&cells, a_tag);
    read_anchors(&elements)
}

/// The day URLs that a month index leads to under `root`: the index links
/// of the `a_tag` matches in `html` whose `href` ends with the first-page
/// marker.
pub open spec fn discovered_day_urls(
    html: Html,
    a_tag: Selector,
    root: Seq<char>,
) -> Seq<Seq<char>> {
    day_urls(links_of(anchors_at(document_matches(html, a_tag))), root)
}

/// Fills `month` with the days that its index page `html` links to.
///
/// Every `a_tag` match with an `href` and a caption is an index link; those
/// whose `href` ends with the first-page marker lead to days, at `root`, a
/// `/` and the `href`. The days are merged into `month` in document order.
/// A URL that names no day stops the work: the days before it stay merged,
/// and the URL is returned with its fault.
pub fn fill_root(
    html: &Html,
    a_tag: &Selector,
    month: &mut MonthlyRoot,
    root: &str,
) -> (done: Result<(), MalformedIdentifier>)
    ensures
        final(month)@.days == merged_all(
            old(month)@.days,
            days_read(discovered_day_urls(*html, *a_tag, root@)).0,
        ),
        match done {
            Ok(_) => days_read(discovered_day_urls(*html, *a_tag, root@)).1 is None,
            Err(e) => days_read(discovered_day_urls(*html, *a_tag, root@)).1 == Some(e@),
        },
        final(month).year == old(month).year,
        final(month).month == old(month).month,
        final(month).url == old(month).url,
        old(month).well_formed() ==> final(month).well_formed(),
{
    let anchors = index_anchors(html, a_tag);
    let links = index_links(&anchors);
    let urls = day_urls_from(&links, root);
    merge_days(month, urls)
}

/// The month URLs that the root index `document` leads to under `root`: the
/// index links of the anchors in the cells of the rows of its tables.
pub open spec fn discovered_month_urls(
    document: Html,
    table_tag: Selector,
    row_tag: Selector,
    data_tag: Selector,
    a_tag: Selector,
    root: Seq<char>,
) -> Seq<Seq<char>> {
    month_urls(
        links_of(
            anchors_at(
                matches_below(
                    matches_below(
                        matches_below(document_matches(document, table_tag), row_tag),
                        data_tag,
                    ),
                    a_tag,
                ),
            ),
        ),
        root,
    )
}

/// What scraping the root index `document` under `root` gives: the months
/// it links to, each without days; or that the document is too long to be
/// parsed; or the first selector of `table`, `tr`, `td`, `a` that does not
/// compile; or the first month URL that names no month.
pub open spec fn root_scrape(document: Seq<char>, root: Seq<char>) -> Result<
    Seq<MonthView>,
    CrawlErrorView,
> {
    if !parsable(document) {
        Err(CrawlErrorView::PageTooLarge)
    } else {
        root_scrape_parsed(document, root)
    }
}

/// What scraping the root index `document` gives where it can be parsed.
pub open spec fn root_scrape_parsed(document: Seq<char>, root: Seq<char>) -> Result<
    Seq<MonthView>,
    CrawlErrorView,
> {
    match compiled_selector("table"@) {
        Err(_) => Err(CrawlErrorView::SelectorCompile { selector: "table"@ }),
        Ok(table_tag) => match compiled_selector("tr"@) {
            Err(_) => Err(CrawlErrorView::SelectorCompile { selector: "tr"@ }),
            Ok(row_tag) => match compiled_selector("td"@) {
                Err(_) => Err(CrawlErrorView::SelectorCompile { selector: "td"@ }),
                Ok(data_tag) => match compiled_selector("a"@) {
                    Err(_) => Err(CrawlErrorView::SelectorCompile { selector: "a"@ }),
                    Ok(a_tag) => match months_read(
                        discovered_month_urls(
                            parsed_document(document),
                            table_tag,
                            row_tag,
                            data_tag,
                            a_tag,
                            root,
                        ),
                    ) {
                        Ok(months) => Ok(months),
                        Err(e) => Err(CrawlErrorView::MalformedIdentifier(e)),
                    },
                },
            },
        },
    }
}

/// Compiles `text` as a selector, or reports it as the selector that does
/// not compile.
pub fn compile(text: &str) -> (made: Result<Selector, CrawlError>)
    ensures
        match made {
            Ok(selector) => compiled_selector(text@) == Ok::<
                Selector,
                SelectorErrorKind,
            >(selector),
            Err(e) => compiled_selector(text@) is Err && e@ == (CrawlErrorView::SelectorCompile {
                selector: text@,
            }),
        },
{
    match parse_selector(text) {
        Ok(selector) => Ok(selector),
        Err(_) => Err(CrawlError::SelectorCompile { selector: text.to_owned() }),
    }
}

/// Seeds a catalog from the root index: one month, without days, for every
/// link in a table cell of `document`.
///
/// The link's URL is `root` directly followed by the `href`, without one
/// trailing `/`. The first URL that names no month fails the whole scrape,
/// and so does a document of more than `MAX_PAGE_CHARS` characters.
pub fn scrape_root(document: &str, root: &str) -> (made: Result<Vec<MonthlyRoot>, CrawlError>)
    ensures
        match made {
            Ok(months) => root_scrape(document@, root@) == Ok::<Seq<MonthView>, CrawlErrorView>(
                month_views(months@),
            ),
            Err(e) => root_scrape(document@, root@) == Err::<Seq<MonthView>, CrawlErrorView>(e@),
        },
{
    if !is_parsable(document) {
        return Err(CrawlError::PageTooLarge);
    }
    let doc = parse_document(document);
    let table_tag = match compile("table") {
        Ok(s) => s,
        Err(e) => {
            return Err(e);
        },
    };
    let row_tag = match compile("tr") {
        Ok(s) => s,
        Err(e) => {
            return Err(e);
        },
    };
    let data_tag = match compile("td") {
        Ok(s) => s,
        Err(e) => {
            return Err(e);
        },
    };
    let a_tag = match compile("a") {
        Ok(s) => s,
        Err(e) => {
            return Err(e);
        },
    };
    let anchors = root_anchors(&doc, &table_tag, &row_tag, &data_tag, &a_tag);
    let links = index_links(&anchors);
    let urls = month_urls_from(&links, root);
    match read_months(urls) {
        Ok(months) => Ok(months),
        Err(e) => Err(CrawlError::MalformedIdentifier(e)),
    }
}

} // verus!
