use scraper::{Html, Selector};
use suru_dev::catalog::{DailyRoot, MonthlyRoot};
use suru_dev::error::{CrawlError, IdentifierFault, MalformedIdentifier};
use suru_dev::extract::IndexLink;
use suru_dev::extract::{anomalies, Anomaly, AnomalyKind};
use suru_dev::html::{is_parsable, read_anchor, read_anchors, select_below, MAX_PAGE_CHARS};
use suru_dev::scrape::{
    compile, day_urls_from, fill_root, index_anchors, merge_days, month_urls_from, read_months,
    root_anchors, scrape_root, FIRST_PAGE_MARKER,
};

fn link(href: &str) -> IndexLink {
    IndexLink { href: href.to_string(), caption: "x".to_string() }
}

fn month(url: &str) -> MonthlyRoot {
    MonthlyRoot::from_url(url.to_string()).unwrap()
}

#[test]
fn root_index_seeds_one_month_per_table_link() {
    let document = r#"<html><body>
        <a href="/209912/">outside any table</a>
        <table>
          <tr><td><a href="/202401/">Jan</a></td><td><a href="/202402">Feb</a></td></tr>
          <tr><td><a>no href</a></td><td><a href="/202403/"><img src="x.png"></a></td></tr>
          <tr><th><a href="/209901/">in a header cell</a></th></tr>
        </table></body></html>"#;
    let months = scrape_root(document, "https://example.test").unwrap();
    assert_eq!(
        months,
        vec![month("https://example.test/202401"), month("https://example.test/202402")]
    );
    assert_eq!((months[0].year, months[0].month), (2024, 1));
}

#[test]
fn root_index_with_a_malformed_link_fails() {
    let document = r#"<table><tr>
        <td><a href="/202401/">ok</a></td>
        <td><a href="/about/">About</a></td>
        <td><a href="/bad">Bad</a></td></tr></table>"#;
    assert_eq!(
        scrape_root(document, "https://example.test"),
        Err(CrawlError::MalformedIdentifier(MalformedIdentifier {
            url: "https://example.test/about".to_string(),
            fault: IdentifierFault::WrongLength,
        }))
    );
}

#[test]
fn root_index_without_tables_gives_no_month() {
    assert_eq!(scrape_root("<p>nothing</p>", "r"), Ok(Vec::new()));
    assert_eq!(scrape_root("", "r"), Ok(Vec::new()));
}

#[test]
fn month_index_fills_the_month_with_first_pages_only() {
    let html = Html::parse_document(
        r#"<a href="202401/20240101_1">1</a>
           <a href="202401/20240101_2">page 2 of day 1</a>
           <a href="202401/20240102_1">2</a>
           <a href="202401/20240101_1">1 again</a>
           <a href="202401/20240105_1"></a>"#,
    );
    let a = Selector::parse("a").unwrap();
    let mut m = month("https://example.test/202401");
    assert_eq!(fill_root(&html, &a, &mut m, "https://example.test"), Ok(()));
    assert_eq!(
        m.products,
        vec![
            DailyRoot { day: 1, url: "https://example.test/202401/20240101_1".to_string() },
            DailyRoot { day: 2, url: "https://example.test/202401/20240102_1".to_string() },
        ]
    );
}

#[test]
fn filling_twice_from_the_same_index_changes_nothing() {
    let html = Html::parse_document(r#"<a href="m/20240103_1">3</a><a href="m/20240101_1">1</a>"#);
    let a = Selector::parse("a").unwrap();
    let mut m = month("r/202401");
    fill_root(&html, &a, &mut m, "r").unwrap();
    let once = m.products.clone();
    fill_root(&html, &a, &mut m, "r").unwrap();
    assert_eq!(m.products, once);
    assert_eq!(once.iter().map(|d| d.day).collect::<Vec<u32>>(), vec![3, 1]);
}

#[test]
fn month_index_with_a_malformed_day_link_stops_there() {
    let html = Html::parse_document(
        r#"<a href="m/20240101_1">1</a><a href="m/x_1">broken</a><a href="m/20240102_1">2</a>"#,
    );
    let a = Selector::parse("a").unwrap();
    let mut m = month("r/202401");
    assert_eq!(
        fill_root(&html, &a, &mut m, "r"),
        Err(MalformedIdentifier { url: "r/m/x_1".to_string(), fault: IdentifierFault::WrongLength })
    );
    assert_eq!(m.products.iter().map(|d| d.day).collect::<Vec<u32>>(), vec![1]);
}

#[test]
fn day_urls_need_the_first_page_marker() {
    assert_eq!(FIRST_PAGE_MARKER, "_1");
    let links = vec![link("a/20240101_1"), link("a/20240101_2"), link("_1"), link("_1/"), link("")];
    assert_eq!(day_urls_from(&links, "r"), vec!["r/a/20240101_1", "r/_1"]);
}

#[test]
fn month_urls_lose_one_trailing_separator() {
    let links = vec![link("/202401/"), link("/202402"), link("/202403//")];
    assert_eq!(month_urls_from(&links, "r"), vec!["r/202401", "r/202402", "r/202403/"]);
}

#[test]
fn months_are_read_until_the_first_fault() {
    assert_eq!(
        read_months(vec!["r/202401".to_string(), "r/202402".to_string()]),
        Ok(vec![month("r/202401"), month("r/202402")])
    );
    assert_eq!(
        read_months(vec!["r/202401".to_string(), "r/20240x".to_string(), "nothing".to_string()]),
        Err(MalformedIdentifier { url: "r/20240x".to_string(), fault: IdentifierFault::NotNumeric })
    );
}

#[test]
fn days_are_merged_until_the_first_fault() {
    let mut m = month("r/202401");
    let urls = vec![
        "r/20240102_1".to_string(),
        "r/20240101_1".to_string(),
        "r/20240102_1".to_string(),
        "short".to_string(),
        "r/20240109_1".to_string(),
    ];
    assert_eq!(
        merge_days(&mut m, urls),
        Err(MalformedIdentifier { url: "short".to_string(), fault: IdentifierFault::NoSeparator })
    );
    assert_eq!(m.products.iter().map(|d| d.day).collect::<Vec<u32>>(), vec![2, 1]);
}

#[test]
fn selectors_compile_or_are_reported() {
    assert!(compile("table").is_ok());
    assert!(compile("ul > li a[href]").is_ok());
    assert_eq!(
        compile("a[").err(),
        Some(CrawlError::SelectorCompile { selector: "a[".to_string() })
    );
    assert_eq!(compile("").err(), Some(CrawlError::SelectorCompile { selector: "".to_string() }));
}

#[test]
fn anchors_are_read_with_href_and_text_nodes() {
    let html = Html::parse_document(
        r#"<div><a href="one">A<b>B</b>C</a><a name="n"></a></div><div><a href="">x</a></div>"#,
    );
    let div = Selector::parse("div").unwrap();
    let a = Selector::parse("a").unwrap();
    let divs: Vec<scraper::ElementRef> = html.select(&div).collect();
    let found = select_below(&divs, &a);
    assert_eq!(found.len(), 3);
    let anchors = read_anchors(&found);
    assert_eq!(anchors[0].href.as_deref(), Some("one"));
    assert_eq!(anchors[0].texts, vec!["A", "B", "C"]);
    assert_eq!(anchors[1].href, None);
    assert!(anchors[1].texts.is_empty());
    assert_eq!(anchors[2].href.as_deref(), Some(""));
    assert_eq!(read_anchor(&found[2]).texts, vec!["x"]);
}

#[test]
fn a_document_too_long_to_parse_is_refused() {
    let mut document = " ".repeat(MAX_PAGE_CHARS);
    assert!(is_parsable(&document));
    document.push(' ');
    assert!(!is_parsable(&document));
    assert_eq!(scrape_root(&document, "r"), Err(CrawlError::PageTooLarge));
}

#[test]
fn the_length_limit_counts_characters() {
    assert_eq!(MAX_PAGE_CHARS, 268_435_456);
    assert!(is_parsable(""));
    assert!(is_parsable("日本語"));
}

#[test]
fn anchors_of_the_index_pages_can_be_read_for_anomalies() {
    let html = Html::parse_document(
        r#"<a href="x">X</a><table><tr><td><a>bare</a><a href="y"> </a></td></tr></table>"#,
    );
    let a = Selector::parse("a").unwrap();
    let all = index_anchors(&html, &a);
    assert_eq!(all.len(), 3);
    let table = Selector::parse("table").unwrap();
    let tr = Selector::parse("tr").unwrap();
    let td = Selector::parse("td").unwrap();
    let inside = root_anchors(&html, &table, &tr, &td, &a);
    assert_eq!(
        anomalies(&inside),
        vec![
            Anomaly { position: 0, kind: AnomalyKind::MissingAttribute },
            Anomaly { position: 1, kind: AnomalyKind::MissingText },
        ]
    );
}
