use std::collections::HashMap;
use suru_dev::catalog::{DailyRoot, MonthlyRoot};
use suru_dev::crawl::{
    is_year_selected, Action, Crawler, Event, Input, Phase, Step, THROTTLE_MILLIS,
};
use suru_dev::error::{CrawlError, IdentifierFault, MalformedIdentifier};
use suru_dev::extract::{Anchor, Anomaly, AnomalyKind};
use suru_dev::records::{DailyProducts, ProductDescription};

const ROOT: &str = "https://example.test";

fn month(url: &str, days: &[(u32, &str)]) -> MonthlyRoot {
    let mut m = MonthlyRoot::from_url(url.to_string()).unwrap();
    for (n, u) in days {
        m.merge_day(DailyRoot { day: *n, url: u.to_string() });
    }
    m
}

fn description(text: &str, url: &str) -> ProductDescription {
    ProductDescription { description: text.to_string(), url: url.to_string() }
}

fn site() -> HashMap<String, String> {
    let mut pages = HashMap::new();
    pages.insert(
        format!("{ROOT}/202401"),
        r#"<html><body>
            <a href="202401/20240101_1">1</a>
            <a href="202401/20240102_1">2</a>
           </body></html>"#
            .to_string(),
    );
    pages.insert(
        format!("{ROOT}/202401/20240101_1"),
        r#"<ul><li><a href="old.html">Old thing</a></li></ul>"#.to_string(),
    );
    pages.insert(
        format!("{ROOT}/202401/20240102_1"),
        r#"<table><tr>
             <td><a href="202401/20240102_1">1</a></td>
             <td><a href="202401/20240102_2">2</a></td>
             <td><a href="202401/20240102_2">next</a></td>
           </tr></table>
           <ul><li><a href="p1.html">  Widget A  </a></li>
               <li><a href="p2.html">Widget B</a></li></ul>"#
            .to_string(),
    );
    pages.insert(
        format!("{ROOT}/202401/20240102_2"),
        r#"<ul><li><a href="p3.html">Widget C</a></li></ul>"#.to_string(),
    );
    pages
}

struct Outcome {
    fetched: Vec<String>,
    emitted: Vec<DailyProducts>,
    backups: usize,
    checkpoints: usize,
    anomalies: Vec<Anomaly>,
    last: Action,
}

fn drive(crawler: &mut Crawler, pages: &HashMap<String, String>) -> Outcome {
    let mut out = Outcome {
        fetched: Vec::new(),
        emitted: Vec::new(),
        backups: 0,
        checkpoints: 0,
        anomalies: Vec::new(),
        last: Action::Unexpected,
    };
    let mut event = Event::Start;
    loop {
        let Step { action, anomalies } = crawler.step(event);
        out.anomalies.extend(anomalies);
        match action {
            Action::Fetch { url, wait_millis } => {
                assert_eq!(wait_millis, THROTTLE_MILLIS);
                event = match pages.get(&url) {
                    Some(body) => Event::Fetched { body: body.clone() },
                    None => Event::FetchFailed,
                };
                out.fetched.push(url);
            }
            Action::Emit { record } => {
                out.emitted.push(record);
                event = Event::Emitted;
            }
            Action::Backup => {
                out.backups += 1;
                assert_eq!(out.backups, out.checkpoints + 1);
                event = Event::BackedUp;
            }
            Action::Checkpoint => {
                out.checkpoints += 1;
                assert_eq!(out.backups, out.checkpoints);
                event = Event::Saved;
            }
            other => {
                out.last = other;
                return out;
            }
        }
    }
}

#[test]
fn crawl_pass_adds_the_new_day_and_gathers_both_pages() {
    let day1 = format!("{ROOT}/202401/20240101_1");
    let catalog = vec![month(&format!("{ROOT}/202401"), &[(1, &day1)])];
    let mut crawler = Crawler::new(catalog, vec![2024], ROOT.to_string()).unwrap();
    let out = drive(&mut crawler, &site());

    assert_eq!(out.last, Action::Finished);
    assert_eq!(crawler.phase(), Phase::Finished);
    assert_eq!(
        crawler.catalog()[0].products,
        vec![
            DailyRoot { day: 1, url: day1.clone() },
            DailyRoot { day: 2, url: format!("{ROOT}/202401/20240102_1") },
        ]
    );
    assert_eq!(
        out.fetched,
        vec![
            format!("{ROOT}/202401"),
            day1,
            format!("{ROOT}/202401/20240102_1"),
            format!("{ROOT}/202401/20240102_2"),
        ]
    );
    let for_day_2: Vec<&DailyProducts> = out.emitted.iter().filter(|r| r.day == 2).collect();
    assert_eq!(for_day_2.len(), 1);
    assert_eq!(
        *for_day_2[0],
        DailyProducts {
            year: 2024,
            month: 1,
            day: 2,
            products: vec![
                description("Widget A", "p1.html"),
                description("Widget B", "p2.html"),
                description("Widget C", "p3.html"),
            ],
        }
    );
    assert_eq!(
        out.emitted[0],
        DailyProducts {
            year: 2024,
            month: 1,
            day: 1,
            products: vec![description("Old thing", "old.html")]
        }
    );
    assert_eq!(out.emitted.len(), 2);
    assert_eq!(out.checkpoints, 1);
}

#[test]
fn crawling_an_unchanged_site_again_changes_nothing() {
    let catalog = vec![month(&format!("{ROOT}/202401"), &[])];
    let mut first = Crawler::new(catalog, Vec::new(), ROOT.to_string()).unwrap();
    let one = drive(&mut first, &site());
    assert_eq!(one.last, Action::Finished);
    let after_first = first.into_catalog();
    let days: Vec<u32> = after_first[0].products.iter().map(|d| d.day).collect();
    assert_eq!(days, vec![1, 2]);

    let again = vec![month(
        &format!("{ROOT}/202401"),
        &[
            (1, &format!("{ROOT}/202401/20240101_1")),
            (2, &format!("{ROOT}/202401/20240102_1")),
        ],
    )];
    assert_eq!(again, after_first);
    let mut second = Crawler::new(again, Vec::new(), ROOT.to_string()).unwrap();
    let two = drive(&mut second, &site());
    assert_eq!(two.last, Action::Finished);
    assert_eq!(second.into_catalog(), after_first);
    assert_eq!(two.emitted, one.emitted);
    assert_eq!(two.fetched, one.fetched);
}

#[test]
fn months_outside_the_filter_are_skipped() {
    let catalog = vec![
        month(&format!("{ROOT}/202312"), &[]),
        month(&format!("{ROOT}/202401"), &[]),
        month(&format!("{ROOT}/202501"), &[]),
    ];
    let mut crawler = Crawler::new(catalog, vec![2024], ROOT.to_string()).unwrap();
    let out = drive(&mut crawler, &site());
    assert_eq!(out.last, Action::Finished);
    assert_eq!(out.fetched[0], format!("{ROOT}/202401"));
    assert!(out.fetched.iter().all(|u| u.starts_with(&format!("{ROOT}/202401"))));
    assert!(crawler.catalog()[0].products.is_empty());
    assert!(crawler.catalog()[2].products.is_empty());
    assert_eq!(out.checkpoints, 1);
}

#[test]
fn an_empty_filter_selects_every_month() {
    assert!(is_year_selected(&Vec::new(), 1999));
    assert!(is_year_selected(&vec![2023, 2024], 2024));
    assert!(!is_year_selected(&vec![2023, 2024], 2025));

    let catalog = vec![month(&format!("{ROOT}/202312"), &[]), month(&format!("{ROOT}/202401"), &[])];
    let mut crawler = Crawler::new(catalog, Vec::new(), ROOT.to_string()).unwrap();
    let out = drive(&mut crawler, &site());
    assert_eq!(
        out.last,
        Action::Abort { error: CrawlError::FetchFailed { url: format!("{ROOT}/202312") } }
    );
    assert_eq!(out.fetched, vec![format!("{ROOT}/202312")]);
}

#[test]
fn a_failed_fetch_aborts_the_crawl_at_once() {
    let mut pages = site();
    pages.remove(&format!("{ROOT}/202401/20240102_2"));
    let catalog = vec![month(&format!("{ROOT}/202401"), &[]), month(&format!("{ROOT}/202402"), &[])];
    let mut crawler = Crawler::new(catalog, Vec::new(), ROOT.to_string()).unwrap();
    let out = drive(&mut crawler, &pages);
    assert_eq!(
        out.last,
        Action::Abort {
            error: CrawlError::FetchFailed { url: format!("{ROOT}/202401/20240102_2") }
        }
    );
    assert_eq!(crawler.phase(), Phase::Aborted);
    assert_eq!(out.emitted.len(), 1);
    assert_eq!(out.checkpoints, 0);
    assert_eq!(crawler.step(Event::Start).action, Action::Unexpected);
}

#[test]
fn a_malformed_day_link_aborts_the_crawl() {
    let mut pages = HashMap::new();
    pages.insert(format!("{ROOT}/202401"), r#"<a href="x/short_1">?</a>"#.to_string());
    let catalog = vec![month(&format!("{ROOT}/202401"), &[])];
    let mut crawler = Crawler::new(catalog, Vec::new(), ROOT.to_string()).unwrap();
    let out = drive(&mut crawler, &pages);
    assert_eq!(
        out.last,
        Action::Abort {
            error: CrawlError::MalformedIdentifier(MalformedIdentifier {
                url: format!("{ROOT}/x/short_1"),
                fault: IdentifierFault::WrongLength,
            })
        }
    );
}

#[test]
fn an_empty_catalog_finishes_at_once() {
    let mut crawler = Crawler::new(Vec::new(), Vec::new(), ROOT.to_string()).unwrap();
    assert_eq!(crawler.phase(), Phase::Ready);
    let step = crawler.step(Event::Start);
    assert_eq!(step, Step { action: Action::Finished, anomalies: Vec::new() });
    assert_eq!(crawler.step(Event::Start).action, Action::Unexpected);
    assert_eq!(crawler.phase(), Phase::Finished);
}

#[test]
fn an_event_that_answers_nothing_changes_nothing() {
    let catalog = vec![month(&format!("{ROOT}/202401"), &[])];
    let mut crawler = Crawler::new(catalog, Vec::new(), ROOT.to_string()).unwrap();
    assert_eq!(crawler.step(Event::Saved).action, Action::Unexpected);
    assert_eq!(crawler.step(Event::Fetched { body: String::new() }).action, Action::Unexpected);
    assert_eq!(crawler.phase(), Phase::Ready);
    assert_eq!(
        crawler.step(Event::Start).action,
        Action::Fetch { url: format!("{ROOT}/202401"), wait_millis: 750 }
    );
    assert_eq!(crawler.step(Event::Emitted).action, Action::Unexpected);
    assert_eq!(crawler.phase(), Phase::MonthIndex);
}

#[test]
fn a_month_without_days_is_backed_up_and_saved_right_away() {
    let mut pages = HashMap::new();
    pages.insert(format!("{ROOT}/202401"), "<p>no links</p>".to_string());
    let catalog = vec![month(&format!("{ROOT}/202401"), &[])];
    let mut crawler = Crawler::new(catalog, Vec::new(), ROOT.to_string()).unwrap();
    crawler.step(Event::Start);
    let body = pages[&format!("{ROOT}/202401")].clone();
    assert_eq!(crawler.step(Event::Fetched { body }).action, Action::Backup);
    assert_eq!(crawler.phase(), Phase::BackingUp);
    assert_eq!(crawler.step(Event::Saved).action, Action::Unexpected);
    assert_eq!(crawler.step(Event::BackedUp).action, Action::Checkpoint);
    assert_eq!(crawler.phase(), Phase::Saving);
    assert_eq!(crawler.step(Event::BackedUp).action, Action::Unexpected);
    assert_eq!(crawler.step(Event::Saved).action, Action::Finished);
}

#[test]
fn extra_pages_are_visited_by_ascending_number() {
    let day = format!("{ROOT}/d/20240105_1");
    let mut pages = HashMap::new();
    pages.insert(format!("{ROOT}/202401"), String::new());
    pages.insert(
        day.clone(),
        r#"<table><tr><td><a href="d/1">1</a><a href="d/3">3</a><a href="d/2">2</a></td></tr></table>
           <ul><li><a href="first">F</a></li></ul>"#
            .to_string(),
    );
    pages.insert(format!("{ROOT}/d/2"), r#"<ul><li><a href="second">S</a></li></ul>"#.to_string());
    pages.insert(format!("{ROOT}/d/3"), r#"<ul><li><a href="third">T</a></li></ul>"#.to_string());
    let catalog = vec![month(&format!("{ROOT}/202401"), &[(5, &day)])];
    let mut crawler = Crawler::new(catalog, Vec::new(), ROOT.to_string()).unwrap();
    let out = drive(&mut crawler, &pages);
    assert_eq!(out.last, Action::Finished);
    assert_eq!(
        out.fetched,
        vec![format!("{ROOT}/202401"), day, format!("{ROOT}/d/2"), format!("{ROOT}/d/3")]
    );
    assert_eq!(
        out.emitted[0].products,
        vec![description("F", "first"), description("S", "second"), description("T", "third")]
    );
}

#[test]
fn odd_anchors_are_reported_and_do_not_stop_the_crawl() {
    let day = format!("{ROOT}/d/20240105_1");
    let mut pages = HashMap::new();
    pages.insert(
        format!("{ROOT}/202401"),
        r#"<a name="top"></a><a href="d/20240105_1">5 <b>May</b></a>"#.to_string(),
    );
    pages.insert(
        day.clone(),
        r#"<table><tr><td><a>1</a></td></tr></table>
           <ul><li><a href="x"></a></li><li><a href="y">Y</a></li></ul>"#
            .to_string(),
    );
    let catalog = vec![month(&format!("{ROOT}/202401"), &[])];
    let mut crawler = Crawler::new(catalog, Vec::new(), ROOT.to_string()).unwrap();
    let out = drive(&mut crawler, &pages);
    assert_eq!(out.last, Action::Finished);
    assert_eq!(
        out.anomalies,
        vec![
            Anomaly { position: 0, kind: AnomalyKind::MissingAttribute },
            Anomaly { position: 1, kind: AnomalyKind::AmbiguousCaption },
            Anomaly { position: 0, kind: AnomalyKind::MissingAttribute },
            Anomaly { position: 0, kind: AnomalyKind::MissingText },
        ]
    );
    assert_eq!(out.emitted[0].products, vec![description("Y", "y")]);
}

fn anchor(href: Option<&str>, texts: &[&str]) -> Anchor {
    Anchor {
        href: href.map(|h| h.to_string()),
        texts: texts.iter().map(|t| t.to_string()).collect(),
    }
}

fn fetch(url: &str) -> Action {
    Action::Fetch { url: url.to_string(), wait_millis: 750 }
}

#[test]
fn decisions_on_handwritten_anchors() {
    let catalog = vec![month("r/202401", &[(9, "r/d/20240109_1")])];
    let mut crawler = Crawler::new(catalog, Vec::new(), "r".to_string()).unwrap();
    assert_eq!(crawler.advance(Input::Start).action, fetch("r/202401"));

    let step = crawler.advance(Input::MonthIndex {
        links: vec![
            anchor(Some("d/20240103_1"), &["3"]),
            anchor(None, &["no href"]),
            anchor(Some("d/20240109_1"), &["9"]),
            anchor(Some("d/20240103_2"), &["second page"]),
        ],
    });
    assert_eq!(step.action, fetch("r/d/20240109_1"));
    assert_eq!(step.anomalies, vec![Anomaly { position: 1, kind: AnomalyKind::MissingAttribute }]);
    let days: Vec<u32> = crawler.catalog()[0].products.iter().map(|d| d.day).collect();
    assert_eq!(days, vec![9, 3]);

    let step = crawler.advance(Input::DayPage {
        page_links: Vec::new(),
        product_links: vec![anchor(Some("n"), &[" Nine "])],
    });
    assert_eq!(
        step.action,
        Action::Emit {
            record: DailyProducts {
                year: 2024,
                month: 1,
                day: 9,
                products: vec![description("Nine", "n")]
            }
        }
    );
    assert_eq!(crawler.advance(Input::Emitted).action, fetch("r/d/20240103_1"));

    let step = crawler.advance(Input::DayPage {
        page_links: vec![
            anchor(Some("d/20240103_1"), &["1"]),
            anchor(Some("d/20240103_3"), &["3"]),
            anchor(Some("d/20240103_2"), &["2"]),
            anchor(Some("d/20240103_2"), &["next"]),
        ],
        product_links: vec![anchor(Some("a"), &["A"]), anchor(Some("b"), &[])],
    });
    assert_eq!(step.action, fetch("r/d/20240103_2"));
    assert_eq!(step.anomalies, vec![Anomaly { position: 1, kind: AnomalyKind::MissingText }]);
    assert_eq!(crawler.phase(), Phase::ExtraPage);

    let step = crawler.advance(Input::ExtraPage { product_links: vec![anchor(Some("c"), &["C"])] });
    assert_eq!(step.action, fetch("r/d/20240103_3"));
    let step = crawler.advance(Input::ExtraPage {
        product_links: vec![anchor(Some("d"), &["D", "d"])],
    });
    assert_eq!(
        step,
        Step {
            action: Action::Emit {
                record: DailyProducts {
                    year: 2024,
                    month: 1,
                    day: 3,
                    products: vec![
                        description("A", "a"),
                        description("C", "c"),
                        description("D", "d"),
                    ],
                }
            },
            anomalies: vec![Anomaly { position: 0, kind: AnomalyKind::AmbiguousCaption }],
        }
    );
    assert_eq!(crawler.advance(Input::Emitted).action, Action::Backup);
    assert_eq!(crawler.advance(Input::BackedUp).action, Action::Checkpoint);
    assert_eq!(crawler.advance(Input::Saved).action, Action::Finished);
}

#[test]
fn a_page_of_the_wrong_kind_is_unexpected() {
    let catalog = vec![month("r/202401", &[])];
    let mut crawler = Crawler::new(catalog, Vec::new(), "r".to_string()).unwrap();
    crawler.advance(Input::Start);
    assert_eq!(
        crawler.advance(Input::ExtraPage { product_links: Vec::new() }).action,
        Action::Unexpected
    );
    assert_eq!(
        crawler
            .advance(Input::DayPage { page_links: Vec::new(), product_links: Vec::new() })
            .action,
        Action::Unexpected
    );
    assert_eq!(crawler.phase(), Phase::MonthIndex);
    assert_eq!(
        crawler.advance(Input::FetchFailed).action,
        Action::Abort { error: CrawlError::FetchFailed { url: "r/202401".to_string() } }
    );
}

#[test]
fn events_are_read_by_phase() {
    let catalog = vec![month("r/202401", &[(1, "r/d/20240101_1")])];
    let mut crawler = Crawler::new(catalog, Vec::new(), "r".to_string()).unwrap();
    assert_eq!(crawler.read(Event::Start), Input::Start);
    assert_eq!(crawler.read(Event::FetchFailed), Input::FetchFailed);
    crawler.advance(Input::Start);
    let body = r#"<a href="x">X</a><ul><li><a href="y">Y</a></li></ul>
                  <table><tr><td><a href="z">2</a></td></tr></table>"#;
    assert_eq!(
        crawler.read(Event::Fetched { body: body.to_string() }),
        Input::MonthIndex {
            links: vec![anchor(Some("x"), &["X"]), anchor(Some("y"), &["Y"]), anchor(Some("z"), &["2"])]
        }
    );
    crawler.advance(Input::MonthIndex { links: Vec::new() });
    assert_eq!(crawler.phase(), Phase::DayPage);
    assert_eq!(
        crawler.read(Event::Fetched { body: body.to_string() }),
        Input::DayPage {
            page_links: vec![anchor(Some("z"), &["2"])],
            product_links: vec![anchor(Some("y"), &["Y"])],
        }
    );
    crawler.advance(Input::DayPage {
        page_links: vec![anchor(Some("p1"), &["1"]), anchor(Some("p2"), &["2"])],
        product_links: Vec::new(),
    });
    assert_eq!(crawler.phase(), Phase::ExtraPage);
    assert_eq!(
        crawler.read(Event::Fetched { body: body.to_string() }),
        Input::ExtraPage { product_links: vec![anchor(Some("y"), &["Y"])] }
    );
}

#[test]
fn a_crawler_can_be_given_its_selectors() {
    let table = scraper::Selector::parse("div.pager").unwrap();
    let list = scraper::Selector::parse("ol").unwrap();
    let a = scraper::Selector::parse("a.item").unwrap();
    let catalog = vec![month("r/202401", &[(1, "r/d/20240101_1")])];
    let mut crawler =
        Crawler::with_selectors(catalog, Vec::new(), "r".to_string(), table, list, a);
    crawler.advance(Input::Start);
    crawler.advance(Input::MonthIndex { links: Vec::new() });
    let body = r#"<ol><li><a class="item" href="in">In</a><a href="out">Out</a></li></ol>
                  <ul><li><a class="item" href="ul">Ul</a></li></ul>"#;
    let step = crawler.step(Event::Fetched { body: body.to_string() });
    assert_eq!(
        step.action,
        Action::Emit {
            record: DailyProducts {
                year: 2024,
                month: 1,
                day: 1,
                products: vec![description("In", "in")]
            }
        }
    );
}

#[test]
fn a_page_too_long_to_parse_aborts_the_crawl() {
    let catalog = vec![month("r/202401", &[])];
    let mut crawler = Crawler::new(catalog, Vec::new(), "r".to_string()).unwrap();
    crawler.advance(Input::Start);
    let body = "x".repeat(suru_dev::html::MAX_PAGE_CHARS + 1);
    assert_eq!(crawler.read(Event::Fetched { body }), Input::Oversized);
    assert_eq!(
        crawler.advance(Input::Oversized).action,
        Action::Abort { error: CrawlError::PageTooLarge }
    );
    assert_eq!(crawler.phase(), Phase::Aborted);
    assert!(crawler.catalog()[0].products.is_empty());
}

#[test]
fn a_page_bar_shown_twice_is_followed_once() {
    let day = format!("{ROOT}/d_1");
    let bar = r#"<table><tr><td><a href="d_1">1</a></td><td><a href="d_2">2</a></td></tr></table>"#;
    let mut pages = HashMap::new();
    pages.insert(format!("{ROOT}/202401"), String::new());
    pages.insert(
        day.clone(),
        format!("{bar}<ul><li><a href=\"one\">One</a></li><li><a href=\"b\">  </a></li></ul>{bar}"),
    );
    pages.insert(format!("{ROOT}/d_2"), r#"<ul><li><a href="two">Two</a></li></ul>"#.to_string());
    let catalog = vec![month(&format!("{ROOT}/202401"), &[(7, &day)])];
    let mut crawler = Crawler::new(catalog, Vec::new(), ROOT.to_string()).unwrap();
    let out = drive(&mut crawler, &pages);
    assert_eq!(out.last, Action::Finished);
    assert_eq!(out.fetched, vec![format!("{ROOT}/202401"), day, format!("{ROOT}/d_2")]);
    assert_eq!(
        out.emitted[0].products,
        vec![description("One", "one"), description("Two", "two")]
    );
    assert_eq!(out.anomalies, vec![Anomaly { position: 1, kind: AnomalyKind::MissingText }]);
}
