use suru_dev::catalog::{DailyRoot, MonthlyRoot};

fn day(n: u32, url: &str) -> DailyRoot {
    DailyRoot { day: n, url: url.to_string() }
}

fn days_of(month: &MonthlyRoot) -> Vec<u32> {
    month.products.iter().map(|d| d.day).collect()
}

#[test]
fn merging_a_new_day_appends_it() {
    let mut m = MonthlyRoot::from_url("http://h/202401".to_string()).unwrap();
    assert!(m.merge_day(day(3, "a")));
    assert!(m.merge_day(day(1, "b")));
    assert_eq!(m.products, vec![day(3, "a"), day(1, "b")]);
}

#[test]
fn merging_the_same_day_twice_keeps_one_child_and_the_order() {
    let mut m = MonthlyRoot::from_url("http://h/202401".to_string()).unwrap();
    assert!(m.merge_day(day(5, "first")));
    assert!(m.merge_day(day(2, "second")));
    assert!(m.merge_day(day(9, "third")));
    assert!(!m.merge_day(day(2, "again")));
    assert!(!m.merge_day(day(2, "and again")));
    assert_eq!(m.products, vec![day(5, "first"), day(2, "second"), day(9, "third")]);
    assert_eq!(m.products.iter().filter(|d| d.day == 2).count(), 1);
}

#[test]
fn merge_leaves_the_key_and_url_of_the_month() {
    let mut m = MonthlyRoot::from_url("http://h/202411".to_string()).unwrap();
    m.merge_day(day(1, "x"));
    assert_eq!((m.year, m.month, m.url.as_str()), (2024, 11, "http://h/202411"));
}

#[test]
fn has_day_goes_by_number() {
    let mut m = MonthlyRoot::from_url("http://h/202401".to_string()).unwrap();
    assert!(!m.has_day(1));
    m.merge_day(day(1, "x"));
    assert!(m.has_day(1));
    assert!(!m.has_day(2));
}

#[test]
fn merging_a_set_of_days_again_changes_nothing() {
    let found = [4u32, 2, 4, 7, 2];
    let mut m = MonthlyRoot::from_url("http://h/202401".to_string()).unwrap();
    for d in found {
        m.merge_day(day(d, "u"));
    }
    assert_eq!(days_of(&m), vec![4, 2, 7]);
    for _ in 0..3 {
        for d in found {
            assert!(!m.merge_day(day(d, "other")));
        }
    }
    assert_eq!(days_of(&m), vec![4, 2, 7]);
    assert!(m.products.iter().all(|d| d.url == "u"));
}

#[test]
fn merge_order_does_not_change_the_set_of_days() {
    let mut ab = MonthlyRoot::from_url("http://h/202401".to_string()).unwrap();
    ab.merge_day(day(1, "a"));
    ab.merge_day(day(2, "b"));
    let mut ba = MonthlyRoot::from_url("http://h/202401".to_string()).unwrap();
    ba.merge_day(day(2, "b"));
    ba.merge_day(day(1, "a"));
    let mut left = days_of(&ab);
    let mut right = days_of(&ba);
    left.sort();
    right.sort();
    assert_eq!(left, right);
}
