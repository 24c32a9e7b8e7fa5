use suru_dev::pages::extra_pages;
use suru_dev::records::Page;

fn page(n: u32, url: &str) -> Page {
    Page { page: n, url: url.to_string() }
}

#[test]
fn pages_after_the_first_are_extra() {
    let pages = vec![page(1, "p1"), page(2, "p2"), page(3, "p3")];
    assert_eq!(extra_pages(&pages), vec![page(2, "p2"), page(3, "p3")]);
}

#[test]
fn extra_pages_come_by_ascending_number() {
    let pages = vec![page(1, "p1"), page(3, "p3"), page(2, "p2"), page(5, "p5"), page(4, "p4")];
    assert_eq!(
        extra_pages(&pages),
        vec![page(2, "p2"), page(3, "p3"), page(4, "p4"), page(5, "p5")]
    );
}

#[test]
fn pages_not_above_the_first_are_left_out() {
    let pages = vec![page(2, "a"), page(1, "b"), page(2, "c"), page(3, "d")];
    assert_eq!(extra_pages(&pages), vec![page(3, "d")]);
}

#[test]
fn a_number_linked_twice_is_visited_once() {
    let pages = vec![page(1, "d_1"), page(2, "d_2"), page(1, "d_1"), page(2, "d_2")];
    assert_eq!(extra_pages(&pages), vec![page(2, "d_2")]);
}

#[test]
fn the_first_link_of_a_number_gives_the_url() {
    let pages = vec![page(1, "top1"), page(3, "top3"), page(2, "top2"), page(1, "bottom1"),
        page(2, "bottom2"), page(3, "bottom3"), page(4, "bottom4")];
    assert_eq!(
        extra_pages(&pages),
        vec![page(2, "top2"), page(3, "top3"), page(4, "bottom4")]
    );
}

#[test]
fn no_links_or_one_link_give_no_extra_page() {
    assert!(extra_pages(&Vec::new()).is_empty());
    assert!(extra_pages(&vec![page(7, "only")]).is_empty());
}
