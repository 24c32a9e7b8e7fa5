use suru_dev::catalog::{DailyRoot, MonthlyRoot};
use suru_dev::decimal::{parse_positive, parse_u32};
use suru_dev::pages::extra_pages;
use suru_dev::records::Page;
use suru_dev::text::{chars_of, has_suffix, is_blank, strip_trailing_slash, trim};

struct Dice(u64);

impl Dice {
    fn roll(&mut self, sides: usize) -> usize {
        self.0 = self.0.wrapping_mul(6364136223846793005).wrapping_add(1442695040888963407);
        ((self.0 >> 33) as usize) % sides
    }

    fn text(&mut self, alphabet: &[char], longest: usize) -> String {
        let len = self.roll(longest + 1);
        (0..len).map(|_| alphabet[self.roll(alphabet.len())]).collect()
    }
}

fn month_by_slicing(url: &str) -> Option<(u32, u32)> {
    let (_, tail) = url.rsplit_once('/')?;
    if tail.len() != 6 {
        return None;
    }
    let year: u32 = tail[..4].parse().ok()?;
    let month: u32 = tail[4..].parse().ok()?;
    if year == 0 || month == 0 {
        return None;
    }
    Some((year, month))
}

fn day_by_slicing(url: &str) -> Option<u32> {
    let (_, tail) = url.rsplit_once('/')?;
    let day: u32 = tail.get(6..=7)?.parse().ok()?;
    if day == 0 {
        return None;
    }
    Some(day)
}

#[test]
fn keys_agree_with_slicing_on_ascii_urls() {
    let alphabet = ['0', '1', '2', '9', '/', '+', '-', '_', 'a', ' '];
    let mut dice = Dice(7);
    let mut named = 0;
    for _ in 0..200_000 {
        let url = dice.text(&alphabet, 12);
        let month = MonthlyRoot::from_url(url.clone()).ok().map(|m| (m.year, m.month));
        assert_eq!(month, month_by_slicing(&url), "{:?}", url);
        let day = DailyRoot::from_url(url.clone()).ok().map(|d| d.day);
        assert_eq!(day, day_by_slicing(&url), "{:?}", url);
        if month.is_some() || day.is_some() {
            named += 1;
        }
    }
    assert!(named > 1000);
}

#[test]
fn numerals_agree_with_the_standard_library() {
    let alphabet = ['0', '1', '4', '9', '+', '-', ' ', 'x', '٣'];
    let mut dice = Dice(11);
    let mut read = 0;
    for _ in 0..200_000 {
        let text = dice.text(&alphabet, 11);
        let value = parse_u32(&chars_of(&text));
        assert_eq!(value, text.parse::<u32>().ok(), "{:?}", text);
        assert_eq!(parse_positive(&chars_of(&text)), value.filter(|v| *v > 0), "{:?}", text);
        if value.is_some() {
            read += 1;
        }
    }
    assert!(read > 1000);
}

#[test]
fn trimming_agrees_with_the_standard_library() {
    let alphabet = [' ', '\t', '\n', '\u{a0}', '\u{2028}', '\u{3000}', '\u{200b}', 'a', 'é', '/'];
    let mut dice = Dice(13);
    for _ in 0..50_000 {
        let text = dice.text(&alphabet, 8);
        assert_eq!(trim(&text), text.trim(), "{:?}", text);
        assert_eq!(is_blank(&text), text.trim().is_empty(), "{:?}", text);
    }
}

#[test]
fn suffixes_agree_with_the_standard_library() {
    let alphabet = ['_', '1', '/', 'a'];
    let mut dice = Dice(17);
    for _ in 0..50_000 {
        let text = dice.text(&alphabet, 6);
        let suffix = dice.text(&alphabet, 3);
        assert_eq!(
            has_suffix(&chars_of(&text), &chars_of(&suffix)),
            text.ends_with(&suffix),
            "{:?} {:?}",
            text,
            suffix
        );
        let stripped = text.strip_suffix('/').unwrap_or(&text);
        assert_eq!(strip_trailing_slash(&text), stripped, "{:?}", text);
    }
}

#[test]
fn extra_pages_agree_with_one_per_number_sorted() {
    let mut dice = Dice(19);
    for _ in 0..20_000 {
        let len = dice.roll(8);
        let pages: Vec<Page> = (0..len)
            .map(|i| Page { page: dice.roll(5) as u32, url: format!("u{i}") })
            .collect();
        let mut expected: Vec<Page> = Vec::new();
        for p in pages.iter() {
            if p.page > pages[0].page && !expected.iter().any(|e| e.page == p.page) {
                expected.push(p.clone());
            }
        }
        expected.sort_by_key(|p| p.page);
        assert_eq!(extra_pages(&pages), expected, "{:?}", pages);
    }
}
