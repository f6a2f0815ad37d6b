use pageturtle::assets::rewrite_image_url;
use pageturtle::date::parse_date;
use pageturtle::text::count_words;
use pageturtle::utils::{default_empty, default_true};

fn chars(s: &str) -> Vec<char> {
    s.chars().collect()
}

#[test]
fn word_count_splits_on_whitespace() {
    assert_eq!(count_words(&chars("")), 0);
    assert_eq!(count_words(&chars("   ")), 0);
    assert_eq!(count_words(&chars("one")), 1);
    assert_eq!(count_words(&chars("one two\tthree\nfour")), 4);
    assert_eq!(count_words(&chars("  spaced   out  ")), 2);
}

#[test]
fn rewrite_image_url_keeps_the_file_name() {
    assert_eq!(rewrite_image_url("../img/photo.png"), "/img/photo.png");
    assert_eq!(rewrite_image_url("photo.png"), "/img/photo.png");
    assert_eq!(rewrite_image_url("a/b/c/pic.jpg"), "/img/pic.jpg");
}

#[test]
fn parse_date_is_strict() {
    assert_eq!(
        parse_date(&chars("2024-01-05")),
        Some(pageturtle::date::Date { year: 2024, month: 1, day: 5 })
    );
    assert_eq!(parse_date(&chars("2024-02-29")).is_some(), true);
    assert_eq!(parse_date(&chars("2023-02-29")), None);
    assert_eq!(parse_date(&chars("2024-00-10")), None);
    assert_eq!(parse_date(&chars("2024-13-10")), None);
    assert_eq!(parse_date(&chars("2024-04-31")), None);
    assert_eq!(parse_date(&chars("2024-1-05")), None);
    assert_eq!(parse_date(&chars("24-01-05")), None);
    assert_eq!(parse_date(&chars("2024/01/05")), None);
    assert_eq!(parse_date(&chars("2024-01-05T00:00:00Z")), None);
}

#[test]
fn defaults_are_what_absent_fields_get() {
    assert!(default_true());
    let v: Vec<String> = default_empty();
    assert!(v.is_empty());
}
