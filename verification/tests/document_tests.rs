use pageturtle::blog::{build_blog_post, prepare_for_publish};
use pageturtle::date::Date;

fn doc(front: &str, body: &str) -> String {
    format!("---\n{}---\n\n{}", front, body)
}

#[test]
fn metadata_is_read_from_front_matter() {
    let content = doc(
        "title: Hello World\ndate: 2024-01-05\ntags:\n  - rust\n  - blog\ntable_of_contents: true\n",
        "Some body.\n",
    );
    let post = build_blog_post(&content).unwrap();
    assert_eq!(post.metadata.title, "Hello World");
    assert_eq!(post.metadata.date, Date { year: 2024, month: 1, day: 5 });
    assert_eq!(post.metadata.tags, vec!["rust".to_string(), "blog".to_string()]);
    assert!(post.metadata.table_of_contents);
    assert!(post.metadata.slug.is_none());
    assert!(post.metadata.description.is_none());
    assert!(post.metadata.authors.is_none());
}

#[test]
fn missing_front_matter_is_an_error() {
    let err = build_blog_post("# Just a heading\n\nNo front matter here.\n").unwrap_err();
    assert_eq!(err.message, "could not find frontmatter section in file");
    assert_eq!(err.line, 10);
    assert_eq!(err.column, 20);
}

#[test]
fn missing_title_is_an_error() {
    let err = build_blog_post(&doc("date: 2024-01-05\n", "Body.\n")).unwrap_err();
    assert_eq!(err.message, "missing field `title`");
}

#[test]
fn missing_date_is_an_error() {
    let err = build_blog_post(&doc("title: Hi\n", "Body.\n")).unwrap_err();
    assert_eq!(err.message, "missing field `date`");
}

#[test]
fn invalid_date_is_an_error() {
    let err = build_blog_post(&doc("title: Hi\ndate: 2024-13-01\n", "Body.\n")).unwrap_err();
    assert_eq!(err.message, "invalid `date`: expected a valid YYYY-MM-DD calendar date");
    let err = build_blog_post(&doc("title: Hi\ndate: 2023-02-29\n", "Body.\n")).unwrap_err();
    assert_eq!(err.message, "invalid `date`: expected a valid YYYY-MM-DD calendar date");
}

#[test]
fn wrongly_typed_fields_fail_the_document() {
    let err = build_blog_post(&doc("title: Hi\ndate: 2024-01-01\ntags: 5\n", "Body.\n"))
        .unwrap_err();
    assert_eq!(err.message, "invalid type for field `tags`");
    let err = build_blog_post(&doc(
        "title:\n  - not\n  - a string\ndate: 2024-01-01\n",
        "Body.\n",
    ))
    .unwrap_err();
    assert_eq!(err.message, "invalid type for field `title`");
    let err = build_blog_post(&doc(
        "title: Hi\ndate: 2024-01-01\nauthors: just one\n",
        "Body.\n",
    ))
    .unwrap_err();
    assert_eq!(err.message, "invalid type for field `authors`");
}

#[test]
fn leap_day_is_accepted() {
    let post = build_blog_post(&doc("title: Hi\ndate: 2024-02-29\n", "Body.\n")).unwrap();
    assert_eq!(post.metadata.date, Date { year: 2024, month: 2, day: 29 });
}

#[test]
fn unparsable_yaml_is_an_error() {
    let err = build_blog_post("---\ntitle: [unclosed\n---\n\nBody.\n").unwrap_err();
    assert_eq!(err.line, 10);
    assert_eq!(err.column, 20);
    assert!(!err.message.is_empty());
}

#[test]
fn reading_time_rounds_up_450_words() {
    let body = "word ".repeat(450);
    let post = build_blog_post(&doc("title: Hi\ndate: 2024-01-01\n", &body)).unwrap();
    assert_eq!(post.reading_time, 2);
}

#[test]
fn reading_time_counts_code_blocks() {
    let body = "one two three\n\n```\nfour five six seven\n```\n";
    let post = build_blog_post(&doc("title: Hi\ndate: 2024-01-01\n", body)).unwrap();
    // 7 words in all: one minute, rounded up.
    assert_eq!(post.reading_time, 1);
}

#[test]
fn description_truncates_to_25_words() {
    let words: Vec<String> = (1..=30).map(|i| format!("w{}", i)).collect();
    let body = format!("{}\n", words.join(" "));
    let post = build_blog_post(&doc("title: Hi\ndate: 2024-01-01\n", &body)).unwrap();
    let published = prepare_for_publish(post);
    let expected = format!("{}...", words[..25].join(" "));
    assert_eq!(published.description, expected);
}

#[test]
fn description_of_a_short_paragraph_has_no_trailing_space() {
    let post = build_blog_post(&doc("title: Hi\ndate: 2024-01-01\n", "hello world\n")).unwrap();
    let published = prepare_for_publish(post);
    assert_eq!(published.description, "hello world...");
}

#[test]
fn description_counts_whitespace_tokens_across_lines() {
    // A soft break splits the paragraph into two text nodes; the gathered
    // text still tokenizes into single words joined by single spaces.
    let post = build_blog_post(&doc("title: Hi\ndate: 2024-01-01\n", "a b\nc d\n")).unwrap();
    let published = prepare_for_publish(post);
    assert_eq!(published.description, "a b c d...");
}

#[test]
fn description_empty_without_paragraph() {
    let post = build_blog_post(&doc("title: Hi\ndate: 2024-01-01\n", "# Only a heading\n"))
        .unwrap();
    let published = prepare_for_publish(post);
    assert_eq!(published.description, "");
}

#[test]
fn explicit_description_wins() {
    let post = build_blog_post(&doc(
        "title: Hi\ndate: 2024-01-01\ndescription: Hand written.\n",
        "Some very different text.\n",
    ))
    .unwrap();
    let published = prepare_for_publish(post);
    assert_eq!(published.description, "Hand written.");
}

#[test]
fn image_is_rewritten_under_assets_root() {
    let body = "Look:\n\n![a photo](../img/photo.png)\n";
    let post = build_blog_post(&doc("title: Hi\ndate: 2024-01-01\n", body)).unwrap();
    let published = prepare_for_publish(post);
    assert_eq!(published.images.len(), 1);
    assert_eq!(published.images[0].original_path, "../img/photo.png");
    assert_eq!(published.images[0].final_path, "/img/photo.png");
    assert!(published.rendered_html.contains("/img/photo.png"));
    assert!(!published.rendered_html.contains("../img/photo.png"));
}

#[test]
fn toc_is_built_from_headings() {
    let body = "# Alpha One\n\ntext\n\n## Beta Two\n\nmore\n";
    let post = build_blog_post(&doc("title: Hi\ndate: 2024-01-01\n", body)).unwrap();
    assert_eq!(post.toc.entries.len(), 1);
    let root = &post.toc.entries[0];
    assert_eq!(root.level, 1);
    assert_eq!(root.title, "Alpha One");
    assert_eq!(root.anchor, "alpha-one");
    assert_eq!(root.children.len(), 1);
    assert_eq!(root.children[0].level, 2);
    assert_eq!(root.children[0].title, "Beta Two");
    assert_eq!(root.children[0].anchor, "beta-two");
}

#[test]
fn filename_from_title_or_slug() {
    let post = build_blog_post(&doc("title: Hello World!\ndate: 2024-01-01\n", "Body.\n"))
        .unwrap();
    let published = prepare_for_publish(post);
    assert_eq!(published.output_filename, "hello-world.html");

    let post = build_blog_post(&doc(
        "title: Hello World!\nslug: Custom Slug\ndate: 2024-01-01\n",
        "Body.\n",
    ))
    .unwrap();
    let published = prepare_for_publish(post);
    assert_eq!(published.output_filename, "custom-slug.html");
}

#[test]
fn filename_slug_collapses_punctuation() {
    let post = build_blog_post(&doc(
        "title: My Test String!!!1!1\ndate: 2024-01-01\n",
        "Body.\n",
    ))
    .unwrap();
    let published = prepare_for_publish(post);
    assert_eq!(published.output_filename, "my-test-string-1-1.html");
}

#[test]
fn empty_slug_falls_back_to_untitled() {
    let post = build_blog_post(&doc("title: \"!!!\"\ndate: 2024-01-01\n", "Body.\n")).unwrap();
    let published = prepare_for_publish(post);
    assert_eq!(published.output_filename, "untitled.html");
}

#[test]
fn rendered_html_keeps_body() {
    let post = build_blog_post(&doc("title: Hi\ndate: 2024-01-01\n", "Some *body* text.\n"))
        .unwrap();
    let published = prepare_for_publish(post);
    assert!(published.rendered_html.contains("<p>"));
    assert!(published.rendered_html.contains("<em>body</em>"));
}

#[test]
fn format_date_names_the_month() {
    let post = build_blog_post(&doc("title: Hi\ndate: 2024-03-10\n", "Body.\n")).unwrap();
    assert_eq!(post.metadata.format_date(), "March 10, 2024");
}
