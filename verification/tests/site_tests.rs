use pageturtle::blog::{build_blog_post, prepare_for_publish, sort_posts_by_date};
use pageturtle::config::{parse_config, BlogConfiguration};
use pageturtle::date::{Date, Timestamp};
use pageturtle::feed::build_feed;
use pageturtle::rendering::{render_feed, render_post_page, stylesheet};
use pageturtle::site::{assemble_site, SiteSource};

fn doc(front: &str, body: &str) -> String {
    format!("---\n{}---\n\n{}", front, body)
}

fn config() -> BlogConfiguration {
    parse_config(
        "blog_title = \"My Blog\"\nauthor = \"Sam\"\nbase_url = \"https://example.org\"\n",
    )
    .unwrap()
}

fn build_time() -> Timestamp {
    Timestamp { date: Date { year: 2024, month: 6, day: 1 }, hour: 12, minute: 30, second: 5 }
}

#[test]
fn config_defaults_and_errors() {
    let c = parse_config("blog_title = \"T\"\nauthor = \"A\"\n").unwrap();
    assert_eq!(c.blog_title, "T");
    assert_eq!(c.author, "A");
    assert_eq!(c.base_url, "");
    assert!(c.enable_rss);
    assert!(!c.is_dev_server);
    assert!(c.extra_links_start.is_empty());
    assert!(c.extra_links_end.is_empty());

    let e = parse_config("author = \"A\"\n").unwrap_err();
    assert_eq!(e, "missing field `blog_title`");
    let e = parse_config("blog_title = \"T\"\n").unwrap_err();
    assert_eq!(e, "missing field `author`");
    let e = parse_config("blog_title = \"T\"\nauthor = \"A\"\nenable_rss = \"yes\"\n")
        .unwrap_err();
    assert_eq!(e, "invalid type for field `enable_rss`");
    assert!(parse_config("not valid toml [[").is_err());
}

#[test]
fn config_reads_extra_links() {
    let c = parse_config(
        "blog_title = \"T\"\nauthor = \"A\"\n\n[[extra_links_start]]\nname = \"About\"\nhref = \"/about.html\"\n",
    )
    .unwrap();
    assert_eq!(c.extra_links_start.len(), 1);
    assert_eq!(c.extra_links_start[0].name, "About");
    assert_eq!(c.extra_links_start[0].href, "/about.html");
}

#[test]
fn publish_order_is_date_descending() {
    let contents = [
        doc("title: First\ndate: 2024-01-01\n", "a\n"),
        doc("title: Second\ndate: 2023-06-15\n", "b\n"),
        doc("title: Third\ndate: 2024-03-10\n", "c\n"),
    ];
    let mut pubs = Vec::new();
    for c in &contents {
        pubs.push(prepare_for_publish(build_blog_post(c).unwrap()));
    }
    let sorted = sort_posts_by_date(pubs);
    let dates: Vec<Date> = sorted.iter().map(|p| p.post.metadata.date).collect();
    assert_eq!(
        dates,
        vec![
            Date { year: 2024, month: 3, day: 10 },
            Date { year: 2024, month: 1, day: 1 },
            Date { year: 2023, month: 6, day: 15 },
        ]
    );
}

#[test]
fn publish_order_keeps_ties_stable() {
    let contents = [
        doc("title: A\ndate: 2024-01-01\n", "a\n"),
        doc("title: B\ndate: 2024-01-01\n", "b\n"),
        doc("title: C\ndate: 2024-02-02\n", "c\n"),
    ];
    let mut pubs = Vec::new();
    for c in &contents {
        pubs.push(prepare_for_publish(build_blog_post(c).unwrap()));
    }
    let sorted = sort_posts_by_date(pubs);
    let titles: Vec<&str> = sorted.iter().map(|p| p.post.metadata.title.as_str()).collect();
    assert_eq!(titles, vec!["C", "A", "B"]);
}

#[test]
fn feed_timestamps_pad_the_year() {
    let post = prepare_for_publish(
        build_blog_post(&doc("title: Old\ndate: 0900-03-10\n", "Body.\n")).unwrap(),
    );
    let posts = vec![post];
    let cfg = config();
    let feed = build_feed(&posts, &cfg, &build_time());
    assert_eq!(feed.entries[0].updated, "0900-03-10T00:00:00+00:00");
}

#[test]
fn feed_entries_point_at_the_posts() {
    let post = prepare_for_publish(
        build_blog_post(&doc("title: Hello\ndate: 2024-03-10\n", "Body.\n")).unwrap(),
    );
    let posts = vec![post];
    let cfg = config();
    let feed = build_feed(&posts, &cfg, &build_time());
    assert_eq!(feed.title, "My Blog");
    assert_eq!(feed.author, "Sam");
    assert_eq!(feed.link, "https://example.org");
    assert_eq!(feed.updated, "2024-06-01T12:30:05+00:00");
    assert_eq!(feed.entries.len(), 1);
    let e = &feed.entries[0];
    assert_eq!(e.id, "https://example.org/hello.html");
    assert_eq!(e.link, "https://example.org/hello.html");
    assert_eq!(e.title, "Hello");
    assert_eq!(e.author, "Sam");
    // The time of day of an entry is always zeroed.
    assert_eq!(e.updated, "2024-03-10T00:00:00+00:00");
    let xml = render_feed(&feed);
    assert!(xml.contains("<title>My Blog</title>"));
    assert!(xml.contains("<updated>2024-06-01T12:30:05+00:00</updated>"));
}

#[test]
fn post_page_shows_title_date_and_reading_time() {
    let post = prepare_for_publish(
        build_blog_post(&doc(
            "title: Hello <World>\ndate: 2024-03-10\ntable_of_contents: true\n",
            "# Top\n\nSome text.\n",
        ))
        .unwrap(),
    );
    let page = render_post_page(&post, &config());
    assert!(page.contains("<h1>Hello &lt;World&gt;</h1>"));
    assert!(page.contains("March 10, 2024"));
    assert!(page.contains("1 min read"));
    assert!(page.contains("<a href=\"#top\">Top</a>"));
}

#[test]
fn dev_server_pages_carry_the_reload_client() {
    let post = prepare_for_publish(
        build_blog_post(&doc("title: Hello\ndate: 2024-03-10\n", "Body.\n")).unwrap(),
    );
    let mut cfg = config();
    assert!(!render_post_page(&post, &cfg).contains("/ws"));
    cfg.is_dev_server = true;
    assert!(render_post_page(&post, &cfg).contains("new WebSocket"));
}

#[test]
fn assemble_site_writes_the_expected_files() {
    let sources = vec![
        SiteSource {
            path: "posts/a.md".to_string(),
            content: doc("title: Alpha\ndate: 2024-01-01\n", "A body.\n"),
        },
        SiteSource {
            path: "posts/broken.md".to_string(),
            content: "no front matter at all\n".to_string(),
        },
        SiteSource {
            path: "posts/b.md".to_string(),
            content: doc("title: Beta\ndate: 2024-03-10\n", "B body.\n"),
        },
    ];
    let cfg = config();
    let out = assemble_site(&sources, &cfg, &build_time());

    let paths: Vec<&str> = out.files.iter().map(|f| f.path.as_str()).collect();
    assert_eq!(
        paths,
        vec!["index.html", "tags.html", "beta.html", "alpha.html", "atom.xml", "styles.css"]
    );
    assert_eq!(out.failures.len(), 1);
    assert_eq!(out.failures[0].filepath, "posts/broken.md");
    assert_eq!(out.failures[0].message, "could not find frontmatter section in file");
    assert_eq!(out.failures[0].line, 10);
    assert_eq!(out.failures[0].column, 20);
    assert_eq!(out.files[5].content, stylesheet());
    assert!(out.files[0].content.contains("Beta"));
    assert!(out.files[0].content.contains("Alpha"));
}

#[test]
fn assemble_site_skips_the_feed_without_rss() {
    let c = parse_config("blog_title = \"T\"\nauthor = \"A\"\nenable_rss = false\n").unwrap();
    let sources = vec![SiteSource {
        path: "p.md".to_string(),
        content: doc("title: One\ndate: 2024-01-01\n", "x\n"),
    }];
    let out = assemble_site(&sources, &c, &build_time());
    let paths: Vec<&str> = out.files.iter().map(|f| f.path.as_str()).collect();
    assert_eq!(paths, vec!["index.html", "tags.html", "one.html", "styles.css"]);
}

#[test]
fn rebuilding_unchanged_sources_is_byte_identical() {
    let sources = vec![
        SiteSource {
            path: "a.md".to_string(),
            content: doc("title: Alpha\ndate: 2024-01-01\ntags:\n  - t1\n", "A body.\n"),
        },
        SiteSource {
            path: "b.md".to_string(),
            content: doc("title: Beta\ndate: 2024-03-10\n", "![p](x/p.png)\n"),
        },
    ];
    let cfg = config();
    let now = build_time();
    let first = assemble_site(&sources, &cfg, &now);
    let second = assemble_site(&sources, &cfg, &now);
    assert_eq!(first.files.len(), second.files.len());
    for (f, s) in first.files.iter().zip(second.files.iter()) {
        assert_eq!(f.path, s.path);
        assert_eq!(f.content, s.content);
    }
}

#[test]
fn tags_page_lists_tags_of_all_posts() {
    let sources = vec![
        SiteSource {
            path: "a.md".to_string(),
            content: doc("title: A\ndate: 2024-01-01\ntags:\n  - alpha\n  - beta\n", "x\n"),
        },
        SiteSource {
            path: "b.md".to_string(),
            content: doc("title: B\ndate: 2024-01-02\ntags:\n  - gamma\n", "y\n"),
        },
    ];
    let out = assemble_site(&sources, &config(), &build_time());
    let tags_page = &out.files[1];
    assert_eq!(tags_page.path, "tags.html");
    assert!(tags_page.content.contains("<li>alpha</li>"));
    assert!(tags_page.content.contains("<li>beta</li>"));
    assert!(tags_page.content.contains("<li>gamma</li>"));
}
