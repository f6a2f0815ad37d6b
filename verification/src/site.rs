//! Assembling the whole site: every source document compiled, the failures
//! collected, the survivors published in date order, and the output files
//! produced. The outcome is a function of the sources, the configuration
//! and the injected build time alone; building twice from the same inputs
//! gives byte-identical files.

use vstd::prelude::*;
use crate::blog::{
    build_blog_post, insert_desc, post_date, prepare_for_publish, sort_by_date_desc_spec,
    sort_desc_from, sort_posts_by_date, BlogPost, PublishableBlogPost,
};
use crate::config::BlogConfiguration;
use crate::date::{date_of_text, Date, Timestamp};
use crate::document::{
    description_chars, gnodes, heading_items, heading_toc_nodes, last_front_matter, node_views,
    reading_minutes, total_words, GNode,
};
use crate::feed::{build_feed, entry_matches, post_url_chars, Feed, FeedEntry};
use crate::markdown::{events_of, rendered_html_of};
use crate::metadata::{
    fields_err, fields_ok, matches_fields, metadata_wf, strip_triple_dash, yaml_err_of,
    yaml_meta_of, RawField, RawMetadata,
};
use crate::rendering::{
    all_tags, authors_line, entries_xml_chars, entry_xml_chars, escaped, feed_xml_chars,
    index_item_chars, index_items_chars, index_page_chars, page_foot, page_head, post_page_chars,
    render_feed, render_index, render_post_page, render_tags_page, stylesheet, stylesheet_chars,
    tag_items_chars, tags_page_chars, toc_html_chars,
};
use crate::slugs::slug_of;
use crate::text::dec_chars;
use crate::toc::{toc_forest, TocNode};

verus! {

/// One source document: where it was found, and its text.
#[derive(Debug)]
pub struct SiteSource {
    pub path: String,
    pub content: String,
}

/// One output file of the site: its path in the output directory, and its
/// full contents.
#[derive(Debug)]
pub struct SiteFile {
    pub path: String,
    pub content: String,
}

/// Error that can happen when building a post from a filepath; it carries
/// the file's path and text beside the compile error.
#[derive(Debug)]
pub struct BuildPostError {
    pub filepath: String,
    pub content: String,
    pub line: u32,
    pub column: u32,
    pub message: String,
}

/// Everything one build pass produces: the output files in order, and the
/// collected per-document failures.
#[derive(Debug)]
pub struct SiteOutput {
    pub files: Vec<SiteFile>,
    pub failures: Vec<BuildPostError>,
}

// What a document's text determines, spelled as functions of the text
// alone. These drive the site-level contract: every output byte is one of
// these, assembled.

pub open spec fn content_nodes(c: Seq<char>) -> Seq<GNode> {
    gnodes(events_of(c))
}

/// Whether the document compiles: a front-matter block exists, its YAML
/// parses, and its fields validate.
pub open spec fn compile_ok(c: Seq<char>) -> bool {
    match last_front_matter(content_nodes(c)) {
        None => false,
        Some(fm) => match yaml_meta_of(strip_triple_dash(fm)) {
            None => false,
            Some(f) => fields_ok(f),
        },
    }
}

/// The message reported when the document does not compile.
pub open spec fn compile_err_msg(c: Seq<char>) -> Seq<char> {
    match last_front_matter(content_nodes(c)) {
        None => "could not find frontmatter section in file"@,
        Some(fm) => match yaml_meta_of(strip_triple_dash(fm)) {
            None => yaml_err_of(strip_triple_dash(fm)),
            Some(f) => fields_err(f),
        },
    }
}

/// The raw front-matter fields of a compiling document.
pub open spec fn raw_of(c: Seq<char>) -> RawMetadata {
    yaml_meta_of(strip_triple_dash(last_front_matter(content_nodes(c))->0))->0
}

pub open spec fn title_of(c: Seq<char>) -> Seq<char> {
    raw_of(c).title->Given_0@
}

pub open spec fn date_of(c: Seq<char>) -> Date {
    date_of_text(raw_of(c).date->Given_0@)
}

pub open spec fn authors_of(c: Seq<char>) -> Option<Vec<String>> {
    match raw_of(c).authors {
        RawField::Given(a) => Some(a),
        _ => None,
    }
}

pub open spec fn slug_field_of(c: Seq<char>) -> Option<String> {
    match raw_of(c).slug {
        RawField::Given(sl) => Some(sl),
        _ => None,
    }
}

pub open spec fn description_field_of(c: Seq<char>) -> Option<String> {
    match raw_of(c).description {
        RawField::Given(d) => Some(d),
        _ => None,
    }
}

pub open spec fn tags_of(c: Seq<char>) -> Seq<String> {
    match raw_of(c).tags {
        RawField::Given(t) => t@,
        _ => Seq::empty(),
    }
}

pub open spec fn toc_flag_of(c: Seq<char>) -> bool {
    match raw_of(c).table_of_contents {
        RawField::Given(b) => b,
        _ => false,
    }
}

pub open spec fn toc_of(c: Seq<char>) -> Seq<TocNode> {
    toc_forest(heading_toc_nodes(heading_items(content_nodes(c))))
}

pub open spec fn minutes_of(c: Seq<char>) -> nat {
    reading_minutes(total_words(content_nodes(c)))
}

pub open spec fn desc_of(c: Seq<char>) -> Seq<char> {
    match description_field_of(c) {
        Some(d) => d@,
        None => description_chars(content_nodes(c)),
    }
}

pub open spec fn fname_of(c: Seq<char>) -> Seq<char> {
    let s = match slug_field_of(c) {
        Some(sl) => slug_of(sl@),
        None => slug_of(title_of(c)),
    };
    if s.len() == 0 {
        "untitled.html"@
    } else {
        s + ".html"@
    }
}

/// The published locations of the document's images, in pre-order.
pub open spec fn final_urls_of_content(c: Seq<char>) -> Seq<Seq<char>> {
    crate::blog::final_urls_of(content_nodes(c))
}

/// The document's rendered HTML: the render of its text with the images'
/// published locations substituted first.
pub open spec fn html_of(c: Seq<char>) -> Seq<char> {
    rendered_html_of(c, final_urls_of_content(c))
}

/// How a compiled post relates to the text it was compiled from: every
/// field the pages read is the corresponding function of the text.
pub open spec fn post_of_content(p: BlogPost, c: Seq<char>) -> bool {
    &&& compile_ok(c)
    &&& p.raw_content@ == c
    &&& metadata_wf(p.metadata)
    &&& p.metadata.title@ == title_of(c)
    &&& p.metadata.authors == authors_of(c)
    &&& p.metadata.slug == slug_field_of(c)
    &&& p.metadata.description == description_field_of(c)
    &&& p.metadata.date == date_of(c)
    &&& p.metadata.tags@ == tags_of(c)
    &&& p.metadata.table_of_contents == toc_flag_of(c)
    &&& p.toc@ == toc_of(c)
    &&& p.reading_time as nat == minutes_of(c)
    &&& node_views(p.nodes@) == content_nodes(c)
}

/// How a publishable post relates to the text it came from.
pub open spec fn pub_of_content(pb: PublishableBlogPost, c: Seq<char>) -> bool {
    &&& post_of_content(pb.post, c)
    &&& pb.output_filename@ == fname_of(c)
    &&& pb.description@ == desc_of(c)
    &&& pb.rendered_html@ == html_of(c)
}

pub open spec fn pubs_of_contents(pubs: Seq<PublishableBlogPost>, cs: Seq<Seq<char>>) -> bool {
    pubs.len() == cs.len() && forall|i: int|
        0 <= i < cs.len() ==> pub_of_content(#[trigger] pubs[i], cs[i])
}

// The pages, as functions of the texts.

/// A post's page, as a function of its source text.
pub open spec fn post_page_for(c: Seq<char>, cfg: BlogConfiguration) -> Seq<char> {
    page_head(title_of(c)) + "<h1>"@ + escaped(title_of(c)) + "</h1>\n<p>"@ + escaped(
        authors_line(authors_of(c), cfg.author@),
    ) + " | "@ + crate::date::human_date_chars(date_of(c)) + " | "@ + dec_chars(minutes_of(c))
        + " min read</p>\n"@ + (if toc_flag_of(c) {
        toc_html_chars(toc_of(c))
    } else {
        Seq::empty()
    }) + "<article>\n"@ + html_of(c) + "</article>\n"@ + crate::rendering::reload_tail_chars(
        cfg.is_dev_server,
    ) + page_foot()
}

pub proof fn lemma_post_page(pb: PublishableBlogPost, c: Seq<char>, cfg: BlogConfiguration)
    requires
        pub_of_content(pb, c),
    ensures
        post_page_chars(pb, cfg) == post_page_for(c, cfg),
{
}

/// One index line, as a function of the post's source text.
pub open spec fn index_item_for(c: Seq<char>, cfg: BlogConfiguration) -> Seq<char> {
    "<li><a href=\"/"@ + fname_of(c) + "\">"@ + escaped(title_of(c)) + "</a> | "@
        + crate::date::human_date_chars(date_of(c)) + " | "@ + escaped(desc_of(c)) + "</li>\n"@
}

pub open spec fn index_items_for(cs: Seq<Seq<char>>, cfg: BlogConfiguration) -> Seq<char>
    decreases cs.len(),
{
    if cs.len() == 0 {
        Seq::empty()
    } else {
        index_item_for(cs[0], cfg) + index_items_for(cs.drop_first(), cfg)
    }
}

/// The index page, as a function of the sorted source texts.
pub open spec fn index_page_for(cs: Seq<Seq<char>>, cfg: BlogConfiguration) -> Seq<char> {
    page_head(cfg.blog_title@) + "<h1>"@ + escaped(cfg.blog_title@) + "</h1>\n<ul>\n"@
        + index_items_for(cs, cfg) + "</ul>\n"@ + crate::rendering::reload_tail_chars(
        cfg.is_dev_server,
    ) + page_foot()
}

pub proof fn lemma_index_items(
    pubs: Seq<PublishableBlogPost>,
    cs: Seq<Seq<char>>,
    cfg: BlogConfiguration,
)
    requires
        pubs_of_contents(pubs, cs),
    ensures
        index_items_chars(pubs) == index_items_for(cs, cfg),
    decreases cs.len(),
{
    if cs.len() > 0 {
        assert(pub_of_content(pubs[0], cs[0]));
        assert(index_item_chars(pubs[0]) == index_item_for(cs[0], cfg));
        assert(pubs_of_contents(pubs.drop_first(), cs.drop_first())) by {
            assert forall|i: int| 0 <= i < cs.drop_first().len() implies pub_of_content(
                #[trigger] pubs.drop_first()[i],
                cs.drop_first()[i],
            ) by {
                assert(pubs.drop_first()[i] == pubs[i + 1]);
                assert(cs.drop_first()[i] == cs[i + 1]);
            }
        }
        lemma_index_items(pubs.drop_first(), cs.drop_first(), cfg);
    }
}

/// All tags of the compiling documents, in order.
pub open spec fn tags_cat(cs: Seq<Seq<char>>) -> Seq<String>
    decreases cs.len(),
{
    if cs.len() == 0 {
        Seq::empty()
    } else {
        tags_of(cs[0]) + tags_cat(cs.drop_first())
    }
}

/// The tag page, as a function of the compiling source texts in their
/// input order.
pub open spec fn tags_page_for(cs: Seq<Seq<char>>, cfg: BlogConfiguration) -> Seq<char> {
    page_head("Tags"@) + "<h1>Tags</h1>\n<ul>\n"@ + tag_items_chars(tags_cat(cs)) + "</ul>\n"@
        + crate::rendering::reload_tail_chars(cfg.is_dev_server) + page_foot()
}

pub proof fn lemma_all_tags(posts: Seq<BlogPost>, cs: Seq<Seq<char>>)
    requires
        posts.len() == cs.len(),
        forall|i: int| 0 <= i < cs.len() ==> post_of_content(#[trigger] posts[i], cs[i]),
    ensures
        all_tags(posts) == tags_cat(cs),
    decreases cs.len(),
{
    if cs.len() > 0 {
        assert(post_of_content(posts[0], cs[0]));
        assert forall|i: int| 0 <= i < cs.drop_first().len() implies post_of_content(
            #[trigger] posts.drop_first()[i],
            cs.drop_first()[i],
        ) by {
            assert(posts.drop_first()[i] == posts[i + 1]);
            assert(cs.drop_first()[i] == cs[i + 1]);
        }
        lemma_all_tags(posts.drop_first(), cs.drop_first());
    }
}

/// One feed entry, as a function of the post's source text.
pub open spec fn entry_xml_for(c: Seq<char>, cfg: BlogConfiguration) -> Seq<char> {
    "<entry>\n<title>"@ + escaped(title_of(c)) + "</title>\n<link href=\""@ + escaped(
        post_url_chars(cfg.base_url@, fname_of(c)),
    ) + "\"/>\n<id>"@ + escaped(post_url_chars(cfg.base_url@, fname_of(c))) + "</id>\n<updated>"@
        + crate::date::date_rfc3339_chars(date_of(c)) + "</updated>\n<author><name>"@ + escaped(
        cfg.author@,
    ) + "</name></author>\n<content type=\"html\">"@ + escaped(html_of(c)) + "</content>\n</entry>\n"@
}

pub open spec fn entries_xml_for(cs: Seq<Seq<char>>, cfg: BlogConfiguration) -> Seq<char>
    decreases cs.len(),
{
    if cs.len() == 0 {
        Seq::empty()
    } else {
        entry_xml_for(cs[0], cfg) + entries_xml_for(cs.drop_first(), cfg)
    }
}

/// The feed document, as a function of the sorted source texts, the
/// configuration, and the injected build time.
pub open spec fn feed_xml_for(cs: Seq<Seq<char>>, cfg: BlogConfiguration, now: Timestamp) -> Seq<
    char,
> {
    "<?xml version=\"1.0\" encoding=\"utf-8\"?>\n<feed xmlns=\"http://www.w3.org/2005/Atom\">\n<title>"@
        + escaped(cfg.blog_title@) + "</title>\n<link href=\""@ + escaped(cfg.base_url@)
        + "\"/>\n<updated>"@ + crate::date::rfc3339_chars(now) + "</updated>\n<author><name>"@
        + escaped(cfg.author@) + "</name></author>\n<id>"@ + escaped(cfg.base_url@) + "</id>\n"@
        + entries_xml_for(cs, cfg) + "</feed>\n"@
}

proof fn lemma_entries_xml(
    es: Seq<FeedEntry>,
    pubs: Seq<PublishableBlogPost>,
    cs: Seq<Seq<char>>,
    cfg: BlogConfiguration,
)
    requires
        es.len() == cs.len(),
        pubs.len() == cs.len(),
        forall|i: int| 0 <= i < cs.len() ==> entry_matches(#[trigger] es[i], pubs[i], cfg),
        pubs_of_contents(pubs, cs),
    ensures
        entries_xml_chars(es) == entries_xml_for(cs, cfg),
    decreases cs.len(),
{
    if cs.len() > 0 {
        assert(entry_matches(es[0], pubs[0], cfg));
        assert(pub_of_content(pubs[0], cs[0]));
        assert(entry_xml_chars(es[0]) == entry_xml_for(cs[0], cfg));
        assert forall|i: int| 0 <= i < cs.drop_first().len() implies entry_matches(
            #[trigger] es.drop_first()[i],
            pubs.drop_first()[i],
            cfg,
        ) by {
            assert(es.drop_first()[i] == es[i + 1]);
            assert(pubs.drop_first()[i] == pubs[i + 1]);
        }
        assert forall|i: int| 0 <= i < cs.drop_first().len() implies pub_of_content(
            #[trigger] pubs.drop_first()[i],
            cs.drop_first()[i],
        ) by {
            assert(pubs.drop_first()[i] == pubs[i + 1]);
            assert(cs.drop_first()[i] == cs[i + 1]);
        }
        lemma_entries_xml(es.drop_first(), pubs.drop_first(), cs.drop_first(), cfg);
    }
}

pub proof fn lemma_feed_xml(
    f: Feed,
    pubs: Seq<PublishableBlogPost>,
    cs: Seq<Seq<char>>,
    cfg: BlogConfiguration,
    now: Timestamp,
)
    requires
        f.title == cfg.blog_title,
        f.link == cfg.base_url,
        f.author == cfg.author,
        f.updated@ == crate::date::rfc3339_chars(now),
        f.entries@.len() == cs.len(),
        pubs.len() == cs.len(),
        forall|i: int| 0 <= i < cs.len() ==> entry_matches(#[trigger] f.entries@[i], pubs[i], cfg),
        pubs_of_contents(pubs, cs),
    ensures
        feed_xml_chars(f) == feed_xml_for(cs, cfg, now),
{
    lemma_entries_xml(f.entries@, pubs, cs, cfg);
}

// The publish order at the level of source texts.

pub open spec fn insert_desc_c(s: Seq<Seq<char>>, x: Seq<char>) -> Seq<Seq<char>>
    decreases s.len(),
{
    if s.len() == 0 {
        seq![x]
    } else if !date_of(x).le_spec(date_of(s[0])) {
        seq![x] + s
    } else {
        seq![s[0]] + insert_desc_c(s.drop_first(), x)
    }
}

pub open spec fn sort_desc_from_c(acc: Seq<Seq<char>>, s: Seq<Seq<char>>) -> Seq<Seq<char>>
    decreases s.len(),
{
    if s.len() == 0 {
        acc
    } else {
        sort_desc_from_c(insert_desc_c(acc, s[0]), s.drop_first())
    }
}

/// The publish order of the compiling source texts: date descending, ties
/// kept in input order.
pub open spec fn sort_c(s: Seq<Seq<char>>) -> Seq<Seq<char>> {
    sort_desc_from_c(Seq::empty(), s)
}

proof fn lemma_insert_parallel(
    sp: Seq<PublishableBlogPost>,
    sc: Seq<Seq<char>>,
    xp: PublishableBlogPost,
    xc: Seq<char>,
)
    requires
        pubs_of_contents(sp, sc),
        pub_of_content(xp, xc),
    ensures
        pubs_of_contents(insert_desc(sp, xp), insert_desc_c(sc, xc)),
    decreases sc.len(),
{
    let rp = insert_desc(sp, xp);
    let rc = insert_desc_c(sc, xc);
    if sc.len() == 0 {
        assert(rp =~= seq![xp]);
        assert(rc =~= seq![xc]);
        assert(pub_of_content(rp[0], rc[0]));
    } else {
        assert(pub_of_content(sp[0], sc[0]));
        assert(post_date(xp) == date_of(xc));
        assert(post_date(sp[0]) == date_of(sc[0]));
        if !post_date(xp).le_spec(post_date(sp[0])) {
            assert(rp == seq![xp] + sp);
            assert(rc == seq![xc] + sc);
            assert forall|i: int| 0 <= i < rc.len() implies pub_of_content(
                #[trigger] rp[i],
                rc[i],
            ) by {
                if i > 0 {
                    assert(rp[i] == sp[i - 1] && rc[i] == sc[i - 1]);
                }
            }
        } else {
            assert(pubs_of_contents(sp.drop_first(), sc.drop_first())) by {
                assert forall|i: int| 0 <= i < sc.drop_first().len() implies pub_of_content(
                    #[trigger] sp.drop_first()[i],
                    sc.drop_first()[i],
                ) by {
                    assert(sp.drop_first()[i] == sp[i + 1]);
                    assert(sc.drop_first()[i] == sc[i + 1]);
                }
            }
            lemma_insert_parallel(sp.drop_first(), sc.drop_first(), xp, xc);
            let ip = insert_desc(sp.drop_first(), xp);
            let ic = insert_desc_c(sc.drop_first(), xc);
            assert(rp == seq![sp[0]] + ip);
            assert(rc == seq![sc[0]] + ic);
            assert forall|i: int| 0 <= i < rc.len() implies pub_of_content(
                #[trigger] rp[i],
                rc[i],
            ) by {
                if i > 0 {
                    assert(rp[i] == ip[i - 1] && rc[i] == ic[i - 1]);
                }
            }
        }
    }
}

proof fn lemma_sort_parallel_from(
    ap: Seq<PublishableBlogPost>,
    ac: Seq<Seq<char>>,
    sp: Seq<PublishableBlogPost>,
    sc: Seq<Seq<char>>,
)
    requires
        pubs_of_contents(ap, ac),
        pubs_of_contents(sp, sc),
    ensures
        pubs_of_contents(sort_desc_from(ap, sp), sort_desc_from_c(ac, sc)),
    decreases sc.len(),
{
    if sc.len() > 0 {
        assert(pub_of_content(sp[0], sc[0]));
        lemma_insert_parallel(ap, ac, sp[0], sc[0]);
        assert(pubs_of_contents(sp.drop_first(), sc.drop_first())) by {
            assert forall|i: int| 0 <= i < sc.drop_first().len() implies pub_of_content(
                #[trigger] sp.drop_first()[i],
                sc.drop_first()[i],
            ) by {
                assert(sp.drop_first()[i] == sp[i + 1]);
                assert(sc.drop_first()[i] == sc[i + 1]);
            }
        }
        lemma_sort_parallel_from(insert_desc(ap, sp[0]), insert_desc_c(ac, sc[0]), sp.drop_first(), sc.drop_first());
    }
}

/// Publish-ordering the posts matches publish-ordering their source texts.
pub proof fn lemma_sort_parallel(sp: Seq<PublishableBlogPost>, sc: Seq<Seq<char>>)
    requires
        pubs_of_contents(sp, sc),
    ensures
        pubs_of_contents(sort_by_date_desc_spec(sp), sort_c(sc)),
{
    assert(pubs_of_contents(Seq::empty(), Seq::empty()));
    lemma_sort_parallel_from(Seq::empty(), Seq::empty(), sp, sc);
}

/// The texts of the sources that compile, in input order.
pub open spec fn ok_contents(sources: Seq<SiteSource>) -> Seq<Seq<char>>
    decreases sources.len(),
{
    if sources.len() == 0 {
        Seq::empty()
    } else if compile_ok(sources[0].content@) {
        seq![sources[0].content@] + ok_contents(sources.drop_first())
    } else {
        ok_contents(sources.drop_first())
    }
}

/// The failures owed for the sources that do not compile, in input order:
/// each with its path, its text and its message.
pub open spec fn expected_failures(sources: Seq<SiteSource>) -> Seq<
    (Seq<char>, Seq<char>, Seq<char>),
>
    decreases sources.len(),
{
    if sources.len() == 0 {
        Seq::empty()
    } else if compile_ok(sources[0].content@) {
        expected_failures(sources.drop_first())
    } else {
        seq![(sources[0].path@, sources[0].content@, compile_err_msg(sources[0].content@))]
            + expected_failures(sources.drop_first())
    }
}

pub open spec fn failure_views(fs: Seq<BuildPostError>) -> Seq<(Seq<char>, Seq<char>, Seq<char>)> {
    Seq::new(fs.len(), |i: int| (fs[i].filepath@, fs[i].content@, fs[i].message@))
}

pub open spec fn file_views(fs: Seq<SiteFile>) -> Seq<(Seq<char>, Seq<char>)> {
    Seq::new(fs.len(), |i: int| (fs[i].path@, fs[i].content@))
}

/// The per-post pages, in publish order: each post's file name with its
/// page.
pub open spec fn post_files_for(cs: Seq<Seq<char>>, cfg: BlogConfiguration) -> Seq<
    (Seq<char>, Seq<char>),
> {
    Seq::new(cs.len(), |i: int| (fname_of(cs[i]), post_page_for(cs[i], cfg)))
}

/// Every output file of one build pass, in order: the index, the tag
/// listing, one page per post in publish order, the feed when syndication
/// is on, and the stylesheet — each a function of the sources, the
/// configuration and the injected build time alone.
pub open spec fn site_files_spec(
    sources: Seq<SiteSource>,
    cfg: BlogConfiguration,
    now: Timestamp,
) -> Seq<(Seq<char>, Seq<char>)> {
    let cs = ok_contents(sources);
    let sorted = sort_c(cs);
    seq![
        ("index.html"@, index_page_for(sorted, cfg)),
        ("tags.html"@, tags_page_for(cs, cfg)),
    ] + post_files_for(sorted, cfg) + (if cfg.enable_rss {
        seq![("atom.xml"@, feed_xml_for(sorted, cfg, now))]
    } else {
        Seq::empty()
    }) + seq![("styles.css"@, stylesheet_chars())]
}

/// One build pass over the sources: compiles every document, collects the
/// failures, publishes the survivors in date order, and produces the
/// output files. The files are exactly `site_files_spec` of the inputs.
pub fn assemble_site(sources: &Vec<SiteSource>, config: &BlogConfiguration, now: &Timestamp) -> (r:
    SiteOutput)
    ensures
        file_views(r.files@) == site_files_spec(sources@, *config, *now),
        failure_views(r.failures@) == expected_failures(sources@),
        forall|i: int|
            0 <= i < r.failures@.len() ==> (#[trigger] r.failures@[i]).line == 10
                && r.failures@[i].column == 20,
{
    let ghost sv = sources@;
    let mut posts: Vec<BlogPost> = Vec::new();
    let mut failures: Vec<BuildPostError> = Vec::new();
    let ghost mut csg: Seq<Seq<char>> = Seq::empty();
    let mut i: usize = 0;
    proof {
        assert(sv.skip(0) =~= sv);
        assert(failure_views(failures@) =~= Seq::<(Seq<char>, Seq<char>, Seq<char>)>::empty());
        assert(Seq::<(Seq<char>, Seq<char>, Seq<char>)>::empty() + expected_failures(sv)
            =~= expected_failures(sv));
        assert(csg + ok_contents(sv) =~= ok_contents(sv));
    }
    while i < sources.len()
        invariant
            0 <= i <= sv.len(),
            sv == sources@,
            ok_contents(sv) == csg + ok_contents(sv.skip(i as int)),
            posts@.len() == csg.len(),
            forall|k: int| 0 <= k < csg.len() ==> post_of_content(#[trigger] posts@[k], csg[k]),
            expected_failures(sv) == failure_views(failures@) + expected_failures(
                sv.skip(i as int),
            ),
            forall|k: int|
                0 <= k < failures@.len() ==> (#[trigger] failures@[k]).line == 10
                    && failures@[k].column == 20,
        decreases sv.len() - i,
    {
        proof {
            assert(sv.skip(i as int)[0] == sv[i as int]);
            assert(sv.skip(i as int).drop_first() =~= sv.skip(i + 1));
        }
        let ghost c = sv[i as int].content@;
        match build_blog_post(sources[i].content.as_str()) {
            Ok(post) => {
                proof {
                    assert(compile_ok(c) && post_of_content(post, c)) by {
                        let ns = content_nodes(c);
                        let fm = last_front_matter(ns)->0;
                        let f = yaml_meta_of(strip_triple_dash(fm))->0;
                        assert(matches_fields(post.metadata, f));
                        assert(raw_of(c) == f);
                    }
                }
                let ghost posts_pre = posts@;
                posts.push(post);
                proof {
                    let ghost cs2 = csg + seq![c];
                    assert(ok_contents(sv.skip(i as int)) == seq![c] + ok_contents(sv.skip(i + 1)));
                    assert(csg + (seq![c] + ok_contents(sv.skip(i + 1))) =~= cs2 + ok_contents(
                        sv.skip(i + 1),
                    ));
                    assert forall|k: int| 0 <= k < cs2.len() implies post_of_content(
                        #[trigger] posts@[k],
                        cs2[k],
                    ) by {
                        if k < csg.len() {
                            assert(posts@[k] == posts_pre[k] && cs2[k] == csg[k]);
                        }
                    }
                    csg = cs2;
                    assert(expected_failures(sv.skip(i as int)) == expected_failures(
                        sv.skip(i + 1),
                    ));
                }
            },
            Err(e) => {
                proof {
                    assert(!compile_ok(c) && e.message@ == compile_err_msg(c) && e.line == 10
                        && e.column == 20);
                }
                let crate::blog::CompilePostError { line, column, message } = e;
                let ghost fail_pre = failure_views(failures@);
                failures.push(
                    BuildPostError {
                        filepath: sources[i].path.clone(),
                        content: sources[i].content.clone(),
                        line,
                        column,
                        message,
                    },
                );
                proof {
                    assert(failure_views(failures@) =~= fail_pre + seq![
                        (sv[i as int].path@, c, compile_err_msg(c)),
                    ]);
                    assert(expected_failures(sv.skip(i as int)) == seq![
                        (sv[i as int].path@, c, compile_err_msg(c)),
                    ] + expected_failures(sv.skip(i + 1)));
                    assert(fail_pre + (seq![(sv[i as int].path@, c, compile_err_msg(c))]
                        + expected_failures(sv.skip(i + 1))) =~= failure_views(failures@)
                        + expected_failures(sv.skip(i + 1)));
                    assert(ok_contents(sv.skip(i as int)) == ok_contents(sv.skip(i + 1)));
                }
            },
        }
        i = i + 1;
    }
    proof {
        assert(ok_contents(sv.skip(sv.len() as int)).len() == 0);
        assert(csg + ok_contents(sv.skip(sv.len() as int)) =~= csg);
        assert(ok_contents(sv) == csg);
        assert(expected_failures(sv.skip(sv.len() as int)).len() == 0);
        assert(failure_views(failures@) + expected_failures(sv.skip(sv.len() as int))
            =~= failure_views(failures@));
        assert(expected_failures(sv) == failure_views(failures@));
    }
    // The tag listing reads the compiled posts in their input order.
    let tags_html = render_tags_page(&posts, config);
    proof {
        lemma_all_tags(posts@, csg);
        assert(tags_page_chars(posts@, *config) == tags_page_for(csg, *config));
    }
    // Publish preparation consumes the posts, in order.
    let mut pubs: Vec<PublishableBlogPost> = Vec::new();
    let mut input = posts;
    proof {
        assert(pubs@ =~= Seq::<PublishableBlogPost>::empty());
    }
    while input.len() > 0
        invariant
            pubs@.len() + input@.len() == csg.len(),
            forall|k: int| 0 <= k < pubs@.len() ==> pub_of_content(#[trigger] pubs@[k], csg[k]),
            forall|k: int|
                0 <= k < input@.len() ==> post_of_content(
                    #[trigger] input@[k],
                    csg[pubs@.len() + k],
                ),
        decreases input@.len(),
    {
        let ghost in_pre = input@;
        let ghost np = pubs@.len() as int;
        let p = input.remove(0);
        proof {
            assert(input@ =~= in_pre.drop_first());
            assert(p == in_pre[0]);
            assert(post_of_content(p, csg[np]));
        }
        let ghost c = csg[np];
        let pb = prepare_for_publish(p);
        proof {
            assert(pub_of_content(pb, c)) by {
                assert(pb.output_filename@ == fname_of(c));
                assert(pb.description@ == desc_of(c));
                assert(pb.rendered_html@ == html_of(c));
            }
        }
        let ghost pubs_pre = pubs@;
        pubs.push(pb);
        proof {
            assert forall|k: int| 0 <= k < pubs@.len() implies pub_of_content(
                #[trigger] pubs@[k],
                csg[k],
            ) by {
                if k < pubs_pre.len() {
                    assert(pubs@[k] == pubs_pre[k]);
                }
            }
            assert forall|k: int| 0 <= k < input@.len() implies post_of_content(
                #[trigger] input@[k],
                csg[pubs@.len() + k],
            ) by {
                assert(input@[k] == in_pre[k + 1]);
            }
        }
    }
    proof {
        assert(pubs_of_contents(pubs@, csg));
    }
    // The publish order.
    let sorted = sort_posts_by_date(pubs);
    let ghost scs = sort_c(csg);
    proof {
        lemma_sort_parallel(pubs@, csg);
        assert(pubs_of_contents(sorted@, scs));
    }
    // The pages.
    let index_html = render_index(&sorted, config);
    proof {
        lemma_index_items(sorted@, scs, *config);
        assert(index_page_chars(sorted@, *config) == index_page_for(scs, *config));
    }
    let mut files: Vec<SiteFile> = Vec::new();
    files.push(SiteFile { path: String::from_str("index.html"), content: index_html });
    files.push(SiteFile { path: String::from_str("tags.html"), content: tags_html });
    let mut k: usize = 0;
    while k < sorted.len()
        invariant
            0 <= k <= sorted@.len(),
            pubs_of_contents(sorted@, scs),
            files@.len() == 2 + k,
            file_views(files@)[0] == ("index.html"@, index_page_for(scs, *config)),
            file_views(files@)[1] == ("tags.html"@, tags_page_for(csg, *config)),
            forall|m: int|
                0 <= m < k ==> file_views(files@)[2 + m] == (#[trigger] post_files_for(
                    scs,
                    *config,
                )[m]),
        decreases sorted@.len() - k,
    {
        proof {
            assert(pub_of_content(sorted@[k as int], scs[k as int]));
        }
        let page = render_post_page(&sorted[k], config);
        proof {
            lemma_post_page(sorted@[k as int], scs[k as int], *config);
        }
        let path = sorted[k].output_filename.clone();
        files.push(SiteFile { path, content: page });
        k = k + 1;
    }
    // The feed, when syndication is on.
    if config.enable_rss {
        let feed = build_feed(&sorted, config, now);
        proof {
            lemma_feed_xml(feed, sorted@, scs, *config, *now);
        }
        let xml = render_feed(&feed);
        files.push(SiteFile { path: String::from_str("atom.xml"), content: xml });
    }
    files.push(SiteFile { path: String::from_str("styles.css"), content: stylesheet() });
    proof {
        let spec_files = site_files_spec(sv, *config, *now);
        let n = scs.len() as int;
        assert(file_views(files@).len() == spec_files.len());
        assert forall|m: int| 0 <= m < spec_files.len() implies file_views(files@)[m]
            == spec_files[m] by {
            if m >= 2 && m < 2 + n {
                assert(spec_files[m] == post_files_for(scs, *config)[m - 2]);
            }
        }
        assert(file_views(files@) =~= spec_files);
    }
    SiteOutput { files, failures }
}

/// Building the same unchanged sources twice, with the same configuration
/// and the same injected time, produces byte-identical output files.
pub proof fn lemma_rebuild_identical(
    r1: SiteOutput,
    r2: SiteOutput,
    sources: Seq<SiteSource>,
    cfg: BlogConfiguration,
    now: Timestamp,
)
    requires
        file_views(r1.files@) == site_files_spec(sources, cfg, now),
        file_views(r2.files@) == site_files_spec(sources, cfg, now),
    ensures
        file_views(r1.files@) == file_views(r2.files@),
{
}

} // verus!
