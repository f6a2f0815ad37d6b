//! Compiling a document into a post, preparing posts for publishing, and
//! the publish ordering (date descending, ties kept in input order).

use vstd::prelude::*;
use vstd::multiset::Multiset;
use crate::assets::{final_image_path, rewrite_image_url};
use crate::date::Date;
use crate::document::{
    description_chars, doc_nodes, front_matter_text, gnodes, heading_items, heading_toc_nodes,
    image_urls, last_front_matter, node_views, reading_minutes, reading_time, total_words,
    build_description, GNode, MdKind, MdNode,
};
use crate::markdown::{events_of, parse_events, render_html, rendered_html_of, string_views};
use crate::metadata::{
    fields_err, fields_ok, matches_fields, metadata_wf, parse_metadata, strip_triple_dash,
    yaml_err_of, yaml_meta_of, BlogPostMetadata,
};
use crate::slugs::{slug_of, slugify};
use crate::text::{chars_to_string, push_str_chars, str_to_chars};
use crate::toc::{toc_forest, TableOfContents};

verus! {

/// Error that can happen when parsing a post and compiling it to HTML. The
/// line and column are fixed placeholders, not derived from the failure's
/// real location.
#[derive(Debug)]
pub struct CompilePostError {
    pub line: u32,
    pub column: u32,
    pub message: String,
}

/// A compiled document: its validated metadata, its source text, its
/// flattened parse tree, its outline and its reading time.
#[derive(Debug)]
pub struct BlogPost {
    pub metadata: BlogPostMetadata,
    pub raw_content: String,
    pub nodes: Vec<MdNode>,
    pub toc: TableOfContents,
    pub reading_time: u16,
}

/// A well-formed compiled post: the metadata is valid, the nodes are the
/// flattened parse of the source text, the outline and the reading time are
/// derived from those nodes.
pub open spec fn post_wf(p: BlogPost) -> bool {
    &&& metadata_wf(p.metadata)
    &&& node_views(p.nodes@) == gnodes(events_of(p.raw_content@))
    &&& p.toc@ == toc_forest(heading_toc_nodes(heading_items(node_views(p.nodes@))))
    &&& p.reading_time as nat == reading_minutes(total_words(node_views(p.nodes@)))
}

/// Compiles a document: parses it, extracts and validates the front-matter
/// metadata, and derives the outline and the reading time. A missing
/// front-matter block, unparsable YAML, or invalid fields fail with a
/// `CompilePostError`; no partial post is returned.
pub fn build_blog_post(content: &str) -> (r: Result<BlogPost, CompilePostError>)
    ensures
        ({
            let ns = gnodes(events_of(content@));
            match last_front_matter(ns) {
                None => r is Err && r->Err_0.message@
                    == "could not find frontmatter section in file"@,
                Some(fm) => {
                    let stripped = strip_triple_dash(fm);
                    match yaml_meta_of(stripped) {
                        None => r is Err && r->Err_0.message@ == yaml_err_of(stripped),
                        Some(f) => {
                            &&& (r is Ok <==> fields_ok(f))
                            &&& r is Err ==> r->Err_0.message@ == fields_err(f)
                            &&& r is Ok ==> matches_fields(r->Ok_0.metadata, f)
                        },
                    }
                },
            }
        }),
        r is Err ==> r->Err_0.line == 10 && r->Err_0.column == 20,
        r is Ok ==> post_wf(r->Ok_0) && r->Ok_0.raw_content@ == content@,
{
    let events = parse_events(content);
    let nodes = doc_nodes(events);
    let fm = match front_matter_text(&nodes) {
        Some(t) => t,
        None => {
            return Err(
                CompilePostError {
                    line: 10,
                    column: 20,
                    message: String::from_str("could not find frontmatter section in file"),
                },
            );
        },
    };
    let metadata = match parse_metadata(fm.as_str()) {
        Ok(m) => m,
        Err(message) => {
            return Err(CompilePostError { line: 10, column: 20, message });
        },
    };
    let toc = TableOfContents::from_ast(&nodes);
    let minutes = reading_time(&nodes);
    Ok(
        BlogPost {
            metadata,
            raw_content: content.to_owned(),
            nodes,
            toc,
            reading_time: minutes,
        },
    )
}

/// One image referenced by a post: the path as authored, and the published
/// site-relative path under the assets root.
#[derive(Debug)]
pub struct PostImage {
    pub original_path: String,
    pub final_path: String,
}

pub open spec fn image_views(s: Seq<PostImage>) -> Seq<(Seq<char>, Seq<char>)> {
    Seq::new(s.len(), |i: int| (s[i].original_path@, s[i].final_path@))
}

/// The manifest entries owed for a list of authored image URLs: each URL
/// with its published path.
pub open spec fn image_refs_of(urls: Seq<Seq<char>>) -> Seq<(Seq<char>, Seq<char>)> {
    Seq::new(urls.len(), |i: int| (urls[i], final_image_path(urls[i])))
}

/// Collects the asset manifest of a post: one entry per image node, in
/// pre-order, no deduplication of repeated references.
pub fn map_images(ns: &Vec<MdNode>) -> (r: Vec<PostImage>)
    ensures
        image_views(r@) == image_refs_of(image_urls(node_views(ns@))),
{
    let ghost nsv = node_views(ns@);
    let mut out: Vec<PostImage> = Vec::new();
    let mut i: usize = 0;
    proof {
        assert(nsv.skip(0) =~= nsv);
        assert(image_views(out@) =~= Seq::<(Seq<char>, Seq<char>)>::empty());
    }
    while i < ns.len()
        invariant
            0 <= i <= ns@.len(),
            nsv == node_views(ns@),
            image_refs_of(image_urls(nsv)) == image_views(out@) + image_refs_of(
                image_urls(nsv.skip(i as int)),
            ),
        decreases ns@.len() - i,
    {
        proof {
            assert(nsv.skip(i as int)[0] == crate::document::node_view(ns@[i as int]));
            assert(nsv.skip(i as int).drop_first() =~= nsv.skip(i + 1));
        }
        match &ns[i].kind {
            MdKind::Image(u) => {
                let ghost out_pre = image_views(out@);
                let img = PostImage {
                    original_path: u.clone(),
                    final_path: rewrite_image_url(u.as_str()),
                };
                let ghost gi = (img.original_path@, img.final_path@);
                out.push(img);
                proof {
                    let urls_pre = image_urls(nsv.skip(i as int));
                    let urls_next = image_urls(nsv.skip(i + 1));
                    assert(urls_pre == seq![u@] + urls_next);
                    assert(image_refs_of(urls_pre) =~= seq![gi] + image_refs_of(urls_next));
                    assert(image_views(out@) =~= out_pre + seq![gi]);
                    assert(out_pre + seq![gi] + image_refs_of(urls_next) =~= out_pre + (seq![gi]
                        + image_refs_of(urls_next)));
                }
            },
            _ => {},
        }
        i = i + 1;
    }
    proof {
        assert(image_urls(nsv.skip(nsv.len() as int)).len() == 0);
        assert(image_refs_of(image_urls(nsv.skip(nsv.len() as int))) =~= Seq::<
            (Seq<char>, Seq<char>),
        >::empty());
        assert(image_views(out@) + Seq::<(Seq<char>, Seq<char>)>::empty() =~= image_views(out@));
    }
    out
}

/// The published locations of a document's images, in pre-order: what the
/// renderer is given to substitute for the authored URLs before it renders.
pub open spec fn final_urls_of(ns: Seq<GNode>) -> Seq<Seq<char>> {
    Seq::new(image_urls(ns).len(), |i: int| final_image_path(image_urls(ns)[i]))
}

/// A post ready for writing: its compiled form plus the resolved output
/// file name, the resolved description, the rendered HTML, and the asset
/// manifest.
#[derive(Debug)]
pub struct PublishableBlogPost {
    pub post: BlogPost,
    pub output_filename: String,
    pub description: String,
    pub rendered_html: String,
    pub images: Vec<PostImage>,
}

/// The output file name a post resolves to: the slug of its explicit slug
/// if set, else of its title, with the `.html` extension. When the slug
/// comes out empty (a title with no letters or digits), the substitute name
/// `untitled` stands in, so every post gets a page. Two documents may still
/// resolve to the same name; the build does not detect the collision, and
/// the later write wins.
pub open spec fn filename_chars(m: BlogPostMetadata) -> Seq<char> {
    let s = match m.slug {
        Some(sl) => slug_of(sl@),
        None => slug_of(m.title@),
    };
    if s.len() == 0 {
        "untitled.html"@
    } else {
        s + ".html"@
    }
}

/// Prepares a compiled post for publishing: collects the asset manifest,
/// renders the HTML (with image URLs rewritten before the render reads the
/// tree), resolves the output file name from the slug or the title, and the
/// description from the metadata or the first paragraph.
pub fn prepare_for_publish(p: BlogPost) -> (r: PublishableBlogPost)
    ensures
        r.post == p,
        r.output_filename@ == filename_chars(p.metadata),
        r.description@ == (match p.metadata.description {
            Some(d) => d@,
            None => description_chars(node_views(p.nodes@)),
        }),
        r.rendered_html@ == rendered_html_of(
            p.raw_content@,
            final_urls_of(node_views(p.nodes@)),
        ),
        image_views(r.images@) == image_refs_of(image_urls(node_views(p.nodes@))),
{
    let ghost nsv = node_views(p.nodes@);
    let images = map_images(&p.nodes);
    // The published locations, computed by the verified manifest: they are
    // handed to the renderer, which substitutes them before it renders.
    let mut urls: Vec<String> = Vec::new();
    let mut i: usize = 0;
    proof {
        assert(image_views(images@).len() == image_refs_of(image_urls(nsv)).len());
        assert(image_urls(nsv).len() == images@.len());
        assert(string_views(urls@) =~= final_urls_of(nsv).take(0));
    }
    while i < images.len()
        invariant
            0 <= i <= images@.len(),
            nsv == node_views(p.nodes@),
            image_views(images@) == image_refs_of(image_urls(nsv)),
            image_urls(nsv).len() == images@.len(),
            final_urls_of(nsv).len() == images@.len(),
            string_views(urls@) == final_urls_of(nsv).take(i as int),
        decreases images@.len() - i,
    {
        let ghost urls_pre = string_views(urls@);
        urls.push(images[i].final_path.clone());
        proof {
            assert(image_views(images@)[i as int] == image_refs_of(image_urls(nsv))[i as int]);
            assert(image_refs_of(image_urls(nsv))[i as int].1 == final_image_path(
                image_urls(nsv)[i as int],
            ));
            assert(images@[i as int].final_path@ == final_image_path(image_urls(nsv)[i as int]));
            assert(final_urls_of(nsv)[i as int] == final_image_path(image_urls(nsv)[i as int]));
            assert(string_views(urls@) =~= urls_pre + seq![final_urls_of(nsv)[i as int]]);
            assert(final_urls_of(nsv).take(i as int) + seq![final_urls_of(nsv)[i as int]]
                =~= final_urls_of(nsv).take(i + 1));
        }
        i = i + 1;
    }
    proof {
        assert(final_urls_of(nsv).take(final_urls_of(nsv).len() as int) =~= final_urls_of(nsv));
        assert(string_views(urls@) == final_urls_of(nsv));
    }
    let rendered_html = render_html(p.raw_content.as_str(), &urls);
    let slug = match &p.metadata.slug {
        Some(s) => slugify(s.as_str()),
        None => slugify(p.metadata.title.as_str()),
    };
    let slug_chars = str_to_chars(slug.as_str());
    let output_filename = if slug_chars.len() == 0 {
        String::from_str("untitled.html")
    } else {
        let mut fc = slug_chars;
        push_str_chars(".html", &mut fc);
        chars_to_string(&fc)
    };
    let description = match &p.metadata.description {
        Some(d) => d.clone(),
        None => build_description(&p.nodes),
    };
    PublishableBlogPost { post: p, output_filename, description, rendered_html, images }
}

/// The date a publishable post is ordered by.
pub open spec fn post_date(p: PublishableBlogPost) -> Date {
    p.post.metadata.date
}

/// A publish list sorted by date descending.
pub open spec fn sorted_by_date_desc(s: Seq<PublishableBlogPost>) -> bool {
    forall|i: int, j: int|
        0 <= i < j < s.len() ==> post_date(#[trigger] s[j]).le_spec(post_date(#[trigger] s[i]))
}

/// Inserts `x` into the sorted list `s`: after every element on or after
/// `x`'s date (so an element already present with the same date stays
/// first), before the first strictly older one.
pub open spec fn insert_desc(s: Seq<PublishableBlogPost>, x: PublishableBlogPost) -> Seq<
    PublishableBlogPost,
>
    decreases s.len(),
{
    if s.len() == 0 {
        seq![x]
    } else if !post_date(x).le_spec(post_date(s[0])) {
        seq![x] + s
    } else {
        seq![s[0]] + insert_desc(s.drop_first(), x)
    }
}

pub open spec fn sort_desc_from(
    acc: Seq<PublishableBlogPost>,
    s: Seq<PublishableBlogPost>,
) -> Seq<PublishableBlogPost>
    decreases s.len(),
{
    if s.len() == 0 {
        acc
    } else {
        sort_desc_from(insert_desc(acc, s[0]), s.drop_first())
    }
}

/// The publish order of a list of posts: sorted by date descending, equal
/// dates kept in their input order.
pub open spec fn sort_by_date_desc_spec(s: Seq<PublishableBlogPost>) -> Seq<PublishableBlogPost> {
    sort_desc_from(Seq::empty(), s)
}

proof fn lemma_insert_desc_len(s: Seq<PublishableBlogPost>, x: PublishableBlogPost)
    ensures
        insert_desc(s, x).len() == s.len() + 1,
    decreases s.len(),
{
    if s.len() > 0 && post_date(x).le_spec(post_date(s[0])) {
        lemma_insert_desc_len(s.drop_first(), x);
    }
}

proof fn lemma_insert_desc_sorted(s: Seq<PublishableBlogPost>, x: PublishableBlogPost)
    requires
        sorted_by_date_desc(s),
    ensures
        sorted_by_date_desc(insert_desc(s, x)),
        insert_desc(s, x).to_multiset() == s.to_multiset().insert(x),
    decreases s.len(),
{
    broadcast use vstd::seq_lib::group_to_multiset_ensures;

    let r = insert_desc(s, x);
    lemma_insert_desc_len(s, x);
    if s.len() == 0 {
        assert(r =~= seq![x]);
        assert(seq![x].to_multiset() =~= Seq::<PublishableBlogPost>::empty().to_multiset().insert(
            x,
        )) by {
            assert(seq![x] =~= Seq::<PublishableBlogPost>::empty().push(x));
        }
    } else if !post_date(x).le_spec(post_date(s[0])) {
        assert(r == seq![x] + s);
        assert forall|i: int, j: int| 0 <= i < j < r.len() implies post_date(
            #[trigger] r[j],
        ).le_spec(post_date(#[trigger] r[i])) by {
            if i == 0 {
                crate::date::lemma_date_order_total(post_date(x), post_date(s[0]));
                if j >= 2 {
                    assert(post_date(s[j - 1]).le_spec(post_date(s[0])));
                }
                crate::date::lemma_date_order_transitive(
                    post_date(r[j]),
                    post_date(s[0]),
                    post_date(x),
                );
            } else {
                assert(r[i] == s[i - 1] && r[j] == s[j - 1]);
            }
        }
        assert((seq![x] + s).to_multiset() == s.to_multiset().insert(x)) by {
            assert(seq![x] + s =~= s.insert(0, x));
        }
    } else {
        let rest = s.drop_first();
        assert(sorted_by_date_desc(rest)) by {
            assert forall|i: int, j: int| 0 <= i < j < rest.len() implies post_date(
                #[trigger] rest[j],
            ).le_spec(post_date(#[trigger] rest[i])) by {
                assert(rest[i] == s[i + 1] && rest[j] == s[j + 1]);
            }
        }
        lemma_insert_desc_sorted(rest, x);
        let ri = insert_desc(rest, x);
        assert(r == seq![s[0]] + ri);
        assert forall|i: int, j: int| 0 <= i < j < r.len() implies post_date(
            #[trigger] r[j],
        ).le_spec(post_date(#[trigger] r[i])) by {
            if i > 0 {
                assert(r[i] == ri[i - 1] && r[j] == ri[j - 1]);
            } else {
                assert(r[j] == ri[j - 1]);
                // Every element of the insertion result is on or before
                // the head's date: it is either x or an element of rest.
                assert(ri.to_multiset() == rest.to_multiset().insert(x));
                assert(ri.to_multiset().contains(ri[j - 1]));
                if ri[j - 1] == x {
                    assert(post_date(r[j]).le_spec(post_date(s[0])));
                } else {
                    assert(rest.to_multiset().contains(ri[j - 1]));
                    let k = choose|k: int| 0 <= k < rest.len() && rest[k] == ri[j - 1];
                    assert(rest[k] == s[k + 1]);
                    assert(post_date(s[k + 1]).le_spec(post_date(s[0])));
                }
            }
        }
        assert(r.to_multiset() == s.to_multiset().insert(x)) by {
            assert(r =~= ri.insert(0, s[0]));
            assert(r.to_multiset() == ri.to_multiset().insert(s[0]));
            assert(s =~= rest.insert(0, s[0]));
            assert(s.to_multiset() == rest.to_multiset().insert(s[0]));
            assert(ri.to_multiset().insert(s[0]) =~= rest.to_multiset().insert(x).insert(s[0]));
            assert(rest.to_multiset().insert(x).insert(s[0]) =~= rest.to_multiset().insert(
                s[0],
            ).insert(x));
        }
    }
}

proof fn lemma_sort_desc_from(acc: Seq<PublishableBlogPost>, s: Seq<PublishableBlogPost>)
    requires
        sorted_by_date_desc(acc),
    ensures
        sorted_by_date_desc(sort_desc_from(acc, s)),
        sort_desc_from(acc, s).to_multiset() == acc.to_multiset().add(s.to_multiset()),
    decreases s.len(),
{
    broadcast use vstd::seq_lib::group_to_multiset_ensures;

    if s.len() == 0 {
        assert(s.to_multiset() =~= Multiset::<PublishableBlogPost>::empty());
        assert(acc.to_multiset().add(s.to_multiset()) =~= acc.to_multiset());
    } else {
        lemma_insert_desc_sorted(acc, s[0]);
        lemma_sort_desc_from(insert_desc(acc, s[0]), s.drop_first());
        assert(s =~= s.drop_first().insert(0, s[0]));
        assert(s.to_multiset() == s.drop_first().to_multiset().insert(s[0]));
        assert(insert_desc(acc, s[0]).to_multiset().add(s.drop_first().to_multiset())
            =~= acc.to_multiset().add(s.to_multiset()));
    }
}

/// The publish ordering is correct: the spec order is sorted by date
/// descending and is a permutation of its input.
pub proof fn lemma_publish_order(s: Seq<PublishableBlogPost>)
    ensures
        sorted_by_date_desc(sort_by_date_desc_spec(s)),
        sort_by_date_desc_spec(s).to_multiset() == s.to_multiset(),
{
    broadcast use vstd::seq_lib::group_to_multiset_ensures;

    lemma_sort_desc_from(Seq::empty(), s);
    assert(Seq::<PublishableBlogPost>::empty().to_multiset() =~= Multiset::<
        PublishableBlogPost,
    >::empty());
    assert(Multiset::<PublishableBlogPost>::empty().add(s.to_multiset()) =~= s.to_multiset());
}

proof fn lemma_insert_desc_split(s: Seq<PublishableBlogPost>, x: PublishableBlogPost, j: int)
    requires
        0 <= j <= s.len(),
        forall|i: int| 0 <= i < j ==> post_date(x).le_spec(post_date(#[trigger] s[i])),
        j < s.len() ==> !post_date(x).le_spec(post_date(s[j])),
    ensures
        insert_desc(s, x) == s.take(j) + seq![x] + s.skip(j),
    decreases j,
{
    if j == 0 {
        if s.len() == 0 {
            assert(insert_desc(s, x) =~= s.take(0) + seq![x] + s.skip(0));
        } else {
            assert(insert_desc(s, x) =~= s.take(0) + seq![x] + s.skip(0));
        }
    } else {
        let rest = s.drop_first();
        lemma_insert_desc_split(rest, x, j - 1);
        assert(insert_desc(s, x) == seq![s[0]] + insert_desc(rest, x));
        assert(seq![s[0]] + (rest.take(j - 1) + seq![x] + rest.skip(j - 1)) =~= s.take(j) + seq![x]
            + s.skip(j));
    }
}

/// Sorts the publish list by date descending; posts with equal dates keep
/// their input order.
pub fn sort_posts_by_date(posts: Vec<PublishableBlogPost>) -> (r: Vec<PublishableBlogPost>)
    ensures
        r@ == sort_by_date_desc_spec(posts@),
{
    let ghost p0 = posts@;
    let mut input = posts;
    let mut out: Vec<PublishableBlogPost> = Vec::new();
    proof {
        assert(out@ =~= Seq::<PublishableBlogPost>::empty());
    }
    while input.len() > 0
        invariant
            sort_by_date_desc_spec(p0) == sort_desc_from(out@, input@),
        decreases input@.len(),
    {
        let ghost in_pre = input@;
        let ghost out_pre = out@;
        let x = input.remove(0);
        let ghost gx = x;
        proof {
            assert(input@ =~= in_pre.drop_first());
            assert(gx == in_pre[0]);
        }
        let mut j: usize = 0;
        while j < out.len() && x.post.metadata.date.le(&out[j].post.metadata.date)
            invariant
                0 <= j <= out@.len(),
                out@ == out_pre,
                x == gx,
                forall|i: int|
                    0 <= i < j ==> post_date(gx).le_spec(post_date(#[trigger] out_pre[i])),
            decreases out@.len() - j,
        {
            j = j + 1;
        }
        proof {
            lemma_insert_desc_split(out_pre, gx, j as int);
        }
        out.insert(j, x);
        proof {
            assert(out@ =~= out_pre.take(j as int) + seq![gx] + out_pre.skip(j as int));
            assert(out@ == insert_desc(out_pre, gx));
            assert(sort_desc_from(out_pre, in_pre) == sort_desc_from(out@, input@));
        }
    }
    proof {
        assert(sort_desc_from(out@, input@) == out@);
    }
    out
}

} // verus!
