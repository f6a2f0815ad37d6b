//! The site's pages and the feed document, built as plain text: HTML
//! escaping, the nested outline list, the post page, the index, the tag
//! listing, the stylesheet and the feed.

use vstd::prelude::*;
use crate::blog::{BlogPost, PublishableBlogPost};
use crate::config::BlogConfiguration;
use crate::date::{human_date_chars, push_human_date};
use crate::feed::{Feed, FeedEntry};
use crate::metadata::metadata_wf;
use crate::text::{chars_to_string, dec_chars, push_chars, push_decimal, push_str_chars, str_to_chars};
use crate::toc::{entry_view, entry_views, TableOfContentsEntry, TocNode};

verus! {

broadcast use vstd::std_specs::vec::axiom_vec_index_decreases;

/// How one character is written in escaped HTML text.
pub open spec fn escape_char(c: char) -> Seq<char> {
    if c == '&' {
        "&amp;"@
    } else if c == '<' {
        "&lt;"@
    } else if c == '>' {
        "&gt;"@
    } else if c == '"' {
        "&quot;"@
    } else if c == '\'' {
        "&#x27;"@
    } else {
        seq![c]
    }
}

/// The text with every markup-significant character escaped.
pub open spec fn escaped(s: Seq<char>) -> Seq<char>
    decreases s.len(),
{
    if s.len() == 0 {
        Seq::empty()
    } else {
        escape_char(s[0]) + escaped(s.drop_first())
    }
}

/// Escapes the markup-significant characters of a text.
fn escape_chars(s: &Vec<char>) -> (r: Vec<char>)
    ensures
        r@ == escaped(s@),
{
    let ghost sv = s@;
    let mut out: Vec<char> = Vec::new();
    let mut i: usize = 0;
    proof {
        assert(sv.skip(0) =~= sv);
    }
    while i < s.len()
        invariant
            0 <= i <= sv.len(),
            sv == s@,
            escaped(sv) == out@ + escaped(sv.skip(i as int)),
        decreases sv.len() - i,
    {
        proof {
            assert(sv.skip(i as int)[0] == sv[i as int]);
            assert(sv.skip(i as int).drop_first() =~= sv.skip(i + 1));
        }
        let ghost out_pre = out@;
        let c = s[i];
        if c == '&' {
            push_str_chars("&amp;", &mut out);
        } else if c == '<' {
            push_str_chars("&lt;", &mut out);
        } else if c == '>' {
            push_str_chars("&gt;", &mut out);
        } else if c == '"' {
            push_str_chars("&quot;", &mut out);
        } else if c == '\'' {
            push_str_chars("&#x27;", &mut out);
        } else {
            out.push(c);
            proof {
                assert(out@ =~= out_pre + seq![sv[i as int]]);
            }
        }
        proof {
            assert(out@ == out_pre + escape_char(sv[i as int]));
            assert(out_pre + escape_char(sv[i as int]) + escaped(sv.skip(i + 1)) =~= out_pre + (
            escape_char(sv[i as int]) + escaped(sv.skip(i + 1))));
        }
        i = i + 1;
    }
    proof {
        assert(escaped(sv.skip(sv.len() as int)) =~= Seq::<char>::empty());
        assert(out@ + Seq::<char>::empty() =~= out@);
    }
    out
}

/// Appends the escaped form of the string `s`.
fn push_escaped(s: &str, out: &mut Vec<char>)
    ensures
        final(out)@ == old(out)@ + escaped(s@),
{
    let cs = str_to_chars(s);
    let e = escape_chars(&cs);
    push_chars(&e, out);
}

/// A list of names joined by a comma and a space.
pub open spec fn join_comma(xs: Seq<String>) -> Seq<char>
    decreases xs.len(),
{
    if xs.len() == 0 {
        Seq::empty()
    } else {
        xs[0]@ + join_rest(xs.drop_first())
    }
}

pub open spec fn join_rest(xs: Seq<String>) -> Seq<char>
    decreases xs.len(),
{
    if xs.len() == 0 {
        Seq::empty()
    } else {
        ", "@ + xs[0]@ + join_rest(xs.drop_first())
    }
}

/// The names joined by a comma and a space.
fn joined_chars(xs: &Vec<String>) -> (r: Vec<char>)
    ensures
        r@ == join_comma(xs@),
{
    let ghost xv = xs@;
    let mut out: Vec<char> = Vec::new();
    if xs.len() == 0 {
        proof {
            assert(join_comma(xv) =~= Seq::<char>::empty());
        }
        return out;
    }
    push_str_chars(xs[0].as_str(), &mut out);
    let mut i: usize = 1;
    proof {
        assert(xv.drop_first() =~= xv.skip(1));
        assert(join_comma(xv) == out@ + join_rest(xv.skip(1)));
    }
    while i < xs.len()
        invariant
            1 <= i <= xv.len(),
            xv == xs@,
            join_comma(xv) == out@ + join_rest(xv.skip(i as int)),
        decreases xv.len() - i,
    {
        proof {
            assert(xv.skip(i as int)[0] == xv[i as int]);
            assert(xv.skip(i as int).drop_first() =~= xv.skip(i + 1));
        }
        let ghost out_pre = out@;
        push_str_chars(", ", &mut out);
        push_str_chars(xs[i].as_str(), &mut out);
        proof {
            assert(out@ =~= out_pre + (", "@ + xv[i as int]@));
            assert(out_pre + (", "@ + xv[i as int]@) + join_rest(xv.skip(i + 1)) =~= out_pre + (", "@
                + xv[i as int]@ + join_rest(xv.skip(i + 1))));
        }
        i = i + 1;
    }
    proof {
        assert(join_rest(xv.skip(xv.len() as int)) =~= Seq::<char>::empty());
        assert(out@ + Seq::<char>::empty() =~= out@);
    }
    out
}

/// The author line of a post: its authors joined, or the site author when
/// none are set.
pub open spec fn authors_line(authors: Option<Vec<String>>, site_author: Seq<char>) -> Seq<char> {
    match authors {
        Some(v) => join_comma(v@),
        None => site_author,
    }
}

/// The opening of every page, up to the body tag, with the escaped title.
pub open spec fn page_head(title: Seq<char>) -> Seq<char> {
    "<!DOCTYPE html>\n<html>\n<head>\n<meta charset=\"utf-8\">\n<title>"@ + escaped(title)
        + "</title>\n<link rel=\"stylesheet\" href=\"/styles.css\">\n</head>\n<body>\n"@
}

pub open spec fn page_foot() -> Seq<char> {
    "</body>\n</html>\n"@
}

/// The live-reload client: a page of the development server opens a
/// session and reloads on every change signal. Production pages carry
/// nothing.
pub open spec fn reload_tail_chars(dev: bool) -> Seq<char> {
    if dev {
        "<script>new WebSocket(\"ws://\" + location.host + \"/ws\", \"handshake\").onmessage = function () { location.reload(); };</script>\n"@
    } else {
        Seq::empty()
    }
}

fn push_reload_tail(dev: bool, out: &mut Vec<char>)
    ensures
        final(out)@ == old(out)@ + reload_tail_chars(dev),
{
    if dev {
        push_str_chars(
            "<script>new WebSocket(\"ws://\" + location.host + \"/ws\", \"handshake\").onmessage = function () { location.reload(); };</script>\n",
            out,
        );
    } else {
        proof {
            assert(old(out)@ + reload_tail_chars(dev) =~= old(out)@);
        }
    }
}

fn push_page_head(title: &str, out: &mut Vec<char>)
    ensures
        final(out)@ == old(out)@ + page_head(title@),
{
    push_str_chars("<!DOCTYPE html>\n<html>\n<head>\n<meta charset=\"utf-8\">\n<title>", out);
    push_escaped(title, out);
    push_str_chars("</title>\n<link rel=\"stylesheet\" href=\"/styles.css\">\n</head>\n<body>\n", out);
    proof {
        assert(old(out)@ + "<!DOCTYPE html>\n<html>\n<head>\n<meta charset=\"utf-8\">\n<title>"@
            + escaped(title@)
            + "</title>\n<link rel=\"stylesheet\" href=\"/styles.css\">\n</head>\n<body>\n"@ == old(
            out,
        )@ + page_head(title@));
    }
}

/// One outline entry as a list item: the anchor link, then the children as
/// a nested list when there are any.
pub open spec fn toc_entry_chars(e: TocNode) -> Seq<char>
    decreases e, 0int,
{
    "<li><a href=\"#"@ + escaped(e.anchor) + "\">"@ + escaped(e.title) + "</a>"@ + toc_children_chars(
        e.children,
    ) + "</li>\n"@
}

pub open spec fn toc_children_chars(es: Seq<TocNode>) -> Seq<char>
    decreases es, 1int,
{
    if es.len() == 0 {
        Seq::empty()
    } else {
        "<ul>\n"@ + toc_items_chars(es) + "</ul>\n"@
    }
}

pub open spec fn toc_items_chars(es: Seq<TocNode>) -> Seq<char>
    decreases es, 0int,
{
    if es.len() == 0 {
        Seq::empty()
    } else {
        toc_entry_chars(es[0]) + toc_items_chars(es.drop_first())
    }
}

/// The outline as markup: a nav holding the nested lists; empty when the
/// outline is empty.
pub open spec fn toc_html_chars(entries: Seq<TocNode>) -> Seq<char> {
    if entries.len() == 0 {
        Seq::empty()
    } else {
        "<nav>\n"@ + toc_children_chars(entries) + "</nav>\n"@
    }
}

fn push_toc_entry(e: &TableOfContentsEntry, out: &mut Vec<char>)
    ensures
        final(out)@ == old(out)@ + toc_entry_chars(entry_view(*e)),
    decreases *e,
{
    let ghost ev = entry_view(*e);
    push_str_chars("<li><a href=\"#", out);
    push_escaped(e.anchor.as_str(), out);
    push_str_chars("\">", out);
    push_escaped(e.title.as_str(), out);
    push_str_chars("</a>", out);
    let ghost cv = ev.children;
    proof {
        assert(cv =~= entry_views(e.children@));
    }
    if e.children.len() > 0 {
        push_str_chars("<ul>\n", out);
        let ghost mid = out@;
        let mut j: usize = 0;
        proof {
            assert(cv.skip(0) =~= cv);
        }
        while j < e.children.len()
            invariant
                0 <= j <= e.children@.len(),
                cv == entry_views(e.children@),
                cv.len() == e.children@.len(),
                out@ + toc_items_chars(cv.skip(j as int)) == mid + toc_items_chars(cv),
            decreases e.children@.len() - j,
        {
            proof {
                assert(cv.skip(j as int)[0] == entry_view(e.children@[j as int]));
                assert(cv.skip(j as int).drop_first() =~= cv.skip(j + 1));
            }
            let ghost out_pre = out@;
            push_toc_entry(&e.children[j], out);
            proof {
                assert(out@ + toc_items_chars(cv.skip(j + 1)) =~= out_pre + (toc_entry_chars(
                    cv.skip(j as int)[0],
                ) + toc_items_chars(cv.skip(j + 1))));
                assert(out_pre + toc_items_chars(cv.skip(j as int)) =~= out_pre + (toc_entry_chars(
                    cv.skip(j as int)[0],
                ) + toc_items_chars(cv.skip(j + 1))));
            }
            j = j + 1;
        }
        proof {
            assert(toc_items_chars(cv.skip(cv.len() as int)) =~= Seq::<char>::empty());
            assert(out@ + Seq::<char>::empty() =~= out@);
            assert(out@ == mid + toc_items_chars(cv));
        }
        push_str_chars("</ul>\n", out);
        proof {
            assert(toc_children_chars(cv) == "<ul>\n"@ + toc_items_chars(cv) + "</ul>\n"@);
        }
    } else {
        proof {
            assert(toc_children_chars(cv) =~= Seq::<char>::empty());
        }
    }
    push_str_chars("</li>\n", out);
    proof {
        assert(final(out)@ == old(out)@ + toc_entry_chars(ev)) by {
            assert(old(out)@ + "<li><a href=\"#"@ + escaped(ev.anchor) + "\">"@ + escaped(ev.title)
                + "</a>"@ + toc_children_chars(ev.children) + "</li>\n"@ == old(out)@
                + toc_entry_chars(ev));
        }
    }
}

/// Writes the outline of a post as nested lists inside a nav element.
pub fn toc_html(entries: &Vec<TableOfContentsEntry>) -> (r: String)
    ensures
        r@ == toc_html_chars(entry_views(entries@)),
{
    let ghost cv = entry_views(entries@);
    let mut out: Vec<char> = Vec::new();
    if entries.len() == 0 {
        proof {
            assert(toc_html_chars(cv) =~= Seq::<char>::empty());
        }
        return chars_to_string(&out);
    }
    push_str_chars("<nav>\n", &mut out);
    push_str_chars("<ul>\n", &mut out);
    let ghost mid = out@;
    let mut j: usize = 0;
    proof {
        assert(cv.skip(0) =~= cv);
    }
    while j < entries.len()
        invariant
            0 <= j <= entries@.len(),
            cv == entry_views(entries@),
            cv.len() == entries@.len(),
            out@ + toc_items_chars(cv.skip(j as int)) == mid + toc_items_chars(cv),
        decreases entries@.len() - j,
    {
        proof {
            assert(cv.skip(j as int)[0] == entry_view(entries@[j as int]));
            assert(cv.skip(j as int).drop_first() =~= cv.skip(j + 1));
        }
        let ghost out_pre = out@;
        push_toc_entry(&entries[j], &mut out);
        proof {
            assert(out@ + toc_items_chars(cv.skip(j + 1)) =~= out_pre + (toc_entry_chars(
                cv.skip(j as int)[0],
            ) + toc_items_chars(cv.skip(j + 1))));
            assert(out_pre + toc_items_chars(cv.skip(j as int)) =~= out_pre + (toc_entry_chars(
                cv.skip(j as int)[0],
            ) + toc_items_chars(cv.skip(j + 1))));
        }
        j = j + 1;
    }
    proof {
        assert(toc_items_chars(cv.skip(cv.len() as int)) =~= Seq::<char>::empty());
        assert(out@ + Seq::<char>::empty() =~= out@);
    }
    push_str_chars("</ul>\n", &mut out);
    push_str_chars("</nav>\n", &mut out);
    proof {
        assert(out@ =~= "<nav>\n"@ + ("<ul>\n"@ + toc_items_chars(cv) + "</ul>\n"@) + "</nav>\n"@);
        assert(toc_children_chars(cv) == "<ul>\n"@ + toc_items_chars(cv) + "</ul>\n"@);
    }
    chars_to_string(&out)
}

/// The site's stylesheet.
pub open spec fn stylesheet_chars() -> Seq<char> {
    "body{max-width:65ch;margin:2rem auto;padding:0 1rem;font-family:sans-serif;line-height:1.6}\nnav ul{list-style:none}\nimg{max-width:100%}\npre{overflow-x:auto}\n"@
}

/// The stylesheet written beside the pages.
pub fn stylesheet() -> (r: String)
    ensures
        r@ == stylesheet_chars(),
{
    String::from_str(
        "body{max-width:65ch;margin:2rem auto;padding:0 1rem;font-family:sans-serif;line-height:1.6}\nnav ul{list-style:none}\nimg{max-width:100%}\npre{overflow-x:auto}\n",
    )
}

/// A post's page: the escaped title, the author line, the date, the
/// reading time, the outline when the post asks for one, and the rendered
/// body as-is.
pub open spec fn post_page_chars(p: PublishableBlogPost, c: BlogConfiguration) -> Seq<char> {
    page_head(p.post.metadata.title@) + "<h1>"@ + escaped(p.post.metadata.title@) + "</h1>\n<p>"@
        + escaped(authors_line(p.post.metadata.authors, c.author@)) + " | "@ + human_date_chars(
        p.post.metadata.date,
    ) + " | "@ + dec_chars(p.post.reading_time as nat) + " min read</p>\n"@ + (if p.post.metadata.table_of_contents {
        toc_html_chars(p.post.toc@)
    } else {
        Seq::empty()
    }) + "<article>\n"@ + p.rendered_html@ + "</article>\n"@ + reload_tail_chars(c.is_dev_server)
        + page_foot()
}

/// Renders a post's page.
pub fn render_post_page(post: &PublishableBlogPost, config: &BlogConfiguration) -> (r: String)
    requires
        metadata_wf(post.post.metadata),
    ensures
        r@ == post_page_chars(*post, *config),
{
    let mut out: Vec<char> = Vec::new();
    push_page_head(post.post.metadata.title.as_str(), &mut out);
    push_str_chars("<h1>", &mut out);
    push_escaped(post.post.metadata.title.as_str(), &mut out);
    push_str_chars("</h1>\n<p>", &mut out);
    let authors: Vec<char> = match &post.post.metadata.authors {
        Some(v) => joined_chars(v),
        None => str_to_chars(config.author.as_str()),
    };
    let authors_escaped = escape_chars(&authors);
    push_chars(&authors_escaped, &mut out);
    push_str_chars(" | ", &mut out);
    push_human_date(&post.post.metadata.date, &mut out);
    push_str_chars(" | ", &mut out);
    push_decimal(post.post.reading_time as u32, &mut out);
    push_str_chars(" min read</p>\n", &mut out);
    if post.post.metadata.table_of_contents {
        let t = toc_html(&post.post.toc.entries);
        push_str_chars(t.as_str(), &mut out);
    }
    push_str_chars("<article>\n", &mut out);
    push_str_chars(post.rendered_html.as_str(), &mut out);
    push_str_chars("</article>\n", &mut out);
    push_reload_tail(config.is_dev_server, &mut out);
    push_str_chars("</body>\n</html>\n", &mut out);
    proof {
        assert(out@ == post_page_chars(*post, *config)) by {
            assert(page_head(post.post.metadata.title@) + "<h1>"@ + escaped(
                post.post.metadata.title@,
            ) + "</h1>\n<p>"@ + escaped(authors_line(post.post.metadata.authors, config.author@))
                + " | "@ + human_date_chars(post.post.metadata.date) + " | "@ + dec_chars(
                post.post.reading_time as nat,
            ) + " min read</p>\n"@ + (if post.post.metadata.table_of_contents {
                toc_html_chars(post.post.toc@)
            } else {
                Seq::<char>::empty()
            }) + "<article>\n"@ + post.rendered_html@ + "</article>\n"@ + reload_tail_chars(
                config.is_dev_server,
            ) + page_foot() == post_page_chars(*post, *config));
            if !post.post.metadata.table_of_contents {
                assert(out@ =~= post_page_chars(*post, *config));
            }
        }
    }
    chars_to_string(&out)
}

/// One index line for a post: the link to its page, its date, its escaped
/// description.
pub open spec fn index_item_chars(p: PublishableBlogPost) -> Seq<char> {
    "<li><a href=\"/"@ + p.output_filename@ + "\">"@ + escaped(p.post.metadata.title@) + "</a> | "@
        + human_date_chars(p.post.metadata.date) + " | "@ + escaped(p.description@) + "</li>\n"@
}

pub open spec fn index_items_chars(ps: Seq<PublishableBlogPost>) -> Seq<char>
    decreases ps.len(),
{
    if ps.len() == 0 {
        Seq::empty()
    } else {
        index_item_chars(ps[0]) + index_items_chars(ps.drop_first())
    }
}

/// The index page: the escaped site title and one line per post, in the
/// posts' order.
pub open spec fn index_page_chars(ps: Seq<PublishableBlogPost>, c: BlogConfiguration) -> Seq<
    char,
> {
    page_head(c.blog_title@) + "<h1>"@ + escaped(c.blog_title@) + "</h1>\n<ul>\n"@
        + index_items_chars(ps) + "</ul>\n"@ + reload_tail_chars(c.is_dev_server) + page_foot()
}

fn push_index_item(p: &PublishableBlogPost, out: &mut Vec<char>)
    requires
        metadata_wf(p.post.metadata),
    ensures
        final(out)@ == old(out)@ + index_item_chars(*p),
{
    push_str_chars("<li><a href=\"/", out);
    push_str_chars(p.output_filename.as_str(), out);
    push_str_chars("\">", out);
    push_escaped(p.post.metadata.title.as_str(), out);
    push_str_chars("</a> | ", out);
    push_human_date(&p.post.metadata.date, out);
    push_str_chars(" | ", out);
    push_escaped(p.description.as_str(), out);
    push_str_chars("</li>\n", out);
    proof {
        assert(old(out)@ + "<li><a href=\"/"@ + p.output_filename@ + "\">"@ + escaped(
            p.post.metadata.title@,
        ) + "</a> | "@ + human_date_chars(p.post.metadata.date) + " | "@ + escaped(p.description@)
            + "</li>\n"@ == old(out)@ + index_item_chars(*p));
    }
}

/// Renders the index page over the publish list.
pub fn render_index(posts: &Vec<PublishableBlogPost>, config: &BlogConfiguration) -> (r: String)
    requires
        forall|i: int| 0 <= i < posts@.len() ==> metadata_wf((#[trigger] posts@[i]).post.metadata),
    ensures
        r@ == index_page_chars(posts@, *config),
{
    let ghost pv = posts@;
    let mut out: Vec<char> = Vec::new();
    push_page_head(config.blog_title.as_str(), &mut out);
    push_str_chars("<h1>", &mut out);
    push_escaped(config.blog_title.as_str(), &mut out);
    push_str_chars("</h1>\n<ul>\n", &mut out);
    let ghost mid = out@;
    let mut i: usize = 0;
    proof {
        assert(pv.skip(0) =~= pv);
    }
    while i < posts.len()
        invariant
            0 <= i <= pv.len(),
            pv == posts@,
            forall|k: int| 0 <= k < pv.len() ==> metadata_wf((#[trigger] pv[k]).post.metadata),
            out@ + index_items_chars(pv.skip(i as int)) == mid + index_items_chars(pv),
        decreases pv.len() - i,
    {
        proof {
            assert(pv.skip(i as int)[0] == pv[i as int]);
            assert(pv.skip(i as int).drop_first() =~= pv.skip(i + 1));
        }
        let ghost out_pre = out@;
        push_index_item(&posts[i], &mut out);
        proof {
            assert(out@ + index_items_chars(pv.skip(i + 1)) =~= out_pre + (index_item_chars(
                pv[i as int],
            ) + index_items_chars(pv.skip(i + 1))));
            assert(out_pre + index_items_chars(pv.skip(i as int)) =~= out_pre + (index_item_chars(
                pv[i as int],
            ) + index_items_chars(pv.skip(i + 1))));
        }
        i = i + 1;
    }
    proof {
        assert(index_items_chars(pv.skip(pv.len() as int)) =~= Seq::<char>::empty());
        assert(out@ + Seq::<char>::empty() =~= out@);
    }
    push_str_chars("</ul>\n", &mut out);
    push_reload_tail(config.is_dev_server, &mut out);
    push_str_chars("</body>\n</html>\n", &mut out);
    proof {
        assert(out@ =~= page_head(config.blog_title@) + "<h1>"@ + escaped(config.blog_title@)
            + "</h1>\n<ul>\n"@ + index_items_chars(pv) + "</ul>\n"@ + reload_tail_chars(
            config.is_dev_server,
        ) + page_foot());
    }
    chars_to_string(&out)
}

/// All tags of all posts, in post order, repetitions kept.
pub open spec fn all_tags(posts: Seq<BlogPost>) -> Seq<String>
    decreases posts.len(),
{
    if posts.len() == 0 {
        Seq::empty()
    } else {
        posts[0].metadata.tags@ + all_tags(posts.drop_first())
    }
}

fn collect_tags(posts: &Vec<BlogPost>) -> (r: Vec<String>)
    ensures
        r@ == all_tags(posts@),
{
    let ghost pv = posts@;
    let mut out: Vec<String> = Vec::new();
    let mut i: usize = 0;
    proof {
        assert(pv.skip(0) =~= pv);
        assert(out@ =~= Seq::<String>::empty());
    }
    while i < posts.len()
        invariant
            0 <= i <= pv.len(),
            pv == posts@,
            all_tags(pv) == out@ + all_tags(pv.skip(i as int)),
        decreases pv.len() - i,
    {
        proof {
            assert(pv.skip(i as int)[0] == pv[i as int]);
            assert(pv.skip(i as int).drop_first() =~= pv.skip(i + 1));
        }
        let ghost out_mid = out@;
        let tags = &posts[i].metadata.tags;
        let mut j: usize = 0;
        while j < tags.len()
            invariant
                0 <= j <= tags@.len(),
                tags@ == pv[i as int].metadata.tags@,
                out@ == out_mid + tags@.take(j as int),
            decreases tags@.len() - j,
        {
            out.push(tags[j].clone());
            proof {
                assert(out_mid + tags@.take(j as int) + seq![tags@[j as int]] =~= out_mid
                    + tags@.take(j + 1));
            }
            j = j + 1;
        }
        proof {
            assert(tags@.take(tags@.len() as int) =~= tags@);
            assert(out_mid + pv[i as int].metadata.tags@ + all_tags(pv.skip(i + 1)) =~= out_mid + (
            pv[i as int].metadata.tags@ + all_tags(pv.skip(i + 1))));
        }
        i = i + 1;
    }
    proof {
        assert(all_tags(pv.skip(pv.len() as int)) =~= Seq::<String>::empty());
        assert(out@ + Seq::<String>::empty() =~= out@);
    }
    out
}

pub open spec fn tag_items_chars(ts: Seq<String>) -> Seq<char>
    decreases ts.len(),
{
    if ts.len() == 0 {
        Seq::empty()
    } else {
        "<li>"@ + escaped(ts[0]@) + "</li>\n"@ + tag_items_chars(ts.drop_first())
    }
}

/// The tag listing page: one line per tag of every post, in post order,
/// repetitions kept.
pub open spec fn tags_page_chars(posts: Seq<BlogPost>, c: BlogConfiguration) -> Seq<char> {
    page_head("Tags"@) + "<h1>Tags</h1>\n<ul>\n"@ + tag_items_chars(all_tags(posts)) + "</ul>\n"@
        + reload_tail_chars(c.is_dev_server) + page_foot()
}

/// Renders the tag listing page over the compiled posts.
pub fn render_tags_page(posts: &Vec<BlogPost>, config: &BlogConfiguration) -> (r: String)
    ensures
        r@ == tags_page_chars(posts@, *config),
{
    let tags = collect_tags(posts);
    let ghost tv = tags@;
    let mut out: Vec<char> = Vec::new();
    push_page_head("Tags", &mut out);
    push_str_chars("<h1>Tags</h1>\n<ul>\n", &mut out);
    let ghost mid = out@;
    let mut i: usize = 0;
    proof {
        assert(tv.skip(0) =~= tv);
    }
    while i < tags.len()
        invariant
            0 <= i <= tv.len(),
            tv == tags@,
            out@ + tag_items_chars(tv.skip(i as int)) == mid + tag_items_chars(tv),
        decreases tv.len() - i,
    {
        proof {
            assert(tv.skip(i as int)[0] == tv[i as int]);
            assert(tv.skip(i as int).drop_first() =~= tv.skip(i + 1));
        }
        let ghost out_pre = out@;
        push_str_chars("<li>", &mut out);
        push_escaped(tags[i].as_str(), &mut out);
        push_str_chars("</li>\n", &mut out);
        proof {
            assert(out@ =~= out_pre + ("<li>"@ + escaped(tv[i as int]@) + "</li>\n"@));
            assert(out_pre + ("<li>"@ + escaped(tv[i as int]@) + "</li>\n"@) + tag_items_chars(
                tv.skip(i + 1),
            ) =~= out_pre + ("<li>"@ + escaped(tv[i as int]@) + "</li>\n"@ + tag_items_chars(
                tv.skip(i + 1),
            )));
        }
        i = i + 1;
    }
    proof {
        assert(tag_items_chars(tv.skip(tv.len() as int)) =~= Seq::<char>::empty());
        assert(out@ + Seq::<char>::empty() =~= out@);
    }
    push_str_chars("</ul>\n", &mut out);
    push_reload_tail(config.is_dev_server, &mut out);
    push_str_chars("</body>\n</html>\n", &mut out);
    proof {
        assert(out@ =~= page_head("Tags"@) + "<h1>Tags</h1>\n<ul>\n"@ + tag_items_chars(tv)
            + "</ul>\n"@ + reload_tail_chars(config.is_dev_server) + page_foot());
    }
    chars_to_string(&out)
}

/// One feed entry as markup: escaped fields, the timestamp as formatted,
/// the rendered HTML escaped into the content element.
pub open spec fn entry_xml_chars(e: FeedEntry) -> Seq<char> {
    "<entry>\n<title>"@ + escaped(e.title@) + "</title>\n<link href=\""@ + escaped(e.link@)
        + "\"/>\n<id>"@ + escaped(e.id@) + "</id>\n<updated>"@ + e.updated@
        + "</updated>\n<author><name>"@ + escaped(e.author@)
        + "</name></author>\n<content type=\"html\">"@ + escaped(e.content@) + "</content>\n</entry>\n"@
}

pub open spec fn entries_xml_chars(es: Seq<FeedEntry>) -> Seq<char>
    decreases es.len(),
{
    if es.len() == 0 {
        Seq::empty()
    } else {
        entry_xml_chars(es[0]) + entries_xml_chars(es.drop_first())
    }
}

/// The whole feed document.
pub open spec fn feed_xml_chars(f: Feed) -> Seq<char> {
    "<?xml version=\"1.0\" encoding=\"utf-8\"?>\n<feed xmlns=\"http://www.w3.org/2005/Atom\">\n<title>"@
        + escaped(f.title@) + "</title>\n<link href=\""@ + escaped(f.link@) + "\"/>\n<updated>"@
        + f.updated@ + "</updated>\n<author><name>"@ + escaped(f.author@)
        + "</name></author>\n<id>"@ + escaped(f.link@) + "</id>\n"@ + entries_xml_chars(f.entries@)
        + "</feed>\n"@
}

fn push_entry_xml(e: &FeedEntry, out: &mut Vec<char>)
    ensures
        final(out)@ == old(out)@ + entry_xml_chars(*e),
{
    push_str_chars("<entry>\n<title>", out);
    push_escaped(e.title.as_str(), out);
    push_str_chars("</title>\n<link href=\"", out);
    push_escaped(e.link.as_str(), out);
    push_str_chars("\"/>\n<id>", out);
    push_escaped(e.id.as_str(), out);
    push_str_chars("</id>\n<updated>", out);
    push_str_chars(e.updated.as_str(), out);
    push_str_chars("</updated>\n<author><name>", out);
    push_escaped(e.author.as_str(), out);
    push_str_chars("</name></author>\n<content type=\"html\">", out);
    push_escaped(e.content.as_str(), out);
    push_str_chars("</content>\n</entry>\n", out);
    proof {
        assert(old(out)@ + "<entry>\n<title>"@ + escaped(e.title@) + "</title>\n<link href=\""@
            + escaped(e.link@) + "\"/>\n<id>"@ + escaped(e.id@) + "</id>\n<updated>"@ + e.updated@
            + "</updated>\n<author><name>"@ + escaped(e.author@)
            + "</name></author>\n<content type=\"html\">"@ + escaped(e.content@)
            + "</content>\n</entry>\n"@ == old(out)@ + entry_xml_chars(*e));
    }
}

/// Renders the feed document.
pub fn render_feed(feed: &Feed) -> (r: String)
    ensures
        r@ == feed_xml_chars(*feed),
{
    let ghost ev = feed.entries@;
    let mut out: Vec<char> = Vec::new();
    push_str_chars(
        "<?xml version=\"1.0\" encoding=\"utf-8\"?>\n<feed xmlns=\"http://www.w3.org/2005/Atom\">\n<title>",
        &mut out,
    );
    push_escaped(feed.title.as_str(), &mut out);
    push_str_chars("</title>\n<link href=\"", &mut out);
    push_escaped(feed.link.as_str(), &mut out);
    push_str_chars("\"/>\n<updated>", &mut out);
    push_str_chars(feed.updated.as_str(), &mut out);
    push_str_chars("</updated>\n<author><name>", &mut out);
    push_escaped(feed.author.as_str(), &mut out);
    push_str_chars("</name></author>\n<id>", &mut out);
    push_escaped(feed.link.as_str(), &mut out);
    push_str_chars("</id>\n", &mut out);
    let ghost mid = out@;
    let mut i: usize = 0;
    proof {
        assert(ev.skip(0) =~= ev);
    }
    while i < feed.entries.len()
        invariant
            0 <= i <= ev.len(),
            ev == feed.entries@,
            out@ + entries_xml_chars(ev.skip(i as int)) == mid + entries_xml_chars(ev),
        decreases ev.len() - i,
    {
        proof {
            assert(ev.skip(i as int)[0] == ev[i as int]);
            assert(ev.skip(i as int).drop_first() =~= ev.skip(i + 1));
        }
        let ghost out_pre = out@;
        push_entry_xml(&feed.entries[i], &mut out);
        proof {
            assert(out@ + entries_xml_chars(ev.skip(i + 1)) =~= out_pre + (entry_xml_chars(
                ev[i as int],
            ) + entries_xml_chars(ev.skip(i + 1))));
            assert(out_pre + entries_xml_chars(ev.skip(i as int)) =~= out_pre + (entry_xml_chars(
                ev[i as int],
            ) + entries_xml_chars(ev.skip(i + 1))));
        }
        i = i + 1;
    }
    proof {
        assert(entries_xml_chars(ev.skip(ev.len() as int)) =~= Seq::<char>::empty());
        assert(out@ + Seq::<char>::empty() =~= out@);
    }
    push_str_chars("</feed>\n", &mut out);
    proof {
        assert(out@
            =~= "<?xml version=\"1.0\" encoding=\"utf-8\"?>\n<feed xmlns=\"http://www.w3.org/2005/Atom\">\n<title>"@
            + escaped(feed.title@) + "</title>\n<link href=\""@ + escaped(feed.link@)
            + "\"/>\n<updated>"@ + feed.updated@ + "</updated>\n<author><name>"@ + escaped(
            feed.author@,
        ) + "</name></author>\n<id>"@ + escaped(feed.link@) + "</id>\n"@ + entries_xml_chars(ev)
            + "</feed>\n"@);
    }
    chars_to_string(&out)
}

} // verus!
