//! The library's model of a parsed document: the pre-order event stream of
//! the markup tree, flattened to nodes with depths, and the scans the
//! compiler runs over it (front matter, headings, word counts, first
//! paragraph, image references).

use vstd::prelude::*;
use crate::slugs::slug_of;
use crate::text::{count_words, is_space_char, str_to_chars, word_count};
use crate::toc::{entry_view, entry_views, toc_forest, TableOfContents, TableOfContentsEntry, TocNode};

verus! {

/// What the library reads from one node of the parsed markup tree.
#[derive(Debug)]
pub enum MdKind {
    /// The front-matter block, delimiters included.
    FrontMatter(String),
    /// A heading with its level (1 to 6).
    Heading(u8),
    /// Literal text.
    Text(String),
    /// A paragraph container.
    Paragraph,
    /// A code block with its literal contents.
    CodeBlock(String),
    /// An image with its source URL.
    Image(String),
    /// Any other node.
    Other,
}

/// One edge of the pre-order traversal: a node starts (with its kind) or
/// ends.
#[derive(Debug)]
pub enum MdEvent {
    Start(MdKind),
    End,
}

/// A node of the document in pre-order, with its depth in the tree (the
/// root has depth 0).
#[derive(Debug)]
pub struct MdNode {
    pub depth: usize,
    pub kind: MdKind,
}

/// The mathematical form of a node.
#[verifier::ext_equal]
pub ghost struct GNode {
    pub depth: int,
    pub kind: MdKind,
}

pub open spec fn node_view(n: MdNode) -> GNode {
    GNode { depth: n.depth as int, kind: n.kind }
}

pub open spec fn node_views(s: Seq<MdNode>) -> Seq<GNode> {
    Seq::new(s.len(), |i: int| node_view(s[i]))
}

/// The nodes named by an event stream, in pre-order with their depths,
/// starting at `depth`. An unmatched end never takes the depth below zero.
pub open spec fn gnodes_from(events: Seq<MdEvent>, depth: int) -> Seq<GNode>
    decreases events.len(),
{
    if events.len() == 0 {
        Seq::empty()
    } else {
        let rest = events.drop_first();
        match events[0] {
            MdEvent::Start(k) => seq![GNode { depth, kind: k }] + gnodes_from(rest, depth + 1),
            MdEvent::End => gnodes_from(
                rest,
                if depth > 0 {
                    depth - 1
                } else {
                    0
                },
            ),
        }
    }
}

/// The nodes of an event stream, rooted at depth 0.
pub open spec fn gnodes(events: Seq<MdEvent>) -> Seq<GNode> {
    gnodes_from(events, 0)
}

/// Flattens an event stream into its pre-order nodes with depths.
pub fn doc_nodes(events: Vec<MdEvent>) -> (r: Vec<MdNode>)
    ensures
        node_views(r@) == gnodes(events@),
{
    let ghost ev0 = events@;
    let mut evs = events;
    let mut out: Vec<MdNode> = Vec::new();
    let mut depth: usize = 0;
    let evs_len = evs.len();
    proof {
        assert(ev0.len() == evs_len as int);
        assert(node_views(out@) =~= Seq::<GNode>::empty());
    }
    while evs.len() > 0
        invariant
            ev0.len() <= usize::MAX,
            evs@.len() <= ev0.len(),
            depth <= ev0.len() - evs@.len(),
            gnodes(ev0) == node_views(out@) + gnodes_from(evs@, depth as int),
        decreases evs@.len(),
    {
        let ghost ev_pre = evs@;
        let ghost out_pre = node_views(out@);
        let e = evs.remove(0);
        let ghost ge = e;
        proof {
            assert(evs@ =~= ev_pre.drop_first());
            assert(ge == ev_pre[0]);
        }
        match e {
            MdEvent::Start(k) => {
                let n = MdNode { depth, kind: k };
                let ghost gn = node_view(n);
                out.push(n);
                depth = depth + 1;
                proof {
                    assert(gnodes_from(ev_pre, (depth - 1) as int) == seq![gn] + gnodes_from(
                        evs@,
                        depth as int,
                    ));
                    assert(node_views(out@) =~= out_pre + seq![gn]);
                    assert(out_pre + seq![gn] + gnodes_from(evs@, depth as int) =~= out_pre + (
                    seq![gn] + gnodes_from(evs@, depth as int)));
                }
            },
            MdEvent::End => {
                if depth > 0 {
                    depth = depth - 1;
                }
            },
        }
    }
    proof {
        assert(gnodes_from(evs@, depth as int) =~= Seq::<GNode>::empty());
        assert(node_views(out@) + Seq::<GNode>::empty() =~= node_views(out@));
    }
    out
}

/// The raw text of the last front-matter block among the nodes, if any.
/// (A document has at most one; when several occur, the last wins, as the
/// compiler scans the whole tree.)
pub open spec fn last_front_matter(ns: Seq<GNode>) -> Option<Seq<char>>
    decreases ns.len(),
{
    if ns.len() == 0 {
        None
    } else {
        match ns.last().kind {
            MdKind::FrontMatter(t) => Some(t@),
            _ => last_front_matter(ns.drop_last()),
        }
    }
}

/// Finds the front-matter block of the document, if any.
pub fn front_matter_text(ns: &Vec<MdNode>) -> (r: Option<String>)
    ensures
        match r {
            Some(s) => last_front_matter(node_views(ns@)) == Some(s@),
            None => last_front_matter(node_views(ns@)) is None,
        },
{
    let mut j: usize = ns.len();
    proof {
        assert(node_views(ns@).take(ns@.len() as int) =~= node_views(ns@));
    }
    while j > 0
        invariant
            0 <= j <= ns@.len(),
            last_front_matter(node_views(ns@)) == last_front_matter(
                node_views(ns@).take(j as int),
            ),
        decreases j,
    {
        proof {
            assert(node_views(ns@).take(j as int).last() == node_view(ns@[j - 1]));
            assert(node_views(ns@).take(j as int).drop_last() =~= node_views(ns@).take(j - 1));
        }
        match &ns[j - 1].kind {
            MdKind::FrontMatter(t) => {
                return Some(t.clone());
            },
            _ => {},
        }
        j = j - 1;
    }
    proof {
        assert(node_views(ns@).take(0).len() == 0);
    }
    None
}

/// The flat heading items of the document, in pre-order: one `(level,
/// title)` item per direct text child of each heading. The state carries
/// the level and depth of the heading whose direct children are in scope.
pub open spec fn heading_items_from(ns: Seq<GNode>, st: Option<(int, int)>) -> Seq<
    (int, Seq<char>),
>
    decreases ns.len(),
{
    if ns.len() == 0 {
        Seq::empty()
    } else {
        let n = ns[0];
        let rest = ns.drop_first();
        let st1 = match st {
            Some(p) => if n.depth <= p.1 {
                None
            } else {
                st
            },
            None => None,
        };
        match n.kind {
            MdKind::Heading(l) => heading_items_from(rest, Some((l as int, n.depth))),
            MdKind::Text(t) => match st1 {
                Some(p) => if n.depth == p.1 + 1 {
                    seq![(p.0, t@)] + heading_items_from(rest, st1)
                } else {
                    heading_items_from(rest, st1)
                },
                None => heading_items_from(rest, None),
            },
            _ => heading_items_from(rest, st1),
        }
    }
}

pub open spec fn heading_items(ns: Seq<GNode>) -> Seq<(int, Seq<char>)> {
    heading_items_from(ns, None)
}

/// The flat outline entries made of the heading items: each with its
/// slugified anchor and no children yet.
pub open spec fn heading_toc_nodes(items: Seq<(int, Seq<char>)>) -> Seq<TocNode> {
    Seq::new(
        items.len(),
        |i: int|
            TocNode {
                level: items[i].0,
                title: items[i].1,
                anchor: slug_of(items[i].1),
                children: Seq::empty(),
            },
    )
}

spec fn heading_state_view(st: Option<(u8, usize)>) -> Option<(int, int)> {
    match st {
        Some(p) => Some((p.0 as int, p.1 as int)),
        None => None,
    }
}

/// Collects the flat outline entries of the document: for each heading, one
/// entry per direct text child, with the text's slug as the anchor.
pub fn toc_entries(ns: &Vec<MdNode>) -> (r: Vec<TableOfContentsEntry>)
    ensures
        entry_views(r@) == heading_toc_nodes(heading_items(node_views(ns@))),
{
    let ghost nsv = node_views(ns@);
    let mut out: Vec<TableOfContentsEntry> = Vec::new();
    let mut st: Option<(u8, usize)> = None;
    let mut i: usize = 0;
    proof {
        assert(nsv.skip(0) =~= nsv);
        assert(entry_views(out@) =~= Seq::<TocNode>::empty());
    }
    while i < ns.len()
        invariant
            0 <= i <= ns@.len(),
            nsv == node_views(ns@),
            heading_toc_nodes(heading_items(nsv)) == entry_views(out@) + heading_toc_nodes(
                heading_items_from(nsv.skip(i as int), heading_state_view(st)),
            ),
        decreases ns@.len() - i,
    {
        let ghost st_pre = heading_state_view(st);
        let ghost out_pre = entry_views(out@);
        proof {
            assert(nsv.skip(i as int)[0] == node_view(ns@[i as int]));
            assert(nsv.skip(i as int).drop_first() =~= nsv.skip(i + 1));
        }
        let nd = ns[i].depth;
        match st {
            Some(p) => {
                if nd <= p.1 {
                    st = None;
                }
            },
            None => {},
        }
        match &ns[i].kind {
            MdKind::Heading(l) => {
                st = Some((*l, nd));
            },
            MdKind::Text(t) => {
                match st {
                    Some(p) => {
                        if nd > 0 && nd - 1 == p.1 {
                            let e = TableOfContentsEntry {
                                level: p.0,
                                title: t.clone(),
                                anchor: crate::slugs::slugify(t.as_str()),
                                children: Vec::new(),
                            };
                            let ghost ge = entry_view(e);
                            proof {
                                assert(ge.level == p.0 as int);
                                assert(ge.title == t@);
                                assert(ge.anchor == slug_of(t@));
                                assert(ge.children =~= Seq::<TocNode>::empty());
                                assert(ge == (TocNode {
                                    level: p.0 as int,
                                    title: t@,
                                    anchor: slug_of(t@),
                                    children: Seq::empty(),
                                }));
                            }
                            out.push(e);
                            proof {
                                let items_pre = heading_items_from(nsv.skip(i as int), st_pre);
                                let items_next = heading_items_from(
                                    nsv.skip(i + 1),
                                    heading_state_view(st),
                                );
                                assert(items_pre == seq![(p.0 as int, t@)] + items_next);
                                assert(heading_toc_nodes(items_pre) =~= seq![ge]
                                    + heading_toc_nodes(items_next));
                                assert(entry_views(out@) =~= out_pre + seq![ge]);
                                assert(out_pre + seq![ge] + heading_toc_nodes(items_next) =~= out_pre
                                    + (seq![ge] + heading_toc_nodes(items_next)));
                            }
                        }
                    },
                    None => {},
                }
            },
            _ => {},
        }
        i = i + 1;
        proof {
            assert(heading_toc_nodes(heading_items(nsv)) == entry_views(out@) + heading_toc_nodes(
                heading_items_from(nsv.skip(i as int), heading_state_view(st)),
            ));
        }
    }
    proof {
        assert(heading_items_from(nsv.skip(nsv.len() as int), heading_state_view(st)).len() == 0);
        assert(heading_toc_nodes(
            heading_items_from(nsv.skip(nsv.len() as int), heading_state_view(st)),
        ) =~= Seq::<TocNode>::empty());
        assert(entry_views(out@) + Seq::<TocNode>::empty() =~= entry_views(out@));
    }
    out
}

impl TableOfContents {
    /// Builds the nested outline of a document from its flattened tree: the
    /// headings' direct text children, nested by the queue-consuming rule.
    /// The outline is well-formed: every node's children are strictly
    /// deeper than the node, at every depth.
    pub fn from_ast(nodes: &Vec<MdNode>) -> (r: TableOfContents)
        ensures
            r@ == toc_forest(heading_toc_nodes(heading_items(node_views(nodes@)))),
            crate::toc::all_toc_wf(r@),
    {
        let entries = toc_entries(nodes);
        proof {
            let flat = heading_toc_nodes(heading_items(node_views(nodes@)));
            assert(crate::toc::all_toc_wf(flat)) by {
                assert forall|i: int| 0 <= i < flat.len() implies crate::toc::toc_wf(
                    #[trigger] flat[i],
                ) by {
                    assert(flat[i].children.len() == 0);
                }
            }
            crate::toc::lemma_toc_forest_wf(flat);
        }
        TableOfContents::from_entries(entries)
    }
}

/// The words a node contributes to the reading time: those of literal text
/// and of code-block contents.
pub open spec fn node_words(n: GNode) -> nat {
    match n.kind {
        MdKind::Text(t) => word_count(t@),
        MdKind::CodeBlock(c) => word_count(c@),
        _ => 0,
    }
}

/// The total word count of the document's text and code blocks.
pub open spec fn total_words(ns: Seq<GNode>) -> nat
    decreases ns.len(),
{
    if ns.len() == 0 {
        0
    } else {
        node_words(ns[0]) + total_words(ns.drop_first())
    }
}

/// Counts the document's words, saturating at the machine limit.
pub fn total_word_count(ns: &Vec<MdNode>) -> (r: usize)
    ensures
        total_words(node_views(ns@)) <= usize::MAX ==> r == total_words(node_views(ns@)),
        total_words(node_views(ns@)) > usize::MAX ==> r == usize::MAX,
{
    let ghost nsv = node_views(ns@);
    let mut acc: usize = 0;
    let ghost mut gsum: nat = 0;
    let mut i: usize = 0;
    proof {
        assert(nsv.skip(0) =~= nsv);
    }
    while i < ns.len()
        invariant
            0 <= i <= ns@.len(),
            nsv == node_views(ns@),
            total_words(nsv) == gsum + total_words(nsv.skip(i as int)),
            gsum <= usize::MAX ==> acc == gsum,
            gsum > usize::MAX ==> acc == usize::MAX,
        decreases ns@.len() - i,
    {
        proof {
            assert(nsv.skip(i as int)[0] == node_view(ns@[i as int]));
            assert(nsv.skip(i as int).drop_first() =~= nsv.skip(i + 1));
        }
        let w: usize = match &ns[i].kind {
            MdKind::Text(t) => {
                let cs = str_to_chars(t.as_str());
                count_words(&cs)
            },
            MdKind::CodeBlock(c) => {
                let cs = str_to_chars(c.as_str());
                count_words(&cs)
            },
            _ => 0,
        };
        proof {
            assert(w == node_words(nsv.skip(i as int)[0]));
            gsum = gsum + node_words(nsv.skip(i as int)[0]);
        }
        if acc <= usize::MAX - w {
            acc = acc + w;
        } else {
            acc = usize::MAX;
        }
        i = i + 1;
    }
    proof {
        assert(total_words(nsv.skip(nsv.len() as int)) == 0);
    }
    acc
}

/// Reading time in minutes: the total word count divided by 225 words per
/// minute, rounded up, saturating at the largest 16-bit value.
pub open spec fn reading_minutes(words: nat) -> nat {
    let m = (words + 224) / 225;
    if m > 65535 {
        65535
    } else {
        m
    }
}

/// Computes the document's reading time in minutes.
pub fn reading_time(ns: &Vec<MdNode>) -> (r: u16)
    ensures
        r as nat == reading_minutes(total_words(node_views(ns@))),
{
    let w = total_word_count(ns);
    let m: usize = w / 225 + (if w % 225 != 0 {
        1
    } else {
        0
    });
    proof {
        let t = total_words(node_views(ns@));
        assert((w as nat + 224) / 225 == w as nat / 225 + (if w as nat % 225 != 0 {
            1nat
        } else {
            0nat
        })) by (nonlinear_arith);
        if t > usize::MAX {
            assert(w == usize::MAX);
            assert(usize::MAX >= 0xffff_ffffusize);
            assert((0xffff_ffffnat + 224) / 225 > 65535) by (nonlinear_arith);
            vstd::arithmetic::div_mod::lemma_div_is_ordered(
                0xffff_ffffint + 224,
                w as int + 224,
                225,
            );
            vstd::arithmetic::div_mod::lemma_div_is_ordered(w as int + 224, t as int + 224, 225);
        }
    }
    if m > 65535 {
        65535
    } else {
        m as u16
    }
}

/// Whether any node of the document is a paragraph.
pub open spec fn has_paragraph(ns: Seq<GNode>) -> bool
    decreases ns.len(),
{
    if ns.len() == 0 {
        false
    } else {
        (ns[0].kind is Paragraph) || has_paragraph(ns.drop_first())
    }
}

/// The text gathered for the description: the contents of the first
/// paragraph's direct text children, each followed by one space. The state
/// is the depth of the first paragraph once it has been seen; a node no
/// deeper than the paragraph ends the gathering for good.
pub open spec fn para_buffer_from(ns: Seq<GNode>, pd: Option<int>) -> Seq<char>
    decreases ns.len(),
{
    if ns.len() == 0 {
        Seq::empty()
    } else {
        let n = ns[0];
        let rest = ns.drop_first();
        match pd {
            Some(d) => {
                if n.depth <= d {
                    Seq::empty()
                } else {
                    match n.kind {
                        MdKind::Text(t) => if n.depth == d + 1 {
                            t@ + seq![' '] + para_buffer_from(rest, pd)
                        } else {
                            para_buffer_from(rest, pd)
                        },
                        _ => para_buffer_from(rest, pd),
                    }
                }
            },
            None => match n.kind {
                MdKind::Paragraph => para_buffer_from(rest, Some(n.depth)),
                _ => para_buffer_from(rest, None),
            },
        }
    }
}

pub open spec fn para_buffer(ns: Seq<GNode>) -> Seq<char> {
    para_buffer_from(ns, None)
}

/// The whitespace-delimited tokens of a text: its maximal runs of
/// non-separator characters, in order, empty pieces dropped. `cur` is the
/// run in progress.
pub open spec fn tokens_from(s: Seq<char>, cur: Seq<char>) -> Seq<Seq<char>>
    decreases s.len(),
{
    if s.len() == 0 {
        if cur.len() == 0 {
            Seq::empty()
        } else {
            seq![cur]
        }
    } else if is_space_char(s[0]) {
        if cur.len() == 0 {
            tokens_from(s.drop_first(), Seq::empty())
        } else {
            seq![cur] + tokens_from(s.drop_first(), Seq::empty())
        }
    } else {
        tokens_from(s.drop_first(), cur.push(s[0]))
    }
}

/// The whitespace-delimited tokens of a text.
pub open spec fn ws_tokens(s: Seq<char>) -> Seq<Seq<char>> {
    tokens_from(s, Seq::empty())
}

/// Tokens joined by single spaces.
pub open spec fn join_sp(ts: Seq<Seq<char>>) -> Seq<char>
    decreases ts.len(),
{
    if ts.len() == 0 {
        Seq::empty()
    } else if ts.len() == 1 {
        ts[0]
    } else {
        ts[0] + seq![' '] + join_sp(ts.drop_first())
    }
}

pub open spec fn token_views(ts: Seq<Vec<char>>) -> Seq<Seq<char>> {
    Seq::new(ts.len(), |i: int| ts[i]@)
}

/// Splits a text into its whitespace-delimited tokens.
fn tokenize(b: &Vec<char>) -> (r: Vec<Vec<char>>)
    ensures
        token_views(r@) == ws_tokens(b@),
{
    let ghost bv = b@;
    let mut out: Vec<Vec<char>> = Vec::new();
    let mut cur: Vec<char> = Vec::new();
    let mut i: usize = 0;
    proof {
        assert(bv.skip(0) =~= bv);
        assert(token_views(out@) =~= Seq::<Seq<char>>::empty());
        assert(Seq::<Seq<char>>::empty() + tokens_from(bv, Seq::empty()) =~= tokens_from(
            bv,
            Seq::empty(),
        ));
    }
    while i < b.len()
        invariant
            0 <= i <= bv.len(),
            bv == b@,
            ws_tokens(bv) == token_views(out@) + tokens_from(bv.skip(i as int), cur@),
        decreases bv.len() - i,
    {
        proof {
            assert(bv.skip(i as int)[0] == bv[i as int]);
            assert(bv.skip(i as int).drop_first() =~= bv.skip(i + 1));
        }
        let c = b[i];
        let ghost cur_pre = cur@;
        if crate::text::is_space(c) {
            if cur.len() > 0 {
                let ghost out_pre = token_views(out@);
                let finished = cur;
                cur = Vec::new();
                out.push(finished);
                proof {
                    assert(cur@ =~= Seq::<char>::empty());
                    assert(tokens_from(bv.skip(i as int), cur_pre) == seq![cur_pre] + tokens_from(
                        bv.skip(i + 1),
                        cur@,
                    ));
                    assert(token_views(out@) =~= out_pre + seq![cur_pre]);
                    assert(out_pre + seq![cur_pre] + tokens_from(bv.skip(i + 1), cur@) =~= out_pre
                        + (seq![cur_pre] + tokens_from(bv.skip(i + 1), cur@)));
                }
            } else {
                proof {
                    assert(cur_pre =~= Seq::<char>::empty());
                    assert(tokens_from(bv.skip(i as int), cur_pre) == tokens_from(
                        bv.skip(i + 1),
                        cur@,
                    ));
                }
            }
        } else {
            cur.push(c);
            proof {
                assert(cur@ == cur_pre.push(bv[i as int]));
                assert(tokens_from(bv.skip(i as int), cur_pre) == tokens_from(
                    bv.skip(i + 1),
                    cur@,
                ));
            }
        }
        i = i + 1;
    }
    proof {
        assert(bv.skip(bv.len() as int).len() == 0);
    }
    if cur.len() > 0 {
        let ghost out_pre = token_views(out@);
        let ghost curv = cur@;
        out.push(cur);
        proof {
            assert(token_views(out@) =~= out_pre + seq![curv]);
        }
        out
    } else {
        proof {
            assert(token_views(out@) + Seq::<Seq<char>>::empty() =~= token_views(out@));
        }
        out
    }
}

/// Joins the first `k` tokens (all of them, when there are fewer) with
/// single spaces.
fn join_tokens(tokens: &Vec<Vec<char>>, k: usize) -> (r: Vec<char>)
    requires
        k >= 1,
    ensures
        ({
            let ts = token_views(tokens@);
            let n = if ts.len() <= k {
                ts.len() as int
            } else {
                k as int
            };
            r@ == join_sp(ts.take(n))
        }),
{
    let ghost ts = token_views(tokens@);
    let ghost n = if ts.len() <= k {
        ts.len() as int
    } else {
        k as int
    };
    let mut out: Vec<char> = Vec::new();
    if tokens.len() == 0 {
        proof {
            assert(ts.take(0) =~= Seq::<Seq<char>>::empty());
        }
        return out;
    }
    let ghost tn = ts.take(n);
    crate::text::push_chars(&tokens[0], &mut out);
    proof {
        assert(tn[0] == ts[0]);
        if n == 1 {
            assert(join_sp(tn) == tn[0]);
        } else {
            assert(join_sp(tn) == tn[0] + seq![' '] + join_sp(tn.skip(1))) by {
                assert(tn.drop_first() =~= tn.skip(1));
            }
        }
    }
    let mut i: usize = 1;
    while i < tokens.len() && i < k
        invariant
            1 <= i,
            i <= tokens@.len(),
            i <= k,
            ts == token_views(tokens@),
            n == (if ts.len() <= k {
                ts.len() as int
            } else {
                k as int
            }),
            tn == ts.take(n),
            i <= n,
            i < n ==> join_sp(tn) == out@ + seq![' '] + join_sp(tn.skip(i as int)),
            i == n ==> join_sp(tn) == out@,
        decreases tokens@.len() - i,
    {
        let ghost out_pre = out@;
        out.push(' ');
        crate::text::push_chars(&tokens[i], &mut out);
        proof {
            assert(tn.skip(i as int)[0] == ts[i as int]);
            if i + 1 < n {
                assert(join_sp(tn.skip(i as int)) == tn.skip(i as int)[0] + seq![' '] + join_sp(
                    tn.skip(i + 1),
                )) by {
                    assert(tn.skip(i as int).drop_first() =~= tn.skip(i + 1));
                }
                assert(out_pre + seq![' '] + (ts[i as int] + seq![' '] + join_sp(tn.skip(i + 1)))
                    =~= out@ + seq![' '] + join_sp(tn.skip(i + 1)));
            } else {
                assert(tn.skip(i as int).len() == 1);
                assert(join_sp(tn.skip(i as int)) == ts[i as int]);
                assert(out_pre + seq![' '] + ts[i as int] =~= out@);
            }
        }
        i = i + 1;
    }
    out
}

/// The derived description of a document: the first 25 whitespace-delimited
/// tokens of the first paragraph's gathered text, joined by single spaces,
/// with a trailing ellipsis marker; empty when the document has no
/// paragraph.
pub open spec fn description_chars(ns: Seq<GNode>) -> Seq<char> {
    if has_paragraph(ns) {
        let ts = ws_tokens(para_buffer(ns));
        let n = if ts.len() <= 25 {
            ts.len() as int
        } else {
            25
        };
        join_sp(ts.take(n)) + "..."@
    } else {
        Seq::empty()
    }
}

/// Builds the document's derived description: the first paragraph's direct
/// text, truncated to 25 tokens, with a trailing ellipsis marker; empty
/// when no paragraph exists.
pub fn build_description(ns: &Vec<MdNode>) -> (r: String)
    ensures
        r@ == description_chars(node_views(ns@)),
{
    let ghost nsv = node_views(ns@);
    let mut buffer: Vec<char> = Vec::new();
    let mut pd: Option<usize> = None;
    let mut i: usize = 0;
    let mut done: bool = false;
    proof {
        assert(nsv.skip(0) =~= nsv);
    }
    while !done && i < ns.len()
        invariant
            0 <= i <= ns@.len(),
            nsv == node_views(ns@),
            done ==> pd is Some && has_paragraph(nsv) && para_buffer(nsv) == buffer@,
            match pd {
                Some(d) => has_paragraph(nsv) && para_buffer(nsv) == buffer@ + (if done {
                    Seq::empty()
                } else {
                    para_buffer_from(nsv.skip(i as int), Some(d as int))
                }),
                None => buffer@.len() == 0 && has_paragraph(nsv) == has_paragraph(
                    nsv.skip(i as int),
                ) && para_buffer(nsv) == para_buffer_from(nsv.skip(i as int), None),
            },
        decreases ns@.len() - i, (if done {
            0int
        } else {
            1int
        }),
    {
        proof {
            assert(nsv.skip(i as int)[0] == node_view(ns@[i as int]));
            assert(nsv.skip(i as int).drop_first() =~= nsv.skip(i + 1));
        }
        let nd = ns[i].depth;
        match pd {
            Some(d) => {
                if nd <= d {
                    done = true;
                    proof {
                        assert(para_buffer_from(nsv.skip(i as int), Some(d as int))
                            == Seq::<char>::empty());
                        assert(buffer@ + Seq::<char>::empty() =~= buffer@);
                    }
                } else {
                    match &ns[i].kind {
                        MdKind::Text(t) => {
                            if nd > 0 && nd - 1 == d {
                                let ghost buf_pre = buffer@;
                                crate::text::push_str_chars(t.as_str(), &mut buffer);
                                buffer.push(' ');
                                proof {
                                    assert(buffer@ =~= buf_pre + (t@ + seq![' ']));
                                    assert(buf_pre + (t@ + seq![' ']) + para_buffer_from(
                                        nsv.skip(i + 1),
                                        Some(d as int),
                                    ) =~= buf_pre + (t@ + seq![' '] + para_buffer_from(
                                        nsv.skip(i + 1),
                                        Some(d as int),
                                    )));
                                }
                            }
                        },
                        _ => {},
                    }
                    i = i + 1;
                }
            },
            None => {
                match &ns[i].kind {
                    MdKind::Paragraph => {
                        pd = Some(nd);
                    },
                    _ => {},
                }
                i = i + 1;
            },
        }
    }
    proof {
        if !done && pd is Some {
            assert(nsv.skip(i as int).len() == 0);
        }
        if pd is None {
            assert(nsv.skip(i as int).len() == 0);
        }
    }
    match pd {
        Some(_) => {
            proof {
                assert(para_buffer(nsv) == buffer@);
            }
            let tokens = tokenize(&buffer);
            let mut out = join_tokens(&tokens, 25);
            crate::text::push_str_chars("...", &mut out);
            crate::text::chars_to_string(&out)
        },
        None => {
            proof {
                assert(!has_paragraph(nsv));
            }
            crate::text::chars_to_string(&Vec::new())
        },
    }
}

/// The source URLs of the document's images, in pre-order.
pub open spec fn image_urls(ns: Seq<GNode>) -> Seq<Seq<char>>
    decreases ns.len(),
{
    if ns.len() == 0 {
        Seq::empty()
    } else {
        match ns[0].kind {
            MdKind::Image(u) => seq![u@] + image_urls(ns.drop_first()),
            _ => image_urls(ns.drop_first()),
        }
    }
}

} // verus!
