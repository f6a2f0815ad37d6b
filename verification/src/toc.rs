//! The table-of-contents builder: turns the flat, pre-order sequence of
//! headings into a nested forest.
//!
//! The nesting rule is recursive descent over a queue of remaining entries:
//! a root adopts each following entry that is strictly deeper; when the
//! subtree built after such an entry comes back no deeper than that entry,
//! the built subtree is pushed back to the front of the queue and the root
//! closes immediately. An entry no deeper than the root also closes the
//! root and is left for the caller. The early close is load-bearing: it is
//! what the rest of the library and its callers rely on, not an accident.

use vstd::prelude::*;

verus! {

broadcast use vstd::std_specs::vec::axiom_vec_index_decreases;

/// One heading of a document's outline. Anchors are slugs of the heading
/// text and need not be unique within a document; colliding anchors are
/// not disambiguated.
#[derive(Debug)]
pub struct TableOfContentsEntry {
    pub level: u8,
    pub title: String,
    pub anchor: String,
    pub children: Vec<TableOfContentsEntry>,
}

/// The nested outline of a document's headings.
#[derive(Debug)]
pub struct TableOfContents {
    pub entries: Vec<TableOfContentsEntry>,
}

/// The mathematical form of an outline node.
#[verifier::ext_equal]
pub ghost struct TocNode {
    pub level: int,
    pub title: Seq<char>,
    pub anchor: Seq<char>,
    pub children: Seq<TocNode>,
}

/// The mathematical form of an entry, its children recursively included.
pub open spec fn entry_view(e: TableOfContentsEntry) -> TocNode
    decreases e,
{
    TocNode {
        level: e.level as int,
        title: e.title@,
        anchor: e.anchor@,
        children: Seq::new(
            e.children.len() as nat,
            |i: int|
                if 0 <= i < e.children.len() {
                    entry_view(e.children[i])
                } else {
                    TocNode { level: 0, title: Seq::empty(), anchor: Seq::empty(), children: Seq::empty() }
                },
        ),
    }
}

impl View for TableOfContentsEntry {
    type V = TocNode;

    open spec fn view(&self) -> TocNode {
        entry_view(*self)
    }
}

impl View for TableOfContents {
    type V = Seq<TocNode>;

    open spec fn view(&self) -> Seq<TocNode> {
        entry_views(self.entries@)
    }
}

/// The views of a sequence of entries.
pub open spec fn entry_views(s: Seq<TableOfContentsEntry>) -> Seq<TocNode> {
    Seq::new(s.len(), |i: int| s[i]@)
}

/// `root` with `c` appended to its children.
pub open spec fn toc_push_child(root: TocNode, c: TocNode) -> TocNode {
    TocNode { children: root.children.push(c), ..root }
}

/// One root consuming the queue: the loop of the builder. Returns the
/// finished root and the remaining queue.
pub open spec fn toc_close(root: TocNode, q: Seq<TocNode>) -> (TocNode, Seq<TocNode>)
    decreases q.len(), 1int,
{
    if q.len() == 0 {
        (root, q)
    } else {
        let node = q[0];
        let rest = q.drop_first();
        if node.level > root.level {
            let (sub, rest2u) = toc_build(rest);
            // The remainder is always shorter than `q`; the bound below
            // keeps the recursion well-founded and never changes the value.
            let rest2 = if rest2u.len() < q.len() {
                rest2u
            } else {
                Seq::empty()
            };
            match sub {
                Some(child) => {
                    if node.level >= child.level {
                        (toc_push_child(root, node), seq![child] + rest2)
                    } else {
                        toc_close(toc_push_child(root, toc_push_child(node, child)), rest2)
                    }
                },
                None => toc_close(toc_push_child(root, node), rest2),
            }
        } else {
            (root, q)
        }
    }
}

/// One subtree built from the front of the queue, with the remaining queue.
pub open spec fn toc_build(q: Seq<TocNode>) -> (Option<TocNode>, Seq<TocNode>)
    decreases q.len(), 0int,
{
    if q.len() == 0 {
        (None, q)
    } else {
        let (r, rest) = toc_close(q[0], q.drop_first());
        (Some(r), rest)
    }
}

/// The whole forest: roots built one after the other until the queue is
/// empty.
pub open spec fn toc_forest(q: Seq<TocNode>) -> Seq<TocNode>
    decreases q.len(),
{
    if q.len() == 0 {
        Seq::empty()
    } else {
        let (r, restu) = toc_build(q);
        let rest = if restu.len() < q.len() {
            restu
        } else {
            Seq::empty()
        };
        seq![r->0] + toc_forest(rest)
    }
}

/// Building one subtree consumes at least the queue's first element, and
/// closing a root never lengthens the queue.
pub proof fn lemma_toc_close_len(root: TocNode, q: Seq<TocNode>)
    ensures
        toc_close(root, q).1.len() <= q.len(),
    decreases q.len(), 1int,
{
    if q.len() > 0 {
        let node = q[0];
        let rest = q.drop_first();
        if node.level > root.level {
            lemma_toc_build_len(rest);
            let (sub, rest2u) = toc_build(rest);
            let rest2 = if rest2u.len() < q.len() {
                rest2u
            } else {
                Seq::empty()
            };
            match sub {
                Some(child) => {
                    if node.level >= child.level {
                    } else {
                        lemma_toc_close_len(
                            toc_push_child(root, toc_push_child(node, child)),
                            rest2,
                        );
                    }
                },
                None => {
                    lemma_toc_close_len(toc_push_child(root, node), rest2);
                },
            }
        }
    }
}

pub proof fn lemma_toc_build_len(q: Seq<TocNode>)
    ensures
        q.len() > 0 ==> toc_build(q).0 is Some && toc_build(q).1.len() < q.len(),
        q.len() == 0 ==> toc_build(q) == (None::<TocNode>, q),
    decreases q.len(), 0int,
{
    if q.len() > 0 {
        lemma_toc_close_len(q[0], q.drop_first());
    }
}

/// A well-formed outline node: every child is strictly deeper than its
/// parent, recursively.
pub open spec fn toc_wf(n: TocNode) -> bool
    decreases n,
{
    forall|i: int|
        0 <= i < n.children.len() ==> (#[trigger] n.children[i]).level > n.level && toc_wf(
            n.children[i],
        )
}

pub open spec fn all_toc_wf(q: Seq<TocNode>) -> bool {
    forall|i: int| 0 <= i < q.len() ==> toc_wf(#[trigger] q[i])
}

proof fn lemma_toc_push_child_wf(root: TocNode, c: TocNode)
    requires
        toc_wf(root),
        toc_wf(c),
        c.level > root.level,
    ensures
        toc_wf(toc_push_child(root, c)),
{
    let r = toc_push_child(root, c);
    assert forall|i: int| 0 <= i < r.children.len() implies (#[trigger] r.children[i]).level
        > r.level && toc_wf(r.children[i]) by {
        if i < root.children.len() {
            assert(root.children[i].level > root.level && toc_wf(root.children[i]));
        }
    }
}

/// Closing a root preserves well-formedness of the root and of everything
/// left in the queue.
pub proof fn lemma_toc_close_wf(root: TocNode, q: Seq<TocNode>)
    requires
        toc_wf(root),
        all_toc_wf(q),
    ensures
        toc_wf(toc_close(root, q).0),
        all_toc_wf(toc_close(root, q).1),
    decreases q.len(), 1int,
{
    if q.len() > 0 {
        let node = q[0];
        let rest = q.drop_first();
        assert(toc_wf(node));
        assert(all_toc_wf(rest)) by {
            assert forall|i: int| 0 <= i < rest.len() implies toc_wf(#[trigger] rest[i]) by {
                assert(rest[i] == q[i + 1]);
            }
        }
        if node.level > root.level {
            lemma_toc_build_len(rest);
            lemma_toc_build_wf(rest);
            let (sub, rest2u) = toc_build(rest);
            let rest2 = if rest2u.len() < q.len() {
                rest2u
            } else {
                Seq::empty()
            };
            assert(all_toc_wf(rest2));
            match sub {
                Some(child) => {
                    if node.level >= child.level {
                        lemma_toc_push_child_wf(root, node);
                        let out = seq![child] + rest2;
                        assert forall|i: int| 0 <= i < out.len() implies toc_wf(
                            #[trigger] out[i],
                        ) by {
                            if i > 0 {
                                assert(out[i] == rest2[i - 1]);
                            }
                        }
                    } else {
                        lemma_toc_push_child_wf(node, child);
                        lemma_toc_push_child_wf(root, toc_push_child(node, child));
                        lemma_toc_close_wf(
                            toc_push_child(root, toc_push_child(node, child)),
                            rest2,
                        );
                    }
                },
                None => {
                    lemma_toc_push_child_wf(root, node);
                    lemma_toc_close_wf(toc_push_child(root, node), rest2);
                },
            }
        }
    }
}

/// Building a subtree preserves well-formedness.
pub proof fn lemma_toc_build_wf(q: Seq<TocNode>)
    requires
        all_toc_wf(q),
    ensures
        toc_build(q).0 matches Some(n) ==> toc_wf(n),
        all_toc_wf(toc_build(q).1),
    decreases q.len(), 0int,
{
    if q.len() > 0 {
        let rest = q.drop_first();
        assert(all_toc_wf(rest)) by {
            assert forall|i: int| 0 <= i < rest.len() implies toc_wf(#[trigger] rest[i]) by {
                assert(rest[i] == q[i + 1]);
            }
        }
        lemma_toc_close_wf(q[0], rest);
    }
}

/// Every tree of the built forest is well-formed: a node's children are all
/// strictly deeper than the node, at every depth. This is the structural
/// invariant of the outline.
pub proof fn lemma_toc_forest_wf(q: Seq<TocNode>)
    requires
        all_toc_wf(q),
    ensures
        all_toc_wf(toc_forest(q)),
    decreases q.len(),
{
    if q.len() > 0 {
        lemma_toc_build_len(q);
        lemma_toc_build_wf(q);
        let (r, restu) = toc_build(q);
        let rest = if restu.len() < q.len() {
            restu
        } else {
            Seq::empty()
        };
        lemma_toc_forest_wf(rest);
        let out = seq![r->0] + toc_forest(rest);
        assert forall|i: int| 0 <= i < out.len() implies toc_wf(#[trigger] out[i]) by {
            if i > 0 {
                assert(out[i] == toc_forest(rest)[i - 1]);
            }
        }
    }
}

pub open spec fn opt_entry_view(r: Option<TableOfContentsEntry>) -> Option<TocNode> {
    match r {
        Some(e) => Some(e@),
        None => None,
    }
}

/// Appends `child` to the children of `parent`.
fn attach_child(parent: &mut TableOfContentsEntry, child: TableOfContentsEntry)
    ensures
        final(parent)@ == toc_push_child(old(parent)@, child@),
{
    let ghost p0 = *old(parent);
    parent.children.push(child);
    proof {
        let a = parent@.children;
        let b = toc_push_child(p0@, child@).children;
        assert(parent.children@ == p0.children@.push(child));
        assert(a.len() == b.len());
        assert forall|i: int| 0 <= i < a.len() implies a[i] == b[i] by {
            if i < p0.children@.len() {
                assert(p0.children@.push(child)[i] == p0.children@[i]);
            } else {
                assert(p0.children@.push(child)[i] == child);
            }
        }
        assert(a =~= b);
        assert(parent@ =~= toc_push_child(p0@, child@));
    }
}

/// Builds one subtree from the front of the queue, exactly as `toc_build`
/// describes.
pub fn build_node(q: &mut Vec<TableOfContentsEntry>) -> (r: Option<TableOfContentsEntry>)
    ensures
        opt_entry_view(r) == toc_build(entry_views(old(q)@)).0,
        entry_views(final(q)@) == toc_build(entry_views(old(q)@)).1,
    decreases old(q)@.len(),
{
    let ghost q0 = entry_views(old(q)@);
    if q.len() == 0 {
        return None;
    }
    let mut root = q.remove(0);
    proof {
        assert(entry_views(q@) =~= q0.drop_first());
        assert(root@ == q0[0]);
    }
    let ghost goal = toc_close(q0[0], q0.drop_first());
    let mut closed: bool = false;
    while !closed && q.len() > 0
        invariant
            !closed ==> toc_close(root@, entry_views(q@)) == goal,
            closed ==> (root@, entry_views(q@)) == goal,
            q@.len() < q0.len(),
            old(q)@.len() == q0.len(),
            toc_build(q0) == (Some(goal.0), goal.1),
        decreases q@.len(), (if closed {
            0int
        } else {
            1int
        }),
    {
        let ghost root_pre = root@;
        let ghost qv_pre = entry_views(q@);
        let node = q.remove(0);
        proof {
            assert(entry_views(q@) =~= qv_pre.drop_first());
            assert(node@ == qv_pre[0]);
        }
        if node.level > root.level {
            let ghost rest = entry_views(q@);
            let sub = build_node(q);
            let ghost qv_sub = entry_views(q@);
            proof {
                lemma_toc_build_len(rest);
                // The remainder is shorter than the queue was, so the bound
                // in `toc_close` leaves the spec value unchanged.
                assert(qv_sub == toc_build(rest).1);
                assert(qv_sub.len() < qv_pre.len());
            }
            match sub {
                Some(child) => {
                    let ghost childv = child@;
                    let ghost nodev = node@;
                    proof {
                        assert(toc_build(rest).0 == Some(childv));
                    }
                    if node.level >= child.level {
                        proof {
                            assert(toc_close(root_pre, qv_pre) == (
                                toc_push_child(root_pre, nodev),
                                seq![childv] + qv_sub,
                            ));
                        }
                        q.insert(0, child);
                        proof {
                            assert(entry_views(q@) =~= seq![childv] + qv_sub);
                        }
                        attach_child(&mut root, node);
                        closed = true;
                        proof {
                            assert((root@, entry_views(q@)) == goal);
                        }
                    } else {
                        proof {
                            assert(toc_close(root_pre, qv_pre) == toc_close(
                                toc_push_child(root_pre, toc_push_child(node@, child@)),
                                qv_sub,
                            ));
                        }
                        let mut node2 = node;
                        attach_child(&mut node2, child);
                        attach_child(&mut root, node2);
                    }
                },
                None => {
                    proof {
                        assert(toc_build(rest).0 is None);
                        assert(toc_close(root_pre, qv_pre) == toc_close(
                            toc_push_child(root_pre, node@),
                            qv_sub,
                        ));
                    }
                    attach_child(&mut root, node);
                },
            }
        } else {
            proof {
                assert(toc_close(root_pre, qv_pre) == (root_pre, qv_pre));
            }
            q.insert(0, node);
            closed = true;
            proof {
                assert(entry_views(q@) =~= qv_pre);
                assert((root@, entry_views(q@)) == goal);
            }
        }
    }
    proof {
        if !closed {
            assert(toc_close(root@, entry_views(q@)) == (root@, entry_views(q@)));
        }
    }
    Some(root)
}

impl TableOfContents {
    /// Builds the nested outline from the flat, pre-order entry sequence,
    /// by the queue-consuming rule of `toc_forest`.
    pub fn from_entries(entries: Vec<TableOfContentsEntry>) -> (r: TableOfContents)
        ensures
            r@ == toc_forest(entry_views(entries@)),
    {
        let ghost q0 = entry_views(entries@);
        let mut q = entries;
        let mut out: Vec<TableOfContentsEntry> = Vec::new();
        while q.len() > 0
            invariant
                toc_forest(q0) == entry_views(out@) + toc_forest(entry_views(q@)),
            decreases q@.len(),
        {
            let ghost qv_pre = entry_views(q@);
            proof {
                lemma_toc_build_len(qv_pre);
            }
            let r = build_node(&mut q);
            match r {
                Some(e) => {
                    proof {
                        assert(entry_views(q@).len() < qv_pre.len());
                        assert(toc_forest(qv_pre) == seq![e@] + toc_forest(entry_views(q@)));
                    }
                    out.push(e);
                    proof {
                        assert(entry_views(out@) =~= entry_views(out@.drop_last()) + seq![e@]);
                        assert(entry_views(out@.drop_last()) + seq![e@] + toc_forest(
                            entry_views(q@),
                        ) =~= entry_views(out@.drop_last()) + (seq![e@] + toc_forest(
                            entry_views(q@),
                        )));
                    }
                },
                None => {
                    proof {
                        assert(false);
                    }
                },
            }
        }
        proof {
            assert(entry_views(q@).len() == 0);
            assert(toc_forest(entry_views(q@)) =~= Seq::<TocNode>::empty());
            assert(entry_views(out@) + toc_forest(entry_views(q@)) =~= entry_views(out@));
        }
        TableOfContents { entries: out }
    }
}

} // verus!
