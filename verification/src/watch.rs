//! The development server's decision core: which filesystem events trigger
//! a rebuild, and the broadcast of the change signal to every live
//! session. The watcher loop, the sockets and the threads live outside the
//! library; they perform exactly what these functions decide.

use vstd::prelude::*;
use crate::assets::filename_of;

verus! {

/// The file extensions of content documents.
pub open spec fn allowed_extension(ext: Seq<char>) -> bool {
    ext == "md"@ || ext == "markdown"@
}

/// Whether files with this extension are content documents.
pub fn check_allowed_filetype(extension: &str) -> (r: bool)
    ensures
        r == allowed_extension(extension@),
{
    let e = extension.to_owned();
    e == String::from_str("md") || e == String::from_str("markdown")
}

/// What follows the last dot of a file name: nothing when the name has no
/// dot, only a leading dot, or ends in its last dot.
pub open spec fn dot_suffix(name: Seq<char>) -> Option<Seq<char>>
    decreases name.len(),
{
    if name.len() <= 1 {
        None
    } else if name.last() == '.' {
        None
    } else {
        match dot_suffix(name.drop_last()) {
            Some(s) => Some(s + seq![name.last()]),
            None => if name[name.len() - 2] == '.' && name.len() >= 3 {
                Some(seq![name.last()])
            } else {
                None
            },
        }
    }
}

/// The extension of a path: the dot suffix of its file name.
pub open spec fn extension_of(path: Seq<char>) -> Option<Seq<char>> {
    dot_suffix(filename_of(path))
}

proof fn lemma_dot_suffix_none(name: Seq<char>)
    requires
        forall|k: int| 1 <= k < name.len() ==> name[k] != '.',
    ensures
        dot_suffix(name) is None,
    decreases name.len(),
{
    if name.len() > 1 {
        assert(name.last() != '.');
        let t = name.drop_last();
        assert(forall|k: int| 1 <= k < t.len() ==> t[k] == name[k]);
        lemma_dot_suffix_none(t);
    }
}

proof fn lemma_dot_suffix_at(name: Seq<char>, j: int)
    requires
        2 <= j < name.len(),
        name[j - 1] == '.',
        forall|k: int| j <= k < name.len() ==> name[k] != '.',
    ensures
        dot_suffix(name) == Some(name.skip(j)),
    decreases name.len(),
{
    assert(name.last() != '.');
    let t = name.drop_last();
    if j < name.len() - 1 {
        assert(forall|k: int| j <= k < t.len() ==> t[k] == name[k]);
        lemma_dot_suffix_at(t, j);
        assert(t.skip(j) + seq![name.last()] =~= name.skip(j));
    } else {
        assert(t.last() == name[j - 1]);
        assert(dot_suffix(t) is None);
        assert(name[name.len() - 2] == '.');
        assert(name.len() >= 3);
        assert(seq![name.last()] =~= name.skip(j));
    }
}

fn path_extension(path: &Vec<char>) -> (r: Option<Vec<char>>)
    ensures
        match r {
            Some(e) => extension_of(path@) == Some(e@),
            None => extension_of(path@) is None,
        },
{
    let mut name: Vec<char> = Vec::new();
    crate::assets::push_filename(path, &mut name);
    let ghost nv = name@;
    proof {
        assert(nv == filename_of(path@));
    }
    let mut j: usize = name.len();
    while j > 0
        invariant
            0 <= j <= nv.len(),
            nv == name@,
            nv == filename_of(path@),
            forall|k: int| j <= k < nv.len() ==> nv[k] != '.',
        decreases j,
    {
        if name[j - 1] == '.' {
            if j >= 2 && j < name.len() {
                proof {
                    lemma_dot_suffix_at(nv, j as int);
                }
                let mut ext: Vec<char> = Vec::new();
                let mut k: usize = j;
                while k < name.len()
                    invariant
                        j <= k <= nv.len(),
                        nv == name@,
                        nv == filename_of(path@),
                        dot_suffix(nv) == Some(nv.skip(j as int)),
                        ext@ == nv.subrange(j as int, k as int),
                    decreases nv.len() - k,
                {
                    ext.push(name[k]);
                    proof {
                        assert(nv.subrange(j as int, k as int) + seq![nv[k as int]] =~= nv.subrange(
                            j as int,
                            k + 1,
                        ));
                    }
                    k = k + 1;
                }
                proof {
                    assert(ext@ =~= nv.skip(j as int));
                }
                return Some(ext);
            }
            if j == name.len() {
                // The name ends in its last dot.
                proof {
                    assert(nv.last() == '.');
                }
                return None;
            }
            // Only a leading dot.
            proof {
                assert(forall|k: int| 1 <= k < nv.len() ==> nv[k] != '.');
                lemma_dot_suffix_none(nv);
            }
            return None;
        }
        j = j - 1;
    }
    proof {
        lemma_dot_suffix_none(nv);
    }
    None
}

/// A filesystem event, as the library classifies it.
#[derive(Debug, Clone, Copy, PartialEq, Eq, Structural)]
pub enum WatchEventKind {
    Created,
    Modified,
    Removed,
    Other,
}

/// What the development server does with an event: nothing, or one full
/// rebuild followed by one change signal to every live session.
#[derive(Debug, Clone, Copy, PartialEq, Eq, Structural)]
pub enum WatchAction {
    Ignore,
    RebuildAndNotify,
}

/// Whether an event asks for a rebuild: it modifies or removes a path with
/// a content extension. Creations and other events never rebuild.
pub open spec fn rebuild_wanted(kind: WatchEventKind, path: Seq<char>) -> bool {
    &&& (kind == WatchEventKind::Modified || kind == WatchEventKind::Removed)
    &&& (match extension_of(path) {
        Some(e) => allowed_extension(e),
        None => false,
    })
}

/// Decides what the development server does with a filesystem event: a
/// rebuild followed by one signal exactly when the event modifies or
/// removes a path with a content extension; everything else is ignored.
pub fn watch_decision(kind: WatchEventKind, path: &str) -> (r: WatchAction)
    ensures
        r == WatchAction::RebuildAndNotify <==> rebuild_wanted(kind, path@),
{
    match kind {
        WatchEventKind::Modified | WatchEventKind::Removed => {
            let cs = crate::text::str_to_chars(path);
            match path_extension(&cs) {
                Some(ext) => {
                    let e = crate::text::chars_to_string(&ext);
                    if check_allowed_filetype(e.as_str()) {
                        WatchAction::RebuildAndNotify
                    } else {
                        WatchAction::Ignore
                    }
                },
                None => WatchAction::Ignore,
            }
        },
        _ => WatchAction::Ignore,
    }
}

/// The change-signal fan-out: one independent queue per live session, so
/// every session sees every signal. A shared queue would hand each signal
/// to only one of its consumers; this structure is the library's record of
/// what the server must deliver.
#[derive(Debug)]
pub struct Broadcast {
    pub sessions: Vec<Vec<String>>,
}

impl Broadcast {
    /// A broadcast with no sessions yet.
    pub fn new() -> (r: Broadcast)
        ensures
            r.sessions@.len() == 0,
    {
        Broadcast { sessions: Vec::new() }
    }

    /// Opens a new session with an empty queue; the queues of the others
    /// are untouched.
    pub fn add_session(&mut self) -> (id: usize)
        ensures
            final(self).sessions@.len() == old(self).sessions@.len() + 1,
            id == old(self).sessions@.len(),
            forall|i: int|
                0 <= i < old(self).sessions@.len() ==> final(self).sessions@[i] == old(
                    self,
                ).sessions@[i],
            final(self).sessions@[id as int]@.len() == 0,
    {
        let id = self.sessions.len();
        self.sessions.push(Vec::new());
        id
    }

    /// Delivers one signal to every live session: each queue, not just
    /// one, gets the message appended.
    pub fn publish(&mut self, message: &String)
        ensures
            final(self).sessions@.len() == old(self).sessions@.len(),
            forall|i: int|
                0 <= i < old(self).sessions@.len() ==> (#[trigger] final(self).sessions@[i])@
                    == old(self).sessions@[i]@.push(*message),
    {
        let n = self.sessions.len();
        let mut i: usize = 0;
        while i < n
            invariant
                0 <= i <= n,
                n == self.sessions@.len(),
                self.sessions@.len() == old(self).sessions@.len(),
                forall|k: int|
                    0 <= k < i ==> (#[trigger] self.sessions@[k])@ == old(
                        self,
                    ).sessions@[k]@.push(*message),
                forall|k: int|
                    i <= k < self.sessions@.len() ==> (#[trigger] self.sessions@[k]) == old(
                        self,
                    ).sessions@[k],
            decreases n - i,
        {
            let m = message.clone();
            self.sessions[i].push(m);
            i = i + 1;
        }
    }

    /// Takes the queued signals of one session, emptying its queue.
    pub fn drain_session(&mut self, id: usize) -> (r: Vec<String>)
        requires
            id < old(self).sessions@.len(),
        ensures
            final(self).sessions@.len() == old(self).sessions@.len(),
            r@ == old(self).sessions@[id as int]@,
            final(self).sessions@[id as int]@.len() == 0,
            forall|i: int|
                0 <= i < old(self).sessions@.len() && i != id ==> final(self).sessions@[i] == old(
                    self,
                ).sessions@[i],
    {
        let empty: Vec<String> = Vec::new();
        let r = self.sessions.remove(id);
        self.sessions.insert(id, empty);
        r
    }
}

} // verus!
