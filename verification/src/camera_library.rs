//! Discovery of a camera's photo library: a breadth-first walk over the
//! camera's folders that lists every photo in one flat view, bounded in
//! depth, in the number of folders and in the number of files, and that
//! visits the most recent date folders first.
//!
//! The walk itself reads the device; this module holds the decisions that
//! the walk takes at every step.

use vstd::prelude::*;
use std::collections::VecDeque;
use vstd::multiset::Multiset;
use crate::paths::{path_starts_with, path_starts_with_spec};
use crate::text_order::{
    chars_equal, lemma_text_less_asymmetric, lemma_text_less_total, lemma_text_less_transitive,
    text_less, text_less_exec,
};

verus! {

/// The most folders that one walk records.
pub const MAX_DIRECTORIES: usize = 4_096;

/// The deepest level below the library's root that the walk descends to.
pub const MAX_DEPTH: usize = 16;

/// What the caller asks of a walk.
pub struct DirectoryRequest {
    /// The location (URI) of the library's root.
    pub location: String,
    /// The most files that the walk lists.
    pub max_entries: usize,
    /// How many entries the caller asks the device for at once.
    pub batch_size: usize,
}

/// The kind of an enumerated child.
#[derive(Clone, Copy, Debug, PartialEq, Eq)]
pub enum ChildKind {
    Directory,
    Regular,
    Other,
}

/// What the caller read about one enumerated child of a folder.
pub struct ChildInfo {
    /// The child's location (URI).
    pub location: String,
    /// The library's root counts the child among its camera photos even
    /// where the child does not lie below the root's location.
    pub in_camera_library: bool,
    /// The child is a symbolic link.
    pub is_symlink: bool,
    pub kind: ChildKind,
    pub is_hidden: bool,
    /// Whether the child can be moved to the trash, where the device says.
    pub can_trash: Option<bool>,
    /// Whether the child can be deleted, where the device says.
    pub can_delete: Option<bool>,
}

/// What the walk made of one child.
#[derive(Clone, Copy, Debug, PartialEq, Eq)]
pub enum Visit {
    /// Out of the library, a symbolic link, or neither a folder nor a file.
    Skipped,
    /// A new folder, queued for a later visit.
    Queued,
    /// A folder that the walk has already recorded.
    AlreadySeen,
    /// A folder beyond the depth or folder limit: the listing is truncated.
    LimitReached,
    /// A file to list; `hidden` when it or one of its folders is hidden.
    Entry { hidden: bool },
    /// A file beyond the file limit: the listing is truncated and the
    /// current batch ends here.
    Full,
}

/// The state of one walk.
pub struct Library {
    root: String,
    max_entries: usize,
    depth: usize,
    hidden_parent: bool,
    visited: Ghost<nat>,
    pending: VecDeque<(Vec<char>, usize, bool)>,
    seen: Vec<Vec<char>>,
    files: usize,
    truncated: bool,
    can_trash: Option<bool>,
    can_delete: Option<bool>,
}

/// The mathematical value of a walk's state.
pub struct LibraryView {
    /// The location (URI) of the library's root.
    pub root: Seq<char>,
    /// The most files that the walk lists.
    pub max_entries: usize,
    /// The depth below the root of the folder being visited.
    pub depth: usize,
    /// Whether the folder being visited, or one above it, is hidden.
    pub hidden_parent: bool,
    /// How many folders the walk has taken up for a visit.
    pub visited: nat,
    /// Folders still to visit: location, depth below the root, and whether
    /// a folder above them is hidden.
    pub pending: Seq<(Seq<char>, usize, bool)>,
    /// Every folder recorded so far, the root first.
    pub seen: Seq<Seq<char>>,
    /// The number of files listed so far.
    pub files: usize,
    pub truncated: bool,
    pub can_trash: Option<bool>,
    pub can_delete: Option<bool>,
}

/// The view of one queued folder.
pub open spec fn pending_item(e: (Vec<char>, usize, bool)) -> (Seq<char>, usize, bool) {
    (e.0@, e.1, e.2)
}

/// The views of the queued folders.
pub open spec fn pending_items(s: Seq<(Vec<char>, usize, bool)>) -> Seq<(Seq<char>, usize, bool)> {
    s.map_values(|e: (Vec<char>, usize, bool)| pending_item(e))
}

impl View for Library {
    type V = LibraryView;

    closed spec fn view(&self) -> LibraryView {
        LibraryView {
            root: self.root@,
            max_entries: self.max_entries,
            depth: self.depth,
            hidden_parent: self.hidden_parent,
            visited: self.visited@,
            pending: pending_items(self.pending@),
            seen: self.seen@.map_values(|v: Vec<char>| v@),
            files: self.files,
            truncated: self.truncated,
            can_trash: self.can_trash,
            can_delete: self.can_delete,
        }
    }
}

/// The queued folders are in strictly descending order of location: the
/// greatest location comes first. Locations are ordered by the text of their
/// URIs, so that camera date folders, named by date, are visited most recent
/// first.
pub open spec fn sorted_descending(p: Seq<(Seq<char>, usize, bool)>) -> bool {
    forall|i: int, j: int| 0 <= i < j < p.len() ==> text_less(#[trigger] p[j].0, #[trigger] p[i].0)
}

/// No two queued folders share a location.
pub open spec fn distinct_locations(p: Seq<(Seq<char>, usize, bool)>) -> bool {
    forall|i: int, j: int| 0 <= i < j < p.len() ==> #[trigger] p[i].0 != #[trigger] p[j].0
}

impl LibraryView {
    /// What every step of a walk keeps: the folders recorded are distinct and
    /// within the folder limit, every queued folder is recorded, lies within
    /// the depth limit and is queued once, every recorded folder has been
    /// visited or is queued, and the files listed are within the file limit.
    pub open spec fn wf(self) -> bool {
        &&& forall|i: int, j: int|
            0 <= i < j < self.seen.len() ==> #[trigger] self.seen[i] != #[trigger] self.seen[j]
        &&& 1 <= self.seen.len() <= MAX_DIRECTORIES
        &&& forall|k: int|
            0 <= k < self.pending.len() ==> {
                &&& self.seen.contains(#[trigger] self.pending[k].0)
                &&& self.pending[k].1 <= MAX_DEPTH
            }
        &&& distinct_locations(self.pending)
        &&& self.visited + self.pending.len() == self.seen.len()
        &&& self.files <= self.max_entries
    }

    /// The state after `next_directory` takes up the first queued folder.
    pub open spec fn take_up_next(self) -> LibraryView {
        LibraryView {
            pending: self.pending.drop_first(),
            depth: self.pending[0].1,
            hidden_parent: self.pending[0].2,
            visited: self.visited + 1,
            ..self
        }
    }

    /// The same state with `pending` as the queue of folders to visit.
    pub open spec fn with_pending(self, pending: Seq<(Seq<char>, usize, bool)>) -> LibraryView {
        LibraryView { pending, ..self }
    }

    /// The state after `visit_spec` marks the listing as truncated.
    pub open spec fn truncate(self) -> LibraryView {
        LibraryView { truncated: true, ..self }
    }
}

/// Whether the walk takes `child` into account at all: it lies within the
/// library (at or below the root's location, comparing whole components, or
/// counted by the root among its camera photos) and is not a symbolic link.
pub open spec fn in_scope(root: Seq<char>, child: ChildInfo) -> bool {
    (path_starts_with_spec(child.location@, root) || child.in_camera_library) && !child.is_symlink
}

/// The state after visiting `child`, found in the folder being visited, and
/// what the walk made of it.
pub open spec fn visit_spec(old: LibraryView, child: ChildInfo) -> (LibraryView, Visit) {
    let c = child.location@;
    let depth = old.depth;
    let hidden_parent = old.hidden_parent;
    let max_entries = old.max_entries;
    if !in_scope(old.root, child) {
        (old, Visit::Skipped)
    } else {
        match child.kind {
            ChildKind::Directory => {
                if depth >= MAX_DEPTH || old.seen.len() >= MAX_DIRECTORIES {
                    (old.truncate(), Visit::LimitReached)
                } else if old.seen.contains(c) {
                    (old, Visit::AlreadySeen)
                } else {
                    (
                        LibraryView {
                            seen: old.seen.push(c),
                            pending: old.pending.push(
                                (c, (depth + 1) as usize, hidden_parent || child.is_hidden),
                            ),
                            ..old
                        },
                        Visit::Queued,
                    )
                }
            },
            ChildKind::Regular => {
                if old.files == max_entries {
                    (old.truncate(), Visit::Full)
                } else {
                    (
                        LibraryView {
                            files: (old.files + 1) as usize,
                            can_trash: if old.can_trash is None {
                                child.can_trash
                            } else {
                                old.can_trash
                            },
                            can_delete: if old.can_delete is None {
                                child.can_delete
                            } else {
                                old.can_delete
                            },
                            ..old
                        },
                        Visit::Entry { hidden: child.is_hidden || hidden_parent },
                    )
                }
            },
            ChildKind::Other => (old, Visit::Skipped),
        }
    }
}

/// How many entries to ask the device for at once: the requested batch size
/// kept within 1 and 256.
pub fn batch_size(request: &DirectoryRequest) -> (n: i32)
    ensures
        n == if request.batch_size < 1 {
            1
        } else if request.batch_size > 256 {
            256
        } else {
            request.batch_size as int
        },
{
    if request.batch_size < 1 {
        1
    } else if request.batch_size > 256 {
        256
    } else {
        request.batch_size as i32
    }
}

proof fn lemma_empty_to_multiset<A>(s: Seq<A>)
    requires
        s.len() == 0,
    ensures
        s.to_multiset() =~= Multiset::empty(),
{
    broadcast use vstd::seq_lib::group_to_multiset_ensures;

    vstd::multiset::lemma_multiset_empty_len(s.to_multiset());
}

proof fn lemma_truncate_wf(v: LibraryView)
    requires
        v.wf(),
    ensures
        v.truncate().wf(),
{
}

proof fn lemma_queue_keeps_wf(old: LibraryView, c: Seq<char>, item: (Seq<char>, usize, bool))
    requires
        old.wf(),
        !old.seen.contains(c),
        old.seen.len() < MAX_DIRECTORIES,
        item.0 == c,
        item.1 <= MAX_DEPTH,
    ensures
        (LibraryView { seen: old.seen.push(c), pending: old.pending.push(item), ..old }).wf(),
{
    let n = LibraryView { seen: old.seen.push(c), pending: old.pending.push(item), ..old };
    assert forall|k: int| 0 <= k < n.pending.len() implies {
        &&& n.seen.contains(#[trigger] n.pending[k].0)
        &&& n.pending[k].1 <= MAX_DEPTH
    } by {
        if k < old.pending.len() {
            assert(n.pending[k] == old.pending[k]);
            assert(old.seen.contains(old.pending[k].0));
            let m = choose|m: int| 0 <= m < old.seen.len() && old.seen[m] == old.pending[k].0;
            assert(n.seen[m] == old.seen[m]);
        } else {
            assert(n.seen[old.seen.len() as int] == c);
        }
    }
    assert forall|i: int, j: int|
        0 <= i < j < n.pending.len() implies #[trigger] n.pending[i].0 != #[trigger] n.pending[j].0 by {
        if j == old.pending.len() {
            assert(old.seen.contains(old.pending[i].0));
        }
    }
    assert forall|i: int, j: int|
        0 <= i < j < n.seen.len() implies #[trigger] n.seen[i] != #[trigger] n.seen[j] by {
        if j == old.seen.len() {
            assert(old.seen.contains(old.seen[i]));
        }
    }
}

proof fn lemma_drop_first_to_multiset<A>(s: Seq<A>)
    requires
        s.len() > 0,
    ensures
        s.drop_first().to_multiset() =~= s.to_multiset().remove(s[0]),
{
    broadcast use vstd::seq_lib::group_to_multiset_ensures;

    assert(s.remove(0) =~= s.drop_first());
}

impl Library {
    /// The state of a new walk from the request's root: the root queued at
    /// depth 0 and recorded, nothing visited or listed yet.
    pub fn new(request: &DirectoryRequest) -> (r: Self)
        ensures
            r@.root == request.location@,
            r@.max_entries == request.max_entries,
            r@.depth == 0,
            !r@.hidden_parent,
            r@.visited == 0,
            r@.pending == seq![(request.location@, 0usize, false)],
            r@.seen == seq![request.location@],
            r@.files == 0,
            !r@.truncated,
            r@.can_trash is None,
            r@.can_delete is None,
            r@.wf(),
    {
        let root = crate::text::chars_of(request.location.as_str());
        let root_copy = root.clone();
        assert(root_copy@.subrange(0, root_copy@.len() as int) =~= root_copy@);
        let mut pending: VecDeque<(Vec<char>, usize, bool)> = VecDeque::new();
        pending.push_back((root.clone(), 0, false));
        let mut seen: Vec<Vec<char>> = Vec::new();
        seen.push(root);
        let r = Library {
            root: crate::text::string_of(&root_copy, 0, root_copy.len()),
            max_entries: request.max_entries,
            depth: 0,
            hidden_parent: false,
            visited: Ghost(0),
            pending,
            seen,
            files: 0,
            truncated: false,
            can_trash: None,
            can_delete: None,
        };
        assert(r@.pending =~= seq![(request.location@, 0usize, false)]);
        assert(r@.seen =~= seq![request.location@]);
        assert(r@.seen.contains(r@.pending[0].0)) by {
            assert(r@.seen[0] == r@.pending[0].0);
        }
        r
    }

    /// The number of folders still to visit.
    pub fn pending_len(&self) -> (n: usize)
        ensures
            n == self@.pending.len(),
    {
        self.pending.len()
    }

    /// Whether the listing was cut short by a limit.
    pub fn truncated(&self) -> (r: bool)
        ensures
            r == self@.truncated,
    {
        self.truncated
    }

    /// Whether the listed files can be moved to the trash, as the first file
    /// that said so reported.
    pub fn can_trash(&self) -> (r: Option<bool>)
        ensures
            r == self@.can_trash,
    {
        self.can_trash
    }

    /// Whether the listed files can be deleted, as the first file that said
    /// so reported.
    pub fn can_delete(&self) -> (r: Option<bool>)
        ensures
            r == self@.can_delete,
    {
        self.can_delete
    }

    /// The depth below the root of the folder being visited.
    pub fn depth(&self) -> (d: usize)
        ensures
            d == self@.depth,
    {
        self.depth
    }

    /// Whether the folder being visited, or one above it, is hidden.
    pub fn hidden_parent(&self) -> (h: bool)
        ensures
            h == self@.hidden_parent,
    {
        self.hidden_parent
    }

    /// The number of files listed so far.
    pub fn files(&self) -> (n: usize)
        ensures
            n == self@.files,
    {
        self.files
    }

    /// Takes up the next folder to visit and returns its location; its depth
    /// and whether a folder above it is hidden become those of the folder
    /// being visited.
    pub fn next_directory(&mut self) -> (r: Option<String>)
        requires
            old(self)@.wf(),
        ensures
            final(self)@.wf(),
            old(self)@.pending.len() == 0 ==> (r is None && final(self)@ == old(self)@),
            old(self)@.pending.len() > 0 ==> (r matches Some(d) && d@ == old(self)@.pending[0].0),
            old(self)@.pending.len() > 0 ==> final(self)@ == old(self)@.take_up_next(),
    {
        match self.pending.pop_front() {
            Some((location, depth, hidden)) => {
                let ghost before = old(self).pending@;
                self.depth = depth;
                self.hidden_parent = hidden;
                self.visited = Ghost(self.visited@ + 1);
                assert(pending_items(self.pending@) =~= pending_items(before).drop_first());
                assert(self@.seen =~= old(self)@.seen);
                assert(self@ =~= old(self)@.take_up_next());
                let text = crate::text::string_of(&location, 0, location.len());
                assert(location@.subrange(0, location@.len() as int) =~= location@);
                proof {
                    let n = self@;
                    assert forall|k: int| 0 <= k < n.pending.len() implies {
                        &&& n.seen.contains(#[trigger] n.pending[k].0)
                        &&& n.pending[k].1 <= MAX_DEPTH
                    } by {
                        assert(n.pending[k] == old(self)@.pending[k + 1]);
                        assert(old(self)@.seen.contains(old(self)@.pending[k + 1].0));
                    }
                    assert forall|i: int, j: int|
                        0 <= i < j < n.pending.len() implies #[trigger] n.pending[i].0
                        != #[trigger] n.pending[j].0 by {
                        assert(n.pending[i] == old(self)@.pending[i + 1]);
                        assert(n.pending[j] == old(self)@.pending[j + 1]);
                    }
                }
                Some(text)
            },
            None => None,
        }
    }

    /// Whether the file limit has cut the listing short, which ends the walk.
    pub fn is_full(&self) -> (r: bool)
        ensures
            r == (self@.truncated && self@.files == self@.max_entries),
    {
        self.truncated && self.files == self.max_entries
    }

    /// Visits `child`, found in the folder being visited, as `visit_spec`
    /// states.
    pub fn visit(&mut self, child: &ChildInfo) -> (v: Visit)
        requires
            old(self)@.wf(),
        ensures
            (final(self)@, v) == visit_spec(old(self)@, *child),
            final(self)@.wf(),
            (v is Entry) ==> v == (Visit::Entry {
                hidden: child.is_hidden || old(self)@.hidden_parent,
            }),
    {
        let depth = self.depth;
        let hidden_parent = self.hidden_parent;
        let within_root = path_starts_with(child.location.as_str(), self.root.as_str());
        if !((within_root || child.in_camera_library) && !child.is_symlink) {
            return Visit::Skipped;
        }
        match child.kind {
            ChildKind::Directory => {
                if depth >= MAX_DEPTH || self.seen.len() >= MAX_DIRECTORIES {
                    self.truncated = true;
                    assert(self@ =~= old(self)@.truncate());
                    proof {
                        lemma_truncate_wf(old(self)@);
                    }
                    return Visit::LimitReached;
                }
                let c = crate::text::chars_of(child.location.as_str());
                if self.contains_seen(&c) {
                    return Visit::AlreadySeen;
                }
                let ghost old_view = self@;
                self.seen.push(c.clone());
                self.pending.push_back((c, depth + 1, hidden_parent || child.is_hidden));
                let ghost item = (c@, (depth + 1) as usize, hidden_parent || child.is_hidden);
                assert(self@.seen =~= old_view.seen.push(c@));
                assert(self@.pending =~= old_view.pending.push(item));
                proof {
                    lemma_queue_keeps_wf(old_view, c@, item);
                    let expected = LibraryView {
                        seen: old_view.seen.push(c@),
                        pending: old_view.pending.push(item),
                        ..old_view
                    };
                    assert(self@.seen == expected.seen);
                    assert(self@.pending == expected.pending);
                    assert(self@ == expected);
                    assert(self@.wf());
                }
                Visit::Queued
            },
            ChildKind::Regular => {
                if self.files == self.max_entries {
                    self.truncated = true;
                    assert(self@ =~= old(self)@.truncate());
                    proof {
                        lemma_truncate_wf(old(self)@);
                    }
                    return Visit::Full;
                }
                if self.can_trash.is_none() {
                    self.can_trash = child.can_trash;
                }
                if self.can_delete.is_none() {
                    self.can_delete = child.can_delete;
                }
                self.files = self.files + 1;
                Visit::Entry { hidden: child.is_hidden || hidden_parent }
            },
            ChildKind::Other => Visit::Skipped,
        }
    }

    fn contains_seen(&self, c: &Vec<char>) -> (r: bool)
        ensures
            r == self@.seen.contains(c@),
    {
        let mut i: usize = 0;
        while i < self.seen.len()
            invariant
                i <= self.seen@.len(),
                forall|k: int| 0 <= k < i ==> self@.seen[k] != c@,
            decreases self.seen.len() - i,
        {
            if chars_equal(self.seen[i].as_slice(), c.as_slice()) {
                assert(self@.seen[i as int] == c@);
                return true;
            }
            i = i + 1;
        }
        false
    }

    /// Ends the visit of a folder: where it queued new folders (the queue is
    /// longer than `pending_before`), the queue is reordered so that the
    /// greatest location, the most recent date folder, comes first.
    pub fn finish_directory(&mut self, pending_before: usize)
        requires
            old(self)@.wf(),
        ensures
            final(self)@.wf(),
            old(self)@.pending.len() <= pending_before ==> final(self)@ == old(self)@,
            old(self)@.pending.len() > pending_before ==> {
                &&& final(self)@ == old(self)@.with_pending(final(self)@.pending)
                &&& final(self)@.pending.to_multiset() == old(self)@.pending.to_multiset()
                &&& sorted_descending(final(self)@.pending)
            },
    {
        if self.pending.len() <= pending_before {
            return;
        }
        let ghost orig = self@;
        let mut rest: VecDeque<(Vec<char>, usize, bool)> = VecDeque::new();
        std::mem::swap(&mut rest, &mut self.pending);
        let mut sorted: VecDeque<(Vec<char>, usize, bool)> = VecDeque::new();
        assert(pending_items(rest@) =~= orig.pending);
        proof {
            lemma_empty_to_multiset(pending_items(sorted@));
            assert(pending_items(sorted@).to_multiset().add(pending_items(rest@).to_multiset())
                =~= orig.pending.to_multiset());
        }
        while rest.len() > 0
            invariant
                orig.wf(),
                sorted_descending(pending_items(sorted@)),
                distinct_locations(pending_items(rest@)),
                forall|a: int, b: int|
                    0 <= a < sorted@.len() && 0 <= b < rest@.len() ==> #[trigger] sorted@[a].0@
                        != #[trigger] rest@[b].0@,
                pending_items(sorted@).to_multiset().add(pending_items(rest@).to_multiset())
                    == orig.pending.to_multiset(),
            decreases rest.len(),
        {
            let ghost rest_before = rest@;
            let ghost sorted_before = sorted@;
            let x = rest.pop_front().unwrap();
            let mut i: usize = 0;
            while i < sorted.len() && !text_less_exec(sorted[i].0.as_slice(), x.0.as_slice())
                invariant
                    sorted@ == sorted_before,
                    i <= sorted@.len(),
                    forall|k: int| 0 <= k < i ==> !text_less(#[trigger] sorted@[k].0@, x.0@),
                decreases sorted.len() - i,
            {
                i = i + 1;
            }
            proof {
                let sv = pending_items(sorted_before);
                assert forall|k: int| 0 <= k < i implies text_less(x.0@, #[trigger] sv[k].0) by {
                    assert(sv[k].0 == sorted_before[k].0@);
                    assert(sorted_before[k].0@ != rest_before[0].0@);
                    lemma_text_less_total(x.0@, sv[k].0);
                }
                if i < sv.len() {
                    assert(sv[i as int].0 == sorted_before[i as int].0@);
                    assert forall|k: int| i <= k < sv.len() implies text_less(
                        #[trigger] sv[k].0,
                        x.0@,
                    ) by {
                        if k > i {
                            lemma_text_less_transitive(sv[k].0, sv[i as int].0, x.0@);
                        }
                    }
                }
            }
            sorted.insert(i, x);
            proof {
                let sv = pending_items(sorted_before);
                let nv = pending_items(sorted@);
                let item = pending_item(x);
                assert(nv =~= sv.insert(i as int, item));
                sv.insert_ensures(i as int, item);
                assert forall|a: int, b: int| 0 <= a < b < nv.len() implies text_less(
                    #[trigger] nv[b].0,
                    #[trigger] nv[a].0,
                ) by {
                    if b < i {
                    } else if a < i && b == i {
                    } else if a < i && b > i {
                        assert(nv[b] == sv[b - 1]);
                    } else if a == i {
                        assert(nv[b] == sv[b - 1]);
                    } else {
                        assert(nv[a] == sv[a - 1]);
                        assert(nv[b] == sv[b - 1]);
                    }
                }
                vstd::seq_lib::to_multiset_insert(sv, i as int, item);
                let rv = pending_items(rest_before);
                assert(pending_items(rest@) =~= rv.drop_first());
                lemma_drop_first_to_multiset(rv);
                assert(rv[0] == item);
                assert(rv.to_multiset().contains(item)) by {
                    broadcast use vstd::seq_lib::group_to_multiset_ensures;

                    assert(rv.contains(item));
                }
                assert(nv.to_multiset().add(pending_items(rest@).to_multiset()) =~= sv.to_multiset().add(
                    rv.to_multiset(),
                ));
                assert forall|a: int, b: int|
                    0 <= a < sorted@.len() && 0 <= b < rest@.len() implies #[trigger] sorted@[a].0@
                    != #[trigger] rest@[b].0@ by {
                    assert(rest@[b] == rest_before[b + 1]);
                    if a < i {
                        assert(sorted@[a] == sorted_before[a]);
                    } else if a == i {
                        assert(pending_items(rest_before)[0].0 != pending_items(rest_before)[b + 1].0);
                    } else {
                        assert(sorted@[a] == sorted_before[a - 1]);
                    }
                }
            }
        }
        self.pending = sorted;
        proof {
            assert(pending_items(rest@) =~= Seq::<(Seq<char>, usize, bool)>::empty());
            lemma_empty_to_multiset(pending_items(rest@));
            let n = self@;
            assert(n.pending.to_multiset() =~= orig.pending.to_multiset());
            assert(n.pending.len() == orig.pending.len()) by {
                vstd::seq_lib::to_multiset_len(n.pending);
                vstd::seq_lib::to_multiset_len(orig.pending);
            }
            assert forall|k: int| 0 <= k < n.pending.len() implies {
                &&& n.seen.contains(#[trigger] n.pending[k].0)
                &&& n.pending[k].1 <= MAX_DEPTH
            } by {
                broadcast use vstd::seq_lib::group_to_multiset_ensures;

                assert(n.pending.contains(n.pending[k]));
                assert(orig.pending.to_multiset().count(n.pending[k]) > 0);
                assert(orig.pending.contains(n.pending[k]));
                let m = choose|m: int| 0 <= m < orig.pending.len() && orig.pending[m] == n.pending[k];
                assert(orig.seen.contains(orig.pending[m].0));
            }
            assert forall|i: int, j: int|
                0 <= i < j < n.pending.len() implies #[trigger] n.pending[i].0
                != #[trigger] n.pending[j].0 by {
                lemma_text_less_asymmetric(n.pending[i].0, n.pending[j].0);
            }
        }
    }
}

/// Whether `location` lies within `root`: it is the root or lies below it,
/// comparing whole components of their locations.
pub fn is_within(location: &str, root: &str) -> (r: bool)
    ensures
        r == path_starts_with_spec(location@, root@),
{
    path_starts_with(location, root)
}

/// A visit never undoes what the walk has found: the files listed only grow,
/// a truncated listing stays truncated, the first answers on trash and
/// deletion stay, and the folders recorded before stay recorded, in order.
pub proof fn law_visit_only_adds(old: LibraryView, child: ChildInfo)
    requires
        old.wf(),
    ensures
        old.files <= visit_spec(old, child).0.files,
        old.truncated ==> visit_spec(old, child).0.truncated,
        old.can_trash is Some ==> visit_spec(old, child).0.can_trash == old.can_trash,
        old.can_delete is Some ==> visit_spec(old, child).0.can_delete == old.can_delete,
        old.seen.is_prefix_of(visit_spec(old, child).0.seen),
        old.pending.is_prefix_of(visit_spec(old, child).0.pending),
{
    let new = visit_spec(old, child).0;
    assert(new.seen.subrange(0, old.seen.len() as int) =~= old.seen);
    assert(new.pending.subrange(0, old.pending.len() as int) =~= old.pending);
}

/// The walk keeps to its library: a file is listed and a folder queued only
/// when it lies at or below the root (comparing whole components of their
/// locations) or the root counts it among its camera photos, and never when
/// it is a symbolic link. So no folder outside the library, or reached
/// through a link, is ever walked.
pub proof fn law_only_the_library_is_walked(old: LibraryView, child: ChildInfo)
    ensures
        (visit_spec(old, child).1 is Entry || visit_spec(old, child).1 is Queued) ==> {
            &&& path_starts_with_spec(child.location@, old.root) || child.in_camera_library
            &&& !child.is_symlink
        },
        visit_spec(old, child).1 is Entry ==> child.kind == ChildKind::Regular,
        visit_spec(old, child).1 is Queued ==> child.kind == ChildKind::Directory,
{
}

/// Every file and folder of the library within the limits is taken: a
/// regular file in scope is listed unless the file limit is reached, and a
/// folder in scope is queued unless it was recorded before or a limit is
/// reached, in which case the listing is marked truncated.
pub proof fn law_nothing_in_scope_is_dropped_silently(old: LibraryView, child: ChildInfo)
    requires
        in_scope(old.root, child),
    ensures
        child.kind == ChildKind::Regular ==> (visit_spec(old, child).1 is Entry || (visit_spec(
            old,
            child,
        ).1 == Visit::Full && old.files == old.max_entries && visit_spec(old, child).0.truncated)),
        child.kind == ChildKind::Directory ==> (visit_spec(old, child).1 == Visit::Queued
            || (visit_spec(old, child).1 == Visit::AlreadySeen && old.seen.contains(
            child.location@,
        )) || (visit_spec(old, child).1 == Visit::LimitReached && visit_spec(old, child).0.truncated
            && (old.depth >= MAX_DEPTH || old.seen.len() >= MAX_DIRECTORIES))),
{
}

/// Listing a file counts it once and records the first answers on trash and
/// deletion; every other visit leaves the count and the answers as they were.
pub proof fn law_listing_counts_each_file_once(old: LibraryView, child: ChildInfo)
    requires
        old.wf(),
    ensures
        visit_spec(old, child).1 is Entry ==> {
            let new = visit_spec(old, child).0;
            &&& new.files == old.files + 1
            &&& new.can_trash == if old.can_trash is None {
                child.can_trash
            } else {
                old.can_trash
            }
            &&& new.can_delete == if old.can_delete is None {
                child.can_delete
            } else {
                old.can_delete
            }
            &&& new.seen == old.seen
            &&& new.pending == old.pending
        },
        !(visit_spec(old, child).1 is Entry) ==> {
            let new = visit_spec(old, child).0;
            &&& new.files == old.files
            &&& new.can_trash == old.can_trash
            &&& new.can_delete == old.can_delete
        },
{
}

/// A folder is queued only the first time the walk meets it, so no folder is
/// visited twice, and only within the depth and folder limits.
pub proof fn law_folders_are_queued_once(old: LibraryView, child: ChildInfo)
    ensures
        visit_spec(old, child).1 == Visit::Queued ==> {
            &&& !old.seen.contains(child.location@)
            &&& old.depth < MAX_DEPTH
            &&& old.seen.len() < MAX_DIRECTORIES
        },
{
}

/// Over a whole walk, at most `MAX_DIRECTORIES` folders are taken up for a
/// visit: every folder visited or still queued has been recorded once, and
/// no more than that many are ever recorded.
pub proof fn law_walk_visits_bounded_folders(v: LibraryView)
    requires
        v.wf(),
    ensures
        v.visited + v.pending.len() <= MAX_DIRECTORIES,
        v.visited <= MAX_DIRECTORIES,
{
}

/// Once a visit reports the file limit, the walk is over: the listing is
/// truncated and holds exactly the limit.
pub proof fn law_full_ends_the_walk(old: LibraryView, child: ChildInfo)
    ensures
        ({
            let (new, v) = visit_spec(old, child);
            v == Visit::Full ==> new.truncated && new.files == new.max_entries
        }),
{
}

/// The end of a walk is reported faithfully: a failure carries its own
/// message; a walk that went through to its end is reported truncated
/// exactly when a limit cut the listing short; one stopped by its time
/// budget is always reported truncated; and a listing cut short is never
/// reported complete, however the walk ended.
pub proof fn law_end_of_walk_reports_truncation(
    request_id: u64,
    outcome: DiscoveryOutcome,
    library: LibraryView,
)
    ensures
        outcome matches DiscoveryOutcome::Failed(m) ==> finish_event_spec(
            request_id,
            outcome,
            library,
        ) == (DirectoryEvent::Failed { request_id, message: m }),
        outcome is Completed ==> (finish_event_spec(request_id, outcome, library) matches
            DirectoryEvent::Finished { request_id: id, truncated, can_trash, can_delete } && id
            == request_id && truncated == library.truncated && can_trash == library.can_trash
            && can_delete == library.can_delete),
        outcome is TimedOut ==> (finish_event_spec(request_id, outcome, library) matches
            DirectoryEvent::Finished { truncated, .. } && truncated),
        library.truncated ==> (finish_event_spec(request_id, outcome, library) matches
            DirectoryEvent::Finished { truncated, .. } ==> truncated),
{
}

/// A listed file is hidden exactly when it or a folder above it is hidden,
/// and a queued folder carries the same mark to everything below it.
pub proof fn law_hidden_marks_carry_down(old: LibraryView, child: ChildInfo)
    requires
        old.wf(),
    ensures
        visit_spec(old, child).1 matches Visit::Entry { hidden } ==> hidden == (child.is_hidden
            || old.hidden_parent),
        visit_spec(old, child).1 is Queued ==> visit_spec(old, child).0.pending.last() == (
            child.location@,
            (old.depth + 1) as usize,
            child.is_hidden || old.hidden_parent,
        ),
{
}

/// How a walk ended, as its caller saw it.
pub enum DiscoveryOutcome {
    /// The walk went through to its end.
    Completed,
    /// Reading the device failed with this message.
    Failed(String),
    /// The walk ran out of its time budget.
    TimedOut,
}

/// What the caller reports when a walk ends.
pub enum DirectoryEvent {
    Failed { request_id: u64, message: String },
    Finished {
        request_id: u64,
        truncated: bool,
        can_trash: Option<bool>,
        can_delete: Option<bool>,
    },
}

/// The report at the end of a walk, as `finish_event` gives it.
pub open spec fn finish_event_spec(request_id: u64, outcome: DiscoveryOutcome, library: LibraryView) -> DirectoryEvent {
    match outcome {
        DiscoveryOutcome::Failed(message) => DirectoryEvent::Failed { request_id, message },
        DiscoveryOutcome::Completed => DirectoryEvent::Finished {
            request_id,
            truncated: library.truncated,
            can_trash: library.can_trash,
            can_delete: library.can_delete,
        },
        DiscoveryOutcome::TimedOut => DirectoryEvent::Finished {
            request_id,
            truncated: true,
            can_trash: library.can_trash,
            can_delete: library.can_delete,
        },
    }
}

/// The report at the end of a walk: a failure carries its message; any other
/// end is a finished listing, truncated where the walk did not go through to
/// its end or a limit cut it short.
pub fn finish_event(request_id: u64, outcome: DiscoveryOutcome, library: &Library) -> (e:
    DirectoryEvent)
    ensures
        e == finish_event_spec(request_id, outcome, library@),
        library@.truncated ==> (e matches DirectoryEvent::Finished { truncated, .. } ==> truncated),
        outcome is Completed ==> (e matches DirectoryEvent::Finished { truncated, .. }
            && truncated == library@.truncated),
{
    match outcome {
        DiscoveryOutcome::Failed(message) => DirectoryEvent::Failed { request_id, message },
        DiscoveryOutcome::Completed => DirectoryEvent::Finished {
            request_id,
            truncated: library.truncated,
            can_trash: library.can_trash,
            can_delete: library.can_delete,
        },
        DiscoveryOutcome::TimedOut => DirectoryEvent::Finished {
            request_id,
            truncated: true,
            can_trash: library.can_trash,
            can_delete: library.can_delete,
        },
    }
}

} // verus!
