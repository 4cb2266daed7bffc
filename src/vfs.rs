//! The virtual file system's tree of paths: directories and files kept in
//! insertion order, with parent directories created on demand.

use vstd::prelude::*;
use vstd::string::StrSliceExecFns;
use crate::symbol_map::{lemma_find_from_bounds, lemma_find_skip};
use crate::text::{find_char, find_from};

verus! {

/// Where a file's bytes come from.
#[derive(Clone, Debug, PartialEq, Eq)]
pub enum FileSource {
    /// A range of the source disc image, passed through untouched.
    Disc { offset: u64, len: u64 },
    /// Bytes supplied by the caller.
    Buffer(Vec<u8>),
    /// A file on the host that replaces the content.
    HostPath(String),
}

/// The mathematical content of a [`FileSource`].
pub enum FileSourceView {
    Disc { offset: u64, len: u64 },
    Buffer(Seq<u8>),
    HostPath(Seq<char>),
}

impl View for FileSource {
    type V = FileSourceView;

    open spec fn view(&self) -> FileSourceView {
        match self {
            FileSource::Disc { offset, len } => FileSourceView::Disc { offset: *offset, len: *len },
            FileSource::Buffer(b) => FileSourceView::Buffer(b@),
            FileSource::HostPath(h) => FileSourceView::HostPath(h@),
        }
    }
}

/// Why a file system operation was refused, and the path it was given.
#[derive(Clone, Debug, PartialEq, Eq)]
pub struct VfsError {
    pub kind: VfsErrorKind,
    pub path: String,
}

/// The kinds of [`VfsError`].
#[derive(Clone, Copy, Debug, PartialEq, Eq, Structural)]
pub enum VfsErrorKind {
    /// The path has no components.
    InvalidPath,
    /// The path, or one of its parents, is already taken by an entry of the
    /// other kind, or the file already exists.
    NameConflict,
    /// No file has that path.
    NotFound,
}

/// A path as the sequence of its components.
pub type PathView = Seq<Seq<char>>;

/// An entry's path and whether it is a directory.
pub type EntryView = (PathView, bool);

/// The components of `s` split at `/`, empty ones dropped.
pub open spec fn path_components(s: Seq<char>) -> PathView
    decreases s.len(),
    via path_components_decreases
{
    if s.len() == 0 {
        seq![]
    } else {
        let k = find_from(s, '/', 0);
        let head = s.take(k);
        let tail = if k < s.len() {
            path_components(s.skip(k + 1))
        } else {
            seq![]
        };
        if head.len() == 0 {
            tail
        } else {
            seq![head] + tail
        }
    }
}

#[via_fn]
proof fn path_components_decreases(s: Seq<char>) {
    lemma_find_from_bounds(s, '/', 0);
}

/// The views of a list of strings.
pub open spec fn strings_view(v: Seq<String>) -> PathView {
    v.map_values(|s: String| s@)
}

/// The index of the first entry at or after `i` whose path is `p`, or -1.
pub open spec fn find_path(es: Seq<EntryView>, p: PathView, i: int) -> int
    decreases es.len() - i,
{
    if i < 0 || i >= es.len() {
        -1
    } else if es[i].0 == p {
        i
    } else {
        find_path(es, p, i + 1)
    }
}

/// Whether the parent of `p` with `j` components is a file in `es`.
pub open spec fn parent_is_file(es: Seq<EntryView>, p: PathView, j: int) -> bool {
    find_path(es, p.take(j), 0) >= 0 && !es[find_path(es, p.take(j), 0)].1
}

/// `es` with a directory appended for each of the first `k` parents of `p`
/// that `es` does not hold, shortest first.
pub open spec fn with_parents(es: Seq<EntryView>, p: PathView, k: int) -> Seq<EntryView>
    decreases k,
{
    if k <= 0 {
        es
    } else {
        let e = with_parents(es, p, k - 1);
        if find_path(es, p.take(k), 0) >= 0 {
            e
        } else {
            e.push((p.take(k), true))
        }
    }
}

/// The entries after adding a file at `p`, or why it is refused.
pub open spec fn add_outcome(es: Seq<EntryView>, p: PathView) -> Result<
    Seq<EntryView>,
    VfsErrorKind,
> {
    if p.len() == 0 {
        Err(VfsErrorKind::InvalidPath)
    } else if (exists|j: int| 1 <= j < p.len() && parent_is_file(es, p, j)) || find_path(es, p, 0)
        >= 0 {
        Err(VfsErrorKind::NameConflict)
    } else {
        Ok(with_parents(es, p, p.len() - 1).push((p, false)))
    }
}

/// Whether `p` names a file in `es`.
pub open spec fn is_file_at(es: Seq<EntryView>, p: PathView) -> bool {
    find_path(es, p, 0) >= 0 && !es[find_path(es, p, 0)].1
}

/// Whether `es` holds a directory at `q`.
pub open spec fn has_dir(es: Seq<EntryView>, q: PathView) -> bool {
    exists|t: int| 0 <= t < es.len() && es[t] == (q, true)
}

/// No two entries share a path.
pub open spec fn paths_unique(es: Seq<EntryView>) -> bool {
    forall|i: int, j: int| 0 <= i < j < es.len() ==> es[i].0 != es[j].0
}

/// One entry of the tree.
struct Entry {
    path: Vec<String>,
    is_dir: bool,
    source: Option<FileSource>,
}

/// A tree of directories and files, kept in the order entries were added;
/// a removed entry leaves no gap.
pub struct Vfs {
    entries: Vec<Entry>,
}

impl View for Vfs {
    type V = Seq<EntryView>;

    closed spec fn view(&self) -> Seq<EntryView> {
        self.entries@.map_values(|e: Entry| (strings_view(e.path@), e.is_dir))
    }
}

proof fn lemma_find_path_absent(es: Seq<EntryView>, p: PathView, i: int)
    requires
        0 <= i,
    ensures
        find_path(es, p, i) < 0 <==> forall|t: int| i <= t < es.len() ==> es[t].0 != p,
        find_path(es, p, i) >= 0 ==> i <= find_path(es, p, i) < es.len() && es[find_path(
            es,
            p,
            i,
        )].0 == p,
    decreases es.len() - i,
{
    if i < es.len() && es[i].0 != p {
        lemma_find_path_absent(es, p, i + 1);
    }
}

/// The parents that `with_parents` adds, and those already there, are all
/// directories of the result, which keeps `es` in front.
proof fn lemma_with_parents(es: Seq<EntryView>, p: PathView, k: int)
    requires
        0 <= k < p.len(),
        forall|j: int| 1 <= j <= k ==> !parent_is_file(es, p, j),
    ensures
        with_parents(es, p, k).len() >= es.len(),
        with_parents(es, p, k).take(es.len() as int) == es,
        forall|j: int| 1 <= j <= k ==> has_dir(with_parents(es, p, k), #[trigger] p.take(j)),
        forall|t: int|
            es.len() <= t < with_parents(es, p, k).len() ==> (#[trigger] with_parents(es, p, k)[t]).0.len()
                <= k,
        paths_unique(es) ==> paths_unique(with_parents(es, p, k)),
    decreases k,
{
    if k > 0 {
        lemma_with_parents(es, p, k - 1);
        let e0 = with_parents(es, p, k - 1);
        if find_path(es, p.take(k), 0) < 0 && paths_unique(es) {
            lemma_find_path_absent(es, p.take(k), 0);
            let w0 = e0.push((p.take(k), true));
            assert forall|i: int, j: int| 0 <= i < j < w0.len() implies w0[i].0 != w0[j].0 by {
                if j == e0.len() {
                    if i < es.len() {
                        assert(e0.take(es.len() as int)[i] == es[i]);
                    } else {
                        assert(e0[i].0.len() <= k - 1);
                    }
                }
            }
        }
        let e = with_parents(es, p, k - 1);
        let w = with_parents(es, p, k);
        assert(w.take(es.len() as int) =~= es) by {
            assert(e.take(es.len() as int) == es);
            if find_path(es, p.take(k), 0) < 0 {
                assert(e.push((p.take(k), true)).take(es.len() as int) =~= e.take(es.len() as int));
            }
        }
        assert forall|j: int| 1 <= j <= k implies has_dir(w, #[trigger] p.take(j)) by {
            if j < k {
                assert(has_dir(e, p.take(j)));
                let t = choose|t: int| 0 <= t < e.len() && #[trigger] e[t] == (p.take(j), true);
                assert(w[t] == e[t]);
            } else {
                lemma_find_path_absent(es, p.take(k), 0);
                if find_path(es, p.take(k), 0) >= 0 {
                    let f = find_path(es, p.take(k), 0);
                    assert(!parent_is_file(es, p, k));
                    assert(w.take(es.len() as int)[f] == es[f]);
                    assert(w[f] == (p.take(k), true));
                } else {
                    assert(w[e.len() as int] == (p.take(k), true));
                }
            }
        }
    }
}

/// Adding a file keeps every path in the tree unique.
proof fn lemma_add_keeps_paths_unique(es: Seq<EntryView>, p: PathView)
    requires
        paths_unique(es),
        add_outcome(es, p) is Ok,
    ensures
        paths_unique(add_outcome(es, p)->Ok_0),
{
    let k = p.len() - 1;
    let w = with_parents(es, p, k);
    let r = w.push((p, false));
    lemma_with_parents(es, p, k);
    lemma_find_path_absent(es, p, 0);
    assert forall|i: int, j: int| 0 <= i < j < r.len() implies r[i].0 != r[j].0 by {
        if j == w.len() {
            if i < es.len() {
                assert(w.take(es.len() as int)[i] == es[i]);
            } else {
                assert(w[i].0.len() <= k);
            }
        }
    }
}

/// Removing an entry keeps every path in the tree unique.
proof fn lemma_remove_keeps_paths_unique(es: Seq<EntryView>, i: int)
    requires
        paths_unique(es),
        0 <= i < es.len(),
    ensures
        paths_unique(es.remove(i)),
{
    let r = es.remove(i);
    assert forall|a: int, b: int| 0 <= a < b < r.len() implies r[a].0 != r[b].0 by {
        let a2 = if a < i { a } else { a + 1 };
        let b2 = if b < i { b } else { b + 1 };
        assert(r[a] == es[a2]);
        assert(r[b] == es[b2]);
    }
}

/// A file added at a path whose parents are missing creates each parent as
/// a directory; the file itself is the last entry, and the entries that were
/// there keep their places.
pub proof fn lemma_add_creates_parents(es: Seq<EntryView>, p: PathView)
    requires
        add_outcome(es, p) is Ok,
    ensures
        forall|j: int| 1 <= j < p.len() ==> has_dir(add_outcome(es, p)->Ok_0, #[trigger] p.take(j)),
        add_outcome(es, p)->Ok_0.last() == (p, false),
        add_outcome(es, p)->Ok_0.take(es.len() as int) == es,
{
    let k = p.len() - 1;
    let w = with_parents(es, p, k);
    let r = w.push((p, false));
    lemma_with_parents(es, p, k);
    assert forall|j: int| 1 <= j < p.len() implies has_dir(r, #[trigger] p.take(j)) by {
        assert(has_dir(w, p.take(j)));
        let t = choose|t: int| 0 <= t < w.len() && #[trigger] w[t] == (p.take(j), true);
        assert(r[t] == w[t]);
    }
    assert(r.take(es.len() as int) =~= w.take(es.len() as int));
}

} // verus!

verus! {

/// Splits a path at `/`, dropping empty components.
pub fn split_path(path: &str) -> (r: Vec<String>)
    ensures
        strings_view(r@) == path_components(path@),
{
    let n = path.unicode_len();
    let mut out: Vec<String> = Vec::new();
    let mut pos: usize = 0;
    proof {
        assert(path@.skip(0) =~= path@);
        assert(strings_view(out@) + path_components(path@) =~= path_components(path@));
    }
    while pos < n
        invariant
            n == path@.len(),
            pos <= n,
            strings_view(out@) + path_components(path@.skip(pos as int)) == path_components(
                path@,
            ),
        decreases n - pos,
    {
        let ghost s = path@.skip(pos as int);
        let ghost before = strings_view(out@);
        let k = find_char(path, '/', pos);
        proof {
            lemma_find_skip(path@, '/', pos as int, 0);
        }
        let head = path.substring_char(pos, k);
        assert(head@ =~= s.take(k - pos));
        if k > pos {
            out.push(head.to_owned());
            assert(strings_view(out@) =~= before + seq![head@]);
        }
        if k >= n {
            pos = n;
            assert(path_components(path@.skip(pos as int)) =~= seq![]);
            assert(strings_view(out@) + seq![] =~= strings_view(out@));
        } else {
            assert(s.skip(k - pos + 1) =~= path@.skip(k + 1));
            pos = k + 1;
        }
        proof {
            if k > pos - 1 && k < n {
                assert(before + (seq![head@] + path_components(path@.skip(pos as int))) =~= before
                    + seq![head@] + path_components(path@.skip(pos as int)));
            }
        }
    }
    proof {
        assert(path@.skip(pos as int) =~= seq![]);
        assert(strings_view(out@) + seq![] =~= strings_view(out@));
    }
    out
}

/// Whether `a` equals the first `k` components of `b`.
fn same_prefix(a: &Vec<String>, b: &Vec<String>, k: usize) -> (r: bool)
    requires
        k <= b@.len(),
    ensures
        r == (strings_view(a@) == strings_view(b@).take(k as int)),
{
    if a.len() != k {
        assert(strings_view(a@).len() != strings_view(b@).take(k as int).len());
        return false;
    }
    let mut i: usize = 0;
    while i < k
        invariant
            a@.len() == k,
            k <= b@.len(),
            i <= k,
            forall|t: int| 0 <= t < i ==> a@[t]@ == b@[t]@,
        decreases k - i,
    {
        if a[i] != b[i] {
            assert(strings_view(a@)[i as int] != strings_view(b@).take(k as int)[i as int]);
            return false;
        }
        i = i + 1;
    }
    assert(strings_view(a@) =~= strings_view(b@).take(k as int));
    true
}

/// The first `k` components of `p`, copied.
fn prefix_of(p: &Vec<String>, k: usize) -> (r: Vec<String>)
    requires
        k <= p@.len(),
    ensures
        strings_view(r@) == strings_view(p@).take(k as int),
{
    let mut out: Vec<String> = Vec::new();
    let mut i: usize = 0;
    while i < k
        invariant
            k <= p@.len(),
            i <= k,
            strings_view(out@) == strings_view(p@).take(i as int),
        decreases k - i,
    {
        let ghost before = out@;
        let c = p[i].clone();
        out.push(c);
        assert(out@ == before.push(c));
        assert(c@ == p@[i as int]@);
        assert(strings_view(out@) =~= strings_view(before).push(c@));
        assert(strings_view(p@).take(i + 1) =~= strings_view(p@).take(i as int).push(c@));
        i = i + 1;
    }
    out
}

impl Vfs {
    /// The source of each entry, in entry order; directories have none.
    pub closed spec fn sources(&self) -> Seq<Option<FileSourceView>> {
        self.entries@.map_values(
            |e: Entry|
                match e.source {
                    Some(s) => Some(s@),
                    None => None,
                },
        )
    }

    /// The tree's invariant: no two entries share a path, and every entry has
    /// its place in [`Vfs::sources`].
    pub open spec fn wf(&self) -> bool {
        &&& paths_unique(self@)
        &&& self.sources().len() == self@.len()
    }

    /// An empty tree.
    pub fn new() -> (r: Vfs)
        ensures
            r@ == Seq::<EntryView>::empty(),
            r.wf(),
    {
        let r = Vfs { entries: Vec::new() };
        assert(r@ =~= Seq::<EntryView>::empty());
        assert(r.sources() =~= Seq::<Option<FileSourceView>>::empty());
        r
    }

    /// The number of entries, directories included.
    pub fn len(&self) -> (r: usize)
        ensures
            r == self@.len(),
    {
        self.entries.len()
    }

    /// The index of the entry whose path is the first `k` components of `p`.
    fn find_entry(&self, p: &Vec<String>, k: usize) -> (r: Option<usize>)
        requires
            k <= p@.len(),
        ensures
            r matches Some(i) ==> i as int == find_path(self@, strings_view(p@).take(k as int), 0)
                && i < self@.len(),
            r is None ==> find_path(self@, strings_view(p@).take(k as int), 0) < 0,
    {
        let ghost q = strings_view(p@).take(k as int);
        let mut i: usize = 0;
        while i < self.entries.len()
            invariant
                k <= p@.len(),
                q == strings_view(p@).take(k as int),
                i <= self@.len(),
                self@.len() == self.entries@.len(),
                find_path(self@, q, i as int) == find_path(self@, q, 0),
            decreases self@.len() - i,
        {
            assert(self@[i as int].0 == strings_view(self.entries@[i as int].path@));
            if same_prefix(&self.entries[i].path, p, k) {
                return Some(i);
            }
            i = i + 1;
        }
        None
    }

    /// Whether `path` names a directory (`Some(true)`), a file
    /// (`Some(false)`), or nothing.
    pub fn lookup(&self, path: &str) -> (r: Option<bool>)
        ensures
            find_path(self@, path_components(path@), 0) >= 0 ==> r == Some(
                self@[find_path(self@, path_components(path@), 0)].1,
            ),
            find_path(self@, path_components(path@), 0) < 0 ==> r is None,
    {
        let p = split_path(path);
        assert(strings_view(p@).take(p@.len() as int) =~= strings_view(p@));
        match self.find_entry(&p, p.len()) {
            Some(i) => {
                assert(self@[i as int].1 == self.entries@[i as int].is_dir);
                Some(self.entries[i].is_dir)
            },
            None => None,
        }
    }

    /// The source of the file at `path`, if a file is there.
    pub fn source_of(&self, path: &str) -> (r: Option<&FileSource>)
        requires
            self.wf(),
        ensures
            is_file_at(self@, path_components(path@)) ==> self.sources()[find_path(
                self@,
                path_components(path@),
                0,
            )] == match r {
                Some(s) => Some(s@),
                None => None::<FileSourceView>,
            },
            !is_file_at(self@, path_components(path@)) ==> r is None,
    {
        let p = split_path(path);
        assert(strings_view(p@).take(p@.len() as int) =~= strings_view(p@));
        match self.find_entry(&p, p.len()) {
            Some(i) => {
                assert(self@[i as int].1 == self.entries@[i as int].is_dir);
                if self.entries[i].is_dir {
                    return None;
                }
                assert(self.sources()[i as int] == match self.entries@[i as int].source {
                    Some(s) => Some(s@),
                    None => None::<FileSourceView>,
                });
                match &self.entries[i].source {
                    Some(s) => Some(s),
                    None => None,
                }
            },
            None => None,
        }
    }

    /// Adds a file at `path` with `source`, creating missing parent
    /// directories after the existing entries and the file after them.
    /// Refused when the path is empty, when a parent is a file, or when the
    /// path is already taken; the error names the path.
    pub fn add_file(&mut self, path: &str, source: FileSource) -> (r: Result<(), VfsError>)
        requires
            old(self).wf(),
        ensures
            final(self).wf(),
            match add_outcome(old(self)@, path_components(path@)) {
                Ok(es) => r is Ok && final(self)@ == es && final(self).sources() == old(
                    self,
                ).sources() + Seq::new((es.len() - old(self)@.len() - 1) as nat, |i: int| None)
                    + seq![Some(source@)],
                Err(k) => r matches Err(e) && e.kind == k && e.path@ == path@ && final(self)@ == old(
                    self,
                )@ && final(self).sources() == old(self).sources(),
            },
    {
        let p = split_path(path);
        let ghost pv = strings_view(p@);
        let ghost es = self@;
        let ghost srcs = self.sources();
        let n = p.len();
        if n == 0 {
            return Err(VfsError { kind: VfsErrorKind::InvalidPath, path: path.to_owned() });
        }
        let mut missing: Vec<bool> = Vec::new();
        let mut k: usize = 1;
        while k < n
            invariant
                1 <= k <= n,
                n == p@.len(),
                pv == strings_view(p@),
                pv == path_components(path@),
                es == old(self)@,
                paths_unique(es),
                es == self@,
                self@.len() == self.entries@.len(),
                missing@.len() == k - 1,
                forall|j: int| 1 <= j < k ==> !parent_is_file(es, pv, j),
                forall|j: int|
                    1 <= j < k ==> missing@[j - 1] == (find_path(es, #[trigger] pv.take(j), 0) < 0),
            decreases n - k,
        {
            match self.find_entry(&p, k) {
                Some(i) => {
                    assert(self@[i as int].1 == self.entries@[i as int].is_dir);
                    if !self.entries[i].is_dir {
                        assert(parent_is_file(es, pv, k as int));
                        assert(exists|j: int| 1 <= j < pv.len() && parent_is_file(es, pv, j));
                        return Err(VfsError { kind: VfsErrorKind::NameConflict, path: path.to_owned() });
                    }
                    missing.push(false);
                },
                None => {
                    missing.push(true);
                },
            }
            k = k + 1;
        }
        assert(pv.take(n as int) =~= pv);
        if self.find_entry(&p, n).is_some() {
            return Err(VfsError { kind: VfsErrorKind::NameConflict, path: path.to_owned() });
        }
        let mut k: usize = 1;
        assert(srcs + Seq::new(0, |i: int| None::<FileSourceView>) =~= srcs);
        while k < n
            invariant
                1 <= k <= n,
                n == p@.len(),
                pv == strings_view(p@),
                pv == path_components(path@),
                es == old(self)@,
                srcs == old(self).sources(),
                srcs.len() == es.len(),
                paths_unique(es),
                missing@.len() == n - 1,
                forall|j: int|
                    1 <= j < n ==> missing@[j - 1] == (find_path(es, #[trigger] pv.take(j), 0) < 0),
                self@ == with_parents(es, pv, k - 1),
                self@.len() >= es.len(),
                self.sources() == srcs + Seq::new(
                    (self@.len() - es.len()) as nat,
                    |i: int| None::<FileSourceView>,
                ),
            decreases n - k,
        {
            if missing[k - 1] {
                let dir = prefix_of(&p, k);
                let ghost before = self@;
                let ghost before_s = self.sources();
                self.entries.push(Entry { path: dir, is_dir: true, source: None });
                assert(self@ =~= before.push((pv.take(k as int), true)));
                assert(self.sources() =~= before_s.push(None));
                assert(self.sources() =~= srcs + Seq::new(
                    (self@.len() - es.len()) as nat,
                    |i: int| None::<FileSourceView>,
                ));
            }
            k = k + 1;
        }
        let ghost before = self@;
        let ghost before_s = self.sources();
        self.entries.push(Entry { path: p, is_dir: false, source: Some(source) });
        assert(self@ =~= before.push((pv, false)));
        assert(self.sources() =~= before_s.push(Some(source@)));
        proof {
            lemma_add_keeps_paths_unique(es, pv);
        }
        Ok(())
    }

    /// Removes the file at `path`; the entries after it move up. Refused
    /// with `NotFound`, naming the path, when no file has that path.
    pub fn remove_file(&mut self, path: &str) -> (r: Result<(), VfsError>)
        requires
            old(self).wf(),
        ensures
            final(self).wf(),
            is_file_at(old(self)@, path_components(path@)) ==> r is Ok && final(self)@ == old(
                self,
            )@.remove(find_path(old(self)@, path_components(path@), 0)) && final(self).sources()
                == old(self).sources().remove(find_path(old(self)@, path_components(path@), 0)),
            !is_file_at(old(self)@, path_components(path@)) ==> (r matches Err(e) && e.kind
                == VfsErrorKind::NotFound && e.path@ == path@) && final(self)@ == old(self)@
                && final(self).sources() == old(self).sources(),
    {
        let p = split_path(path);
        assert(strings_view(p@).take(p@.len() as int) =~= strings_view(p@));
        match self.find_entry(&p, p.len()) {
            Some(i) => {
                assert(self@[i as int].1 == self.entries@[i as int].is_dir);
                if self.entries[i].is_dir {
                    return Err(VfsError { kind: VfsErrorKind::NotFound, path: path.to_owned() });
                }
                let ghost before = self@;
                let ghost before_s = self.sources();
                self.entries.remove(i);
                assert(self@ =~= before.remove(i as int));
                assert(self.sources() =~= before_s.remove(i as int));
                proof {
                    lemma_remove_keeps_paths_unique(before, i as int);
                }
                Ok(())
            },
            None => Err(VfsError { kind: VfsErrorKind::NotFound, path: path.to_owned() }),
        }
    }

    /// Gives the file at `path` the new `source`; the tree's shape and every
    /// other entry's source are unchanged. Refused with `NotFound`, naming the
    /// path, when no file has that path.
    pub fn replace_file(&mut self, path: &str, source: FileSource) -> (r: Result<(), VfsError>)
        requires
            old(self).wf(),
        ensures
            final(self).wf(),
            final(self)@ == old(self)@,
            is_file_at(old(self)@, path_components(path@)) ==> r is Ok && final(self).sources()
                == old(self).sources().update(
                find_path(old(self)@, path_components(path@), 0),
                Some(source@),
            ),
            !is_file_at(old(self)@, path_components(path@)) ==> (r matches Err(e) && e.kind
                == VfsErrorKind::NotFound && e.path@ == path@) && final(self).sources() == old(
                self,
            ).sources(),
    {
        let p = split_path(path);
        assert(strings_view(p@).take(p@.len() as int) =~= strings_view(p@));
        match self.find_entry(&p, p.len()) {
            Some(i) => {
                assert(self@[i as int].1 == self.entries@[i as int].is_dir);
                if self.entries[i].is_dir {
                    return Err(VfsError { kind: VfsErrorKind::NotFound, path: path.to_owned() });
                }
                let ghost before = self@;
                let ghost before_s = self.sources();
                let old_entry = self.entries.remove(i);
                let entry = Entry { path: old_entry.path, is_dir: false, source: Some(source) };
                self.entries.insert(i, entry);
                assert(self@ =~= before);
                assert(self.sources() =~= before_s.update(i as int, Some(source@)));
                Ok(())
            },
            None => Err(VfsError { kind: VfsErrorKind::NotFound, path: path.to_owned() }),
        }
    }
}

} // verus!
