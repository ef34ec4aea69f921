//! The in-memory model of the watched directory tree.
//!
//! Entries map a path to a directory or a file with structured contents;
//! every mutating operation also appends to an action log, which an outer
//! layer replays against the real disk. Renaming or removing a directory
//! carries its whole subtree along, as the real filesystem does.

use vstd::prelude::*;

use crate::alist::{
    lemma_map_of_pairs_absent, lemma_map_of_pairs_find, map_of_pairs, unique_keys,
};
use crate::datafile::{DataFile, DataFileV};
use crate::path::{spec_strict_prefix, FsPath, PathCompV};
use crate::project::{ProjectDoc, ProjectDocV};
use crate::value::{TypedValue, TypedValueV};

verus! {

/// The main content file of an instance, as written by a middleware: the
/// class it was written for and the consumed main property, if any.
#[derive(Debug, PartialEq)]
pub struct ContentFile {
    pub class: String,
    pub main: Option<TypedValue>,
}

pub ghost struct ContentFileV {
    pub class: Seq<char>,
    pub main: Option<TypedValueV>,
}

impl View for ContentFile {
    type V = ContentFileV;

    open spec fn view(&self) -> ContentFileV {
        ContentFileV {
            class: self.class@,
            main: match self.main {
                Some(v) => Some(v@),
                None => None,
            },
        }
    }
}

/// What a file holds: instance content, a sidecar data file, or a project
/// document.
#[derive(Debug, PartialEq)]
pub enum FileBody {
    Content(ContentFile),
    Data(DataFile),
    Project(ProjectDoc),
}

pub ghost enum FileBodyV {
    Content(ContentFileV),
    Data(DataFileV),
    Project(ProjectDocV),
}

impl View for FileBody {
    type V = FileBodyV;

    open spec fn view(&self) -> FileBodyV {
        match self {
            FileBody::Content(c) => FileBodyV::Content(c@),
            FileBody::Data(d) => FileBodyV::Data(d@),
            FileBody::Project(p) => FileBodyV::Project(p@),
        }
    }
}

impl Clone for ContentFile {
    fn clone(&self) -> (r: Self)
        ensures
            r@ == self@,
    {
        ContentFile {
            class: self.class.clone(),
            main: match &self.main {
                Some(v) => Some(v.clone()),
                None => None,
            },
        }
    }
}

impl FileBody {
    /// Clone a file body, preserving its value.
    pub fn clone_body(&self) -> (r: FileBody)
        ensures
            r@ == self@,
    {
        match self {
            FileBody::Content(c) => FileBody::Content(c.clone()),
            FileBody::Data(d) => FileBody::Data(d.clone()),
            FileBody::Project(p) => FileBody::Project(p.clone()),
        }
    }
}

/// A stored file body is usable: a sidecar's property keys are unique and a
/// stored document's node is well formed.
pub open spec fn body_ok(b: FileBody) -> bool {
    match b {
        FileBody::Content(..) => true,
        FileBody::Data(d) => d.properties.wf(),
        FileBody::Project(doc) => crate::project::node_wf(doc.node),
    }
}

/// A stored entry is usable.
pub open spec fn stored_entry_ok(e: FsEntry) -> bool {
    match e {
        FsEntry::Dir => true,
        FsEntry::File(b) => body_ok(b),
    }
}

/// One entry of the directory tree.
#[derive(Debug, PartialEq)]
pub enum FsEntry {
    Dir,
    File(FileBody),
}

pub ghost enum FsEntryV {
    Dir,
    File(FileBodyV),
}

impl View for FsEntry {
    type V = FsEntryV;

    open spec fn view(&self) -> FsEntryV {
        match self {
            FsEntry::Dir => FsEntryV::Dir,
            FsEntry::File(b) => FsEntryV::File(b@),
        }
    }
}

/// One recorded filesystem effect, for replay against the real disk.
#[derive(Debug, PartialEq)]
pub enum FsAction {
    WriteDir(FsPath),
    WriteFile(FsPath, FileBody),
    Rename(FsPath, FsPath),
    Remove(FsPath),
    Watch(FsPath, bool),
}

pub ghost enum FsActionV {
    WriteDir(Seq<PathCompV>),
    WriteFile(Seq<PathCompV>, FileBodyV),
    Rename(Seq<PathCompV>, Seq<PathCompV>),
    Remove(Seq<PathCompV>),
    Watch(Seq<PathCompV>, bool),
}

impl View for FsAction {
    type V = FsActionV;

    open spec fn view(&self) -> FsActionV {
        match self {
            FsAction::WriteDir(p) => FsActionV::WriteDir(p@),
            FsAction::WriteFile(p, b) => FsActionV::WriteFile(p@, b@),
            FsAction::Rename(a, b) => FsActionV::Rename(a@, b@),
            FsAction::Remove(p) => FsActionV::Remove(p@),
            FsAction::Watch(p, r) => FsActionV::Watch(p@, *r),
        }
    }
}

/// Whether an action is a rename.
pub open spec fn is_rename_action(a: FsActionV) -> bool {
    a is Rename
}

/// A failed filesystem operation.
#[derive(Debug, PartialEq, Eq, Structural, Clone, Copy)]
pub enum VfsError {
    NotFound,
}

/// `k` equals `base` or lies inside the directory `base`.
pub open spec fn path_under_eq(k: Seq<PathCompV>, base: Seq<PathCompV>) -> bool {
    k == base || spec_strict_prefix(base, k)
}

/// Re-root a path from under `from` to under `to`.
pub open spec fn rebase_path(
    k: Seq<PathCompV>,
    from: Seq<PathCompV>,
    to: Seq<PathCompV>,
) -> Seq<PathCompV> {
    to + k.skip(from.len() as int)
}

/// The entries after removing `base` and everything under it.
pub open spec fn spec_remove_subtree(
    m: Map<Seq<PathCompV>, FsEntryV>,
    base: Seq<PathCompV>,
) -> Map<Seq<PathCompV>, FsEntryV> {
    Map::new(|k: Seq<PathCompV>| m.contains_key(k) && !path_under_eq(k, base), |k| m[k])
}

/// The entries after renaming `from` to `to`: everything at or under `from`
/// moves to the corresponding path at or under `to`, replacing whatever was
/// there.
pub open spec fn spec_rename_map(
    m: Map<Seq<PathCompV>, FsEntryV>,
    from: Seq<PathCompV>,
    to: Seq<PathCompV>,
) -> Map<Seq<PathCompV>, FsEntryV> {
    Map::new(
        |k: Seq<PathCompV>| if path_under_eq(k, to) {
            m.contains_key(rebase_path(k, to, from))
        } else {
            m.contains_key(k) && !path_under_eq(k, from)
        },
        |k: Seq<PathCompV>| if path_under_eq(k, to) {
            m[rebase_path(k, to, from)]
        } else {
            m[k]
        },
    )
}

/// A path under `base` decomposes into `base` plus its remainder.
pub proof fn lemma_under_eq_decompose(k: Seq<PathCompV>, base: Seq<PathCompV>)
    requires
        path_under_eq(k, base),
    ensures
        k == base + k.skip(base.len() as int),
{
    assert(k =~= base + k.skip(base.len() as int));
}

/// Rebasing lands at or under the target root.
pub proof fn lemma_rebase_under(k: Seq<PathCompV>, from: Seq<PathCompV>, to: Seq<PathCompV>)
    requires
        path_under_eq(k, from),
    ensures
        path_under_eq(rebase_path(k, from, to), to),
        rebase_path(rebase_path(k, from, to), to, from) == k,
{
    let r = rebase_path(k, from, to);
    assert(r.len() >= to.len());
    if r.len() == to.len() {
        assert(r =~= to);
    } else {
        assert(to =~= r.subrange(0, to.len() as int));
    }
    assert(r.skip(to.len() as int) =~= k.skip(from.len() as int));
    lemma_under_eq_decompose(k, from);
    assert(rebase_path(r, to, from) =~= k);
}

/// The in-memory directory tree plus the log of effects.
#[derive(Debug)]
pub struct Vfs {
    pub entries: Vec<(FsPath, FsEntry)>,
    pub log: Vec<FsAction>,
}

/// The spec-level entry pairs.
pub open spec fn entry_pairs(v: Seq<(FsPath, FsEntry)>) -> Seq<(Seq<PathCompV>, FsEntryV)> {
    v.map_values(|p: (FsPath, FsEntry)| (p.0@, p.1@))
}

impl View for Vfs {
    type V = Map<Seq<PathCompV>, FsEntryV>;

    open spec fn view(&self) -> Map<Seq<PathCompV>, FsEntryV> {
        map_of_pairs(entry_pairs(self.entries@))
    }
}

impl Vfs {
    pub open spec fn pairs(&self) -> Seq<(Seq<PathCompV>, FsEntryV)> {
        entry_pairs(self.entries@)
    }

    /// Well-formedness: one entry per path, each stored body usable.
    pub open spec fn wf(&self) -> bool {
        &&& unique_keys(self.pairs())
        &&& forall|i: int| 0 <= i < self.entries@.len() ==> stored_entry_ok(
            (#[trigger] self.entries@[i]).1,
        )
    }

    /// The recorded effects, oldest first.
    pub open spec fn log_view(&self) -> Seq<FsActionV> {
        self.log@.map_values(|a: FsAction| a@)
    }

    /// An empty tree with an empty log.
    pub fn new() -> (r: Vfs)
        ensures
            r.wf(),
            r@ == Map::<Seq<PathCompV>, FsEntryV>::empty(),
            r.log_view() == Seq::<FsActionV>::empty(),
    {
        let r = Vfs { entries: Vec::new(), log: Vec::new() };
        proof {
            assert(r.pairs() =~= Seq::<(Seq<PathCompV>, FsEntryV)>::empty());
            assert(r.log_view() =~= Seq::<FsActionV>::empty());
        }
        r
    }

    /// Find the index of the entry at `path`.
    fn find(&self, path: &FsPath) -> (r: Option<usize>)
        requires
            self.wf(),
        ensures
            match r {
                Some(i) => i < self.entries@.len() && self.pairs()[i as int].0 == path@
                    && self@.contains_key(path@) && self@[path@] == self.pairs()[i as int].1,
                None => !self@.contains_key(path@),
            },
    {
        let mut i: usize = 0;
        while i < self.entries.len()
            invariant
                self.wf(),
                i <= self.entries.len(),
                forall|j: int| 0 <= j < i ==> (#[trigger] self.pairs()[j]).0 != path@,
            decreases self.entries.len() - i,
        {
            if self.entries[i].0.eq_path(path) {
                proof {
                    assert(self.pairs()[i as int].0 == path@);
                    lemma_map_of_pairs_find(self.pairs(), i as int);
                }
                return Some(i);
            }
            proof {
                assert(self.pairs()[i as int].0 != path@);
            }
            i += 1;
        }
        proof {
            lemma_map_of_pairs_absent(self.pairs(), path@);
        }
        None
    }

    pub fn path_exists(&self, path: &FsPath) -> (r: bool)
        requires
            self.wf(),
        ensures
            r == self@.contains_key(path@),
    {
        self.find(path).is_some()
    }

    pub fn is_dir(&self, path: &FsPath) -> (r: bool)
        requires
            self.wf(),
        ensures
            r == (self@.contains_key(path@) && self@[path@] is Dir),
    {
        match self.find(path) {
            Some(i) => match &self.entries[i].1 {
                FsEntry::Dir => true,
                FsEntry::File(_) => false,
            },
            None => false,
        }
    }

    pub fn is_file(&self, path: &FsPath) -> (r: bool)
        requires
            self.wf(),
        ensures
            r == (self@.contains_key(path@) && self@[path@] is File),
    {
        match self.find(path) {
            Some(i) => match &self.entries[i].1 {
                FsEntry::Dir => false,
                FsEntry::File(_) => true,
            },
            None => false,
        }
    }

    /// Read the file at `path`, if there is one.
    pub fn read(&self, path: &FsPath) -> (r: Option<&FileBody>)
        requires
            self.wf(),
        ensures
            match r {
                Some(b) => self@.contains_key(path@) && self@[path@] == FsEntryV::File(b@)
                    && body_ok(*b),
                None => !(self@.contains_key(path@) && self@[path@] is File),
            },
    {
        match self.find(path) {
            Some(i) => match &self.entries[i].1 {
                FsEntry::Dir => None,
                FsEntry::File(b) => Some(b),
            },
            None => None,
        }
    }

    /// Replace or create the entry at `path`, without logging.
    fn set_entry(&mut self, path: &FsPath, entry: FsEntry)
        requires
            old(self).wf(),
            stored_entry_ok(entry),
        ensures
            final(self).wf(),
            final(self)@ == old(self)@.insert(path@, entry@),
            final(self).log@ == old(self).log@,
    {
        let found = self.find(path);
        match found {
            Some(i) => {
                let ghost oldp = self.pairs();
                self.entries.remove(i);
                proof {
                    assert(self.pairs() =~= oldp.remove(i as int));
                    crate::alist::lemma_remove_idx(oldp, i as int);
                }
            }
            None => {}
        }
        let ghost mid = self.pairs();
        self.entries.push((path.clone_path(), entry));
        proof {
            assert(self.pairs() =~= mid.push((path@, entry@)));
            assert(self.pairs().drop_last() =~= mid);
            assert(forall|j: int| 0 <= j < mid.len() ==> (#[trigger] mid[j]).0 != path@) by {
                if exists|j: int| 0 <= j < mid.len() && (#[trigger] mid[j]).0 == path@ {
                    let j = choose|j: int| 0 <= j < mid.len() && (#[trigger] mid[j]).0 == path@;
                    lemma_map_of_pairs_find(mid, j);
                }
            }
            assert(final(self)@ =~= old(self)@.insert(path@, entry@));
        }
    }

    /// Write a file: the entry is created or replaced.
    pub fn write_file(&mut self, path: &FsPath, body: FileBody)
        requires
            old(self).wf(),
            body_ok(body),
        ensures
            final(self).wf(),
            final(self)@ == old(self)@.insert(path@, FsEntryV::File(body@)),
            final(self).log_view() == old(self).log_view().push(
                FsActionV::WriteFile(path@, body@),
            ),
    {
        let ghost bv = body@;
        self.log.push(FsAction::WriteFile(path.clone_path(), body.clone_body()));
        self.set_entry(path, FsEntry::File(body));
        proof {
            assert(final(self).log_view() =~= old(self).log_view().push(
                FsActionV::WriteFile(path@, bv),
            ));
        }
    }

    /// Create a directory entry.
    pub fn write_dir(&mut self, path: &FsPath)
        requires
            old(self).wf(),
        ensures
            final(self).wf(),
            final(self)@ == old(self)@.insert(path@, FsEntryV::Dir),
            final(self).log_view() == old(self).log_view().push(FsActionV::WriteDir(path@)),
    {
        self.log.push(FsAction::WriteDir(path.clone_path()));
        self.set_entry(path, FsEntry::Dir);
        proof {
            assert(final(self).log_view() =~= old(self).log_view().push(
                FsActionV::WriteDir(path@),
            ));
        }
    }

    /// Record a watch request; the tree is unchanged.
    pub fn watch(&mut self, path: &FsPath, recursive: bool)
        ensures
            final(self)@ == old(self)@,
            final(self).entries == old(self).entries,
            final(self).pairs() == old(self).pairs(),
            final(self).log_view() == old(self).log_view().push(
                FsActionV::Watch(path@, recursive),
            ),
    {
        self.log.push(FsAction::Watch(path.clone_path(), recursive));
        proof {
            assert(final(self).log_view() =~= old(self).log_view().push(
                FsActionV::Watch(path@, recursive),
            ));
        }
    }

    /// Remove the entry at `path` and everything under it. Fails, changing
    /// nothing, when there is no such entry.
    pub fn remove(&mut self, path: &FsPath) -> (r: Result<(), VfsError>)
        requires
            old(self).wf(),
        ensures
            final(self).wf(),
            match r {
                Ok(()) => old(self)@.contains_key(path@) && final(self)@
                    == spec_remove_subtree(old(self)@, path@) && final(self).log_view()
                    == old(self).log_view().push(FsActionV::Remove(path@)),
                Err(_) => !old(self)@.contains_key(path@) && final(self)@ == old(self)@
                    && final(self).log_view() == old(self).log_view(),
            },
    {
        if !self.path_exists(path) {
            return Err(VfsError::NotFound);
        }
        self.log.push(FsAction::Remove(path.clone_path()));
        let mut kept: Vec<(FsPath, FsEntry)> = Vec::new();
        let mut rest: Vec<(FsPath, FsEntry)> = Vec::new();
        core::mem::swap(&mut rest, &mut self.entries);
        let total: usize = rest.len();
        let ghost allp = entry_pairs(rest@);
        let mut i: usize = 0;
        proof {
            assert(entry_pairs(kept@) =~= Seq::<(Seq<PathCompV>, FsEntryV)>::empty());
            assert(map_of_pairs(entry_pairs(kept@)) =~= spec_remove_subtree(
                map_of_pairs(allp.take(0)),
                path@,
            ));
        }
        while rest.len() > 0
            invariant
                i + rest.len() == total,
                allp.len() == total,
                unique_keys(allp),
                entry_pairs(rest@) =~= allp.skip(i as int),
                unique_keys(entry_pairs(kept@)),
                forall|j: int| 0 <= j < rest@.len() ==> stored_entry_ok(
                    (#[trigger] rest@[j]).1,
                ),
                forall|j: int| 0 <= j < kept@.len() ==> stored_entry_ok(
                    (#[trigger] kept@[j]).1,
                ),
                map_of_pairs(entry_pairs(kept@)) == spec_remove_subtree(
                    map_of_pairs(allp.take(i as int)),
                    path@,
                ),
            decreases rest.len(),
        {
            let ghost prevrest = entry_pairs(rest@);
            let ghost prevkept = entry_pairs(kept@);
            let ghost prevmap = map_of_pairs(prevkept);
            let (p, e) = rest.remove(0);
            proof {
                assert(entry_pairs(rest@) =~= prevrest.drop_first());
                assert(prevrest[0] == allp[i as int]);
                assert(p@ == allp[i as int].0);
                assert(e@ == allp[i as int].1);
                assert(prevrest.drop_first() =~= allp.skip(i as int + 1));
                assert(allp.take(i as int + 1).drop_last() =~= allp.take(i as int));
                assert(map_of_pairs(allp.take(i as int + 1)) == map_of_pairs(allp.take(i as int))
                    .insert(allp[i as int].0, allp[i as int].1));
                assert forall|j: int| 0 <= j < i implies (#[trigger] allp.take(i as int)[j]).0
                    != p@ by {
                    assert(allp.take(i as int)[j] == allp[j]);
                    assert(allp[j].0 != allp[i as int].0);
                }
                lemma_map_of_pairs_absent(allp.take(i as int), p@);
            }
            let under = path.eq_path(&p) || path.is_strict_prefix_of(&p);
            if !under {
                kept.push((p, e));
                proof {
                    lemma_step_remove_kept(allp[i as int], path@, map_of_pairs(allp.take(i as int)));
                    assert(entry_pairs(kept@) =~= prevkept.push(allp[i as int]));
                    assert(entry_pairs(kept@).drop_last() =~= prevkept);
                    assert(map_of_pairs(entry_pairs(kept@)) == prevmap.insert(
                        allp[i as int].0,
                        allp[i as int].1,
                    ));
                    assert(!prevmap.contains_key(p@));
                    lemma_unique_after_push(prevkept, allp[i as int]);
                    assert(map_of_pairs(entry_pairs(kept@)) =~= spec_remove_subtree(
                        map_of_pairs(allp.take(i as int + 1)),
                        path@,
                    ));
                }
            } else {
                proof {
                    lemma_step_remove_dropped(allp[i as int], path@, map_of_pairs(allp.take(i as int)));
                    assert(map_of_pairs(entry_pairs(kept@)) =~= spec_remove_subtree(
                        map_of_pairs(allp.take(i as int + 1)),
                        path@,
                    ));
                }
            }
            i += 1;
        }
        self.entries = kept;
        proof {
            assert(allp.take(allp.len() as int) =~= allp);
            assert(final(self).log_view() =~= old(self).log_view().push(
                FsActionV::Remove(path@),
            ));
        }
        Ok(())
    }

    /// Rename `from` to `to`, carrying everything under `from` along and
    /// replacing anything at or under `to`. Fails, changing nothing, when
    /// `from` has no entry.
    pub fn rename(&mut self, from: &FsPath, to: &FsPath) -> (r: Result<(), VfsError>)
        requires
            old(self).wf(),
        ensures
            final(self).wf(),
            match r {
                Ok(()) => old(self)@.contains_key(from@) && final(self)@ == spec_rename_map(
                    old(self)@,
                    from@,
                    to@,
                ) && final(self).log_view() == old(self).log_view().push(
                    FsActionV::Rename(from@, to@),
                ),
                Err(_) => !old(self)@.contains_key(from@) && final(self)@ == old(self)@
                    && final(self).log_view() == old(self).log_view(),
            },
    {
        if !self.path_exists(from) {
            return Err(VfsError::NotFound);
        }
        self.log.push(FsAction::Rename(from.clone_path(), to.clone_path()));
        if from.eq_path(to) {
            proof {
                lemma_rename_map_same(old(self)@, from@);
                assert(final(self).log_view() =~= old(self).log_view().push(
                    FsActionV::Rename(from@, to@),
                ));
            }
            return Ok(());
        }
        let mut kept: Vec<(FsPath, FsEntry)> = Vec::new();
        let mut rest: Vec<(FsPath, FsEntry)> = Vec::new();
        core::mem::swap(&mut rest, &mut self.entries);
        let total: usize = rest.len();
        let ghost allp = entry_pairs(rest@);
        let mut i: usize = 0;
        proof {
            assert(entry_pairs(kept@) =~= Seq::<(Seq<PathCompV>, FsEntryV)>::empty());
            assert(map_of_pairs(entry_pairs(kept@)) =~= spec_rename_map(
                map_of_pairs(allp.take(0)),
                from@,
                to@,
            ));
        }
        while rest.len() > 0
            invariant
                from@ != to@,
                i + rest.len() == total,
                allp.len() == total,
                unique_keys(allp),
                entry_pairs(rest@) =~= allp.skip(i as int),
                unique_keys(entry_pairs(kept@)),
                forall|j: int| 0 <= j < rest@.len() ==> stored_entry_ok(
                    (#[trigger] rest@[j]).1,
                ),
                forall|j: int| 0 <= j < kept@.len() ==> stored_entry_ok(
                    (#[trigger] kept@[j]).1,
                ),
                map_of_pairs(entry_pairs(kept@)) == spec_rename_map(
                    map_of_pairs(allp.take(i as int)),
                    from@,
                    to@,
                ),
            decreases rest.len(),
        {
            let ghost prevrest = entry_pairs(rest@);
            let ghost prevkept = entry_pairs(kept@);
            let ghost prevmap = map_of_pairs(prevkept);
            let (p, e) = rest.remove(0);
            proof {
                assert(entry_pairs(rest@) =~= prevrest.drop_first());
                assert(prevrest[0] == allp[i as int]);
                assert(p@ == allp[i as int].0);
                assert(e@ == allp[i as int].1);
                assert(prevrest.drop_first() =~= allp.skip(i as int + 1));
                assert(allp.take(i as int + 1).drop_last() =~= allp.take(i as int));
                assert(map_of_pairs(allp.take(i as int + 1)) == map_of_pairs(allp.take(i as int))
                    .insert(allp[i as int].0, allp[i as int].1));
                assert forall|j: int| 0 <= j < i implies (#[trigger] allp.take(i as int)[j]).0
                    != p@ by {
                    assert(allp.take(i as int)[j] == allp[j]);
                    assert(allp[j].0 != allp[i as int].0);
                }
                lemma_map_of_pairs_absent(allp.take(i as int), p@);
            }
            let under_from = from.eq_path(&p) || from.is_strict_prefix_of(&p);
            let under_to = to.eq_path(&p) || to.is_strict_prefix_of(&p);
            if under_from {
                // Re-root the path under `to`.
                let mut newp = to.clone_path();
                let mut k: usize = from.len();
                while k < p.len()
                    invariant
                        from@.len() <= k <= p@.len(),
                        newp@ =~= to@ + p@.subrange(from@.len() as int, k as int),
                    decreases p@.len() - k,
                {
                    let ghost prevnp = newp@;
                    newp = newp.join(p.file_name_at(k));
                    proof {
                        assert(newp@ =~= to@ + p@.subrange(from@.len() as int, k as int + 1));
                    }
                    k += 1;
                }
                proof {
                    assert(newp@ =~= rebase_path(p@, from@, to@));
                }
                kept.push((newp, e));
                proof {
                    lemma_rebase_under(p@, from@, to@);
                    lemma_step_rename_moved(allp[i as int], from@, to@, map_of_pairs(allp.take(i as int)));
                    assert(entry_pairs(kept@) =~= prevkept.push(
                        (rebase_path(p@, from@, to@), allp[i as int].1),
                    ));
                    assert(entry_pairs(kept@).drop_last() =~= prevkept);
                    assert(map_of_pairs(entry_pairs(kept@)) == prevmap.insert(
                        rebase_path(p@, from@, to@),
                        allp[i as int].1,
                    ));
                    // The rebased key was absent: its inverse image is the
                    // not-yet-seen key `p`.
                    assert(!prevmap.contains_key(rebase_path(p@, from@, to@)));
                    lemma_unique_after_push(prevkept, (rebase_path(p@, from@, to@), allp[i as int].1));
                    assert(map_of_pairs(entry_pairs(kept@)) =~= spec_rename_map(
                        map_of_pairs(allp.take(i as int + 1)),
                        from@,
                        to@,
                    ));
                }
            } else if under_to {
                // Overwritten by the move: dropped.
                proof {
                    lemma_step_rename_dropped(allp[i as int], from@, to@, map_of_pairs(allp.take(i as int)));
                    assert(map_of_pairs(entry_pairs(kept@)) =~= spec_rename_map(
                        map_of_pairs(allp.take(i as int + 1)),
                        from@,
                        to@,
                    ));
                }
            } else {
                kept.push((p, e));
                proof {
                    lemma_step_rename_kept(allp[i as int], from@, to@, map_of_pairs(allp.take(i as int)));
                    assert(entry_pairs(kept@) =~= prevkept.push(allp[i as int]));
                    assert(entry_pairs(kept@).drop_last() =~= prevkept);
                    assert(map_of_pairs(entry_pairs(kept@)) == prevmap.insert(
                        allp[i as int].0,
                        allp[i as int].1,
                    ));
                    assert(map_of_pairs(entry_pairs(kept@)) =~= spec_rename_map(
                        map_of_pairs(allp.take(i as int + 1)),
                        from@,
                        to@,
                    ));
                    assert(!prevmap.contains_key(p@));
                    lemma_unique_after_push(prevkept, allp[i as int]);
                }
            }
            proof {
                assert(allp.take(i as int + 1).drop_last() =~= allp.take(i as int));
                assert(map_of_pairs(allp.take(i as int + 1)) == map_of_pairs(allp.take(i as int))
                    .insert(allp[i as int].0, allp[i as int].1));
            }
            i += 1;
        }
        self.entries = kept;
        proof {
            assert(allp.take(allp.len() as int) =~= allp);
            assert(final(self).log_view() =~= old(self).log_view().push(
                FsActionV::Rename(from@, to@),
            ));
        }
        Ok(())
    }
}

/// Pushing a pair whose key the map lacks keeps keys unique.
proof fn lemma_unique_after_push(
    p: Seq<(Seq<PathCompV>, FsEntryV)>,
    x: (Seq<PathCompV>, FsEntryV),
)
    requires
        unique_keys(p),
        !map_of_pairs(p).contains_key(x.0),
    ensures
        unique_keys(p.push(x)),
{
    assert forall|j: int| 0 <= j < p.len() implies (#[trigger] p[j]).0 != x.0 by {
        lemma_map_of_pairs_find(p, j);
    }
    assert(forall|j: int| 0 <= j < p.len() ==> p.push(x)[j] == p[j]);
}

/// Inserting an entry at or under `from` adds its rebased image to the
/// renamed map.
proof fn lemma_step_rename_moved(
    x: (Seq<PathCompV>, FsEntryV),
    from: Seq<PathCompV>,
    to: Seq<PathCompV>,
    m: Map<Seq<PathCompV>, FsEntryV>,
)
    requires
        path_under_eq(x.0, from),
    ensures
        spec_rename_map(m.insert(x.0, x.1), from, to) =~= spec_rename_map(m, from, to).insert(
            rebase_path(x.0, from, to),
            x.1,
        ),
{
    lemma_rebase_under(x.0, from, to);
    assert forall|k: Seq<PathCompV>| true implies #[trigger] spec_rename_map(
        m.insert(x.0, x.1),
        from,
        to,
    ).contains_key(k) == spec_rename_map(m, from, to).insert(
        rebase_path(x.0, from, to),
        x.1,
    ).contains_key(k) by {
        if path_under_eq(k, to) {
            if rebase_path(k, to, from) == x.0 {
                lemma_rebase_under(rebase_path(k, to, from), from, to);
                lemma_under_eq_decompose(k, to);
                assert(rebase_path(rebase_path(k, to, from), from, to) =~= k);
            }
        }
    }
    assert forall|k: Seq<PathCompV>| spec_rename_map(m.insert(x.0, x.1), from, to).contains_key(
        k,
    ) implies #[trigger] spec_rename_map(m.insert(x.0, x.1), from, to)[k] == spec_rename_map(
        m,
        from,
        to,
    ).insert(rebase_path(x.0, from, to), x.1)[k] by {
        if path_under_eq(k, to) {
            if rebase_path(k, to, from) == x.0 {
                lemma_under_eq_decompose(k, to);
                assert(rebase_path(rebase_path(k, to, from), from, to) =~= k);
            }
        }
    }
}

/// Inserting an entry at or under `to` (but not under `from`, with distinct
/// roots) changes nothing in the renamed map: the move overwrites it.
proof fn lemma_step_rename_dropped(
    x: (Seq<PathCompV>, FsEntryV),
    from: Seq<PathCompV>,
    to: Seq<PathCompV>,
    m: Map<Seq<PathCompV>, FsEntryV>,
)
    requires
        !path_under_eq(x.0, from),
        path_under_eq(x.0, to),
    ensures
        spec_rename_map(m.insert(x.0, x.1), from, to) =~= spec_rename_map(m, from, to),
{
    assert forall|k: Seq<PathCompV>| true implies (#[trigger] spec_rename_map(
        m.insert(x.0, x.1),
        from,
        to,
    ).contains_key(k) == spec_rename_map(m, from, to).contains_key(k)) && (spec_rename_map(
        m,
        from,
        to,
    ).contains_key(k) ==> spec_rename_map(m.insert(x.0, x.1), from, to)[k] == spec_rename_map(
        m,
        from,
        to,
    )[k]) by {
        if path_under_eq(k, to) {
            let inv = rebase_path(k, to, from);
            if inv == x.0 {
                lemma_rebase_under_inv(k, to, from);
            }
        }
    }
}

/// The inverse image of a path at or under `to` lies at or under `from`.
proof fn lemma_rebase_under_inv(k: Seq<PathCompV>, to: Seq<PathCompV>, from: Seq<PathCompV>)
    requires
        path_under_eq(k, to),
    ensures
        path_under_eq(rebase_path(k, to, from), from),
{
    lemma_rebase_under(k, to, from);
}

/// Inserting an entry away from both roots inserts it unchanged into the
/// renamed map.
proof fn lemma_step_rename_kept(
    x: (Seq<PathCompV>, FsEntryV),
    from: Seq<PathCompV>,
    to: Seq<PathCompV>,
    m: Map<Seq<PathCompV>, FsEntryV>,
)
    requires
        !path_under_eq(x.0, from),
        !path_under_eq(x.0, to),
    ensures
        spec_rename_map(m.insert(x.0, x.1), from, to) =~= spec_rename_map(m, from, to).insert(
            x.0,
            x.1,
        ),
{
    assert forall|k: Seq<PathCompV>| true implies (#[trigger] spec_rename_map(
        m.insert(x.0, x.1),
        from,
        to,
    ).contains_key(k) == spec_rename_map(m, from, to).insert(x.0, x.1).contains_key(k)) && (
    spec_rename_map(m.insert(x.0, x.1), from, to).contains_key(k) ==> spec_rename_map(
        m.insert(x.0, x.1),
        from,
        to,
    )[k] == spec_rename_map(m, from, to).insert(x.0, x.1)[k]) by {
        if path_under_eq(k, to) {
            let inv = rebase_path(k, to, from);
            if inv == x.0 {
                lemma_rebase_under_inv(k, to, from);
            }
        }
    }
}


/// Renaming a path onto itself changes nothing.
proof fn lemma_rename_map_same(m: Map<Seq<PathCompV>, FsEntryV>, p: Seq<PathCompV>)
    ensures
        spec_rename_map(m, p, p) =~= m,
{
    assert forall|k: Seq<PathCompV>| true implies (#[trigger] spec_rename_map(
        m,
        p,
        p,
    ).contains_key(k) == m.contains_key(k)) && (m.contains_key(k) ==> spec_rename_map(m, p, p)[k]
        == m[k]) by {
        if path_under_eq(k, p) {
            lemma_under_eq_decompose(k, p);
            assert(rebase_path(k, p, p) =~= k);
        }
    }
}

/// Inserting an entry away from `base` inserts it unchanged into the pruned
/// map.
proof fn lemma_step_remove_kept(
    x: (Seq<PathCompV>, FsEntryV),
    base: Seq<PathCompV>,
    m: Map<Seq<PathCompV>, FsEntryV>,
)
    requires
        !path_under_eq(x.0, base),
    ensures
        spec_remove_subtree(m.insert(x.0, x.1), base) =~= spec_remove_subtree(m, base).insert(
            x.0,
            x.1,
        ),
{
}

/// Inserting an entry at or under `base` leaves the pruned map unchanged.
proof fn lemma_step_remove_dropped(
    x: (Seq<PathCompV>, FsEntryV),
    base: Seq<PathCompV>,
    m: Map<Seq<PathCompV>, FsEntryV>,
)
    requires
        path_under_eq(x.0, base),
    ensures
        spec_remove_subtree(m.insert(x.0, x.1), base) =~= spec_remove_subtree(m, base),
{
}

} // verus!
