//! Filesystem paths, modelled as a sequence of components.
//!
//! A component is a file or directory name split into a `stem` (the part that
//! carries an instance's name) and a `suffix` (the extension pattern that a
//! sync rule owns, such as `.server.lua` or `.data.json`; empty for plain
//! directories). Renaming an instance replaces the stem and keeps the suffix.

use vstd::prelude::*;

verus! {

/// One path component: a file or directory name, split as stem + suffix.
#[derive(Debug, PartialEq)]
pub struct PathComp {
    pub stem: String,
    pub suffix: String,
}

/// Spec-level value of a path component.
pub ghost struct PathCompV {
    pub stem: Seq<char>,
    pub suffix: Seq<char>,
}

impl View for PathComp {
    type V = PathCompV;

    open spec fn view(&self) -> PathCompV {
        PathCompV { stem: self.stem@, suffix: self.suffix@ }
    }
}

impl PathComp {
    pub fn new(stem: &str, suffix: &str) -> (r: PathComp)
        ensures
            r@.stem == stem@,
            r@.suffix == suffix@,
    {
        PathComp { stem: stem.to_owned(), suffix: suffix.to_owned() }
    }

    pub fn clone_comp(&self) -> (r: PathComp)
        ensures
            r@ == self@,
    {
        PathComp { stem: self.stem.clone(), suffix: self.suffix.clone() }
    }

    pub fn eq_comp(&self, other: &PathComp) -> (r: bool)
        ensures
            r == (self@ == other@),
    {
        let r = self.stem == other.stem && self.suffix == other.suffix;
        proof {
            if self@ == other@ {
                assert(self.stem@ == other.stem@);
                assert(self.suffix@ == other.suffix@);
            }
            if r {
                assert(self@ =~= other@);
            }
        }
        r
    }
}

/// A path: a sequence of components from the synced root downward.
#[derive(Debug, PartialEq)]
pub struct FsPath {
    pub comps: Vec<PathComp>,
}

impl View for FsPath {
    type V = Seq<PathCompV>;

    open spec fn view(&self) -> Seq<PathCompV> {
        Seq::new(self.comps@.len(), |i: int| self.comps@[i]@)
    }
}

impl FsPath {
    pub fn empty() -> (r: FsPath)
        ensures
            r@ == Seq::<PathCompV>::empty(),
    {
        let r = FsPath { comps: Vec::new() };
        proof {
            assert(r@ =~= Seq::<PathCompV>::empty());
        }
        r
    }

    pub fn len(&self) -> (r: usize)
        ensures
            r == self@.len(),
    {
        self.comps.len()
    }

    pub fn clone_path(&self) -> (r: FsPath)
        ensures
            r@ == self@,
    {
        let mut comps: Vec<PathComp> = Vec::new();
        let mut i: usize = 0;
        while i < self.comps.len()
            invariant
                i <= self.comps.len(),
                comps@.len() == i,
                forall|j: int| 0 <= j < i ==> comps@[j]@ == self@[j],
            decreases self.comps.len() - i,
        {
            comps.push(self.comps[i].clone_comp());
            i += 1;
        }
        let r = FsPath { comps };
        proof {
            assert(r@ =~= self@);
        }
        r
    }

    pub fn eq_path(&self, other: &FsPath) -> (r: bool)
        ensures
            r == (self@ == other@),
    {
        if self.comps.len() != other.comps.len() {
            proof {
                assert(self@.len() != other@.len());
            }
            return false;
        }
        let mut i: usize = 0;
        while i < self.comps.len()
            invariant
                i <= self.comps.len(),
                self.comps.len() == other.comps.len(),
                forall|j: int| 0 <= j < i ==> self@[j] == other@[j],
            decreases self.comps.len() - i,
        {
            if !self.comps[i].eq_comp(&other.comps[i]) {
                proof {
                    assert(self@[i as int] != other@[i as int]);
                }
                return false;
            }
            i += 1;
        }
        proof {
            assert(self@ =~= other@);
        }
        true
    }

    /// Append one component, as joining a child name onto a directory path.
    pub fn join(&self, comp: PathComp) -> (r: FsPath)
        ensures
            r@ == self@.push(comp@),
    {
        let mut r = self.clone_path();
        r.comps.push(comp);
        proof {
            assert(r@ =~= self@.push(comp@));
        }
        r
    }

    /// The parent path: all components but the last.
    pub fn parent(&self) -> (r: FsPath)
        requires
            self@.len() > 0,
        ensures
            r@ == self@.drop_last(),
    {
        let mut r = self.clone_path();
        let _last = r.comps.pop();
        proof {
            assert(r@ =~= self@.drop_last());
        }
        r
    }

    /// The last component, the file or directory name.
    pub fn file_name(&self) -> (r: &PathComp)
        requires
            self@.len() > 0,
        ensures
            r@ == self@.last(),
    {
        &self.comps[self.comps.len() - 1]
    }

    /// A copy of the component at index `i`.
    pub fn file_name_at(&self, i: usize) -> (r: PathComp)
        requires
            i < self@.len(),
        ensures
            r@ == self@[i as int],
    {
        self.comps[i].clone_comp()
    }

    /// Replace the last component, as `with_file_name` on an ordinary path.
    pub fn with_file_name(&self, comp: PathComp) -> (r: FsPath)
        requires
            self@.len() > 0,
        ensures
            r@ == self@.drop_last().push(comp@),
    {
        let mut r = self.parent();
        r.comps.push(comp);
        proof {
            assert(r@ =~= self@.drop_last().push(comp@));
        }
        r
    }

    /// Whether `self` is a strict prefix of `other`: `other` lies inside the
    /// directory `self`.
    pub fn is_strict_prefix_of(&self, other: &FsPath) -> (r: bool)
        ensures
            r == spec_strict_prefix(self@, other@),
    {
        if self.comps.len() >= other.comps.len() {
            return false;
        }
        let mut i: usize = 0;
        while i < self.comps.len()
            invariant
                i <= self.comps.len(),
                self.comps.len() < other.comps.len(),
                forall|j: int| 0 <= j < i ==> self@[j] == other@[j],
            decreases self.comps.len() - i,
        {
            if !self.comps[i].eq_comp(&other.comps[i]) {
                proof {
                    assert(self@[i as int] != other@[i as int]);
                    assert(!spec_strict_prefix(self@, other@));
                }
                return false;
            }
            i += 1;
        }
        proof {
            assert(self@ =~= other@.subrange(0, self@.len() as int));
        }
        true
    }
}

/// `a` names a directory strictly above `b`.
pub open spec fn spec_strict_prefix(a: Seq<PathCompV>, b: Seq<PathCompV>) -> bool {
    a.len() < b.len() && a == b.subrange(0, a.len() as int)
}

/// Substituting a new name for an old one in a path's file name: if the last
/// component's stem is exactly the old name, it becomes the new name and the
/// suffix is kept; otherwise the path is unchanged.
pub open spec fn spec_rename_path(
    p: Seq<PathCompV>,
    old_name: Seq<char>,
    new_name: Seq<char>,
) -> Seq<PathCompV>
    recommends
        p.len() > 0,
{
    if p.len() > 0 && p.last().stem == old_name {
        p.drop_last().push(PathCompV { stem: new_name, suffix: p.last().suffix })
    } else {
        p
    }
}

/// Compute a path's new location after an instance rename, substituting the
/// new name for the old one in the file name.
pub fn rename_path(path: &FsPath, old_name: &String, new_name: &String) -> (r: FsPath)
    requires
        path@.len() > 0,
    ensures
        r@ == spec_rename_path(path@, old_name@, new_name@),
{
    let last = path.file_name();
    if last.stem == *old_name {
        let comp = PathComp { stem: new_name.clone(), suffix: last.suffix.clone() };
        let r = path.with_file_name(comp);
        proof {
            assert(r@ =~= spec_rename_path(path@, old_name@, new_name@));
        }
        r
    } else {
        let r = path.clone_path();
        proof {
            assert(last.stem@ != old_name@);
        }
        r
    }
}

} // verus!
