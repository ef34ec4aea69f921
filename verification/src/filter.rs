//! The syncback filter: name, class and path exclusion rules.
//!
//! Each predicate returns `true` when its input should be excluded from disk
//! synchronization. The engine re-evaluates the filter just before acting on
//! a concrete name, class or path, never caching a verdict, because exclusion
//! is identity- and location-specific.
//!
//! Rules match whole values: a name or class rule excludes exactly that
//! name or class, and a path rule excludes that path and everything below
//! it. There is no wildcard or pattern form; a rule that should cover
//! several names is written once per name.

use vstd::prelude::*;

use crate::alist::strings_view;
use crate::path::{spec_strict_prefix, FsPath, PathCompV};
use crate::props::Props;

verus! {

/// Exclusion rules: exact instance names, exact class names, and paths that
/// exclude themselves and everything below them.
#[derive(Debug)]
pub struct SyncbackFilter {
    pub names: Vec<String>,
    pub classes: Vec<String>,
    pub paths: Vec<FsPath>,
}

pub ghost struct SyncbackFilterV {
    pub names: Seq<Seq<char>>,
    pub classes: Seq<Seq<char>>,
    pub paths: Seq<Seq<PathCompV>>,
}

impl View for SyncbackFilter {
    type V = SyncbackFilterV;

    open spec fn view(&self) -> SyncbackFilterV {
        SyncbackFilterV {
            names: strings_view(self.names@),
            classes: strings_view(self.classes@),
            paths: self.paths@.map_values(|p: FsPath| p@),
        }
    }
}

/// An instance name is excluded when a name rule equals it.
pub open spec fn spec_matches_name(f: SyncbackFilterV, name: Seq<char>) -> bool {
    f.names.contains(name)
}

/// A class is excluded when a class rule equals it.
pub open spec fn spec_matches_class(f: SyncbackFilterV, class: Seq<char>) -> bool {
    f.classes.contains(class)
}

/// A path is excluded when a path rule equals it or lies strictly above it.
pub open spec fn spec_matches_path(f: SyncbackFilterV, path: Seq<PathCompV>) -> bool {
    exists|i: int| 0 <= i < f.paths.len() && ((#[trigger] f.paths[i]) == path
        || spec_strict_prefix(f.paths[i], path))
}

impl SyncbackFilter {
    /// A filter with no rules: nothing is excluded.
    pub fn permit_all() -> (r: SyncbackFilter)
        ensures
            r@.names == Seq::<Seq<char>>::empty(),
            r@.classes == Seq::<Seq<char>>::empty(),
            r@.paths == Seq::<Seq<PathCompV>>::empty(),
    {
        let r = SyncbackFilter { names: Vec::new(), classes: Vec::new(), paths: Vec::new() };
        proof {
            assert(r@.names =~= Seq::<Seq<char>>::empty());
            assert(r@.classes =~= Seq::<Seq<char>>::empty());
            assert(r@.paths =~= Seq::<Seq<PathCompV>>::empty());
        }
        r
    }

    pub fn matches_name(&self, name: &String) -> (r: bool)
        ensures
            r == spec_matches_name(self@, name@),
    {
        let mut i: usize = 0;
        while i < self.names.len()
            invariant
                i <= self.names.len(),
                forall|j: int| 0 <= j < i ==> self@.names[j] != name@,
            decreases self.names.len() - i,
        {
            if self.names[i] == *name {
                proof {
                    assert(self@.names[i as int] == name@);
                }
                return true;
            }
            proof {
                assert(self@.names[i as int] != name@);
            }
            i += 1;
        }
        proof {
            assert(!self@.names.contains(name@));
        }
        false
    }

    pub fn matches_class(&self, class: &String) -> (r: bool)
        ensures
            r == spec_matches_class(self@, class@),
    {
        let mut i: usize = 0;
        while i < self.classes.len()
            invariant
                i <= self.classes.len(),
                forall|j: int| 0 <= j < i ==> self@.classes[j] != class@,
            decreases self.classes.len() - i,
        {
            if self.classes[i] == *class {
                proof {
                    assert(self@.classes[i as int] == class@);
                }
                return true;
            }
            proof {
                assert(self@.classes[i as int] != class@);
            }
            i += 1;
        }
        proof {
            assert(!self@.classes.contains(class@));
        }
        false
    }

    pub fn matches_path(&self, path: &FsPath) -> (r: bool)
        ensures
            r == spec_matches_path(self@, path@),
    {
        let mut i: usize = 0;
        while i < self.paths.len()
            invariant
                i <= self.paths.len(),
                forall|j: int| 0 <= j < i ==> !((#[trigger] self@.paths[j]) == path@
                    || spec_strict_prefix(self@.paths[j], path@)),
            decreases self.paths.len() - i,
        {
            if self.paths[i].eq_path(path) || self.paths[i].is_strict_prefix_of(path) {
                proof {
                    assert(self@.paths[i as int] == self.paths@[i as int]@);
                }
                return true;
            }
            proof {
                assert(self@.paths[i as int] == self.paths@[i as int]@);
            }
            i += 1;
        }
        false
    }

    pub fn clone_filter(&self) -> (r: SyncbackFilter)
        ensures
            r@ == self@,
    {
        let names = crate::value::clone_strings(&self.names);
        let classes = crate::value::clone_strings(&self.classes);
        let mut paths: Vec<FsPath> = Vec::new();
        let mut i: usize = 0;
        while i < self.paths.len()
            invariant
                i <= self.paths.len(),
                paths@.len() == i,
                forall|j: int| 0 <= j < i ==> (#[trigger] paths@[j])@ == self.paths@[j]@,
            decreases self.paths.len() - i,
        {
            paths.push(self.paths[i].clone_path());
            i += 1;
        }
        let r = SyncbackFilter { names, classes, paths };
        proof {
            assert(r@.paths =~= self@.paths);
            assert(r@ =~= self@);
        }
        r
    }
}

/// The keys of `props` that the filter does not exclude.
pub open spec fn spec_kept_keys(f: SyncbackFilterV) -> Set<Seq<char>> {
    Set::new(|k: Seq<char>| !spec_matches_name(f, k))
}

/// Drop every property whose name the filter excludes; the rest is kept
/// unchanged.
pub fn validate_properties(props: Props, filter: &SyncbackFilter) -> (r: Props)
    requires
        props.wf(),
    ensures
        r.wf(),
        r@ == props@.restrict(spec_kept_keys(filter@)),
{
    let Props { entries } = props;
    let mut rest = entries;
    let total: usize = rest.len();
    let ghost allp = crate::alist::pairs_view(rest@);
    let mut i: usize = 0;
    let mut r = Props::new();
    proof {
        assert(r@ =~= crate::alist::map_of_pairs(allp.take(0)).restrict(spec_kept_keys(filter@)));
    }
    while rest.len() > 0
        invariant
            r.wf(),
            i + rest.len() == total,
            allp.len() == total,
            crate::alist::pairs_view(rest@) =~= allp.skip(i as int),
            r@ == crate::alist::map_of_pairs(allp.take(i as int)).restrict(spec_kept_keys(filter@)),
        decreases rest.len(),
    {
        let ghost prevrest = crate::alist::pairs_view(rest@);
        let (k, v) = rest.remove(0);
        proof {
            assert(crate::alist::pairs_view(rest@) =~= prevrest.drop_first());
            assert(prevrest[0] == allp[i as int]);
            assert(prevrest.drop_first() =~= allp.skip(i as int + 1));
        }
        let excluded = filter.matches_name(&k);
        if !excluded {
            r.insert(k, v);
        }
        proof {
            assert(allp.take(i as int + 1).drop_last() =~= allp.take(i as int));
            assert(crate::alist::map_of_pairs(allp.take(i as int + 1))
                == crate::alist::map_of_pairs(allp.take(i as int)).insert(
                allp[i as int].0,
                allp[i as int].1,
            ));
            assert(r@ =~= crate::alist::map_of_pairs(allp.take(i as int + 1)).restrict(
                spec_kept_keys(filter@),
            ));
        }
        i += 1;
    }
    proof {
        assert(allp.take(allp.len() as int) =~= allp);
    }
    r
}

} // verus!
