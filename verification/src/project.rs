//! Project documents: a JSON file describing a nested tree of instance
//! definitions, the alternative to plain filesystem mapping.

use vstd::prelude::*;

use crate::alist::{map_of_pairs, pairs_view, strings_view, unique_keys};
use crate::ambiguous::{UnresolvedValue, UnresolvedValueV};
use crate::path::{FsPath, PathCompV};
use crate::props::UProps;
use crate::vfs::Vfs;

verus! {

/// One node of a project document's tree: an optional class name, an
/// optional custom path, a name-keyed child map, and optional serialized
/// properties, attributes, tags and keep-unknowns flag.
///
/// Children are stored as a unique-keyed pair list and the node's view is
/// the name-keyed map of it, so every contract speaks of the child map
/// alone: the stored order of the pairs is insertion order, and no
/// contract here fixes the order in which a rendering of the document
/// lists them.
#[derive(Debug, PartialEq)]
pub struct ProjectNode {
    pub class_name: Option<String>,
    pub path: Option<FsPath>,
    pub tree: Vec<(String, ProjectNode)>,
    pub properties: UProps,
    pub attributes: Option<UnresolvedValue>,
    pub tags: Vec<String>,
    pub keep_unknowns: Option<bool>,
}

pub ghost struct ProjectNodeV {
    pub class_name: Option<Seq<char>>,
    pub path: Option<Seq<PathCompV>>,
    pub tree: Map<Seq<char>, ProjectNodeV>,
    pub properties: Map<Seq<char>, UnresolvedValueV>,
    pub attributes: Option<UnresolvedValueV>,
    pub tags: Seq<Seq<char>>,
    pub keep_unknowns: Option<bool>,
}

/// The spec-level value of an optional string.
pub open spec fn opt_string_view(o: Option<String>) -> Option<Seq<char>> {
    match o {
        Some(s) => Some(s@),
        None => None,
    }
}

/// The spec-level value of an optional path.
pub open spec fn opt_path_view(o: Option<FsPath>) -> Option<Seq<PathCompV>> {
    match o {
        Some(p) => Some(p@),
        None => None,
    }
}

/// The spec-level (name, node value) pairs of a child list.
pub open spec fn node_children_pairs(t: Seq<(String, ProjectNode)>) -> Seq<(Seq<char>, ProjectNodeV)>
    decreases t, 0int,
{
    if t.len() == 0 {
        Seq::empty()
    } else {
        node_children_pairs(t.drop_last()).push((t.last().0@, node_view(t.last().1)))
    }
}

pub open spec fn node_view(n: ProjectNode) -> ProjectNodeV
    decreases n, 1int,
{
    ProjectNodeV {
        class_name: opt_string_view(n.class_name),
        path: opt_path_view(n.path),
        tree: map_of_pairs(node_children_pairs(n.tree@)),
        properties: n.properties@,
        attributes: match n.attributes {
            Some(a) => Some(a@),
            None => None,
        },
        tags: strings_view(n.tags@),
        keep_unknowns: n.keep_unknowns,
    }
}

/// The child pairs of a node, in storage order.
pub open spec fn node_tree_pairs(n: ProjectNode) -> Seq<(Seq<char>, ProjectNodeV)> {
    node_children_pairs(n.tree@)
}

/// The pairs of a child list line up with it, index by index.
pub proof fn lemma_node_children_pairs(t: Seq<(String, ProjectNode)>)
    ensures
        node_children_pairs(t).len() == t.len(),
        forall|i: int| 0 <= i < t.len() ==> (#[trigger] node_children_pairs(t)[i])
            == (t[i].0@, node_view(t[i].1)),
    decreases t.len(),
{
    if t.len() > 0 {
        lemma_node_children_pairs(t.drop_last());
        assert(forall|i: int| 0 <= i < t.len() - 1 ==> t.drop_last()[i] == t[i]);
    }
}

impl View for ProjectNode {
    type V = ProjectNodeV;

    open spec fn view(&self) -> ProjectNodeV {
        node_view(*self)
    }
}

/// Well-formedness of a child list: every node in it is well formed.
pub open spec fn nodes_wf(t: Seq<(String, ProjectNode)>) -> bool
    decreases t, 0int,
{
    t.len() == 0 || (nodes_wf(t.drop_last()) && node_wf(t.last().1))
}

/// Well-formedness of a node: child names are unique, recursively, the
/// loose property map has unique keys, and a custom path is non-empty.
pub open spec fn node_wf(n: ProjectNode) -> bool
    decreases n, 1int,
{
    &&& unique_keys(node_children_pairs(n.tree@))
    &&& n.properties.wf()
    &&& match n.path {
        Some(p) => p@.len() > 0,
        None => true,
    }
    &&& nodes_wf(n.tree@)
}

/// A child list is well formed exactly when each of its nodes is.
pub proof fn lemma_nodes_wf(t: Seq<(String, ProjectNode)>)
    ensures
        nodes_wf(t) <==> (forall|i: int| 0 <= i < t.len() ==> node_wf(#[trigger] t[i].1)),
    decreases t.len(),
{
    if t.len() > 0 {
        lemma_nodes_wf(t.drop_last());
        assert(forall|i: int| 0 <= i < t.len() - 1 ==> t.drop_last()[i] == t[i]);
        assert(t.last() == t[t.len() - 1]);
    }
}

/// Clone a node, preserving its value and well-formedness.
pub fn clone_node(n: &ProjectNode) -> (r: ProjectNode)
    ensures
        r@ == n@,
        node_tree_pairs(r) == node_tree_pairs(*n),
        r.properties.pairs() == n.properties.pairs(),
        node_wf(*n) ==> node_wf(r),
    decreases *n,
{
    let class_name = crate::datafile::clone_opt_string(&n.class_name);
    let path = match &n.path {
        Some(p) => Some(p.clone_path()),
        None => None,
    };
    let properties = n.properties.deep_clone();
    let attributes = match &n.attributes {
        Some(a) => Some(a.clone()),
        None => None,
    };
    let tags = crate::value::clone_strings(&n.tags);
    let mut tree: Vec<(String, ProjectNode)> = Vec::new();
    let mut i: usize = 0;
    while i < n.tree.len()
        invariant
            i <= n.tree@.len(),
            tree@.len() == i,
            forall|j: int| 0 <= j < i ==> (#[trigger] tree@[j]).0@ == n.tree@[j].0@
                && tree@[j].1@ == n.tree@[j].1@ && (node_wf(n.tree@[j].1) ==> node_wf(
                tree@[j].1,
            )),
        decreases n.tree@.len() - i,
    {
        let (name, child) = &n.tree[i];
        proof {
            assert(decreases_to!(*n => n.tree));
            assert(decreases_to!(n.tree => n.tree@));
            assert(decreases_to!(n.tree@ => n.tree@[i as int]));
            assert(decreases_to!(n.tree@[i as int] => n.tree@[i as int].1));
        }
        let cloned = clone_node(child);
        tree.push((name.clone(), cloned));
        i += 1;
    }
    let r = ProjectNode {
        class_name,
        path,
        tree,
        properties,
        attributes,
        tags,
        keep_unknowns: n.keep_unknowns,
    };
    proof {
        lemma_node_children_pairs(r.tree@);
        lemma_node_children_pairs(n.tree@);
        assert(node_tree_pairs(r) =~= node_tree_pairs(*n));
        assert(r@ =~= n@);
        if node_wf(*n) {
            lemma_nodes_wf(r.tree@);
            lemma_nodes_wf(n.tree@);
            assert(node_wf(r));
        }
    }
    r
}

/// The serialized part of a project document: what its file on disk holds.
#[derive(Debug, PartialEq)]
pub struct ProjectDoc {
    pub name: String,
    pub node: ProjectNode,
    pub host: Option<String>,
    pub port: Option<u16>,
    pub game_id: Option<u64>,
    pub place_ids: Option<Vec<u64>>,
    pub ignore_globs: Option<Vec<String>>,
}

pub ghost struct ProjectDocV {
    pub name: Seq<char>,
    pub node: ProjectNodeV,
    pub host: Option<Seq<char>>,
    pub port: Option<u16>,
    pub game_id: Option<u64>,
    pub place_ids: Option<Seq<u64>>,
    pub ignore_globs: Option<Seq<Seq<char>>>,
}

impl View for ProjectDoc {
    type V = ProjectDocV;

    open spec fn view(&self) -> ProjectDocV {
        ProjectDocV {
            name: self.name@,
            node: self.node@,
            host: opt_string_view(self.host),
            port: self.port,
            game_id: self.game_id,
            place_ids: match self.place_ids {
                Some(v) => Some(v@),
                None => None,
            },
            ignore_globs: match self.ignore_globs {
                Some(v) => Some(strings_view(v@)),
                None => None,
            },
        }
    }
}

impl Clone for ProjectDoc {
    fn clone(&self) -> (r: Self)
        ensures
            r@ == self@,
            node_tree_pairs(r.node) == node_tree_pairs(self.node),
            node_wf(self.node) ==> node_wf(r.node),
    {
        let place_ids = match &self.place_ids {
            Some(v) => {
                let mut ids: Vec<u64> = Vec::new();
                let mut i: usize = 0;
                while i < v.len()
                    invariant
                        i <= v@.len(),
                        ids@ =~= v@.take(i as int),
                    decreases v@.len() - i,
                {
                    ids.push(v[i]);
                    proof {
                        assert(ids@ =~= v@.take(i as int + 1));
                    }
                    i += 1;
                }
                proof {
                    assert(v@.take(v@.len() as int) =~= v@);
                }
                Some(ids)
            }
            None => None,
        };
        let r = ProjectDoc {
            name: self.name.clone(),
            node: clone_node(&self.node),
            host: crate::datafile::clone_opt_string(&self.host),
            port: self.port,
            game_id: self.game_id,
            place_ids,
            ignore_globs: match &self.ignore_globs {
                Some(v) => Some(crate::value::clone_strings(v)),
                None => None,
            },
        };
        proof {
            assert(r@ =~= self@);
        }
        r
    }
}

impl ProjectNode {
    /// An empty node: no class, no path, no children, nothing set.
    pub fn empty() -> (r: ProjectNode)
        ensures
            node_wf(r),
            r@.class_name == Option::<Seq<char>>::None,
            r@.path == Option::<Seq<PathCompV>>::None,
            r@.tree == Map::<Seq<char>, ProjectNodeV>::empty(),
            r@.properties == Map::<Seq<char>, UnresolvedValueV>::empty(),
            r@.attributes == Option::<UnresolvedValueV>::None,
            r@.tags == Seq::<Seq<char>>::empty(),
            r@.keep_unknowns == Option::<bool>::None,
    {
        let r = ProjectNode {
            class_name: None,
            path: None,
            tree: Vec::new(),
            properties: UProps::new(),
            attributes: None,
            tags: Vec::new(),
            keep_unknowns: None,
        };
        proof {
            assert(node_tree_pairs(r) =~= Seq::<(Seq<char>, ProjectNodeV)>::empty());
            assert(r@.tree =~= Map::<Seq<char>, ProjectNodeV>::empty());
            assert(r@.tags =~= Seq::<Seq<char>>::empty());
        }
        r
    }
}


/// The first child under `name`, as stored.
pub open spec fn spec_child(n: ProjectNode, name: Seq<char>) -> Option<ProjectNode>
    decreases n.tree@.len(),
{
    spec_child_in(n.tree@, name)
}

pub open spec fn spec_child_in(t: Seq<(String, ProjectNode)>, name: Seq<char>) -> Option<
    ProjectNode,
>
    decreases t.len(),
{
    if t.len() == 0 {
        None
    } else if t[0].0@ == name {
        Some(t[0].1)
    } else {
        spec_child_in(t.drop_first(), name)
    }
}

/// The node a breadcrumb names, walking child maps from `n`.
pub open spec fn spec_find_node(n: ProjectNode, names: Seq<Seq<char>>) -> Option<ProjectNode>
    decreases names.len(),
{
    if names.len() == 0 {
        Some(n)
    } else {
        match spec_child(n, names[0]) {
            Some(c) => spec_find_node(c, names.drop_first()),
            None => None,
        }
    }
}

/// A name with no stored child matches no pair.
proof fn lemma_child_in_absent(t: Seq<(String, ProjectNode)>, name: Seq<char>)
    requires
        spec_child_in(t, name) is None,
    ensures
        forall|j: int| 0 <= j < t.len() ==> (#[trigger] t[j]).0@ != name,
    decreases t.len(),
{
    if t.len() > 0 {
        lemma_child_in_absent(t.drop_first(), name);
        assert(forall|j: int| 1 <= j < t.len() ==> t[j] == t.drop_first()[j - 1]);
    }
}

/// Find the child index under `name`.
fn child_index(t: &Vec<(String, ProjectNode)>, name: &String) -> (r: Option<usize>)
    ensures
        match r {
            Some(i) => i < t@.len() && t@[i as int].0@ == name@ && spec_child_in(t@, name@)
                == Some(t@[i as int].1),
            None => spec_child_in(t@, name@) is None,
        },
{
    let mut i: usize = 0;
    proof {
        assert(t@.skip(0) =~= t@);
    }
    while i < t.len()
        invariant
            i <= t@.len(),
            spec_child_in(t@, name@) == spec_child_in(t@.skip(i as int), name@),
            forall|j: int| 0 <= j < i ==> (#[trigger] t@[j]).0@ != name@,
        decreases t@.len() - i,
    {
        proof {
            assert(t@.skip(i as int)[0] == t@[i as int]);
            assert(t@.skip(i as int).drop_first() =~= t@.skip(i as int + 1));
        }
        if t[i].0 == *name {
            return Some(i);
        }
        i += 1;
    }
    proof {
        assert(t@.skip(t@.len() as int).len() == 0);
    }
    None
}

/// Find the node a breadcrumb names, starting at depth `depth`.
pub fn find_node<'a>(node: &'a ProjectNode, names: &Vec<String>, depth: usize) -> (r: Option<
    &'a ProjectNode,
>)
    requires
        depth <= names@.len(),
    ensures
        match r {
            Some(c) => spec_find_node(*node, strings_view(names@).skip(depth as int)) == Some(
                *c,
            ),
            None => spec_find_node(*node, strings_view(names@).skip(depth as int)) is None,
        },
    decreases names@.len() - depth,
{
    if depth == names.len() {
        proof {
            assert(strings_view(names@).skip(depth as int).len() == 0);
        }
        return Some(node);
    }
    proof {
        assert(strings_view(names@).skip(depth as int)[0] == names@[depth as int]@);
        assert(strings_view(names@).skip(depth as int).drop_first() =~= strings_view(
            names@,
        ).skip(depth as int + 1));
    }
    match child_index(&node.tree, &names[depth]) {
        Some(i) => find_node(&node.tree[i].1, names, depth + 1),
        None => None,
    }
}

/// The node value after setting a child at the end of a breadcrumb; `None`
/// when the breadcrumb goes nowhere.
pub open spec fn spec_node_insert_v(
    nv: ProjectNodeV,
    names: Seq<Seq<char>>,
    name: Seq<char>,
    child: ProjectNodeV,
) -> Option<ProjectNodeV>
    decreases names.len(),
{
    if names.len() == 0 {
        Some(ProjectNodeV { tree: nv.tree.insert(name, child), ..nv })
    } else if nv.tree.contains_key(names[0]) {
        match spec_node_insert_v(nv.tree[names[0]], names.drop_first(), name, child) {
            Some(sub) => Some(ProjectNodeV { tree: nv.tree.insert(names[0], sub), ..nv }),
            None => None,
        }
    } else {
        None
    }
}

/// Remove the stored child pair under `name`, keeping keys unique.
fn remove_child(node: &mut ProjectNode, name: &String) -> (r: Option<ProjectNode>)
    requires
        node_wf(*old(node)),
    ensures
        node_wf(*final(node)),
        final(node)@ == (ProjectNodeV { tree: old(node)@.tree.remove(name@), ..old(node)@ }),
        match r {
            Some(c) => old(node)@.tree.contains_key(name@) && c@ == old(node)@.tree[name@]
                && node_wf(c),
            None => !old(node)@.tree.contains_key(name@),
        },
{
    let idx = child_index(&node.tree, name);
    proof {
        lemma_node_children_pairs(node.tree@);
        lemma_nodes_wf(node.tree@);
    }
    match idx {
        Some(i) => {
            let ghost oldpairs = node_children_pairs(node.tree@);
            let ghost oldtree = node.tree@;
            let (_, c) = node.tree.remove(i);
            proof {
                lemma_node_children_pairs(node.tree@);
                assert(node_children_pairs(node.tree@) =~= oldpairs.remove(i as int));
                crate::alist::lemma_remove_idx(oldpairs, i as int);
                crate::alist::lemma_map_of_pairs_find(oldpairs, i as int);
                lemma_nodes_wf(node.tree@);
                assert(forall|j: int| 0 <= j < node.tree@.len() ==> node_wf(
                    #[trigger] node.tree@[j].1,
                )) by {
                    assert(forall|j: int| 0 <= j < node.tree@.len() ==> node.tree@[j]
                        == if j < i { oldtree[j] } else { oldtree[j + 1] });
                }
                assert(final(node)@ =~= (ProjectNodeV {
                    tree: old(node)@.tree.remove(name@),
                    ..old(node)@
                }));
            }
            Some(c)
        }
        None => {
            proof {
                lemma_child_in_absent(node.tree@, name@);
                assert(forall|j: int| 0 <= j < node_children_pairs(node.tree@).len() ==> (
                #[trigger] node_children_pairs(node.tree@)[j]).0 != name@);
                crate::alist::lemma_map_of_pairs_absent(
                    node_children_pairs(node.tree@),
                    name@,
                );
                assert(old(node)@.tree.remove(name@) =~= old(node)@.tree);
                assert(final(node)@ =~= (ProjectNodeV {
                    tree: old(node)@.tree.remove(name@),
                    ..old(node)@
                }));
            }
            None
        }
    }
}

/// Set the stored child under `name`, replacing any previous one.
pub fn set_child(node: &mut ProjectNode, name: &String, child: ProjectNode)
    requires
        node_wf(*old(node)),
        node_wf(child),
    ensures
        node_wf(*final(node)),
        final(node)@ == (ProjectNodeV {
            tree: old(node)@.tree.insert(name@, child@),
            ..old(node)@
        }),
{
    let _ = remove_child(node, name);
    let ghost midpairs = node_children_pairs(node.tree@);
    let ghost midtree = node.tree@;
    let ghost cv = child@;
    proof {
        lemma_node_children_pairs(node.tree@);
        lemma_nodes_wf(node.tree@);
    }
    node.tree.push((name.clone(), child));
    proof {
        lemma_node_children_pairs(node.tree@);
        assert(node_children_pairs(node.tree@) =~= midpairs.push((name@, cv)));
        assert(node_children_pairs(node.tree@).drop_last() =~= midpairs);
        assert(forall|j: int| 0 <= j < midpairs.len() ==> (#[trigger] midpairs[j]).0 != name@)
            by {
            if exists|j: int| 0 <= j < midpairs.len() && (#[trigger] midpairs[j]).0 == name@ {
                let j = choose|j: int| 0 <= j < midpairs.len() && (#[trigger] midpairs[j]).0
                    == name@;
                crate::alist::lemma_map_of_pairs_find(midpairs, j);
            }
        }
        lemma_nodes_wf(node.tree@);
        assert(forall|j: int| 0 <= j < node.tree@.len() - 1 ==> node.tree@[j] == midtree[j]);
        assert(map_of_pairs(midpairs) == old(node)@.tree.remove(name@));
        assert(final(node)@.tree =~= old(node)@.tree.remove(name@).insert(name@, cv));
        assert(old(node)@.tree.remove(name@).insert(name@, cv) =~= old(node)@.tree.insert(
            name@,
            cv,
        ));
        assert(final(node)@ =~= (ProjectNodeV {
            tree: old(node)@.tree.insert(name@, child@),
            ..old(node)@
        }));
    }
}

/// Set a child at the end of a breadcrumb, walking from `node`; false,
/// changing nothing, when the breadcrumb goes nowhere.
pub fn insert_node_at(
    node: &mut ProjectNode,
    names: &Vec<String>,
    depth: usize,
    name: &String,
    child: ProjectNode,
) -> (r: bool)
    requires
        depth <= names@.len(),
        node_wf(*old(node)),
        node_wf(child),
    ensures
        node_wf(*final(node)),
        match spec_node_insert_v(
            old(node)@,
            strings_view(names@).skip(depth as int),
            name@,
            child@,
        ) {
            Some(nv) => r && final(node)@ == nv,
            None => !r && final(node)@ == old(node)@,
        },
    decreases names@.len() - depth,
{
    if depth == names.len() {
        proof {
            assert(strings_view(names@).skip(depth as int).len() == 0);
        }
        set_child(node, name, child);
        return true;
    }
    proof {
        assert(strings_view(names@).skip(depth as int)[0] == names@[depth as int]@);
        assert(strings_view(names@).skip(depth as int).drop_first() =~= strings_view(
            names@,
        ).skip(depth as int + 1));
        lemma_node_children_pairs(node.tree@);
    }
    let step = names[depth].clone();
    let taken = remove_child(node, &step);
    match taken {
        Some(mut sub) => {
            let ghost subv0 = sub@;
            let ok = insert_node_at(&mut sub, names, depth + 1, name, child);
            let ghost subv1 = sub@;
            set_child(node, &step, sub);
            proof {
                assert(subv0 == old(node)@.tree[step@]);
                assert(final(node)@.tree =~= old(node)@.tree.remove(step@).insert(
                    step@,
                    subv1,
                ));
                assert(old(node)@.tree.remove(step@).insert(step@, subv1) =~= old(
                    node,
                )@.tree.insert(step@, subv1));
                assert(final(node)@.tree =~= old(node)@.tree.insert(step@, subv1));
            }
            if ok {
                proof {
                    assert(subv1 == spec_node_insert_v(
                        old(node)@.tree[step@],
                        strings_view(names@).skip(depth as int + 1),
                        name@,
                        child@,
                    )->Some_0);
                    assert(final(node)@ =~= spec_node_insert_v(
                        old(node)@,
                        strings_view(names@).skip(depth as int),
                        name@,
                        child@,
                    )->Some_0);
                }
                true
            } else {
                // The walk failed deeper down; the subtree went back
                // unchanged at the value level.
                proof {
                    assert(subv1 == old(node)@.tree[step@]);
                    assert(old(node)@.tree.insert(step@, subv1) =~= old(node)@.tree);
                    assert(final(node)@ =~= old(node)@);
                }
                false
            }
        }
        None => {
            proof {
                assert(old(node)@.tree.remove(step@) =~= old(node)@.tree);
                assert(final(node)@ =~= old(node)@);
            }
            false
        }
    }
}


/// The node value after removing the child under `name` at the end of a
/// breadcrumb, paired with the removed child's value.
pub open spec fn spec_node_remove_v(
    nv: ProjectNodeV,
    names: Seq<Seq<char>>,
    name: Seq<char>,
) -> Option<(ProjectNodeV, ProjectNodeV)>
    decreases names.len(),
{
    if names.len() == 0 {
        if nv.tree.contains_key(name) {
            Some((ProjectNodeV { tree: nv.tree.remove(name), ..nv }, nv.tree[name]))
        } else {
            None
        }
    } else if nv.tree.contains_key(names[0]) {
        match spec_node_remove_v(nv.tree[names[0]], names.drop_first(), name) {
            Some((sub, removed)) => Some(
                (ProjectNodeV { tree: nv.tree.insert(names[0], sub), ..nv }, removed),
            ),
            None => None,
        }
    } else {
        None
    }
}

/// Remove the child under `name` at the end of a breadcrumb; `None`,
/// leaving the node's value unchanged, when the breadcrumb or the child is
/// missing.
pub fn remove_node_at(
    node: &mut ProjectNode,
    names: &Vec<String>,
    depth: usize,
    name: &String,
) -> (r: Option<ProjectNode>)
    requires
        depth <= names@.len(),
        node_wf(*old(node)),
    ensures
        node_wf(*final(node)),
        match spec_node_remove_v(old(node)@, strings_view(names@).skip(depth as int), name@) {
            Some(p) => r matches Some(c) && final(node)@ == p.0 && c@ == p.1 && node_wf(c),
            None => r is None && final(node)@ == old(node)@,
        },
    decreases names@.len() - depth,
{
    if depth == names.len() {
        proof {
            assert(strings_view(names@).skip(depth as int).len() == 0);
        }
        let taken = remove_child(node, name);
        match taken {
            Some(c) => {
                return Some(c);
            }
            None => {
                proof {
                    assert(old(node)@.tree.remove(name@) =~= old(node)@.tree);
                    assert(final(node)@ =~= old(node)@);
                }
                return None;
            }
        }
    }
    proof {
        assert(strings_view(names@).skip(depth as int)[0] == names@[depth as int]@);
        assert(strings_view(names@).skip(depth as int).drop_first() =~= strings_view(
            names@,
        ).skip(depth as int + 1));
    }
    let step = names[depth].clone();
    let taken = remove_child(node, &step);
    match taken {
        Some(mut sub) => {
            let ghost subv0 = sub@;
            let removed = remove_node_at(&mut sub, names, depth + 1, name);
            let ghost subv1 = sub@;
            set_child(node, &step, sub);
            proof {
                assert(subv0 == old(node)@.tree[step@]);
                assert(final(node)@.tree =~= old(node)@.tree.remove(step@).insert(
                    step@,
                    subv1,
                ));
                assert(old(node)@.tree.remove(step@).insert(step@, subv1) =~= old(
                    node,
                )@.tree.insert(step@, subv1));
                assert(final(node)@.tree =~= old(node)@.tree.insert(step@, subv1));
            }
            match removed {
                Some(c) => {
                    proof {
                        assert(final(node)@ =~= spec_node_remove_v(
                            old(node)@,
                            strings_view(names@).skip(depth as int),
                            name@,
                        )->Some_0.0);
                    }
                    Some(c)
                }
                None => {
                    proof {
                        assert(subv1 == old(node)@.tree[step@]);
                        assert(old(node)@.tree.insert(step@, subv1) =~= old(node)@.tree);
                        assert(final(node)@ =~= old(node)@);
                    }
                    None
                }
            }
        }
        None => {
            proof {
                assert(old(node)@.tree.remove(step@) =~= old(node)@.tree);
                assert(final(node)@ =~= old(node)@);
            }
            None
        }
    }
}

/// The node value after replacing the serialized properties at the end of a
/// breadcrumb; tags and keep-unknowns are reset, as a property update
/// rewrites them.
pub open spec fn spec_node_patch_v(
    nv: ProjectNodeV,
    names: Seq<Seq<char>>,
    props: Map<Seq<char>, UnresolvedValueV>,
    clear_attributes: bool,
) -> Option<ProjectNodeV>
    decreases names.len(),
{
    if names.len() == 0 {
        Some(
            ProjectNodeV {
                properties: props,
                attributes: if clear_attributes {
                    None
                } else {
                    nv.attributes
                },
                tags: Seq::empty(),
                keep_unknowns: None,
                ..nv
            },
        )
    } else if nv.tree.contains_key(names[0]) {
        match spec_node_patch_v(nv.tree[names[0]], names.drop_first(), props, clear_attributes) {
            Some(sub) => Some(ProjectNodeV { tree: nv.tree.insert(names[0], sub), ..nv }),
            None => None,
        }
    } else {
        None
    }
}

/// Replace the serialized properties of the node at the end of a
/// breadcrumb, resetting tags and keep-unknowns (and, when asked, the
/// attributes); false, leaving the value unchanged, when the breadcrumb
/// goes nowhere.
pub fn patch_node_at(
    node: &mut ProjectNode,
    names: &Vec<String>,
    depth: usize,
    props: UProps,
    clear_attributes: bool,
) -> (r: bool)
    requires
        depth <= names@.len(),
        node_wf(*old(node)),
        props.wf(),
    ensures
        node_wf(*final(node)),
        match spec_node_patch_v(
            old(node)@,
            strings_view(names@).skip(depth as int),
            props@,
            clear_attributes,
        ) {
            Some(nv) => r && final(node)@ == nv,
            None => !r && final(node)@ == old(node)@,
        },
    decreases names@.len() - depth,
{
    if depth == names.len() {
        proof {
            assert(strings_view(names@).skip(depth as int).len() == 0);
        }
        node.properties = props;
        if clear_attributes {
            node.attributes = None;
        }
        node.tags = Vec::new();
        node.keep_unknowns = None;
        proof {
            assert(strings_view(node.tags@) =~= Seq::<Seq<char>>::empty());
            assert(final(node)@ =~= spec_node_patch_v(
                old(node)@,
                strings_view(names@).skip(depth as int),
                props@,
                clear_attributes,
            )->Some_0);
        }
        return true;
    }
    proof {
        assert(strings_view(names@).skip(depth as int)[0] == names@[depth as int]@);
        assert(strings_view(names@).skip(depth as int).drop_first() =~= strings_view(
            names@,
        ).skip(depth as int + 1));
    }
    let step = names[depth].clone();
    let taken = remove_child(node, &step);
    match taken {
        Some(mut sub) => {
            let ghost subv0 = sub@;
            let ok = patch_node_at(&mut sub, names, depth + 1, props, clear_attributes);
            let ghost subv1 = sub@;
            set_child(node, &step, sub);
            proof {
                assert(subv0 == old(node)@.tree[step@]);
                assert(final(node)@.tree =~= old(node)@.tree.remove(step@).insert(
                    step@,
                    subv1,
                ));
                assert(old(node)@.tree.remove(step@).insert(step@, subv1) =~= old(
                    node,
                )@.tree.insert(step@, subv1));
                assert(final(node)@.tree =~= old(node)@.tree.insert(step@, subv1));
            }
            if ok {
                proof {
                    assert(final(node)@ =~= spec_node_patch_v(
                        old(node)@,
                        strings_view(names@).skip(depth as int),
                        props@,
                        clear_attributes,
                    )->Some_0);
                }
                true
            } else {
                proof {
                    assert(subv1 == old(node)@.tree[step@]);
                    assert(old(node)@.tree.insert(step@, subv1) =~= old(node)@.tree);
                    assert(final(node)@ =~= old(node)@);
                }
                false
            }
        }
        None => {
            proof {
                assert(old(node)@.tree.remove(step@) =~= old(node)@.tree);
                assert(final(node)@ =~= old(node)@);
            }
            false
        }
    }
}


/// Pending differences a reload revealed against the running project.
#[derive(Debug, PartialEq, Eq, Structural, Clone, Copy)]
pub struct ProjectChanges {
    /// The serve address (host or port) changed.
    pub address: bool,
    /// The set of node-to-path mappings changed.
    pub paths: bool,
    /// The identity metadata (name, game or place ids) changed.
    pub meta: bool,
}

impl View for ProjectChanges {
    type V = ProjectChanges;

    open spec fn view(&self) -> ProjectChanges {
        *self
    }
}

/// A loaded project: its document plus what loading derives from it.
#[derive(Debug)]
pub struct Project {
    pub doc: ProjectDoc,
    /// The root node's class, defaulting to `Folder`.
    pub root_class: String,
    /// Where the document was loaded from.
    pub project_path: FsPath,
    /// The root's custom path, when the document has one.
    pub root_dir: Option<FsPath>,
    /// Every custom path in the document, with the breadcrumb of the node
    /// that carries it.
    pub path_map: Vec<(FsPath, crate::meta::NodePath)>,
}

/// The custom-path pairs a node subtree contributes, each path paired with
/// the breadcrumb of its node.
pub open spec fn spec_paths_of(
    n: ProjectNode,
    crumb: Seq<Seq<char>>,
) -> Seq<(Seq<PathCompV>, Seq<Seq<char>>)>
    decreases n, 1int,
{
    let own: Seq<(Seq<PathCompV>, Seq<Seq<char>>)> = match n.path {
        Some(p) => seq![(p@, crumb)],
        None => Seq::empty(),
    };
    own + spec_paths_of_children(n.tree@, crumb)
}

pub open spec fn spec_paths_of_children(
    t: Seq<(String, ProjectNode)>,
    crumb: Seq<Seq<char>>,
) -> Seq<(Seq<PathCompV>, Seq<Seq<char>>)>
    decreases t, 0int,
{
    if t.len() == 0 {
        Seq::empty()
    } else {
        spec_paths_of_children(t.drop_last(), crumb) + spec_paths_of(
            t.last().1,
            crumb.push(t.last().0@),
        )
    }
}

/// Collect the custom paths of a node subtree.
fn collect_paths(
    n: &ProjectNode,
    crumb: &crate::meta::NodePath,
    out: &mut Vec<(FsPath, crate::meta::NodePath)>,
)
    ensures
        final(out)@.len() >= old(out)@.len(),
        final(out)@.map_values(|p: (FsPath, crate::meta::NodePath)| (p.0@, p.1@)) == old(out)@
            .map_values(|p: (FsPath, crate::meta::NodePath)| (p.0@, p.1@)) + spec_paths_of(
            *n,
            crumb@,
        ),
    decreases *n,
{
    let ghost prev = out@.map_values(|p: (FsPath, crate::meta::NodePath)| (p.0@, p.1@));
    match &n.path {
        Some(p) => {
            out.push((p.clone_path(), crumb.clone_node_path()));
            proof {
                assert(out@.map_values(|p: (FsPath, crate::meta::NodePath)| (p.0@, p.1@)) =~= prev
                    + seq![(n.path->Some_0@, crumb@)]);
            }
        }
        None => {
            proof {
                assert(prev + Seq::<(Seq<PathCompV>, Seq<Seq<char>>)>::empty() =~= prev);
            }
        }
    }
    let mut i: usize = 0;
    while i < n.tree.len()
        invariant
            i <= n.tree@.len(),
            out@.map_values(|p: (FsPath, crate::meta::NodePath)| (p.0@, p.1@)) == prev + (
            match n.path {
                Some(p) => seq![(p@, crumb@)],
                None => Seq::<(Seq<PathCompV>, Seq<Seq<char>>)>::empty(),
            }) + spec_paths_of_children(n.tree@.take(i as int), crumb@),
        decreases n.tree@.len() - i,
    {
        let (name, child) = &n.tree[i];
        let child_crumb = crumb.join(name);
        proof {
            assert(decreases_to!(*n => n.tree));
            assert(decreases_to!(n.tree => n.tree@));
            assert(decreases_to!(n.tree@ => n.tree@[i as int]));
            assert(decreases_to!(n.tree@[i as int] => n.tree@[i as int].1));
        }
        collect_paths(child, &child_crumb, out);
        proof {
            assert(n.tree@.take(i as int + 1).drop_last() =~= n.tree@.take(i as int));
            assert(n.tree@.take(i as int + 1).last() == n.tree@[i as int]);
            assert(spec_paths_of_children(n.tree@.take(i as int + 1), crumb@)
                == spec_paths_of_children(n.tree@.take(i as int), crumb@) + spec_paths_of(
                n.tree@[i as int].1,
                crumb@.push(n.tree@[i as int].0@),
            ));
            assert(child_crumb@ == crumb@.push(n.tree@[i as int].0@));
            assert(out@.map_values(|p: (FsPath, crate::meta::NodePath)| (p.0@, p.1@)) =~= prev + (
            match n.path {
                Some(p) => seq![(p@, crumb@)],
                None => Seq::<(Seq<PathCompV>, Seq<Seq<char>>)>::empty(),
            }) + spec_paths_of_children(n.tree@.take(i as int + 1), crumb@));
        }
        i += 1;
    }
    proof {
        assert(n.tree@.take(n.tree@.len() as int) =~= n.tree@);
    }
}

/// What loading owes: the returned runtime state is derived exactly from
/// the returned document, and that document is the stored one.
pub open spec fn spec_load_ok(p: Project, path: Seq<PathCompV>, stored: ProjectDocV) -> bool {
    &&& p.doc@ == stored
    &&& node_wf(p.doc.node)
    &&& p.project_path@ == path
    &&& p.root_class@ == (match stored.node.class_name {
        Some(c) => c,
        None => "Folder"@,
    })
    &&& opt_path_view(p.root_dir) == stored.node.path
    &&& p.path_map@.map_values(|q: (FsPath, crate::meta::NodePath)| (q.0@, q.1@))
        == spec_paths_of(p.doc.node, Seq::empty())
}

impl Project {
    /// Load a project from its document on disk: the root class defaults to
    /// `Folder`, the root's custom path becomes the root directory, and
    /// every custom path in the tree is collected with its breadcrumb.
    /// Success is owed exactly when a project document backs the path.
    pub fn load(project_path: &FsPath, vfs: &Vfs) -> (r: Result<Project, crate::engine::EngineError>)
        requires
            vfs.wf(),
        ensures
            r is Ok <==> (vfs@.contains_key(project_path@) && vfs@[project_path@] matches
                crate::vfs::FsEntryV::File(crate::vfs::FileBodyV::Project(_))),
            match r {
                Ok(p) => vfs@[project_path@] matches crate::vfs::FsEntryV::File(
                    crate::vfs::FileBodyV::Project(stored),
                ) && spec_load_ok(p, project_path@, stored),
                Err(e) => e is BadProjectFile,
            },
    {
        let doc = match vfs.read(project_path) {
            Some(crate::vfs::FileBody::Project(d)) => d.clone(),
            _ => {
                return Err(crate::engine::EngineError::BadProjectFile);
            }
        };
        let root_class = match &doc.node.class_name {
            Some(c) => c.clone(),
            None => String::from_str("Folder"),
        };
        let root_dir = match &doc.node.path {
            Some(p) => Some(p.clone_path()),
            None => None,
        };
        let mut path_map: Vec<(FsPath, crate::meta::NodePath)> = Vec::new();
        let crumb = crate::meta::NodePath::new();
        collect_paths(&doc.node, &crumb, &mut path_map);
        let p = Project {
            doc,
            root_class,
            project_path: project_path.clone_path(),
            root_dir,
            path_map,
        };
        proof {
            assert(p.path_map@.map_values(|q: (FsPath, crate::meta::NodePath)| (q.0@, q.1@))
                =~= spec_paths_of(p.doc.node, Seq::empty()));
            assert(spec_load_ok(p, project_path@, p.doc@));
        }
        Ok(p)
    }

    /// Reload the project from disk, reporting what changed; the loaded
    /// state replaces the running one. Success is owed exactly when a
    /// project document still backs the recorded path; on failure the
    /// running state is untouched.
    pub fn reload(&mut self, vfs: &Vfs) -> (r: Result<ProjectChanges, crate::engine::EngineError>)
        requires
            vfs.wf(),
        ensures
            r is Ok <==> (vfs@.contains_key(old(self).project_path@)
                && vfs@[old(self).project_path@] matches crate::vfs::FsEntryV::File(
                crate::vfs::FileBodyV::Project(_),
            )),
            match r {
                Ok(c) => vfs@[old(self).project_path@] matches crate::vfs::FsEntryV::File(
                    crate::vfs::FileBodyV::Project(stored),
                ) && spec_load_ok(*final(self), old(self).project_path@, stored)
                    && c.address == !(old(self).doc@.host == final(self).doc@.host
                    && old(self).doc@.port == final(self).doc@.port)
                    && c.paths == !(pm_view(old(self).path_map@) == pm_view(final(self).path_map@))
                    && c.meta == !(old(self).doc@.name == final(self).doc@.name
                    && old(self).doc@.game_id == final(self).doc@.game_id
                    && (match (old(self).doc@.place_ids, final(self).doc@.place_ids) {
                    (None, None) => true,
                    (Some(x), Some(y)) => x == y,
                    _ => false,
                })),
                Err(_) => *final(self) == *old(self),
            },
    {
        let path = self.project_path.clone_path();
        let new = match Project::load(&path, vfs) {
            Ok(p) => p,
            Err(e) => {
                return Err(e);
            }
        };
        let address = !crate::datafile::opt_string_eq(&self.doc.host, &new.doc.host)
            || !opt_u16_eq(&self.doc.port, &new.doc.port);
        let paths = !path_map_eq(&self.path_map, &new.path_map);
        let meta = !(self.doc.name == new.doc.name) || !opt_u64_eq(
            &self.doc.game_id,
            &new.doc.game_id,
        ) || !opt_ids_eq(&self.doc.place_ids, &new.doc.place_ids);
        *self = new;
        Ok(ProjectChanges { address, paths, meta })
    }

    /// Every custom path the document names.
    pub fn get_paths(&self) -> (r: Vec<FsPath>)
        ensures
            r@.len() == self.path_map@.len(),
            forall|i: int| 0 <= i < r@.len() ==> (#[trigger] r@[i])@ == self.path_map@[i].0@,
    {
        let mut r: Vec<FsPath> = Vec::new();
        let mut i: usize = 0;
        while i < self.path_map.len()
            invariant
                i <= self.path_map@.len(),
                r@.len() == i,
                forall|j: int| 0 <= j < i ==> (#[trigger] r@[j])@ == self.path_map@[j].0@,
            decreases self.path_map@.len() - i,
        {
            r.push(self.path_map[i].0.clone_path());
            i += 1;
        }
        r
    }

    /// Whether the project describes a whole place: its root is the engine's
    /// data model.
    pub fn is_place(&self) -> (r: bool)
        ensures
            r == (self.root_class@ == "DataModel"@),
    {
        let dm = String::from_str("DataModel");
        proof {
            reveal_strlit("DataModel");
        }
        self.root_class == dm
    }

    /// Whether the project is a typed-scripting workspace: its ignore rules
    /// name the compiler configuration, or a custom path ends in the typed
    /// runtime's directory.
    pub fn is_ts(&self) -> (r: bool)
        ensures
            r == ((match self.doc@.ignore_globs {
                Some(gs) => gs.contains("**/tsconfig.json"@),
                None => false,
            }) || (exists|i: int| 0 <= i < self.path_map@.len() && (
            #[trigger] self.path_map@[i]).0@.len() > 0 && self.path_map@[i].0@.last().stem
                == "@rbxts"@)),
    {
        let marker = String::from_str("**/tsconfig.json");
        match &self.doc.ignore_globs {
            Some(globs) => {
                let mut i: usize = 0;
                while i < globs.len()
                    invariant
                        marker@ == "**/tsconfig.json"@,
                        self.doc@.ignore_globs == Some(crate::alist::strings_view(globs@)),
                        i <= globs@.len(),
                        forall|j: int| 0 <= j < i ==> crate::alist::strings_view(globs@)[j]
                            != "**/tsconfig.json"@,
                    decreases globs@.len() - i,
                {
                    if globs[i] == marker {
                        proof {
                            assert(crate::alist::strings_view(globs@)[i as int]
                                == "**/tsconfig.json"@);
                            assert(crate::alist::strings_view(globs@).contains(
                                "**/tsconfig.json"@,
                            ));
                            assert(self.doc@.ignore_globs == Some(
                                crate::alist::strings_view(globs@),
                            ));
                        }
                        return true;
                    }
                    proof {
                        assert(crate::alist::strings_view(globs@)[i as int] == globs@[i as int]@);
                    }
                    i += 1;
                }
                proof {
                    assert(!crate::alist::strings_view(globs@).contains("**/tsconfig.json"@));
                }
            }
            None => {}
        }
        let rbxts = String::from_str("@rbxts");
        let mut i: usize = 0;
        while i < self.path_map.len()
            invariant
                rbxts@ == "@rbxts"@,
                i <= self.path_map@.len(),
                forall|j: int| 0 <= j < i ==> !((#[trigger] self.path_map@[j]).0@.len() > 0
                    && self.path_map@[j].0@.last().stem == "@rbxts"@),
            decreases self.path_map@.len() - i,
        {
            let p = &self.path_map[i].0;
            if p.len() > 0 {
                if p.file_name().stem == rbxts {
                    proof {
                        assert((self.path_map@[i as int]).0@.len() > 0
                            && self.path_map@[i as int].0@.last().stem == "@rbxts"@);
                    }
                    return true;
                }
            }
            i += 1;
        }
        false
    }
}

fn opt_u16_eq(a: &Option<u16>, b: &Option<u16>) -> (r: bool)
    ensures
        r == (a == b),
{
    match (a, b) {
        (None, None) => true,
        (Some(x), Some(y)) => *x == *y,
        _ => false,
    }
}

fn opt_u64_eq(a: &Option<u64>, b: &Option<u64>) -> (r: bool)
    ensures
        r == (a == b),
{
    match (a, b) {
        (None, None) => true,
        (Some(x), Some(y)) => *x == *y,
        _ => false,
    }
}

fn ids_eq(a: &Vec<u64>, b: &Vec<u64>) -> (r: bool)
    ensures
        r == (a@ == b@),
{
    if a.len() != b.len() {
        return false;
    }
    let mut i: usize = 0;
    while i < a.len()
        invariant
            a@.len() == b@.len(),
            i <= a@.len(),
            forall|j: int| 0 <= j < i ==> a@[j] == b@[j],
        decreases a@.len() - i,
    {
        if a[i] != b[i] {
            return false;
        }
        i += 1;
    }
    proof {
        assert(a@ =~= b@);
    }
    true
}

fn opt_ids_eq(a: &Option<Vec<u64>>, b: &Option<Vec<u64>>) -> (r: bool)
    ensures
        r == (match (a, b) {
            (None, None) => true,
            (Some(x), Some(y)) => x@ == y@,
            _ => false,
        }),
{
    match (a, b) {
        (None, None) => true,
        (Some(x), Some(y)) => ids_eq(x, y),
        _ => false,
    }
}

/// The spec-level pairs of a path map.
pub open spec fn pm_view(
    v: Seq<(FsPath, crate::meta::NodePath)>,
) -> Seq<(Seq<PathCompV>, Seq<Seq<char>>)> {
    v.map_values(|q: (FsPath, crate::meta::NodePath)| (q.0@, q.1@))
}

fn path_map_eq(
    a: &Vec<(FsPath, crate::meta::NodePath)>,
    b: &Vec<(FsPath, crate::meta::NodePath)>,
) -> (r: bool)
    ensures
        r == (pm_view(a@) == pm_view(b@)),
{
    if a.len() != b.len() {
        proof {
            assert(pm_view(a@).len() != pm_view(b@).len());
        }
        return false;
    }
    let mut i: usize = 0;
    while i < a.len()
        invariant
            a@.len() == b@.len(),
            i <= a@.len(),
            forall|j: int| 0 <= j < i ==> (#[trigger] pm_view(a@)[j]) == pm_view(b@)[j],
        decreases a@.len() - i,
    {
        if !a[i].0.eq_path(&b[i].0) {
            proof {
                assert(pm_view(a@)[i as int].0 != pm_view(b@)[i as int].0);
            }
            return false;
        }
        if !names_eq(&a[i].1.names, &b[i].1.names) {
            proof {
                assert(pm_view(a@)[i as int].1 != pm_view(b@)[i as int].1);
            }
            return false;
        }
        proof {
            assert(pm_view(a@)[i as int] == pm_view(b@)[i as int]);
        }
        i += 1;
    }
    proof {
        assert(pm_view(a@) =~= pm_view(b@));
    }
    true
}

fn names_eq(a: &Vec<String>, b: &Vec<String>) -> (r: bool)
    ensures
        r == (strings_view(a@) == strings_view(b@)),
{
    if a.len() != b.len() {
        proof {
            assert(strings_view(a@).len() != strings_view(b@).len());
        }
        return false;
    }
    let mut i: usize = 0;
    while i < a.len()
        invariant
            a@.len() == b@.len(),
            i <= a@.len(),
            forall|j: int| 0 <= j < i ==> (#[trigger] strings_view(a@)[j]) == strings_view(
                b@,
            )[j],
        decreases a@.len() - i,
    {
        if !(a[i] == b[i]) {
            proof {
                assert(strings_view(a@)[i as int] != strings_view(b@)[i as int]);
            }
            return false;
        }
        proof {
            assert(strings_view(a@)[i as int] == a@[i as int]@);
            assert(strings_view(b@)[i as int] == b@[i as int]@);
        }
        i += 1;
    }
    proof {
        assert(strings_view(a@) =~= strings_view(b@));
    }
    true
}

/// Resolve where a project document lives for a target path: a file, or a
/// name already carrying the document suffix, is taken as is; otherwise the
/// first document found in the directory wins, and failing that the default
/// name inside it.
pub fn resolve(path: FsPath, default: &String, is_file: bool, first_found: Option<FsPath>) -> (r:
    FsPath)
    requires
        path@.len() > 0,
    ensures
        is_file || path@.last().suffix == ".project.json"@ ==> r@ == path@,
        !(is_file || path@.last().suffix == ".project.json"@) ==> r@ == (
        match first_found {
            Some(p) => p@,
            None => path@.push(
                crate::path::PathCompV { stem: default@, suffix: ".project.json"@ },
            ),
        }),
{
    let suffix = String::from_str(".project.json");
    if is_file || path.file_name().suffix == suffix {
        return path;
    }
    match first_found {
        Some(p) => p,
        None => path.join(
            crate::path::PathComp { stem: default.clone(), suffix },
        ),
    }
}

} // verus!
