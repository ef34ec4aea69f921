//! The authoritative store of instances and their metadata, keyed by id.

use vstd::prelude::*;

use crate::alist::{
    lemma_map_of_pairs_absent, lemma_map_of_pairs_find, lemma_remove_idx, map_of_pairs,
    unique_keys,
};
use crate::meta::{meta_ok, source_paths_ok, Meta, MetaV, Source, SourceEntry, SourceKind};
use crate::props::Props;
use crate::snapshot::RefId;
use crate::value::TypedValueV;

verus! {

/// One instance as stored in the tree: its fields plus parent and child
/// links.
#[derive(Debug)]
pub struct Instance {
    pub name: String,
    pub class: String,
    pub properties: Props,
    pub parent: RefId,
    pub children: Vec<RefId>,
}

pub ghost struct InstanceV {
    pub name: Seq<char>,
    pub class: Seq<char>,
    pub properties: Map<Seq<char>, TypedValueV>,
    pub parent: RefId,
    pub children: Seq<RefId>,
}

impl View for Instance {
    type V = InstanceV;

    open spec fn view(&self) -> InstanceV {
        InstanceV {
            name: self.name@,
            class: self.class@,
            properties: self.properties@,
            parent: self.parent,
            children: self.children@,
        }
    }
}

/// An instance together with its sync metadata.
#[derive(Debug)]
pub struct TreeNode {
    pub inst: Instance,
    pub meta: Meta,
}

pub ghost struct TreeNodeV {
    pub inst: InstanceV,
    pub meta: MetaV,
}

impl View for TreeNode {
    type V = TreeNodeV;

    open spec fn view(&self) -> TreeNodeV {
        TreeNodeV { inst: self.inst@, meta: self.meta@ }
    }
}

/// A stored node is usable: unique property keys and usable metadata.
pub open spec fn tree_node_ok(n: TreeNode) -> bool {
    n.inst.properties.wf() && meta_ok(n.meta)
}

/// The id-keyed store of instances and metadata.
#[derive(Debug)]
pub struct Tree {
    pub entries: Vec<(RefId, TreeNode)>,
}

/// The spec-level entry pairs.
pub open spec fn tree_pairs(v: Seq<(RefId, TreeNode)>) -> Seq<(RefId, TreeNodeV)> {
    v.map_values(|p: (RefId, TreeNode)| (p.0, p.1@))
}

impl View for Tree {
    type V = Map<RefId, TreeNodeV>;

    open spec fn view(&self) -> Map<RefId, TreeNodeV> {
        map_of_pairs(tree_pairs(self.entries@))
    }
}

impl Tree {
    pub open spec fn pairs(&self) -> Seq<(RefId, TreeNodeV)> {
        tree_pairs(self.entries@)
    }

    /// Well-formedness: one entry per id, each node usable.
    pub open spec fn wf(&self) -> bool {
        &&& unique_keys(self.pairs())
        &&& forall|i: int| 0 <= i < self.entries@.len() ==> tree_node_ok(
            (#[trigger] self.entries@[i]).1,
        )
    }

    /// An empty tree.
    pub fn new() -> (r: Tree)
        ensures
            r.wf(),
            r@ == Map::<RefId, TreeNodeV>::empty(),
    {
        let r = Tree { entries: Vec::new() };
        proof {
            assert(r.pairs() =~= Seq::<(RefId, TreeNodeV)>::empty());
        }
        r
    }

    /// Find the index of the entry for `id`.
    fn find(&self, id: RefId) -> (r: Option<usize>)
        requires
            self.wf(),
        ensures
            match r {
                Some(i) => i < self.entries@.len() && self.pairs()[i as int].0 == id
                    && self@.contains_key(id) && self@[id] == self.pairs()[i as int].1,
                None => !self@.contains_key(id),
            },
    {
        let mut i: usize = 0;
        while i < self.entries.len()
            invariant
                self.wf(),
                i <= self.entries.len(),
                forall|j: int| 0 <= j < i ==> (#[trigger] self.pairs()[j]).0 != id,
            decreases self.entries.len() - i,
        {
            if self.entries[i].0 == id {
                proof {
                    assert(self.pairs()[i as int].0 == id);
                    lemma_map_of_pairs_find(self.pairs(), i as int);
                }
                return Some(i);
            }
            proof {
                assert(self.pairs()[i as int].0 != id);
            }
            i += 1;
        }
        proof {
            lemma_map_of_pairs_absent(self.pairs(), id);
        }
        None
    }

    /// Whether `id` names an instance.
    pub fn contains_id(&self, id: RefId) -> (r: bool)
        requires
            self.wf(),
        ensures
            r == self@.contains_key(id),
    {
        self.find(id).is_some()
    }

    pub fn get_instance(&self, id: RefId) -> (r: Option<&Instance>)
        requires
            self.wf(),
        ensures
            match r {
                Some(inst) => self@.contains_key(id) && inst@ == self@[id].inst
                    && inst.properties.wf(),
                None => !self@.contains_key(id),
            },
    {
        match self.find(id) {
            Some(i) => Some(&self.entries[i].1.inst),
            None => None,
        }
    }

    pub fn get_meta(&self, id: RefId) -> (r: Option<&Meta>)
        requires
            self.wf(),
        ensures
            match r {
                Some(meta) => self@.contains_key(id) && meta@ == self@[id].meta && meta_ok(
                    *meta,
                ),
                None => !self@.contains_key(id),
            },
    {
        match self.find(id) {
            Some(i) => Some(&self.entries[i].1.meta),
            None => None,
        }
    }

    /// Create or replace the entry for `id`.
    pub fn set_node(&mut self, id: RefId, node: TreeNode)
        requires
            old(self).wf(),
            tree_node_ok(node),
        ensures
            final(self).wf(),
            final(self)@ == old(self)@.insert(id, node@),
    {
        let found = self.find(id);
        match found {
            Some(i) => {
                let ghost oldp = self.pairs();
                self.entries.remove(i);
                proof {
                    assert(self.pairs() =~= oldp.remove(i as int));
                    lemma_remove_idx(oldp, i as int);
                }
            }
            None => {}
        }
        let ghost mid = self.pairs();
        self.entries.push((id, node));
        proof {
            assert(self.pairs() =~= mid.push((id, node@)));
            assert(self.pairs().drop_last() =~= mid);
            assert(forall|j: int| 0 <= j < mid.len() ==> (#[trigger] mid[j]).0 != id) by {
                if exists|j: int| 0 <= j < mid.len() && (#[trigger] mid[j]).0 == id {
                    let j = choose|j: int| 0 <= j < mid.len() && (#[trigger] mid[j]).0 == id;
                    lemma_map_of_pairs_find(mid, j);
                }
            }
            assert(final(self)@ =~= old(self)@.insert(id, node@));
        }
    }

    /// Remove the entry for `id` alone; links are not touched.
    pub fn take_node(&mut self, id: RefId) -> (r: Option<TreeNode>)
        requires
            old(self).wf(),
        ensures
            final(self).wf(),
            final(self)@ == old(self)@.remove(id),
            final(self).entries@.len() <= old(self).entries@.len(),
            match r {
                Some(node) => old(self)@.contains_key(id) && node@ == old(self)@[id]
                    && tree_node_ok(node) && final(self).entries@.len() < old(
                    self,
                ).entries@.len(),
                None => !old(self)@.contains_key(id),
            },
    {
        let found = self.find(id);
        match found {
            Some(i) => {
                let ghost oldp = self.pairs();
                let (_, node) = self.entries.remove(i);
                proof {
                    assert(self.pairs() =~= oldp.remove(i as int));
                    lemma_remove_idx(oldp, i as int);
                }
                Some(node)
            }
            None => {
                proof {
                    assert(old(self)@.remove(id) =~= old(self)@);
                }
                None
            }
        }
    }

    /// Replace the metadata of an existing instance.
    pub fn update_meta(&mut self, id: RefId, meta: Meta)
        requires
            old(self).wf(),
            old(self)@.contains_key(id),
            meta_ok(meta),
        ensures
            final(self).wf(),
            final(self)@ == old(self)@.insert(
                id,
                TreeNodeV { meta: meta@, ..old(self)@[id] },
            ),
    {
        let node = self.take_node(id);
        match node {
            Some(n) => {
                let TreeNode { inst, meta: _ } = n;
                self.set_node(id, TreeNode { inst, meta });
                proof {
                    assert(final(self)@ =~= old(self)@.insert(
                        id,
                        TreeNodeV { meta: meta@, ..old(self)@[id] },
                    ));
                }
            }
            None => {
                proof {
                    assert(false);
                }
            }
        }
    }

    /// Append `child` to the children of `parent`, if not already linked.
    pub fn link_child(&mut self, parent: RefId, child: RefId)
        requires
            old(self).wf(),
            old(self)@.contains_key(parent),
        ensures
            final(self).wf(),
            final(self)@ == old(self)@.insert(
                parent,
                TreeNodeV {
                    inst: InstanceV {
                        children: spec_link(old(self)@[parent].inst.children, child),
                        ..old(self)@[parent].inst
                    },
                    ..old(self)@[parent]
                },
            ),
    {
        let node = self.take_node(parent);
        match node {
            Some(n) => {
                let TreeNode { mut inst, meta } = n;
                let mut present = false;
                let mut i: usize = 0;
                while i < inst.children.len()
                    invariant
                        i <= inst.children@.len(),
                        present == inst.children@.take(i as int).contains(child),
                    decreases inst.children@.len() - i,
                {
                    if inst.children[i] == child {
                        present = true;
                    }
                    proof {
                        assert(inst.children@.take(i as int + 1).drop_last() =~= inst.children@
                            .take(i as int));
                        assert(inst.children@.take(i as int + 1).last() == inst.children@[
                            i as int
                        ]);
                    }
                    i += 1;
                }
                proof {
                    assert(inst.children@.take(inst.children@.len() as int) =~= inst.children@);
                }
                if !present {
                    inst.children.push(child);
                }
                self.set_node(parent, TreeNode { inst, meta });
                proof {
                    assert(final(self)@ =~= old(self)@.insert(
                        parent,
                        TreeNodeV {
                            inst: InstanceV {
                                children: spec_link(old(self)@[parent].inst.children, child),
                                ..old(self)@[parent].inst
                            },
                            ..old(self)@[parent]
                        },
                    ));
                }
            }
            None => {
                proof {
                    assert(false);
                }
            }
        }
    }

    /// Remove `child` from the children of `parent`.
    pub fn unlink_child(&mut self, parent: RefId, child: RefId)
        requires
            old(self).wf(),
        ensures
            final(self).wf(),
            !old(self)@.contains_key(parent) ==> final(self)@ == old(self)@,
            old(self)@.contains_key(parent) ==> final(self)@ == old(self)@.insert(
                parent,
                TreeNodeV {
                    inst: InstanceV {
                        children: old(self)@[parent].inst.children.filter(
                            |c: RefId| c != child,
                        ),
                        ..old(self)@[parent].inst
                    },
                    ..old(self)@[parent]
                },
            ),
    {
        let node = self.take_node(parent);
        match node {
            Some(n) => {
                let TreeNode { mut inst, meta } = n;
                let ghost oldc = inst.children@;
                let mut kept: Vec<RefId> = Vec::new();
                let mut i: usize = 0;
                proof {
                    assert(kept@ =~= oldc.take(0).filter(|c: RefId| c != child));
                }
                while i < inst.children.len()
                    invariant
                        i <= inst.children@.len(),
                        inst.children@ == oldc,
                        kept@ == oldc.take(i as int).filter(|c: RefId| c != child),
                    decreases inst.children@.len() - i,
                {
                    let c = inst.children[i];
                    proof {
                        assert(oldc.take(i as int + 1).drop_last() =~= oldc.take(i as int));
                        assert(oldc.take(i as int + 1).last() == oldc[i as int]);
                        reveal(Seq::filter);
                    }
                    if c != child {
                        kept.push(c);
                    }
                    i += 1;
                }
                proof {
                    assert(oldc.take(oldc.len() as int) =~= oldc);
                }
                inst.children = kept;
                self.set_node(parent, TreeNode { inst, meta });
                proof {
                    assert(final(self)@ =~= old(self)@.insert(
                        parent,
                        TreeNodeV {
                            inst: InstanceV {
                                children: old(self)@[parent].inst.children.filter(
                                    |c: RefId| c != child,
                                ),
                                ..old(self)@[parent].inst
                            },
                            ..old(self)@[parent]
                        },
                    ));
                }
            }
            None => {
                proof {
                    assert(old(self)@.remove(parent) =~= old(self)@);
                }
            }
        }
    }

    /// Insert one instance under `parent`: the entry is created or replaced
    /// and, when the parent exists, the id is linked into its children.
    pub fn insert_instance_with_ref(&mut self, id: RefId, inst: Instance, meta: Meta, parent:
        RefId)
        requires
            old(self).wf(),
            inst.properties.wf(),
            meta_ok(meta),
        ensures
            final(self).wf(),
            !old(self)@.contains_key(parent) || parent == id ==> final(self)@ == old(self)@
                .insert(id, TreeNodeV { inst: inst@, meta: meta@ }),
            old(self)@.contains_key(parent) && parent != id ==> final(self)@ == old(self)@
                .insert(id, TreeNodeV { inst: inst@, meta: meta@ }).insert(
                parent,
                TreeNodeV {
                    inst: InstanceV {
                        children: spec_link(old(self)@[parent].inst.children, id),
                        ..old(self)@[parent].inst
                    },
                    ..old(self)@[parent]
                },
            ),
    {
        let parent_there = self.contains_id(parent);
        self.set_node(id, TreeNode { inst, meta });
        if parent_there && parent != id {
            self.link_child(parent, id);
            proof {
                assert(old(self)@.insert(id, final(self)@[id]).contains_key(parent));
            }
        }
    }

    /// Remove `id` and every instance reachable through children links from
    /// it, and unlink `id` from its parent.
    pub fn remove_instance(&mut self, id: RefId)
        requires
            old(self).wf(),
        ensures
            final(self).wf(),
            !final(self)@.contains_key(id),
            forall|k: RefId| final(self)@.contains_key(k) ==> old(self)@.contains_key(k),
    {
        let parent = match self.get_instance(id) {
            Some(inst) => Some(inst.parent),
            None => None,
        };
        match parent {
            Some(p) => {
                self.unlink_child(p, id);
                proof {
                    if p == id {
                        assert(!self@.contains_key(id) || self@.contains_key(id));
                    }
                }
            }
            None => {}
        }
        self.remove_reachable(id);
    }

    /// Remove `id` and everything reachable from it through children links.
    fn remove_reachable(&mut self, id: RefId)
        requires
            old(self).wf(),
        ensures
            final(self).wf(),
            !final(self)@.contains_key(id),
            forall|k: RefId| final(self)@.contains_key(k) ==> old(self)@.contains_key(k),
            final(self).entries@.len() <= old(self).entries@.len(),
        decreases old(self).entries@.len(), 0int,
    {
        let node = self.take_node(id);
        match node {
            Some(n) => {
                let TreeNode { inst, meta: _ } = n;
                let Instance { children, .. } = inst;
                let mut i: usize = 0;
                let ghost after_take = self@;
                while i < children.len()
                    invariant
                        self.wf(),
                        self.entries@.len() < old(self).entries@.len(),
                        !self@.contains_key(id),
                        forall|k: RefId| self@.contains_key(k) ==> after_take.contains_key(k),
                        after_take == old(self)@.remove(id),
                    decreases children@.len() - i,
                {
                    let ghost before = self@;
                    let ghost beforelen = self.entries@.len();
                    self.remove_reachable_inner(children[i]);
                    i += 1;
                }
            }
            None => {}
        }
    }

    /// Helper for the recursion: identical contract, called on each child.
    fn remove_reachable_inner(&mut self, id: RefId)
        requires
            old(self).wf(),
        ensures
            final(self).wf(),
            !final(self)@.contains_key(id),
            forall|k: RefId| final(self)@.contains_key(k) ==> old(self)@.contains_key(k),
            final(self).entries@.len() <= old(self).entries@.len(),
        decreases old(self).entries@.len(), 1int,
    {
        self.remove_reachable(id);
    }
}

/// A child list after linking `child`: unchanged when present, appended
/// otherwise.
pub open spec fn spec_link(children: Seq<RefId>, child: RefId) -> Seq<RefId> {
    if children.contains(child) {
        children
    } else {
        children.push(child)
    }
}

} // verus!
