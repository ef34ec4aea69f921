//! Snapshots: transient descriptions of one instance and its subtree, and
//! the diff envelopes describing a single change.

use vstd::prelude::*;

use crate::datafile::clone_opt_string;
use crate::meta::{Meta, MetaV};
use crate::path::FsPath;
use crate::project::opt_string_view;
use crate::props::Props;
use crate::value::{TypedValue, TypedValueV};

verus! {

/// The identifier of an instance. Zero is the null id, carried by snapshots
/// not yet realized in a tree.
pub type RefId = u64;

/// The null id.
pub const NULL_REF: u64 = 0;

/// A transient description of one instance and its subtree. Sibling order is
/// significant and mirrors engine ordering.
#[derive(Debug)]
pub struct Snapshot {
    pub id: RefId,
    pub meta: Meta,
    pub name: String,
    pub class: String,
    pub properties: Props,
    pub children: Vec<Snapshot>,
}

pub ghost struct SnapshotV {
    pub id: RefId,
    pub meta: MetaV,
    pub name: Seq<char>,
    pub class: Seq<char>,
    pub properties: Map<Seq<char>, TypedValueV>,
    pub children: Seq<SnapshotV>,
}

/// The spec-level values of a child list.
pub open spec fn snaps_view(v: Seq<Snapshot>) -> Seq<SnapshotV>
    decreases v, 0int,
{
    if v.len() == 0 {
        Seq::empty()
    } else {
        snaps_view(v.drop_last()).push(snap_view(v.last()))
    }
}

pub open spec fn snap_view(s: Snapshot) -> SnapshotV
    decreases s, 1int,
{
    SnapshotV {
        id: s.id,
        meta: s.meta@,
        name: s.name@,
        class: s.class@,
        properties: s.properties@,
        children: snaps_view(s.children@),
    }
}

/// The views of a child list line up with it, index by index.
pub proof fn lemma_snaps_view(v: Seq<Snapshot>)
    ensures
        snaps_view(v).len() == v.len(),
        forall|i: int| 0 <= i < v.len() ==> (#[trigger] snaps_view(v)[i]) == snap_view(v[i]),
    decreases v.len(),
{
    if v.len() > 0 {
        lemma_snaps_view(v.drop_last());
        assert(forall|i: int| 0 <= i < v.len() - 1 ==> v.drop_last()[i] == v[i]);
    }
}

impl View for Snapshot {
    type V = SnapshotV;

    open spec fn view(&self) -> SnapshotV {
        snap_view(*self)
    }
}

/// Well-formedness of a child list: every snapshot in it is well formed.
pub open spec fn snaps_wf(v: Seq<Snapshot>) -> bool
    decreases v, 0int,
{
    v.len() == 0 || (snaps_wf(v.drop_last()) && snap_wf(v.last()))
}

/// Well-formedness: property keys are unique, recursively.
pub open spec fn snap_wf(s: Snapshot) -> bool
    decreases s, 1int,
{
    s.properties.wf() && snaps_wf(s.children@)
}

/// A child list is well formed exactly when each of its snapshots is.
pub proof fn lemma_snaps_wf(v: Seq<Snapshot>)
    ensures
        snaps_wf(v) <==> (forall|i: int| 0 <= i < v.len() ==> snap_wf(#[trigger] v[i])),
    decreases v.len(),
{
    if v.len() > 0 {
        lemma_snaps_wf(v.drop_last());
        assert(forall|i: int| 0 <= i < v.len() - 1 ==> v.drop_last()[i] == v[i]);
        assert(v.last() == v[v.len() - 1]);
    }
}

impl Snapshot {
    /// A fresh snapshot: null id, fresh metadata, empty name, class
    /// `Folder`, no properties, no children.
    pub fn new() -> (r: Snapshot)
        ensures
            snap_wf(r),
            r@.id == NULL_REF,
            r@.name == Seq::<char>::empty(),
            r@.class == "Folder"@,
            r@.properties == Map::<Seq<char>, TypedValueV>::empty(),
            r@.children == Seq::<SnapshotV>::empty(),
            r@.meta.source.kind == crate::meta::SourceKindV::Unbacked,
            r@.meta.source.relevant == Seq::<crate::meta::SourceEntryV>::empty(),
            r@.meta.keep_unknowns == false,
            r@.meta.original_name == Option::<Seq<char>>::None,
            r@.meta.mesh_source == Option::<Seq<char>>::None,
    {
        let r = Snapshot {
            id: NULL_REF,
            meta: Meta::new(),
            name: String::new(),
            class: String::from_str("Folder"),
            properties: Props::new(),
            children: Vec::new(),
        };
        proof {
            assert(r@.children =~= Seq::<SnapshotV>::empty());
            assert(r@.name =~= Seq::<char>::empty());
        }
        r
    }

    pub fn with_id(self, id: RefId) -> (r: Snapshot)
        ensures
            r@ == (SnapshotV { id, ..self@ }),
    {
        Snapshot { id, ..self }
    }

    pub fn with_meta(self, meta: Meta) -> (r: Snapshot)
        ensures
            r@ == (SnapshotV { meta: meta@, ..self@ }),
            r.meta == meta,
            r.properties == self.properties,
            r.children == self.children,
    {
        Snapshot { meta, ..self }
    }

    pub fn with_name(self, name: &String) -> (r: Snapshot)
        ensures
            r@ == (SnapshotV { name: name@, ..self@ }),
            r.meta == self.meta,
            r.properties == self.properties,
            r.children == self.children,
    {
        Snapshot { name: name.clone(), ..self }
    }

    pub fn with_class(self, class: &String) -> (r: Snapshot)
        ensures
            r@ == (SnapshotV { class: class@, ..self@ }),
            r.meta == self.meta,
            r.properties == self.properties,
            r.children == self.children,
    {
        Snapshot { class: class.clone(), ..self }
    }

    pub fn with_properties(self, properties: Props) -> (r: Snapshot)
        ensures
            r@ == (SnapshotV { properties: properties@, ..self@ }),
            r.properties == properties,
            r.properties.wf() == properties.wf(),
            r.meta == self.meta,
            r.children == self.children,
    {
        Snapshot { properties, ..self }
    }

    pub fn with_children(self, children: Vec<Snapshot>) -> (r: Snapshot)
        ensures
            r@ == (SnapshotV { children: snaps_view(children@), ..self@ }),
    {
        Snapshot { children, ..self }
    }

    /// Apply what a sidecar data file carries.
    pub fn with_data(self, data: DataSnapshot) -> (r: Snapshot)
        requires
            self.properties.wf(),
            data.properties.wf(),
        ensures
            r@ == spec_apply_data(self@, data@),
    {
        let mut s = self;
        s.apply_data(data);
        s
    }

    pub fn set_id(&mut self, id: RefId)
        ensures
            final(self)@ == (SnapshotV { id, ..old(self)@ }),
    {
        self.id = id;
    }

    pub fn set_meta(&mut self, meta: Meta)
        ensures
            final(self)@ == (SnapshotV { meta: meta@, ..old(self)@ }),
            final(self).meta == meta,
            final(self).properties == old(self).properties,
            final(self).children == old(self).children,
    {
        self.meta = meta;
    }

    pub fn set_name(&mut self, name: &String)
        ensures
            final(self)@ == (SnapshotV { name: name@, ..old(self)@ }),
    {
        self.name = name.clone();
    }

    pub fn set_class(&mut self, class: &String)
        ensures
            final(self)@ == (SnapshotV { class: class@, ..old(self)@ }),
    {
        self.class = class.clone();
    }

    pub fn set_properties(&mut self, properties: Props)
        ensures
            final(self)@ == (SnapshotV { properties: properties@, ..old(self)@ }),
            final(self).properties.wf() == properties.wf(),
    {
        self.properties = properties;
    }

    pub fn set_children(&mut self, children: Vec<Snapshot>)
        ensures
            final(self)@ == (SnapshotV { children: snaps_view(children@), ..old(self)@ }),
    {
        self.children = children;
    }

    /// Insert one property, replacing any previous value under the name.
    pub fn add_property(&mut self, name: &String, value: TypedValue)
        requires
            old(self).properties.wf(),
        ensures
            final(self)@ == (SnapshotV {
                properties: old(self)@.properties.insert(name@, value@),
                ..old(self)@
            }),
            final(self).properties.wf(),
    {
        self.properties.insert(name.clone(), value);
    }

    /// Append one child.
    pub fn add_child(&mut self, child: Snapshot)
        ensures
            final(self)@ == (SnapshotV {
                children: old(self)@.children.push(child@),
                ..old(self)@
            }),
            final(self).properties == old(self).properties,
            final(self).meta == old(self).meta,
            final(self).children@ == old(self).children@.push(child),
    {
        let ghost oldc = self.children@;
        self.children.push(child);
        proof {
            assert(self.children@.drop_last() =~= oldc);
        }
    }

    /// Insert every property of `properties`; on a shared name the new value
    /// wins.
    pub fn extend_properties(&mut self, properties: Props)
        requires
            old(self).properties.wf(),
            properties.wf(),
        ensures
            final(self)@ == (SnapshotV {
                properties: old(self)@.properties.union_prefer_right(properties@),
                ..old(self)@
            }),
            final(self).properties.wf(),
    {
        self.properties.extend(properties);
    }

    /// Append every child of `children`.
    pub fn extend_children(&mut self, children: Vec<Snapshot>)
        ensures
            final(self)@ == (SnapshotV {
                children: old(self)@.children + snaps_view(children@),
                ..old(self)@
            }),
    {
        let mut rest = children;
        let total: usize = rest.len();
        let ghost allc = snaps_view(rest@);
        let mut i: usize = 0;
        proof {
            lemma_snaps_view(rest@);
            assert(self@.children + allc.take(0) =~= self@.children);
        }
        while rest.len() > 0
            invariant
                i + rest.len() == total,
                allc.len() == total,
                snaps_view(rest@) =~= allc.skip(i as int),
                self@ == (SnapshotV {
                    children: old(self)@.children + allc.take(i as int),
                    ..old(self)@
                }),
            decreases rest.len(),
        {
            let ghost prevrest = rest@;
            let c = rest.remove(0);
            proof {
                lemma_snaps_view(prevrest);
                lemma_snaps_view(rest@);
                assert(snaps_view(prevrest) == allc.skip(i as int));
                assert(snaps_view(prevrest)[0] == snap_view(prevrest[0]));
                assert(snap_view(c) == allc[i as int]);
                assert(forall|j: int| 0 <= j < rest@.len() ==> rest@[j] == prevrest[j + 1]);
                assert forall|j: int| 0 <= j < rest@.len() implies snaps_view(rest@)[j]
                    == allc.skip(i as int + 1)[j] by {
                    assert(snaps_view(rest@)[j] == snap_view(rest@[j]));
                    assert(snaps_view(prevrest)[j + 1] == snap_view(prevrest[j + 1]));
                    assert(snaps_view(prevrest)[j + 1] == allc.skip(i as int)[j + 1]);
                }
                assert(snaps_view(rest@) =~= allc.skip(i as int + 1));
            }
            self.add_child(c);
            proof {
                assert(old(self)@.children + allc.take(i as int + 1) =~= (old(self)@.children
                    + allc.take(i as int)).push(allc[i as int]));
            }
            i += 1;
        }
        proof {
            assert(allc.take(allc.len() as int) =~= allc);
        }
    }

    /// Fold a read sidecar into the snapshot: the class override wins, the
    /// keep-unknowns flag and mesh reference land in the metadata, the data
    /// properties extend the snapshot's, and the data path becomes a
    /// relevant entry.
    pub fn apply_data(&mut self, data: DataSnapshot)
        requires
            old(self).properties.wf(),
            data.properties.wf(),
        ensures
            final(self)@ == spec_apply_data(old(self)@, data@),
            final(self).properties.wf(),
    {
        let DataSnapshot { path, class, properties, keep_unknowns, original_name: _, mesh_source } =
            data;
        match class {
            Some(c) => {
                self.class = c;
            }
            None => {}
        }
        match keep_unknowns {
            Some(k) => {
                self.meta.keep_unknowns = k;
            }
            None => {}
        }
        match mesh_source {
            Some(m) => {
                self.meta.set_mesh_source(Some(m));
            }
            None => {}
        }
        self.extend_properties(properties);
        self.meta.source.add_data(&path);
    }
}

/// The value of a snapshot after a sidecar is applied to it.
pub open spec fn spec_apply_data(s: SnapshotV, d: DataSnapshotV) -> SnapshotV {
    SnapshotV {
        class: match d.class {
            Some(c) => c,
            None => s.class,
        },
        properties: s.properties.union_prefer_right(d.properties),
        meta: MetaV {
            keep_unknowns: match d.keep_unknowns {
                Some(k) => k,
                None => s.meta.keep_unknowns,
            },
            mesh_source: match d.mesh_source {
                Some(m) => Some(m),
                None => s.meta.mesh_source,
            },
            source: crate::meta::SourceV {
                kind: s.meta.source.kind,
                relevant: s.meta.source.relevant.push(
                    crate::meta::SourceEntryV::Data(d.path),
                ),
            },
            ..s.meta
        },
        ..s
    }
}

/// What a sidecar data file contributes to a snapshot, after its loose
/// properties are resolved.
#[derive(Debug)]
pub struct DataSnapshot {
    pub path: FsPath,
    pub class: Option<String>,
    pub properties: Props,
    pub keep_unknowns: Option<bool>,
    pub original_name: Option<String>,
    pub mesh_source: Option<String>,
}

pub ghost struct DataSnapshotV {
    pub path: Seq<crate::path::PathCompV>,
    pub class: Option<Seq<char>>,
    pub properties: Map<Seq<char>, TypedValueV>,
    pub keep_unknowns: Option<bool>,
    pub original_name: Option<Seq<char>>,
    pub mesh_source: Option<Seq<char>>,
}

impl View for DataSnapshot {
    type V = DataSnapshotV;

    open spec fn view(&self) -> DataSnapshotV {
        DataSnapshotV {
            path: self.path@,
            class: opt_string_view(self.class),
            properties: self.properties@,
            keep_unknowns: self.keep_unknowns,
            original_name: opt_string_view(self.original_name),
            mesh_source: opt_string_view(self.mesh_source),
        }
    }
}

impl DataSnapshot {
    /// An empty sidecar contribution at the null path.
    pub fn empty() -> (r: DataSnapshot)
        ensures
            r@.path == Seq::<crate::path::PathCompV>::empty(),
            r@.class == Option::<Seq<char>>::None,
            r@.properties == Map::<Seq<char>, TypedValueV>::empty(),
            r@.keep_unknowns == Option::<bool>::None,
            r@.original_name == Option::<Seq<char>>::None,
            r@.mesh_source == Option::<Seq<char>>::None,
            r.properties.wf(),
    {
        DataSnapshot {
            path: FsPath::empty(),
            class: None,
            properties: Props::new(),
            keep_unknowns: None,
            original_name: None,
            mesh_source: None,
        }
    }
}

/// A full snapshot payload plus the parent id it must be attached under.
#[derive(Debug)]
pub struct AddedSnapshot {
    pub id: RefId,
    pub meta: Meta,
    pub parent: RefId,
    pub name: String,
    pub class: String,
    pub properties: Props,
    pub children: Vec<Snapshot>,
}

pub ghost struct AddedSnapshotV {
    pub id: RefId,
    pub meta: MetaV,
    pub parent: RefId,
    pub name: Seq<char>,
    pub class: Seq<char>,
    pub properties: Map<Seq<char>, TypedValueV>,
    pub children: Seq<SnapshotV>,
}

impl View for AddedSnapshot {
    type V = AddedSnapshotV;

    open spec fn view(&self) -> AddedSnapshotV {
        AddedSnapshotV {
            id: self.id,
            meta: self.meta@,
            parent: self.parent,
            name: self.name@,
            class: self.class@,
            properties: self.properties@,
            children: snaps_view(self.children@),
        }
    }
}

impl AddedSnapshot {
    /// Drop the parent reference, keeping the payload.
    pub fn to_snapshot(self) -> (r: Snapshot)
        ensures
            r.id == self.id,
            r.meta == self.meta,
            r.name == self.name,
            r.class == self.class,
            r.properties == self.properties,
            r.children == self.children,
            r@ == (SnapshotV {
                id: self@.id,
                meta: self@.meta,
                name: self@.name,
                class: self@.class,
                properties: self@.properties,
                children: self@.children,
            }),
    {
        let AddedSnapshot { id, meta, parent: _, name, class, properties, children } = self;
        Snapshot { id, meta, name, class, properties, children }
    }
}

/// A single-instance change: only present fields are applied. For an
/// instance previously written by this engine only `name` and `properties`
/// are legal to be present; a present `class` or `meta` signals a protocol
/// violation from the live-edit channel.
#[derive(Debug)]
pub struct UpdatedSnapshot {
    pub id: RefId,
    pub meta: Option<Meta>,
    pub name: Option<String>,
    pub class: Option<String>,
    pub properties: Option<Props>,
}

pub ghost struct UpdatedSnapshotV {
    pub id: RefId,
    pub meta: Option<MetaV>,
    pub name: Option<Seq<char>>,
    pub class: Option<Seq<char>>,
    pub properties: Option<Map<Seq<char>, TypedValueV>>,
}

impl View for UpdatedSnapshot {
    type V = UpdatedSnapshotV;

    open spec fn view(&self) -> UpdatedSnapshotV {
        UpdatedSnapshotV {
            id: self.id,
            meta: match &self.meta {
                Some(m) => Some(m@),
                None => None,
            },
            name: opt_string_view(self.name),
            class: opt_string_view(self.class),
            properties: match &self.properties {
                Some(p) => Some(p@),
                None => None,
            },
        }
    }
}

impl UpdatedSnapshot {
    /// An empty update for the given id.
    pub fn new(id: RefId) -> (r: UpdatedSnapshot)
        ensures
            r@.id == id,
            r@.meta == Option::<MetaV>::None,
            r@.name == Option::<Seq<char>>::None,
            r@.class == Option::<Seq<char>>::None,
            r@.properties == Option::<Map<Seq<char>, TypedValueV>>::None,
    {
        UpdatedSnapshot { id, name: None, class: None, properties: None, meta: None }
    }

    /// Whether the update carries no change.
    pub fn is_empty(&self) -> (r: bool)
        ensures
            r == (self@.name is None && self@.class is None && self@.properties is None),
    {
        self.name.is_none() && self.class.is_none() && self.properties.is_none()
    }
}

} // verus!
