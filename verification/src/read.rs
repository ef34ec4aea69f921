//! The read direction: turning sidecar files and project documents back
//! into snapshot shapes.

use vstd::prelude::*;

use crate::ambiguous::{UnresolvedValue, UnresolvedValueV};
use crate::datafile::clone_opt_string;
use crate::engine::EngineError;
use crate::meta::{meta_ok, Context, Meta, NodePath, Source};
use crate::path::FsPath;
use crate::project::{node_wf, ProjectNode, ProjectNodeV};
use crate::props::Props;
use crate::reflect::ReflectionDb;
use crate::resolution::spec_resolve_unresolved;
use crate::snapshot::{snap_wf, DataSnapshot, Snapshot};
use crate::tree::Tree;
use crate::value::{TypedValue, TypedValueV};
use crate::vfs::{FileBody, Vfs};

verus! {

/// The typed properties a loose pair list resolves to; members that fail to
/// resolve are dropped, not fatal.
pub open spec fn spec_read_props(
    db: crate::reflect::ReflectionDbV,
    class: Seq<char>,
    pairs: Seq<(Seq<char>, UnresolvedValueV)>,
) -> Map<Seq<char>, TypedValueV>
    decreases pairs.len(),
{
    if pairs.len() == 0 {
        Map::empty()
    } else {
        let m = spec_read_props(db, class, pairs.drop_last());
        match spec_resolve_unresolved(db, class, pairs.last().0, pairs.last().1) {
            Ok(tv) => m.insert(pairs.last().0, tv),
            Err(_) => m,
        }
    }
}

/// Resolve a loose property list against a class; failures are skipped.
pub fn read_props(db: &ReflectionDb, class: &String, pairs: &Vec<(String, UnresolvedValue)>) -> (r:
    Props)
    requires
        db.wf(),
    ensures
        r.wf(),
        r@ == spec_read_props(db@, class@, crate::alist::pairs_view(pairs@)),
{
    let ghost ps = crate::alist::pairs_view(pairs@);
    let mut out = Props::new();
    let mut i: usize = 0;
    proof {
        assert(ps.take(0) =~= Seq::<(Seq<char>, UnresolvedValueV)>::empty());
    }
    while i < pairs.len()
        invariant
            db.wf(),
            ps == crate::alist::pairs_view(pairs@),
            i <= pairs@.len(),
            out.wf(),
            out@ == spec_read_props(db@, class@, ps.take(i as int)),
        decreases pairs@.len() - i,
    {
        let (key, value) = &pairs[i];
        proof {
            assert(ps[i as int] == (key@, value@));
            assert(ps.take(i as int + 1).drop_last() =~= ps.take(i as int));
            assert(ps.take(i as int + 1).last() == ps[i as int]);
        }
        let resolved = value.clone().resolve(db, class, key);
        match resolved {
            Ok(tv) => {
                out.insert(key.clone(), tv);
            }
            Err(_) => {}
        }
        i += 1;
    }
    proof {
        assert(ps.take(ps.len() as int) =~= ps);
    }
    out
}

/// The typed properties a loose map resolves to, order-free: exactly the
/// members whose resolution succeeds.
pub open spec fn spec_read_props_of_map(
    db: crate::reflect::ReflectionDbV,
    class: Seq<char>,
    m: Map<Seq<char>, UnresolvedValueV>,
) -> Map<Seq<char>, TypedValueV> {
    Map::new(
        |k: Seq<char>| m.contains_key(k) && spec_resolve_unresolved(db, class, k, m[k]) is Ok,
        |k: Seq<char>| spec_resolve_unresolved(db, class, k, m[k])->Ok_0,
    )
}

/// Over unique keys, resolving pair by pair is resolving the described map.
pub proof fn lemma_read_props_map(
    db: crate::reflect::ReflectionDbV,
    class: Seq<char>,
    pairs: Seq<(Seq<char>, UnresolvedValueV)>,
)
    requires
        crate::alist::unique_keys(pairs),
    ensures
        spec_read_props(db, class, pairs) =~= spec_read_props_of_map(
            db,
            class,
            crate::alist::map_of_pairs(pairs),
        ),
    decreases pairs.len(),
{
    if pairs.len() > 0 {
        lemma_read_props_map(db, class, pairs.drop_last());
        assert(forall|i: int| 0 <= i < pairs.drop_last().len() ==> (#[trigger] pairs.drop_last()[
            i
        ]).0 != pairs.last().0);
        crate::alist::lemma_map_of_pairs_absent(pairs.drop_last(), pairs.last().0);
    }
}

/// The class a sidecar resolves against when neither the caller nor the
/// file names one: a service-named file keeps its name, a file inside a
/// service-named directory its directory's name, anything else is a folder.
pub open spec fn spec_default_class(
    db: crate::reflect::ReflectionDbV,
    path: Seq<crate::path::PathCompV>,
) -> Seq<char> {
    if path.len() > 0 && db.services.contains(path.last().stem) {
        path.last().stem
    } else if path.len() > 1 && db.services.contains(path[path.len() - 2].stem) {
        path[path.len() - 2].stem
    } else {
        "Folder"@
    }
}

/// The class a sidecar read resolves against: the caller's, the stored
/// override, or the path-derived default.
pub open spec fn spec_read_class(
    given: Option<Seq<char>>,
    d: crate::datafile::DataFileV,
    db: crate::reflect::ReflectionDbV,
    path: Seq<crate::path::PathCompV>,
) -> Seq<char> {
    match given {
        Some(c) => c,
        None => match d.class_name {
            Some(c) => c,
            None => spec_default_class(db, path),
        },
    }
}

/// The properties a sidecar contributes: its members resolved (failures
/// dropped), then the resolved attributes under their own key, then the
/// tags.
pub open spec fn spec_read_data_props(
    db: crate::reflect::ReflectionDbV,
    class: Seq<char>,
    d: crate::datafile::DataFileV,
) -> Map<Seq<char>, TypedValueV> {
    let base = spec_read_props_of_map(db, class, d.properties);
    let with_attrs = match d.attributes {
        Some(a) => match spec_resolve_unresolved(db, class, "Attributes"@, a) {
            Ok(tv) => base.insert("Attributes"@, tv),
            Err(_) => base,
        },
        None => base,
    };
    if d.tags.len() > 0 {
        with_attrs.insert("Tags"@, TypedValueV::Tags(d.tags))
    } else {
        with_attrs
    }
}

/// Read a sidecar file into the contribution it makes to a snapshot.
/// Success is owed exactly when a sidecar body backs the path; the result
/// carries the stored fields and the resolved properties.
pub fn read_data(path: &FsPath, class: Option<&String>, db: &ReflectionDb, vfs: &Vfs) -> (r:
    Result<DataSnapshot, EngineError>)
    requires
        vfs.wf(),
        db.wf(),
    ensures
        r is Ok <==> crate::datafile::spec_data_at(vfs@, path@) is Some,
        crate::datafile::spec_non_data_file_at(vfs@, path@) ==> r == Err::<
            DataSnapshot,
            EngineError,
        >(EngineError::BadDataFile),
        match r {
            Ok(ds) => {
                let d = crate::datafile::spec_data_at(vfs@, path@)->Some_0;
                let cls = spec_read_class(
                    match class {
                        Some(c) => Some(c@),
                        None => None,
                    },
                    d,
                    db@,
                    path@,
                );
                &&& ds.properties.wf()
                &&& ds@.path == path@
                &&& ds@.class == d.class_name
                &&& ds@.keep_unknowns == d.keep_unknowns
                &&& ds@.original_name == d.original_name
                &&& ds@.mesh_source is None
                &&& ds@.properties == spec_read_data_props(db@, cls, d)
            },
            Err(_) => true,
        },
{
    let body = match vfs.read(path) {
        Some(FileBody::Data(d)) => d.clone(),
        Some(_) => {
            return Err(EngineError::BadDataFile);
        }
        None => {
            return Err(EngineError::Fs(crate::vfs::VfsError::NotFound));
        }
    };
    let ghost dv = crate::datafile::spec_data_at(vfs@, path@)->Some_0;
    proof {
        assert(body@ == dv);
        assert(body.properties.wf());
    }
    let resolved_class: String = match class {
        Some(c) => c.clone(),
        None => match &body.class_name {
            Some(c) => c.clone(),
            None => {
                let mut chosen = String::from_str("Folder");
                if path.len() > 0 {
                    let stem = path.file_name().stem.clone();
                    if db.is_service(&stem) {
                        chosen = stem;
                    } else if path.len() > 1 {
                        let parent_stem = path.file_name_at(path.len() - 2).stem;
                        if db.is_service(&parent_stem) {
                            chosen = parent_stem;
                        }
                    }
                }
                chosen
            }
        },
    };
    let ghost cls = spec_read_class(
        match class {
            Some(c) => Some(c@),
            None => None,
        },
        dv,
        db@,
        path@,
    );
    proof {
        assert(resolved_class@ == cls);
    }
    let mut properties = read_props(db, &resolved_class, &body.properties.entries);
    proof {
        lemma_read_props_map(db@, cls, crate::alist::pairs_view(body.properties.entries@));
        assert(properties@ == spec_read_props_of_map(db@, cls, dv.properties));
    }
    match &body.attributes {
        Some(attrs) => {
            let key = String::from_str("Attributes");
            let resolved = attrs.clone().resolve(db, &resolved_class, &key);
            match resolved {
                Ok(tv) => {
                    properties.insert(key, tv);
                }
                Err(_) => {}
            }
        }
        None => {}
    }
    if body.tags.len() > 0 {
        let key = String::from_str("Tags");
        properties.insert(key, TypedValue::Tags(crate::value::clone_strings(&body.tags)));
    }
    proof {
        assert(properties@ == spec_read_data_props(db@, cls, dv));
    }
    Ok(
        DataSnapshot {
            path: path.clone_path(),
            class: clone_opt_string(&body.class_name),
            properties,
            keep_unknowns: body.keep_unknowns,
            original_name: clone_opt_string(&body.original_name),
            mesh_source: None,
        },
    )
}

/// Build the snapshot a project node describes: the declared class (or a
/// service's own name, or a folder), the resolved properties, attributes
/// and tags, a project source, and the children, recursively. A custom
/// path, when its target exists, contributes a backing entry and a watch.
/// Success is owed exactly when no node of the subtree sets both a class
/// and a custom path; the result carries the shape the node describes.
#[verifier::rlimit(50)]
pub fn new_snapshot_node(
    name: &String,
    path: &FsPath,
    node: &ProjectNode,
    node_path: &NodePath,
    context: &Context,
    vfs: &mut Vfs,
) -> (r: Result<Snapshot, EngineError>)
    requires
        path@.len() > 0,
        node_wf(*node),
        context.wf(),
        old(vfs).wf(),
    ensures
        final(vfs).wf(),
        final(vfs)@ == old(vfs)@,
        r is Ok <==> !spec_node_conflict(*node),
        match r {
            Ok(s) => snap_wf(s) && meta_ok(s.meta) && snap_shape(s) == spec_node_shape(
                context@.reflection,
                name@,
                *node,
            ),
            Err(e) => e is BadProjectFile,
        },
    decreases *node,
{
    let ghost db = context@.reflection;
    if node.class_name.is_some() && node.path.is_some() {
        // A node cannot both declare a class and delegate to a path.
        return Err(EngineError::BadProjectFile);
    }
    let class: String = match &node.class_name {
        Some(c) => c.clone(),
        None => {
            if context.reflection.is_service(name) {
                name.clone()
            } else {
                String::from_str("Folder")
            }
        }
    };
    let ghost cls = spec_node_class(db, name@, *node);
    proof {
        assert(class@ == cls);
    }
    let mut properties = read_props(&context.reflection, &class, &node.properties.entries);
    proof {
        lemma_read_props_map(db, cls, node.properties.pairs());
        assert(properties@ == spec_read_props_of_map(db, cls, node@.properties));
    }
    match &node.attributes {
        Some(attrs) => {
            let key = String::from_str("Attributes");
            let resolved = attrs.clone().resolve(&context.reflection, &class, &key);
            match resolved {
                Ok(tv) => {
                    properties.insert(key, tv);
                }
                Err(_) => {}
            }
        }
        None => {}
    }
    if node.tags.len() > 0 {
        let key = String::from_str("Tags");
        properties.insert(key, TypedValue::Tags(crate::value::clone_strings(&node.tags)));
    }
    proof {
        assert(properties@ == spec_node_props(db, cls, *node));
    }
    let keep_unknowns = match node.keep_unknowns {
        Some(k) => k,
        None => context.reflection.is_service(&class),
    };
    proof {
        assert(keep_unknowns == spec_node_keep(db, *node, cls));
    }
    let cloned = crate::project::clone_node(node);
    let np = node_path.clone_node_path();
    proof {
        assert(crate::project::node_wf(cloned));
    }
    let mut source = Source::project(name, path, cloned, np);
    proof {
        assert(crate::meta::source_paths_ok(source));
    }
    // A custom path that exists on disk backs the node as well.
    match &node.path {
        Some(custom) => {
            proof {
                assert(custom@.len() > 0);
            }
            if vfs.is_dir(custom) {
                source.add_folder_entry(custom);
                vfs.watch(custom, true);
            } else if vfs.is_file(custom) {
                source.add_file(custom);
                vfs.watch(custom, false);
            }
            proof {
                assert(crate::meta::source_paths_ok(source));
            }
        }
        None => {}
    }
    proof {
        assert(crate::meta::source_paths_ok(source));
    }
    let meta = Meta::new().with_context(context).with_keep_unknowns(keep_unknowns).with_source(
        source,
    );
    proof {
        assert(meta_ok(meta));
    }
    let mut snapshot = Snapshot::new().with_name(name).with_class(&class).with_properties(
        properties,
    ).with_meta(meta);
    proof {
        assert(meta_ok(snapshot.meta));
    }
    let mut i: usize = 0;
    proof {
        crate::snapshot::lemma_snaps_view(snapshot.children@);
        assert(snapshot.children@.len() == 0);
        assert(snaps_shapes(snapshot.children@) =~= spec_children_shapes(
            db,
            node.tree@.take(0),
        ));
    }
    while i < node.tree.len()
        invariant
            path@.len() > 0,
            context.wf(),
            db == context@.reflection,
            vfs.wf(),
            vfs@ == old(vfs)@,
            node_wf(*node),
            i <= node.tree@.len(),
            snapshot.properties.wf(),
            meta_ok(snapshot.meta),
            crate::snapshot::snaps_wf(snapshot.children@),
            snapshot@.name == name@,
            snapshot@.class == cls,
            snapshot@.meta.keep_unknowns == spec_node_keep(db, *node, cls),
            snapshot@.properties == spec_node_props(db, cls, *node),
            snaps_shapes(snapshot.children@) == spec_children_shapes(db, node.tree@.take(i as int)),
            forall|j: int| 0 <= j < i ==> !spec_node_conflict((#[trigger] node.tree@[j]).1),
        decreases node.tree@.len() - i,
    {
        let (child_name, child_node) = &node.tree[i];
        let child_path = node_path.join(child_name);
        proof {
            crate::project::lemma_nodes_wf(node.tree@);
            assert(node_wf(node.tree@[i as int].1));
            assert(decreases_to!(*node => node.tree));
            assert(decreases_to!(node.tree => node.tree@));
            assert(decreases_to!(node.tree@ => node.tree@[i as int]));
            assert(decreases_to!(node.tree@[i as int] => node.tree@[i as int].1));
        }
        let child = match new_snapshot_node(
            child_name,
            path,
            child_node,
            &child_path,
            context,
            vfs,
        ) {
            Ok(c) => c,
            Err(e) => {
                proof {
                    lemma_nodes_conflict(node.tree@);
                    assert(spec_node_conflict(node.tree@[i as int].1));
                    assert(spec_node_conflict(*node));
                }
                return Err(e);
            }
        };
        let ghost prevchildren = snapshot.children@;
        let ghost childshape = snap_shape(child);
        snapshot.add_child(child);
        proof {
            assert(snapshot.children@.drop_last() =~= prevchildren);
            assert(snaps_shapes(snapshot.children@) == snaps_shapes(prevchildren).push(
                childshape,
            ));
            assert(node.tree@.take(i as int + 1).drop_last() =~= node.tree@.take(i as int));
            assert(node.tree@.take(i as int + 1).last() == node.tree@[i as int]);
            assert(snaps_shapes(snapshot.children@) == spec_children_shapes(
                db,
                node.tree@.take(i as int + 1),
            ));
        }
        i += 1;
    }
    proof {
        assert(snap_wf(snapshot));
        assert(meta_ok(snapshot.meta));
        assert(node.tree@.take(node.tree@.len() as int) =~= node.tree@);
        assert(snap_shape(snapshot) == spec_node_shape(db, name@, *node));
        lemma_nodes_conflict(node.tree@);
        assert(!spec_node_conflict(*node));
    }
    Ok(snapshot)
}

/// The root class a document's value describes.
pub open spec fn spec_root_class_v(
    db: crate::reflect::ReflectionDbV,
    name: Seq<char>,
    nv: ProjectNodeV,
) -> Seq<char> {
    match nv.class_name {
        Some(c) => c,
        None => if db.services.contains(name) {
            name
        } else {
            "Folder"@
        },
    }
}

/// Read a project document into the snapshot shape its tree describes; the
/// root is backed by the document file itself. Success is owed exactly
/// when a project document backs the path and no node of its value sets
/// both a class and a custom path.
pub fn read_project(path: &FsPath, context: &Context, vfs: &mut Vfs) -> (r: Result<
    Snapshot,
    EngineError,
>)
    requires
        path@.len() > 0,
        context.wf(),
        old(vfs).wf(),
    ensures
        final(vfs).wf(),
        final(vfs)@ == old(vfs)@,
        r is Ok <==> (old(vfs)@.contains_key(path@) && (old(vfs)@[path@] matches
            crate::vfs::FsEntryV::File(crate::vfs::FileBodyV::Project(stored)) && !(exists|
            crumb: Seq<Seq<char>>
        | spec_conflict_at(stored.node, crumb)))),
        match r {
            Ok(s) => old(vfs)@[path@] matches crate::vfs::FsEntryV::File(
                crate::vfs::FileBodyV::Project(stored),
            ) && snap_wf(s) && meta_ok(s.meta) && s@.name == stored.name && s@.class
                == spec_root_class_v(context@.reflection, stored.name, stored.node)
                && s@.children.len() == stored.node.tree.dom().len() && s@.meta.source.kind
                == crate::meta::SourceKindV::Path(path@) && s@.meta.source.relevant.last()
                == crate::meta::SourceEntryV::Project(path@),
            Err(e) => e is BadProjectFile,
        },
{
    let doc = match vfs.read(path) {
        Some(FileBody::Project(d)) => d.clone(),
        _ => {
            return Err(EngineError::BadProjectFile);
        }
    };
    proof {
        lemma_conflict_view(doc.node);
    }
    let root_path = NodePath::new();
    let mut snapshot = match new_snapshot_node(&doc.name, path, &doc.node, &root_path, context, vfs)
        {
        Ok(s) => s,
        Err(e) => {
            proof {
                assert(spec_node_conflict(doc.node));
            }
            return Err(e);
        }
    };
    proof {
        assert(!spec_node_conflict(doc.node));
        crate::project::lemma_node_children_pairs(doc.node.tree@);
        crate::alist::lemma_unique_dom_len(crate::project::node_tree_pairs(doc.node));
        lemma_shape_lens(context@.reflection, doc.node.tree@, snapshot.children@);
        crate::snapshot::lemma_snaps_view(snapshot.children@);
        assert(snapshot@.children.len() == doc.node@.tree.dom().len());
        assert(snapshot@.name == doc.name@) by {
            assert(snap_shape(snapshot).name == snapshot.name@);
        }
        assert(snapshot@.class == spec_root_class_v(context@.reflection, doc@.name, doc@.node))
            by {
            assert(snap_shape(snapshot).class == snapshot.class@);
            assert(spec_node_class(context@.reflection, doc.name@, doc.node)
                == spec_root_class_v(context@.reflection, doc@.name, doc@.node));
        }
    }
    let mut source = Source::file(path);
    let extra = crate::meta::clone_entries(&snapshot.meta.source.relevant);
    let mut k: usize = 0;
    while k < extra.len()
        invariant
            path@.len() > 0,
            k <= extra@.len(),
            forall|i: int| 0 <= i < extra@.len() ==> crate::meta::entry_path(
                (#[trigger] extra@[i])@,
            ).len() > 0,
            crate::meta::source_paths_ok(source),
            source.kind is Path,
            source@.kind == crate::meta::SourceKindV::Path(path@),
        decreases extra@.len() - k,
    {
        let e = extra[k].clone_entry();
        source.push_entry(e);
        k += 1;
    }
    source.add_project(path);
    proof {
        assert(crate::meta::source_paths_ok(source));
    }
    let mut meta = snapshot.meta.clone_meta();
    meta.set_source(source);
    snapshot.set_meta(meta);
    vfs.watch(path, false);
    proof {
        assert(snap_wf(snapshot));
        assert(meta_ok(snapshot.meta));
        assert(snapshot@.meta.source.kind == crate::meta::SourceKindV::Path(path@));
        assert(snapshot@.meta.source.relevant.last() == crate::meta::SourceEntryV::Project(
            path@,
        ));
    }
    Ok(snapshot)
}


/// A node (or one of its descendants) illegally sets both a class and a
/// custom path.
pub open spec fn spec_node_conflict(n: ProjectNode) -> bool
    decreases n, 1int,
{
    (n.class_name is Some && n.path is Some) || spec_nodes_conflict(n.tree@)
}

pub open spec fn spec_nodes_conflict(t: Seq<(String, ProjectNode)>) -> bool
    decreases t, 0int,
{
    t.len() > 0 && (spec_nodes_conflict(t.drop_last()) || spec_node_conflict(t.last().1))
}

/// A child list conflicts exactly when one of its nodes does.
pub proof fn lemma_nodes_conflict(t: Seq<(String, ProjectNode)>)
    ensures
        spec_nodes_conflict(t) <==> (exists|i: int| 0 <= i < t.len() && spec_node_conflict(
            #[trigger] t[i].1,
        )),
    decreases t.len(),
{
    if t.len() > 0 {
        lemma_nodes_conflict(t.drop_last());
        assert(forall|i: int| 0 <= i < t.len() - 1 ==> t.drop_last()[i] == t[i]);
        assert(t.last() == t[t.len() - 1]);
        if spec_node_conflict(t.last().1) {
            assert(spec_node_conflict(t[t.len() - 1].1));
        }
    }
}

/// The same conflict, observed on the document's value by walking a
/// breadcrumb to the offending node.
pub open spec fn spec_conflict_at(nv: ProjectNodeV, crumb: Seq<Seq<char>>) -> bool
    decreases crumb.len(),
{
    if crumb.len() == 0 {
        nv.class_name is Some && nv.path is Some
    } else {
        nv.tree.contains_key(crumb[0]) && spec_conflict_at(nv.tree[crumb[0]], crumb.drop_first())
    }
}

/// A stored node conflicts exactly when some breadcrumb of its value leads
/// to a node setting both a class and a path.
pub proof fn lemma_conflict_view(n: ProjectNode)
    requires
        node_wf(n),
    ensures
        spec_node_conflict(n) <==> (exists|crumb: Seq<Seq<char>>| spec_conflict_at(n@, crumb)),
    decreases n,
{
    let pairs = crate::project::node_tree_pairs(n);
    crate::project::lemma_node_children_pairs(n.tree@);
    crate::project::lemma_nodes_wf(n.tree@);
    lemma_nodes_conflict(n.tree@);
    if spec_node_conflict(n) {
        if n.class_name is Some && n.path is Some {
            let crumb = Seq::<Seq<char>>::empty();
            assert(spec_conflict_at(n@, crumb));
        } else {
            let j = choose|j: int| 0 <= j < n.tree@.len() && spec_node_conflict(
                #[trigger] n.tree@[j].1,
            );
            proof_decreases_child(n, j);
            lemma_conflict_view(n.tree@[j].1);
            let sub = choose|crumb: Seq<Seq<char>>| spec_conflict_at(n.tree@[j].1@, crumb);
            let crumb = seq![n.tree@[j].0@] + sub;
            crate::alist::lemma_map_of_pairs_find(pairs, j);
            assert(n@.tree.contains_key(crumb[0]));
            assert(n@.tree[crumb[0]] == n.tree@[j].1@);
            assert(crumb.drop_first() =~= sub);
            assert(spec_conflict_at(n@, crumb));
        }
    }
    if exists|crumb: Seq<Seq<char>>| spec_conflict_at(n@, crumb) {
        let crumb = choose|crumb: Seq<Seq<char>>| spec_conflict_at(n@, crumb);
        if crumb.len() == 0 {
            assert(spec_node_conflict(n));
        } else {
            crate::alist::lemma_map_of_pairs_dom(pairs, crumb[0]);
            let j = choose|j: int| 0 <= j < pairs.len() && (#[trigger] pairs[j]).0 == crumb[0];
            crate::alist::lemma_map_of_pairs_find(pairs, j);
            assert(n@.tree[crumb[0]] == n.tree@[j].1@);
            proof_decreases_child(n, j);
            lemma_conflict_view(n.tree@[j].1);
            assert(spec_conflict_at(n.tree@[j].1@, crumb.drop_first()));
            assert(spec_node_conflict(n.tree@[j].1));
        }
    }
}

/// The child at a valid index sits structurally below its node.
proof fn proof_decreases_child(n: ProjectNode, j: int)
    requires
        0 <= j < n.tree@.len(),
    ensures
        decreases_to!(n => n.tree@[j].1),
{
    assert(decreases_to!(n => n.tree));
    assert(decreases_to!(n.tree => n.tree@));
    assert(decreases_to!(n.tree@ => n.tree@[j]));
    assert(decreases_to!(n.tree@[j] => n.tree@[j].1));
}

/// The observable shape a read produces: name, class, keep-unknowns flag,
/// resolved properties, and the children's shapes in document order.
pub ghost struct SnapShape {
    pub name: Seq<char>,
    pub class: Seq<char>,
    pub keep_unknowns: bool,
    pub properties: Map<Seq<char>, TypedValueV>,
    pub children: Seq<SnapShape>,
}

/// The class rule: the declared class, a service's own name, or a folder.
pub open spec fn spec_node_class(
    db: crate::reflect::ReflectionDbV,
    name: Seq<char>,
    n: ProjectNode,
) -> Seq<char> {
    match crate::project::opt_string_view(n.class_name) {
        Some(c) => c,
        None => if db.services.contains(name) {
            name
        } else {
            "Folder"@
        },
    }
}

/// The properties rule: members resolved against the class (failures
/// dropped), then attributes, then tags.
pub open spec fn spec_node_props(
    db: crate::reflect::ReflectionDbV,
    class: Seq<char>,
    n: ProjectNode,
) -> Map<Seq<char>, TypedValueV> {
    let base = spec_read_props_of_map(db, class, n.properties@);
    let with_attrs = match n.attributes {
        Some(a) => match spec_resolve_unresolved(db, class, "Attributes"@, a@) {
            Ok(tv) => base.insert("Attributes"@, tv),
            Err(_) => base,
        },
        None => base,
    };
    if n.tags@.len() > 0 {
        with_attrs.insert("Tags"@, TypedValueV::Tags(crate::alist::strings_view(n.tags@)))
    } else {
        with_attrs
    }
}

/// The keep-unknowns rule: the declared flag, defaulting to whether the
/// class is a service.
pub open spec fn spec_node_keep(
    db: crate::reflect::ReflectionDbV,
    n: ProjectNode,
    class: Seq<char>,
) -> bool {
    match n.keep_unknowns {
        Some(k) => k,
        None => db.services.contains(class),
    }
}

/// The shape a project node describes, recursively.
pub open spec fn spec_node_shape(
    db: crate::reflect::ReflectionDbV,
    name: Seq<char>,
    n: ProjectNode,
) -> SnapShape
    decreases n, 1int,
{
    SnapShape {
        name,
        class: spec_node_class(db, name, n),
        keep_unknowns: spec_node_keep(db, n, spec_node_class(db, name, n)),
        properties: spec_node_props(db, spec_node_class(db, name, n), n),
        children: spec_children_shapes(db, n.tree@),
    }
}

pub open spec fn spec_children_shapes(
    db: crate::reflect::ReflectionDbV,
    t: Seq<(String, ProjectNode)>,
) -> Seq<SnapShape>
    decreases t, 0int,
{
    if t.len() == 0 {
        Seq::empty()
    } else {
        spec_children_shapes(db, t.drop_last()).push(
            spec_node_shape(db, t.last().0@, t.last().1),
        )
    }
}

/// The shape a built snapshot carries.
pub open spec fn snap_shape(s: Snapshot) -> SnapShape
    decreases s, 1int,
{
    SnapShape {
        name: s.name@,
        class: s.class@,
        keep_unknowns: s.meta.keep_unknowns,
        properties: s.properties@,
        children: snaps_shapes(s.children@),
    }
}

pub open spec fn snaps_shapes(v: Seq<Snapshot>) -> Seq<SnapShape>
    decreases v, 0int,
{
    if v.len() == 0 {
        Seq::empty()
    } else {
        snaps_shapes(v.drop_last()).push(snap_shape(v.last()))
    }
}

/// Shape lists keep the lengths of the lists they describe.
pub proof fn lemma_shape_lens(db: crate::reflect::ReflectionDbV, t: Seq<(String, ProjectNode)>, v: Seq<Snapshot>)
    ensures
        spec_children_shapes(db, t).len() == t.len(),
        snaps_shapes(v).len() == v.len(),
    decreases t.len() + v.len(),
{
    if t.len() > 0 {
        lemma_shape_lens(db, t.drop_last(), v);
    } else if v.len() > 0 {
        lemma_shape_lens(db, t, v.drop_last());
    }
}


/// Turn a subtree of the store into a snapshot, consuming the entries it
/// walks, as handing a live document over does: each instance becomes a
/// fresh snapshot carrying its name, class and properties, with its
/// children in link order (dangling child links are skipped).
pub fn snapshot_from_tree(tree: Tree, id: crate::snapshot::RefId) -> (r: Option<Snapshot>)
    requires
        tree.wf(),
    ensures
        match r {
            Some(s) => tree@.contains_key(id) && snap_wf(s) && s@.name == tree@[id].inst.name
                && s@.class == tree@[id].inst.class && s@.properties == tree@[id].inst
                .properties && s@.children.len() <= tree@[id].inst.children.len(),
            None => !tree@.contains_key(id),
        },
{
    let mut pool = tree;
    walk_tree(&mut pool, id)
}

fn walk_tree(pool: &mut Tree, id: crate::snapshot::RefId) -> (r: Option<Snapshot>)
    requires
        old(pool).wf(),
    ensures
        final(pool).wf(),
        final(pool).entries@.len() <= old(pool).entries@.len(),
        match r {
            Some(s) => old(pool)@.contains_key(id) && snap_wf(s) && s@.name == old(pool)@[
                id
            ].inst.name && s@.class == old(pool)@[id].inst.class && s@.properties == old(
                pool,
            )@[id].inst.properties && s@.children.len() <= old(pool)@[id].inst.children.len(),
            None => !old(pool)@.contains_key(id),
        },
    decreases old(pool).entries@.len(), 0int,
{
    let node = pool.take_node(id);
    match node {
        Some(n) => {
            let crate::tree::TreeNode { inst, meta: _ } = n;
            let crate::tree::Instance { name, class, properties, parent: _, children: ids } =
                inst;
            let mut children: Vec<Snapshot> = Vec::new();
            let mut i: usize = 0;
            while i < ids.len()
                invariant
                    pool.wf(),
                    pool.entries@.len() < old(pool).entries@.len(),
                    i <= ids@.len(),
                    children@.len() <= i,
                    crate::snapshot::snaps_wf(children@),
                decreases ids@.len() - i,
            {
                let child = walk_tree_inner(pool, ids[i]);
                match child {
                    Some(c) => {
                        let ghost prev = children@;
                        children.push(c);
                        proof {
                            assert(children@.drop_last() =~= prev);
                        }
                    }
                    None => {}
                }
                i += 1;
            }
            let s = Snapshot {
                id: crate::snapshot::NULL_REF,
                meta: Meta::new(),
                name,
                class,
                properties,
                children,
            };
            proof {
                crate::snapshot::lemma_snaps_view(s.children@);
                assert(snap_wf(s));
            }
            Some(s)
        }
        None => None,
    }
}

/// Helper for the recursion over children.
fn walk_tree_inner(pool: &mut Tree, id: crate::snapshot::RefId) -> (r: Option<Snapshot>)
    requires
        old(pool).wf(),
    ensures
        final(pool).wf(),
        final(pool).entries@.len() <= old(pool).entries@.len(),
        r is Some ==> snap_wf(r->Some_0),
    decreases old(pool).entries@.len(), 1int,
{
    walk_tree(pool, id)
}

} // verus!
