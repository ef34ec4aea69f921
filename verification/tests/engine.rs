//! The syncback engine: additions, updates and removals against the
//! in-memory disk model.

use syncback::engine::{apply_addition, apply_removal, apply_update};
use syncback::filter::SyncbackFilter;
use syncback::meta::{Context, Meta, Middleware, Source, SourceEntry, SourceKind, SyncRule};
use syncback::path::{FsPath, PathComp};
use syncback::props::Props;
use syncback::reflect::ReflectionDb;
use syncback::snapshot::{AddedSnapshot, UpdatedSnapshot};
use syncback::tree::{Instance, Tree, TreeNode};
use syncback::value::TypedValue;
use syncback::vfs::{ContentFile, FileBody, FsAction, Vfs};

fn path(parts: &[(&str, &str)]) -> FsPath {
    FsPath {
        comps: parts
            .iter()
            .map(|(stem, suffix)| PathComp::new(stem, suffix))
            .collect(),
    }
}

fn test_context() -> Context {
    Context {
        sync_rules: vec![
            SyncRule {
                mw: Middleware::ServerScript,
                suffix: ".server.lua".to_string(),
                child_stem: ".src".to_string(),
            },
            SyncRule {
                mw: Middleware::InstanceData,
                suffix: ".data.json".to_string(),
                child_stem: "".to_string(),
            },
        ],
        filter: SyncbackFilter::permit_all(),
        use_legacy_scripts: false,
        reflection: ReflectionDb::empty(),
    }
}

fn context_with_filter(names: Vec<&str>) -> Context {
    let mut ctx = test_context();
    ctx.filter = SyncbackFilter {
        names: names.into_iter().map(|s| s.to_string()).collect(),
        classes: Vec::new(),
        paths: Vec::new(),
    };
    ctx
}

/// A tree with one folder-backed root (id 1) at `Foo/`, mirrored in the vfs.
fn folder_world(ctx: Context) -> (Tree, Vfs) {
    let root_path = path(&[("Foo", "")]);
    let mut vfs = Vfs::new();
    vfs.write_dir(&root_path);
    let mut tree = Tree::new();
    let meta = Meta {
        source: Source::directory(&root_path),
        context: ctx,
        keep_unknowns: false,
        original_name: None,
        mesh_source: None,
    };
    let inst = Instance {
        name: "Foo".to_string(),
        class: "Folder".to_string(),
        properties: Props::new(),
        parent: 0,
        children: Vec::new(),
    };
    tree.set_node(1, TreeNode { inst, meta });
    (tree, vfs)
}

fn script_snapshot(id: u64, parent: u64, name: &str, keep_unknowns: bool) -> AddedSnapshot {
    let mut props = Props::new();
    props.insert(
        "Source".to_string(),
        TypedValue::Str("print()".to_string()),
    );
    let mut meta = Meta::new();
    meta.keep_unknowns = keep_unknowns;
    AddedSnapshot {
        id,
        meta,
        parent,
        name: name.to_string(),
        class: "Script".to_string(),
        properties: props,
        children: Vec::new(),
    }
}

#[test]
fn adding_a_script_writes_file_and_sidecar() {
    // Adding `Script1` of a script class under the folder `Foo` produces
    // `Foo/Script1.server.lua`, plus a sidecar when it carries metadata the
    // main format cannot express.
    let (mut tree, mut vfs) = folder_world(test_context());
    apply_addition(script_snapshot(2, 1, "Script1", true), &mut tree, &mut vfs).unwrap();

    let file = path(&[("Foo", ""), ("Script1", ".server.lua")]);
    match vfs.read(&file) {
        Some(FileBody::Content(c)) => {
            assert_eq!(c.class, "Script");
            assert_eq!(c.main, Some(TypedValue::Str("print()".to_string())));
        }
        other => panic!("expected the script's content file, got {:?}", other),
    }
    let sidecar = path(&[("Foo", ""), ("Script1", ".data.json")]);
    match vfs.read(&sidecar) {
        Some(FileBody::Data(d)) => {
            assert_eq!(d.keep_unknowns, Some(true));
            assert_eq!(d.class_name, None);
            assert_eq!(d.original_name, None);
            assert!(d.properties.entries.is_empty());
        }
        other => panic!("expected the sidecar, got {:?}", other),
    }
    let inst = tree.get_instance(2).expect("instance inserted");
    assert_eq!(inst.name, "Script1");
    assert_eq!(tree.get_instance(1).unwrap().children, vec![2]);
    assert_sources_synced(&tree, &vfs);
}

#[test]
fn an_empty_sidecar_is_not_written() {
    let (mut tree, mut vfs) = folder_world(test_context());
    apply_addition(script_snapshot(2, 1, "Script1", false), &mut tree, &mut vfs).unwrap();
    let sidecar = path(&[("Foo", ""), ("Script1", ".data.json")]);
    assert!(!vfs.path_exists(&sidecar));
    // The instance's relevant entries name exactly what exists on disk.
    let meta = tree.get_meta(2).unwrap();
    for entry in &meta.source.relevant {
        assert!(vfs.path_exists(entry.path()), "entry {:?} must exist", entry);
    }
}

/// A world with a leaf instance (id 2) named `A` backed by `Foo/A.txt` and
/// a sidecar `Foo/A.data.json`.
fn leaf_world() -> (Tree, Vfs) {
    let (mut tree, mut vfs) = folder_world(test_context());
    let file = path(&[("Foo", ""), ("A", ".txt")]);
    let sidecar = path(&[("Foo", ""), ("A", ".data.json")]);
    vfs.write_file(
        &file,
        FileBody::Content(ContentFile {
            class: "Folder".to_string(),
            main: None,
        }),
    );
    let mut data = syncback::datafile::DataFile::empty();
    data.keep_unknowns = Some(true);
    vfs.write_file(&sidecar, FileBody::Data(data));
    let mut source = Source::file(&file);
    source.add_data(&sidecar);
    let meta = Meta {
        source,
        context: test_context(),
        keep_unknowns: true,
        original_name: None,
        mesh_source: None,
    };
    let inst = Instance {
        name: "A".to_string(),
        class: "Folder".to_string(),
        properties: Props::new(),
        parent: 1,
        children: Vec::new(),
    };
    tree.set_node(2, TreeNode { inst, meta });
    (tree, vfs)
}

#[test]
fn renaming_a_leaf_renames_file_and_sidecar() {
    // Renaming `A` to `B` renames `A.txt` to `B.txt` and the sidecar
    // `A.data.json` to `B.data.json`.
    let (mut tree, mut vfs) = leaf_world();
    let mut up = UpdatedSnapshot::new(2);
    up.name = Some("B".to_string());
    apply_update(up, &mut tree, &mut vfs).unwrap();

    assert!(!vfs.path_exists(&path(&[("Foo", ""), ("A", ".txt")])));
    assert!(!vfs.path_exists(&path(&[("Foo", ""), ("A", ".data.json")])));
    assert!(vfs.path_exists(&path(&[("Foo", ""), ("B", ".txt")])));
    assert!(vfs.path_exists(&path(&[("Foo", ""), ("B", ".data.json")])));
    assert_sources_synced(&tree, &vfs);
    assert_eq!(tree.get_instance(2).unwrap().name, "B");
    match &tree.get_meta(2).unwrap().source.kind {
        SourceKind::Path(p) => {
            assert_eq!(format!("{:?}", p), format!("{:?}", path(&[("Foo", ""), ("B", ".txt")])));
        }
        other => panic!("expected a path source, got {:?}", other),
    }
}

#[test]
fn promotion_and_collapse_are_inverse() {
    // A leaf-backed instance gaining a child becomes a folder (its content
    // file moves inside); removing that child collapses it back to its
    // original leaf path.
    let (mut tree, mut vfs) = folder_world(test_context());
    let bar_file = path(&[("Foo", ""), ("Bar", ".server.lua")]);
    vfs.write_file(
        &bar_file,
        FileBody::Content(ContentFile {
            class: "Script".to_string(),
            main: Some(TypedValue::Str("return 1".to_string())),
        }),
    );
    let meta = Meta {
        source: Source::file(&bar_file),
        context: test_context(),
        keep_unknowns: false,
        original_name: None,
        mesh_source: None,
    };
    let inst = Instance {
        name: "Bar".to_string(),
        class: "Script".to_string(),
        properties: Props::new(),
        parent: 1,
        children: Vec::new(),
    };
    tree.set_node(2, TreeNode { inst, meta });
    let before = format!("{:?}", vfs_entries_sorted(&vfs));

    // Gain the first child: the leaf is promoted to a folder.
    apply_addition(script_snapshot(3, 2, "Baz", false), &mut tree, &mut vfs).unwrap();
    let folder = path(&[("Foo", ""), ("Bar", "")]);
    let inner = path(&[("Foo", ""), ("Bar", ""), (".src", ".server.lua")]);
    let child = path(&[("Foo", ""), ("Bar", ""), ("Baz", ".server.lua")]);
    assert!(vfs.is_dir(&folder));
    assert!(vfs.path_exists(&inner));
    assert!(vfs.path_exists(&child));
    assert!(!vfs.path_exists(&bar_file));

    // Lose the only child again: the folder collapses back to the leaf.
    apply_removal(3, &mut tree, &mut vfs).unwrap();
    assert!(!vfs.path_exists(&folder));
    assert!(!vfs.path_exists(&inner));
    assert!(!vfs.path_exists(&child));
    assert!(vfs.path_exists(&bar_file));
    let after = format!("{:?}", vfs_entries_sorted(&vfs));
    assert_eq!(before, after);
    assert_sources_synced(&tree, &vfs);
    match &tree.get_meta(2).unwrap().source.kind {
        SourceKind::Path(p) => {
            assert_eq!(format!("{:?}", p), format!("{:?}", bar_file));
        }
        other => panic!("expected a path source, got {:?}", other),
    }
}

fn vfs_entries_sorted(vfs: &Vfs) -> Vec<String> {
    let mut v: Vec<String> = vfs.entries.iter().map(|e| format!("{:?}", e)).collect();
    v.sort();
    v
}

/// The relevant-entry invariant: every entry of every instance's source
/// names a disk artifact of the matching kind.
fn assert_sources_synced(tree: &Tree, vfs: &Vfs) {
    for (id, node) in &tree.entries {
        for entry in &node.meta.source.relevant {
            let p = entry.path();
            match entry {
                SourceEntry::Folder(_) => {
                    assert!(vfs.is_dir(p), "instance {}: folder entry {:?} must be a directory", id, p)
                }
                SourceEntry::File(_) | SourceEntry::Data(_) | SourceEntry::Project(_) => {
                    assert!(
                        vfs.path_exists(p),
                        "instance {}: entry {:?} must exist on disk",
                        id,
                        p
                    )
                }
            }
        }
    }
}

#[test]
fn filtered_names_are_never_written() {
    // An instance whose name matches an exclusion rule is never written by
    // an addition, and updates and removals against it do nothing.
    let (mut tree, mut vfs) = folder_world(context_with_filter(vec!["Secret"]));
    let before = format!("{:?}", vfs_entries_sorted(&vfs));
    let log_len = vfs.log.len();

    apply_addition(script_snapshot(2, 1, "Secret", false), &mut tree, &mut vfs).unwrap();
    assert_eq!(before, format!("{:?}", vfs_entries_sorted(&vfs)));
    assert_eq!(log_len, vfs.log.len());
    assert!(tree.get_instance(2).is_none());

    // A filtered existing instance: updates and removals are no-ops.
    let (mut tree, mut vfs) = leaf_world();
    let mut node = tree.take_node(2).unwrap();
    node.inst.name = "Secret".to_string();
    node.meta.context = context_with_filter(vec!["Secret"]);
    tree.set_node(2, node);
    let before = format!("{:?}", vfs_entries_sorted(&vfs));
    let log_len = vfs.log.len();
    let mut up = UpdatedSnapshot::new(2);
    up.name = Some("Open".to_string());
    apply_update(up, &mut tree, &mut vfs).unwrap();
    apply_removal(2, &mut tree, &mut vfs).unwrap();
    assert_eq!(before, format!("{:?}", vfs_entries_sorted(&vfs)));
    assert_eq!(log_len, vfs.log.len());
    assert!(tree.get_instance(2).is_some());
}

#[test]
fn applying_the_same_update_twice_changes_nothing_more() {
    // Idempotence: the same update applied twice produces identical disk
    // state, and the second application performs no renames.
    let (mut tree, mut vfs) = folder_world(test_context());
    apply_addition(script_snapshot(2, 1, "Script1", false), &mut tree, &mut vfs).unwrap();

    let make_update = || {
        let mut props = Props::new();
        props.insert(
            "Source".to_string(),
            TypedValue::Str("return 2".to_string()),
        );
        let mut up = UpdatedSnapshot::new(2);
        up.name = Some("Script1".to_string());
        up.properties = Some(props);
        up
    };
    apply_update(make_update(), &mut tree, &mut vfs).unwrap();
    let after_first = format!("{:?}", vfs_entries_sorted(&vfs));
    let log_len = vfs.log.len();
    apply_update(make_update(), &mut tree, &mut vfs).unwrap();
    let after_second = format!("{:?}", vfs_entries_sorted(&vfs));
    assert_eq!(after_first, after_second);
    for action in &vfs.log[log_len..] {
        assert!(
            !matches!(action, FsAction::Rename(..)),
            "no rename may follow: {:?}",
            action
        );
    }
}

#[test]
fn empty_updates_leave_the_disk_alone() {
    let (mut tree, mut vfs) = leaf_world();
    let before = format!("{:?}", vfs_entries_sorted(&vfs));
    let log_len = vfs.log.len();
    apply_update(UpdatedSnapshot::new(2), &mut tree, &mut vfs).unwrap();
    assert_eq!(before, format!("{:?}", vfs_entries_sorted(&vfs)));
    assert_eq!(log_len, vfs.log.len());
    assert!(UpdatedSnapshot::new(2).is_empty());
}

#[test]
fn updates_against_missing_targets_are_soft() {
    let (mut tree, mut vfs) = folder_world(test_context());
    let before = format!("{:?}", vfs_entries_sorted(&vfs));
    apply_update(UpdatedSnapshot::new(99), &mut tree, &mut vfs).unwrap();
    apply_removal(99, &mut tree, &mut vfs).unwrap();
    let mut orphan = script_snapshot(5, 77, "X", false);
    orphan.parent = 77;
    apply_addition(orphan, &mut tree, &mut vfs).unwrap();
    assert_eq!(before, format!("{:?}", vfs_entries_sorted(&vfs)));
}

#[test]
fn removal_deletes_the_relevant_entries() {
    let (mut tree, mut vfs) = leaf_world();
    apply_removal(2, &mut tree, &mut vfs).unwrap();
    assert!(tree.get_instance(2).is_none());
    assert!(!vfs.path_exists(&path(&[("Foo", ""), ("A", ".txt")])));
    assert!(!vfs.path_exists(&path(&[("Foo", ""), ("A", ".data.json")])));
    assert!(vfs.path_exists(&path(&[("Foo", "")])));
}

#[test]
fn name_collisions_get_numbered_suffixes() {
    let (mut tree, mut vfs) = folder_world(test_context());
    apply_addition(script_snapshot(2, 1, "Script1", false), &mut tree, &mut vfs).unwrap();
    apply_addition(script_snapshot(3, 1, "Script1", false), &mut tree, &mut vfs).unwrap();
    // The second instance took the first free disambiguated name.
    assert!(vfs.path_exists(&path(&[("Foo", ""), ("Script1", ".server.lua")])));
    assert!(vfs.path_exists(&path(&[("Foo", ""), ("Script1_1", ".server.lua")])));
    let second = tree.get_instance(3).unwrap();
    assert_eq!(second.name, "Script1_1");
    let meta = tree.get_meta(3).unwrap();
    assert_eq!(meta.original_name, Some("Script1".to_string()));
}

#[test]
fn repeated_collisions_count_upward() {
    let (mut tree, mut vfs) = folder_world(test_context());
    apply_addition(script_snapshot(2, 1, "Script1", false), &mut tree, &mut vfs).unwrap();
    apply_addition(script_snapshot(3, 1, "Script1", false), &mut tree, &mut vfs).unwrap();
    apply_addition(script_snapshot(4, 1, "Script1", false), &mut tree, &mut vfs).unwrap();
    assert!(vfs.path_exists(&path(&[("Foo", ""), ("Script1_2", ".server.lua")])));
    assert_eq!(tree.get_instance(4).unwrap().name, "Script1_2");
}

#[test]
fn an_instance_with_an_empty_name_is_skipped() {
    let (mut tree, mut vfs) = folder_world(test_context());
    let before = format!("{:?}", vfs_entries_sorted(&vfs));
    apply_addition(script_snapshot(2, 1, "", false), &mut tree, &mut vfs).unwrap();
    assert_eq!(before, format!("{:?}", vfs_entries_sorted(&vfs)));
    assert!(tree.get_instance(2).is_none());
}

#[test]
fn children_are_written_below_their_parent() {
    let (mut tree, mut vfs) = folder_world(test_context());
    let mut parent = script_snapshot(2, 1, "Outer", false);
    let child = AddedSnapshot {
        id: 3,
        meta: Meta::new(),
        parent: 2,
        name: "Inner".to_string(),
        class: "Script".to_string(),
        properties: Props::new(),
        children: Vec::new(),
    }
    .to_snapshot();
    parent.children.push(child);
    apply_addition(parent, &mut tree, &mut vfs).unwrap();
    // The parent has children, so it is written as a directory with its
    // content in the fixed-stem file, and the child inside it.
    assert!(vfs.is_dir(&path(&[("Foo", ""), ("Outer", "")])));
    assert!(vfs.path_exists(&path(&[("Foo", ""), ("Outer", ""), (".src", ".server.lua")])));
    assert!(vfs.path_exists(&path(&[("Foo", ""), ("Outer", ""), ("Inner", ".server.lua")])));
    assert_eq!(tree.get_instance(2).unwrap().children, vec![3]);
    assert_eq!(tree.get_instance(3).unwrap().parent, 2);
    assert_sources_synced(&tree, &vfs);
}
