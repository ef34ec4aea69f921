//! Project documents, sidecar files, the in-memory disk, and the read
//! direction.

use syncback::alist::AList;
use syncback::datafile::{write_data, write_original_name, DataFile};
use syncback::engine::apply_update;
use syncback::filter::SyncbackFilter;
use syncback::meta::{Context, Meta, NodePath, Source, SourceKind};
use syncback::path::{rename_path, FsPath, PathComp};
use syncback::project::{
    find_node, insert_node_at, remove_node_at, resolve, Project, ProjectDoc, ProjectNode,
};
use syncback::props::{Props, UProps};
use syncback::read::{new_snapshot_node, read_data, read_project, snapshot_from_tree};
use syncback::reflect::ReflectionDb;
use syncback::snapshot::UpdatedSnapshot;
use syncback::tree::{Instance, Tree, TreeNode};
use syncback::value::TypedValue;
use syncback::vfs::{FileBody, Vfs};

fn path(parts: &[(&str, &str)]) -> FsPath {
    FsPath {
        comps: parts
            .iter()
            .map(|(stem, suffix)| PathComp::new(stem, suffix))
            .collect(),
    }
}

fn node_named(class: Option<&str>) -> ProjectNode {
    let mut n = ProjectNode::empty();
    n.class_name = class.map(|c| c.to_string());
    n
}

fn doc_with_tree(children: Vec<(&str, ProjectNode)>) -> ProjectDoc {
    let mut root = ProjectNode::empty();
    root.class_name = Some("DataModel".to_string());
    root.tree = children
        .into_iter()
        .map(|(k, v)| (k.to_string(), v))
        .collect();
    ProjectDoc {
        name: "place".to_string(),
        node: root,
        host: Some("localhost".to_string()),
        port: Some(8000),
        game_id: None,
        place_ids: None,
        ignore_globs: None,
    }
}

fn names(parts: &[&str]) -> Vec<String> {
    parts.iter().map(|s| s.to_string()).collect()
}

#[test]
fn node_lookup_walks_breadcrumbs() {
    let mut inner = node_named(Some("Folder"));
    inner.tree = vec![("Leaf".to_string(), node_named(Some("Part")))];
    let doc = doc_with_tree(vec![("Outer", inner)]);
    let found = find_node(&doc.node, &names(&["Outer", "Leaf"]), 0).unwrap();
    assert_eq!(found.class_name, Some("Part".to_string()));
    assert!(find_node(&doc.node, &names(&["Outer", "Missing"]), 0).is_none());
}

#[test]
fn node_insert_and_remove_are_inverse() {
    let mut doc = doc_with_tree(vec![("Outer", node_named(Some("Folder")))]);
    let ok = insert_node_at(
        &mut doc.node,
        &names(&["Outer"]),
        0,
        &"New".to_string(),
        node_named(Some("Part")),
    );
    assert!(ok);
    assert!(find_node(&doc.node, &names(&["Outer", "New"]), 0).is_some());
    let removed = remove_node_at(&mut doc.node, &names(&["Outer"]), 0, &"New".to_string());
    assert_eq!(removed.unwrap().class_name, Some("Part".to_string()));
    assert!(find_node(&doc.node, &names(&["Outer", "New"]), 0).is_none());
}

#[test]
fn project_load_collects_custom_paths() {
    let mut child = node_named(None);
    child.path = Some(path(&[("src", "")]));
    let doc = doc_with_tree(vec![("Game", child)]);
    let ppath = path(&[("place", ".project.json")]);
    let mut vfs = Vfs::new();
    vfs.write_file(&ppath, FileBody::Project(doc));
    let project = Project::load(&ppath, &vfs).unwrap();
    assert_eq!(project.root_class, "DataModel");
    assert!(project.is_place());
    let paths = project.get_paths();
    assert_eq!(paths.len(), 1);
    assert_eq!(format!("{:?}", paths[0]), format!("{:?}", path(&[("src", "")])));
}

#[test]
fn project_reload_reports_changes() {
    let doc = doc_with_tree(vec![("Game", node_named(Some("Folder")))]);
    let ppath = path(&[("place", ".project.json")]);
    let mut vfs = Vfs::new();
    vfs.write_file(&ppath, FileBody::Project(doc));
    let mut project = Project::load(&ppath, &vfs).unwrap();

    let unchanged = project.reload(&vfs).unwrap();
    assert!(!unchanged.address && !unchanged.paths && !unchanged.meta);

    let mut doc2 = doc_with_tree(vec![("Game", node_named(Some("Folder")))]);
    doc2.port = Some(9000);
    doc2.name = "other".to_string();
    vfs.write_file(&ppath, FileBody::Project(doc2));
    let changed = project.reload(&vfs).unwrap();
    assert!(changed.address);
    assert!(changed.meta);
    assert!(!changed.paths);
}

#[test]
fn project_path_resolution_prefers_existing_documents() {
    let file = path(&[("root", ""), ("place", ".project.json")]);
    let as_is = resolve(file, &"default".to_string(), true, None);
    assert_eq!(
        format!("{:?}", as_is),
        format!("{:?}", path(&[("root", ""), ("place", ".project.json")]))
    );

    let dir = path(&[("root", "")]);
    let found = resolve(
        dir,
        &"default".to_string(),
        false,
        Some(path(&[("root", ""), ("found", ".project.json")])),
    );
    assert_eq!(
        format!("{:?}", found),
        format!("{:?}", path(&[("root", ""), ("found", ".project.json")]))
    );

    let dir = path(&[("root", "")]);
    let fallback = resolve(dir, &"default".to_string(), false, None);
    assert_eq!(
        format!("{:?}", fallback),
        format!("{:?}", path(&[("root", ""), ("default", ".project.json")]))
    );
}

#[test]
fn data_files_survive_a_write_read_cycle() {
    let mut vfs = Vfs::new();
    let dp = path(&[("A", ".data.json")]);
    let mut props = Props::new();
    props.insert("Value".to_string(), TypedValue::Bool(true));
    let mut meta = Meta::new();
    meta.keep_unknowns = true;
    let written = write_data(false, &"Part".to_string(), props, &dp, &meta, &mut vfs);
    assert!(written.is_some());
    let ds = read_data(&dp, Some(&"Part".to_string()), &meta.context.reflection, &vfs).unwrap();
    assert_eq!(ds.keep_unknowns, Some(true));
    assert_eq!(ds.class, Some("Part".to_string()));
    // The loose boolean survives the cycle; without a database entry the
    // boolean shape still resolves through no declared type, so it is kept
    // only when the class declares it. Here resolution fails and the value
    // is dropped, which is the documented soft behavior.
    assert!(ds.properties.entries.len() <= 1);
}

#[test]
fn an_all_default_data_file_is_removed_not_written() {
    let mut vfs = Vfs::new();
    let dp = path(&[("A", ".data.json")]);
    vfs.write_file(&dp, FileBody::Data(DataFile::empty()));
    let meta = Meta::new();
    let written = write_data(true, &"Folder".to_string(), Props::new(), &dp, &meta, &mut vfs);
    assert!(written.is_none());
    assert!(!vfs.path_exists(&dp));
}

#[test]
fn patching_the_original_name_keeps_other_fields() {
    let mut vfs = Vfs::new();
    let dp = path(&[("A", ".data.json")]);
    let mut data = DataFile::empty();
    data.keep_unknowns = Some(true);
    vfs.write_file(&dp, FileBody::Data(data));
    let mut meta = Meta::new();
    meta.original_name = Some("True Name".to_string());
    write_original_name(&dp, &meta, &mut vfs).unwrap();
    match vfs.read(&dp) {
        Some(FileBody::Data(d)) => {
            assert_eq!(d.keep_unknowns, Some(true));
            assert_eq!(d.original_name, Some("True Name".to_string()));
        }
        other => panic!("expected the sidecar, got {:?}", other),
    }
}

#[test]
fn reading_a_project_builds_the_declared_tree() {
    let mut inner = node_named(Some("Part"));
    inner.properties = UProps::new();
    let doc = doc_with_tree(vec![("Game", {
        let mut n = node_named(Some("Folder"));
        n.tree = vec![("Thing".to_string(), inner)];
        n
    })]);
    let ppath = path(&[("place", ".project.json")]);
    let mut vfs = Vfs::new();
    vfs.write_file(&ppath, FileBody::Project(doc));
    let ctx = Context {
        sync_rules: Vec::new(),
        filter: SyncbackFilter::permit_all(),
        use_legacy_scripts: false,
        reflection: ReflectionDb::empty(),
    };
    let snap = read_project(&ppath, &ctx, &mut vfs).unwrap();
    assert_eq!(snap.name, "place");
    assert_eq!(snap.class, "DataModel");
    assert_eq!(snap.children.len(), 1);
    assert_eq!(snap.children[0].name, "Game");
    assert_eq!(snap.children[0].children[0].name, "Thing");
    assert_eq!(snap.children[0].children[0].class, "Part");
    match &snap.meta.source.kind {
        SourceKind::Path(p) => {
            assert_eq!(format!("{:?}", p), format!("{:?}", ppath));
        }
        other => panic!("expected a file-backed root, got {:?}", other),
    }
}

#[test]
fn a_node_with_class_and_path_is_rejected() {
    let mut bad = node_named(Some("Part"));
    bad.path = Some(path(&[("src", "")]));
    let ctx = Context {
        sync_rules: Vec::new(),
        filter: SyncbackFilter::permit_all(),
        use_legacy_scripts: false,
        reflection: ReflectionDb::empty(),
    };
    let mut vfs = Vfs::new();
    let r = new_snapshot_node(
        &"Bad".to_string(),
        &path(&[("place", ".project.json")]),
        &bad,
        &NodePath::new(),
        &ctx,
        &mut vfs,
    );
    assert!(r.is_err());
}

#[test]
fn updating_a_project_node_rewrites_the_document() {
    // A name change against a project-backed instance moves the node under
    // its new key and saves the document once.
    let doc = doc_with_tree(vec![("Game", node_named(Some("Folder")))]);
    let ppath = path(&[("place", ".project.json")]);
    let mut vfs = Vfs::new();
    vfs.write_file(&ppath, FileBody::Project(doc));
    let ctx = Context {
        sync_rules: Vec::new(),
        filter: SyncbackFilter::permit_all(),
        use_legacy_scripts: false,
        reflection: ReflectionDb::empty(),
    };
    let mut node_path = NodePath::new();
    node_path = node_path.join(&"Game".to_string());
    let source = Source::project(
        &"Game".to_string(),
        &ppath,
        node_named(Some("Folder")),
        node_path,
    );
    let meta = Meta {
        source,
        context: ctx,
        keep_unknowns: false,
        original_name: None,
        mesh_source: None,
    };
    let inst = Instance {
        name: "Game".to_string(),
        class: "Folder".to_string(),
        properties: Props::new(),
        parent: 0,
        children: Vec::new(),
    };
    let mut tree = Tree::new();
    tree.set_node(7, TreeNode { inst, meta });

    let mut up = UpdatedSnapshot::new(7);
    up.name = Some("World".to_string());
    apply_update(up, &mut tree, &mut vfs).unwrap();

    match vfs.read(&ppath) {
        Some(FileBody::Project(d)) => {
            assert!(find_node(&d.node, &names(&["World"]), 0).is_some());
            assert!(find_node(&d.node, &names(&["Game"]), 0).is_none());
        }
        other => panic!("expected the document, got {:?}", other),
    }
    assert_eq!(tree.get_instance(7).unwrap().name, "World");
}

#[test]
fn renaming_a_directory_carries_its_subtree() {
    let mut vfs = Vfs::new();
    vfs.write_dir(&path(&[("a", "")]));
    vfs.write_file(
        &path(&[("a", ""), ("x", ".txt")]),
        FileBody::Data(DataFile::empty()),
    );
    vfs.rename(&path(&[("a", "")]), &path(&[("b", "")])).unwrap();
    assert!(!vfs.path_exists(&path(&[("a", "")])));
    assert!(!vfs.path_exists(&path(&[("a", ""), ("x", ".txt")])));
    assert!(vfs.is_dir(&path(&[("b", "")])));
    assert!(vfs.path_exists(&path(&[("b", ""), ("x", ".txt")])));
}

#[test]
fn removing_a_directory_removes_everything_below() {
    let mut vfs = Vfs::new();
    vfs.write_dir(&path(&[("a", "")]));
    vfs.write_file(
        &path(&[("a", ""), ("x", ".txt")]),
        FileBody::Data(DataFile::empty()),
    );
    vfs.write_file(&path(&[("b", ".txt")]), FileBody::Data(DataFile::empty()));
    vfs.remove(&path(&[("a", "")])).unwrap();
    assert!(!vfs.path_exists(&path(&[("a", "")])));
    assert!(!vfs.path_exists(&path(&[("a", ""), ("x", ".txt")])));
    assert!(vfs.path_exists(&path(&[("b", ".txt")])));
}

#[test]
fn path_renaming_replaces_only_a_matching_stem() {
    let p = path(&[("Foo", ""), ("A", ".txt")]);
    let renamed = rename_path(&p, &"A".to_string(), &"B".to_string());
    assert_eq!(
        format!("{:?}", renamed),
        format!("{:?}", path(&[("Foo", ""), ("B", ".txt")]))
    );
    let untouched = rename_path(&p, &"C".to_string(), &"B".to_string());
    assert_eq!(format!("{:?}", untouched), format!("{:?}", p));
}

#[test]
fn filters_match_names_classes_and_path_prefixes() {
    let filter = SyncbackFilter {
        names: vec!["Secret".to_string()],
        classes: vec!["Camera".to_string()],
        paths: vec![path(&[("hidden", "")])],
    };
    assert!(filter.matches_name(&"Secret".to_string()));
    assert!(!filter.matches_name(&"Open".to_string()));
    assert!(filter.matches_class(&"Camera".to_string()));
    assert!(filter.matches_path(&path(&[("hidden", "")])));
    assert!(filter.matches_path(&path(&[("hidden", ""), ("below", ".txt")])));
    assert!(!filter.matches_path(&path(&[("visible", "")])));
}

#[test]
fn the_action_log_records_every_effect_in_order() {
    let mut vfs = Vfs::new();
    vfs.write_dir(&path(&[("a", "")]));
    vfs.write_file(
        &path(&[("a", ""), ("x", ".txt")]),
        FileBody::Data(DataFile::empty()),
    );
    vfs.rename(&path(&[("a", ""), ("x", ".txt")]), &path(&[("a", ""), ("y", ".txt")]))
        .unwrap();
    vfs.watch(&path(&[("a", "")]), true);
    assert_eq!(vfs.log.len(), 4);
    assert!(matches!(vfs.log[0], syncback::vfs::FsAction::WriteDir(_)));
    assert!(matches!(vfs.log[1], syncback::vfs::FsAction::WriteFile(..)));
    assert!(matches!(vfs.log[2], syncback::vfs::FsAction::Rename(..)));
    assert!(matches!(vfs.log[3], syncback::vfs::FsAction::Watch(..)));
}

#[test]
fn walking_the_tree_rebuilds_the_subtree() {
    let mut tree = Tree::new();
    let ctx = Context {
        sync_rules: Vec::new(),
        filter: SyncbackFilter::permit_all(),
        use_legacy_scripts: false,
        reflection: ReflectionDb::empty(),
    };
    let meta = Meta {
        source: Source::unbacked(),
        context: ctx,
        keep_unknowns: false,
        original_name: None,
        mesh_source: None,
    };
    let mut props = Props::new();
    props.insert("Value".to_string(), TypedValue::Bool(true));
    tree.set_node(
        1,
        TreeNode {
            inst: Instance {
                name: "Root".to_string(),
                class: "Folder".to_string(),
                properties: props,
                parent: 0,
                children: vec![2, 99],
            },
            meta: meta.clone_meta(),
        },
    );
    tree.set_node(
        2,
        TreeNode {
            inst: Instance {
                name: "Child".to_string(),
                class: "Part".to_string(),
                properties: Props::new(),
                parent: 1,
                children: Vec::new(),
            },
            meta,
        },
    );
    let snap = snapshot_from_tree(tree, 1).unwrap();
    assert_eq!(snap.name, "Root");
    assert_eq!(snap.class, "Folder");
    assert_eq!(snap.properties.entries.len(), 1);
    // The dangling child link (99) is skipped.
    assert_eq!(snap.children.len(), 1);
    assert_eq!(snap.children[0].name, "Child");
    assert_eq!(snap.children[0].class, "Part");
}

#[test]
fn alists_behave_like_maps() {
    let mut m: AList<u32> = AList::new();
    m.insert("a".to_string(), 1);
    m.insert("b".to_string(), 2);
    m.insert("a".to_string(), 3);
    assert_eq!(m.get(&"a".to_string()), Some(&3));
    assert_eq!(m.get(&"b".to_string()), Some(&2));
    assert_eq!(m.len(), 2);
    assert_eq!(m.remove(&"a".to_string()), Some(3));
    assert_eq!(m.get(&"a".to_string()), None);
}
