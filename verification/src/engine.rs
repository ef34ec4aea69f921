//! The syncback engine: applying an addition, update or removal to both the
//! in-memory tree and the disk layout, preserving path-naming conventions.

use vstd::prelude::*;

use crate::datafile::{clone_opt_string, opt_string_eq, write_data, write_original_name};
use crate::filter::{
    spec_matches_class, spec_matches_name, spec_matches_path, validate_properties,
    SyncbackFilter,
};
use crate::meta::{
    entry_path, Meta, MetaV, Middleware, Source, SourceEntry, SourceEntryV, SourceKind,
    SourceKindV, SourceV,
};
use crate::path::{rename_path, FsPath, PathComp, PathCompV};
use crate::project::ProjectNode;
use crate::props::Props;
use crate::snapshot::{snap_wf, snaps_wf, AddedSnapshot, RefId, Snapshot, UpdatedSnapshot};
use crate::text::u64_to_string;
use crate::meta::{meta_ok, source_paths_ok};
use crate::tree::{tree_node_ok, Instance, Tree, TreeNode, TreeNodeV};
use crate::vfs::{
    path_under_eq, ContentFile, FileBody, FileBodyV, FsActionV, FsEntryV, Vfs, VfsError,
};

verus! {

/// A failure the engine reports to its caller; the caller is expected to
/// abort the current reconciliation cycle.
#[derive(Debug, PartialEq)]
pub enum EngineError {
    /// A filesystem operation failed.
    Fs(VfsError),
    /// No sync rule of the needed middleware kind is configured.
    NoRule,
    /// A file expected to hold a project document does not.
    BadProjectFile,
    /// A project node that must exist was not found in its document.
    MissingProjectNode,
    /// A file expected to hold a sidecar data file does not.
    BadDataFile,
}

/// One relevant entry is backed by a matching disk entry.
pub open spec fn entry_backed(
    e: SourceEntryV,
    m: Map<Seq<PathCompV>, FsEntryV>,
) -> bool {
    match e {
        SourceEntryV::File(p) => m.contains_key(p) && m[p] is File,
        SourceEntryV::Folder(p) => m.contains_key(p) && m[p] is Dir,
        SourceEntryV::Data(p) => m.contains_key(p) && m[p] is File,
        SourceEntryV::Project(p) => m.contains_key(p) && m[p] is File,
    }
}

/// The relevant-entry set of a source exactly names disk artifacts that
/// exist: every entry is backed by a matching disk entry.
pub open spec fn source_synced(s: SourceV, m: Map<Seq<PathCompV>, FsEntryV>) -> bool {
    forall|i: int| 0 <= i < s.relevant.len() ==> entry_backed(#[trigger] s.relevant[i], m)
}

/// How many disambiguation suffixes a collision-safe rename tries before
/// giving up.
pub const MAX_NAME_TRIES: u64 = 16;

/// The stem tried at attempt `k`: the stem, an underscore, and the attempt
/// number.
pub open spec fn spec_cand_stem(stem: Seq<char>, k: int) -> Seq<char> {
    stem + "_"@ + crate::text::spec_digits(k)
}

/// The candidate path at attempt `k`.
pub open spec fn spec_cand_path(p: Seq<PathCompV>, k: int) -> Seq<PathCompV>
    recommends
        p.len() > 0,
{
    p.drop_last().push(PathCompV { stem: spec_cand_stem(p.last().stem, k), suffix: p.last().suffix })
}

/// The first attempt number in `k..=max` whose candidate path is free.
pub open spec fn spec_first_free(
    m: Map<Seq<PathCompV>, FsEntryV>,
    p: Seq<PathCompV>,
    k: int,
    max: int,
) -> Option<int>
    decreases max - k + 1,
    when k <= max + 1
{
    if k > max {
        None
    } else if !m.contains_key(spec_cand_path(p, k)) {
        Some(k)
    } else {
        spec_first_free(m, p, k + 1, max)
    }
}

/// The outcome of collision-safe path verification.
pub ghost struct VerifiedPath {
    pub path: Seq<PathCompV>,
    pub name: Seq<char>,
    pub original_name: Option<Seq<char>>,
}

/// What verification leaves behind: the path unchanged when free, or the
/// first free disambiguated candidate, with the instance name following the
/// new stem and the original name recorded once.
pub open spec fn spec_verify_path(
    m: Map<Seq<PathCompV>, FsEntryV>,
    p: Seq<PathCompV>,
    name: Seq<char>,
    original_name: Option<Seq<char>>,
) -> Option<VerifiedPath>
    recommends
        p.len() > 0,
{
    if !m.contains_key(p) {
        Some(VerifiedPath { path: p, name, original_name })
    } else {
        match spec_first_free(m, p, 1, MAX_NAME_TRIES as int) {
            Some(k) => Some(
                VerifiedPath {
                    path: spec_cand_path(p, k),
                    name: spec_cand_stem(p.last().stem, k),
                    original_name: match original_name {
                        Some(o) => Some(o),
                        None => Some(name),
                    },
                },
            ),
            None => None,
        }
    }
}

/// Verify a name for use on disk: the engine declines to write instances
/// with an empty name.
pub fn verify_name(name: &String, _meta: &Meta) -> (r: bool)
    ensures
        r == (name@.len() != 0),
{
    !name.as_str().is_empty()
}

/// Verify a path against the disk, disambiguating a colliding file name
/// with numbered suffixes; the instance name and the recorded original name
/// follow. Returns false, leaving everything unchanged, when every attempt
/// collides.
pub fn verify_path(path: &mut FsPath, name: &mut String, meta: &mut Meta, vfs: &Vfs) -> (r: bool)
    requires
        old(path)@.len() > 0,
        vfs.wf(),
    ensures
        final(meta).source == old(meta).source,
        final(meta).context == old(meta).context,
        final(meta)@.source == old(meta)@.source,
        final(meta)@.context == old(meta)@.context,
        final(meta)@.keep_unknowns == old(meta)@.keep_unknowns,
        final(meta)@.mesh_source == old(meta)@.mesh_source,
        match spec_verify_path(vfs@, old(path)@, old(name)@, old(meta)@.original_name) {
            Some(v) => r && final(path)@ == v.path && final(name)@ == v.name
                && final(meta)@.original_name == v.original_name,
            None => !r && final(path)@ == old(path)@ && final(name)@ == old(name)@
                && final(meta)@.original_name == old(meta)@.original_name,
        },
        final(path)@.len() > 0,
{
    if !vfs.path_exists(path) {
        return true;
    }
    let last = path.file_name();
    let stem = last.stem.clone();
    let suffix = last.suffix.clone();
    let mut k: u64 = 1;
    while k <= MAX_NAME_TRIES
        invariant
            1 <= k <= MAX_NAME_TRIES + 1,
            vfs@.contains_key(old(path)@),
            path@ == old(path)@,
            path@.len() > 0,
            stem@ == path@.last().stem,
            suffix@ == path@.last().suffix,
            vfs.wf(),
            *meta == *old(meta),
            *name == *old(name),
            spec_first_free(vfs@, path@, 1, MAX_NAME_TRIES as int) == spec_first_free(
                vfs@,
                path@,
                k as int,
                MAX_NAME_TRIES as int,
            ),
        decreases MAX_NAME_TRIES + 1 - k,
    {
        let mut cand_stem = stem.clone();
        cand_stem.append("_");
        let digits = u64_to_string(k);
        cand_stem.append(digits.as_str());
        proof {
            assert(cand_stem@ == spec_cand_stem(path@.last().stem, k as int));
        }
        let cand = path.with_file_name(
            PathComp { stem: cand_stem.clone(), suffix: suffix.clone() },
        );
        proof {
            assert(cand@ =~= spec_cand_path(path@, k as int));
        }
        if !vfs.path_exists(&cand) {
            if meta.original_name.is_none() {
                meta.original_name = Some(name.clone());
            }
            *name = cand_stem;
            *path = cand;
            return true;
        }
        k += 1;
    }
    proof {
        assert(spec_first_free(vfs@, path@, k as int, MAX_NAME_TRIES as int) is None);
    }
    false
}

/// What a middleware write leaves on disk: the class and the consumed main
/// property (`Source`), and the remaining properties handed back.
pub open spec fn spec_content_file(
    class: Seq<char>,
    props: Map<Seq<char>, crate::value::TypedValueV>,
) -> crate::vfs::ContentFileV {
    crate::vfs::ContentFileV {
        class,
        main: if props.contains_key("Source"@) {
            Some(props["Source"@])
        } else {
            None
        },
    }
}

/// Write an instance's main content through a middleware: the `Source`
/// property is consumed into the file; the rest is handed back for the
/// sidecar.
pub fn middleware_write(
    _mw: Middleware,
    class: &String,
    properties: Props,
    path: &FsPath,
    vfs: &mut Vfs,
) -> (r: Props)
    requires
        properties.wf(),
        old(vfs).wf(),
    ensures
        final(vfs).wf(),
        final(vfs)@ == old(vfs)@.insert(
            path@,
            FsEntryV::File(FileBodyV::Content(spec_content_file(class@, properties@))),
        ),
        final(vfs).log_view() == old(vfs).log_view().push(
            FsActionV::WriteFile(
                path@,
                FileBodyV::Content(spec_content_file(class@, properties@)),
            ),
        ),
        r.wf(),
        r@ == properties@.remove("Source"@),
{
    let mut props = properties;
    let source_key = String::from_str("Source");
    proof {
        reveal_strlit("Source");
    }
    let main = props.remove(&source_key);
    let body = ContentFile { class: class.clone(), main };
    proof {
        assert(body@ =~= spec_content_file(class@, properties@));
    }
    vfs.write_file(path, FileBody::Content(body));
    props
}


/// Where an instance's sidecar lives: the recorded data entry, or the first
/// data rule's location.
pub open spec fn spec_locate_data(
    meta: MetaV,
    name: Seq<char>,
    path: Seq<PathCompV>,
    is_dir: bool,
) -> Option<Seq<PathCompV>> {
    match crate::meta::spec_first_data(meta.source.relevant) {
        Some(e) => Some(entry_path(e)),
        None => match crate::meta::spec_first_rule_of(
            meta.context.sync_rules,
            Middleware::InstanceData,
        ) {
            Some(rule) => Some(crate::meta::spec_rule_locate(rule, path, name, is_dir)),
            None => None,
        },
    }
}

/// Locate an instance's sidecar: the recorded path wins; otherwise the
/// first data rule decides.
pub fn locate_instance_data(name: &String, path: &FsPath, meta: &Meta, vfs: &Vfs) -> (r: Option<
    FsPath,
>)
    requires
        path@.len() > 0,
        vfs.wf(),
        meta_ok(*meta),
    ensures
        match r {
            Some(p) => spec_locate_data(
                meta@,
                name@,
                path@,
                vfs@.contains_key(path@) && vfs@[path@] is Dir,
            ) == Some(p@) && p@.len() > 0,
            None => spec_locate_data(
                meta@,
                name@,
                path@,
                vfs@.contains_key(path@) && vfs@[path@] is Dir,
            ) is None,
        },
{
    let recorded = meta.source.get_data();
    match recorded {
        Some(e) => {
            proof {
                crate::meta::lemma_first_data_paths(
                    meta.source@.relevant,
                    meta.source.relevant@,
                );
            }
            Some(e.path().clone_path())
        }
        None => {
            let is_dir = vfs.is_dir(path);
            match meta.context.locate_by_rule(Middleware::InstanceData, path, name, is_dir) {
                Some(p) => Some(p),
                None => None,
            }
        }
    }
}

/// Whether rewriting properties must first relocate the main file: the
/// class has a middleware, a file entry is recorded, and the rule now
/// locates the content elsewhere.
pub open spec fn spec_needs_relocation(
    meta: MetaV,
    class: Seq<char>,
    name: Seq<char>,
    path: Seq<PathCompV>,
    is_dir: bool,
) -> bool {
    &&& crate::meta::spec_middleware_from_class(class) matches Some(mw)
    &&& crate::meta::spec_first_file(meta.source.relevant) is Some
    &&& crate::meta::spec_first_rule_of(
        meta.context.sync_rules,
        crate::meta::spec_middleware_from_class(class)->Some_0,
    ) is Some
    &&& ({
        let f = entry_path(crate::meta::spec_first_file(meta.source.relevant)->Some_0);
        let rule = crate::meta::spec_first_rule_of(
            meta.context.sync_rules,
            crate::meta::spec_middleware_from_class(class)->Some_0,
        )->Some_0;
        crate::meta::spec_rule_locate(rule, path, name, is_dir) != f
    })
}

/// The disk after a property rewrite that needs no relocation: the main
/// file (located through the recorded entry or the rule) carries the
/// middleware content of the validated properties, and the sidecar is
/// written or removed per the leftover properties.
pub open spec fn spec_props_rewrite_vfs(
    m: Map<Seq<PathCompV>, FsEntryV>,
    meta: MetaV,
    class: Seq<char>,
    name: Seq<char>,
    path: Seq<PathCompV>,
    validated: Map<Seq<char>, crate::value::TypedValueV>,
) -> Map<Seq<PathCompV>, FsEntryV> {
    let db = meta.context.reflection;
    let filter = meta.context.filter;
    let isdir = m.contains_key(path) && m[path] is Dir;
    match crate::meta::spec_middleware_from_class(class) {
        Some(mw) => {
            let fpath_opt = match crate::meta::spec_first_file(meta.source.relevant) {
                Some(e) => Some(entry_path(e)),
                None => match crate::meta::spec_first_rule_of(meta.context.sync_rules, mw) {
                    Some(rule) => Some(crate::meta::spec_rule_locate(rule, path, name, isdir)),
                    None => None,
                },
            };
            match fpath_opt {
                None => m,
                Some(f) => {
                    let m1 = m.insert(
                        f,
                        FsEntryV::File(
                            FileBodyV::Content(spec_content_file(class, validated)),
                        ),
                    );
                    let isdir2 = m1.contains_key(path) && m1[path] is Dir;
                    match spec_locate_data(meta, name, path, isdir2) {
                        None => m1,
                        Some(dp) => if spec_matches_path(filter, dp) {
                            m1
                        } else {
                            crate::datafile::spec_write_data_entries(
                                m1,
                                dp,
                                crate::datafile::spec_writable_data(
                                    db,
                                    true,
                                    class,
                                    validated.remove("Source"@),
                                    meta.keep_unknowns,
                                    meta.original_name,
                                ),
                            )
                        },
                    }
                },
            }
        },
        None => {
            match spec_locate_data(meta, name, path, isdir) {
                None => m,
                Some(dp) => if spec_matches_path(filter, dp) {
                    m
                } else {
                    crate::datafile::spec_write_data_entries(
                        m,
                        dp,
                        crate::datafile::spec_writable_data(
                            db,
                            false,
                            class,
                            validated,
                            meta.keep_unknowns,
                            meta.original_name,
                        ),
                    )
                },
            }
        },
    }
}

/// Apply a property change against a path-backed instance: the main file is
/// rewritten through its middleware (relocating it when its computed
/// location moved), then the sidecar. Returns the validated properties the
/// instance now carries, or `None` when the path is filtered and nothing
/// was done. Failure happens only when a needed relocation finds no file
/// to move: success is owed everywhere else.
pub fn update_non_project_properties(
    path: &FsPath,
    properties: Props,
    class: &String,
    name: &String,
    meta: &mut Meta,
    vfs: &mut Vfs,
) -> (r: Result<Option<Props>, EngineError>)
    requires
        path@.len() > 0,
        old(vfs).wf(),
        properties.wf(),
        meta_ok(*old(meta)),
    ensures
        final(vfs).wf(),
        meta_ok(*final(meta)),
        final(meta).source.kind == old(meta).source.kind,
        final(meta)@.context == old(meta)@.context,
        final(meta)@.original_name == old(meta)@.original_name,
        final(meta)@.keep_unknowns == old(meta)@.keep_unknowns,
        match r {
            Ok(Some(p)) => p.wf() && p@ == properties@.restrict(
                crate::filter::spec_kept_keys(old(meta)@.context.filter),
            ),
            Ok(None) => spec_matches_path(old(meta)@.context.filter, path@) && final(vfs)@
                == old(vfs)@ && final(vfs).log_view() == old(vfs).log_view() && *final(meta)
                == *old(meta),
            Err(_) => true,
        },
        spec_matches_path(old(meta)@.context.filter, path@) ==> r == Ok::<
            Option<Props>,
            EngineError,
        >(None),
        r is Err ==> spec_needs_relocation(
            old(meta)@,
            class@,
            name@,
            path@,
            old(vfs)@.contains_key(path@) && old(vfs)@[path@] is Dir,
        ) && !old(vfs)@.contains_key(
            entry_path(crate::meta::spec_first_file(old(meta)@.source.relevant)->Some_0),
        ),
        !spec_needs_relocation(
            old(meta)@,
            class@,
            name@,
            path@,
            old(vfs)@.contains_key(path@) && old(vfs)@[path@] is Dir,
        ) && !spec_matches_path(old(meta)@.context.filter, path@) ==> r is Ok && final(vfs)@
            == spec_props_rewrite_vfs(
            old(vfs)@,
            old(meta)@,
            class@,
            name@,
            path@,
            properties@.restrict(crate::filter::spec_kept_keys(old(meta)@.context.filter)),
        ),
{
    let filter = meta.context.filter.clone_filter();
    if filter.matches_path(path) {
        return Ok(None);
    }
    let props = validate_properties(properties, &filter);
    let ghost isdir0 = old(vfs)@.contains_key(path@) && old(vfs)@[path@] is Dir;
    let ghost norel = !spec_needs_relocation(old(meta)@, class@, name@, path@, isdir0)
        && !spec_matches_path(old(meta)@.context.filter, path@);
    let ghost target = spec_props_rewrite_vfs(
        old(vfs)@,
        old(meta)@,
        class@,
        name@,
        path@,
        props@,
    );
    let mw_opt = Middleware::from_class(class);
    match mw_opt {
        Some(mw) => {
            let is_dir = vfs.is_dir(path);
            let new_path = meta.context.locate_by_rule(mw, path, name, is_dir);
            let cur_file: Option<FsPath> = match meta.source.get_file() {
                Some(e) => {
                    proof {
                        crate::meta::lemma_first_file_paths(
                            meta.source@.relevant,
                            meta.source.relevant@,
                        );
                    }
                    Some(e.path().clone_path())
                }
                None => None,
            };
            let file_path: Option<FsPath> = match cur_file {
                Some(current) => {
                    match &new_path {
                        Some(np) => {
                            if !current.eq_path(np) {
                                match vfs.rename(&current, np) {
                                    Ok(()) => {
                                        meta.source.set_file_path(np);
                                        proof {
                                            assert(np@.len() > 0);
                                            assert(source_paths_ok(meta.source));
                                        }
                                        Some(np.clone_path())
                                    }
                                    Err(e) => {
                                        return Err(EngineError::Fs(e));
                                    }
                                }
                            } else {
                                Some(current)
                            }
                        }
                        None => Some(current),
                    }
                }
                None => {
                    match &new_path {
                        Some(np) => {
                            meta.source.add_file(np);
                            proof {
                                assert(np@.len() > 0);
                                assert(forall|i: int| 0 <= i < meta.source.relevant@.len()
                                    ==> entry_path(
                                    (#[trigger] meta.source.relevant@[i])@,
                                ).len() > 0) by {
                                    assert(forall|i: int| 0 <= i < meta.source@.relevant.len()
                                        ==> entry_path(#[trigger] meta.source@.relevant[i]).len()
                                        > 0);
                                }
                                assert(source_paths_ok(meta.source));
                            }
                            Some(np.clone_path())
                        }
                        None => None,
                    }
                }
            };
            proof {
                if norel {
                    match crate::meta::spec_first_file(old(meta)@.source.relevant) {
                        Some(e) => {
                            crate::meta::lemma_first_data_push(
                                old(meta)@.source.relevant,
                                SourceEntryV::File(entry_path(e)),
                            );
                        }
                        None => {
                            match &new_path {
                                Some(np) => {
                                    crate::meta::lemma_first_data_push(
                                        old(meta)@.source.relevant,
                                        SourceEntryV::File(np@),
                                    );
                                }
                                None => {}
                            }
                        }
                    }
                }
            }
            match file_path {
                Some(fp) => {
                    let remaining = middleware_write(mw, class, props.deep_clone(), &fp, vfs);
                    let ghost m1 = vfs@;
                    proof {
                        if norel {
                            assert(m1 == old(vfs)@.insert(
                                fp@,
                                FsEntryV::File(
                                    FileBodyV::Content(spec_content_file(class@, props@)),
                                ),
                            ));
                        }
                    }
                    let data_path = locate_instance_data(name, path, meta, vfs);
                    proof {
                        if norel {
                            assert(spec_locate_data(meta@, name@, path@, m1.contains_key(path@)
                                && m1[path@] is Dir) == spec_locate_data(
                                old(meta)@,
                                name@,
                                path@,
                                m1.contains_key(path@) && m1[path@] is Dir,
                            ));
                        }
                    }
                    match data_path {
                        Some(dp) => {
                            if filter.matches_path(&dp) {
                                proof {
                                    if norel {
                                        assert(vfs@ == target);
                                    }
                                }
                            } else {
                                let written = write_data(true, class, remaining, &dp, meta, vfs);
                                proof {
                                    crate::meta::lemma_drop_data_paths(meta.source@.relevant);
                                    if norel {
                                        assert(vfs@ == target);
                                    }
                                }
                                match &written {
                                    Some(p) => {
                                        meta.source.set_data(Some(p));
                                    }
                                    None => {
                                        meta.source.set_data(None);
                                    }
                                }
                                proof {
                                    assert(forall|i: int| 0 <= i < meta.source.relevant@.len()
                                        ==> entry_path(
                                        (#[trigger] meta.source.relevant@[i])@,
                                    ).len() > 0) by {
                                        assert(forall|i: int| 0 <= i < meta.source@.relevant
                                            .len() ==> entry_path(
                                            #[trigger] meta.source@.relevant[i],
                                        ).len() > 0);
                                    }
                                    assert(source_paths_ok(meta.source));
                                }
                            }
                        }
                        None => {
                            proof {
                                if norel {
                                    assert(vfs@ == target);
                                }
                            }
                        }
                    }
                }
                None => {
                    proof {
                        if norel {
                            assert(vfs@ == target);
                        }
                    }
                }
            }
        }
        None => {
            let data_path = locate_instance_data(name, path, meta, vfs);
            match data_path {
                Some(dp) => {
                    if filter.matches_path(&dp) {
                        proof {
                            if norel {
                                assert(vfs@ == target);
                            }
                        }
                    } else {
                        let written = write_data(false, class, props.deep_clone(), &dp, meta, vfs);
                        proof {
                            crate::meta::lemma_drop_data_paths(meta.source@.relevant);
                            if norel {
                                assert(vfs@ == target);
                            }
                        }
                        match &written {
                            Some(p) => {
                                meta.source.set_data(Some(p));
                            }
                            None => {
                                meta.source.set_data(None);
                            }
                        }
                        proof {
                            assert(forall|i: int| 0 <= i < meta.source.relevant@.len()
                                ==> entry_path(
                                (#[trigger] meta.source.relevant@[i])@,
                            ).len() > 0) by {
                                assert(forall|i: int| 0 <= i < meta.source@.relevant.len()
                                    ==> entry_path(
                                    #[trigger] meta.source@.relevant[i],
                                ).len() > 0);
                            }
                            assert(source_paths_ok(meta.source));
                        }
                    }
                }
                None => {
                    proof {
                        if norel {
                            assert(vfs@ == target);
                        }
                    }
                }
            }
        }
    }
    Ok(Some(props))
}


/// Whether an update is dropped by the filter: the instance's current name
/// or class, or the incoming name, matches an exclusion rule.
pub open spec fn spec_update_filtered(t: Map<RefId, TreeNodeV>, u: crate::snapshot::UpdatedSnapshotV) -> bool {
    t.contains_key(u.id) && {
        let f = t[u.id].meta.context.filter;
        ||| spec_matches_name(f, t[u.id].inst.name)
        ||| spec_matches_class(f, t[u.id].inst.class)
        ||| (u.name matches Some(n) && spec_matches_name(f, n))
    }
}

/// Apply a single-instance change to the tree and the disk.
///
/// A missing target or a filtered instance is soft: the call succeeds
/// having done nothing. A path-backed instance has its files renamed for a
/// name change and rewritten for a property change; a project-backed
/// instance has its node patched and the document saved.
pub fn apply_update(snapshot: UpdatedSnapshot, tree: &mut Tree, vfs: &mut Vfs) -> (r: Result<
    (),
    EngineError,
>)
    requires
        old(tree).wf(),
        old(vfs).wf(),
        snapshot@.class is None,
        snapshot@.meta is None,
        snapshot.properties matches Some(p) ==> p.wf(),
        old(tree)@.contains_key(snapshot@.id) ==> !(old(tree)@[snapshot@.id].meta.source.kind
            is Unbacked),
    ensures
        final(tree).wf(),
        final(vfs).wf(),
        !old(tree)@.contains_key(snapshot@.id) ==> r == Ok::<(), EngineError>(())
            && final(tree)@ == old(tree)@ && final(vfs)@ == old(vfs)@
            && final(vfs).log_view() == old(vfs).log_view(),
        spec_update_filtered(old(tree)@, snapshot@) ==> r == Ok::<(), EngineError>(())
            && final(tree)@ == old(tree)@ && final(vfs)@ == old(vfs)@
            && final(vfs).log_view() == old(vfs).log_view(),
        snapshot@.name is None && snapshot@.properties is None && r == Ok::<(), EngineError>(())
            ==> final(tree)@ == old(tree)@ && final(vfs)@ == old(vfs)@
            && final(vfs).log_view().len() >= old(vfs).log_view().len()
            && (forall|i: int| 0 <= i < old(vfs).log_view().len()
                ==> final(vfs).log_view()[i] == old(vfs).log_view()[i])
            && (forall|i: int| old(vfs).log_view().len() <= i < final(vfs).log_view().len()
                ==> !crate::vfs::is_rename_action(#[trigger] final(vfs).log_view()[i])),
        // An update whose name equals the instance's current name and which
        // carries no properties changes nothing: the rename machinery is
        // not entered, so a repeated rename is idempotent.
        (snapshot@.name matches Some(n) && old(tree)@.contains_key(snapshot@.id) && n == old(
            tree,
        )@[snapshot@.id].inst.name) && snapshot@.properties is None && !spec_update_filtered(
            old(tree)@,
            snapshot@,
        ) && (old(tree)@[snapshot@.id].meta.source.kind is Path) && r is Ok ==> final(tree)@
            == old(tree)@ && final(vfs)@ == old(vfs)@ && final(vfs).log_view() == old(
            vfs,
        ).log_view(),
        // A pure rename against an unfiltered path-backed instance settles
        // the instance's name and its source path through the rename and
        // collision-verification rules.
        (snapshot@.name is Some && snapshot@.properties is None && r is Ok && old(
            tree,
        )@.contains_key(snapshot@.id) && !spec_update_filtered(old(tree)@, snapshot@)
            && (old(tree)@[snapshot@.id].meta.source.kind is Path) && snapshot@.name->Some_0
            != old(tree)@[snapshot@.id].inst.name && snapshot@.name->Some_0.len() != 0
            && (spec_verify_path(
            old(vfs)@,
            crate::path::spec_rename_path(
                old(tree)@[snapshot@.id].meta.source.kind->Path_0,
                old(tree)@[snapshot@.id].inst.name,
                snapshot@.name->Some_0,
            ),
            snapshot@.name->Some_0,
            old(tree)@[snapshot@.id].meta.original_name,
        ) is Some)) ==> final(tree)@.contains_key(snapshot@.id) && ({
            let v = spec_verify_path(
                old(vfs)@,
                crate::path::spec_rename_path(
                    old(tree)@[snapshot@.id].meta.source.kind->Path_0,
                    old(tree)@[snapshot@.id].inst.name,
                    snapshot@.name->Some_0,
                ),
                snapshot@.name->Some_0,
                old(tree)@[snapshot@.id].meta.original_name,
            )->Some_0;
            final(tree)@[snapshot@.id].inst.name == (match v.original_name {
                Some(o) => o,
                None => v.name,
            }) && final(tree)@[snapshot@.id].meta.source.kind == SourceKindV::Path(v.path)
        }),
        // A pure collision-free rename of a leaf-backed instance folds the
        // per-entry renames over the disk: each unfiltered file and data
        // entry moves to its renamed path, in entry order.
        (snapshot@.name is Some && snapshot@.properties is None && r is Ok && old(
            tree,
        )@.contains_key(snapshot@.id) && !spec_update_filtered(old(tree)@, snapshot@)
            && (old(tree)@[snapshot@.id].meta.source.kind is Path) && snapshot@.name->Some_0
            != old(tree)@[snapshot@.id].inst.name && snapshot@.name->Some_0.len() != 0
            && !old(vfs)@.contains_key(
            crate::path::spec_rename_path(
                old(tree)@[snapshot@.id].meta.source.kind->Path_0,
                old(tree)@[snapshot@.id].inst.name,
                snapshot@.name->Some_0,
            ),
        ) && crate::meta::spec_first_folder(
            old(tree)@[snapshot@.id].meta.source.relevant,
        ) is None) ==> (match spec_rename_entries(
            old(vfs)@,
            old(tree)@[snapshot@.id].meta.source.relevant,
            old(tree)@[snapshot@.id].inst.name,
            snapshot@.name->Some_0,
            old(tree)@[snapshot@.id].meta.context.filter,
        ) {
            Some(pair) => final(vfs)@ == pair.0 && final(tree)@.contains_key(snapshot@.id)
                && final(tree)@[snapshot@.id].meta.source.relevant == pair.1,
            None => true,
        }),
        // A pure collision-free rename of a folder-backed instance renames
        // the folder on disk, carrying its subtree, and re-roots every
        // relevant entry below the renamed folder.
        (snapshot@.name is Some && snapshot@.properties is None && r is Ok && old(
            tree,
        )@.contains_key(snapshot@.id) && !spec_update_filtered(old(tree)@, snapshot@)
            && (old(tree)@[snapshot@.id].meta.source.kind is Path) && snapshot@.name->Some_0
            != old(tree)@[snapshot@.id].inst.name && snapshot@.name->Some_0.len() != 0
            && !old(vfs)@.contains_key(
            crate::path::spec_rename_path(
                old(tree)@[snapshot@.id].meta.source.kind->Path_0,
                old(tree)@[snapshot@.id].inst.name,
                snapshot@.name->Some_0,
            ),
        ) && (crate::meta::spec_first_folder(
            old(tree)@[snapshot@.id].meta.source.relevant,
        ) is Some) && !spec_matches_path(
            old(tree)@[snapshot@.id].meta.context.filter,
            entry_path(
                crate::meta::spec_first_folder(
                    old(tree)@[snapshot@.id].meta.source.relevant,
                )->Some_0,
            ),
        )) ==> ({
            let folp = entry_path(
                crate::meta::spec_first_folder(
                    old(tree)@[snapshot@.id].meta.source.relevant,
                )->Some_0,
            );
            let newfol = folp.drop_last().push(
                PathCompV { stem: snapshot@.name->Some_0, suffix: folp.last().suffix },
            );
            final(vfs)@ == crate::vfs::spec_rename_map(old(vfs)@, folp, newfol)
                && final(tree)@.contains_key(snapshot@.id) && final(tree)@[snapshot@.id].meta
                .source.relevant == spec_rebase_entries(
                old(tree)@[snapshot@.id].meta.source.relevant,
                newfol,
            )
        }),
        // A pure property change against an unfiltered path-backed instance
        // that needs no file relocation rewrites the main file and sidecar
        // exactly, and the instance carries the validated properties.
        (snapshot@.name is None && (snapshot@.properties matches Some(ps)) && r is Ok && old(
            tree,
        )@.contains_key(snapshot@.id) && !spec_update_filtered(old(tree)@, snapshot@) && (old(
            tree,
        )@[snapshot@.id].meta.source.kind matches SourceKindV::Path(p0)
            && !spec_needs_relocation(
            old(tree)@[snapshot@.id].meta,
            old(tree)@[snapshot@.id].inst.class,
            old(tree)@[snapshot@.id].inst.name,
            p0,
            old(vfs)@.contains_key(p0) && old(vfs)@[p0] is Dir,
        ) && !spec_matches_path(old(tree)@[snapshot@.id].meta.context.filter, p0))) ==> ({
            let node0 = old(tree)@[snapshot@.id];
            let p0 = node0.meta.source.kind->Path_0;
            let validated = snapshot@.properties->Some_0.restrict(
                crate::filter::spec_kept_keys(node0.meta.context.filter),
            );
            final(vfs)@ == spec_props_rewrite_vfs(
                old(vfs)@,
                node0.meta,
                node0.inst.class,
                node0.inst.name,
                p0,
                validated,
            ) && final(tree)@.contains_key(snapshot@.id) && final(tree)@[snapshot@.id].inst
                .properties == validated
        }),
        // A pure rename of a project-backed instance rewrites its document
        // exactly: the node leaves its parent's child map, re-enters under
        // the new name, and the document is saved, the disk otherwise
        // untouched; the instance carries the new name.
        (snapshot@.name is Some && snapshot@.properties is None && r is Ok && old(
            tree,
        )@.contains_key(snapshot@.id) && !spec_update_filtered(old(tree)@, snapshot@)
            && (old(tree)@[snapshot@.id].meta.source.kind is Project) && old(vfs)@.contains_key(
            old(tree)@[snapshot@.id].meta.source.kind->Project_0.path,
        ) && (old(vfs)@[old(tree)@[snapshot@.id].meta.source.kind->Project_0.path] matches
            FsEntryV::File(FileBodyV::Project(_)))) ==> ({
            let ps = old(tree)@[snapshot@.id].meta.source.kind->Project_0;
            let stored = old(vfs)@[ps.path]->File_0->Project_0;
            let parent = ps.node_path.drop_last();
            (crate::project::spec_node_remove_v(stored.node, parent, ps.name) matches Some(pair)
                && crate::project::spec_node_insert_v(
                pair.0,
                parent,
                snapshot@.name->Some_0,
                pair.1,
            ) matches Some(n2) && final(vfs)@ == old(vfs)@.insert(
                ps.path,
                FsEntryV::File(
                    FileBodyV::Project(crate::project::ProjectDocV { node: n2, ..stored }),
                ),
            ) && final(tree)@.contains_key(snapshot@.id) && final(tree)@[snapshot@.id].inst
                .name == snapshot@.name->Some_0)
        }),
{
    let UpdatedSnapshot { id, meta: _, name: up_name, class: _, properties: up_props } = snapshot;
    let mut excluded = false;
    let mut found = false;
    match tree.get_instance(id) {
        Some(inst) => {
            found = true;
            match tree.get_meta(id) {
                Some(m) => {
                    let f = &m.context.filter;
                    if f.matches_name(&inst.name) || f.matches_class(&inst.class) {
                        excluded = true;
                    }
                    match &up_name {
                        Some(n) => {
                            if f.matches_name(n) {
                                excluded = true;
                            }
                        }
                        None => {}
                    }
                }
                None => {
                    proof {
                        assert(false);
                    }
                }
            }
        }
        None => {}
    }
    if !found {
        return Ok(());
    }
    if excluded {
        return Ok(());
    }
    let node = tree.take_node(id);
    let (mut inst, mut meta) = match node {
        Some(n) => {
            proof {
                assert(tree_node_ok(n));
            }
            let TreeNode { inst, meta } = n;
            (inst, meta)
        }
        None => {
            proof {
                assert(false);
            }
            return Ok(());
        }
    };
    proof {
        assert(inst.properties.wf());
        assert(meta_ok(meta));
    }
    let kpath: Option<FsPath> = match &meta.source.kind {
        SourceKind::Path(p) => Some(p.clone_path()),
        _ => None,
    };
    let ghost node0 = TreeNodeV { inst: inst@, meta: meta@ };
    match kpath {
        Some(path0) => {
            let mut path = path0;
            let ghost name_quiet = match up_name {
                Some(ref n) => n@ == inst@.name,
                None => true,
            };
            let original_name0 = clone_opt_string(&meta.original_name);
            match up_name {
                Some(name0) => {
                    let changed = !(name0 == inst.name);
                    if changed {
                        let mut name = name0;
                        if !verify_name(&name, &meta) {
                            tree.set_node(id, TreeNode { inst, meta });
                            return Ok(());
                        }
                        let renamed_path = rename_path(&path, &inst.name, &name);
                        path = renamed_path;
                        if !verify_path(&mut path, &mut name, &mut meta, vfs) {
                            tree.set_node(id, TreeNode { inst, meta });
                            return Ok(());
                        }
                        meta.source.kind = SourceKind::Path(path.clone_path());
                        proof {
                            assert(source_paths_ok(meta.source));
                        }
                        let filter = meta.context.filter.clone_filter();
                        let folder_path_opt: Option<FsPath> = match meta.source.get_folder() {
                            Some(e) => {
                                proof {
                                    crate::meta::lemma_first_data_paths(
                                        meta.source@.relevant,
                                        meta.source.relevant@,
                                    );
                                }
                                Some(e.path().clone_path())
                            }
                            None => None,
                        };
                        match folder_path_opt {
                            Some(folder_path) => {
                                let suffix = folder_path.file_name().suffix.clone();
                                let new_folder = folder_path.with_file_name(
                                    PathComp { stem: name.clone(), suffix },
                                );
                                if filter.matches_path(&folder_path) && filter.matches_path(
                                    &new_folder,
                                ) {
                                } else {
                                    match vfs.rename(&folder_path, &new_folder) {
                                        Ok(()) => {}
                                        Err(e) => {
                                            tree.set_node(id, TreeNode { inst, meta });
                                            return Err(EngineError::Fs(e));
                                        }
                                    }
                                    rebase_relevant(&mut meta.source, &new_folder);
                                    proof {
                                        assert(source_paths_ok(meta.source));
                                    }
                                }
                            }
                            None => {
                                match rename_relevant(
                                    &mut meta.source,
                                    &inst.name,
                                    &name,
                                    &filter,
                                    vfs,
                                ) {
                                    Ok(()) => {}
                                    Err(e) => {
                                        tree.set_node(id, TreeNode { inst, meta });
                                        return Err(e);
                                    }
                                }
                            }
                        }
                        if up_props.is_none() && !opt_string_eq(
                            &original_name0,
                            &meta.original_name,
                        ) {
                            let data_path = locate_instance_data(&name, &path, &meta, vfs);
                            match data_path {
                                Some(dp) => {
                                    if !filter.matches_path(&dp) {
                                        match write_original_name(&dp, &meta, vfs) {
                                            Ok(()) => {}
                                            Err(e) => {
                                                tree.set_node(id, TreeNode { inst, meta });
                                                return Err(e);
                                            }
                                        }
                                    }
                                }
                                None => {}
                            }
                        }
                        let new_inst_name = match &meta.original_name {
                            Some(o) => o.clone(),
                            None => name.clone(),
                        };
                        inst.name = new_inst_name;
                    }
                }
                None => {}
            }
            match up_props {
                Some(props) => {
                    let class_c = inst.class.clone();
                    let name_c = inst.name.clone();
                    match update_non_project_properties(
                        &path,
                        props,
                        &class_c,
                        &name_c,
                        &mut meta,
                        vfs,
                    ) {
                        Ok(Some(validated)) => {
                            inst.properties = validated;
                        }
                        Ok(None) => {}
                        Err(e) => {
                            tree.set_node(id, TreeNode { inst, meta });
                            return Err(e);
                        }
                    }
                }
                None => {}
            }
            let ghost props_effect_case = up_name is None && up_props is Some
                && !spec_needs_relocation(
                node0.meta,
                node0.inst.class,
                node0.inst.name,
                node0.meta.source.kind->Path_0,
                old(vfs)@.contains_key(node0.meta.source.kind->Path_0) && old(vfs)@[node0.meta
                    .source.kind->Path_0] is Dir,
            ) && !spec_matches_path(node0.meta.context.filter, node0.meta.source.kind->Path_0);
            let ghost noop = up_name is None && up_props is None;
            tree.set_node(id, TreeNode { inst, meta });
            proof {
                if noop || (name_quiet && up_props is None) {
                    assert(node0 == old(tree)@[id]);
                    assert(old(tree)@.remove(id).insert(id, node0) =~= old(tree)@);
                    assert(final(tree)@ =~= old(tree)@);
                }
                if props_effect_case {
                    assert(node0 == old(tree)@[id]);
                    assert(final(tree)@.contains_key(id));
                }
            }
            Ok(())
        }
        None => {
            let ghost noop = up_name is None && up_props is None;
            let ghost node_v = TreeNodeV { inst: inst@, meta: meta@ };
            let res = apply_update_project(id, up_name, up_props, inst, meta, tree, vfs);
            proof {
                if noop && res is Ok {
                    assert(node_v == old(tree)@[id]);
                    assert(old(tree)@.remove(id).insert(id, node_v) =~= old(tree)@);
                    assert(final(tree)@ =~= old(tree)@);
                }
            }
            res
        }
    }
}

/// Every entry re-rooted under a renamed folder: folder entries become the
/// folder itself, file and data entries keep their names below it, and
/// project entries stay.
pub open spec fn spec_rebase_entries(
    rel: Seq<SourceEntryV>,
    newfol: Seq<PathCompV>,
) -> Seq<SourceEntryV> {
    rel.map_values(
        |e: SourceEntryV| match e {
            SourceEntryV::Folder(_) => SourceEntryV::Folder(newfol),
            SourceEntryV::File(p) => SourceEntryV::File(newfol.push(p.last())),
            SourceEntryV::Data(p) => SourceEntryV::Data(newfol.push(p.last())),
            SourceEntryV::Project(p) => SourceEntryV::Project(p),
        },
    )
}

/// Re-root every file and data entry under a renamed folder.
fn rebase_relevant(source: &mut Source, new_folder: &FsPath)
    requires
        source_paths_ok(*old(source)),
        new_folder@.len() > 0,
    ensures
        final(source).kind == old(source).kind,
        source_paths_ok(*final(source)),
        final(source)@.relevant == spec_rebase_entries(old(source)@.relevant, new_folder@),
{
    let mut rel: Vec<SourceEntry> = Vec::new();
    core::mem::swap(&mut rel, &mut source.relevant);
    let ghost oldrel = rel@;
    let mut out: Vec<SourceEntry> = Vec::new();
    let mut i: usize = 0;
    let ghost relv = old(source)@.relevant;
    while i < rel.len()
        invariant
            rel@ == oldrel,
            relv == oldrel.map_values(|e: SourceEntry| e@),
            relv == old(source)@.relevant,
            new_folder@.len() > 0,
            source.kind == old(source).kind,
            source_paths_ok(*old(source)),
            forall|j: int| 0 <= j < oldrel.len() ==> crate::meta::entry_path(
                (#[trigger] oldrel[j])@,
            ).len() > 0,
            i <= oldrel.len(),
            out@.len() == i,
            forall|j: int| 0 <= j < out@.len() ==> crate::meta::entry_path(
                (#[trigger] out@[j])@,
            ).len() > 0,
            forall|j: int| 0 <= j < i ==> (#[trigger] out@[j])@ == spec_rebase_entries(
                relv,
                new_folder@,
            )[j],
        decreases oldrel.len() - i,
    {
        proof {
            assert(relv[i as int] == oldrel[i as int]@);
            assert(spec_rebase_entries(relv, new_folder@)[i as int] == (
            match relv[i as int] {
                SourceEntryV::Folder(_) => SourceEntryV::Folder(new_folder@),
                SourceEntryV::File(p) => SourceEntryV::File(new_folder@.push(p.last())),
                SourceEntryV::Data(p) => SourceEntryV::Data(new_folder@.push(p.last())),
                SourceEntryV::Project(p) => SourceEntryV::Project(p),
            }));
        }
        match &rel[i] {
            SourceEntry::Folder(_) => {
                out.push(SourceEntry::Folder(new_folder.clone_path()));
            }
            SourceEntry::File(p) => {
                let comp = p.file_name_at(p.len() - 1);
                out.push(SourceEntry::File(new_folder.join(comp)));
            }
            SourceEntry::Data(p) => {
                let comp = p.file_name_at(p.len() - 1);
                out.push(SourceEntry::Data(new_folder.join(comp)));
            }
            SourceEntry::Project(p) => {
                out.push(SourceEntry::Project(p.clone_path()));
            }
        }
        i += 1;
    }
    source.relevant = out;
    proof {
        assert(source_paths_ok(*source));
        assert(final(source)@.relevant =~= spec_rebase_entries(old(source)@.relevant, new_folder@));
    }
}

/// One step of renaming relevant entries: a file or data entry moves to
/// its renamed path (kept untouched when both old and new paths are
/// filtered; impossible when nothing stands at the old path), every other
/// entry is kept.
pub open spec fn spec_rename_entries(
    m: Map<Seq<PathCompV>, FsEntryV>,
    rel: Seq<SourceEntryV>,
    old_name: Seq<char>,
    new_name: Seq<char>,
    filter: crate::filter::SyncbackFilterV,
) -> Option<(Map<Seq<PathCompV>, FsEntryV>, Seq<SourceEntryV>)>
    decreases rel.len(),
{
    if rel.len() == 0 {
        Some((m, Seq::empty()))
    } else {
        let e = rel[0];
        let step: Option<(Map<Seq<PathCompV>, FsEntryV>, SourceEntryV)> = if !(e is File || e
            is Data) {
            Some((m, e))
        } else {
            let ep = entry_path(e);
            let np = crate::path::spec_rename_path(ep, old_name, new_name);
            if spec_matches_path(filter, ep) && spec_matches_path(filter, np) {
                Some((m, e))
            } else if !m.contains_key(ep) {
                None
            } else {
                Some(
                    (
                        crate::vfs::spec_rename_map(m, ep, np),
                        if e is File {
                            SourceEntryV::File(np)
                        } else {
                            SourceEntryV::Data(np)
                        },
                    ),
                )
            }
        };
        match step {
            None => None,
            Some((m2, e2)) => match spec_rename_entries(
                m2,
                rel.drop_first(),
                old_name,
                new_name,
                filter,
            ) {
                None => None,
                Some((mf, rest)) => Some((mf, seq![e2] + rest)),
            },
        }
    }
}

/// Rename every file and data entry of a leaf-backed source on disk,
/// substituting the new name for the old one; an entry whose old and new
/// paths are both filtered keeps its old path and is not touched on disk.
/// The whole effect is the fold of the per-entry renames, in entry order.
fn rename_relevant(
    source: &mut Source,
    old_name: &String,
    new_name: &String,
    filter: &SyncbackFilter,
    vfs: &mut Vfs,
) -> (r: Result<(), EngineError>)
    requires
        source_paths_ok(*old(source)),
        old(vfs).wf(),
    ensures
        final(vfs).wf(),
        final(source).kind == old(source).kind,
        source_paths_ok(*final(source)),
        match spec_rename_entries(
            old(vfs)@,
            old(source)@.relevant,
            old_name@,
            new_name@,
            filter@,
        ) {
            Some(pair) => r is Ok && final(vfs)@ == pair.0 && final(source)@.relevant
                == pair.1,
            None => r is Err,
        },
{
    let mut rel: Vec<SourceEntry> = Vec::new();
    core::mem::swap(&mut rel, &mut source.relevant);
    let ghost oldrel = rel@;
    let ghost relv = old(source)@.relevant;
    let mut out: Vec<SourceEntry> = Vec::new();
    let mut i: usize = 0;
    proof {
        assert(relv == oldrel.map_values(|e: SourceEntry| e@));
        assert(relv.skip(0) =~= relv);
        assert(out@.map_values(|e: SourceEntry| e@) =~= Seq::<SourceEntryV>::empty());
        assert(spec_rename_entries(old(vfs)@, relv, old_name@, new_name@, filter@) == (
        match spec_rename_entries(vfs@, relv.skip(0), old_name@, new_name@, filter@) {
            None => None,
            Some((mf, rest)) => Some(
                (mf, out@.map_values(|e: SourceEntry| e@) + rest),
            ),
        })) by {
            match spec_rename_entries(vfs@, relv, old_name@, new_name@, filter@) {
                None => {}
                Some((mf, rest)) => {
                    assert(out@.map_values(|e: SourceEntry| e@) + rest =~= rest);
                }
            }
        }
    }
    while i < rel.len()
        invariant
            rel@ == oldrel,
            relv == oldrel.map_values(|e: SourceEntry| e@),
            relv == old(source)@.relevant,
            vfs.wf(),
            source.kind == old(source).kind,
            source_paths_ok(*old(source)),
            filter@ == filter@,
            forall|j: int| 0 <= j < oldrel.len() ==> crate::meta::entry_path(
                (#[trigger] oldrel[j])@,
            ).len() > 0,
            i <= oldrel.len(),
            forall|j: int| 0 <= j < out@.len() ==> crate::meta::entry_path(
                (#[trigger] out@[j])@,
            ).len() > 0,
            spec_rename_entries(old(vfs)@, relv, old_name@, new_name@, filter@) == (
            match spec_rename_entries(vfs@, relv.skip(i as int), old_name@, new_name@, filter@) {
                None => None,
                Some((mf, rest)) => Some(
                    (mf, out@.map_values(|e: SourceEntry| e@) + rest),
                ),
            }),
        decreases oldrel.len() - i,
    {
        let ghost outv0 = out@.map_values(|e: SourceEntry| e@);
        let ghost m0 = vfs@;
        proof {
            assert(relv.skip(i as int)[0] == relv[i as int]);
            assert(relv.skip(i as int).drop_first() =~= relv.skip(i as int + 1));
            assert(relv[i as int] == oldrel[i as int]@);
        }
        let entry = &rel[i];
        let is_movable = match entry {
            SourceEntry::File(_) => true,
            SourceEntry::Data(_) => true,
            _ => false,
        };
        if is_movable {
            let p = entry.path();
            let newp = rename_path(p, old_name, new_name);
            if filter.matches_path(p) && filter.matches_path(&newp) {
                out.push(entry.clone_entry());
                proof {
                    assert(out@.map_values(|e: SourceEntry| e@) =~= outv0.push(relv[i as int]));
                    lemma_rename_fold_step(m0, relv.skip(i as int), old_name@, new_name@, filter@);
                    assert(outv0 + (seq![relv[i as int]] + spec_tail_of(
                        m0,
                        relv.skip(i as int + 1),
                        old_name@,
                        new_name@,
                        filter@,
                    )) =~= (outv0.push(relv[i as int])) + spec_tail_of(
                        m0,
                        relv.skip(i as int + 1),
                        old_name@,
                        new_name@,
                        filter@,
                    ));
                }
            } else {
                match vfs.rename(p, &newp) {
                    Ok(()) => {
                        proof {
                            assert(newp@.len() > 0);
                        }
                        let ghost moved = if relv[i as int] is File {
                            SourceEntryV::File(newp@)
                        } else {
                            SourceEntryV::Data(newp@)
                        };
                        match entry {
                            SourceEntry::File(_) => {
                                out.push(SourceEntry::File(newp));
                            }
                            _ => {
                                out.push(SourceEntry::Data(newp));
                            }
                        }
                        proof {
                            assert(out@.map_values(|e: SourceEntry| e@) =~= outv0.push(moved));
                            lemma_rename_fold_step(m0, relv.skip(i as int), old_name@, new_name@, filter@);
                            assert(outv0 + (seq![moved] + spec_tail_of(
                                vfs@,
                                relv.skip(i as int + 1),
                                old_name@,
                                new_name@,
                                filter@,
                            )) =~= (outv0.push(moved)) + spec_tail_of(
                                vfs@,
                                relv.skip(i as int + 1),
                                old_name@,
                                new_name@,
                                filter@,
                            ));
                        }
                    }
                    Err(e) => {
                        // Keep the old entry and stop: the error aborts the
                        // cycle, but the source must stay coherent.
                        proof {
                            lemma_rename_fold_step(m0, relv.skip(i as int), old_name@, new_name@, filter@);
                            assert(spec_rename_entries(
                                old(vfs)@,
                                relv,
                                old_name@,
                                new_name@,
                                filter@,
                            ) is None);
                        }
                        out.push(entry.clone_entry());
                        let mut j = i + 1;
                        while j < rel.len()
                            invariant
                                rel@ == oldrel,
                                relv == old(source)@.relevant,
                                j <= oldrel.len(),
                                source.kind == old(source).kind,
                                source_paths_ok(*old(source)),
                                spec_rename_entries(
                                    old(vfs)@,
                                    relv,
                                    old_name@,
                                    new_name@,
                                    filter@,
                                ) is None,
                                vfs.wf(),
                                forall|l: int| 0 <= l < oldrel.len()
                                    ==> crate::meta::entry_path(
                                    (#[trigger] oldrel[l])@,
                                ).len() > 0,
                                forall|l: int| 0 <= l < out@.len() ==> crate::meta::entry_path(
                                    (#[trigger] out@[l])@,
                                ).len() > 0,
                            decreases oldrel.len() - j,
                        {
                            out.push(rel[j].clone_entry());
                            j += 1;
                        }
                        source.relevant = out;
                        return Err(EngineError::Fs(e));
                    }
                }
            }
        } else {
            out.push(entry.clone_entry());
            proof {
                assert(out@.map_values(|e: SourceEntry| e@) =~= outv0.push(relv[i as int]));
                lemma_rename_fold_step(m0, relv.skip(i as int), old_name@, new_name@, filter@);
                assert(outv0 + (seq![relv[i as int]] + spec_tail_of(
                    m0,
                    relv.skip(i as int + 1),
                    old_name@,
                    new_name@,
                    filter@,
                )) =~= (outv0.push(relv[i as int])) + spec_tail_of(
                    m0,
                    relv.skip(i as int + 1),
                    old_name@,
                    new_name@,
                    filter@,
                ));
            }
        }
        i += 1;
    }
    source.relevant = out;
    proof {
        assert(relv.skip(relv.len() as int).len() == 0);
        assert(out@.map_values(|e: SourceEntry| e@) + Seq::<SourceEntryV>::empty() =~= out@
            .map_values(|e: SourceEntry| e@));
        assert(source_paths_ok(*source));
    }
    Ok(())
}

/// The rest of a rename fold, when it succeeds.
pub open spec fn spec_tail_of(
    m: Map<Seq<PathCompV>, FsEntryV>,
    rel: Seq<SourceEntryV>,
    old_name: Seq<char>,
    new_name: Seq<char>,
    filter: crate::filter::SyncbackFilterV,
) -> Seq<SourceEntryV> {
    match spec_rename_entries(m, rel, old_name, new_name, filter) {
        Some(pair) => pair.1,
        None => Seq::empty(),
    }
}

/// Unfold one step of the rename fold.
proof fn lemma_rename_fold_step(
    m: Map<Seq<PathCompV>, FsEntryV>,
    rel: Seq<SourceEntryV>,
    old_name: Seq<char>,
    new_name: Seq<char>,
    filter: crate::filter::SyncbackFilterV,
)
    requires
        rel.len() > 0,
    ensures
        spec_rename_entries(m, rel, old_name, new_name, filter) == ({
            let e = rel[0];
            let step: Option<(Map<Seq<PathCompV>, FsEntryV>, SourceEntryV)> = if !(e is File
                || e is Data) {
                Some((m, e))
            } else {
                let ep = entry_path(e);
                let np = crate::path::spec_rename_path(ep, old_name, new_name);
                if spec_matches_path(filter, ep) && spec_matches_path(filter, np) {
                    Some((m, e))
                } else if !m.contains_key(ep) {
                    None
                } else {
                    Some(
                        (
                            crate::vfs::spec_rename_map(m, ep, np),
                            if e is File {
                                SourceEntryV::File(np)
                            } else {
                                SourceEntryV::Data(np)
                            },
                        ),
                    )
                }
            };
            match step {
                None => None,
                Some((m2, e2)) => match spec_rename_entries(
                    m2,
                    rel.drop_first(),
                    old_name,
                    new_name,
                    filter,
                ) {
                    None => None,
                    Some((mf, rest)) => Some((mf, seq![e2] + rest)),
                },
            }
        }),
{
}

/// Apply an update against a project-backed instance: property changes are
/// patched into the node (or delegated to the custom path), the name change
/// afterwards moves the node under its new key, and the document is saved
/// once.
fn apply_update_project(
    id: RefId,
    up_name: Option<String>,
    up_props: Option<Props>,
    inst: Instance,
    meta: Meta,
    tree: &mut Tree,
    vfs: &mut Vfs,
) -> (r: Result<(), EngineError>)
    requires
        old(tree).wf(),
        old(vfs).wf(),
        inst.properties.wf(),
        meta_ok(meta),
        meta.source.kind is Project,
        up_props matches Some(p) ==> p.wf(),
    ensures
        final(tree).wf(),
        final(vfs).wf(),
        up_name is None && up_props is None && r is Ok
            ==> final(tree)@ == old(tree)@.insert(
            id,
            TreeNodeV { inst: inst@, meta: meta@ },
        ) && final(vfs)@ == old(vfs)@
            && final(vfs).log_view().len() >= old(vfs).log_view().len()
            && (forall|i: int| 0 <= i < old(vfs).log_view().len()
                ==> final(vfs).log_view()[i] == old(vfs).log_view()[i])
            && (forall|i: int| old(vfs).log_view().len() <= i < final(vfs).log_view().len()
                ==> !crate::vfs::is_rename_action(#[trigger] final(vfs).log_view()[i])),
        // A pure rename rewrites the document exactly: the node leaves its
        // parent's child map, re-enters under the new name, and the
        // document is saved, the disk otherwise untouched; the instance
        // carries the new name.
        (r is Ok && up_props is None && up_name is Some && old(vfs)@.contains_key(
            meta@.source.kind->Project_0.path,
        ) && (old(vfs)@[meta@.source.kind->Project_0.path] matches FsEntryV::File(
            FileBodyV::Project(_),
        ))) ==> ({
            let ps = meta@.source.kind->Project_0;
            let stored = old(vfs)@[ps.path]->File_0->Project_0;
            let parent = ps.node_path.drop_last();
            (crate::project::spec_node_remove_v(stored.node, parent, ps.name) matches Some(pair)
                && crate::project::spec_node_insert_v(
                pair.0,
                parent,
                up_name->Some_0@,
                pair.1,
            ) matches Some(n2) && final(vfs)@ == old(vfs)@.insert(
                ps.path,
                FsEntryV::File(
                    FileBodyV::Project(crate::project::ProjectDocV { node: n2, ..stored }),
                ),
            ) && final(tree)@.contains_key(id) && final(tree)@[id].inst.name
                == up_name->Some_0@)
        }),
{
    let ghost noop = up_name is None && up_props is None;
    let ghost inst0 = inst;
    let ghost meta0 = meta;
    let mut inst = inst;
    let mut meta = meta;
    let ps_path;
    let ps_name;
    let ps_node_path;
    let ps_custom: Option<FsPath>;
    match &meta.source.kind {
        SourceKind::Project(ps) => {
            ps_path = ps.path.clone_path();
            ps_name = ps.name.clone();
            ps_node_path = ps.node_path.clone_node_path();
            ps_custom = match &ps.node.path {
                Some(p) => Some(p.clone_path()),
                None => None,
            };
        }
        _ => {
            proof {
                assert(false);
            }
            return Ok(());
        }
    }
    let mut doc = match vfs.read(&ps_path) {
        Some(FileBody::Project(d)) => d.clone(),
        _ => {
            tree.set_node(id, TreeNode { inst, meta });
            return Err(EngineError::BadProjectFile);
        }
    };
    let ghost stored = doc@;
    match up_props {
        Some(props) => {
            match ps_custom {
                Some(custom) => {
                    let class_c = inst.class.clone();
                    let name_c = inst.name.clone();
                    match update_non_project_properties(
                        &custom,
                        props,
                        &class_c,
                        &name_c,
                        &mut meta,
                        vfs,
                    ) {
                        Ok(Some(validated)) => {
                            inst.properties = validated;
                        }
                        Ok(None) => {}
                        Err(e) => {
                            tree.set_node(id, TreeNode { inst, meta });
                            return Err(e);
                        }
                    }
                    // Ownership moved to the filesystem: clear the node's
                    // serialized fields.
                    let _ = crate::project::patch_node_at(
                        &mut doc.node,
                        &ps_node_path.names,
                        0,
                        crate::props::UProps::new(),
                        true,
                    );
                }
                None => {
                    let filter = meta.context.filter.clone_filter();
                    let validated = validate_properties(props, &filter);
                    let class_for_node = match crate::project::find_node(
                        &doc.node,
                        &ps_node_path.names,
                        0,
                    ) {
                        Some(n) => match &n.class_name {
                            Some(c) => c.clone(),
                            None => ps_name.clone(),
                        },
                        None => {
                            tree.set_node(id, TreeNode { inst, meta });
                            return Err(EngineError::MissingProjectNode);
                        }
                    };
                    let loose = crate::datafile::props_to_loose(
                        &meta.context.reflection,
                        &class_for_node,
                        &validated,
                    );
                    let ok = crate::project::patch_node_at(
                        &mut doc.node,
                        &ps_node_path.names,
                        0,
                        loose,
                        false,
                    );
                    if !ok {
                        tree.set_node(id, TreeNode { inst, meta });
                        return Err(EngineError::MissingProjectNode);
                    }
                    inst.properties = validated;
                }
            }
        }
        None => {}
    }
    // A name change is applied after the property change, because the
    // latter can itself move the node.
    match up_name {
        Some(new_name) => {
            if ps_node_path.len() == 0 {
                tree.set_node(id, TreeNode { inst, meta });
                return Err(EngineError::MissingProjectNode);
            }
            let parent_path = ps_node_path.parent();
            let ghost pre_remove = doc@.node;
            let removed = crate::project::remove_node_at(
                &mut doc.node,
                &parent_path.names,
                0,
                &ps_name,
            );
            match removed {
                Some(node) => {
                    let ghost removed_v = node@;
                    let ghost after_remove = doc@.node;
                    let node_for_source = crate::project::clone_node(&node);
                    let ok = crate::project::insert_node_at(
                        &mut doc.node,
                        &parent_path.names,
                        0,
                        &new_name,
                        node,
                    );
                    if !ok {
                        tree.set_node(id, TreeNode { inst, meta });
                        return Err(EngineError::MissingProjectNode);
                    }
                    proof {
                        if up_props is None {
                            assert(pre_remove == stored.node);
                            assert(crate::alist::strings_view(parent_path.names@)
                                =~= ps_node_path@.drop_last());
                            assert(crate::alist::strings_view(parent_path.names@).skip(0)
                                =~= crate::alist::strings_view(parent_path.names@));
                            assert(crate::project::spec_node_remove_v(
                                stored.node,
                                ps_node_path@.drop_last(),
                                ps_name@,
                            ) == Some((after_remove, removed_v)));
                            assert(crate::project::spec_node_insert_v(
                                after_remove,
                                ps_node_path@.drop_last(),
                                new_name@,
                                removed_v,
                            ) == Some(doc@.node));
                        }
                    }
                    let new_node_path = parent_path.join(&new_name);
                    meta.source.kind = SourceKind::Project(
                        crate::meta::ProjectSource {
                            name: new_name.clone(),
                            path: ps_path.clone_path(),
                            node: node_for_source,
                            node_path: new_node_path,
                        },
                    );
                    proof {
                        assert(source_paths_ok(meta.source));
                    }
                    inst.name = new_name;
                }
                None => {
                    tree.set_node(id, TreeNode { inst, meta });
                    return Err(EngineError::MissingProjectNode);
                }
            }
        }
        None => {}
    }
    vfs.write_file(&ps_path, FileBody::Project(doc));
    tree.set_node(id, TreeNode { inst, meta });
    proof {
        if noop {
            assert(final(tree)@ =~= old(tree)@.insert(
                id,
                TreeNodeV { inst: inst0@, meta: meta0@ },
            ));
            assert(final(vfs)@ =~= old(vfs)@);
        }
    }
    Ok(())
}


/// Whether a removal is dropped by the filter.
pub open spec fn spec_removal_filtered(t: Map<RefId, TreeNodeV>, id: RefId) -> bool {
    t.contains_key(id) && {
        let f = t[id].meta.context.filter;
        spec_matches_name(f, t[id].inst.name) || spec_matches_class(f, t[id].inst.class)
    }
}

/// The disk after deleting an instance's relevant entries, in list order:
/// each non-project entry still present and not excluded by the path
/// filter leaves with its whole subtree.
pub open spec fn spec_remove_relevant(
    vfs: Map<Seq<PathCompV>, FsEntryV>,
    rel: Seq<SourceEntryV>,
    filter: crate::filter::SyncbackFilterV,
) -> Map<Seq<PathCompV>, FsEntryV>
    decreases rel.len(),
{
    if rel.len() == 0 {
        vfs
    } else {
        let v1 = spec_remove_relevant(vfs, rel.drop_last(), filter);
        let e = rel.last();
        if !(e is Project) && v1.contains_key(entry_path(e)) && !spec_matches_path(
            filter,
            entry_path(e),
        ) {
            crate::vfs::spec_remove_subtree(v1, entry_path(e))
        } else {
            v1
        }
    }
}

/// The disk after collapsing a folder-backed parent whose last child was
/// removed, starting from the post-deletion map `v`: the parent's content
/// file moves out of its folder to the leaf location the first matching
/// child rule gives, its data sidecar follows through the first
/// instance-data rule, and the folder itself leaves with anything still
/// inside. `None` when the parent is not folder-backed, has no content
/// file entry, or no child rule matches it: the disk then stays at `v`.
pub open spec fn spec_collapse_map(v: Map<Seq<PathCompV>, FsEntryV>, pm: MetaV) -> Option<
    Map<Seq<PathCompV>, FsEntryV>,
> {
    match pm.source.kind {
        SourceKindV::Path(folp) => match crate::meta::spec_first_file(pm.source.relevant) {
            Some(fe) => match crate::meta::spec_child_rule(
                pm.context.sync_rules,
                entry_path(fe),
            ) {
                Some(rule) => {
                    let name = folp.last().stem;
                    let v2 = crate::vfs::spec_rename_map(
                        v,
                        entry_path(fe),
                        crate::meta::spec_rule_locate(rule, folp, name, false),
                    );
                    let v3 = match crate::meta::spec_first_data(pm.source.relevant) {
                        Some(de) => match crate::meta::spec_first_rule_of(
                            pm.context.sync_rules,
                            Middleware::InstanceData,
                        ) {
                            Some(dr) => crate::vfs::spec_rename_map(
                                v2,
                                entry_path(de),
                                crate::meta::spec_rule_locate(dr, folp, name, false),
                            ),
                            None => v2,
                        },
                        None => v2,
                    };
                    Some(
                        if v3.contains_key(folp) {
                            crate::vfs::spec_remove_subtree(v3, folp)
                        } else {
                            v3
                        },
                    )
                }
                None => None,
            },
            None => None,
        },
        _ => None,
    }
}

/// Remove an instance's disk artifacts: every relevant entry except the
/// owning project file is deleted (filtered entries skipped), and a parent
/// folder left holding only its own content file is collapsed back into a
/// single leaf file, the exact inverse of the leaf-to-folder promotion on
/// addition.
fn remove_non_project_instances(id: RefId, meta: &Meta, tree: &mut Tree, vfs: &mut Vfs) -> (r:
    Result<(), EngineError>)
    requires
        old(tree).wf(),
        old(vfs).wf(),
        meta_ok(*meta),
    ensures
        final(tree).wf(),
        final(vfs).wf(),
        // When no collapse can follow (the removed instance's parent does
        // not hold it as an only child), every unfiltered non-project
        // entry is gone from the disk.
        (!old(tree)@.contains_key(id) || !old(tree)@.contains_key(
            old(tree)@[id].inst.parent,
        ) || old(tree)@[old(tree)@[id].inst.parent].inst.children.len() != 1) && r is Ok
            ==> (forall|j: int| 0 <= j < meta.source.relevant@.len() && !((
        #[trigger] meta.source.relevant@[j])@ is Project) && !spec_matches_path(
            meta@.context.filter,
            entry_path(meta.source.relevant@[j]@),
        ) ==> !final(vfs)@.contains_key(entry_path(meta.source.relevant@[j]@))),
        // When no collapse can follow, the disk is exactly the entry
        // deletion fold.
        (!old(tree)@.contains_key(id) || !old(tree)@.contains_key(old(tree)@[id].inst.parent)
            || old(tree)@[old(tree)@[id].inst.parent].inst.children.len() != 1) && r is Ok
            ==> final(vfs)@ == spec_remove_relevant(
            old(vfs)@,
            meta@.source.relevant,
            meta@.context.filter,
        ),
        // When the removed instance was its parent's only child, the disk
        // is the deletion fold followed by the folder-to-leaf collapse of
        // the parent, exactly where the collapse spec names an outcome.
        (r is Ok && old(tree)@.contains_key(id) && old(tree)@.contains_key(
            old(tree)@[id].inst.parent,
        ) && old(tree)@[old(tree)@[id].inst.parent].inst.children.len() == 1) ==> ({
            let v1 = spec_remove_relevant(old(vfs)@, meta@.source.relevant, meta@.context.filter);
            match spec_collapse_map(v1, old(tree)@[old(tree)@[id].inst.parent].meta) {
                Some(m) => final(vfs)@ == m,
                None => final(vfs)@ == v1,
            }
        }),
{
    let filter = &meta.context.filter;
    proof {
        assert(meta@.source.relevant.take(0) =~= Seq::<SourceEntryV>::empty());
    }
    let mut i: usize = 0;
    while i < meta.source.relevant.len()
        invariant
            vfs.wf(),
            meta_ok(*meta),
            filter@ == meta@.context.filter,
            i <= meta.source.relevant@.len(),
            meta@.source.relevant == meta.source.relevant@.map_values(|e: SourceEntry| e@),
            vfs@ == spec_remove_relevant(
                old(vfs)@,
                meta@.source.relevant.take(i as int),
                meta@.context.filter,
            ),
            forall|j: int| 0 <= j < i && !((#[trigger] meta.source.relevant@[j])@ is Project)
                && !spec_matches_path(
                meta@.context.filter,
                entry_path(meta.source.relevant@[j]@),
            ) ==> !vfs@.contains_key(entry_path(meta.source.relevant@[j]@)),
        decreases meta.source.relevant@.len() - i,
    {
        let ghost vfs0 = vfs@;
        let entry = &meta.source.relevant[i];
        let skip = match entry {
            SourceEntry::Project(_) => true,
            _ => false,
        };
        let p = entry.path();
        let present = vfs.path_exists(p);
        let matched = filter.matches_path(p);
        if !skip && present && !matched {
            let _ = vfs.remove(p);
            proof {
                assert(forall|k: Seq<PathCompV>| vfs@.contains_key(k)
                    ==> vfs0.contains_key(k));
                assert(!vfs@.contains_key(p@));
            }
        }
        proof {
            assert(p@ == entry_path(meta.source.relevant@[i as int]@));
            assert(matched == spec_matches_path(meta@.context.filter, p@));
            assert(forall|k: Seq<PathCompV>| vfs@.contains_key(k) ==> vfs0.contains_key(k));
            let rel = meta@.source.relevant;
            assert(rel.take(i as int + 1).drop_last() =~= rel.take(i as int));
            assert(rel.take(i as int + 1).last() == rel[i as int]);
            assert(rel[i as int] == meta.source.relevant@[i as int]@);
            assert(skip == (rel[i as int] is Project));
            assert(vfs@ == spec_remove_relevant(
                old(vfs)@,
                rel.take(i as int + 1),
                meta@.context.filter,
            ));
            assert forall|j: int| 0 <= j < i + 1 && !((#[trigger] meta.source.relevant@[j])@
                is Project) && !spec_matches_path(
                meta@.context.filter,
                entry_path(meta.source.relevant@[j]@),
            ) implies !vfs@.contains_key(entry_path(meta.source.relevant@[j]@)) by {
                if j < i {
                    assert(!vfs0.contains_key(entry_path(meta.source.relevant@[j]@)));
                } else {
                    if skip {
                        assert(meta.source.relevant@[i as int]@ is Project);
                    } else {
                        assert(!matched);
                        assert(!vfs@.contains_key(p@));
                    }
                }
            }
        }
        i += 1;
    }
    proof {
        assert(meta@.source.relevant.take(meta@.source.relevant.len() as int)
            =~= meta@.source.relevant);
    }
    let ghost post_delete = vfs@;
    // Transform the parent from folder back to file when the removed
    // instance was its only child.
    let parent_id = match tree.get_instance(id) {
        Some(inst) => inst.parent,
        None => {
            return Ok(());
        }
    };
    let child_count = match tree.get_instance(parent_id) {
        Some(p) => p.children.len(),
        None => {
            return Ok(());
        }
    };
    if child_count != 1 {
        return Ok(());
    }
    let pnode = tree.take_node(parent_id);
    let (pinst, mut pmeta) = match pnode {
        Some(n) => {
            proof {
                assert(tree_node_ok(n));
            }
            let TreeNode { inst, meta } = n;
            (inst, meta)
        }
        None => {
            proof {
                assert(false);
            }
            return Ok(());
        }
    };
    proof {
        assert(pinst.properties.wf());
        assert(meta_ok(pmeta));
    }
    let ghost pm = pmeta@;
    proof {
        assert(parent_id == old(tree)@[id].inst.parent);
        assert(pm == old(tree)@[parent_id].meta);
    }
    let folder_path: Option<FsPath> = match &pmeta.source.kind {
        SourceKind::Path(p) => Some(p.clone_path()),
        _ => None,
    };
    match folder_path {
        Some(folder_path) => {
            let name = folder_path.file_name().stem.clone();
            let file_in: Option<FsPath> = match pmeta.source.get_file() {
                Some(e) => {
                    proof {
                        crate::meta::lemma_first_data_paths(
                            pmeta.source@.relevant,
                            pmeta.source.relevant@,
                        );
                    }
                    Some(e.path().clone_path())
                }
                None => None,
            };
            match file_in {
                Some(file_in) => {
                    let new_path: Option<FsPath> = match pmeta.context.first_rule_matching_child(
                        &file_in,
                    ) {
                        Some(rule) => Some(rule.locate(&folder_path, &name, false)),
                        None => None,
                    };
                    match new_path {
                        Some(new_path) => {
                            proof {
                                assert(crate::meta::spec_first_file(pm.source.relevant)
                                    matches Some(fe) && file_in@ == entry_path(fe));
                                assert(crate::meta::spec_child_rule(
                                    pm.context.sync_rules,
                                    file_in@,
                                ) is Some);
                                assert(new_path@ == crate::meta::spec_rule_locate(
                                    crate::meta::spec_child_rule(
                                        pm.context.sync_rules,
                                        file_in@,
                                    )->Some_0,
                                    folder_path@,
                                    folder_path@.last().stem,
                                    false,
                                ));
                            }
                            match vfs.rename(&file_in, &new_path) {
                                Ok(()) => {}
                                Err(e) => {
                                    tree.set_node(
                                        parent_id,
                                        TreeNode { inst: pinst, meta: pmeta },
                                    );
                                    return Err(EngineError::Fs(e));
                                }
                            }
                            let ghost after_file = vfs@;
                            let mut source = Source::file(&new_path);
                            proof {
                                assert(new_path@.len() > 0);
                                assert(after_file == crate::vfs::spec_rename_map(
                                    post_delete,
                                    file_in@,
                                    new_path@,
                                ));
                            }
                            let data_in: Option<FsPath> = match pmeta.source.get_data() {
                                Some(e) => {
                                    proof {
                                        crate::meta::lemma_first_data_paths(
                                            pmeta.source@.relevant,
                                            pmeta.source.relevant@,
                                        );
                                    }
                                    Some(e.path().clone_path())
                                }
                                None => None,
                            };
                            match data_in {
                                Some(data_in) => {
                                    let new_data = pmeta.context.locate_by_rule(
                                        Middleware::InstanceData,
                                        &folder_path,
                                        &name,
                                        false,
                                    );
                                    match new_data {
                                        Some(new_data) => {
                                            match vfs.rename(&data_in, &new_data) {
                                                Ok(()) => {
                                                    source.add_data(&new_data);
                                                    proof {
                                                        assert(new_data@.len() > 0);
                                                    }
                                                }
                                                Err(e) => {
                                                    tree.set_node(
                                                        parent_id,
                                                        TreeNode { inst: pinst, meta: pmeta },
                                                    );
                                                    return Err(EngineError::Fs(e));
                                                }
                                            }
                                        }
                                        None => {}
                                    }
                                }
                                None => {}
                            }
                            proof {
                                let v2 = crate::vfs::spec_rename_map(
                                    post_delete,
                                    file_in@,
                                    new_path@,
                                );
                                let v3 = match crate::meta::spec_first_data(pm.source.relevant) {
                                    Some(de) => match crate::meta::spec_first_rule_of(
                                        pm.context.sync_rules,
                                        Middleware::InstanceData,
                                    ) {
                                        Some(dr) => crate::vfs::spec_rename_map(
                                            v2,
                                            entry_path(de),
                                            crate::meta::spec_rule_locate(
                                                dr,
                                                folder_path@,
                                                folder_path@.last().stem,
                                                false,
                                            ),
                                        ),
                                        None => v2,
                                    },
                                    None => v2,
                                };
                                assert(vfs@ == v3);
                            }
                            let ghost pre_fold = vfs@;
                            let _ = vfs.remove(&folder_path);
                            proof {
                                assert(vfs@ == (if pre_fold.contains_key(folder_path@) {
                                    crate::vfs::spec_remove_subtree(pre_fold, folder_path@)
                                } else {
                                    pre_fold
                                }));
                                assert(spec_collapse_map(post_delete, pm) == Some(vfs@));
                            }
                            pmeta.set_source(source);
                            proof {
                                assert(source_paths_ok(pmeta.source));
                            }
                        }
                        None => {}
                    }
                }
                None => {}
            }
        }
        None => {}
    }
    tree.set_node(parent_id, TreeNode { inst: pinst, meta: pmeta });
    Ok(())
}

/// Remove an instance from the tree and the disk.
///
/// A missing target or a filtered instance is soft: the call succeeds
/// having done nothing. Every relevant disk entry is deleted; a
/// project-backed instance also leaves its document's node map, and a
/// parent folder left childless is collapsed back to a leaf.
///
/// The collapse keys on the parent: when the removed instance was the
/// parent's only remaining child, the parent's own content file (and
/// sidecar) move back out of the folder and the folder is deleted — the
/// exact inverse of the leaf-to-folder promotion an addition performs.
/// The transform never relocates a sibling's file; it restores the
/// parent's original leaf layout.
pub fn apply_removal(id: RefId, tree: &mut Tree, vfs: &mut Vfs) -> (r: Result<(), EngineError>)
    requires
        old(tree).wf(),
        old(vfs).wf(),
        old(tree)@.contains_key(id) && !spec_removal_filtered(old(tree)@, id) ==> !(old(
            tree,
        )@[id].meta.source.kind is Unbacked),
    ensures
        final(tree).wf(),
        final(vfs).wf(),
        !old(tree)@.contains_key(id) ==> r == Ok::<(), EngineError>(())
            && final(tree)@ == old(tree)@ && final(vfs)@ == old(vfs)@
            && final(vfs).log_view() == old(vfs).log_view(),
        spec_removal_filtered(old(tree)@, id) ==> r == Ok::<(), EngineError>(())
            && final(tree)@ == old(tree)@ && final(vfs)@ == old(vfs)@
            && final(vfs).log_view() == old(vfs).log_view(),
        r == Ok::<(), EngineError>(()) && old(tree)@.contains_key(id)
            && !spec_removal_filtered(old(tree)@, id) ==> !final(tree)@.contains_key(id),
        // When no collapse can follow, every unfiltered non-project entry
        // of the removed instance is gone from the disk.
        (r is Ok && old(tree)@.contains_key(id) && !spec_removal_filtered(old(tree)@, id)
            && (old(tree)@[id].meta.source.kind is Path) && (!old(tree)@.contains_key(
            old(tree)@[id].inst.parent,
        ) || old(tree)@[old(tree)@[id].inst.parent].inst.children.len() != 1)) ==> (forall|
            j: int
        |
            0 <= j < old(tree)@[id].meta.source.relevant.len() && !((#[trigger] old(tree)@[
                id
            ].meta.source.relevant[j]) is Project) && !spec_matches_path(
                old(tree)@[id].meta.context.filter,
                entry_path(old(tree)@[id].meta.source.relevant[j]),
            ) ==> !final(vfs)@.contains_key(entry_path(old(tree)@[id].meta.source.relevant[j]))),
        // Removing a project-backed instance without a custom path rewrites
        // the document exactly: its node leaves the parent's child map and
        // the document is saved, the disk otherwise untouched.
        (r is Ok && old(tree)@.contains_key(id) && !spec_removal_filtered(old(tree)@, id)
            && (old(tree)@[id].meta.source.kind is Project)
            && old(tree)@[id].meta.source.kind->Project_0.node.path is None
            && old(vfs)@.contains_key(old(tree)@[id].meta.source.kind->Project_0.path)
            && (old(vfs)@[old(tree)@[id].meta.source.kind->Project_0.path] matches
            FsEntryV::File(FileBodyV::Project(_)))) ==> ({
            let ps = old(tree)@[id].meta.source.kind->Project_0;
            let stored = old(vfs)@[ps.path]->File_0->Project_0;
            (crate::project::spec_node_remove_v(
                stored.node,
                ps.node_path.drop_last(),
                ps.name,
            ) matches Some(pair) && final(vfs)@ == old(vfs)@.insert(
                ps.path,
                FsEntryV::File(
                    FileBodyV::Project(
                        crate::project::ProjectDocV { node: pair.0, ..stored },
                    ),
                ),
            ))
        }),
        // Removing a path-backed instance that was not its parent's only
        // child leaves the disk at exactly the relevant-entry deletion
        // fold.
        (r is Ok && old(tree)@.contains_key(id) && !spec_removal_filtered(old(tree)@, id)
            && (old(tree)@[id].meta.source.kind is Path) && (!old(tree)@.contains_key(
            old(tree)@[id].inst.parent,
        ) || old(tree)@[old(tree)@[id].inst.parent].inst.children.len() != 1)) ==> final(vfs)@
            == spec_remove_relevant(
            old(vfs)@,
            old(tree)@[id].meta.source.relevant,
            old(tree)@[id].meta.context.filter,
        ),
        // Removing a path-backed only child also collapses its parent
        // from folder back to leaf: the disk is the deletion fold
        // followed by the collapse, exactly where the collapse spec names
        // an outcome, and the fold alone where it names none.
        (r is Ok && old(tree)@.contains_key(id) && !spec_removal_filtered(old(tree)@, id)
            && (old(tree)@[id].meta.source.kind is Path) && old(tree)@.contains_key(
            old(tree)@[id].inst.parent,
        ) && old(tree)@[old(tree)@[id].inst.parent].inst.children.len() == 1) ==> ({
            let v1 = spec_remove_relevant(
                old(vfs)@,
                old(tree)@[id].meta.source.relevant,
                old(tree)@[id].meta.context.filter,
            );
            match spec_collapse_map(v1, old(tree)@[old(tree)@[id].inst.parent].meta) {
                Some(m) => final(vfs)@ == m,
                None => final(vfs)@ == v1,
            }
        }),
{
    let mut excluded = false;
    let mut found = false;
    match tree.get_instance(id) {
        Some(inst) => {
            found = true;
            match tree.get_meta(id) {
                Some(m) => {
                    let f = &m.context.filter;
                    if f.matches_name(&inst.name) || f.matches_class(&inst.class) {
                        excluded = true;
                    }
                }
                None => {
                    proof {
                        assert(false);
                    }
                }
            }
        }
        None => {}
    }
    if !found {
        return Ok(());
    }
    if excluded {
        return Ok(());
    }
    let meta = match tree.get_meta(id) {
        Some(m) => m.clone_meta(),
        None => {
            proof {
                assert(false);
            }
            return Ok(());
        }
    };
    proof {
        assert(meta_ok(meta));
    }
    let is_path = match &meta.source.kind {
        SourceKind::Path(_) => true,
        _ => false,
    };
    if is_path {
        match remove_non_project_instances(id, &meta, tree, vfs) {
            Ok(()) => {}
            Err(e) => {
                return Err(e);
            }
        }
    } else {
        let (ps_path, ps_name, ps_node_path, ps_has_custom) = match &meta.source.kind {
            SourceKind::Project(ps) => (
                ps.path.clone_path(),
                ps.name.clone(),
                ps.node_path.clone_node_path(),
                ps.node.path.is_some(),
            ),
            _ => {
                proof {
                    assert(false);
                }
                return Ok(());
            }
        };
        let mut doc = match vfs.read(&ps_path) {
            Some(FileBody::Project(d)) => d.clone(),
            _ => {
                return Err(EngineError::BadProjectFile);
            }
        };
        if ps_node_path.len() == 0 {
            return Err(EngineError::MissingProjectNode);
        }
        let parent_path = ps_node_path.parent();
        let removed = crate::project::remove_node_at(&mut doc.node, &parent_path.names, 0, &ps_name);
        match removed {
            Some(_) => {}
            None => {
                return Err(EngineError::MissingProjectNode);
            }
        }
        if ps_has_custom {
            match remove_non_project_instances(id, &meta, tree, vfs) {
                Ok(()) => {}
                Err(e) => {
                    return Err(e);
                }
            }
        }
        vfs.write_file(&ps_path, FileBody::Project(doc));
        proof {
            if !ps_has_custom && old(vfs)@.contains_key(ps_path@) && (old(vfs)@[ps_path@]
                matches FsEntryV::File(FileBodyV::Project(_))) {
                let stored = old(vfs)@[ps_path@]->File_0->Project_0;
                assert(meta@ == old(tree)@[id].meta);
                assert(ps_node_path@ == old(tree)@[id].meta.source.kind->Project_0.node_path);
                assert(ps_name@ == old(tree)@[id].meta.source.kind->Project_0.name);
                assert(crate::alist::strings_view(parent_path.names@) == ps_node_path@
                    .drop_last());
                assert(crate::alist::strings_view(parent_path.names@).skip(0)
                    =~= crate::alist::strings_view(parent_path.names@));
                let pair = crate::project::spec_node_remove_v(
                    stored.node,
                    old(tree)@[id].meta.source.kind->Project_0.node_path.drop_last(),
                    old(tree)@[id].meta.source.kind->Project_0.name,
                )->Some_0;
                assert(doc@ =~= (crate::project::ProjectDocV { node: pair.0, ..stored }));
                assert(vfs@ =~= old(vfs)@.insert(
                    ps_path@,
                    FsEntryV::File(
                        FileBodyV::Project(
                            crate::project::ProjectDocV { node: pair.0, ..stored },
                        ),
                    ),
                ));
            }
        }
    }
    tree.remove_instance(id);
    Ok(())
}


/// Everything a successful leaf write settles: the disk, the relevant
/// entries, the (possibly disambiguated) name, the recorded original name,
/// and the path the source points at.
pub ghost struct LeafOutcome {
    pub vfs: Map<Seq<PathCompV>, FsEntryV>,
    pub relevant: Seq<SourceEntryV>,
    pub name: Seq<char>,
    pub original_name: Option<Seq<char>>,
    pub source_path: Seq<PathCompV>,
}

/// The complete effect of writing one childless instance whose class has a
/// middleware, below the base path `base` (the parent directory joined with
/// the instance name): the rule locates the file, collision verification
/// settles its final path and name, the middleware content lands there, and
/// the sidecar is written or withheld. `None` when a rule is missing, the
/// candidates all collide, or the file path is filtered — the cases the
/// engine skips or fails.
pub open spec fn spec_write_leaf(
    m: Map<Seq<PathCompV>, FsEntryV>,
    ctx: crate::meta::ContextV,
    class: Seq<char>,
    props: Map<Seq<char>, crate::value::TypedValueV>,
    keep_unknowns: bool,
    base: Seq<PathCompV>,
    name: Seq<char>,
    orig0: Option<Seq<char>>,
) -> Option<LeafOutcome> {
    match crate::meta::spec_middleware_from_class(class) {
        None => None,
        Some(mw) => match crate::meta::spec_first_rule_of(ctx.sync_rules, mw) {
            None => None,
            Some(rule) => match crate::meta::spec_first_rule_of(
                ctx.sync_rules,
                Middleware::InstanceData,
            ) {
                None => None,
                Some(drule) => {
                    let located = crate::meta::spec_rule_locate(rule, base, name, false);
                    match spec_verify_path(m, located, name, orig0) {
                        None => None,
                        Some(v) => if spec_matches_path(ctx.filter, v.path) {
                            None
                        } else {
                            let m1 = m.insert(
                                v.path,
                                FsEntryV::File(
                                    FileBodyV::Content(spec_content_file(class, props)),
                                ),
                            );
                            let dp = crate::meta::spec_rule_locate(drule, base, v.name, false);
                            let d = crate::datafile::spec_writable_data(
                                ctx.reflection,
                                true,
                                class,
                                props.remove("Source"@),
                                keep_unknowns,
                                v.original_name,
                            );
                            if spec_matches_path(ctx.filter, dp) {
                                Some(
                                    LeafOutcome {
                                        vfs: m1,
                                        relevant: seq![SourceEntryV::File(v.path)],
                                        name: v.name,
                                        original_name: v.original_name,
                                        source_path: v.path,
                                    },
                                )
                            } else {
                                Some(
                                    LeafOutcome {
                                        vfs: crate::datafile::spec_write_data_entries(m1, dp, d),
                                        relevant: if crate::datafile::spec_data_is_default(d) {
                                            seq![SourceEntryV::File(v.path)]
                                        } else {
                                            seq![
                                                SourceEntryV::File(v.path),
                                                SourceEntryV::Data(dp),
                                            ]
                                        },
                                        name: v.name,
                                        original_name: v.original_name,
                                        source_path: v.path,
                                    },
                                )
                            }
                        },
                    }
                },
            },
        },
    }
}

/// Write one instance's own files: its main content through the middleware
/// its class resolves to (or a plain directory when none does), and its
/// sidecar. `Ok(None)` means a filter or an unresolvable collision skipped
/// the instance. On success the returned metadata's source names exactly
/// artifacts that now exist on disk, provided the sidecar rule owns its
/// suffix.
#[verifier::rlimit(60)]
fn write_instance(
    has_children: bool,
    path: &mut FsPath,
    snapshot: &mut Snapshot,
    parent_meta: &Meta,
    vfs: &mut Vfs,
) -> (r: Result<Option<Meta>, EngineError>)
    requires
        old(path)@.len() > 0,
        old(vfs).wf(),
        old(snapshot).properties.wf(),
        parent_meta.context.wf(),
    ensures
        final(vfs).wf(),
        final(path)@.len() > 0,
        final(snapshot).properties == old(snapshot).properties,
        final(snapshot).class == old(snapshot).class,
        final(snapshot).children == old(snapshot).children,
        final(snapshot).id == old(snapshot).id,
        final(snapshot).meta == old(snapshot).meta,
        match r {
            Ok(Some(m)) => meta_ok(m) && (crate::meta::spec_data_rule_distinct(
                parent_meta@.context.sync_rules,
            ) ==> source_synced(m.source@, final(vfs)@) && (crate::meta::spec_middleware_from_class(
                old(snapshot).class@,
            ) is Some ==> (crate::meta::spec_first_file(m.source@.relevant) matches Some(e)
                && final(vfs)@.contains_key(entry_path(e)) && final(vfs)@[entry_path(e)]
                == FsEntryV::File(
                FileBodyV::Content(
                    spec_content_file(old(snapshot).class@, old(snapshot).properties@),
                ),
            )))),
            _ => true,
        },
        // The complete leaf outcome: whenever the leaf-write spec yields an
        // outcome, the call succeeds with exactly that disk, that relevant
        // set, that source path and that (possibly disambiguated) name.
        !has_children && crate::meta::spec_data_rule_distinct(parent_meta@.context.sync_rules)
            ==> (match spec_write_leaf(
            old(vfs)@,
            parent_meta@.context,
            old(snapshot).class@,
            old(snapshot).properties@,
            old(snapshot).meta.keep_unknowns,
            old(path)@,
            old(snapshot).name@,
            old(snapshot).meta@.original_name,
        ) {
            Some(o) => (r matches Ok(m2) && m2 matches Some(m) && m.source@.kind
                == crate::meta::SourceKindV::Path(o.source_path) && m.source@.relevant
                == o.relevant && m@.original_name == o.original_name && m@.keep_unknowns
                == old(snapshot).meta.keep_unknowns && final(vfs)@ == o.vfs
                && final(snapshot).name@ == o.name),
            None => true,
        }),
{
    let ghost rules = parent_meta@.context.sync_rules;
    let ghost distinct = crate::meta::spec_data_rule_distinct(rules);
    let mut meta = snapshot.meta.clone_meta().with_context(&parent_meta.context);
    let filter = parent_meta.context.filter.clone_filter();
    let properties = snapshot.properties.deep_clone();
    let mw_opt = Middleware::from_class(&snapshot.class);
    match mw_opt {
        Some(mw) => {
            proof {
                assert(!(mw is InstanceData));
            }
            let located = parent_meta.context.locate_by_rule(
                mw,
                path,
                &snapshot.name,
                has_children,
            );
            let mut file_path = match located {
                Some(p) => p,
                None => {
                    return Err(EngineError::NoRule);
                }
            };
            proof {
                assert(file_path@.len() > 0);
                crate::meta::lemma_first_rule_member(rules, mw);
            }
            let ghost rs = crate::meta::spec_first_rule_of(rules, mw)->Some_0;
            if has_children {
                if filter.matches_path(path) {
                    return Ok(None);
                }
                if !verify_path(path, &mut snapshot.name, &mut meta, vfs) {
                    return Ok(None);
                }
                vfs.write_dir(path);
                meta.set_source(Source::child_file(path, &file_path));
            } else {
                if !verify_path(&mut file_path, &mut snapshot.name, &mut meta, vfs) {
                    return Ok(None);
                }
                meta.set_source(Source::file(&file_path));
            }
            proof {
                assert(source_paths_ok(meta.source));
                // The content file's name carries the content rule's suffix
                // in every case, and a promoted folder is strictly shorter.
                assert(file_path@.last().suffix == rs.suffix);
                assert(has_children ==> file_path@.len() == path@.len() + 1);
            }
            if filter.matches_path(&file_path) {
                return Ok(None);
            }
            let remaining = middleware_write(mw, &snapshot.class, properties, &file_path, vfs);
            proof {
                if has_children {
                    assert(file_path@ != path@);
                    assert(vfs@[path@] is Dir);
                }
                assert(vfs@[file_path@] is File);
            }
            let data_located = parent_meta.context.locate_by_rule(
                Middleware::InstanceData,
                path,
                &snapshot.name,
                has_children,
            );
            let data_path = match data_located {
                Some(p) => p,
                None => {
                    return Err(EngineError::NoRule);
                }
            };
            proof {
                crate::meta::lemma_first_rule_member(rules, Middleware::InstanceData);
                if distinct {
                    assert(data_path@.last().suffix != rs.suffix);
                    assert(data_path@ != file_path@);
                    assert(has_children ==> data_path@ != path@);
                }
            }
            if filter.matches_path(&data_path) {
                proof {
                    if distinct {
                        assert(source_synced(meta.source@, vfs@));
                        reveal_with_fuel(crate::meta::spec_first_file, 4);
                        if has_children {
                            assert(meta.source@.relevant =~= seq![
                                SourceEntryV::Folder(path@),
                                SourceEntryV::File(file_path@),
                            ]);
                        } else {
                            assert(meta.source@.relevant =~= seq![
                                SourceEntryV::File(file_path@),
                            ]);
                        }
                        assert(crate::meta::spec_first_file(meta.source@.relevant)
                            == Some(SourceEntryV::File(file_path@)));
                        assert(vfs@[file_path@] == FsEntryV::File(
                            FileBodyV::Content(
                                spec_content_file(old(snapshot).class@, old(snapshot).properties@),
                            ),
                        ));
                    }
                }
            } else {
                let ghost pre_data = vfs@;
                let written = write_data(true, &snapshot.class, remaining, &data_path, &meta, vfs);
                proof {
                    crate::meta::lemma_drop_data_paths(meta.source@.relevant);
                }
                match &written {
                    Some(p) => {
                        meta.source.set_data(Some(p));
                        proof {
                            if distinct {
                                reveal_with_fuel(crate::meta::spec_drop_data, 4);
                                if has_children {
                                    assert(meta.source@.relevant =~= seq![
                                        SourceEntryV::Folder(path@),
                                        SourceEntryV::File(file_path@),
                                        SourceEntryV::Data(data_path@),
                                    ]);
                                } else {
                                    assert(meta.source@.relevant =~= seq![
                                        SourceEntryV::File(file_path@),
                                        SourceEntryV::Data(data_path@),
                                    ]);
                                }
                                assert(vfs@[data_path@] is File);
                                assert(vfs@[file_path@] is File);
                                if has_children {
                                    assert(vfs@[path@] is Dir);
                                }
                                assert(source_synced(meta.source@, vfs@));
                                reveal_with_fuel(crate::meta::spec_first_file, 4);
                                assert(crate::meta::spec_first_file(meta.source@.relevant)
                                    == Some(SourceEntryV::File(file_path@)));
                                assert(vfs@[file_path@] == FsEntryV::File(
                                    FileBodyV::Content(
                                        spec_content_file(
                                            old(snapshot).class@,
                                            old(snapshot).properties@,
                                        ),
                                    ),
                                ));
                            }
                        }
                    }
                    None => {
                        meta.source.set_data(None);
                        proof {
                            if distinct {
                                reveal_with_fuel(crate::meta::spec_drop_data, 4);
                                if has_children {
                                    assert(meta.source@.relevant =~= seq![
                                        SourceEntryV::Folder(path@),
                                        SourceEntryV::File(file_path@),
                                    ]);
                                } else {
                                    assert(meta.source@.relevant =~= seq![
                                        SourceEntryV::File(file_path@),
                                    ]);
                                }
                                assert(!crate::vfs::path_under_eq(file_path@, data_path@));
                                assert(vfs@[file_path@] is File);
                                if has_children {
                                    assert(!crate::vfs::path_under_eq(path@, data_path@));
                                    assert(vfs@[path@] is Dir);
                                }
                                assert(source_synced(meta.source@, vfs@));
                                reveal_with_fuel(crate::meta::spec_first_file, 4);
                                assert(crate::meta::spec_first_file(meta.source@.relevant)
                                    == Some(SourceEntryV::File(file_path@)));
                                assert(vfs@[file_path@] == FsEntryV::File(
                                    FileBodyV::Content(
                                        spec_content_file(
                                            old(snapshot).class@,
                                            old(snapshot).properties@,
                                        ),
                                    ),
                                ));
                            }
                        }
                    }
                }
                proof {
                    assert(forall|i: int| 0 <= i < meta.source.relevant@.len() ==> entry_path(
                        (#[trigger] meta.source.relevant@[i])@,
                    ).len() > 0) by {
                        assert(forall|i: int| 0 <= i < meta.source@.relevant.len()
                            ==> entry_path(#[trigger] meta.source@.relevant[i]).len() > 0);
                    }
                    assert(source_paths_ok(meta.source));
                }
            }
        }
        None => {
            if filter.matches_path(path) {
                return Ok(None);
            }
            if !verify_path(path, &mut snapshot.name, &mut meta, vfs) {
                return Ok(None);
            }
            vfs.write_dir(path);
            meta.set_source(Source::directory(path));
            proof {
                assert(source_paths_ok(meta.source));
                assert(vfs@[path@] is Dir);
            }
            let data_located = parent_meta.context.locate_by_rule(
                Middleware::InstanceData,
                path,
                &snapshot.name,
                true,
            );
            let data_path = match data_located {
                Some(p) => p,
                None => {
                    return Err(EngineError::NoRule);
                }
            };
            proof {
                assert(data_path@.len() == path@.len() + 1);
                assert(data_path@ != path@);
            }
            if filter.matches_path(&data_path) {
                proof {
                    assert(source_synced(meta.source@, vfs@));
                }
            } else {
                let written = write_data(
                    false,
                    &snapshot.class,
                    properties,
                    &data_path,
                    &meta,
                    vfs,
                );
                proof {
                    crate::meta::lemma_drop_data_paths(meta.source@.relevant);
                }
                match &written {
                    Some(p) => {
                        meta.source.set_data(Some(p));
                        proof {
                            reveal_with_fuel(crate::meta::spec_drop_data, 3);
                            assert(meta.source@.relevant =~= seq![
                                SourceEntryV::Folder(path@),
                                SourceEntryV::Data(data_path@),
                            ]);
                            assert(vfs@[data_path@] is File);
                            assert(vfs@[path@] is Dir);
                            assert(source_synced(meta.source@, vfs@));
                        }
                    }
                    None => {
                        meta.source.set_data(None);
                        proof {
                            reveal_with_fuel(crate::meta::spec_drop_data, 3);
                            assert(meta.source@.relevant =~= seq![SourceEntryV::Folder(path@)]);
                            assert(!crate::vfs::path_under_eq(path@, data_path@));
                            assert(vfs@[path@] is Dir);
                            assert(source_synced(meta.source@, vfs@));
                        }
                    }
                }
                proof {
                    assert(forall|i: int| 0 <= i < meta.source.relevant@.len() ==> entry_path(
                        (#[trigger] meta.source.relevant@[i])@,
                    ).len() > 0) by {
                        assert(forall|i: int| 0 <= i < meta.source@.relevant.len()
                            ==> entry_path(#[trigger] meta.source@.relevant[i]).len() > 0);
                    }
                    assert(source_paths_ok(meta.source));
                }
            }
        }
    }
    Ok(Some(meta))
}

/// The complete effect of promoting a leaf-file parent to a folder when it
/// gains its first child: the owning content rule names the folder after
/// the leaf's stem, collision verification settles the folder path and may
/// rename the incoming child with it, the folder is created, the content
/// file moves to the rule's in-container location, and the data sidecar
/// follows through the first instance-data rule. Returns the promoted
/// disk, the folder path and the (possibly renamed) child name; `None`
/// when no rule owns the leaf, every candidate collides, a data entry has
/// no rule, or the recorded data file is not on disk — the cases the
/// engine fails or skips.
pub open spec fn spec_promote(
    v: Map<Seq<PathCompV>, FsEntryV>,
    pm: MetaV,
    pp: Seq<PathCompV>,
    child_name: Seq<char>,
) -> Option<(Map<Seq<PathCompV>, FsEntryV>, Seq<PathCompV>, Seq<char>)>
    recommends
        pp.len() > 0,
{
    match crate::meta::spec_content_rule(pm.context.sync_rules, pp) {
        None => None,
        Some(rule) => {
            let pname = pp.last().stem;
            let folp0 = pp.drop_last().push(
                PathCompV { stem: pname, suffix: Seq::empty() },
            );
            match spec_verify_path(v, folp0, child_name, pm.original_name) {
                None => None,
                Some(vp) => {
                    let folp = vp.path;
                    let filep = folp.push(
                        PathCompV { stem: rule.child_stem, suffix: rule.suffix },
                    );
                    let v2 = crate::vfs::spec_rename_map(v.insert(folp, FsEntryV::Dir), pp, filep);
                    match crate::meta::spec_first_data(pm.source.relevant) {
                        Some(de) => match crate::meta::spec_first_rule_of(
                            pm.context.sync_rules,
                            Middleware::InstanceData,
                        ) {
                            Some(dr) => if v2.contains_key(entry_path(de)) {
                                Some(
                                    (
                                        crate::vfs::spec_rename_map(
                                            v2,
                                            entry_path(de),
                                            folp.push(
                                                PathCompV {
                                                    stem: dr.child_stem,
                                                    suffix: dr.suffix,
                                                },
                                            ),
                                        ),
                                        folp,
                                        vp.name,
                                    ),
                                )
                            } else {
                                None
                            },
                            None => None,
                        },
                        None => Some((v2, folp, vp.name)),
                    }
                },
            }
        },
    }
}

/// Realize a snapshot subtree below a path-backed parent: the parent is
/// promoted from file to folder when it gains its first child, the new
/// instance's files are written collision-safely, and children recurse
/// below it. Returns the parent's (possibly promoted) source.
fn add_non_project_instances(
    parent_id: RefId,
    parent_path: &FsPath,
    snapshot: Snapshot,
    parent_meta: &mut Meta,
    tree: &mut Tree,
    vfs: &mut Vfs,
) -> (r: Result<Source, EngineError>)
    requires
        parent_path@.len() > 0,
        old(tree).wf(),
        old(vfs).wf(),
        snap_wf(snapshot),
        meta_ok(*old(parent_meta)),
    ensures
        final(tree).wf(),
        final(vfs).wf(),
        meta_ok(*final(parent_meta)),
        forall|k: RefId| old(tree)@.contains_key(k) ==> final(tree)@.contains_key(k),
        match r {
            Ok(src) => source_paths_ok(src),
            Err(_) => true,
        },
        snapshot.children@.len() == 0 && crate::meta::spec_data_rule_distinct(
            old(parent_meta)@.context.sync_rules,
        ) && !old(tree)@.contains_key(snapshot.id) && final(tree)@.contains_key(snapshot.id)
            ==> source_synced(final(tree)@[snapshot.id].meta.source, final(vfs)@)
            && (crate::meta::spec_middleware_from_class(snapshot.class@) is Some ==> (
            crate::meta::spec_first_file(
                final(tree)@[snapshot.id].meta.source.relevant,
            ) matches Some(e) && final(vfs)@.contains_key(entry_path(e)) && final(vfs)@[
                entry_path(e)
            ] == FsEntryV::File(
                FileBodyV::Content(
                    spec_content_file(snapshot.class@, snapshot.properties@),
                ),
            ))),
        // The unconditional leaf promise: below a directory parent, when the
        // leaf-write spec yields an outcome, the instance is inserted with
        // exactly that name, source and relevant set, and the disk is
        // exactly the outcome's.
        (snapshot.children@.len() == 0 && crate::meta::spec_data_rule_distinct(
            old(parent_meta)@.context.sync_rules,
        ) && snapshot.id != parent_id && snapshot.name@.len() != 0 && !(old(vfs)@.contains_key(
            parent_path@,
        ) && old(vfs)@[parent_path@] is File)) ==> (match spec_write_leaf(
            old(vfs)@,
            old(parent_meta)@.context,
            snapshot.class@,
            snapshot.properties@,
            snapshot.meta.keep_unknowns,
            parent_path@.push(
                crate::path::PathCompV { stem: snapshot.name@, suffix: Seq::empty() },
            ),
            snapshot.name@,
            snapshot.meta@.original_name,
        ) {
            Some(o) => r is Ok && final(vfs)@ == o.vfs && final(tree)@.contains_key(snapshot.id)
                && final(tree)@[snapshot.id].inst.name == o.name && final(tree)@[snapshot.id]
                .inst.class == snapshot.class@ && final(tree)@[snapshot.id].inst.properties
                == snapshot.properties@ && final(tree)@[snapshot.id].meta.source.kind
                == crate::meta::SourceKindV::Path(o.source_path) && final(tree)@[snapshot.id]
                .meta.source.relevant == o.relevant,
            None => true,
        }),
        // The promotion promise: below a leaf-file parent, when the
        // promotion spec and then the leaf-write spec over the promoted
        // disk both yield an outcome, the parent is promoted and the
        // instance inserted with exactly that name, source, relevant set
        // and disk.
        (snapshot.children@.len() == 0 && crate::meta::spec_data_rule_distinct(
            old(parent_meta)@.context.sync_rules,
        ) && snapshot.id != parent_id && snapshot.name@.len() != 0 && old(vfs)@.contains_key(
            parent_path@,
        ) && old(vfs)@[parent_path@] is File) ==> (match spec_promote(
            old(vfs)@,
            old(parent_meta)@,
            parent_path@,
            snapshot.name@,
        ) {
            Some(t) => match spec_write_leaf(
                t.0,
                old(parent_meta)@.context,
                snapshot.class@,
                snapshot.properties@,
                snapshot.meta.keep_unknowns,
                t.1.push(crate::path::PathCompV { stem: t.2, suffix: Seq::empty() }),
                t.2,
                snapshot.meta@.original_name,
            ) {
                Some(o) => r is Ok && final(vfs)@ == o.vfs && final(tree)@.contains_key(
                    snapshot.id,
                ) && final(tree)@[snapshot.id].inst.name == o.name && final(tree)@[snapshot.id]
                    .inst.class == snapshot.class@ && final(tree)@[snapshot.id].inst.properties
                    == snapshot.properties@ && final(tree)@[snapshot.id].meta.source.kind
                    == crate::meta::SourceKindV::Path(o.source_path) && final(tree)@[
                    snapshot.id
                ].meta.source.relevant == o.relevant,
                None => true,
            },
            None => true,
        }),
    decreases snapshot.children@,
{
    let mut snap = snapshot;
    let mut parent_path_loc = parent_path.clone_path();
    let parent_is_file = vfs.is_file(&parent_path_loc);
    let parent_source: Source = if parent_is_file {
        // Promote the parent from a leaf file to a folder: its content file
        // and sidecar move inside a folder of its own name.
        let rule = match parent_meta.context.first_content_rule_matching(&parent_path_loc) {
            Some(rule) => rule.clone_rule(),
            None => {
                return Err(EngineError::NoRule);
            }
        };
        let name = rule.get_name(&parent_path_loc);
        let mut folder_path = parent_path_loc.with_file_name(
            PathComp { stem: name.clone(), suffix: String::new() },
        );
        // The collision check pairs the parent's prospective folder path
        // with the incoming child's name: a retried folder stem renames the
        // child with it, and a collision that no candidate resolves vetoes
        // the promotion, leaving the parent untouched as a leaf.
        if !verify_path(&mut folder_path, &mut snap.name, parent_meta, vfs) {
            return Ok(parent_meta.source.clone_source());
        }
        let file_path = rule.locate(&folder_path, &name, true);
        proof {
            assert(file_path@.len() > 0);
        }
        let data_paths: Option<(FsPath, FsPath)> = match parent_meta.source.get_data() {
            Some(e) => {
                proof {
                    crate::meta::lemma_first_data_paths(
                        parent_meta.source@.relevant,
                        parent_meta.source.relevant@,
                    );
                }
                let old_dp = e.path().clone_path();
                match parent_meta.context.locate_by_rule(
                    Middleware::InstanceData,
                    &folder_path,
                    &name,
                    true,
                ) {
                    Some(ndp) => Some((old_dp, ndp)),
                    None => {
                        return Err(EngineError::NoRule);
                    }
                }
            }
            None => None,
        };
        let mut source = Source::child_file(&folder_path, &file_path);
        vfs.write_dir(&folder_path);
        match vfs.rename(&parent_path_loc, &file_path) {
            Ok(()) => {}
            Err(e) => {
                return Err(EngineError::Fs(e));
            }
        }
        match data_paths {
            Some((from, to)) => {
                proof {
                    assert(to@.len() > 0);
                }
                source.add_data(&to);
                match vfs.rename(&from, &to) {
                    Ok(()) => {}
                    Err(e) => {
                        return Err(EngineError::Fs(e));
                    }
                }
            }
            None => {}
        }
        parent_path_loc = folder_path;
        source
    } else {
        parent_meta.source.clone_source()
    };
    proof {
        assert(source_paths_ok(parent_source));
    }
    if !verify_name(&snap.name, &snap.meta) {
        return Ok(parent_source);
    }
    let mut path = parent_path_loc.join(
        PathComp { stem: snap.name.clone(), suffix: String::new() },
    );
    let has_children = snap.children.len() > 0;
    if !has_children {
        let written = write_instance(false, &mut path, &mut snap, parent_meta, vfs);
        match written {
            Ok(Some(m)) => {
                let ghost mv = m@;
                let Snapshot { id, meta: _, name, class, properties, children: _ } = snap;
                let inst = Instance {
                    name,
                    class,
                    properties,
                    parent: parent_id,
                    children: Vec::new(),
                };
                tree.insert_instance_with_ref(id, inst, m, parent_id);
                proof {
                    if id != parent_id {
                        assert(tree@[id].meta == mv);
                    }
                }
            }
            Ok(None) => {}
            Err(e) => {
                return Err(e);
            }
        }
    } else {
        let written = write_instance(true, &mut path, &mut snap, parent_meta, vfs);
        match written {
            Ok(Some(m)) => {
                let mut child_meta = m.clone_meta();
                let Snapshot { id, meta: _, name, class, properties, children } = snap;
                proof {
                    assert(children@ == snapshot.children@);
                }
                let inst = Instance {
                    name,
                    class,
                    properties,
                    parent: parent_id,
                    children: Vec::new(),
                };
                tree.insert_instance_with_ref(id, inst, m, parent_id);
                let filter = child_meta.context.filter.clone_filter();
                let mut rest = children;
                let total: usize = rest.len();
                let ghost all = snapshot.children@;
                let mut i: usize = 0;
                proof {
                    crate::snapshot::lemma_snaps_wf(all);
                }
                while rest.len() > 0
                    invariant
                        tree.wf(),
                        vfs.wf(),
                        meta_ok(child_meta),
                        meta_ok(*parent_meta),
                        path@.len() > 0,
                        all == snapshot.children@,
                        all.len() == total,
                        i + rest.len() == total,
                        forall|j: int| 0 <= j < rest@.len() ==> rest@[j] == all[i + j],
                        forall|j: int| 0 <= j < all.len() ==> snap_wf(#[trigger] all[j]),
                        forall|k: RefId| old(tree)@.contains_key(k) ==> tree@.contains_key(k),
                    decreases rest.len(),
                {
                    let ghost prevrest = rest@;
                    let mut child = rest.remove(0);
                    proof {
                        assert(child == all[i as int]);
                        assert(forall|j: int| 0 <= j < rest@.len() ==> rest@[j] == prevrest[
                            j + 1
                        ]);
                        assert(snap_wf(child));
                    }
                    let mut cprops = Props::new();
                    core::mem::swap(&mut cprops, &mut child.properties);
                    let validated = validate_properties(cprops, &filter);
                    child.properties = validated;
                    proof {
                        assert(snap_wf(child)) by {
                            assert(child.children == all[i as int].children);
                        }
                        assert(decreases_to!(snapshot.children@ => snapshot.children@[
                            i as int
                        ]));
                        assert(decreases_to!(snapshot.children@[i as int] => snapshot.children@[
                            i as int
                        ].children));
                        assert(decreases_to!(snapshot.children@[i as int].children => snapshot
                            .children@[i as int].children@));
                        assert(child.children@ == snapshot.children@[i as int].children@);
                    }
                    let res = add_non_project_instances(
                        id,
                        &path,
                        child,
                        &mut child_meta,
                        tree,
                        vfs,
                    );
                    match res {
                        Ok(_) => {}
                        Err(e) => {
                            return Err(e);
                        }
                    }
                    i += 1;
                }
            }
            Ok(None) => {}
            Err(e) => {
                return Err(e);
            }
        }
    }
    Ok(parent_source)
}



/// Synthesize a project-tree node for a new instance and insert the
/// instance (and, recursively, its children) into the tree; the node
/// literal mirrors the subtree and is returned for insertion into the
/// parent node's child map.
fn build_project_node(
    parent_id: RefId,
    path: &FsPath,
    node_path: &crate::meta::NodePath,
    snapshot: Snapshot,
    parent_meta: &Meta,
    tree: &mut Tree,
) -> (r: ProjectNode)
    requires
        path@.len() > 0,
        old(tree).wf(),
        snap_wf(snapshot),
        meta_ok(*parent_meta),
    ensures
        final(tree).wf(),
        crate::project::node_wf(r),
        forall|k: RefId| old(tree)@.contains_key(k) ==> final(tree)@.contains_key(k),
        // A childless snapshot synthesizes exactly one node: its class,
        // its properties in loose form, and nothing else.
        snapshot.children@.len() == 0 ==> r@ == (crate::project::ProjectNodeV {
            class_name: Some(snapshot.class@),
            path: None,
            tree: Map::empty(),
            properties: crate::datafile::spec_props_to_loose(
                parent_meta@.context.reflection,
                snapshot.class@,
                snapshot.properties@,
            ),
            attributes: None,
            tags: Seq::empty(),
            keep_unknowns: if snapshot.meta.keep_unknowns {
                Some(true)
            } else {
                None
            },
        }),
    decreases snapshot.children@,
{
    let snap = snapshot;
    let properties = crate::datafile::props_to_loose(
        &parent_meta.context.reflection,
        &snap.class,
        &snap.properties,
    );
    let mut node = ProjectNode {
        class_name: Some(snap.class.clone()),
        path: None,
        tree: Vec::new(),
        properties,
        attributes: None,
        tags: Vec::new(),
        keep_unknowns: if snap.meta.keep_unknowns {
            Some(true)
        } else {
            None
        },
    };
    proof {
        assert(crate::project::node_wf(node)) by {
            assert(crate::project::node_children_pairs(node.tree@) =~= Seq::<
                (Seq<char>, crate::project::ProjectNodeV),
            >::empty());
        }
    }
    let new_node_path = node_path.join(&snap.name);
    let source = Source::project(
        &snap.name,
        path,
        crate::project::clone_node(&node),
        new_node_path.clone_node_path(),
    );
    proof {
        assert(new_node_path@.len() > 0);
        assert(source_paths_ok(source));
    }
    let meta = snap.meta.clone_meta().with_context(&parent_meta.context).with_source(source);
    let Snapshot { id, meta: _, name, class, properties: iprops, children } = snap;
    let inst = Instance {
        name,
        class,
        properties: iprops,
        parent: parent_id,
        children: Vec::new(),
    };
    tree.insert_instance_with_ref(id, inst, meta, parent_id);
    let filter = parent_meta.context.filter.clone_filter();
    let mut rest = children;
    let total: usize = rest.len();
    let ghost all = snapshot.children@;
    let ghost node0 = node;
    let mut i: usize = 0;
    proof {
        crate::snapshot::lemma_snaps_wf(all);
    }
    while rest.len() > 0
        invariant
            tree.wf(),
            path@.len() > 0,
            meta_ok(*parent_meta),
            crate::project::node_wf(node),
            all.len() == 0 ==> node == node0,
            all == snapshot.children@,
            all.len() == total,
            i + rest.len() == total,
            forall|j: int| 0 <= j < rest@.len() ==> rest@[j] == all[i + j],
            forall|j: int| 0 <= j < all.len() ==> snap_wf(#[trigger] all[j]),
            forall|k: RefId| old(tree)@.contains_key(k) ==> tree@.contains_key(k),
        decreases rest.len(),
    {
        let ghost prevrest = rest@;
        let mut child = rest.remove(0);
        proof {
            assert(child == all[i as int]);
            assert(forall|j: int| 0 <= j < rest@.len() ==> rest@[j] == prevrest[j + 1]);
            assert(snap_wf(child));
        }
        let cname = child.name.clone();
        let mut cprops = Props::new();
        core::mem::swap(&mut cprops, &mut child.properties);
        let validated = validate_properties(cprops, &filter);
        child.properties = validated;
        proof {
            assert(snap_wf(child)) by {
                assert(child.children == all[i as int].children);
            }
            assert(decreases_to!(snapshot.children@ => snapshot.children@[i as int]));
            assert(decreases_to!(snapshot.children@[i as int] => snapshot.children@[
                i as int
            ].children));
            assert(decreases_to!(snapshot.children@[i as int].children => snapshot.children@[
                i as int
            ].children@));
            assert(child.children@ == snapshot.children@[i as int].children@);
        }
        let built = build_project_node(id, path, &new_node_path, child, parent_meta, tree);
        crate::project::set_child(&mut node, &cname, built);
        i += 1;
    }
    proof {
        if all.len() == 0 {
            assert(node == node0);
            assert(node@.tree =~= Map::<Seq<char>, crate::project::ProjectNodeV>::empty());
            assert(node@.tags =~= Seq::<Seq<char>>::empty());
            assert(node@ == (crate::project::ProjectNodeV {
                class_name: Some(snapshot.class@),
                path: None,
                tree: Map::empty(),
                properties: crate::datafile::spec_props_to_loose(
                    parent_meta@.context.reflection,
                    snapshot.class@,
                    snapshot.properties@,
                ),
                attributes: None,
                tags: Seq::empty(),
                keep_unknowns: if snapshot.meta.keep_unknowns {
                    Some(true)
                } else {
                    None
                },
            }));
        }
    }
    node
}

/// Whether an addition is dropped by the filter: the new instance's name or
/// class matches an exclusion rule of the parent's filter.
pub open spec fn spec_addition_filtered(
    t: Map<RefId, TreeNodeV>,
    a: crate::snapshot::AddedSnapshotV,
) -> bool {
    t.contains_key(a.parent) && {
        let f = t[a.parent].meta.context.filter;
        spec_matches_name(f, a.name) || spec_matches_class(f, a.class)
    }
}

/// Attach a new instance (and its subtree) under a parent, writing its
/// files.
///
/// A missing parent or a filtered instance is soft: the call succeeds
/// having done nothing. Below a path-backed parent the subtree is realized
/// on disk, promoting a leaf parent to a folder first; below a
/// project-backed parent the subtree is realized at the node's custom path,
/// or synthesized into the project document, which is then saved.
pub fn apply_addition(snapshot: AddedSnapshot, tree: &mut Tree, vfs: &mut Vfs) -> (r: Result<
    (),
    EngineError,
>)
    requires
        old(tree).wf(),
        old(vfs).wf(),
        snapshot.properties.wf(),
        snaps_wf(snapshot.children@),
        old(tree)@.contains_key(snapshot@.parent) ==> !(old(tree)@[snapshot@.parent].meta.source
            .kind is Unbacked),
    ensures
        final(tree).wf(),
        final(vfs).wf(),
        !old(tree)@.contains_key(snapshot@.parent) ==> r == Ok::<(), EngineError>(())
            && final(tree)@ == old(tree)@ && final(vfs)@ == old(vfs)@
            && final(vfs).log_view() == old(vfs).log_view(),
        spec_addition_filtered(old(tree)@, snapshot@) ==> r == Ok::<(), EngineError>(())
            && final(tree)@ == old(tree)@ && final(vfs)@ == old(vfs)@
            && final(vfs).log_view() == old(vfs).log_view(),
        snapshot.children@.len() == 0 && old(tree)@.contains_key(snapshot@.parent) && (old(
            tree,
        )@[snapshot@.parent].meta.source.kind is Path) && crate::meta::spec_data_rule_distinct(
            old(tree)@[snapshot@.parent].meta.context.sync_rules,
        ) && !old(tree)@.contains_key(snapshot@.id) && final(tree)@.contains_key(snapshot@.id)
            ==> source_synced(final(tree)@[snapshot@.id].meta.source, final(vfs)@)
            && (crate::meta::spec_middleware_from_class(snapshot@.class) is Some ==> (
            crate::meta::spec_first_file(
                final(tree)@[snapshot@.id].meta.source.relevant,
            ) matches Some(e) && final(vfs)@.contains_key(entry_path(e)) && final(vfs)@[
                entry_path(e)
            ] == FsEntryV::File(
                FileBodyV::Content(
                    spec_content_file(
                        snapshot@.class,
                        snapshot@.properties.restrict(
                            crate::filter::spec_kept_keys(
                                old(tree)@[snapshot@.parent].meta.context.filter,
                            ),
                        ),
                    ),
                ),
            ))),
        // The unconditional addition promise: a childless, unfiltered
        // snapshot with a fresh id and a non-empty name, below a
        // directory-backed parent, is inserted whenever the leaf-write spec
        // yields an outcome, with exactly that name, source, relevant set
        // and disk.
        (snapshot.children@.len() == 0 && old(tree)@.contains_key(snapshot@.parent)
            && !spec_addition_filtered(old(tree)@, snapshot@) && (old(tree)@[snapshot@.parent]
            .meta.source.kind is Path) && crate::meta::spec_data_rule_distinct(
            old(tree)@[snapshot@.parent].meta.context.sync_rules,
        ) && !old(tree)@.contains_key(snapshot@.id) && snapshot@.name.len() != 0 && !(old(
            vfs,
        )@.contains_key(old(tree)@[snapshot@.parent].meta.source.kind->Path_0) && old(vfs)@[
            old(tree)@[snapshot@.parent].meta.source.kind->Path_0
        ] is File)) ==> (match spec_write_leaf(
            old(vfs)@,
            old(tree)@[snapshot@.parent].meta.context,
            snapshot@.class,
            snapshot@.properties.restrict(
                crate::filter::spec_kept_keys(
                    old(tree)@[snapshot@.parent].meta.context.filter,
                ),
            ),
            snapshot.meta.keep_unknowns,
            old(tree)@[snapshot@.parent].meta.source.kind->Path_0.push(
                crate::path::PathCompV { stem: snapshot@.name, suffix: Seq::empty() },
            ),
            snapshot@.name,
            snapshot.meta@.original_name,
        ) {
            Some(o) => r is Ok && final(vfs)@ == o.vfs && final(tree)@.contains_key(
                snapshot@.id,
            ) && final(tree)@[snapshot@.id].inst.name == o.name && final(tree)@[snapshot@.id]
                .inst.class == snapshot@.class && final(tree)@[snapshot@.id].inst.properties
                == snapshot@.properties.restrict(
                crate::filter::spec_kept_keys(
                    old(tree)@[snapshot@.parent].meta.context.filter,
                ),
            ) && final(tree)@[snapshot@.id].meta.source.kind == crate::meta::SourceKindV::Path(
                o.source_path,
            ) && final(tree)@[snapshot@.id].meta.source.relevant == o.relevant,
            None => true,
        }),
        // The promotion promise: the same addition below a leaf-file
        // parent first promotes the parent to a folder, then writes the
        // leaf over the promoted disk, exactly where the two specs name
        // outcomes in turn.
        (snapshot.children@.len() == 0 && old(tree)@.contains_key(snapshot@.parent)
            && !spec_addition_filtered(old(tree)@, snapshot@) && (old(tree)@[snapshot@.parent]
            .meta.source.kind is Path) && crate::meta::spec_data_rule_distinct(
            old(tree)@[snapshot@.parent].meta.context.sync_rules,
        ) && !old(tree)@.contains_key(snapshot@.id) && snapshot@.name.len() != 0 && old(
            vfs,
        )@.contains_key(old(tree)@[snapshot@.parent].meta.source.kind->Path_0) && old(vfs)@[
            old(tree)@[snapshot@.parent].meta.source.kind->Path_0
        ] is File) ==> (match spec_promote(
            old(vfs)@,
            old(tree)@[snapshot@.parent].meta,
            old(tree)@[snapshot@.parent].meta.source.kind->Path_0,
            snapshot@.name,
        ) {
            Some(t) => match spec_write_leaf(
                t.0,
                old(tree)@[snapshot@.parent].meta.context,
                snapshot@.class,
                snapshot@.properties.restrict(
                    crate::filter::spec_kept_keys(
                        old(tree)@[snapshot@.parent].meta.context.filter,
                    ),
                ),
                snapshot.meta.keep_unknowns,
                t.1.push(crate::path::PathCompV { stem: t.2, suffix: Seq::empty() }),
                t.2,
                snapshot.meta@.original_name,
            ) {
                Some(o) => r is Ok && final(vfs)@ == o.vfs && final(tree)@.contains_key(
                    snapshot@.id,
                ) && final(tree)@[snapshot@.id].inst.name == o.name && final(tree)@[
                    snapshot@.id
                ].inst.class == snapshot@.class && final(tree)@[snapshot@.id].inst.properties
                    == snapshot@.properties.restrict(
                    crate::filter::spec_kept_keys(
                        old(tree)@[snapshot@.parent].meta.context.filter,
                    ),
                ) && final(tree)@[snapshot@.id].meta.source.kind
                    == crate::meta::SourceKindV::Path(o.source_path) && final(tree)@[
                    snapshot@.id
                ].meta.source.relevant == o.relevant,
                None => true,
            },
            None => true,
        }),
        // Adding a childless, unfiltered snapshot below a project-backed
        // parent without a custom path rewrites the document exactly: the
        // synthesized node enters the parent's child map and the document
        // is saved, the disk otherwise untouched.
        (r is Ok && snapshot.children@.len() == 0 && old(tree)@.contains_key(snapshot@.parent)
            && !spec_addition_filtered(old(tree)@, snapshot@) && (old(tree)@[snapshot@.parent]
            .meta.source.kind is Project) && old(tree)@[snapshot@.parent].meta.source
            .kind->Project_0.node.path is None && old(vfs)@.contains_key(
            old(tree)@[snapshot@.parent].meta.source.kind->Project_0.path,
        ) && (old(vfs)@[old(tree)@[snapshot@.parent].meta.source.kind->Project_0.path] matches
            FsEntryV::File(FileBodyV::Project(_)))) ==> ({
            let pm = old(tree)@[snapshot@.parent].meta;
            let ps = pm.source.kind->Project_0;
            let stored = old(vfs)@[ps.path]->File_0->Project_0;
            let built = (crate::project::ProjectNodeV {
                class_name: Some(snapshot@.class),
                path: None,
                tree: Map::empty(),
                properties: crate::datafile::spec_props_to_loose(
                    pm.context.reflection,
                    snapshot@.class,
                    snapshot@.properties.restrict(
                        crate::filter::spec_kept_keys(pm.context.filter),
                    ),
                ),
                attributes: None,
                tags: Seq::empty(),
                keep_unknowns: if snapshot.meta.keep_unknowns {
                    Some(true)
                } else {
                    None
                },
            });
            crate::project::spec_node_insert_v(
                stored.node,
                ps.node_path,
                snapshot@.name,
                built,
            ) matches Some(n2) && final(vfs)@ == old(vfs)@.insert(
                ps.path,
                FsEntryV::File(
                    FileBodyV::Project(crate::project::ProjectDocV { node: n2, ..stored }),
                ),
            )
        }),
{
    let parent_id = snapshot.parent;
    if !tree.contains_id(parent_id) {
        return Ok(());
    }
    let mut parent_meta = match tree.get_meta(parent_id) {
        Some(m) => m.clone_meta(),
        None => {
            proof {
                assert(false);
            }
            return Ok(());
        }
    };
    proof {
        assert(meta_ok(parent_meta));
    }
    let mut snap = snapshot.to_snapshot();
    {
        let f = &parent_meta.context.filter;
        if f.matches_name(&snap.name) || f.matches_class(&snap.class) {
            return Ok(());
        }
    }
    let mut sprops = Props::new();
    core::mem::swap(&mut sprops, &mut snap.properties);
    let validated = validate_properties(sprops, &parent_meta.context.filter);
    snap.properties = validated;
    proof {
        assert(snap.children == snapshot.children);
        assert(snap_wf(snap));
    }
    let kpath: Option<FsPath> = match &parent_meta.source.kind {
        SourceKind::Path(p) => Some(p.clone_path()),
        _ => None,
    };
    match kpath {
        Some(pp) => {
            let parent_source = match add_non_project_instances(
                parent_id,
                &pp,
                snap,
                &mut parent_meta,
                tree,
                vfs,
            ) {
                Ok(src) => src,
                Err(e) => {
                    return Err(e);
                }
            };
            parent_meta.set_source(parent_source);
            proof {
                assert(meta_ok(parent_meta));
            }
            let ghost before_meta_update = tree@;
            tree.update_meta(parent_id, parent_meta);
            proof {
                if !old(tree)@.contains_key(snapshot@.id) && tree@.contains_key(snapshot@.id) {
                    assert(snapshot@.id != parent_id);
                    assert(tree@[snapshot@.id] == before_meta_update[snapshot@.id]);
                }
            }
        }
        None => {
            let (ps_path, ps_name, ps_node, ps_node_path, ps_custom) = match &parent_meta.source
                .kind {
                SourceKind::Project(ps) => (
                    ps.path.clone_path(),
                    ps.name.clone(),
                    crate::project::clone_node(&ps.node),
                    ps.node_path.clone_node_path(),
                    match &ps.node.path {
                        Some(p) => Some(p.clone_path()),
                        None => None,
                    },
                ),
                _ => {
                    proof {
                        assert(false);
                    }
                    return Ok(());
                }
            };
            match ps_custom {
                Some(custom) => {
                    let parent_source = match add_non_project_instances(
                        parent_id,
                        &custom,
                        snap,
                        &mut parent_meta,
                        tree,
                        vfs,
                    ) {
                        Ok(src) => src,
                        Err(e) => {
                            return Err(e);
                        }
                    };
                    let Source { kind: _, relevant } = parent_source;
                    let new_source = Source::project(
                        &ps_name,
                        &ps_path,
                        ps_node,
                        ps_node_path,
                    ).with_relevant(relevant);
                    parent_meta.set_source(new_source);
                    proof {
                        assert(source_paths_ok(parent_meta.source));
                        assert(meta_ok(parent_meta));
                    }
                    tree.update_meta(parent_id, parent_meta);
                }
                None => {
                    let mut doc = match vfs.read(&ps_path) {
                        Some(FileBody::Project(d)) => d.clone(),
                        _ => {
                            return Err(EngineError::BadProjectFile);
                        }
                    };
                    let ghost stored = doc@;
                    let snap_name = snap.name.clone();
                    let ghost snapv = snap;
                    let built = build_project_node(
                        parent_id,
                        &ps_path,
                        &ps_node_path,
                        snap,
                        &parent_meta,
                        tree,
                    );
                    proof {
                        if snapshot.children@.len() == 0 {
                            assert(snapv.children@.len() == 0);
                        }
                    }
                    let ghost pre_insert = doc@;
                    let ok = crate::project::insert_node_at(
                        &mut doc.node,
                        &ps_node_path.names,
                        0,
                        &snap_name,
                        built,
                    );
                    if !ok {
                        return Err(EngineError::MissingProjectNode);
                    }
                    proof {
                        assert(crate::alist::strings_view(ps_node_path.names@).skip(0)
                            =~= ps_node_path@);
                        assert(crate::project::spec_node_insert_v(
                            stored.node,
                            ps_node_path@,
                            snap_name@,
                            built@,
                        ) == Some(doc@.node));
                    }
                    vfs.write_file(&ps_path, FileBody::Project(doc));
                    proof {
                        let pm = old(tree)@[snapshot@.parent].meta;
                        if (pm.source.kind is Project) && old(vfs)@.contains_key(
                            pm.source.kind->Project_0.path,
                        ) && (old(vfs)@[pm.source.kind->Project_0.path] matches FsEntryV::File(
                            FileBodyV::Project(_),
                        )) {
                            let ps = pm.source.kind->Project_0;
                            assert(parent_meta@ == pm);
                            assert(ps_path@ == ps.path);
                            assert(ps_node_path@ == ps.node_path);
                            assert(stored == old(vfs)@[ps.path]->File_0->Project_0);
                            if snapshot.children@.len() == 0 {
                                assert(snap_name@ == snapshot@.name);
                                assert(final(vfs)@ == old(vfs)@.insert(
                                    ps.path,
                                    FsEntryV::File(
                                        FileBodyV::Project(
                                            crate::project::ProjectDocV {
                                                node: crate::project::spec_node_insert_v(
                                                    stored.node,
                                                    ps.node_path,
                                                    snapshot@.name,
                                                    built@,
                                                )->Some_0,
                                                ..stored
                                            },
                                        ),
                                    ),
                                ));
                            }
                        }
                    }
                }
            }
        }
    }
    Ok(())
}


/// Folder collapse inverts leaf-to-folder promotion.
///
/// Promotion takes a leaf at `p`, makes a folder named after its stem
/// beside it, and moves its content to the rule's in-container file;
/// collapse takes that folder and relocates the in-container file back
/// through the same rule under the folder's own name. For any leaf path
/// and any rule owning its suffix, collapsing the promoted layout lands
/// the content file exactly at the original leaf path, and the sidecar
/// computed inside the folder returns to the sidecar's original leaf
/// location likewise.
pub proof fn lemma_promote_collapse_inverse(
    p: Seq<PathCompV>,
    rule: crate::meta::SyncRuleV,
    data_rule: crate::meta::SyncRuleV,
)
    requires
        p.len() > 0,
        rule.suffix == p.last().suffix,
    ensures
        ({
            let folder = p.drop_last().push(
                PathCompV { stem: p.last().stem, suffix: Seq::empty() },
            );
            crate::meta::spec_rule_locate(rule, folder, folder.last().stem, false) == p
        }),
        ({
            let folder = p.drop_last().push(
                PathCompV { stem: p.last().stem, suffix: Seq::empty() },
            );
            let leaf_data = crate::meta::spec_rule_locate(data_rule, p, p.last().stem, false);
            crate::meta::spec_rule_locate(data_rule, folder, folder.last().stem, false)
                == leaf_data
        }),
{
    let folder = p.drop_last().push(PathCompV { stem: p.last().stem, suffix: Seq::empty() });
    assert(folder.last().stem == p.last().stem);
    assert(folder.drop_last() =~= p.drop_last());
    assert(crate::meta::spec_rule_locate(rule, folder, folder.last().stem, false) =~= p);
    assert(crate::meta::spec_rule_locate(data_rule, folder, folder.last().stem, false)
        =~= crate::meta::spec_rule_locate(data_rule, p, p.last().stem, false));
}

} // verus!
