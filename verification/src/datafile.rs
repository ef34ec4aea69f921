//! Sidecar data files: the auxiliary file beside (or inside) an instance's
//! main content, carrying metadata its own format cannot express: a class
//! override, extra properties, attributes, tags, the keep-unknowns flag and
//! the original (non-filesystem-safe) name.
//!
//! An empty data file (all fields default) is represented by file absence,
//! not by an empty file.

use vstd::prelude::*;

use crate::alist::{lemma_map_of_pairs_transform, strings_view};
use crate::ambiguous::{UnresolvedValue, UnresolvedValueV};
use crate::meta::Meta;
use crate::path::{FsPath, PathCompV};
use crate::project::opt_string_view;
use crate::props::{Props, UProps};
use crate::reflect::{ReflectionDb, ReflectionDbV};
use crate::resolution::spec_from_variant;
use crate::value::TypedValueV;
use crate::vfs::{FileBody, FileBodyV, FsActionV, FsEntryV, Vfs};

verus! {

/// The contents of a sidecar data file.
#[derive(Debug, PartialEq)]
pub struct DataFile {
    pub class_name: Option<String>,
    pub properties: UProps,
    pub attributes: Option<UnresolvedValue>,
    pub tags: Vec<String>,
    pub keep_unknowns: Option<bool>,
    pub original_name: Option<String>,
}

pub ghost struct DataFileV {
    pub class_name: Option<Seq<char>>,
    pub properties: Map<Seq<char>, UnresolvedValueV>,
    pub attributes: Option<UnresolvedValueV>,
    pub tags: Seq<Seq<char>>,
    pub keep_unknowns: Option<bool>,
    pub original_name: Option<Seq<char>>,
}

impl View for DataFile {
    type V = DataFileV;

    open spec fn view(&self) -> DataFileV {
        DataFileV {
            class_name: opt_string_view(self.class_name),
            properties: self.properties@,
            attributes: match self.attributes {
                Some(a) => Some(a@),
                None => None,
            },
            tags: strings_view(self.tags@),
            keep_unknowns: self.keep_unknowns,
            original_name: opt_string_view(self.original_name),
        }
    }
}

impl DataFile {
    /// A data file with nothing set.
    pub fn empty() -> (r: DataFile)
        ensures
            r@ == spec_empty_data_file(),
            r.properties.wf(),
    {
        let r = DataFile {
            class_name: None,
            properties: UProps::new(),
            attributes: None,
            tags: Vec::new(),
            keep_unknowns: None,
            original_name: None,
        };
        proof {
            assert(r@.tags =~= Seq::<Seq<char>>::empty());
            assert(r@ =~= spec_empty_data_file());
        }
        r
    }

    /// Whether every writable field is default; such a file is not written,
    /// and an existing one is removed. Attributes and tags are read-only
    /// here and do not count.
    pub open spec fn spec_is_writable_default(&self) -> bool {
        &&& self@.class_name is None
        &&& self@.properties == Map::<Seq<char>, UnresolvedValueV>::empty()
        &&& self@.keep_unknowns is None
        &&& self@.original_name is None
    }

    pub fn is_writable_default(&self) -> (r: bool)
        ensures
            r == self.spec_is_writable_default(),
    {
        let props_empty = self.properties.is_empty();
        let r = self.class_name.is_none() && props_empty && self.keep_unknowns.is_none()
            && self.original_name.is_none();
        proof {
            if props_empty {
                assert(self@.properties =~= Map::<Seq<char>, UnresolvedValueV>::empty());
            }
        }
        r
    }
}

impl Clone for DataFile {
    fn clone(&self) -> (r: Self)
        ensures
            r@ == self@,
            r.properties.pairs() == self.properties.pairs(),
    {
        DataFile {
            class_name: clone_opt_string(&self.class_name),
            properties: self.properties.deep_clone(),
            attributes: match &self.attributes {
                Some(a) => Some(a.clone()),
                None => None,
            },
            tags: crate::value::clone_strings(&self.tags),
            keep_unknowns: self.keep_unknowns,
            original_name: clone_opt_string(&self.original_name),
        }
    }
}

/// Clone an optional string, preserving the view.
pub fn clone_opt_string(o: &Option<String>) -> (r: Option<String>)
    ensures
        opt_string_view(r) == opt_string_view(*o),
{
    match o {
        Some(s) => Some(s.clone()),
        None => None,
    }
}

/// The value of a data file with nothing set.
pub open spec fn spec_empty_data_file() -> DataFileV {
    DataFileV {
        class_name: None,
        properties: Map::empty(),
        attributes: None,
        tags: Seq::empty(),
        keep_unknowns: None,
        original_name: None,
    }
}


/// The loose form of a property map, each value reversed through the codec.
pub open spec fn spec_props_to_loose(
    db: ReflectionDbV,
    class: Seq<char>,
    props: Map<Seq<char>, TypedValueV>,
) -> Map<Seq<char>, UnresolvedValueV> {
    Map::new(
        |k: Seq<char>| props.contains_key(k),
        |k: Seq<char>| spec_from_variant(db, props[k], class, k),
    )
}

/// Reverse every property of a map into its loose form.
pub fn props_to_loose(db: &ReflectionDb, class: &String, props: &Props) -> (r: UProps)
    requires
        db.wf(),
        props.wf(),
    ensures
        r.wf(),
        r@ == spec_props_to_loose(db@, class@, props@),
{
    let src = props.raw();
    let mut entries: Vec<(String, UnresolvedValue)> = Vec::new();
    let mut i: usize = 0;
    while i < src.len()
        invariant
            db.wf(),
            crate::alist::pairs_view(src@) == props.pairs(),
            i <= src@.len(),
            entries@.len() == i,
            forall|j: int| 0 <= j < i ==> (#[trigger] crate::alist::pairs_view(entries@)[j]).0
                == props.pairs()[j].0,
            forall|j: int| 0 <= j < i ==> (#[trigger] crate::alist::pairs_view(entries@)[j]).1
                == spec_from_variant(db@, props.pairs()[j].1, class@, props.pairs()[j].0),
        decreases src@.len() - i,
    {
        let (k, tv) = &src[i];
        let ghost prevpairs = crate::alist::pairs_view(entries@);
        let loose = UnresolvedValue::from_variant(tv.clone(), db, class, k);
        let ghost lv = loose@;
        entries.push((k.clone(), loose));
        proof {
            assert(crate::alist::pairs_view(entries@) =~= prevpairs.push((k@, lv)));
            assert(props.pairs()[i as int] == (k@, tv@));
        }
        i += 1;
    }
    let r = UProps { entries };
    proof {
        lemma_map_of_pairs_transform(
            props.pairs(),
            r.pairs(),
            |k: Seq<char>, v: TypedValueV| spec_from_variant(db@, v, class@, k),
        );
        assert(r@ =~= spec_props_to_loose(db@, class@, props@));
        assert(forall|j1: int, j2: int| 0 <= j1 < j2 < r.pairs().len() ==> (
        #[trigger] r.pairs()[j1]).0 != (#[trigger] r.pairs()[j2]).0);
    }
    r
}

/// The sidecar a write would produce: class override only for file-less
/// non-folder instances, the loose leftover properties, and the metadata
/// flags.
pub open spec fn spec_writable_data(
    db: ReflectionDbV,
    has_file: bool,
    class: Seq<char>,
    props: Map<Seq<char>, TypedValueV>,
    keep_unknowns: bool,
    original_name: Option<Seq<char>>,
) -> DataFileV {
    DataFileV {
        class_name: if !has_file && class != "Folder"@ {
            Some(class)
        } else {
            None
        },
        properties: spec_props_to_loose(db, class, props),
        attributes: None,
        tags: Seq::empty(),
        keep_unknowns: if keep_unknowns {
            Some(true)
        } else {
            None
        },
        original_name,
    }
}

/// Whether a sidecar value is all-default and therefore not written.
pub open spec fn spec_data_is_default(d: DataFileV) -> bool {
    &&& d.class_name is None
    &&& d.properties == Map::<Seq<char>, UnresolvedValueV>::empty()
    &&& d.keep_unknowns is None
    &&& d.original_name is None
}

/// The disk after a sidecar write: the file written, or removed when the
/// sidecar would be empty.
pub open spec fn spec_write_data_entries(
    m: Map<Seq<PathCompV>, FsEntryV>,
    path: Seq<PathCompV>,
    d: DataFileV,
) -> Map<Seq<PathCompV>, FsEntryV> {
    if spec_data_is_default(d) {
        if m.contains_key(path) {
            crate::vfs::spec_remove_subtree(m, path)
        } else {
            m
        }
    } else {
        m.insert(path, FsEntryV::File(FileBodyV::Data(d)))
    }
}

/// Write an instance's sidecar: properties not representable in the main
/// file, the class override, the keep-unknowns flag and the original name.
/// An all-default sidecar is represented by file absence: nothing is
/// written, and an existing file is removed. Returns the path when a file
/// now backs the sidecar.
pub fn write_data(
    has_file: bool,
    class: &String,
    properties: Props,
    path: &FsPath,
    meta: &Meta,
    vfs: &mut Vfs,
) -> (r: Option<FsPath>)
    requires
        old(vfs).wf(),
        properties.wf(),
        meta.wf(),
    ensures
        final(vfs).wf(),
        final(vfs)@ == spec_write_data_entries(
            old(vfs)@,
            path@,
            spec_writable_data(
                meta@.context.reflection,
                has_file,
                class@,
                properties@,
                meta@.keep_unknowns,
                meta@.original_name,
            ),
        ),
        match r {
            Some(p) => p@ == path@ && !spec_data_is_default(
                spec_writable_data(
                    meta@.context.reflection,
                    has_file,
                    class@,
                    properties@,
                    meta@.keep_unknowns,
                    meta@.original_name,
                ),
            ) && final(vfs)@.contains_key(path@) && final(vfs)@[path@] is File,
            None => spec_data_is_default(
                spec_writable_data(
                    meta@.context.reflection,
                    has_file,
                    class@,
                    properties@,
                    meta@.keep_unknowns,
                    meta@.original_name,
                ),
            ),
        },
        final(vfs).log_view().len() >= old(vfs).log_view().len(),
        forall|i: int| 0 <= i < old(vfs).log_view().len() ==> final(vfs).log_view()[i] == old(
            vfs,
        ).log_view()[i],
        forall|i: int| old(vfs).log_view().len() <= i < final(vfs).log_view().len()
            ==> !crate::vfs::is_rename_action(#[trigger] final(vfs).log_view()[i]),
{
    let folder = String::from_str("Folder");
    proof {
        reveal_strlit("Folder");
    }
    let class_name = if !has_file && *class != folder {
        Some(class.clone())
    } else {
        None
    };
    let loose = props_to_loose(&meta.context.reflection, class, &properties);
    let data = DataFile {
        class_name,
        properties: loose,
        attributes: None,
        tags: Vec::new(),
        keep_unknowns: if meta.keep_unknowns {
            Some(true)
        } else {
            None
        },
        original_name: clone_opt_string(&meta.original_name),
    };
    proof {
        assert(data@.tags =~= Seq::<Seq<char>>::empty());
        assert(data@ =~= spec_writable_data(
            meta@.context.reflection,
            has_file,
            class@,
            properties@,
            meta@.keep_unknowns,
            meta@.original_name,
        ));
    }
    if data.is_writable_default() {
        if vfs.path_exists(path) {
            let _ = vfs.remove(path);
        }
        None
    } else {
        vfs.write_file(path, FileBody::Data(data));
        Some(path.clone_path())
    }
}

/// Whether two optional strings carry the same text.
pub fn opt_string_eq(a: &Option<String>, b: &Option<String>) -> (r: bool)
    ensures
        r == (opt_string_view(*a) == opt_string_view(*b)),
{
    match (a, b) {
        (None, None) => true,
        (Some(x), Some(y)) => {
            let eq = *x == *y;
            proof {
                if x@ == y@ {
                    assert(opt_string_view(*a) == opt_string_view(*b));
                }
            }
            eq
        }
        _ => false,
    }
}

/// The disk after patching the stored original name: unchanged when the
/// stored name already agrees or when nothing backs the sidecar and there is
/// nothing to record; otherwise the sidecar is rewritten (or removed, when
/// the patch empties it).
pub open spec fn spec_write_original_name_entries(
    m: Map<Seq<PathCompV>, FsEntryV>,
    path: Seq<PathCompV>,
    d: Option<DataFileV>,
    original_name: Option<Seq<char>>,
) -> Map<Seq<PathCompV>, FsEntryV> {
    match d {
        Some(old_d) => if old_d.original_name == original_name {
            m
        } else {
            let new_d = DataFileV {
                class_name: old_d.class_name,
                properties: old_d.properties,
                attributes: None,
                tags: Seq::empty(),
                keep_unknowns: old_d.keep_unknowns,
                original_name,
            };
            if spec_data_is_default(new_d) {
                crate::vfs::spec_remove_subtree(m, path)
            } else {
                m.insert(path, FsEntryV::File(FileBodyV::Data(new_d)))
            }
        },
        None => if original_name is None {
            m
        } else {
            m.insert(
                path,
                FsEntryV::File(
                    FileBodyV::Data(
                        DataFileV {
                            class_name: None,
                            properties: Map::empty(),
                            attributes: None,
                            tags: Seq::empty(),
                            keep_unknowns: None,
                            original_name,
                        },
                    ),
                ),
            )
        },
    }
}

/// The sidecar stored at a path, if a data file backs it.
pub open spec fn spec_data_at(
    m: Map<Seq<PathCompV>, FsEntryV>,
    path: Seq<PathCompV>,
) -> Option<DataFileV> {
    if m.contains_key(path) {
        match m[path] {
            FsEntryV::File(b) => match b {
                FileBodyV::Data(d) => Some(d),
                _ => None,
            },
            _ => None,
        }
    } else {
        None
    }
}

/// Whether a file that is not a sidecar stands at the path; only then does
/// patching the original name fail.
pub open spec fn spec_non_data_file_at(
    m: Map<Seq<PathCompV>, FsEntryV>,
    path: Seq<PathCompV>,
) -> bool {
    m.contains_key(path) && match m[path] {
        FsEntryV::File(b) => !(b is Data),
        FsEntryV::Dir => false,
    }
}

/// Patch the original name stored in a sidecar without rewriting the rest:
/// the stored fields are kept, only the original name is replaced; an
/// all-default result removes the file, and a missing sidecar is created
/// only when there is a name to record. When the stored name already
/// agrees (or there is nothing to record), no action at all is taken: the
/// log is unchanged.
pub fn write_original_name(path: &FsPath, meta: &Meta, vfs: &mut Vfs) -> (r: Result<
    (),
    crate::engine::EngineError,
>)
    requires
        old(vfs).wf(),
    ensures
        final(vfs).wf(),
        r is Err <==> spec_non_data_file_at(old(vfs)@, path@),
        match r {
            Ok(()) => final(vfs)@ == spec_write_original_name_entries(
                old(vfs)@,
                path@,
                spec_data_at(old(vfs)@, path@),
                meta@.original_name,
            ),
            Err(e) => e is BadDataFile && final(vfs)@ == old(vfs)@,
        },
        r is Err ==> final(vfs).log_view() == old(vfs).log_view(),
        r is Ok ==> (match spec_data_at(old(vfs)@, path@) {
            Some(d) => if d.original_name == meta@.original_name {
                final(vfs).log_view() == old(vfs).log_view()
            } else {
                final(vfs).log_view().len() == old(vfs).log_view().len() + 1
                    && !crate::vfs::is_rename_action(final(vfs).log_view().last())
                    && (forall|i: int| 0 <= i < old(vfs).log_view().len()
                        ==> final(vfs).log_view()[i] == old(vfs).log_view()[i])
            },
            None => if meta@.original_name is None {
                final(vfs).log_view() == old(vfs).log_view()
            } else {
                final(vfs).log_view().len() == old(vfs).log_view().len() + 1
                    && !crate::vfs::is_rename_action(final(vfs).log_view().last())
                    && (forall|i: int| 0 <= i < old(vfs).log_view().len()
                        ==> final(vfs).log_view()[i] == old(vfs).log_view()[i])
            },
        }),
{
    let existing = vfs.read(path);
    match existing {
        Some(FileBody::Data(d)) => {
            if opt_string_eq(&d.original_name, &meta.original_name) {
                return Ok(());
            }
            let new_d = DataFile {
                class_name: clone_opt_string(&d.class_name),
                properties: d.properties.deep_clone(),
                attributes: None,
                tags: Vec::new(),
                keep_unknowns: d.keep_unknowns,
                original_name: clone_opt_string(&meta.original_name),
            };
            proof {
                assert(new_d@.tags =~= Seq::<Seq<char>>::empty());
            }
            if new_d.is_writable_default() {
                let _ = vfs.remove(path);
            } else {
                vfs.write_file(path, FileBody::Data(new_d));
            }
            Ok(())
        }
        Some(_) => Err(crate::engine::EngineError::BadDataFile),
        None => {
            if meta.original_name.is_none() {
                return Ok(());
            }
            let new_d = DataFile {
                class_name: None,
                properties: UProps::new(),
                attributes: None,
                tags: Vec::new(),
                keep_unknowns: None,
                original_name: clone_opt_string(&meta.original_name),
            };
            proof {
                assert(new_d@.tags =~= Seq::<Seq<char>>::empty());
                assert(new_d@.properties =~= Map::<Seq<char>, UnresolvedValueV>::empty());
            }
            vfs.write_file(path, FileBody::Data(new_d));
            Ok(())
        }
    }
}

} // verus!
