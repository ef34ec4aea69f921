//! Per-instance sync metadata: where an instance's bytes live (`Source`),
//! the inherited configuration (`Context`: sync rules, filter, script
//! handling), and the auxiliary flags carried beside them.

use vstd::prelude::*;

use crate::alist::strings_view;
use crate::datafile::clone_opt_string;
use crate::filter::{SyncbackFilter, SyncbackFilterV};
use crate::path::{FsPath, PathComp, PathCompV};
use crate::project::{clone_node, node_wf, opt_string_view, ProjectNode, ProjectNodeV};
use crate::reflect::{ReflectionDb, ReflectionDbV};

verus! {

/// The file formats the engine can write through: scripts of the three run
/// kinds, and the sidecar data format.
#[derive(Debug, PartialEq, Eq, Structural, Clone, Copy)]
pub enum Middleware {
    ServerScript,
    ClientScript,
    ModuleScript,
    InstanceData,
}

impl View for Middleware {
    type V = Middleware;

    open spec fn view(&self) -> Middleware {
        *self
    }
}

/// The class a middleware exists for, if any: content-bearing classes map to
/// a file format; everything else becomes a plain directory plus sidecar.
pub open spec fn spec_middleware_from_class(class: Seq<char>) -> Option<Middleware> {
    if class == "Script"@ {
        Some(Middleware::ServerScript)
    } else if class == "LocalScript"@ {
        Some(Middleware::ClientScript)
    } else if class == "ModuleScript"@ {
        Some(Middleware::ModuleScript)
    } else {
        None
    }
}

impl Middleware {
    /// Resolve the middleware for a class.
    pub fn from_class(class: &String) -> (r: Option<Middleware>)
        ensures
            r == spec_middleware_from_class(class@),
    {
        let server = String::from_str("Script");
        let client = String::from_str("LocalScript");
        let module = String::from_str("ModuleScript");
        proof {
            reveal_strlit("Script");
            reveal_strlit("LocalScript");
            reveal_strlit("ModuleScript");
        }
        if *class == server {
            Some(Middleware::ServerScript)
        } else if *class == client {
            Some(Middleware::ClientScript)
        } else if *class == module {
            Some(Middleware::ModuleScript)
        } else {
            None
        }
    }
}

/// One location-pattern rule: for a middleware kind, the file-name suffix a
/// leaf file carries, and the fixed stem a container's inner file carries.
#[derive(Debug, PartialEq)]
pub struct SyncRule {
    pub mw: Middleware,
    pub suffix: String,
    pub child_stem: String,
}

pub ghost struct SyncRuleV {
    pub mw: Middleware,
    pub suffix: Seq<char>,
    pub child_stem: Seq<char>,
}

impl View for SyncRule {
    type V = SyncRuleV;

    open spec fn view(&self) -> SyncRuleV {
        SyncRuleV { mw: self.mw, suffix: self.suffix@, child_stem: self.child_stem@ }
    }
}

/// The first non-data rule whose suffix is the path's file suffix, if
/// any: the rule that owns an existing content file.
pub open spec fn spec_content_rule(rules: Seq<SyncRuleV>, path: Seq<PathCompV>) -> Option<
    SyncRuleV,
>
    recommends
        path.len() > 0,
    decreases rules.len(),
{
    if rules.len() == 0 {
        None
    } else if !(rules[0].mw is InstanceData) && path.last().suffix == rules[0].suffix {
        Some(rules[0])
    } else {
        spec_content_rule(rules.drop_first(), path)
    }
}

/// The first rule whose in-container file name is exactly the path's file
/// name, if any.
pub open spec fn spec_child_rule(rules: Seq<SyncRuleV>, path: Seq<PathCompV>) -> Option<SyncRuleV>
    recommends
        path.len() > 0,
    decreases rules.len(),
{
    if rules.len() == 0 {
        None
    } else if path.last().stem == rules[0].child_stem && path.last().suffix == rules[0].suffix {
        Some(rules[0])
    } else {
        spec_child_rule(rules.drop_first(), path)
    }
}

/// Where a rule places an instance's file: a container keeps its content in
/// a fixed-stem file inside its directory; a leaf replaces the base path's
/// file name with its own name plus the rule's suffix.
pub open spec fn spec_rule_locate(
    rule: SyncRuleV,
    base: Seq<PathCompV>,
    name: Seq<char>,
    is_container: bool,
) -> Seq<PathCompV>
    recommends
        base.len() > 0,
{
    if is_container {
        base.push(PathCompV { stem: rule.child_stem, suffix: rule.suffix })
    } else {
        base.drop_last().push(PathCompV { stem: name, suffix: rule.suffix })
    }
}

impl SyncRule {
    pub fn clone_rule(&self) -> (r: SyncRule)
        ensures
            r@ == self@,
    {
        SyncRule {
            mw: self.mw,
            suffix: self.suffix.clone(),
            child_stem: self.child_stem.clone(),
        }
    }

    /// The candidate location for an instance named `name` relative to
    /// `base`.
    pub fn locate(&self, base: &FsPath, name: &String, is_container: bool) -> (r: FsPath)
        requires
            base@.len() > 0,
        ensures
            r@ == spec_rule_locate(self@, base@, name@, is_container),
    {
        if is_container {
            base.join(PathComp { stem: self.child_stem.clone(), suffix: self.suffix.clone() })
        } else {
            base.with_file_name(PathComp { stem: name.clone(), suffix: self.suffix.clone() })
        }
    }

    /// Whether a path's file name carries this rule's suffix.
    pub fn matches(&self, path: &FsPath) -> (r: bool)
        requires
            path@.len() > 0,
        ensures
            r == (path@.last().suffix == self@.suffix),
    {
        let last = path.file_name();
        last.suffix == self.suffix
    }

    /// Whether a path's file name is exactly this rule's in-container file.
    pub fn matches_child(&self, path: &FsPath) -> (r: bool)
        requires
            path@.len() > 0,
        ensures
            r == (path@.last().stem == self@.child_stem && path@.last().suffix == self@.suffix),
    {
        let last = path.file_name();
        last.stem == self.child_stem && last.suffix == self.suffix
    }

    /// The instance name a path carries under this rule.
    pub fn get_name(&self, path: &FsPath) -> (r: String)
        requires
            path@.len() > 0,
        ensures
            r@ == path@.last().stem,
    {
        let last = path.file_name();
        last.stem.clone()
    }
}

/// The first rule of the given middleware kind.
pub open spec fn spec_first_rule_of(rules: Seq<SyncRuleV>, mw: Middleware) -> Option<SyncRuleV>
    decreases rules.len(),
{
    if rules.len() == 0 {
        None
    } else if rules[0].mw == mw {
        Some(rules[0])
    } else {
        spec_first_rule_of(rules.drop_first(), mw)
    }
}

/// Inherited, read-mostly configuration: the ordered sync-rule list, the
/// syncback filter, the legacy-script flag, and the reflection database.
#[derive(Debug)]
pub struct Context {
    pub sync_rules: Vec<SyncRule>,
    pub filter: SyncbackFilter,
    pub use_legacy_scripts: bool,
    pub reflection: ReflectionDb,
}

pub ghost struct ContextV {
    pub sync_rules: Seq<SyncRuleV>,
    pub filter: SyncbackFilterV,
    pub use_legacy_scripts: bool,
    pub reflection: ReflectionDbV,
}

impl View for Context {
    type V = ContextV;

    open spec fn view(&self) -> ContextV {
        ContextV {
            sync_rules: self.sync_rules@.map_values(|r: SyncRule| r@),
            filter: self.filter@,
            use_legacy_scripts: self.use_legacy_scripts,
            reflection: self.reflection@,
        }
    }
}

impl Context {
    /// Well-formedness: the reflection database's maps have unique keys.
    pub open spec fn wf(&self) -> bool {
        self.reflection.wf()
    }

    pub fn clone_context(&self) -> (r: Context)
        ensures
            r@ == self@,
            self.wf() ==> r.wf(),
    {
        let mut sync_rules: Vec<SyncRule> = Vec::new();
        let mut i: usize = 0;
        while i < self.sync_rules.len()
            invariant
                i <= self.sync_rules@.len(),
                sync_rules@.len() == i,
                forall|j: int| 0 <= j < i ==> (#[trigger] sync_rules@[j])@ == self.sync_rules@[j]@,
            decreases self.sync_rules@.len() - i,
        {
            sync_rules.push(self.sync_rules[i].clone_rule());
            i += 1;
        }
        let r = Context {
            sync_rules,
            filter: self.filter.clone_filter(),
            use_legacy_scripts: self.use_legacy_scripts,
            reflection: self.reflection.clone_db(),
        };
        proof {
            assert(r@.sync_rules =~= self@.sync_rules);
            assert(r@ =~= self@);
        }
        r
    }

    /// The syncback filter.
    pub fn syncback_filter(&self) -> (r: &SyncbackFilter)
        ensures
            r@ == self@.filter,
    {
        &self.filter
    }

    /// The first sync rule of the given middleware kind, if any.
    pub fn first_rule_of(&self, mw: Middleware) -> (r: Option<&SyncRule>)
        ensures
            match r {
                Some(rule) => spec_first_rule_of(self@.sync_rules, mw) == Some(rule@),
                None => spec_first_rule_of(self@.sync_rules, mw) is None,
            },
    {
        let mut i: usize = 0;
        proof {
            assert(self@.sync_rules.skip(0) =~= self@.sync_rules);
        }
        while i < self.sync_rules.len()
            invariant
                i <= self.sync_rules@.len(),
                spec_first_rule_of(self@.sync_rules, mw) == spec_first_rule_of(
                    self@.sync_rules.skip(i as int),
                    mw,
                ),
            decreases self.sync_rules@.len() - i,
        {
            let rule = &self.sync_rules[i];
            let hit = match (rule.mw, mw) {
                (Middleware::ServerScript, Middleware::ServerScript) => true,
                (Middleware::ClientScript, Middleware::ClientScript) => true,
                (Middleware::ModuleScript, Middleware::ModuleScript) => true,
                (Middleware::InstanceData, Middleware::InstanceData) => true,
                _ => false,
            };
            proof {
                assert(self@.sync_rules.skip(i as int)[0] == self@.sync_rules[i as int]);
                assert(self@.sync_rules.skip(i as int).drop_first() =~= self@.sync_rules.skip(
                    i as int + 1,
                ));
            }
            if hit {
                return Some(rule);
            }
            i += 1;
        }
        proof {
            assert(self@.sync_rules.skip(self@.sync_rules.len() as int).len() == 0);
        }
        None
    }

    /// The first content rule (not the data rule) whose suffix matches the
    /// given path's file name.
    pub fn first_content_rule_matching(&self, path: &FsPath) -> (r: Option<&SyncRule>)
        requires
            path@.len() > 0,
        ensures
            match r {
                Some(rule) => spec_content_rule(self@.sync_rules, path@) == Some(rule@)
                    && self@.sync_rules.contains(rule@) && path@.last().suffix
                    == rule@.suffix && !(rule.mw is InstanceData),
                None => spec_content_rule(self@.sync_rules, path@) is None,
            },
    {
        proof {
            assert(self@.sync_rules.skip(0) =~= self@.sync_rules);
        }
        let mut i: usize = 0;
        while i < self.sync_rules.len()
            invariant
                path@.len() > 0,
                i <= self.sync_rules@.len(),
                spec_content_rule(self@.sync_rules, path@) == spec_content_rule(
                    self@.sync_rules.skip(i as int),
                    path@,
                ),
            decreases self.sync_rules@.len() - i,
        {
            proof {
                assert(self@.sync_rules.skip(i as int)[0] == self@.sync_rules[i as int]);
                assert(self@.sync_rules.skip(i as int).drop_first() =~= self@.sync_rules.skip(
                    i as int + 1,
                ));
            }
            let rule = &self.sync_rules[i];
            let is_data = match rule.mw {
                Middleware::InstanceData => true,
                _ => false,
            };
            if !is_data && rule.matches(path) {
                proof {
                    assert(self@.sync_rules[i as int] == rule@);
                }
                return Some(rule);
            }
            i += 1;
        }
        None
    }

    /// The first rule whose in-container file name is exactly the given
    /// path's file name.
    pub fn first_rule_matching_child(&self, path: &FsPath) -> (r: Option<&SyncRule>)
        requires
            path@.len() > 0,
        ensures
            match r {
                Some(rule) => spec_child_rule(self@.sync_rules, path@) == Some(rule@),
                None => spec_child_rule(self@.sync_rules, path@) is None,
            },
    {
        proof {
            assert(self@.sync_rules.skip(0) =~= self@.sync_rules);
        }
        let mut i: usize = 0;
        while i < self.sync_rules.len()
            invariant
                path@.len() > 0,
                i <= self.sync_rules@.len(),
                spec_child_rule(self@.sync_rules, path@) == spec_child_rule(
                    self@.sync_rules.skip(i as int),
                    path@,
                ),
            decreases self.sync_rules@.len() - i,
        {
            proof {
                assert(self@.sync_rules.skip(i as int)[0] == self@.sync_rules[i as int]);
                assert(self@.sync_rules.skip(i as int).drop_first() =~= self@.sync_rules.skip(
                    i as int + 1,
                ));
            }
            let rule = &self.sync_rules[i];
            if rule.matches_child(path) {
                proof {
                    assert(self@.sync_rules[i as int] == rule@);
                }
                return Some(rule);
            }
            i += 1;
        }
        None
    }

    /// Locate an instance's candidate path through the first rule of the
    /// given kind.
    pub fn locate_by_rule(
        &self,
        mw: Middleware,
        base: &FsPath,
        name: &String,
        is_container: bool,
    ) -> (r: Option<FsPath>)
        requires
            base@.len() > 0,
        ensures
            match r {
                Some(p) => spec_first_rule_of(self@.sync_rules, mw) matches Some(rule)
                    && p@ == spec_rule_locate(rule, base@, name@, is_container),
                None => spec_first_rule_of(self@.sync_rules, mw) is None,
            },
    {
        match self.first_rule_of(mw) {
            Some(rule) => Some(rule.locate(base, name, is_container)),
            None => None,
        }
    }
}

/// An ordered breadcrumb of names locating a node inside a project document.
#[derive(Debug, PartialEq)]
pub struct NodePath {
    pub names: Vec<String>,
}

impl View for NodePath {
    type V = Seq<Seq<char>>;

    open spec fn view(&self) -> Seq<Seq<char>> {
        strings_view(self.names@)
    }
}

impl NodePath {
    pub fn new() -> (r: NodePath)
        ensures
            r@ == Seq::<Seq<char>>::empty(),
    {
        let r = NodePath { names: Vec::new() };
        proof {
            assert(r@ =~= Seq::<Seq<char>>::empty());
        }
        r
    }

    pub fn clone_node_path(&self) -> (r: NodePath)
        ensures
            r@ == self@,
    {
        let r = NodePath { names: crate::value::clone_strings(&self.names) };
        proof {
            assert(r@ =~= self@);
        }
        r
    }

    /// The breadcrumb extended by one name.
    pub fn join(&self, name: &String) -> (r: NodePath)
        ensures
            r@ == self@.push(name@),
    {
        let mut names = crate::value::clone_strings(&self.names);
        names.push(name.clone());
        let r = NodePath { names };
        proof {
            assert(r@ =~= self@.push(name@));
        }
        r
    }

    /// The breadcrumb of the parent node.
    pub fn parent(&self) -> (r: NodePath)
        requires
            self@.len() > 0,
        ensures
            r@ == self@.drop_last(),
    {
        let mut names = crate::value::clone_strings(&self.names);
        let _ = names.pop();
        let r = NodePath { names };
        proof {
            assert(r@ =~= self@.drop_last());
        }
        r
    }

    pub fn len(&self) -> (r: usize)
        ensures
            r == self@.len(),
    {
        self.names.len()
    }
}

/// One independently renameable or removable disk artifact contributing to
/// an instance.
#[derive(Debug, PartialEq)]
pub enum SourceEntry {
    File(FsPath),
    Folder(FsPath),
    Data(FsPath),
    Project(FsPath),
}

pub ghost enum SourceEntryV {
    File(Seq<PathCompV>),
    Folder(Seq<PathCompV>),
    Data(Seq<PathCompV>),
    Project(Seq<PathCompV>),
}

impl View for SourceEntry {
    type V = SourceEntryV;

    open spec fn view(&self) -> SourceEntryV {
        match self {
            SourceEntry::File(p) => SourceEntryV::File(p@),
            SourceEntry::Folder(p) => SourceEntryV::Folder(p@),
            SourceEntry::Data(p) => SourceEntryV::Data(p@),
            SourceEntry::Project(p) => SourceEntryV::Project(p@),
        }
    }
}

/// The path a source entry names.
pub open spec fn entry_path(e: SourceEntryV) -> Seq<PathCompV> {
    match e {
        SourceEntryV::File(p) => p,
        SourceEntryV::Folder(p) => p,
        SourceEntryV::Data(p) => p,
        SourceEntryV::Project(p) => p,
    }
}

impl SourceEntry {
    pub fn clone_entry(&self) -> (r: SourceEntry)
        ensures
            r@ == self@,
    {
        match self {
            SourceEntry::File(p) => SourceEntry::File(p.clone_path()),
            SourceEntry::Folder(p) => SourceEntry::Folder(p.clone_path()),
            SourceEntry::Data(p) => SourceEntry::Data(p.clone_path()),
            SourceEntry::Project(p) => SourceEntry::Project(p.clone_path()),
        }
    }

    /// The path this entry names.
    pub fn path(&self) -> (r: &FsPath)
        ensures
            r@ == entry_path(self@),
    {
        match self {
            SourceEntry::File(p) => p,
            SourceEntry::Folder(p) => p,
            SourceEntry::Data(p) => p,
            SourceEntry::Project(p) => p,
        }
    }
}

/// A project-node backing: the node's name, the owning project file, the
/// node literal, and the breadcrumb locating it in the document.
#[derive(Debug, PartialEq)]
pub struct ProjectSource {
    pub name: String,
    pub path: FsPath,
    pub node: ProjectNode,
    pub node_path: NodePath,
}

pub ghost struct ProjectSourceV {
    pub name: Seq<char>,
    pub path: Seq<PathCompV>,
    pub node: ProjectNodeV,
    pub node_path: Seq<Seq<char>>,
}

impl View for ProjectSource {
    type V = ProjectSourceV;

    open spec fn view(&self) -> ProjectSourceV {
        ProjectSourceV {
            name: self.name@,
            path: self.path@,
            node: self.node@,
            node_path: self.node_path@,
        }
    }
}

/// Where an instance's authoritative bytes live.
#[derive(Debug, PartialEq)]
pub enum SourceKind {
    /// No disk backing: root-only or purely synthetic. Any write attempt
    /// against it is an invariant violation.
    Unbacked,
    /// Backed by an ordinary filesystem path: a single file (leaf) or a
    /// directory (container).
    Path(FsPath),
    /// Backed by a node inside a nested project document.
    Project(ProjectSource),
}

pub ghost enum SourceKindV {
    Unbacked,
    Path(Seq<PathCompV>),
    Project(ProjectSourceV),
}

impl View for SourceKind {
    type V = SourceKindV;

    open spec fn view(&self) -> SourceKindV {
        match self {
            SourceKind::Unbacked => SourceKindV::Unbacked,
            SourceKind::Path(p) => SourceKindV::Path(p@),
            SourceKind::Project(ps) => SourceKindV::Project(ps@),
        }
    }
}

/// A source: its kind plus the set of relevant disk entries backing the
/// instance.
#[derive(Debug, PartialEq)]
pub struct Source {
    pub kind: SourceKind,
    pub relevant: Vec<SourceEntry>,
}

pub ghost struct SourceV {
    pub kind: SourceKindV,
    pub relevant: Seq<SourceEntryV>,
}

impl View for Source {
    type V = SourceV;

    open spec fn view(&self) -> SourceV {
        SourceV {
            kind: self.kind@,
            relevant: self.relevant@.map_values(|e: SourceEntry| e@),
        }
    }
}

impl Source {
    /// A source with no disk backing and no relevant entries.
    pub fn unbacked() -> (r: Source)
        ensures
            r@.kind == SourceKindV::Unbacked,
            r@.relevant == Seq::<SourceEntryV>::empty(),
    {
        let r = Source { kind: SourceKind::Unbacked, relevant: Vec::new() };
        proof {
            assert(r@.relevant =~= Seq::<SourceEntryV>::empty());
        }
        r
    }

    /// A leaf backed by a single file.
    pub fn file(path: &FsPath) -> (r: Source)
        ensures
            r@.kind == SourceKindV::Path(path@),
            r@.relevant =~= seq![SourceEntryV::File(path@)],
            path@.len() > 0 ==> source_paths_ok(r),
    {
        let mut relevant = Vec::new();
        relevant.push(SourceEntry::File(path.clone_path()));
        let r = Source { kind: SourceKind::Path(path.clone_path()), relevant };
        proof {
            assert(r@.relevant =~= seq![SourceEntryV::File(path@)]);
        }
        r
    }

    /// A container backed by a directory alone.
    pub fn directory(path: &FsPath) -> (r: Source)
        ensures
            r@.kind == SourceKindV::Path(path@),
            r@.relevant =~= seq![SourceEntryV::Folder(path@)],
            path@.len() > 0 ==> source_paths_ok(r),
    {
        let mut relevant = Vec::new();
        relevant.push(SourceEntry::Folder(path.clone_path()));
        let r = Source { kind: SourceKind::Path(path.clone_path()), relevant };
        proof {
            assert(r@.relevant =~= seq![SourceEntryV::Folder(path@)]);
        }
        r
    }

    /// A container backed by a directory with a content file inside it.
    pub fn child_file(folder: &FsPath, file: &FsPath) -> (r: Source)
        ensures
            r@.kind == SourceKindV::Path(folder@),
            r@.relevant =~= seq![SourceEntryV::Folder(folder@), SourceEntryV::File(file@)],
            folder@.len() > 0 && file@.len() > 0 ==> source_paths_ok(r),
    {
        let mut relevant = Vec::new();
        relevant.push(SourceEntry::Folder(folder.clone_path()));
        relevant.push(SourceEntry::File(file.clone_path()));
        let r = Source { kind: SourceKind::Path(folder.clone_path()), relevant };
        proof {
            assert(r@.relevant =~= seq![
                SourceEntryV::Folder(folder@),
                SourceEntryV::File(file@),
            ]);
        }
        r
    }

    /// A project-node backing, owning its project file as relevant entry.
    pub fn project(name: &String, path: &FsPath, node: ProjectNode, node_path: NodePath) -> (r:
        Source)
        ensures
            r@.kind == SourceKindV::Project(
                ProjectSourceV { name: name@, path: path@, node: node@, node_path: node_path@ },
            ),
            r@.relevant =~= seq![SourceEntryV::Project(path@)],
            path@.len() > 0 && crate::project::node_wf(node) ==> source_paths_ok(r),
    {
        let mut relevant = Vec::new();
        relevant.push(SourceEntry::Project(path.clone_path()));
        let r = Source {
            kind: SourceKind::Project(
                ProjectSource { name: name.clone(), path: path.clone_path(), node, node_path },
            ),
            relevant,
        };
        proof {
            assert(r@.relevant =~= seq![SourceEntryV::Project(path@)]);
        }
        r
    }

    pub fn clone_source(&self) -> (r: Source)
        ensures
            r@ == self@,
            source_paths_ok(*self) ==> source_paths_ok(r),
    {
        let kind = match &self.kind {
            SourceKind::Unbacked => SourceKind::Unbacked,
            SourceKind::Path(p) => SourceKind::Path(p.clone_path()),
            SourceKind::Project(ps) => SourceKind::Project(ProjectSource {
                name: ps.name.clone(),
                path: ps.path.clone_path(),
                node: clone_node(&ps.node),
                node_path: ps.node_path.clone_node_path(),
            }),
        };
        let relevant = clone_entries(&self.relevant);
        let r = Source { kind, relevant };
        proof {
            assert(r@ =~= self@);
            if source_paths_ok(*self) {
                assert(source_paths_ok(r));
            }
        }
        r
    }

    /// Replace the relevant entries.
    pub fn with_relevant(self, relevant: Vec<SourceEntry>) -> (r: Source)
        ensures
            r.kind == self.kind,
            r.relevant == relevant,
            r@.kind == self@.kind,
            r@.relevant == relevant@.map_values(|e: SourceEntry| e@),
    {
        Source { kind: self.kind, relevant }
    }

    /// The first data entry, if any.
    pub fn get_data(&self) -> (r: Option<&SourceEntry>)
        ensures
            match r {
                Some(e) => spec_first_data(self@.relevant) == Some(e@),
                None => spec_first_data(self@.relevant) is None,
            },
    {
        let mut i: usize = 0;
        proof {
            assert(self@.relevant.skip(0) =~= self@.relevant);
        }
        while i < self.relevant.len()
            invariant
                i <= self.relevant@.len(),
                spec_first_data(self@.relevant) == spec_first_data(self@.relevant.skip(i as int)),
            decreases self.relevant@.len() - i,
        {
            proof {
                assert(self@.relevant.skip(i as int)[0] == self@.relevant[i as int]);
                assert(self@.relevant.skip(i as int).drop_first() =~= self@.relevant.skip(
                    i as int + 1,
                ));
            }
            match &self.relevant[i] {
                SourceEntry::Data(_) => {
                    return Some(&self.relevant[i]);
                }
                _ => {}
            }
            i += 1;
        }
        proof {
            assert(self@.relevant.skip(self@.relevant.len() as int).len() == 0);
        }
        None
    }

    /// The first file entry, if any.
    pub fn get_file(&self) -> (r: Option<&SourceEntry>)
        ensures
            match r {
                Some(e) => spec_first_file(self@.relevant) == Some(e@),
                None => spec_first_file(self@.relevant) is None,
            },
    {
        let mut i: usize = 0;
        proof {
            assert(self@.relevant.skip(0) =~= self@.relevant);
        }
        while i < self.relevant.len()
            invariant
                i <= self.relevant@.len(),
                spec_first_file(self@.relevant) == spec_first_file(self@.relevant.skip(i as int)),
            decreases self.relevant@.len() - i,
        {
            proof {
                assert(self@.relevant.skip(i as int)[0] == self@.relevant[i as int]);
                assert(self@.relevant.skip(i as int).drop_first() =~= self@.relevant.skip(
                    i as int + 1,
                ));
            }
            match &self.relevant[i] {
                SourceEntry::File(_) => {
                    return Some(&self.relevant[i]);
                }
                _ => {}
            }
            i += 1;
        }
        proof {
            assert(self@.relevant.skip(self@.relevant.len() as int).len() == 0);
        }
        None
    }

    /// The first folder entry, if any.
    pub fn get_folder(&self) -> (r: Option<&SourceEntry>)
        ensures
            match r {
                Some(e) => spec_first_folder(self@.relevant) == Some(e@),
                None => spec_first_folder(self@.relevant) is None,
            },
    {
        let mut i: usize = 0;
        proof {
            assert(self@.relevant.skip(0) =~= self@.relevant);
        }
        while i < self.relevant.len()
            invariant
                i <= self.relevant@.len(),
                spec_first_folder(self@.relevant) == spec_first_folder(
                    self@.relevant.skip(i as int),
                ),
            decreases self.relevant@.len() - i,
        {
            proof {
                assert(self@.relevant.skip(i as int)[0] == self@.relevant[i as int]);
                assert(self@.relevant.skip(i as int).drop_first() =~= self@.relevant.skip(
                    i as int + 1,
                ));
            }
            match &self.relevant[i] {
                SourceEntry::Folder(_) => {
                    return Some(&self.relevant[i]);
                }
                _ => {}
            }
            i += 1;
        }
        proof {
            assert(self@.relevant.skip(self@.relevant.len() as int).len() == 0);
        }
        None
    }

    /// Add a data entry.
    pub fn add_data(&mut self, path: &FsPath)
        ensures
            final(self)@.kind == old(self)@.kind,
            final(self).kind == old(self).kind,
            final(self)@.relevant == old(self)@.relevant.push(SourceEntryV::Data(path@)),
            final(self).relevant@.len() == old(self).relevant@.len() + 1,
            forall|i: int| 0 <= i < old(self).relevant@.len() ==> final(self).relevant@[i]
                == old(self).relevant@[i],
            final(self).relevant@.last()@ == SourceEntryV::Data(path@),
            source_paths_ok(*old(self)) && path@.len() > 0 ==> source_paths_ok(*final(self)),
    {
        self.relevant.push(SourceEntry::Data(path.clone_path()));
        proof {
            assert(final(self)@.relevant =~= old(self)@.relevant.push(SourceEntryV::Data(path@)));
        }
    }

    /// Add a file entry.
    pub fn add_file(&mut self, path: &FsPath)
        ensures
            final(self)@.kind == old(self)@.kind,
            final(self).kind == old(self).kind,
            final(self)@.relevant == old(self)@.relevant.push(SourceEntryV::File(path@)),
            final(self).relevant@.len() == old(self).relevant@.len() + 1,
            forall|i: int| 0 <= i < old(self).relevant@.len() ==> final(self).relevant@[i]
                == old(self).relevant@[i],
            final(self).relevant@.last()@ == SourceEntryV::File(path@),
            source_paths_ok(*old(self)) && path@.len() > 0 ==> source_paths_ok(*final(self)),
    {
        self.relevant.push(SourceEntry::File(path.clone_path()));
        proof {
            assert(final(self)@.relevant =~= old(self)@.relevant.push(SourceEntryV::File(path@)));
        }
    }

    /// Add a folder entry.
    pub fn add_folder_entry(&mut self, path: &FsPath)
        ensures
            final(self)@.kind == old(self)@.kind,
            final(self).kind == old(self).kind,
            final(self)@.relevant == old(self)@.relevant.push(SourceEntryV::Folder(path@)),
            final(self).relevant@.len() == old(self).relevant@.len() + 1,
            forall|i: int| 0 <= i < old(self).relevant@.len() ==> final(self).relevant@[i]
                == old(self).relevant@[i],
            final(self).relevant@.last()@ == SourceEntryV::Folder(path@),
            source_paths_ok(*old(self)) && path@.len() > 0 ==> source_paths_ok(*final(self)),
    {
        self.relevant.push(SourceEntry::Folder(path.clone_path()));
        proof {
            assert(final(self)@.relevant =~= old(self)@.relevant.push(
                SourceEntryV::Folder(path@),
            ));
        }
    }

    /// Append one entry of any kind.
    pub fn push_entry(&mut self, entry: SourceEntry)
        ensures
            final(self)@.kind == old(self)@.kind,
            final(self).kind == old(self).kind,
            final(self)@.relevant == old(self)@.relevant.push(entry@),
            final(self).relevant@.len() == old(self).relevant@.len() + 1,
            forall|i: int| 0 <= i < old(self).relevant@.len() ==> final(self).relevant@[i]
                == old(self).relevant@[i],
            final(self).relevant@.last() == entry,
            source_paths_ok(*old(self)) && entry_path(entry@).len() > 0 ==> source_paths_ok(
                *final(self),
            ),
    {
        self.relevant.push(entry);
        proof {
            assert(final(self)@.relevant =~= old(self)@.relevant.push(entry@));
        }
    }

    /// Add a project entry.
    pub fn add_project(&mut self, path: &FsPath)
        ensures
            final(self)@.kind == old(self)@.kind,
            final(self).kind == old(self).kind,
            final(self)@.relevant == old(self)@.relevant.push(SourceEntryV::Project(path@)),
            final(self).relevant@.len() == old(self).relevant@.len() + 1,
            forall|i: int| 0 <= i < old(self).relevant@.len() ==> final(self).relevant@[i]
                == old(self).relevant@[i],
            final(self).relevant@.last()@ == SourceEntryV::Project(path@),
            source_paths_ok(*old(self)) && path@.len() > 0 ==> source_paths_ok(*final(self)),
    {
        self.relevant.push(SourceEntry::Project(path.clone_path()));
        proof {
            assert(final(self)@.relevant =~= old(self)@.relevant.push(
                SourceEntryV::Project(path@),
            ));
        }
    }

    /// Replace the data entry: every data entry is dropped, and the new
    /// path, if any, appended.
    pub fn set_data(&mut self, path: Option<&FsPath>)
        ensures
            final(self)@.kind == old(self)@.kind,
            final(self).kind == old(self).kind,
            final(self)@.relevant == spec_set_data(
                old(self)@.relevant,
                match path {
                    Some(p) => Some(p@),
                    None => None,
                },
            ),
            (forall|i: int| 0 <= i < old(self).relevant@.len() ==> entry_path(
                (#[trigger] old(self).relevant@[i])@,
            ).len() > 0) && (match path {
                Some(p) => p@.len() > 0,
                None => true,
            }) ==> (forall|i: int| 0 <= i < final(self).relevant@.len() ==> entry_path(
                (#[trigger] final(self).relevant@[i])@,
            ).len() > 0),
    {
        let mut kept: Vec<SourceEntry> = Vec::new();
        let mut i: usize = 0;
        while i < self.relevant.len()
            invariant
                i <= self.relevant@.len(),
                kept@.map_values(|e: SourceEntry| e@) =~= spec_drop_data(
                    self@.relevant.take(i as int),
                ),
                (forall|j: int| 0 <= j < self.relevant@.len() ==> entry_path(
                    (#[trigger] self.relevant@[j])@,
                ).len() > 0) ==> (forall|j: int| 0 <= j < kept@.len() ==> entry_path(
                    (#[trigger] kept@[j])@,
                ).len() > 0),
            decreases self.relevant@.len() - i,
        {
            let ghost prevkept = kept@.map_values(|e: SourceEntry| e@);
            let keep = match &self.relevant[i] {
                SourceEntry::Data(_) => false,
                _ => true,
            };
            if keep {
                kept.push(self.relevant[i].clone_entry());
            }
            proof {
                assert(self@.relevant.take(i as int + 1).drop_last() =~= self@.relevant.take(
                    i as int,
                ));
                if keep {
                    assert(kept@.map_values(|e: SourceEntry| e@) =~= prevkept.push(
                        self@.relevant[i as int],
                    ));
                }
                assert(kept@.map_values(|e: SourceEntry| e@) =~= spec_drop_data(
                    self@.relevant.take(i as int + 1),
                ));
            }
            i += 1;
        }
        proof {
            assert(self@.relevant.take(self@.relevant.len() as int) =~= self@.relevant);
        }
        match path {
            Some(p) => {
                kept.push(SourceEntry::Data(p.clone_path()));
            }
            None => {}
        }
        self.relevant = kept;
        proof {
            assert(final(self)@.relevant =~= spec_set_data(
                old(self)@.relevant,
                match path {
                    Some(p) => Some(p@),
                    None => None,
                },
            ));
        }
    }
}

/// Clone a list of source entries, preserving the view.
pub fn clone_entries(v: &Vec<SourceEntry>) -> (r: Vec<SourceEntry>)
    ensures
        r@.map_values(|e: SourceEntry| e@) == v@.map_values(|e: SourceEntry| e@),
        r@.len() == v@.len(),
        forall|i: int| 0 <= i < v@.len() ==> (#[trigger] r@[i])@ == v@[i]@,
{
    let mut r: Vec<SourceEntry> = Vec::new();
    let mut i: usize = 0;
    while i < v.len()
        invariant
            i <= v@.len(),
            r@.len() == i,
            forall|j: int| 0 <= j < i ==> (#[trigger] r@[j])@ == v@[j]@,
        decreases v@.len() - i,
    {
        r.push(v[i].clone_entry());
        i += 1;
    }
    proof {
        assert(r@.map_values(|e: SourceEntry| e@) =~= v@.map_values(|e: SourceEntry| e@));
    }
    r
}

/// The first data entry of a relevant list.
pub open spec fn spec_first_data(rel: Seq<SourceEntryV>) -> Option<SourceEntryV>
    decreases rel.len(),
{
    if rel.len() == 0 {
        None
    } else if rel[0] is Data {
        Some(rel[0])
    } else {
        spec_first_data(rel.drop_first())
    }
}

/// The first file entry of a relevant list.
pub open spec fn spec_first_file(rel: Seq<SourceEntryV>) -> Option<SourceEntryV>
    decreases rel.len(),
{
    if rel.len() == 0 {
        None
    } else if rel[0] is File {
        Some(rel[0])
    } else {
        spec_first_file(rel.drop_first())
    }
}

/// The first folder entry of a relevant list.
pub open spec fn spec_first_folder(rel: Seq<SourceEntryV>) -> Option<SourceEntryV>
    decreases rel.len(),
{
    if rel.len() == 0 {
        None
    } else if rel[0] is Folder {
        Some(rel[0])
    } else {
        spec_first_folder(rel.drop_first())
    }
}

/// A relevant list with its data entries removed.
pub open spec fn spec_drop_data(rel: Seq<SourceEntryV>) -> Seq<SourceEntryV>
    decreases rel.len(),
{
    if rel.len() == 0 {
        Seq::empty()
    } else if rel.last() is Data {
        spec_drop_data(rel.drop_last())
    } else {
        spec_drop_data(rel.drop_last()).push(rel.last())
    }
}

/// A relevant list after replacing the data entry.
pub open spec fn spec_set_data(
    rel: Seq<SourceEntryV>,
    path: Option<Seq<PathCompV>>,
) -> Seq<SourceEntryV> {
    match path {
        Some(p) => spec_drop_data(rel).push(SourceEntryV::Data(p)),
        None => spec_drop_data(rel),
    }
}

/// Every path a source names is non-empty, so file-name operations are
/// defined on it.
pub open spec fn source_paths_ok(s: Source) -> bool {
    &&& match s.kind {
        SourceKind::Unbacked => true,
        SourceKind::Path(p) => p@.len() > 0,
        SourceKind::Project(ps) => ps.path@.len() > 0 && crate::project::node_wf(ps.node),
    }
    &&& forall|i: int| 0 <= i < s.relevant@.len() ==> entry_path(
        (#[trigger] s.relevant@[i])@,
    ).len() > 0
}

/// Usable metadata: its database is well formed and its source names
/// non-empty paths.
pub open spec fn meta_ok(m: Meta) -> bool {
    m.context.reflection.wf() && source_paths_ok(m.source)
}

/// Per-instance sync metadata.
#[derive(Debug)]
pub struct Meta {
    pub source: Source,
    pub context: Context,
    pub keep_unknowns: bool,
    pub original_name: Option<String>,
    pub mesh_source: Option<String>,
}

pub ghost struct MetaV {
    pub source: SourceV,
    pub context: ContextV,
    pub keep_unknowns: bool,
    pub original_name: Option<Seq<char>>,
    pub mesh_source: Option<Seq<char>>,
}

impl View for Meta {
    type V = MetaV;

    open spec fn view(&self) -> MetaV {
        MetaV {
            source: self.source@,
            context: self.context@,
            keep_unknowns: self.keep_unknowns,
            original_name: opt_string_view(self.original_name),
            mesh_source: opt_string_view(self.mesh_source),
        }
    }
}

impl Meta {
    /// Well-formedness: the inherited context is well formed.
    pub open spec fn wf(&self) -> bool {
        self.context.wf()
    }

    /// Fresh metadata: unbacked, permissive filter, nothing set.
    pub fn new() -> (r: Meta)
        ensures
            r@.source.kind == SourceKindV::Unbacked,
            r@.source.relevant == Seq::<SourceEntryV>::empty(),
            r@.keep_unknowns == false,
            r@.original_name == Option::<Seq<char>>::None,
            r@.mesh_source == Option::<Seq<char>>::None,
    {
        Meta {
            source: Source::unbacked(),
            context: Context {
                sync_rules: Vec::new(),
                filter: SyncbackFilter::permit_all(),
                use_legacy_scripts: false,
                reflection: ReflectionDb::empty(),
            },
            keep_unknowns: false,
            original_name: None,
            mesh_source: None,
        }
    }

    pub fn clone_meta(&self) -> (r: Meta)
        ensures
            r@ == self@,
            self.wf() ==> r.wf(),
            meta_ok(*self) ==> meta_ok(r),
    {
        let r = Meta {
            source: self.source.clone_source(),
            context: self.context.clone_context(),
            keep_unknowns: self.keep_unknowns,
            original_name: clone_opt_string(&self.original_name),
            mesh_source: clone_opt_string(&self.mesh_source),
        };
        proof {
            assert(r@ =~= self@);
        }
        r
    }

    /// Replace the source.
    pub fn with_source(self, source: Source) -> (r: Meta)
        ensures
            r.source == source,
            r.context == self.context,
            r@.source == source@,
            r@.context == self@.context,
            r@.keep_unknowns == self@.keep_unknowns,
            r@.original_name == self@.original_name,
            r@.mesh_source == self@.mesh_source,
    {
        Meta { source, ..self }
    }

    /// Replace the inherited context.
    pub fn with_context(self, context: &Context) -> (r: Meta)
        ensures
            context.wf() ==> r.wf(),
            r.source == self.source,
            r@.context == context@,
            r@.source == self@.source,
            r@.keep_unknowns == self@.keep_unknowns,
            r@.original_name == self@.original_name,
            r@.mesh_source == self@.mesh_source,
    {
        Meta { context: context.clone_context(), ..self }
    }

    /// Replace the keep-unknowns flag.
    pub fn with_keep_unknowns(self, keep_unknowns: bool) -> (r: Meta)
        ensures
            r.source == self.source,
            r.context == self.context,
            r@.keep_unknowns == keep_unknowns,
            r@.source == self@.source,
            r@.context == self@.context,
            r@.original_name == self@.original_name,
            r@.mesh_source == self@.mesh_source,
    {
        Meta { keep_unknowns, ..self }
    }

    /// Replace the source in place.
    pub fn set_source(&mut self, source: Source)
        ensures
            final(self).source == source,
            final(self).context == old(self).context,
            final(self)@.source == source@,
            final(self)@.context == old(self)@.context,
            final(self)@.keep_unknowns == old(self)@.keep_unknowns,
            final(self)@.original_name == old(self)@.original_name,
            final(self)@.mesh_source == old(self)@.mesh_source,
    {
        self.source = source;
    }

    /// Replace the auxiliary mesh reference.
    pub fn set_mesh_source(&mut self, mesh_source: Option<String>)
        ensures
            final(self)@.mesh_source == opt_string_view(mesh_source),
            final(self)@.source == old(self)@.source,
            final(self)@.context == old(self)@.context,
            final(self)@.keep_unknowns == old(self)@.keep_unknowns,
            final(self)@.original_name == old(self)@.original_name,
    {
        self.mesh_source = mesh_source;
    }
}


impl Source {
    /// Point every file entry at `path`, as after relocating the main file.
    pub fn set_file_path(&mut self, path: &FsPath)
        ensures
            final(self)@.kind == old(self)@.kind,
            final(self).kind == old(self).kind,
            final(self)@.relevant == old(self)@.relevant.map_values(
                |e: SourceEntryV| if e is File {
                    SourceEntryV::File(path@)
                } else {
                    e
                },
            ),
            final(self).relevant@.len() == old(self).relevant@.len(),
            forall|i: int| 0 <= i < final(self).relevant@.len() ==> entry_path(
                (#[trigger] final(self).relevant@[i])@,
            ) == (if old(self).relevant@[i]@ is File {
                path@
            } else {
                entry_path(old(self).relevant@[i]@)
            }),
    {
        let mut rel: Vec<SourceEntry> = Vec::new();
        core::mem::swap(&mut rel, &mut self.relevant);
        let ghost oldrel = rel@;
        let mut out: Vec<SourceEntry> = Vec::new();
        let mut i: usize = 0;
        while i < rel.len()
            invariant
                rel@ == oldrel,
                i <= oldrel.len(),
                out@.len() == i,
                forall|j: int| 0 <= j < i ==> (#[trigger] out@[j])@ == (if oldrel[j]@ is File {
                    SourceEntryV::File(path@)
                } else {
                    oldrel[j]@
                }),
            decreases oldrel.len() - i,
        {
            match &rel[i] {
                SourceEntry::File(_) => {
                    out.push(SourceEntry::File(path.clone_path()));
                }
                e => {
                    out.push(e.clone_entry());
                }
            }
            i += 1;
        }
        self.relevant = out;
        proof {
            assert(final(self)@.relevant =~= old(self)@.relevant.map_values(
                |e: SourceEntryV| if e is File {
                    SourceEntryV::File(path@)
                } else {
                    e
                },
            ));
        }
    }
}

/// Appending a non-data entry leaves the first data entry unchanged.
pub proof fn lemma_first_data_push(rel: Seq<SourceEntryV>, x: SourceEntryV)
    requires
        !(x is Data),
    ensures
        spec_first_data(rel.push(x)) == spec_first_data(rel),
    decreases rel.len(),
{
    if rel.len() == 0 {
        assert(rel.push(x)[0] == x);
        assert(rel.push(x).drop_first() =~= Seq::<SourceEntryV>::empty());
    } else {
        assert(rel.push(x)[0] == rel[0]);
        assert(rel.push(x).drop_first() =~= rel.drop_first().push(x));
        lemma_first_data_push(rel.drop_first(), x);
    }
}

/// Dropping data entries keeps every remaining entry's path.
pub proof fn lemma_drop_data_paths(rel: Seq<SourceEntryV>)
    requires
        forall|i: int| 0 <= i < rel.len() ==> entry_path(#[trigger] rel[i]).len() > 0,
    ensures
        forall|i: int| 0 <= i < spec_drop_data(rel).len() ==> entry_path(
            #[trigger] spec_drop_data(rel)[i],
        ).len() > 0,
    decreases rel.len(),
{
    if rel.len() > 0 {
        assert(forall|i: int| 0 <= i < rel.drop_last().len() ==> entry_path(
            #[trigger] rel.drop_last()[i],
        ).len() > 0);
        lemma_drop_data_paths(rel.drop_last());
        if rel.last() is Data {
        } else {
            assert(spec_drop_data(rel) == spec_drop_data(rel.drop_last()).push(rel.last()));
            assert(forall|i: int| 0 <= i < spec_drop_data(rel).len() ==> entry_path(
                #[trigger] spec_drop_data(rel)[i],
            ).len() > 0) by {
                assert(entry_path(rel.last()).len() > 0);
                assert(forall|i: int| 0 <= i < spec_drop_data(rel).len() - 1
                    ==> spec_drop_data(rel)[i] == spec_drop_data(rel.drop_last())[i]);
            }
        }
    }
}


/// The first data entry, when there is one, carries a path that appears in
/// the list.
pub proof fn lemma_first_data_paths(rel: Seq<SourceEntryV>, ex: Seq<SourceEntry>)
    requires
        rel == ex.map_values(|e: SourceEntry| e@),
        forall|i: int| 0 <= i < ex.len() ==> entry_path((#[trigger] ex[i])@).len() > 0,
    ensures
        spec_first_data(rel) matches Some(e) ==> entry_path(e).len() > 0,
        spec_first_file(rel) matches Some(e) ==> entry_path(e).len() > 0,
        spec_first_folder(rel) matches Some(e) ==> entry_path(e).len() > 0,
    decreases ex.len(),
{
    if ex.len() > 0 {
        assert(rel[0] == ex[0]@);
        assert(forall|i: int| 0 <= i < ex.drop_first().len() ==> entry_path(
            (#[trigger] ex.drop_first()[i])@,
        ).len() > 0) by {
            assert(forall|i: int| 0 <= i < ex.drop_first().len() ==> ex.drop_first()[i] == ex[
                i + 1
            ]);
        }
        assert(rel.drop_first() =~= ex.drop_first().map_values(|e: SourceEntry| e@));
        lemma_first_data_paths(rel.drop_first(), ex.drop_first());
    }
}

/// The same statement for file entries, shared through the lemma above.
pub proof fn lemma_first_file_paths(rel: Seq<SourceEntryV>, ex: Seq<SourceEntry>)
    requires
        rel == ex.map_values(|e: SourceEntry| e@),
        forall|i: int| 0 <= i < ex.len() ==> entry_path((#[trigger] ex[i])@).len() > 0,
    ensures
        spec_first_file(rel) matches Some(e) ==> entry_path(e).len() > 0,
{
    lemma_first_data_paths(rel, ex);
}


/// A first rule of a kind is one of the rules, and of that kind.
pub proof fn lemma_first_rule_member(rules: Seq<SyncRuleV>, mw: Middleware)
    requires
        spec_first_rule_of(rules, mw) is Some,
    ensures
        exists|i: int| 0 <= i < rules.len() && (#[trigger] rules[i]) == spec_first_rule_of(
            rules,
            mw,
        )->Some_0,
        spec_first_rule_of(rules, mw)->Some_0.mw == mw,
    decreases rules.len(),
{
    if rules.len() > 0 {
        if rules[0].mw == mw {
            assert(rules[0] == spec_first_rule_of(rules, mw)->Some_0);
        } else {
            lemma_first_rule_member(rules.drop_first(), mw);
            let i = choose|i: int| 0 <= i < rules.drop_first().len() && (#[trigger] rules
                .drop_first()[i]) == spec_first_rule_of(rules.drop_first(), mw)->Some_0;
            assert(rules[i + 1] == spec_first_rule_of(rules, mw)->Some_0);
        }
    }
}

/// The sidecar rule owns its suffix: no content rule shares it. Under this
/// configuration sanity condition a located sidecar path can never collide
/// with a located content path.
pub open spec fn spec_data_rule_distinct(rules: Seq<SyncRuleV>) -> bool {
    match spec_first_rule_of(rules, Middleware::InstanceData) {
        Some(dr) => forall|i: int| 0 <= i < rules.len() && !((#[trigger] rules[i]).mw
            is InstanceData) ==> rules[i].suffix != dr.suffix,
        None => true,
    }
}

} // verus!
