//! The file-watch coordinator: what a batch of filesystem events means for
//! the next build, and which files it marks as changed.

use crate::build::build_types::{
    is_module_listing, BuildCommandState, Implementation, Interface, Module, SourceFile,
    SourceType, Timestamp,
};
use crate::build::packages::Package;
use crate::build::tables::{module_table, module_table_get_mut, package_table_get};
use crate::escalation::{
    batch_outcome, lemma_batch_result, lemma_marks_keep_shape, only_marks, rank,
};
use crate::filter::PathFilter;
use crate::helpers;
use crate::lock::LOCKFILE;
use crate::paths::{
    components, ends_with, extension, file_name, is_same_path, join, path_components,
    path_ends_with, path_extension, path_file_name, path_join, same_path,
};
use crate::text::views;
use ahash::AHashMap;
use vstd::prelude::*;

verus! {

/// The name of the configuration file of a package.
pub const CONFIG_FILE: &'static str = "rescript.json";

/// What the next build has to be.
#[derive(Debug, Clone, Copy, PartialEq, Eq, Structural)]
pub enum CompileType {
    Incremental,
    Full,
    /// No build is needed.
    Nothing,
}

/// Whether a path names a source file, going by its extension.
pub open spec fn is_source_path(path: Seq<char>) -> bool {
    match path_extension(path) {
        Some(ext) => ext == "res"@ || ext == "resi"@,
        None => false,
    }
}

/// Whether a path names a source file, going by its extension.
pub fn is_rescript_file(path: &str) -> (r: bool)
    ensures
        r == is_source_path(path@),
{
    match extension(path) {
        Some(ext) => helpers::is_implementation_file(ext.as_str()) || helpers::is_interface_file(
            ext.as_str(),
        ),
        None => false,
    }
}

/// Whether the component at `i` is a build folder directly under a `lib`
/// folder.
pub open spec fn is_build_folder_at(parts: Seq<Seq<char>>, i: int) -> bool {
    0 < i < parts.len() && parts[i - 1] == "lib"@ && (parts[i] == "bs"@ || parts[i] == "ocaml"@)
}

/// Whether a path leads into the build output tree: somewhere in it, `lib` is
/// followed by `bs` or `ocaml`.
pub open spec fn in_build_tree(path: Seq<char>) -> bool {
    exists|i: int| #[trigger] is_build_folder_at(path_components(path), i)
}

/// Whether a path leads into the build output tree.
pub fn is_in_build_path(path: &str) -> (r: bool)
    ensures
        r == in_build_tree(path@),
{
    let parts = components(path);
    let mut i: usize = 1;
    while i < parts.len()
        invariant
            1 <= i,
            views(parts@) == path_components(path@),
            forall|j: int| 0 < j < i ==> !is_build_folder_at(views(parts@), j),
        decreases parts.len() - i,
    {
        if parts[i - 1].as_str().eq("lib") && (parts[i].as_str().eq("bs") || parts[i].as_str().eq(
            "ocaml",
        )) {
            assert(is_build_folder_at(views(parts@), i as int));
            return true;
        }
        i += 1;
    }
    false
}

/// The file name of a path as text, empty where the path has none.
pub open spec fn file_name_text(path: Seq<char>) -> Seq<char> {
    match path_file_name(path) {
        Some(name) => name,
        None => Seq::empty(),
    }
}

/// Whether a path passes the filter: there is no filter, or the filter does
/// not match the file name.
pub open spec fn passes_filter(path: Seq<char>, filter: Option<PathFilter>) -> bool {
    match filter {
        Some(filter) => !filter.matches(file_name_text(path)),
        None => true,
    }
}

/// Whether a path passes the filter, that is, whether the filter leaves it
/// in the build.
pub fn matches_filter(path: &str, filter: &Option<PathFilter>) -> (r: bool)
    ensures
        r == passes_filter(path@, *filter),
{
    let name = match file_name(path) {
        Some(name) => name,
        None => String::new(),
    };
    match filter {
        Some(filter) => !filter.is_match(name.as_str()),
        None => true,
    }
}

/// Whether a changed path counts for the build: it names a source file,
/// lies outside the build output tree and passes the filter.
pub open spec fn is_watched_source(path: Seq<char>, filter: Option<PathFilter>) -> bool {
    is_source_path(path) && !in_build_tree(path) && passes_filter(path, filter)
}

/// Whether a changed path counts for the build.
pub fn counts_for_build(path: &str, filter: &Option<PathFilter>) -> (r: bool)
    ensures
        r == is_watched_source(path@, *filter),
{
    is_rescript_file(path) && !is_in_build_path(path) && matches_filter(path, filter)
}

/// What happened to the paths of an event.
#[derive(Debug, Clone, Copy, PartialEq, Eq, Structural)]
pub enum EventKind {
    /// Something happened, it is not known what.
    Any,
    /// A file was opened, read or closed.
    Access,
    Create,
    /// The file changed, it is not known how.
    ModifyAny,
    /// The content of the file changed.
    ModifyData,
    ModifyMetadata,
    /// The file was renamed.
    ModifyName,
    ModifyOther,
    Remove,
    Other,
}

impl EventKind {
    /// The set of files may have changed: something was removed, created or
    /// renamed, or it is not known what happened.
    pub open spec fn structural(self) -> bool {
        self is Remove || self is Any || self is Create || self is ModifyName
    }

    /// The content of a file changed.
    pub open spec fn content(self) -> bool {
        self is ModifyData || self is ModifyAny
    }

    /// A file was modified, created or removed.
    pub open spec fn changes_file(self) -> bool {
        self is ModifyAny || self is ModifyData || self is ModifyMetadata || self is ModifyName
            || self is ModifyOther || self is Create || self is Remove
    }

    /// Whether the set of files may have changed.
    pub fn is_structural(self) -> (r: bool)
        ensures
            r == self.structural(),
    {
        matches!(self, EventKind::Remove | EventKind::Any | EventKind::Create | EventKind::ModifyName)
    }

    /// Whether the content of a file changed.
    pub fn is_content(self) -> (r: bool)
        ensures
            r == self.content(),
    {
        matches!(self, EventKind::ModifyData | EventKind::ModifyAny)
    }

    /// Whether a file was modified, created or removed.
    pub fn is_file_change(self) -> (r: bool)
        ensures
            r == self.changes_file(),
    {
        matches!(
            self,
            EventKind::ModifyAny | EventKind::ModifyData | EventKind::ModifyMetadata
                | EventKind::ModifyName | EventKind::ModifyOther | EventKind::Create
                | EventKind::Remove
        )
    }
}

/// One path of an event, with what the filesystem told of it when the event
/// was taken up.
#[derive(Debug, Clone)]
pub struct ChangedPath {
    /// The path as the event gave it.
    pub path: String,
    /// The canonical form of the path, where the filesystem could give one.
    pub canonical: Option<String>,
    /// When the file was last modified, where the filesystem could tell.
    pub modified: Option<Timestamp>,
}

/// A filesystem event.
#[derive(Debug, Clone)]
pub struct WatchEvent {
    pub kind: EventKind,
    pub paths: Vec<ChangedPath>,
}

/// Whether an event tells that the lock file was removed.
pub open spec fn is_lock_removal(event: WatchEvent) -> bool {
    event.kind is Remove && exists|i: int|
        0 <= i < event.paths.len() && #[trigger] path_ends_with(event.paths[i].path@, LOCKFILE@)
}

/// Whether a path names a configuration file.
pub open spec fn names_config_file(path: Seq<char>) -> bool {
    path_file_name(path) == Some(CONFIG_FILE@)
}

/// Whether an event tells that a configuration file was modified, created or
/// removed.
pub open spec fn is_config_change(event: WatchEvent) -> bool {
    event.kind.changes_file() && exists|i: int|
        0 <= i < event.paths.len() && #[trigger] names_config_file(event.paths[i].path@)
}

/// Whether one of the paths of an event counts for the build.
pub open spec fn has_watched_source(event: WatchEvent, filter: Option<PathFilter>) -> bool {
    exists|i: int|
        0 <= i < event.paths.len() && #[trigger] is_watched_source(event.paths[i].path@, filter)
}

/// Whether an event tells that the lock file was removed.
pub fn lock_removed(event: &WatchEvent) -> (r: bool)
    ensures
        r == is_lock_removal(*event),
{
    if !matches!(event.kind, EventKind::Remove) {
        return false;
    }
    let mut i: usize = 0;
    while i < event.paths.len()
        invariant
            i <= event.paths.len(),
            event.kind is Remove,
            forall|j: int| 0 <= j < i ==> !path_ends_with(event.paths[j].path@, LOCKFILE@),
        decreases event.paths.len() - i,
    {
        if ends_with(event.paths[i].path.as_str(), LOCKFILE) {
            return true;
        }
        i += 1;
    }
    false
}

/// Whether an event tells that a configuration file was modified, created
/// or removed.
pub fn config_changed(event: &WatchEvent) -> (r: bool)
    ensures
        r == is_config_change(*event),
{
    if !event.kind.is_file_change() {
        return false;
    }
    let mut i: usize = 0;
    while i < event.paths.len()
        invariant
            i <= event.paths.len(),
            event.kind.changes_file(),
            forall|j: int| 0 <= j < i ==> !names_config_file(event.paths[j].path@),
        decreases event.paths.len() - i,
    {
        let named = match file_name(event.paths[i].path.as_str()) {
            Some(name) => name.as_str().eq(CONFIG_FILE),
            None => false,
        };
        if named {
            assert(names_config_file(event.paths[i as int].path@));
            return true;
        }
        i += 1;
    }
    false
}

/// One of the two files of a module.
#[derive(Debug, Clone, Copy, PartialEq, Eq, Structural)]
pub enum FileSide {
    Implementation,
    Interface,
}

/// Which file of a module a canonical path is, if any. The files of a module
/// lie below the root of its package; the implementation is looked at first.
pub open spec fn owned_side(module: Module, package_path: Seq<char>, canonical: Seq<char>) -> Option<
    FileSide,
> {
    match module.source_type {
        SourceType::SourceFile(source_file) => {
            if same_path(canonical, path_join(package_path, source_file.implementation.path@)) {
                Some(FileSide::Implementation)
            } else if source_file.interface matches Some(interface) && same_path(
                canonical,
                path_join(package_path, interface.path@),
            ) {
                Some(FileSide::Interface)
            } else {
                None
            }
        },
        SourceType::MlMap(_) => None,
    }
}

/// The time of last modification after a change: what the filesystem told,
/// or what was known before where it told nothing.
pub open spec fn stamp_after(before: Timestamp, modified: Option<Timestamp>) -> Timestamp {
    match modified {
        Some(stamp) => stamp,
        None => before,
    }
}

/// A module after one of its files was seen to change: that file is marked
/// for parsing and carries the new time of modification. Nothing else of the
/// module changes.
pub open spec fn touched_module(module: Module, side: FileSide, modified: Option<Timestamp>) -> Module {
    match module.source_type {
        SourceType::SourceFile(source_file) => match side {
            FileSide::Implementation => Module {
                source_type: SourceType::SourceFile(
                    SourceFile {
                        implementation: Implementation {
                            last_modified: stamp_after(
                                source_file.implementation.last_modified,
                                modified,
                            ),
                            parse_dirty: true,
                            ..source_file.implementation
                        },
                        ..source_file
                    },
                ),
                ..module
            },
            FileSide::Interface => match source_file.interface {
                Some(interface) => Module {
                    source_type: SourceType::SourceFile(
                        SourceFile {
                            interface: Some(
                                Interface {
                                    last_modified: stamp_after(interface.last_modified, modified),
                                    parse_dirty: true,
                                    ..interface
                                },
                            ),
                            ..source_file
                        },
                    ),
                    ..module
                },
                None => module,
            },
        },
        SourceType::MlMap(_) => module,
    }
}

/// Marks the file of a module that a canonical path names, if it names one.
fn mark_if_owner(
    module: &mut Module,
    package_path: &str,
    canonical: &str,
    modified: Option<Timestamp>,
) -> (marked: bool)
    ensures
        marked == (owned_side(*old(module), package_path@, canonical@) is Some),
        *final(module) == match owned_side(*old(module), package_path@, canonical@) {
            Some(side) => touched_module(*old(module), side, modified),
            None => *old(module),
        },
{
    match &mut module.source_type {
        SourceType::SourceFile(source_file) => {
            let implementation_file = join(package_path, source_file.implementation.path.as_str());
            if is_same_path(canonical, implementation_file.as_str()) {
                if let Some(stamp) = modified {
                    source_file.implementation.last_modified = stamp;
                }
                source_file.implementation.parse_dirty = true;
                true
            } else {
                match &mut source_file.interface {
                    Some(interface) => {
                        let interface_file = join(package_path, interface.path.as_str());
                        if is_same_path(canonical, interface_file.as_str()) {
                            if let Some(stamp) = modified {
                                interface.last_modified = stamp;
                            }
                            interface.parse_dirty = true;
                            true
                        } else {
                            false
                        }
                    },
                    None => false,
                }
            }
        },
        SourceType::MlMap(_) => false,
    }
}

/// Marks the file of module `name` that a canonical path names, if `name`
/// is a module of the table and the path names one of its files.
fn mark_module_if_owner(
    modules: &mut AHashMap<String, Module>,
    name: &str,
    package_path: &str,
    canonical: &str,
    modified: Option<Timestamp>,
) -> (marked: bool)
    ensures
        marked == (module_table(*old(modules)).contains_key(name@) && owned_side(
            module_table(*old(modules))[name@],
            package_path@,
            canonical@,
        ) is Some),
        module_table(*final(modules)) == if marked {
            module_table(*old(modules)).insert(
                name@,
                touched_module(
                    module_table(*old(modules))[name@],
                    owned_side(module_table(*old(modules))[name@], package_path@, canonical@)->0,
                    modified,
                ),
            )
        } else {
            module_table(*old(modules))
        },
{
    match module_table_get_mut(modules, name) {
        Some(module) => {
            let marked = mark_if_owner(module, package_path, canonical, modified);
            assert(!marked ==> module_table(*old(modules)).insert(name@, *module) =~= module_table(
                *old(modules),
            ));
            marked
        },
        None => false,
    }
}

/// Which file of the module `name` of package `package` a canonical path
/// is, if both are known to the graph and the path is one of the module's
/// files.
pub open spec fn owner_at(
    modules: Map<Seq<char>, Module>,
    packages: Map<Seq<char>, Package>,
    name: Seq<char>,
    package: Seq<char>,
    canonical: Seq<char>,
) -> Option<FileSide> {
    if packages.contains_key(package) && modules.contains_key(name) {
        owned_side(modules[name], packages[package].path@, canonical)
    } else {
        None
    }
}

/// The modules after a file with the given canonical path was seen to
/// change. The modules are gone through in the given order; the first one
/// that the path belongs to is touched, and no other.
pub open spec fn mark_path(
    modules: Map<Seq<char>, Module>,
    packages: Map<Seq<char>, Package>,
    order: Seq<(String, String)>,
    canonical: Seq<char>,
    modified: Option<Timestamp>,
) -> Map<Seq<char>, Module>
    decreases order.len(),
{
    if order.len() == 0 {
        modules
    } else {
        match owner_at(modules, packages, order[0].0@, order[0].1@, canonical) {
            Some(side) => modules.insert(
                order[0].0@,
                touched_module(modules[order[0].0@], side, modified),
            ),
            None => mark_path(modules, packages, order.skip(1), canonical, modified),
        }
    }
}

/// Whether two states differ in their modules at most.
pub open spec fn same_but_modules(a: BuildCommandState, b: BuildCommandState) -> bool {
    &&& a.warn_error_override == b.warn_error_override
    &&& a.build_state.project_context == b.build_state.project_context
    &&& a.build_state.packages == b.build_state.packages
    &&& a.build_state.module_names == b.build_state.module_names
    &&& a.build_state.deleted_modules == b.build_state.deleted_modules
    &&& a.build_state.compiler_info == b.build_state.compiler_info
    &&& a.build_state.deps_initialized == b.build_state.deps_initialized
}

/// Marks the file that a canonical path names as changed. The modules are
/// gone through in the order of `order`, a list of module and package names;
/// the first module that the path belongs to is touched.
pub fn mark_changed_file(
    build_state: &mut BuildCommandState,
    order: &Vec<(String, String)>,
    canonical: &str,
    modified: Option<Timestamp>,
)
    ensures
        same_but_modules(*final(build_state), *old(build_state)),
        final(build_state).build_state.modules_map() == mark_path(
            old(build_state).build_state.modules_map(),
            old(build_state).build_state.packages_map(),
            order@,
            canonical@,
            modified,
        ),
{
    let ghost modules = build_state.build_state.modules_map();
    let ghost packages = build_state.build_state.packages_map();
    let mut i: usize = 0;
    assert(order@.skip(0) =~= order@);
    while i < order.len()
        invariant
            i <= order.len(),
            same_but_modules(*build_state, *old(build_state)),
            build_state.build_state.modules_map() == modules,
            modules == old(build_state).build_state.modules_map(),
            packages == old(build_state).build_state.packages_map(),
            mark_path(modules, packages, order@, canonical@, modified) == mark_path(
                modules,
                packages,
                order@.skip(i as int),
                canonical@,
                modified,
            ),
        decreases order.len() - i,
    {
        let ghost rest = order@.skip(i as int);
        assert(rest[0] == order@[i as int]);
        assert(rest.skip(1) =~= order@.skip(i + 1));
        assert(mark_path(modules, packages, rest, canonical@, modified) == match owner_at(
            modules,
            packages,
            rest[0].0@,
            rest[0].1@,
            canonical@,
        ) {
            Some(side) => modules.insert(rest[0].0@, touched_module(modules[rest[0].0@], side, modified)),
            None => mark_path(modules, packages, rest.skip(1), canonical@, modified),
        });
        let marked = match package_table_get(
            &build_state.build_state.packages,
            order[i].1.as_str(),
        ) {
            Some(package) => mark_module_if_owner(
                &mut build_state.build_state.modules,
                order[i].0.as_str(),
                package.path.as_str(),
                canonical,
                modified,
            ),
            None => false,
        };
        if marked {
            return ;
        }
        i += 1;
    }
    assert(order@.skip(i as int).len() == 0);
}

/// Where the handling of a batch stands: what the next build has to be, and
/// the modules with what was marked so far.
pub struct BatchState {
    pub decision: CompileType,
    pub modules: Map<Seq<char>, Module>,
}

/// The state after one path of an event was taken up.
///
/// A path that does not count for the build changes nothing, and nothing
/// changes once a full build is due. Otherwise a structural event makes a
/// full build due; a change of content makes an incremental build due and
/// marks the file, where its canonical path is known; any other event
/// changes nothing.
pub open spec fn after_path(
    state: BatchState,
    packages: Map<Seq<char>, Package>,
    order: Seq<(String, String)>,
    kind: EventKind,
    path: ChangedPath,
    filter: Option<PathFilter>,
) -> BatchState {
    if state.decision is Full || !is_watched_source(path.path@, filter) {
        state
    } else if kind.structural() {
        BatchState { decision: CompileType::Full, modules: state.modules }
    } else if kind.content() {
        BatchState {
            decision: CompileType::Incremental,
            modules: match path.canonical {
                Some(canonical) => mark_path(
                    state.modules,
                    packages,
                    order,
                    canonical@,
                    path.modified,
                ),
                None => state.modules,
            },
        }
    } else {
        state
    }
}

/// The state after the paths of an event were taken up in order.
pub open spec fn after_paths(
    state: BatchState,
    packages: Map<Seq<char>, Package>,
    order: Seq<(String, String)>,
    kind: EventKind,
    paths: Seq<ChangedPath>,
    filter: Option<PathFilter>,
) -> BatchState
    decreases paths.len(),
{
    if paths.len() == 0 {
        state
    } else {
        after_path(
            after_paths(state, packages, order, kind, paths.drop_last(), filter),
            packages,
            order,
            kind,
            paths.last(),
            filter,
        )
    }
}

/// The state after the events of a batch were taken up in the order in
/// which they came.
pub open spec fn after_events(
    state: BatchState,
    packages: Map<Seq<char>, Package>,
    order: Seq<(String, String)>,
    events: Seq<WatchEvent>,
    filter: Option<PathFilter>,
) -> BatchState
    decreases events.len(),
{
    if events.len() == 0 {
        state
    } else {
        after_paths(
            after_events(state, packages, order, events.drop_last(), filter),
            packages,
            order,
            events.last().kind,
            events.last().paths@,
            filter,
        )
    }
}

/// What a batch of events asks for.
#[derive(Debug, Clone, Copy, PartialEq, Eq, Structural)]
pub enum BatchOutcome {
    /// The lock file was removed: the session ends.
    Shutdown,
    /// The session goes on, and this is the build that is due.
    Decided(CompileType),
}

/// Whether one of the events tells that the lock file was removed.
pub open spec fn any_lock_removal(events: Seq<WatchEvent>) -> bool {
    exists|i: int| 0 <= i < events.len() && is_lock_removal(#[trigger] events[i])
}

/// Whether one of the events tells of a change to a configuration file.
pub open spec fn any_config_change(events: Seq<WatchEvent>) -> bool {
    exists|i: int| 0 <= i < events.len() && is_config_change(#[trigger] events[i])
}

/// What a batch asks for and what it leaves of the modules.
///
/// The removal of the lock file ends the session, whatever else the batch
/// holds. Failing that, a change to a configuration file makes a full build
/// due and no module is marked. Failing that too, the events are taken up
/// one by one.
pub open spec fn batch_result(
    decision: CompileType,
    modules: Map<Seq<char>, Module>,
    packages: Map<Seq<char>, Package>,
    order: Seq<(String, String)>,
    events: Seq<WatchEvent>,
    filter: Option<PathFilter>,
) -> (BatchOutcome, Map<Seq<char>, Module>) {
    if any_lock_removal(events) {
        (BatchOutcome::Shutdown, modules)
    } else if any_config_change(events) {
        (BatchOutcome::Decided(CompileType::Full), modules)
    } else {
        let end = after_events(BatchState { decision, modules }, packages, order, events, filter);
        (BatchOutcome::Decided(end.decision), end.modules)
    }
}

fn any_lock_removed(events: &Vec<WatchEvent>) -> (r: bool)
    ensures
        r == any_lock_removal(events@),
{
    let mut i: usize = 0;
    while i < events.len()
        invariant
            i <= events.len(),
            forall|j: int| 0 <= j < i ==> !is_lock_removal(#[trigger] events@[j]),
        decreases events.len() - i,
    {
        if lock_removed(&events[i]) {
            return true;
        }
        i += 1;
    }
    false
}

fn any_config_changed(events: &Vec<WatchEvent>) -> (r: bool)
    ensures
        r == any_config_change(events@),
{
    let mut i: usize = 0;
    while i < events.len()
        invariant
            i <= events.len(),
            forall|j: int| 0 <= j < i ==> !is_config_change(#[trigger] events@[j]),
        decreases events.len() - i,
    {
        if config_changed(&events[i]) {
            return true;
        }
        i += 1;
    }
    false
}

/// Takes up the paths of one event.
fn apply_event(
    build_state: &mut BuildCommandState,
    decision: CompileType,
    event: &WatchEvent,
    filter: &Option<PathFilter>,
    order: &Vec<(String, String)>,
) -> (next: CompileType)
    ensures
        same_but_modules(*final(build_state), *old(build_state)),
        (BatchState { decision: next, modules: final(build_state).build_state.modules_map() })
            == after_paths(
            (BatchState { decision, modules: old(build_state).build_state.modules_map() }),
            old(build_state).build_state.packages_map(),
            order@,
            event.kind,
            event.paths@,
            *filter,
        ),
{
    let ghost start = BatchState { decision, modules: build_state.build_state.modules_map() };
    let ghost packages = build_state.build_state.packages_map();
    let mut current = decision;
    let mut i: usize = 0;
    assert(event.paths@.take(0) =~= Seq::<ChangedPath>::empty());
    while i < event.paths.len()
        invariant
            i <= event.paths.len(),
            same_but_modules(*build_state, *old(build_state)),
            packages == old(build_state).build_state.packages_map(),
            start == (BatchState { decision, modules: old(build_state).build_state.modules_map() }),
            (BatchState { decision: current, modules: build_state.build_state.modules_map() })
                == after_paths(
                start,
                packages,
                order@,
                event.kind,
                event.paths@.take(i as int),
                *filter,
            ),
        decreases event.paths.len() - i,
    {
        let ghost upto = event.paths@.take(i + 1);
        assert(upto.drop_last() =~= event.paths@.take(i as int));
        assert(upto.last() == event.paths@[i as int]);
        let path = &event.paths[i];
        if !matches!(current, CompileType::Full) && counts_for_build(path.path.as_str(), filter) {
            if event.kind.is_structural() {
                current = CompileType::Full;
            } else if event.kind.is_content() {
                match &path.canonical {
                    Some(canonical) => {
                        mark_changed_file(build_state, order, canonical.as_str(), path.modified);
                    },
                    None => {},
                }
                current = CompileType::Incremental;
            }
        }
        i += 1;
    }
    assert(event.paths@.take(i as int) =~= event.paths@);
    current
}

/// Takes up a batch of events, going through the modules in the given
/// order wherever a changed file has to be found.
///
/// `order` lists module names with the names of their packages. A name that
/// the graph does not know is passed over.
pub fn apply_batch(
    build_state: &mut BuildCommandState,
    decision: CompileType,
    events: &Vec<WatchEvent>,
    filter: &Option<PathFilter>,
    order: &Vec<(String, String)>,
) -> (outcome: BatchOutcome)
    ensures
        same_but_modules(*final(build_state), *old(build_state)),
        (outcome, final(build_state).build_state.modules_map()) == batch_result(
            decision,
            old(build_state).build_state.modules_map(),
            old(build_state).build_state.packages_map(),
            order@,
            events@,
            *filter,
        ),
        outcome == batch_outcome(decision, events@, *filter),
        only_marks(
            old(build_state).build_state.modules_map(),
            final(build_state).build_state.modules_map(),
        ),
        old(build_state).build_state.index_consistent() ==> final(build_state)
            .build_state.index_consistent(),
        old(build_state).build_state.edges_symmetric() ==> final(build_state)
            .build_state.edges_symmetric(),
{
    proof {
        lemma_batch_result(
            decision,
            build_state.build_state.modules_map(),
            build_state.build_state.packages_map(),
            order@,
            events@,
            *filter,
        );
        lemma_marks_keep_shape(
            build_state.build_state.modules_map(),
            batch_result(
                decision,
                build_state.build_state.modules_map(),
                build_state.build_state.packages_map(),
                order@,
                events@,
                *filter,
            ).1,
        );
    }
    if any_lock_removed(events) {
        return BatchOutcome::Shutdown;
    }
    if any_config_changed(events) {
        return BatchOutcome::Decided(CompileType::Full);
    }
    let ghost start = BatchState { decision, modules: build_state.build_state.modules_map() };
    let ghost packages = build_state.build_state.packages_map();
    let mut current = decision;
    let mut i: usize = 0;
    assert(events@.take(0) =~= Seq::<WatchEvent>::empty());
    while i < events.len()
        invariant
            i <= events.len(),
            same_but_modules(*build_state, *old(build_state)),
            packages == old(build_state).build_state.packages_map(),
            packages == build_state.build_state.packages_map(),
            start == (BatchState { decision, modules: old(build_state).build_state.modules_map() }),
            (BatchState { decision: current, modules: build_state.build_state.modules_map() })
                == after_events(start, packages, order@, events@.take(i as int), *filter),
        decreases events.len() - i,
    {
        let ghost upto = events@.take(i + 1);
        assert(upto.drop_last() =~= events@.take(i as int));
        assert(upto.last() == events@[i as int]);
        current = apply_event(build_state, current, &events[i], filter, order);
        i += 1;
    }
    assert(events@.take(i as int) =~= events@);
    BatchOutcome::Decided(current)
}

/// Takes up a batch of events.
///
/// The result is that of `apply_batch` for some listing of the modules of
/// the graph: where two modules claim the same file, which of them is marked
/// depends on the order in which the graph hands out its modules.
pub fn handle_batch(
    build_state: &mut BuildCommandState,
    decision: CompileType,
    events: &Vec<WatchEvent>,
    filter: &Option<PathFilter>,
) -> (outcome: BatchOutcome)
    ensures
        same_but_modules(*final(build_state), *old(build_state)),
        exists|order: Seq<(String, String)>|
            is_module_listing(order, old(build_state).build_state.modules_map()) && (
                outcome,
                final(build_state).build_state.modules_map(),
            ) == #[trigger] batch_result(
                decision,
                old(build_state).build_state.modules_map(),
                old(build_state).build_state.packages_map(),
                order,
                events@,
                *filter,
            ),
        outcome == batch_outcome(decision, events@, *filter),
        only_marks(
            old(build_state).build_state.modules_map(),
            final(build_state).build_state.modules_map(),
        ),
        old(build_state).build_state.index_consistent() ==> final(build_state)
            .build_state.index_consistent(),
        old(build_state).build_state.edges_symmetric() ==> final(build_state)
            .build_state.edges_symmetric(),
{
    let order = build_state.module_name_package_pairs();
    apply_batch(build_state, decision, events, filter, &order)
}

/// How long the coordinator waits, in milliseconds, before it drains the
/// queue of events, so that writes in several steps can finish.
pub const SETTLE_DELAY_MS: u64 = 50;

/// How long the coordinator sleeps, in milliseconds, when there is nothing
/// to build.
pub const IDLE_DELAY_MS: u64 = 50;

/// What the coordinator does at the start of a round.
#[derive(Debug, Clone, Copy, PartialEq, Eq, Structural)]
pub enum Intake {
    /// An interrupt was seen: tear down and leave the loop.
    Shutdown,
    /// Events are queued: wait for the settle delay, then drain the queue.
    SettleAndDrain,
    /// Nothing is queued: the batch of this round is empty.
    Skip,
}

/// What the coordinator does once the batch of a round was taken up.
#[derive(Debug, Clone, Copy, PartialEq, Eq, Structural)]
pub enum LoopAction {
    /// Tear down and leave the loop.
    Shutdown,
    /// Build what is marked. `initial_build` tells whether this is the first
    /// build of the session, `only_incremental` whether the build may skip
    /// what a first build has to do.
    Incremental { initial_build: bool, only_incremental: bool },
    /// Scan the project anew, register the watches of the new graph, then
    /// build everything.
    Full { initial_build: bool },
    /// Sleep for the idle delay.
    Idle,
}

/// The state of the coordinator between rounds.
#[derive(Debug, Clone, Copy, PartialEq, Eq, Structural)]
pub struct WatchSession {
    /// The build that is due.
    pub decision: CompileType,
    /// Whether no build has run yet in this session.
    pub initial_build: bool,
}

/// The action that a decision calls for.
pub open spec fn action_for(decision: CompileType, initial_build: bool) -> LoopAction {
    match decision {
        CompileType::Incremental => LoopAction::Incremental {
            initial_build,
            only_incremental: !initial_build,
        },
        CompileType::Full => LoopAction::Full { initial_build },
        CompileType::Nothing => LoopAction::Idle,
    }
}

impl WatchSession {
    /// A session starts with an incremental build due: the graph it is
    /// given was just scanned and nothing of it is built yet.
    pub fn new() -> (session: Self)
        ensures
            session.decision is Incremental,
            session.initial_build,
    {
        WatchSession { decision: CompileType::Incremental, initial_build: true }
    }

    /// What to do at the start of a round. An interrupt ends the session
    /// whatever is due or queued.
    pub fn begin_round(&self, interrupted: bool, events_queued: bool) -> (intake: Intake)
        ensures
            intake == if interrupted {
                Intake::Shutdown
            } else if events_queued {
                Intake::SettleAndDrain
            } else {
                Intake::Skip
            },
    {
        if interrupted {
            Intake::Shutdown
        } else if events_queued {
            Intake::SettleAndDrain
        } else {
            Intake::Skip
        }
    }

    /// Takes up the batch of a round and tells what to do next. The decision
    /// of the session never falls back within a round.
    pub fn take_batch(
        &mut self,
        build_state: &mut BuildCommandState,
        events: &Vec<WatchEvent>,
        filter: &Option<PathFilter>,
    ) -> (action: LoopAction)
        ensures
            same_but_modules(*final(build_state), *old(build_state)),
            only_marks(
                old(build_state).build_state.modules_map(),
                final(build_state).build_state.modules_map(),
            ),
            final(self).initial_build == old(self).initial_build,
            match batch_outcome(old(self).decision, events@, *filter) {
                BatchOutcome::Shutdown => action is Shutdown && final(self).decision
                    == old(self).decision,
                BatchOutcome::Decided(decision) => final(self).decision == decision && action
                    == action_for(decision, old(self).initial_build),
            },
            rank(final(self).decision) >= rank(old(self).decision),
            exists|order: Seq<(String, String)>|
                is_module_listing(order, old(build_state).build_state.modules_map())
                    && final(build_state).build_state.modules_map() == (#[trigger] batch_result(
                    old(self).decision,
                    old(build_state).build_state.modules_map(),
                    old(build_state).build_state.packages_map(),
                    order,
                    events@,
                    *filter,
                )).1,
    {
        match handle_batch(build_state, self.decision, events, filter) {
            BatchOutcome::Shutdown => LoopAction::Shutdown,
            BatchOutcome::Decided(decision) => {
                self.decision = decision;
                match decision {
                    CompileType::Incremental => LoopAction::Incremental {
                        initial_build: self.initial_build,
                        only_incremental: !self.initial_build,
                    },
                    CompileType::Full => LoopAction::Full { initial_build: self.initial_build },
                    CompileType::Nothing => LoopAction::Idle,
                }
            },
        }
    }

    /// Records that the build that was due has run: nothing is due any
    /// more, and the next build is not the first.
    pub fn build_finished(&mut self)
        ensures
            final(self).decision is Nothing,
            !final(self).initial_build,
    {
        self.decision = CompileType::Nothing;
        self.initial_build = false;
    }
}

/// Whether the command that the user asked to run after a build is run
/// after this one. After an incremental build it runs only if the build
/// succeeded; after a full build it runs in any case.
pub fn runs_after_build(action: LoopAction, build_succeeded: bool) -> (runs: bool)
    ensures
        runs == match action {
            LoopAction::Incremental { .. } => build_succeeded,
            LoopAction::Full { .. } => true,
            _ => false,
        },
{
    match action {
        LoopAction::Incremental { .. } => build_succeeded,
        LoopAction::Full { .. } => true,
        _ => false,
    }
}

} // verus!
