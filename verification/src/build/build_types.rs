//! The module graph: modules, their source files and dirty flags, and the
//! build state that owns them.

use crate::build::packages::{Namespace, Package};
use crate::build::tables::{
    module_table, module_table_get, module_table_insert, module_table_names, module_table_new,
    name_set, name_set_insert, name_set_items, name_set_new, package_table, package_table_get,
};
use crate::config::Config;
use crate::project_context::ProjectContext;
use crate::text::views;
use ahash::{AHashMap, AHashSet};
use vstd::prelude::*;

verus! {

/// A point in time, as the whole seconds and the nanoseconds within the
/// second that have passed since the Unix epoch.
#[derive(Debug, Clone, Copy, PartialEq, Eq, Structural)]
pub struct Timestamp {
    pub secs: u64,
    pub nanos: u32,
}

/// How far parsing a file has come.
#[derive(Debug, Clone, Copy, PartialEq, Eq, Structural)]
pub enum ParseState {
    Pending,
    ParseError,
    Warning,
    Success,
}

/// How far compiling a file has come.
#[derive(Debug, Clone, Copy, PartialEq, Eq, Structural)]
pub enum CompileState {
    Pending,
    Error,
    Warning,
    Success,
}

/// The interface file of a module.
#[derive(Debug, Clone, PartialEq)]
pub struct Interface {
    pub path: String,
    pub parse_state: ParseState,
    pub compile_state: CompileState,
    pub last_modified: Timestamp,
    pub parse_dirty: bool,
}

/// The implementation file of a module.
#[derive(Debug, Clone, PartialEq)]
pub struct Implementation {
    pub path: String,
    pub parse_state: ParseState,
    pub compile_state: CompileState,
    pub last_modified: Timestamp,
    pub parse_dirty: bool,
}

/// The files of a module with sources of its own.
#[derive(Debug, Clone, PartialEq)]
pub struct SourceFile {
    pub implementation: Implementation,
    pub interface: Option<Interface>,
}

/// The module of a namespace, which lists the modules of the namespace
/// and has no files of its own.
#[derive(Debug, Clone, PartialEq)]
pub struct MlMap {
    pub parse_dirty: bool,
}

/// What a module is made from.
#[derive(Debug, Clone, PartialEq)]
pub enum SourceType {
    SourceFile(SourceFile),
    MlMap(MlMap),
}

impl SourceType {
    /// The name of the variant.
    pub open spec fn label(&self) -> Seq<char> {
        match self {
            SourceType::SourceFile(_) => "SourceFile"@,
            SourceType::MlMap(_) => "MlMap"@,
        }
    }

    /// The name of the variant, as it is shown to users.
    pub fn to_string(&self) -> (text: String)
        ensures
            text@ == self.label(),
    {
        match self {
            SourceType::SourceFile(_) => "SourceFile".to_owned(),
            SourceType::MlMap(_) => "MlMap".to_owned(),
        }
    }
}

/// One compilation unit, with its edges in the dependency graph and its
/// dirty flags.
#[derive(Debug, Clone)]
pub struct Module {
    pub source_type: SourceType,
    pub deps: AHashSet<String>,
    pub dependents: AHashSet<String>,
    pub package_name: String,
    pub compile_dirty: bool,
    pub last_compiled_cmi: Option<Timestamp>,
    pub last_compiled_cmt: Option<Timestamp>,
    pub deps_dirty: bool,
    pub is_type_dev: bool,
}

impl Module {
    /// The interface file of a module, if it has one. A synthetic
    /// aggregation module has none.
    pub open spec fn interface(&self) -> Option<Interface> {
        match self.source_type {
            SourceType::SourceFile(source_file) => source_file.interface,
            SourceType::MlMap(_) => None,
        }
    }

    /// Whether the parsed output of the module no longer reflects its
    /// sources.
    pub open spec fn parse_dirty(&self) -> bool {
        match self.source_type {
            SourceType::SourceFile(source_file) => source_file.implementation.parse_dirty || (
            source_file.interface matches Some(interface) && interface.parse_dirty),
            SourceType::MlMap(mlmap) => mlmap.parse_dirty,
        }
    }

    /// Whether the parsed output of the module no longer reflects its
    /// sources.
    pub fn is_parse_dirty(&self) -> (r: bool)
        ensures
            r == self.parse_dirty(),
    {
        match &self.source_type {
            SourceType::SourceFile(source_file) => {
                source_file.implementation.parse_dirty || match &source_file.interface {
                    Some(interface) => interface.parse_dirty,
                    None => false,
                }
            },
            SourceType::MlMap(mlmap) => mlmap.parse_dirty,
        }
    }

    /// Whether the module is the module of a namespace.
    pub fn is_mlmap(&self) -> (r: bool)
        ensures
            r == (self.source_type is MlMap),
    {
        matches!(self.source_type, SourceType::MlMap(_))
    }

    /// The interface file of the module, if it has one.
    pub fn get_interface(&self) -> (interface: &Option<Interface>)
        ensures
            *interface == self.interface(),
    {
        match &self.source_type {
            SourceType::SourceFile(source_file) => &source_file.interface,
            _ => &None,
        }
    }
}

/// The toolchain of the current run.
#[derive(Debug, Clone)]
pub struct CompilerInfo {
    /// Where the compiler executable lies.
    pub bsc_path: String,
    /// The content hash of the compiler executable.
    pub bsc_hash: [u8; 32],
    /// Where the runtime library lies.
    pub runtime_path: String,
}

/// Core build state: all that is needed for basic build operations.
#[derive(Debug)]
pub struct BuildState {
    pub project_context: ProjectContext,
    pub modules: AHashMap<String, Module>,
    pub packages: AHashMap<String, Package>,
    pub module_names: AHashSet<String>,
    pub deleted_modules: AHashSet<String>,
    pub compiler_info: CompilerInfo,
    pub deps_initialized: bool,
}

/// Whether every edge between two modules of the graph is recorded at both
/// ends: `d` is among the dependencies of `m` exactly when `m` is among the
/// dependents of `d`.
pub open spec fn edges_symmetric(modules: Map<Seq<char>, Module>) -> bool {
    forall|m: Seq<char>, d: Seq<char>|
        #![trigger modules[m], modules[d]]
        modules.contains_key(m) && modules.contains_key(d) ==> (name_set(modules[m].deps).contains(
            d,
        ) <==> name_set(modules[d].dependents).contains(m))
}

/// Whether a module can take the place `name` in a graph without an edge
/// being recorded at one end only.
pub open spec fn module_fits(modules: Map<Seq<char>, Module>, name: Seq<char>, module: Module) -> bool {
    &&& name_set(module.deps).contains(name) <==> name_set(module.dependents).contains(name)
    &&& forall|other: Seq<char>|
        #![trigger modules[other]]
        modules.contains_key(other) && other != name ==> {
            &&& name_set(module.deps).contains(other) <==> name_set(
                modules[other].dependents,
            ).contains(name)
            &&& name_set(module.dependents).contains(other) <==> name_set(
                modules[other].deps,
            ).contains(name)
        }
}

/// Whether a module has to be compiled again: its parsed output is stale,
/// or a module of the graph that it depends on has to be compiled.
pub open spec fn needs_compile(modules: Map<Seq<char>, Module>, name: Seq<char>) -> bool {
    modules[name].parse_dirty() || exists|dep: Seq<char>|
        name_set(modules[name].deps).contains(dep) && modules.contains_key(dep) && (
        #[trigger] modules[dep]).compile_dirty
}

/// Whether the compile flags of a graph are settled: every module that has
/// to be compiled again is marked so. No compile pass is complete before
/// this holds.
pub open spec fn compile_flags_settled(modules: Map<Seq<char>, Module>) -> bool {
    forall|name: Seq<char>| #[trigger]
        modules.contains_key(name) && needs_compile(modules, name) ==> modules[name].compile_dirty
}

impl BuildState {
    /// The modules of the graph, by name.
    pub open spec fn modules_map(&self) -> Map<Seq<char>, Module> {
        module_table(self.modules)
    }

    /// The packages of the graph, by name.
    pub open spec fn packages_map(&self) -> Map<Seq<char>, Package> {
        package_table(self.packages)
    }

    /// The name index holds exactly the names of the modules.
    pub open spec fn index_consistent(&self) -> bool {
        name_set(self.module_names) == self.modules_map().dom()
    }

    /// Every edge of the graph is recorded at both ends.
    pub open spec fn edges_symmetric(&self) -> bool {
        edges_symmetric(self.modules_map())
    }

    /// The package of a name, if the graph has one.
    pub fn get_package(&self, package_name: &str) -> (found: Option<&Package>)
        ensures
            match found {
                Some(package) => self.packages_map().contains_key(package_name@) && *package
                    == self.packages_map()[package_name@],
                None => !self.packages_map().contains_key(package_name@),
            },
    {
        package_table_get(&self.packages, package_name)
    }

    /// The module of a name, if the graph has one.
    pub fn get_module(&self, module_name: &str) -> (found: Option<&Module>)
        ensures
            match found {
                Some(module) => self.modules_map().contains_key(module_name@) && *module
                    == self.modules_map()[module_name@],
                None => !self.modules_map().contains_key(module_name@),
            },
    {
        module_table_get(&self.modules, module_name)
    }

    /// A state with the given packages and no module yet.
    pub fn new(
        project_context: ProjectContext,
        packages: AHashMap<String, Package>,
        compiler: CompilerInfo,
    ) -> (state: Self)
        ensures
            state.project_context == project_context,
            state.packages == packages,
            state.compiler_info == compiler,
            state.modules_map() == Map::<Seq<char>, Module>::empty(),
            name_set(state.module_names) == Set::<Seq<char>>::empty(),
            name_set(state.deleted_modules) == Set::<Seq<char>>::empty(),
            !state.deps_initialized,
            state.index_consistent(),
            state.edges_symmetric(),
    {
        Self {
            project_context,
            module_names: name_set_new(),
            modules: module_table_new(),
            packages,
            deleted_modules: name_set_new(),
            compiler_info: compiler,
            deps_initialized: false,
        }
    }

    /// Inserts a module under a name, or replaces the module of that name,
    /// and records the name in the index.
    pub fn insert_module(&mut self, module_name: &str, module: Module)
        ensures
            final(self).modules_map() == old(self).modules_map().insert(module_name@, module),
            name_set(final(self).module_names) == name_set(old(self).module_names).insert(
                module_name@,
            ),
            final(self).project_context == old(self).project_context,
            final(self).packages == old(self).packages,
            final(self).deleted_modules == old(self).deleted_modules,
            final(self).compiler_info == old(self).compiler_info,
            final(self).deps_initialized == old(self).deps_initialized,
            old(self).index_consistent() ==> final(self).index_consistent(),
            old(self).edges_symmetric() && module_fits(old(self).modules_map(), module_name@, module)
                ==> final(self).edges_symmetric(),
    {
        module_table_insert(&mut self.modules, module_name.to_owned(), module);
        name_set_insert(&mut self.module_names, module_name.to_owned());
        proof {
            if old(self).edges_symmetric() && module_fits(
                old(self).modules_map(),
                module_name@,
                module,
            ) {
                lemma_insert_keeps_symmetry(old(self).modules_map(), module_name@, module);
            }
        }
    }

    /// The configuration of the package at the root of the workspace.
    pub fn get_root_config(&self) -> (config: &Config)
        ensures
            *config == self.project_context.root_config,
    {
        self.project_context.get_root_config()
    }

    /// Whether every module that has to be compiled again is marked so.
    pub fn compile_flags_settled(&self) -> (settled: bool)
        ensures
            settled == compile_flags_settled(self.modules_map()),
    {
        let ghost modules = self.modules_map();
        let names = module_table_names(&self.modules);
        let mut i: usize = 0;
        while i < names.len()
            invariant
                i <= names.len(),
                modules == self.modules_map(),
                views(names@).to_set() == modules.dom(),
                forall|j: int|
                    0 <= j < i && needs_compile(modules, #[trigger] views(names@)[j])
                        ==> modules[views(names@)[j]].compile_dirty,
            decreases names.len() - i,
        {
            assert(views(names@)[i as int] == names@[i as int]@);
            assert(views(names@).to_set().contains(names@[i as int]@));
            match module_table_get(&self.modules, names[i].as_str()) {
                Some(module) => {
                    if !module.compile_dirty {
                        if module.is_parse_dirty() {
                            return false;
                        }
                        let deps = name_set_items(&module.deps);
                        let mut k: usize = 0;
                        while k < deps.len()
                            invariant
                                k <= deps.len(),
                                i < names.len(),
                                modules == self.modules_map(),
                                modules.contains_key(names@[i as int]@),
                                *module == modules[names@[i as int]@],
                                !module.compile_dirty,
                                views(deps@).to_set() == name_set(module.deps),
                                forall|j: int|
                                    0 <= j < k && modules.contains_key(#[trigger] views(deps@)[j])
                                        ==> !modules[views(deps@)[j]].compile_dirty,
                            decreases deps.len() - k,
                        {
                            assert(views(deps@)[k as int] == deps@[k as int]@);
                            assert(views(deps@).to_set().contains(deps@[k as int]@));
                            match module_table_get(&self.modules, deps[k].as_str()) {
                                Some(dep) => {
                                    if dep.compile_dirty {
                                        assert(needs_compile(modules, names@[i as int]@));
                                        return false;
                                    }
                                },
                                None => {},
                            }
                            k += 1;
                        }
                        proof {
                            assert forall|dep: Seq<char>|
                                name_set(module.deps).contains(dep) && modules.contains_key(dep)
                                    implies !(#[trigger] modules[dep]).compile_dirty by {
                                assert(views(deps@).to_set().contains(dep));
                                let j = choose|j: int| 0 <= j < deps.len() && views(deps@)[j] == dep;
                                assert(!modules[views(deps@)[j]].compile_dirty);
                            }
                            assert(!needs_compile(modules, names@[i as int]@));
                        }
                    }
                },
                None => {
                    assert(false);
                },
            }
            i += 1;
        }
        proof {
            assert forall|name: Seq<char>| #[trigger]
                modules.contains_key(name) && needs_compile(modules, name)
                    implies modules[name].compile_dirty by {
                assert(views(names@).to_set().contains(name));
                let j = choose|j: int| 0 <= j < names.len() && views(names@)[j] == name;
                assert(needs_compile(modules, views(names@)[j]));
            }
        }
        true
    }
}

/// Inserting a module that fits into a graph whose edges are symmetric gives
/// a graph whose edges are symmetric.
pub proof fn lemma_insert_keeps_symmetry(modules: Map<Seq<char>, Module>, name: Seq<char>, module: Module)
    requires
        edges_symmetric(modules),
        module_fits(modules, name, module),
    ensures
        edges_symmetric(modules.insert(name, module)),
{
    let after = modules.insert(name, module);
    assert forall|m: Seq<char>, d: Seq<char>|
        #![trigger after[m], after[d]]
        after.contains_key(m) && after.contains_key(d) implies (name_set(after[m].deps).contains(d)
        <==> name_set(after[d].dependents).contains(m)) by {
        if m == name && d == name {
        } else if m == name {
            assert(modules.contains_key(d));
            let _ = modules[d];
        } else if d == name {
            assert(modules.contains_key(m));
            let _ = modules[m];
        } else {
            let _ = (modules[m], modules[d]);
        }
    }
}

/// Build state together with what the command line overrides.
#[derive(Debug)]
pub struct BuildCommandState {
    pub build_state: BuildState,
    /// The warning-to-error policy given on the command line; it takes
    /// precedence over the one in the configuration file.
    pub warn_error_override: Option<String>,
}

/// Whether `pairs` lists every module of the graph once, each with the name
/// of its package.
pub open spec fn is_module_listing(
    pairs: Seq<(String, String)>,
    modules: Map<Seq<char>, Module>,
) -> bool {
    &&& pair_names(pairs).no_duplicates()
    &&& pair_names(pairs).to_set() == modules.dom()
    &&& forall|i: int|
        0 <= i < pairs.len() ==> (#[trigger] pairs[i]).1@ == modules[pairs[i].0@].package_name@
}

/// The module names of a listing, in order.
pub open spec fn pair_names(pairs: Seq<(String, String)>) -> Seq<Seq<char>> {
    Seq::new(pairs.len(), |i: int| pairs[i].0@)
}

impl BuildCommandState {
    /// A state with the given packages and override, and no module yet.
    pub fn new(
        project_context: ProjectContext,
        packages: AHashMap<String, Package>,
        compiler: CompilerInfo,
        warn_error_override: Option<String>,
    ) -> (state: Self)
        ensures
            state.warn_error_override == warn_error_override,
            state.build_state.project_context == project_context,
            state.build_state.packages == packages,
            state.build_state.compiler_info == compiler,
            state.build_state.modules_map() == Map::<Seq<char>, Module>::empty(),
            name_set(state.build_state.module_names) == Set::<Seq<char>>::empty(),
            name_set(state.build_state.deleted_modules) == Set::<Seq<char>>::empty(),
            !state.build_state.deps_initialized,
            state.build_state.index_consistent(),
            state.build_state.edges_symmetric(),
    {
        Self {
            build_state: BuildState::new(project_context, packages, compiler),
            warn_error_override,
        }
    }

    /// The warning-to-error policy given on the command line, if any.
    pub fn get_warn_error_override(&self) -> (policy: Option<String>)
        ensures
            policy == self.warn_error_override,
    {
        match &self.warn_error_override {
            Some(policy) => Some(policy.clone()),
            None => None,
        }
    }

    /// Every module of the graph with the name of its package, in no
    /// particular order. The listing is a snapshot: it does not borrow the
    /// graph.
    pub fn module_name_package_pairs(&self) -> (pairs: Vec<(String, String)>)
        ensures
            is_module_listing(pairs@, self.build_state.modules_map()),
    {
        let names = module_table_names(&self.build_state.modules);
        let ghost modules = self.build_state.modules_map();
        let mut pairs: Vec<(String, String)> = Vec::new();
        let mut i: usize = 0;
        while i < names.len()
            invariant
                i <= names.len(),
                modules == self.build_state.modules_map(),
                views(names@).no_duplicates(),
                views(names@).to_set() == modules.dom(),
                pairs.len() == i,
                forall|j: int| 0 <= j < i ==> (#[trigger] pairs[j]).0@ == names[j]@,
                forall|j: int|
                    0 <= j < i ==> (#[trigger] pairs[j]).1@ == modules[pairs[j].0@].package_name@,
            decreases names.len() - i,
        {
            assert(views(names@)[i as int] == names[i as int]@);
            assert(views(names@).to_set().contains(names[i as int]@));
            let name = names[i].clone();
            match module_table_get(&self.build_state.modules, name.as_str()) {
                Some(module) => {
                    pairs.push((name, module.package_name.clone()));
                },
                None => {
                    assert(false);
                },
            }
            i += 1;
        }
        assert(pair_names(pairs@) =~= views(names@));
        pairs
    }

    /// The core state that this state extends.
    pub fn get_build_state(&self) -> (state: &BuildState)
        ensures
            *state == self.build_state,
    {
        &self.build_state
    }

    /// The package of a name, if the graph has one.
    pub fn get_package(&self, package_name: &str) -> (found: Option<&Package>)
        ensures
            match found {
                Some(package) => self.build_state.packages_map().contains_key(package_name@)
                    && *package == self.build_state.packages_map()[package_name@],
                None => !self.build_state.packages_map().contains_key(package_name@),
            },
    {
        self.build_state.get_package(package_name)
    }

    /// The module of a name, if the graph has one.
    pub fn get_module(&self, module_name: &str) -> (found: Option<&Module>)
        ensures
            match found {
                Some(module) => self.build_state.modules_map().contains_key(module_name@)
                    && *module == self.build_state.modules_map()[module_name@],
                None => !self.build_state.modules_map().contains_key(module_name@),
            },
    {
        self.build_state.get_module(module_name)
    }

    /// Inserts a module into the core state; the override is untouched.
    pub fn insert_module(&mut self, module_name: &str, module: Module)
        ensures
            final(self).warn_error_override == old(self).warn_error_override,
            final(self).build_state.modules_map() == old(self).build_state.modules_map().insert(
                module_name@,
                module,
            ),
            name_set(final(self).build_state.module_names) == name_set(
                old(self).build_state.module_names,
            ).insert(module_name@),
            final(self).build_state.project_context == old(self).build_state.project_context,
            final(self).build_state.packages == old(self).build_state.packages,
            final(self).build_state.deleted_modules == old(self).build_state.deleted_modules,
            final(self).build_state.compiler_info == old(self).build_state.compiler_info,
            final(self).build_state.deps_initialized == old(self).build_state.deps_initialized,
            old(self).build_state.index_consistent() ==> final(self).build_state.index_consistent(),
            old(self).build_state.edges_symmetric() && module_fits(
                old(self).build_state.modules_map(),
                module_name@,
                module,
            ) ==> final(self).build_state.edges_symmetric(),
    {
        self.build_state.insert_module(module_name, module);
    }

    /// The configuration of the package at the root of the workspace.
    pub fn get_root_config(&self) -> (config: &Config)
        ensures
            *config == self.build_state.project_context.root_config,
    {
        self.build_state.get_root_config()
    }
}

/// A parsed file as it lies in a build folder.
#[derive(Debug)]
pub struct AstModule {
    pub module_name: String,
    pub package_name: String,
    pub namespace: Namespace,
    pub last_modified: Timestamp,
    pub ast_file_path: String,
    pub is_root: bool,
    pub suffix: String,
}

/// What lies in the build folders: parsed files and compiled artifacts, each
/// by the path or module name it belongs to.
#[derive(Debug)]
pub struct CompileAssetsState {
    pub ast_modules: AHashMap<String, AstModule>,
    pub cmi_modules: AHashMap<String, Timestamp>,
    pub cmt_modules: AHashMap<String, Timestamp>,
    pub ast_rescript_file_locations: AHashSet<String>,
    pub rescript_file_locations: AHashSet<String>,
}

} // verus!
