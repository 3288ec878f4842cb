use ahash::{AHashMap, AHashSet};
use rewatch::build::build_types::{
    BuildCommandState, BuildState, CompileState, CompilerInfo, Implementation, Interface, MlMap,
    Module, ParseState, SourceFile, SourceType, Timestamp,
};
use rewatch::build::packages::Package;
use rewatch::config::Config;
use rewatch::project_context::ProjectContext;

fn config(name: &str) -> Config {
    Config {
        name: name.to_string(),
        path: format!("/work/{name}/rescript.json"),
        dependencies: None,
        dev_dependencies: None,
    }
}

fn compiler() -> CompilerInfo {
    CompilerInfo {
        bsc_path: "/toolchain/bsc".to_string(),
        bsc_hash: [7u8; 32],
        runtime_path: "/toolchain/runtime".to_string(),
    }
}

fn names(items: &[&str]) -> AHashSet<String> {
    items.iter().map(|item| item.to_string()).collect()
}

fn source_module(package: &str, path: &str, deps: &[&str], dependents: &[&str]) -> Module {
    Module {
        source_type: SourceType::SourceFile(SourceFile {
            implementation: Implementation {
                path: path.to_string(),
                parse_state: ParseState::Success,
                compile_state: CompileState::Success,
                last_modified: Timestamp { secs: 1, nanos: 0 },
                parse_dirty: false,
            },
            interface: None,
        }),
        deps: names(deps),
        dependents: names(dependents),
        package_name: package.to_string(),
        compile_dirty: false,
        last_compiled_cmi: None,
        last_compiled_cmt: None,
        deps_dirty: false,
        is_type_dev: false,
    }
}

fn packages() -> AHashMap<String, Package> {
    let mut packages = AHashMap::new();
    packages.insert(
        "app".to_string(),
        Package {
            name: "app".to_string(),
            config: config("app"),
            path: "/work/app".to_string(),
            source_folders: vec![],
            source_files: None,
            dirs: None,
            is_local_dep: true,
            is_root: true,
        },
    );
    packages
}

fn empty_state() -> BuildState {
    BuildState::new(ProjectContext { root_config: config("app") }, packages(), compiler())
}

fn edges_symmetric(state: &BuildState) -> bool {
    state.modules.iter().all(|(m, module)| {
        state.modules.iter().all(|(d, other)| module.deps.contains(d) == other.dependents.contains(m))
    })
}

#[test]
fn new_state_is_empty() {
    let state = empty_state();
    assert!(state.modules.is_empty());
    assert!(state.module_names.is_empty());
    assert!(state.deleted_modules.is_empty());
    assert!(!state.deps_initialized);
    assert_eq!(state.packages.len(), 1);
    assert_eq!(state.compiler_info.bsc_path, "/toolchain/bsc");
    assert_eq!(state.get_root_config().name, "app");
    assert!(edges_symmetric(&state));
}

#[test]
fn insert_module_keeps_index_in_step() {
    let mut state = empty_state();
    state.insert_module("Foo", source_module("app", "src/Foo.res", &[], &[]));
    state.insert_module("Bar", source_module("app", "src/Bar.res", &[], &[]));
    state.insert_module("Foo", source_module("app", "src/Foo2.res", &[], &[]));
    let keys: AHashSet<String> = state.modules.keys().cloned().collect();
    assert_eq!(keys, state.module_names);
    assert_eq!(state.modules.len(), 2);
    match &state.get_module("Foo").unwrap().source_type {
        SourceType::SourceFile(file) => assert_eq!(file.implementation.path, "src/Foo2.res"),
        SourceType::MlMap(_) => panic!("Foo is a source file"),
    }
    assert!(state.get_module("Baz").is_none());
}

#[test]
fn lookups_find_what_was_stored() {
    let mut state = empty_state();
    state.insert_module("Foo", source_module("app", "src/Foo.res", &[], &[]));
    assert_eq!(state.get_module("Foo").unwrap().package_name, "app");
    assert!(state.get_module("foo").is_none());
    assert_eq!(state.get_package("app").unwrap().path, "/work/app");
    assert!(state.get_package("lib").is_none());
}

#[test]
fn inserting_fitting_modules_keeps_edges_symmetric() {
    let mut state = empty_state();
    state.insert_module("Foo", source_module("app", "src/Foo.res", &["Bar"], &[]));
    state.insert_module("Bar", source_module("app", "src/Bar.res", &[], &["Foo"]));
    assert!(edges_symmetric(&state));
    assert!(state.get_module("Foo").unwrap().deps.contains("Bar"));
    assert!(state.get_module("Bar").unwrap().dependents.contains("Foo"));
}

#[test]
fn inserting_a_module_with_a_one_sided_edge_breaks_symmetry() {
    let mut state = empty_state();
    state.insert_module("Bar", source_module("app", "src/Bar.res", &[], &[]));
    state.insert_module("Foo", source_module("app", "src/Foo.res", &["Bar"], &[]));
    assert!(!edges_symmetric(&state));
}

#[test]
fn pairs_list_every_module_once() {
    let mut state = BuildCommandState::new(
        ProjectContext { root_config: config("app") },
        packages(),
        compiler(),
        Some("+8".to_string()),
    );
    assert!(state.module_name_package_pairs().is_empty());
    state.insert_module("Foo", source_module("app", "src/Foo.res", &[], &[]));
    state.insert_module("Bar", source_module("app", "src/Bar.res", &[], &[]));
    let mut pairs = state.module_name_package_pairs();
    pairs.sort();
    assert_eq!(
        pairs,
        vec![("Bar".to_string(), "app".to_string()), ("Foo".to_string(), "app".to_string())]
    );
    assert_eq!(state.get_warn_error_override(), Some("+8".to_string()));
    assert_eq!(state.get_module("Bar").unwrap().package_name, "app");
    assert_eq!(state.get_package("app").unwrap().name, "app");
    assert_eq!(state.get_root_config().name, "app");
    assert_eq!(state.get_build_state().modules.len(), 2);
    let keys: AHashSet<String> = state.build_state.modules.keys().cloned().collect();
    assert_eq!(keys, state.build_state.module_names);
}

#[test]
fn command_state_without_override() {
    let state = BuildCommandState::new(
        ProjectContext { root_config: config("app") },
        packages(),
        compiler(),
        None,
    );
    assert_eq!(state.get_warn_error_override(), None);
}

#[test]
fn interface_of_a_module() {
    let mut module = source_module("app", "src/Foo.res", &[], &[]);
    assert_eq!(module.get_interface(), &None);
    assert!(!module.is_mlmap());
    let interface = Interface {
        path: "src/Foo.resi".to_string(),
        parse_state: ParseState::Pending,
        compile_state: CompileState::Pending,
        last_modified: Timestamp { secs: 2, nanos: 5 },
        parse_dirty: true,
    };
    if let SourceType::SourceFile(file) = &mut module.source_type {
        file.interface = Some(interface.clone());
    }
    assert_eq!(module.get_interface(), &Some(interface));
    module.source_type = SourceType::MlMap(MlMap { parse_dirty: false });
    assert_eq!(module.get_interface(), &None);
    assert!(module.is_mlmap());
}

#[test]
fn source_type_names() {
    let module = source_module("app", "src/Foo.res", &[], &[]);
    assert_eq!(module.source_type.to_string(), "SourceFile");
    assert_eq!(SourceType::MlMap(MlMap { parse_dirty: true }).to_string(), "MlMap");
}

#[test]
fn stale_modules_have_to_be_marked_for_compiling() {
    let mut state = empty_state();
    assert!(state.compile_flags_settled());
    state.insert_module("Foo", source_module("app", "src/Foo.res", &["Bar", "Gone"], &[]));
    state.insert_module("Bar", source_module("app", "src/Bar.res", &[], &["Foo"]));
    assert!(state.compile_flags_settled());

    // A stale file without the compile mark.
    let mut stale = source_module("app", "src/Bar.res", &[], &["Foo"]);
    if let SourceType::SourceFile(file) = &mut stale.source_type {
        file.implementation.parse_dirty = true;
    }
    assert!(stale.is_parse_dirty());
    state.insert_module("Bar", stale.clone());
    assert!(!state.compile_flags_settled());

    // The mark is there, but not on the module that depends on it.
    stale.compile_dirty = true;
    state.insert_module("Bar", stale);
    assert!(!state.compile_flags_settled());

    let mut dependent = source_module("app", "src/Foo.res", &["Bar", "Gone"], &[]);
    dependent.compile_dirty = true;
    state.insert_module("Foo", dependent);
    assert!(state.compile_flags_settled());
}

#[test]
fn parse_dirt_of_a_module() {
    let mut module = source_module("app", "src/Foo.res", &[], &[]);
    assert!(!module.is_parse_dirty());
    if let SourceType::SourceFile(file) = &mut module.source_type {
        file.interface = Some(Interface {
            path: "src/Foo.resi".to_string(),
            parse_state: ParseState::Success,
            compile_state: CompileState::Success,
            last_modified: Timestamp { secs: 2, nanos: 5 },
            parse_dirty: true,
        });
    }
    assert!(module.is_parse_dirty());
    module.source_type = SourceType::MlMap(MlMap { parse_dirty: false });
    assert!(!module.is_parse_dirty());
    module.source_type = SourceType::MlMap(MlMap { parse_dirty: true });
    assert!(module.is_parse_dirty());
}
