use ahash::{AHashMap, AHashSet};
use rewatch::build::build_types::{
    BuildCommandState, CompileState, CompilerInfo, Implementation, Interface, MlMap, Module,
    ParseState, SourceFile, SourceType, Timestamp,
};
use rewatch::build::packages::Package;
use rewatch::config::{Config, PackageSource, Subdirs};
use rewatch::filter::PathFilter;
use rewatch::helpers::{is_implementation_file, is_interface_file};
use rewatch::paths::is_same_path;
use rewatch::project_context::ProjectContext;
use rewatch::watch_paths::{
    compute_watch_paths, insert_watch_path, watch_candidates, watch_paths_for, RecursiveMode,
};
use rewatch::watcher::{
    apply_batch, config_changed, counts_for_build, handle_batch, is_in_build_path,
    is_rescript_file, lock_removed, mark_changed_file, matches_filter, runs_after_build,
    BatchOutcome, ChangedPath, CompileType, EventKind, Intake, LoopAction, WatchEvent,
    WatchSession, CONFIG_FILE, IDLE_DELAY_MS, SETTLE_DELAY_MS,
};

fn config(name: &str) -> Config {
    Config {
        name: name.to_string(),
        path: format!("/work/{name}/rescript.json"),
        dependencies: None,
        dev_dependencies: None,
    }
}

fn folder(dir: &str, subdirs: Option<Subdirs>) -> PackageSource {
    PackageSource { dir: dir.to_string(), subdirs }
}

fn package(name: &str, path: &str, local: bool, folders: Vec<PackageSource>) -> Package {
    Package {
        name: name.to_string(),
        config: config(name),
        path: path.to_string(),
        source_folders: folders,
        source_files: None,
        dirs: None,
        is_local_dep: local,
        is_root: name == "app",
    }
}

fn source_module(package: &str, implementation: &str, interface: Option<&str>) -> Module {
    Module {
        source_type: SourceType::SourceFile(SourceFile {
            implementation: Implementation {
                path: implementation.to_string(),
                parse_state: ParseState::Success,
                compile_state: CompileState::Success,
                last_modified: Timestamp { secs: 1, nanos: 0 },
                parse_dirty: false,
            },
            interface: interface.map(|path| Interface {
                path: path.to_string(),
                parse_state: ParseState::Success,
                compile_state: CompileState::Success,
                last_modified: Timestamp { secs: 1, nanos: 0 },
                parse_dirty: false,
            }),
        }),
        deps: AHashSet::new(),
        dependents: AHashSet::new(),
        package_name: package.to_string(),
        compile_dirty: false,
        last_compiled_cmi: None,
        last_compiled_cmt: None,
        deps_dirty: false,
        is_type_dev: false,
    }
}

fn state_with(packages: Vec<Package>) -> BuildCommandState {
    let mut table = AHashMap::new();
    for package in packages {
        table.insert(package.name.clone(), package);
    }
    BuildCommandState::new(
        ProjectContext { root_config: config("app") },
        table,
        CompilerInfo {
            bsc_path: "/toolchain/bsc".to_string(),
            bsc_hash: [1u8; 32],
            runtime_path: "/toolchain/runtime".to_string(),
        },
        None,
    )
}

fn project() -> BuildCommandState {
    let mut state = state_with(vec![package(
        "app",
        "/work/app",
        true,
        vec![folder("src", Some(Subdirs::Recurse(true)))],
    )]);
    let mut foo = source_module("app", "src/Foo.res", Some("src/Foo.resi"));
    foo.deps.insert("Bar".to_string());
    let mut bar = source_module("app", "src/Bar.res", None);
    bar.dependents.insert("Foo".to_string());
    state.insert_module("Foo", foo);
    state.insert_module("Bar", bar);
    let mut names = source_module("app", "ignored", None);
    names.source_type = SourceType::MlMap(MlMap { parse_dirty: false });
    state.insert_module("App", names);
    state
}

fn event(kind: EventKind, paths: &[&str]) -> WatchEvent {
    WatchEvent {
        kind,
        paths: paths
            .iter()
            .map(|path| ChangedPath {
                path: path.to_string(),
                canonical: Some(path.to_string()),
                modified: Some(Timestamp { secs: 99, nanos: 7 }),
            })
            .collect(),
    }
}

fn implementation(state: &BuildCommandState, name: &str) -> Implementation {
    match &state.get_module(name).unwrap().source_type {
        SourceType::SourceFile(file) => file.implementation.clone(),
        SourceType::MlMap(_) => panic!("{name} has no implementation"),
    }
}

fn interface(state: &BuildCommandState, name: &str) -> Interface {
    state.get_module(name).unwrap().get_interface().clone().unwrap()
}

fn untouched(state: &BuildCommandState, name: &str) -> bool {
    let file = implementation(state, name);
    !file.parse_dirty && file.last_modified == Timestamp { secs: 1, nanos: 0 }
}

fn decide(state: &mut BuildCommandState, events: Vec<WatchEvent>) -> BatchOutcome {
    handle_batch(state, CompileType::Nothing, &events, &None)
}

const FOO: &str = "/work/app/src/Foo.res";
const FOO_INTERFACE: &str = "/work/app/src/Foo.resi";
const BAR: &str = "/work/app/src/Bar.res";
const CONFIG: &str = "/work/app/rescript.json";
const LOCK: &str = "/work/app/lib/rescript.lock";

#[test]
fn source_files_go_by_extension() {
    assert!(is_rescript_file("src/Foo.res"));
    assert!(is_rescript_file("/work/app/src/Foo.resi"));
    assert!(is_rescript_file("Foo.test.res"));
    assert!(!is_rescript_file("src/Foo.ml"));
    assert!(!is_rescript_file("src/Foo.res.bak"));
    assert!(!is_rescript_file("src/res"));
    assert!(!is_rescript_file("src/.res"));
    assert!(!is_rescript_file("src/Foo.RES"));
    assert!(!is_rescript_file(""));
    assert!(is_implementation_file("res"));
    assert!(!is_implementation_file("resi"));
    assert!(is_interface_file("resi"));
    assert!(!is_interface_file("res"));
}

#[test]
fn build_output_is_under_lib() {
    assert!(is_in_build_path("/work/app/lib/bs/src/Foo.res"));
    assert!(is_in_build_path("/work/app/lib/ocaml/Foo.res"));
    assert!(is_in_build_path("lib/bs"));
    assert!(is_in_build_path("/work/app/lib/./bs/Foo.res"));
    assert!(!is_in_build_path("/work/app/lib/es6/Foo.res"));
    assert!(!is_in_build_path("/work/app/bs/lib/Foo.res"));
    assert!(!is_in_build_path("/work/app/lib/src/bs/Foo.res"));
    assert!(!is_in_build_path("/work/app/mylib/bs/Foo.res"));
    assert!(!is_in_build_path("/work/app/src/Foo.res"));
    assert!(!is_in_build_path(""));
}

#[test]
fn filter_leaves_out_what_it_matches() {
    let filter = PathFilter::new("_test".to_string());
    assert!(filter.is_some());
    assert!(matches_filter("/work/app/src/Foo.res", &filter));
    assert!(!matches_filter("/work/app/src/Foo_test.res", &filter));
    assert!(matches_filter("/work/app_test/src/Foo.res", &filter));
    assert!(matches_filter("/work/app/src/Foo_test.res", &None));
    let anchored = PathFilter::new("^F.*\\.resi$".to_string());
    assert!(!matches_filter("src/Foo.resi", &anchored));
    assert!(matches_filter("src/Foo.res", &anchored));
    let everything = PathFilter::new("".to_string());
    assert!(!matches_filter("..", &everything));
}

#[test]
fn filter_needs_a_regular_expression() {
    assert!(PathFilter::new("(".to_string()).is_none());
    assert!(PathFilter::new("[a-".to_string()).is_none());
    let filter = PathFilter::new("a|b".to_string()).unwrap();
    assert_eq!(filter.as_str(), "a|b");
    assert!(filter.is_match("cab"));
    assert!(!filter.is_match("cd"));
    assert!(filter.clone().is_match("b"));
}

#[test]
fn paths_count_when_all_three_hold() {
    let filter = PathFilter::new("_test".to_string());
    assert!(counts_for_build(FOO, &filter));
    assert!(!counts_for_build("/work/app/src/Foo.js", &filter));
    assert!(!counts_for_build("/work/app/lib/bs/src/Foo.res", &filter));
    assert!(!counts_for_build("/work/app/src/Foo_test.res", &filter));
}

#[test]
fn same_path_is_by_components() {
    assert!(is_same_path("/work/app", "/work/app"));
    assert!(is_same_path("/work/app", "/work/app/"));
    assert!(is_same_path("/work/app/.", "/work/app"));
    assert!(is_same_path("/work//app", "/work/app"));
    assert!(!is_same_path("/work/app", "/work/App"));
    assert!(!is_same_path("/work/app", "work/app"));
}

#[test]
fn recursive_dominance() {
    let mut first: Vec<(String, RecursiveMode)> = Vec::new();
    insert_watch_path(&mut first, "/work/app".to_string(), RecursiveMode::NonRecursive);
    insert_watch_path(&mut first, "/work/app".to_string(), RecursiveMode::Recursive);
    assert_eq!(first, vec![("/work/app".to_string(), RecursiveMode::Recursive)]);

    let mut second: Vec<(String, RecursiveMode)> = Vec::new();
    insert_watch_path(&mut second, "/work/app".to_string(), RecursiveMode::Recursive);
    insert_watch_path(&mut second, "/work/app".to_string(), RecursiveMode::NonRecursive);
    assert_eq!(second, vec![("/work/app".to_string(), RecursiveMode::Recursive)]);
}

#[test]
fn requests_are_merged_in_order() {
    let mut paths: Vec<(String, RecursiveMode)> = Vec::new();
    insert_watch_path(&mut paths, "/a".to_string(), RecursiveMode::NonRecursive);
    insert_watch_path(&mut paths, "/b".to_string(), RecursiveMode::NonRecursive);
    insert_watch_path(&mut paths, "/a".to_string(), RecursiveMode::NonRecursive);
    insert_watch_path(&mut paths, "/b/.".to_string(), RecursiveMode::Recursive);
    insert_watch_path(&mut paths, "/c".to_string(), RecursiveMode::Recursive);
    assert_eq!(
        paths,
        vec![
            ("/a".to_string(), RecursiveMode::NonRecursive),
            ("/b".to_string(), RecursiveMode::Recursive),
            ("/c".to_string(), RecursiveMode::Recursive),
        ]
    );
}

fn workspace() -> BuildCommandState {
    state_with(vec![
        package(
            "app",
            "/work/app",
            true,
            vec![
                folder("src", Some(Subdirs::Recurse(true))),
                folder("tests", Some(Subdirs::Recurse(false))),
                folder("gone", None),
                folder(".", Some(Subdirs::Recurse(true))),
            ],
        ),
        package(
            "dep",
            "/work/app/node_modules/dep",
            false,
            vec![folder("src", Some(Subdirs::Recurse(true)))],
        ),
    ])
}

fn strings(items: &[&str]) -> Vec<String> {
    items.iter().map(|item| item.to_string()).collect()
}

#[test]
fn watch_candidates_are_source_folders_and_lock_directory() {
    let mut dirs = watch_candidates(&workspace(), "/work/app");
    dirs.sort();
    assert_eq!(
        dirs,
        strings(&["/work/app/.", "/work/app/gone", "/work/app/lib", "/work/app/src", "/work/app/tests"])
    );
}

#[test]
fn watch_paths_of_a_workspace() {
    let state = workspace();
    let present =
        strings(&["/work/app/src", "/work/app/tests", "/work/app/.", "/work/app/lib"]);
    let expected = vec![
        ("/work/app".to_string(), RecursiveMode::Recursive),
        ("/work/app/src".to_string(), RecursiveMode::Recursive),
        ("/work/app/tests".to_string(), RecursiveMode::NonRecursive),
        ("/work/app/lib".to_string(), RecursiveMode::NonRecursive),
    ];
    assert_eq!(
        watch_paths_for(&state, &strings(&["dep", "app", "unknown"]), "/work/app", &present),
        expected
    );
    let mut paths = compute_watch_paths(&state, "/work/app", &present);
    paths.sort_by(|a, b| a.0.len().cmp(&b.0.len()).then(a.0.cmp(&b.0)));
    let mut sorted = expected;
    sorted.sort_by(|a, b| a.0.len().cmp(&b.0.len()).then(a.0.cmp(&b.0)));
    assert_eq!(paths, sorted);
}

#[test]
fn missing_folders_are_not_watched() {
    let state = workspace();
    assert_eq!(
        compute_watch_paths(&state, "/work/app", &Vec::new()),
        vec![("/work/app".to_string(), RecursiveMode::NonRecursive)]
    );
}

#[test]
fn lock_removal_is_seen() {
    assert!(lock_removed(&event(EventKind::Remove, &[LOCK])));
    assert!(lock_removed(&event(EventKind::Remove, &[FOO, LOCK])));
    assert!(!lock_removed(&event(EventKind::Create, &[LOCK])));
    assert!(!lock_removed(&event(EventKind::Remove, &["/work/app/lib/rescript.lock.bak"])));
    assert!(!lock_removed(&event(EventKind::Remove, &[])));
}

#[test]
fn config_change_is_seen() {
    assert_eq!(CONFIG_FILE, "rescript.json");
    for kind in [
        EventKind::ModifyAny,
        EventKind::ModifyData,
        EventKind::ModifyMetadata,
        EventKind::ModifyName,
        EventKind::ModifyOther,
        EventKind::Create,
        EventKind::Remove,
    ] {
        assert!(config_changed(&event(kind, &[CONFIG])), "{kind:?}");
        assert!(kind.is_file_change());
    }
    for kind in [EventKind::Any, EventKind::Access, EventKind::Other] {
        assert!(!config_changed(&event(kind, &[CONFIG])), "{kind:?}");
        assert!(!kind.is_file_change());
    }
    assert!(config_changed(&event(EventKind::Create, &[FOO, "rescript.json"])));
    assert!(!config_changed(&event(EventKind::Create, &["/work/app/rescript.json.tmp"])));
    assert!(!config_changed(&event(EventKind::Create, &[])));
}

#[test]
fn event_kinds() {
    let structural = [EventKind::Remove, EventKind::Any, EventKind::Create, EventKind::ModifyName];
    let content = [EventKind::ModifyData, EventKind::ModifyAny];
    let ignored =
        [EventKind::Access, EventKind::Other, EventKind::ModifyMetadata, EventKind::ModifyOther];
    for kind in structural {
        assert!(kind.is_structural() && !kind.is_content());
    }
    for kind in content {
        assert!(!kind.is_structural() && kind.is_content());
    }
    for kind in ignored {
        assert!(!kind.is_structural() && !kind.is_content());
    }
}

#[test]
fn incremental_edit() {
    let mut state = project();
    let outcome = decide(&mut state, vec![event(EventKind::ModifyData, &[FOO])]);
    assert_eq!(outcome, BatchOutcome::Decided(CompileType::Incremental));
    let foo = implementation(&state, "Foo");
    assert!(foo.parse_dirty);
    assert_eq!(foo.last_modified, Timestamp { secs: 99, nanos: 7 });
    assert_eq!(foo.path, "src/Foo.res");
    let foo_interface = interface(&state, "Foo");
    assert!(!foo_interface.parse_dirty);
    assert_eq!(foo_interface.last_modified, Timestamp { secs: 1, nanos: 0 });
    assert!(untouched(&state, "Bar"));
    assert!(state.get_module("App").unwrap().is_mlmap());
    assert!(!state.get_module("Foo").unwrap().compile_dirty);
}

#[test]
fn interface_edit_marks_the_interface() {
    let mut state = project();
    let outcome = decide(&mut state, vec![event(EventKind::ModifyAny, &[FOO_INTERFACE])]);
    assert_eq!(outcome, BatchOutcome::Decided(CompileType::Incremental));
    assert!(untouched(&state, "Foo"));
    let foo_interface = interface(&state, "Foo");
    assert!(foo_interface.parse_dirty);
    assert_eq!(foo_interface.last_modified, Timestamp { secs: 99, nanos: 7 });
    assert!(untouched(&state, "Bar"));
}

#[test]
fn unknown_modification_time_keeps_the_old_one() {
    let mut state = project();
    let mut edit = event(EventKind::ModifyData, &[BAR]);
    edit.paths[0].modified = None;
    edit.paths[0].canonical = Some("/work/app/./src/Bar.res".to_string());
    let outcome = decide(&mut state, vec![edit]);
    assert_eq!(outcome, BatchOutcome::Decided(CompileType::Incremental));
    let bar = implementation(&state, "Bar");
    assert!(bar.parse_dirty);
    assert_eq!(bar.last_modified, Timestamp { secs: 1, nanos: 0 });
    assert!(untouched(&state, "Foo"));
}

#[test]
fn unresolved_paths_mark_nothing() {
    let mut state = project();
    let mut vanished = event(EventKind::ModifyData, &[FOO]);
    vanished.paths[0].canonical = None;
    let stranger = event(EventKind::ModifyData, &["/work/app/src/Baz.res"]);
    let outcome = decide(&mut state, vec![vanished, stranger]);
    assert_eq!(outcome, BatchOutcome::Decided(CompileType::Incremental));
    assert!(untouched(&state, "Foo"));
    assert!(untouched(&state, "Bar"));
}

#[test]
fn delete_and_recreate() {
    let mut state = project();
    let outcome = decide(
        &mut state,
        vec![event(EventKind::Remove, &[BAR]), event(EventKind::Create, &[BAR])],
    );
    assert_eq!(outcome, BatchOutcome::Decided(CompileType::Full));
    assert!(untouched(&state, "Bar"));
}

#[test]
fn config_change_wins() {
    let mut state = project();
    let outcome = decide(
        &mut state,
        vec![event(EventKind::ModifyData, &[FOO]), event(EventKind::ModifyData, &[CONFIG])],
    );
    assert_eq!(outcome, BatchOutcome::Decided(CompileType::Full));
    assert!(untouched(&state, "Foo"));
    assert!(!interface(&state, "Foo").parse_dirty);
    assert!(untouched(&state, "Bar"));
}

#[test]
fn escalation_does_not_depend_on_arrival_order() {
    let edit = || event(EventKind::ModifyData, &[FOO]);
    let create = || event(EventKind::Create, &["/work/app/src/New.res"]);
    let config = || event(EventKind::ModifyAny, &[CONFIG]);
    let full = BatchOutcome::Decided(CompileType::Full);
    assert_eq!(decide(&mut project(), vec![edit(), create()]), full);
    assert_eq!(decide(&mut project(), vec![create(), edit()]), full);
    assert_eq!(
        decide(&mut project(), vec![edit(), edit()]),
        BatchOutcome::Decided(CompileType::Incremental)
    );
    assert_eq!(decide(&mut project(), vec![edit(), create(), config()]), full);
    assert_eq!(decide(&mut project(), vec![config(), edit()]), full);
    assert_eq!(decide(&mut project(), vec![edit(), edit(), config()]), full);
}

#[test]
fn files_are_marked_until_a_full_build_is_due() {
    let mut state = project();
    let outcome = decide(
        &mut state,
        vec![
            event(EventKind::ModifyData, &[FOO]),
            event(EventKind::Create, &["/work/app/src/New.res"]),
            event(EventKind::ModifyData, &[BAR]),
        ],
    );
    assert_eq!(outcome, BatchOutcome::Decided(CompileType::Full));
    assert!(implementation(&state, "Foo").parse_dirty);
    assert!(untouched(&state, "Bar"));
}

#[test]
fn decisions_never_fall_back() {
    let ignored = || {
        vec![
            event(EventKind::Access, &[FOO]),
            event(EventKind::ModifyMetadata, &[FOO]),
            event(EventKind::Other, &[FOO]),
            event(EventKind::ModifyOther, &[FOO]),
            event(EventKind::ModifyData, &["/work/app/README.md"]),
            event(EventKind::Create, &["/work/app/lib/bs/src/Foo.res"]),
        ]
    };
    for decision in [CompileType::Nothing, CompileType::Incremental, CompileType::Full] {
        let mut state = project();
        assert_eq!(
            handle_batch(&mut state, decision, &ignored(), &None),
            BatchOutcome::Decided(decision)
        );
        assert!(untouched(&state, "Foo"));
        assert_eq!(
            handle_batch(&mut state, decision, &Vec::new(), &None),
            BatchOutcome::Decided(decision)
        );
    }
    let mut state = project();
    let edit = vec![event(EventKind::ModifyData, &[FOO])];
    assert_eq!(
        handle_batch(&mut state, CompileType::Full, &edit, &None),
        BatchOutcome::Decided(CompileType::Full)
    );
    assert!(untouched(&state, "Foo"));
    assert_eq!(
        handle_batch(&mut state, CompileType::Incremental, &edit, &None),
        BatchOutcome::Decided(CompileType::Incremental)
    );
    assert!(implementation(&state, "Foo").parse_dirty);
}

#[test]
fn filtered_files_are_passed_over() {
    let mut state = project();
    let filter = PathFilter::new("^Foo".to_string());
    let events =
        vec![event(EventKind::ModifyData, &[FOO]), event(EventKind::Remove, &[FOO_INTERFACE])];
    assert_eq!(
        handle_batch(&mut state, CompileType::Nothing, &events, &filter),
        BatchOutcome::Decided(CompileType::Nothing)
    );
    assert!(untouched(&state, "Foo"));
    let events = vec![event(EventKind::ModifyData, &[FOO, BAR])];
    assert_eq!(
        handle_batch(&mut state, CompileType::Nothing, &events, &filter),
        BatchOutcome::Decided(CompileType::Incremental)
    );
    assert!(untouched(&state, "Foo"));
    assert!(implementation(&state, "Bar").parse_dirty);
}

#[test]
fn lock_removal_ends_the_session() {
    let mut state = project();
    let outcome = decide(
        &mut state,
        vec![
            event(EventKind::ModifyData, &[FOO]),
            event(EventKind::ModifyData, &[CONFIG]),
            event(EventKind::Remove, &[LOCK]),
        ],
    );
    assert_eq!(outcome, BatchOutcome::Shutdown);
    assert!(untouched(&state, "Foo"));
}

#[test]
fn batch_keeps_the_shape_of_the_graph() {
    let mut state = project();
    decide(
        &mut state,
        vec![event(EventKind::ModifyData, &[FOO, BAR]), event(EventKind::ModifyAny, &[FOO_INTERFACE])],
    );
    let keys: AHashSet<String> = state.build_state.modules.keys().cloned().collect();
    assert_eq!(keys, state.build_state.module_names);
    assert_eq!(keys.len(), 3);
    let foo = state.get_module("Foo").unwrap();
    let bar = state.get_module("Bar").unwrap();
    assert!(foo.deps.contains("Bar") && foo.dependents.is_empty());
    assert!(bar.dependents.contains("Foo") && bar.deps.is_empty());
    assert!(implementation(&state, "Foo").parse_dirty);
    assert!(implementation(&state, "Bar").parse_dirty);
    assert!(interface(&state, "Foo").parse_dirty);
    assert_eq!(state.build_state.packages.len(), 1);
}

#[test]
fn first_claimant_in_scan_order_is_marked() {
    let build = || {
        let mut state = project();
        state.insert_module("Twin", source_module("app", "src/Foo.res", None));
        state
    };
    let pairs = |names: &[&str]| -> Vec<(String, String)> {
        names.iter().map(|name| (name.to_string(), "app".to_string())).collect()
    };
    let events = vec![event(EventKind::ModifyData, &[FOO])];

    let mut state = build();
    let order = pairs(&["Bar", "Twin", "Foo"]);
    assert_eq!(
        apply_batch(&mut state, CompileType::Nothing, &events, &None, &order),
        BatchOutcome::Decided(CompileType::Incremental)
    );
    assert!(implementation(&state, "Twin").parse_dirty);
    assert!(untouched(&state, "Foo"));

    let mut state = build();
    mark_changed_file(&mut state, &pairs(&["Ghost", "Foo", "Twin"]), FOO, None);
    assert!(implementation(&state, "Foo").parse_dirty);
    assert!(untouched(&state, "Twin"));

    let mut state = build();
    let strangers: Vec<(String, String)> = vec![("Foo".to_string(), "unknown".to_string())];
    mark_changed_file(&mut state, &strangers, FOO, None);
    assert!(untouched(&state, "Foo"));
}

#[test]
fn graceful_shutdown() {
    let mut session = WatchSession::new();
    session.build_finished();
    assert_eq!(session.decision, CompileType::Nothing);
    assert_eq!(session.begin_round(true, false), Intake::Shutdown);
    assert_eq!(session.begin_round(true, true), Intake::Shutdown);
    assert_eq!(WatchSession::new().begin_round(true, true), Intake::Shutdown);
}

#[test]
fn rounds_of_a_session() {
    assert_eq!(SETTLE_DELAY_MS, 50);
    assert_eq!(IDLE_DELAY_MS, 50);
    let mut state = project();
    let mut session = WatchSession::new();
    assert_eq!(session.decision, CompileType::Incremental);
    assert!(session.initial_build);
    assert_eq!(session.begin_round(false, false), Intake::Skip);
    assert_eq!(
        session.take_batch(&mut state, &Vec::new(), &None),
        LoopAction::Incremental { initial_build: true, only_incremental: false }
    );
    session.build_finished();
    assert!(!session.initial_build);

    assert_eq!(session.begin_round(false, false), Intake::Skip);
    assert_eq!(session.take_batch(&mut state, &Vec::new(), &None), LoopAction::Idle);

    assert_eq!(session.begin_round(false, true), Intake::SettleAndDrain);
    let edit = vec![event(EventKind::ModifyData, &[FOO])];
    assert_eq!(
        session.take_batch(&mut state, &edit, &None),
        LoopAction::Incremental { initial_build: false, only_incremental: true }
    );
    assert_eq!(session.decision, CompileType::Incremental);
    assert!(implementation(&state, "Foo").parse_dirty);
    session.build_finished();
    assert_eq!(session.decision, CompileType::Nothing);

    let rename = vec![event(EventKind::ModifyName, &[BAR])];
    assert_eq!(
        session.take_batch(&mut state, &rename, &None),
        LoopAction::Full { initial_build: false }
    );
    assert_eq!(session.decision, CompileType::Full);
    session.build_finished();

    let unlock = vec![event(EventKind::Remove, &[LOCK])];
    assert_eq!(session.take_batch(&mut state, &unlock, &None), LoopAction::Shutdown);
    assert_eq!(session.decision, CompileType::Nothing);
}

#[test]
fn after_build_command_runs_after_success() {
    let incremental = LoopAction::Incremental { initial_build: false, only_incremental: true };
    assert!(runs_after_build(incremental, true));
    assert!(!runs_after_build(incremental, false));
    assert!(runs_after_build(LoopAction::Full { initial_build: false }, false));
    assert!(runs_after_build(LoopAction::Full { initial_build: true }, true));
    assert!(!runs_after_build(LoopAction::Idle, true));
    assert!(!runs_after_build(LoopAction::Shutdown, true));
}
