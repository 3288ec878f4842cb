use rewatch::cli::{
    build_default_args, fallback_args, first_non_global_arg, is_global_flag, is_known_subcommand,
    should_default_to_build, AfterBuildArg, BuildArgs, Command, CreateSourceDirsArg, DevArg,
    FileExtension, FilterArg, FolderArg, ParseErrorKind, SnapshotOutputArg, WatchArgs,
};
use rewatch::filter::PathFilter;

fn args(items: &[&str]) -> Vec<String> {
    items.iter().map(|item| item.to_string()).collect()
}

fn subcommands() -> Vec<String> {
    args(&["build", "watch", "clean", "format", "compiler-args"])
}

fn fallback(kind: ParseErrorKind, items: &[&str]) -> Option<Vec<String>> {
    fallback_args(kind, &args(items), &subcommands())
}

#[test]
fn no_subcommand_defaults_to_build() {
    assert_eq!(
        fallback(ParseErrorKind::DisplayHelpOnMissingArgumentOrSubcommand, &["rescript"]),
        Some(args(&["rescript", "build"]))
    );
    assert_eq!(
        fallback(ParseErrorKind::MissingSubcommand, &["rescript"]),
        Some(args(&["rescript", "build"]))
    );
}

#[test]
fn defaults_to_build_with_folder_shortcut() {
    assert_eq!(
        fallback(ParseErrorKind::InvalidSubcommand, &["rescript", "someFolder"]),
        Some(args(&["rescript", "build", "someFolder"]))
    );
}

#[test]
fn trailing_global_flag_is_treated_as_global() {
    assert_eq!(
        fallback(ParseErrorKind::InvalidSubcommand, &["rescript", "my-project", "-v"]),
        Some(args(&["rescript", "-v", "build", "my-project"]))
    );
}

#[test]
fn double_dash_keeps_following_args_positional() {
    assert_eq!(
        fallback(ParseErrorKind::UnknownArgument, &["rescript", "--", "-v"]),
        Some(args(&["rescript", "build", "--", "-v"]))
    );
    assert_eq!(
        build_default_args(&args(&["rescript", "-q", "dir", "--", "-v", "--"])),
        args(&["rescript", "-q", "build", "dir", "--", "-v", "--"])
    );
}

#[test]
fn unknown_subcommand_help_uses_global_help() {
    assert_eq!(
        fallback(ParseErrorKind::InvalidSubcommand, &["rescript", "xxx", "--help"]),
        Some(args(&["rescript", "--help", "build", "xxx"]))
    );
}

#[test]
fn respects_global_flag_before_subcommand() {
    assert!(!should_default_to_build(
        ParseErrorKind::UnknownArgument,
        &args(&["rescript", "-v", "watch"]),
        &subcommands()
    ));
}

#[test]
fn invalid_option_for_subcommand_does_not_fallback() {
    assert_eq!(fallback(ParseErrorKind::UnknownArgument, &["rescript", "watch", "--no-timing"]), None);
}

#[test]
fn version_flag_after_subcommand_is_rejected() {
    assert_eq!(fallback(ParseErrorKind::UnknownArgument, &["rescript", "build", "-V"]), None);
}

#[test]
fn other_failures_do_not_fall_back() {
    assert_eq!(fallback(ParseErrorKind::Other, &["rescript"]), None);
    assert_eq!(fallback(ParseErrorKind::Other, &["rescript", "someFolder"]), None);
}

#[test]
fn default_args_without_a_program_name() {
    assert_eq!(build_default_args(&Vec::new()), args(&["build"]));
    assert_eq!(build_default_args(&args(&["rescript"])), args(&["rescript", "build"]));
}

#[test]
fn global_flags() {
    for flag in [
        "-v", "-vv", "-vvv", "-vvvv", "-q", "-qq", "-qqq", "-qqqq", "--verbose", "--quiet", "-h",
        "--help", "-V", "--version",
    ] {
        assert!(is_global_flag(flag), "{flag}");
    }
    for other in ["", "-", "--", "-vvvvv", "-w", "--no-timing", "build", "-H", "--Version"] {
        assert!(!is_global_flag(other), "{other}");
    }
}

#[test]
fn first_argument_that_is_no_global_flag() {
    assert_eq!(first_non_global_arg(&args(&["rescript"])), None);
    assert_eq!(first_non_global_arg(&Vec::new()), None);
    assert_eq!(first_non_global_arg(&args(&["rescript", "-v", "-q"])), None);
    assert_eq!(
        first_non_global_arg(&args(&["-v", "-v", "watch", "dir"])),
        Some(&"watch".to_string())
    );
    assert_eq!(first_non_global_arg(&args(&["rescript", "dir", "watch"])), Some(&"dir".to_string()));
}

#[test]
fn known_subcommands() {
    assert!(is_known_subcommand("watch", &subcommands()));
    assert!(is_known_subcommand("compiler-args", &subcommands()));
    assert!(!is_known_subcommand("Watch", &subcommands()));
    assert!(!is_known_subcommand("watch", &Vec::new()));
}

#[test]
fn file_extensions() {
    assert_eq!(FileExtension::Res.as_str(), ".res");
    assert_eq!(FileExtension::Resi.as_str(), ".resi");
    assert_eq!(FileExtension::from_name(".res"), Some(FileExtension::Res));
    assert_eq!(FileExtension::from_name(".resi"), Some(FileExtension::Resi));
    assert_eq!(FileExtension::from_name("res"), None);
}

fn build_args(watch: bool) -> BuildArgs {
    BuildArgs {
        folder: FolderArg { folder: "proj".to_string() },
        filter: FilterArg { filter: PathFilter::new("_test".to_string()) },
        after_build: AfterBuildArg { after_build: Some("say done".to_string()) },
        create_sourcedirs: CreateSourceDirsArg { create_sourcedirs: true },
        dev: DevArg { dev: false },
        no_timing: true,
        snapshot_output: SnapshotOutputArg { snapshot_output: true },
        watch,
        warn_error: Some("+8".to_string()),
    }
}

fn assert_watch_args(watch_args: &WatchArgs) {
    assert_eq!(watch_args.folder.folder, "proj");
    assert_eq!(watch_args.filter.filter.as_ref().unwrap().as_str(), "_test");
    assert_eq!(watch_args.after_build.after_build, Some("say done".to_string()));
    assert!(watch_args.create_sourcedirs.create_sourcedirs);
    assert!(!watch_args.dev.dev);
    assert!(watch_args.snapshot_output.snapshot_output);
    assert_eq!(watch_args.warn_error, Some("+8".to_string()));
}

#[test]
fn watch_args_from_build_args() {
    assert_watch_args(&WatchArgs::from(build_args(false)));
}

#[test]
fn build_with_watch_flag_is_a_watch() {
    match Command::Build(build_args(true)).resolve() {
        Command::Watch(watch_args) => assert_watch_args(&watch_args),
        other => panic!("expected watch, got {other:?}"),
    }
    assert!(matches!(Command::Build(build_args(false)).resolve(), Command::Build(_)));
    assert!(matches!(
        Command::CompilerArgs { path: "src/Foo.res".to_string() }.resolve(),
        Command::CompilerArgs { .. }
    ));
}
