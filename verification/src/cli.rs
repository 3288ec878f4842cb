//! The command line: the commands with their arguments, and the rule by
//! which a command line without a command is read as a build.

use crate::filter::PathFilter;
use crate::text::{contains_str, views};
use vstd::prelude::*;
use vstd::std_specs::convert::FromSpec;

verus! {

/// The kind of source that is read from standard input.
#[derive(Debug, Clone, Copy, PartialEq, Eq, Structural)]
pub enum FileExtension {
    Res,
    Resi,
}

impl FileExtension {
    /// The extension as it is written on the command line.
    pub open spec fn text(self) -> Seq<char> {
        match self {
            FileExtension::Res => ".res"@,
            FileExtension::Resi => ".resi"@,
        }
    }

    /// The extension as it is written on the command line.
    pub fn as_str(self) -> (text: &'static str)
        ensures
            text@ == self.text(),
    {
        match self {
            FileExtension::Res => ".res",
            FileExtension::Resi => ".resi",
        }
    }

    /// The extension that is written as `text`, if it is one.
    pub fn from_name(text: &str) -> (extension: Option<FileExtension>)
        ensures
            match extension {
                Some(extension) => text@ == extension.text(),
                None => text@ != ".res"@ && text@ != ".resi"@,
            },
    {
        if text.eq(".res") {
            Some(FileExtension::Res)
        } else if text.eq(".resi") {
            Some(FileExtension::Resi)
        } else {
            None
        }
    }
}

/// The project folder that a command works on.
#[derive(Debug, Clone)]
pub struct FolderArg {
    /// The relative path to where the main configuration file resides: the
    /// root of the project.
    pub folder: String,
}

/// The filter of a build.
#[derive(Debug, Clone)]
pub struct FilterArg {
    /// Files whose name the filter matches are left out of the build.
    pub filter: Option<PathFilter>,
}

/// What to do after a build.
#[derive(Debug, Clone)]
pub struct AfterBuildArg {
    /// A command to run when a build has finished.
    pub after_build: Option<String>,
}

/// Whether the manifest of source directories is wanted.
#[derive(Debug, Clone, Copy)]
pub struct CreateSourceDirsArg {
    /// Whether to write the manifest of source directories.
    pub create_sourcedirs: bool,
}

/// Whether development dependencies are wanted.
#[derive(Debug, Clone, Copy)]
pub struct DevArg {
    /// Whether to build development dependencies. The flag has no effect
    /// any more.
    pub dev: bool,
}

/// Whether plain output is wanted.
#[derive(Debug, Clone, Copy)]
pub struct SnapshotOutputArg {
    /// Whether to print plain output, for snapshot testing.
    pub snapshot_output: bool,
}

/// The arguments of the build command.
#[derive(Debug, Clone)]
pub struct BuildArgs {
    pub folder: FolderArg,
    pub filter: FilterArg,
    pub after_build: AfterBuildArg,
    pub create_sourcedirs: CreateSourceDirsArg,
    pub dev: DevArg,
    /// Whether timing is left out of the output.
    pub no_timing: bool,
    pub snapshot_output: SnapshotOutputArg,
    /// Whether to go on watching after the build. Deprecated in favour of
    /// the watch command.
    pub watch: bool,
    /// Which warnings to turn into errors. This overrides the configuration
    /// file.
    pub warn_error: Option<String>,
}

/// The arguments of the watch command.
#[derive(Debug, Clone)]
pub struct WatchArgs {
    pub folder: FolderArg,
    pub filter: FilterArg,
    pub after_build: AfterBuildArg,
    pub create_sourcedirs: CreateSourceDirsArg,
    pub dev: DevArg,
    pub snapshot_output: SnapshotOutputArg,
    /// Which warnings to turn into errors. This overrides the configuration
    /// file.
    pub warn_error: Option<String>,
}

impl From<BuildArgs> for WatchArgs {
    fn from(build_args: BuildArgs) -> (watch_args: Self) {
        Self {
            folder: build_args.folder,
            filter: build_args.filter,
            after_build: build_args.after_build,
            create_sourcedirs: build_args.create_sourcedirs,
            dev: build_args.dev,
            snapshot_output: build_args.snapshot_output,
            warn_error: build_args.warn_error,
        }
    }
}

impl vstd::std_specs::convert::FromSpecImpl<BuildArgs> for WatchArgs {
    open spec fn obeys_from_spec() -> bool {
        true
    }

    open spec fn from_spec(build_args: BuildArgs) -> Self {
        WatchArgs {
            folder: build_args.folder,
            filter: build_args.filter,
            after_build: build_args.after_build,
            create_sourcedirs: build_args.create_sourcedirs,
            dev: build_args.dev,
            snapshot_output: build_args.snapshot_output,
            warn_error: build_args.warn_error,
        }
    }
}

/// The commands of the build tool.
#[derive(Debug, Clone)]
pub enum Command {
    /// Build the project. This is the command where none is given.
    Build(BuildArgs),
    /// Build, then start a watcher.
    Watch(WatchArgs),
    /// Clean the build artifacts.
    Clean { folder: FolderArg, snapshot_output: SnapshotOutputArg, dev: DevArg },
    /// Format source files.
    Format { check: bool, stdin: Option<FileExtension>, files: Vec<String>, dev: DevArg },
    /// Print the compiler arguments for a source file.
    CompilerArgs { path: String },
}

impl Command {
    /// The command that is run for a command: a build that was asked to
    /// watch is a watch with the same arguments; any other command is run
    /// as it is.
    pub fn resolve(self) -> (command: Command)
        ensures
            command == match self {
                Command::Build(build_args) if build_args.watch => Command::Watch(
                    WatchArgs::from_spec(build_args),
                ),
                other => other,
            },
    {
        match self {
            Command::Build(build_args) => {
                if build_args.watch {
                    Command::Watch(WatchArgs::from(build_args))
                } else {
                    Command::Build(build_args)
                }
            },
            other => other,
        }
    }
}

/// Whether an argument is a flag that is understood before any command:
/// verbosity, help or version.
pub open spec fn is_global(arg: Seq<char>) -> bool {
    arg == "-v"@ || arg == "-vv"@ || arg == "-vvv"@ || arg == "-vvvv"@ || arg == "-q"@ || arg
        == "-qq"@ || arg == "-qqq"@ || arg == "-qqqq"@ || arg == "--verbose"@ || arg == "--quiet"@
        || arg == "-h"@ || arg == "--help"@ || arg == "-V"@ || arg == "--version"@
}

/// Whether an argument is a flag that is understood before any command.
pub fn is_global_flag(arg: &str) -> (r: bool)
    ensures
        r == is_global(arg@),
{
    arg.eq("-v") || arg.eq("-vv") || arg.eq("-vvv") || arg.eq("-vvvv") || arg.eq("-q") || arg.eq(
        "-qq",
    ) || arg.eq("-qqq") || arg.eq("-qqqq") || arg.eq("--verbose") || arg.eq("--quiet") || arg.eq(
        "-h",
    ) || arg.eq("--help") || arg.eq("-V") || arg.eq("--version")
}

/// The first argument after the program name that is no global flag.
pub fn first_non_global_arg(args: &Vec<String>) -> (first: Option<&String>)
    ensures
        match first {
            Some(arg) => exists|i: int|
                1 <= i < args.len() && *arg == #[trigger] args[i] && !is_global(arg@) && forall|j: int|
                    1 <= j < i ==> is_global(#[trigger] args[j]@),
            None => forall|j: int| 1 <= j < args.len() ==> is_global(#[trigger] args[j]@),
        },
{
    let mut i: usize = 1;
    while i < args.len()
        invariant
            1 <= i,
            forall|j: int| 1 <= j < i ==> is_global(#[trigger] args[j]@),
        decreases args.len() - i,
    {
        if !is_global_flag(args[i].as_str()) {
            return Some(&args[i]);
        }
        i += 1;
    }
    None
}

/// Whether an argument is the name or an alias of a command.
pub fn is_known_subcommand(arg: &str, subcommands: &Vec<String>) -> (known: bool)
    ensures
        known == views(subcommands@).contains(arg@),
{
    contains_str(subcommands, arg)
}

/// Why a command line could not be read.
#[derive(Debug, Clone, Copy, PartialEq, Eq, Structural)]
pub enum ParseErrorKind {
    MissingSubcommand,
    DisplayHelpOnMissingArgumentOrSubcommand,
    UnknownArgument,
    InvalidSubcommand,
    /// Any other reason.
    Other,
}

/// Whether a failure to read the command line may be due to the command
/// having been left out.
pub open spec fn may_lack_command(kind: ParseErrorKind) -> bool {
    !(kind is Other)
}

/// Whether a command line that could not be read is read again as a build:
/// the failure may be due to a missing command, and the first argument that
/// is no global flag, if there is one, is no command.
pub open spec fn defaults_to_build(
    kind: ParseErrorKind,
    args: Seq<Seq<char>>,
    subcommands: Seq<Seq<char>>,
) -> bool {
    may_lack_command(kind) && forall|i: int|
        1 <= i < args.len() && !is_global(#[trigger] args[i]) && (forall|j: int|
            1 <= j < i ==> is_global(#[trigger] args[j])) ==> !subcommands.contains(args[i])
}

/// Whether a command line that could not be read is read again as a build.
pub fn should_default_to_build(
    kind: ParseErrorKind,
    args: &Vec<String>,
    subcommands: &Vec<String>,
) -> (r: bool)
    ensures
        r == defaults_to_build(kind, views(args@), views(subcommands@)),
{
    match kind {
        ParseErrorKind::Other => false,
        _ => {
            match first_non_global_arg(args) {
                Some(arg) => {
                    let known = is_known_subcommand(arg.as_str(), subcommands);
                    proof {
                        let i = choose|i: int|
                            1 <= i < args.len() && *arg == #[trigger] args[i] && !is_global(arg@)
                                && forall|j: int| 1 <= j < i ==> is_global(#[trigger] args[j]@);
                        assert(views(args@)[i] == arg@);
                        assert forall|j: int| 1 <= j < i implies is_global(
                            #[trigger] views(args@)[j],
                        ) by {
                            assert(is_global(args[j]@));
                        }
                        if !known {
                            assert forall|k: int|
                                1 <= k < args.len() && !is_global(#[trigger] views(args@)[k]) && (
                                forall|j: int| 1 <= j < k ==> is_global(#[trigger] views(args@)[j]))
                                implies !views(subcommands@).contains(views(args@)[k]) by {
                                if k < i {
                                    assert(is_global(views(args@)[k]));
                                } else if k > i {
                                    assert(is_global(views(args@)[i]));
                                }
                            }
                        }
                    }
                    !known
                },
                None => {
                    proof {
                        assert forall|k: int| 1 <= k < args.len() implies is_global(
                            #[trigger] views(args@)[k],
                        ) by {
                            assert(is_global(args[k]@));
                        }
                    }
                    true
                },
            }
        },
    }
}

/// The global flags among the arguments that stand before the first `--`,
/// in order.
pub open spec fn globals_of(args: Seq<Seq<char>>) -> Seq<Seq<char>>
    decreases args.len(),
{
    if args.len() == 0 {
        Seq::empty()
    } else {
        let front = args.drop_last();
        if !front.contains("--"@) && args.last() != "--"@ && is_global(args.last()) {
            globals_of(front).push(args.last())
        } else {
            globals_of(front)
        }
    }
}

/// The arguments that are no global flags before the first `--`, in order:
/// what stands before the first `--` and is no global flag, and all from
/// the first `--` on.
pub open spec fn others_of(args: Seq<Seq<char>>) -> Seq<Seq<char>>
    decreases args.len(),
{
    if args.len() == 0 {
        Seq::empty()
    } else {
        let front = args.drop_last();
        if !front.contains("--"@) && args.last() != "--"@ && is_global(args.last()) {
            others_of(front)
        } else {
            others_of(front).push(args.last())
        }
    }
}

/// The command line of a build made of a command line without a command:
/// the program name, the global flags, the word `build`, and the other
/// arguments.
pub open spec fn default_args(raw_args: Seq<Seq<char>>) -> Seq<Seq<char>> {
    if raw_args.len() == 0 {
        seq!["build"@]
    } else {
        seq![raw_args[0]] + globals_of(raw_args.skip(1)) + seq!["build"@] + others_of(
            raw_args.skip(1),
        )
    }
}

/// The command line of a build made of a command line without a command.
pub fn build_default_args(raw_args: &Vec<String>) -> (args: Vec<String>)
    ensures
        views(args@) == default_args(views(raw_args@)),
{
    if raw_args.len() == 0 {
        let mut only: Vec<String> = Vec::new();
        only.push("build".to_owned());
        assert(views(only@) =~= seq!["build"@]);
        return only;
    }
    let ghost rest = views(raw_args@).skip(1);
    let mut globals: Vec<String> = Vec::new();
    let mut others: Vec<String> = Vec::new();
    let mut saw_double_dash = false;
    let mut i: usize = 1;
    assert(rest.take(0) =~= Seq::<Seq<char>>::empty());
    assert(views(globals@) =~= Seq::<Seq<char>>::empty());
    assert(views(others@) =~= Seq::<Seq<char>>::empty());
    while i < raw_args.len()
        invariant
            1 <= i <= raw_args.len(),
            rest == views(raw_args@).skip(1),
            saw_double_dash == rest.take(i - 1).contains("--"@),
            views(globals@) == globals_of(rest.take(i - 1)),
            views(others@) == others_of(rest.take(i - 1)),
        decreases raw_args.len() - i,
    {
        let ghost upto = rest.take(i as int);
        let ghost front = rest.take(i - 1);
        assert(upto.drop_last() =~= front);
        assert(upto.last() == raw_args@[i as int]@);
        let ghost old_globals = views(globals@);
        let ghost old_others = views(others@);
        let arg = &raw_args[i];
        let is_dash = arg.as_str().eq("--");
        if !saw_double_dash && !is_dash && is_global_flag(arg.as_str()) {
            globals.push(arg.clone());
            assert(views(globals@) =~= old_globals.push(upto.last()));
        } else {
            others.push(arg.clone());
            assert(views(others@) =~= old_others.push(upto.last()));
        }
        proof {
            if front.contains("--"@) {
                let k = choose|k: int| 0 <= k < front.len() && front[k] == "--"@;
                assert(upto[k] == "--"@);
            }
            if is_dash {
                assert(upto[upto.len() - 1] == "--"@);
            }
            if upto.contains("--"@) {
                let k = choose|k: int| 0 <= k < upto.len() && upto[k] == "--"@;
                if k < front.len() {
                    assert(front[k] == "--"@);
                }
            }
        }
        if is_dash {
            saw_double_dash = true;
        }
        i += 1;
    }
    assert(rest.take(i - 1) =~= rest);
    let mut result: Vec<String> = Vec::new();
    result.push(raw_args[0].clone());
    let ghost head = views(result@);
    assert(head =~= seq![views(raw_args@)[0]]);
    let mut g: usize = 0;
    while g < globals.len()
        invariant
            g <= globals.len(),
            views(result@) == head + views(globals@).take(g as int),
        decreases globals.len() - g,
    {
        let ghost before = views(result@);
        result.push(globals[g].clone());
        assert(views(result@) =~= before.push(globals@[g as int]@));
        assert(views(globals@).take(g + 1) =~= views(globals@).take(g as int).push(
            globals@[g as int]@,
        ));
        g += 1;
    }
    assert(views(globals@).take(g as int) =~= views(globals@));
    let ghost with_globals = views(result@);
    result.push("build".to_owned());
    let ghost with_build = views(result@);
    assert(with_build =~= with_globals + seq!["build"@]);
    let mut o: usize = 0;
    while o < others.len()
        invariant
            o <= others.len(),
            views(result@) == with_build + views(others@).take(o as int),
        decreases others.len() - o,
    {
        let ghost before = views(result@);
        result.push(others[o].clone());
        assert(views(result@) =~= before.push(others@[o as int]@));
        assert(views(others@).take(o + 1) =~= views(others@).take(o as int).push(
            others@[o as int]@,
        ));
        o += 1;
    }
    assert(views(others@).take(o as int) =~= views(others@));
    result
}

/// The command line to read in place of one that could not be read, if it
/// is to be read again as a build.
pub fn fallback_args(kind: ParseErrorKind, raw_args: &Vec<String>, subcommands: &Vec<String>) -> (args:
    Option<Vec<String>>)
    ensures
        match args {
            Some(args) => defaults_to_build(kind, views(raw_args@), views(subcommands@)) && views(
                args@,
            ) == default_args(views(raw_args@)),
            None => !defaults_to_build(kind, views(raw_args@), views(subcommands@)),
        },
{
    if should_default_to_build(kind, raw_args, subcommands) {
        Some(build_default_args(raw_args))
    } else {
        None
    }
}

} // verus!
