//! Namespaces.
//!
//! A package with a namespace gets a module of its own that lists the
//! modules of the namespace. It is described by a file with one line of
//! heading and one line for each module, which the compiler turns into a
//! module of aliases.

use crate::build::tables::{name_set, name_set_items};
use crate::text::{is_sorted, lemma_same_strings, lemma_sorted_is_unique, sort_strings, views};
use ahash::AHashSet;
use vstd::prelude::*;

verus! {

/// The first line of a namespace file.
pub const MLMAP_HEADING: &'static str = "randjbuildsystem\n";

/// The lines of a namespace file after the heading: one for each name.
pub open spec fn lines(names: Seq<Seq<char>>) -> Seq<char>
    decreases names.len(),
{
    if names.len() == 0 {
        Seq::empty()
    } else {
        lines(names.drop_last()) + names.last() + seq!['\n']
    }
}

/// The name of the file that describes a namespace.
pub fn mlmap_file_name(namespace: &str) -> (name: String)
    ensures
        name@ == namespace@ + ".mlmap"@,
{
    namespace.to_owned().concat(".mlmap")
}

/// The content of the file that describes a namespace: the heading, then
/// the names of the modules in order, each on a line of its own.
pub fn mlmap_contents(depending_modules: &AHashSet<String>) -> (contents: String)
    ensures
        exists|names: Seq<Seq<char>>|
            names.no_duplicates() && names.to_set() == name_set(*depending_modules) && is_sorted(
                names,
            ) && contents@ == MLMAP_HEADING@ + #[trigger] lines(names),
{
    let mut modules = name_set_items(depending_modules);
    let ghost unsorted = views(modules@);
    sort_strings(&mut modules);
    proof {
        lemma_same_strings(unsorted, views(modules@));
    }
    let mut contents = MLMAP_HEADING.to_owned();
    let mut i: usize = 0;
    assert(views(modules@).take(0) =~= Seq::<Seq<char>>::empty());
    assert(contents@ =~= MLMAP_HEADING@ + lines(views(modules@).take(0)));
    while i < modules.len()
        invariant
            i <= modules.len(),
            contents@ == MLMAP_HEADING@ + lines(views(modules@).take(i as int)),
        decreases modules.len() - i,
    {
        let ghost upto = views(modules@).take(i + 1);
        assert(upto.drop_last() =~= views(modules@).take(i as int));
        assert(upto.last() == modules@[i as int]@);
        let ghost before = contents@;
        contents.append(modules[i].as_str());
        contents.append("\n");
        proof {
            reveal_strlit("\n");
            assert("\n"@ =~= seq!['\n']);
            assert(contents@ =~= MLMAP_HEADING@ + (lines(upto.drop_last()) + upto.last() + seq![
                '\n',
            ]));
        }
        i += 1;
    }
    assert(views(modules@).take(i as int) =~= views(modules@));
    contents
}

/// The content of a namespace file is determined by the modules of the
/// namespace: there is one way only to list them in order.
pub proof fn lemma_namespace_file_determined(first: Seq<Seq<char>>, second: Seq<Seq<char>>)
    requires
        first.no_duplicates(),
        second.no_duplicates(),
        first.to_set() == second.to_set(),
        is_sorted(first),
        is_sorted(second),
    ensures
        lines(first) == lines(second),
{
    lemma_sorted_is_unique(first, second);
}

/// The arguments with which the compiler is run on the file of a
/// namespace: those that tell it where the runtime lies, the flags, and the
/// name of the file.
pub open spec fn mlmap_args(runtime_path_args: Seq<Seq<char>>, namespace: Seq<char>) -> Seq<Seq<char>> {
    runtime_path_args + seq!["-w"@, "-49"@, "-color"@, "always"@, "-no-alias-deps"@] + seq![
        namespace + ".mlmap"@,
    ]
}

/// The arguments with which the compiler is run on the file of a
/// namespace.
pub fn mlmap_compile_args(runtime_path_args: Vec<String>, namespace: &str) -> (args: Vec<String>)
    ensures
        views(args@) == mlmap_args(views(runtime_path_args@), namespace@),
{
    let mut args = runtime_path_args;
    let ghost given = views(args@);
    args.push("-w".to_owned());
    args.push("-49".to_owned());
    args.push("-color".to_owned());
    args.push("always".to_owned());
    args.push("-no-alias-deps".to_owned());
    args.push(mlmap_file_name(namespace));
    assert(views(args@) =~= mlmap_args(given, namespace@));
    args
}

/// What the user is told when the compiler fails on the file of a
/// namespace.
pub fn mlmap_failure(namespace: &str, build_path: &str, stderr: &str) -> (message: String)
    ensures
        message@ == "Failed to compile namespace mlmap "@ + namespace@ + " in "@ + build_path@
            + ": "@ + stderr@,
{
    "Failed to compile namespace mlmap ".to_owned().concat(namespace).concat(" in ").concat(
        build_path,
    ).concat(": ").concat(stderr)
}

} // verus!
