//! The directories to watch.
//!
//! Each package of the workspace asks for its root to be watched, so that a
//! configuration file that an editor replaces rather than rewrites is not
//! lost from sight, and for its source folders, each in the mode that its
//! configuration gives. The directory of the lock file is watched too.
//! Where the same path is asked for more than once it is watched once, and
//! recursively if any request asked for that.

use crate::build::build_types::BuildCommandState;
use crate::build::packages::Package;
use crate::build::tables::{package_table_get, package_table_names};
use crate::config::PackageSource;
use crate::paths::{is_same_path, join, path_join, same_path};
use crate::text::{contains_str, views};
use vstd::prelude::*;

verus! {

/// How far below a watched directory changes are reported.
#[derive(Debug, Clone, Copy, PartialEq, Eq, Structural)]
pub enum RecursiveMode {
    /// Changes anywhere below the directory are reported.
    Recursive,
    /// Only changes directly in the directory are reported.
    NonRecursive,
}

/// A list of watch targets as plain text: each path with its mode.
pub open spec fn watch_view(paths: Seq<(String, RecursiveMode)>) -> Seq<(Seq<char>, RecursiveMode)> {
    Seq::new(paths.len(), |i: int| (paths[i].0@, paths[i].1))
}

/// The watch targets after one more request.
///
/// Where a target for the same path is there already, the first such target
/// stands for the request too and becomes recursive if the request is;
/// otherwise the request is added at the end.
pub open spec fn with_request(
    paths: Seq<(Seq<char>, RecursiveMode)>,
    path: Seq<char>,
    mode: RecursiveMode,
) -> Seq<(Seq<char>, RecursiveMode)>
    decreases paths.len(),
{
    if paths.len() == 0 {
        seq![(path, mode)]
    } else if same_path(paths[0].0, path) {
        seq![(paths[0].0, if mode is Recursive { RecursiveMode::Recursive } else { paths[0].1 })]
            + paths.skip(1)
    } else {
        seq![paths[0]] + with_request(paths.skip(1), path, mode)
    }
}

/// Adds a request to a list of watch targets.
pub fn insert_watch_path(paths: &mut Vec<(String, RecursiveMode)>, path: String, mode: RecursiveMode)
    ensures
        watch_view(final(paths)@) == with_request(watch_view(old(paths)@), path@, mode),
{
    let ghost before = watch_view(paths@);
    let mut i: usize = 0;
    assert(before.skip(0) =~= before);
    assert(before.take(0) + with_request(before, path@, mode) =~= with_request(before, path@, mode));
    while i < paths.len()
        invariant
            i <= paths.len(),
            before == watch_view(paths@),
            before == watch_view(old(paths)@),
            with_request(before, path@, mode) == before.take(i as int) + with_request(
                before.skip(i as int),
                path@,
                mode,
            ),
        decreases paths.len() - i,
    {
        let ghost rest = before.skip(i as int);
        assert(rest[0] == before[i as int]);
        assert(rest.skip(1) =~= before.skip(i + 1));
        assert(before.take(i as int) + seq![rest[0]] =~= before.take(i + 1));
        if is_same_path(paths[i].0.as_str(), path.as_str()) {
            if matches!(mode, RecursiveMode::Recursive) {
                let entry = (paths[i].0.clone(), RecursiveMode::Recursive);
                paths.set(i, entry);
            }
            assert(watch_view(paths@) =~= before.take(i as int) + (seq![
                (rest[0].0, if mode is Recursive { RecursiveMode::Recursive } else { rest[0].1 }),
            ] + rest.skip(1)));
            return ;
        }
        assert(before.take(i as int) + (seq![rest[0]] + with_request(rest.skip(1), path@, mode))
            =~= before.take(i + 1) + with_request(before.skip(i + 1), path@, mode));
        i += 1;
    }
    assert(before.take(i as int) =~= before);
    paths.push((path, mode));
    assert(watch_view(paths@) =~= before + seq![(path@, mode)]);
}

/// The mode in which a source folder is watched.
pub open spec fn folder_mode(folder: PackageSource) -> RecursiveMode {
    if folder.is_recursive() {
        RecursiveMode::Recursive
    } else {
        RecursiveMode::NonRecursive
    }
}

/// The watch targets after the source folders of a package were requested,
/// each in its own mode. A folder that is not among the directories present
/// on disk is left out.
pub open spec fn with_folders(
    paths: Seq<(Seq<char>, RecursiveMode)>,
    package_path: Seq<char>,
    folders: Seq<PackageSource>,
    present: Seq<Seq<char>>,
) -> Seq<(Seq<char>, RecursiveMode)>
    decreases folders.len(),
{
    if folders.len() == 0 {
        paths
    } else {
        let before = with_folders(paths, package_path, folders.drop_last(), present);
        let dir = path_join(package_path, folders.last().dir@);
        if present.contains(dir) {
            with_request(before, dir, folder_mode(folders.last()))
        } else {
            before
        }
    }
}

/// The watch targets after a package was taken up. A package of the
/// workspace asks for its root, non-recursively, and for its source folders;
/// any other package asks for nothing.
pub open spec fn with_package(
    paths: Seq<(Seq<char>, RecursiveMode)>,
    package: Package,
    present: Seq<Seq<char>>,
) -> Seq<(Seq<char>, RecursiveMode)> {
    if package.is_local_dep {
        with_folders(
            with_request(paths, package.path@, RecursiveMode::NonRecursive),
            package.path@,
            package.source_folders@,
            present,
        )
    } else {
        paths
    }
}

/// The watch targets after the packages of the given names were taken up in
/// order. A name without a package is passed over.
pub open spec fn with_packages(
    paths: Seq<(Seq<char>, RecursiveMode)>,
    packages: Map<Seq<char>, Package>,
    names: Seq<Seq<char>>,
    present: Seq<Seq<char>>,
) -> Seq<(Seq<char>, RecursiveMode)>
    decreases names.len(),
{
    if names.len() == 0 {
        paths
    } else {
        let before = with_packages(paths, packages, names.drop_last(), present);
        if packages.contains_key(names.last()) {
            with_package(before, packages[names.last()], present)
        } else {
            before
        }
    }
}

/// The directory in which the lock file lies.
pub open spec fn lock_dir(root: Seq<char>) -> Seq<char> {
    path_join(root, "lib"@)
}

/// The watch targets of a project: those of its packages, taken up in the
/// given order, and the directory of the lock file, non-recursively, where
/// it is present on disk.
pub open spec fn watch_paths_in_order(
    packages: Map<Seq<char>, Package>,
    names: Seq<Seq<char>>,
    root: Seq<char>,
    present: Seq<Seq<char>>,
) -> Seq<(Seq<char>, RecursiveMode)> {
    let paths = with_packages(Seq::empty(), packages, names, present);
    if present.contains(lock_dir(root)) {
        with_request(paths, lock_dir(root), RecursiveMode::NonRecursive)
    } else {
        paths
    }
}

/// Whether no two targets of a list are for the same path.
pub open spec fn targets_distinct(paths: Seq<(Seq<char>, RecursiveMode)>) -> bool {
    forall|i: int, j: int|
        0 <= i < j < paths.len() ==> !same_path((#[trigger] paths[i]).0, (#[trigger] paths[j]).0)
}

/// Whether a list of targets answers a request: one of its targets is for
/// the path of the request, and is recursive if the request is.
pub open spec fn answers(
    paths: Seq<(Seq<char>, RecursiveMode)>,
    path: Seq<char>,
    mode: RecursiveMode,
) -> bool {
    exists|i: int|
        0 <= i < paths.len() && same_path((#[trigger] paths[i]).0, path) && (mode is Recursive
            ==> paths[i].1 is Recursive)
}

/// What one more request does to a list of watch targets: the paths that
/// were there stay where they are, no target loses recursion, at most one
/// target is added, and the request is answered. Targets that were for
/// different paths before are so afterwards.
pub proof fn lemma_with_request(paths: Seq<(Seq<char>, RecursiveMode)>, path: Seq<char>, mode: RecursiveMode)
    ensures
        paths.len() <= with_request(paths, path, mode).len() <= paths.len() + 1,
        forall|i: int|
            0 <= i < paths.len() ==> (#[trigger] with_request(paths, path, mode)[i]).0 == paths[i].0
                && (paths[i].1 is Recursive ==> with_request(paths, path, mode)[i].1 is Recursive),
        with_request(paths, path, mode).len() == paths.len() + 1 ==> with_request(
            paths,
            path,
            mode,
        ).last() == (path, mode) && forall|i: int|
            0 <= i < paths.len() ==> !same_path((#[trigger] paths[i]).0, path),
        answers(with_request(paths, path, mode), path, mode),
        targets_distinct(paths) ==> targets_distinct(with_request(paths, path, mode)),
    decreases paths.len(),
{
    let after = with_request(paths, path, mode);
    if paths.len() == 0 {
        assert(same_path(after[0].0, path));
    } else if same_path(paths[0].0, path) {
        assert(same_path(after[0].0, path));
        assert forall|i: int| 0 <= i < paths.len() implies (#[trigger] after[i]).0 == paths[i].0 && (
        paths[i].1 is Recursive ==> after[i].1 is Recursive) by {
            if i > 0 {
                assert(after[i] == paths.skip(1)[i - 1]);
            }
        }
    } else {
        let rest = paths.skip(1);
        lemma_with_request(rest, path, mode);
        let tail = with_request(rest, path, mode);
        assert forall|i: int| 0 <= i < paths.len() implies (#[trigger] after[i]).0 == paths[i].0 && (
        paths[i].1 is Recursive ==> after[i].1 is Recursive) by {
            if i > 0 {
                assert(after[i] == tail[i - 1]);
                assert(rest[i - 1] == paths[i]);
            }
        }
        let k = choose|k: int|
            0 <= k < tail.len() && same_path((#[trigger] tail[k]).0, path) && (mode is Recursive
                ==> tail[k].1 is Recursive);
        assert(after[k + 1] == tail[k]);
        if after.len() == paths.len() + 1 {
            assert(after.last() == tail.last());
            assert forall|i: int| 0 <= i < paths.len() implies !same_path(
                (#[trigger] paths[i]).0,
                path,
            ) by {
                if i > 0 {
                    assert(rest[i - 1] == paths[i]);
                }
            }
        }
    }
    if targets_distinct(paths) {
        assert forall|i: int, j: int| 0 <= i < j < after.len() implies !same_path(
            (#[trigger] after[i]).0,
            (#[trigger] after[j]).0,
        ) by {
            if j < paths.len() {
                assert(!same_path(paths[i].0, paths[j].0));
            } else {
                assert(after.len() == paths.len() + 1);
                assert(after[j] == after.last());
                assert(!same_path(paths[i].0, path));
            }
        }
    }
}

/// Recursive dominance: where the same path is requested once recursively
/// and once not, in either order, one target results, and it is recursive.
pub proof fn lemma_recursive_dominance(path: Seq<char>)
    ensures
        with_request(
            with_request(Seq::empty(), path, RecursiveMode::NonRecursive),
            path,
            RecursiveMode::Recursive,
        ) == seq![(path, RecursiveMode::Recursive)],
        with_request(
            with_request(Seq::empty(), path, RecursiveMode::Recursive),
            path,
            RecursiveMode::NonRecursive,
        ) == seq![(path, RecursiveMode::Recursive)],
{
    let first = with_request(Seq::empty(), path, RecursiveMode::NonRecursive);
    assert(first =~= seq![(path, RecursiveMode::NonRecursive)]);
    assert(first.skip(1) =~= Seq::empty());
    assert(with_request(first, path, RecursiveMode::Recursive) =~= seq![
        (path, RecursiveMode::Recursive),
    ]);
    let other = with_request(Seq::empty(), path, RecursiveMode::Recursive);
    assert(other =~= seq![(path, RecursiveMode::Recursive)]);
    assert(other.skip(1) =~= Seq::empty());
    assert(with_request(other, path, RecursiveMode::NonRecursive) =~= seq![
        (path, RecursiveMode::Recursive),
    ]);
}

/// A request that was answered stays answered whatever is requested after
/// it.
pub proof fn lemma_answer_stays(
    paths: Seq<(Seq<char>, RecursiveMode)>,
    path: Seq<char>,
    mode: RecursiveMode,
    later_path: Seq<char>,
    later_mode: RecursiveMode,
)
    requires
        answers(paths, path, mode),
    ensures
        answers(with_request(paths, later_path, later_mode), path, mode),
{
    lemma_with_request(paths, later_path, later_mode);
    let after = with_request(paths, later_path, later_mode);
    let i = choose|i: int|
        0 <= i < paths.len() && same_path((#[trigger] paths[i]).0, path) && (mode is Recursive
            ==> paths[i].1 is Recursive);
    assert(after[i].0 == paths[i].0);
}

proof fn lemma_with_folders_distinct(
    paths: Seq<(Seq<char>, RecursiveMode)>,
    package_path: Seq<char>,
    folders: Seq<PackageSource>,
    present: Seq<Seq<char>>,
)
    requires
        targets_distinct(paths),
    ensures
        targets_distinct(with_folders(paths, package_path, folders, present)),
    decreases folders.len(),
{
    if folders.len() > 0 {
        lemma_with_folders_distinct(paths, package_path, folders.drop_last(), present);
        lemma_with_request(
            with_folders(paths, package_path, folders.drop_last(), present),
            path_join(package_path, folders.last().dir@),
            folder_mode(folders.last()),
        );
    }
}

proof fn lemma_with_packages_distinct(
    packages: Map<Seq<char>, Package>,
    names: Seq<Seq<char>>,
    present: Seq<Seq<char>>,
)
    ensures
        targets_distinct(with_packages(Seq::empty(), packages, names, present)),
    decreases names.len(),
{
    if names.len() > 0 {
        lemma_with_packages_distinct(packages, names.drop_last(), present);
        let before = with_packages(Seq::empty(), packages, names.drop_last(), present);
        if packages.contains_key(names.last()) {
            let package = packages[names.last()];
            lemma_with_request(before, package.path@, RecursiveMode::NonRecursive);
            lemma_with_folders_distinct(
                with_request(before, package.path@, RecursiveMode::NonRecursive),
                package.path@,
                package.source_folders@,
                present,
            );
        }
    }
}

/// No two watch targets of a project are for the same path, in whatever
/// order its packages are taken up.
pub proof fn lemma_watch_paths_distinct(
    packages: Map<Seq<char>, Package>,
    names: Seq<Seq<char>>,
    root: Seq<char>,
    present: Seq<Seq<char>>,
)
    ensures
        targets_distinct(watch_paths_in_order(packages, names, root, present)),
{
    lemma_with_packages_distinct(packages, names, present);
    lemma_with_request(
        with_packages(Seq::empty(), packages, names, present),
        lock_dir(root),
        RecursiveMode::NonRecursive,
    );
}

proof fn lemma_folders_keep_answer(
    paths: Seq<(Seq<char>, RecursiveMode)>,
    package_path: Seq<char>,
    folders: Seq<PackageSource>,
    present: Seq<Seq<char>>,
    path: Seq<char>,
    mode: RecursiveMode,
)
    requires
        answers(paths, path, mode),
    ensures
        answers(with_folders(paths, package_path, folders, present), path, mode),
    decreases folders.len(),
{
    if folders.len() > 0 {
        lemma_folders_keep_answer(paths, package_path, folders.drop_last(), present, path, mode);
        lemma_answer_stays(
            with_folders(paths, package_path, folders.drop_last(), present),
            path,
            mode,
            path_join(package_path, folders.last().dir@),
            folder_mode(folders.last()),
        );
    }
}

proof fn lemma_folders_answer(
    paths: Seq<(Seq<char>, RecursiveMode)>,
    package_path: Seq<char>,
    folders: Seq<PackageSource>,
    present: Seq<Seq<char>>,
    k: int,
)
    requires
        0 <= k < folders.len(),
        present.contains(path_join(package_path, folders[k].dir@)),
    ensures
        answers(
            with_folders(paths, package_path, folders, present),
            path_join(package_path, folders[k].dir@),
            folder_mode(folders[k]),
        ),
    decreases folders.len(),
{
    let front = folders.drop_last();
    let before = with_folders(paths, package_path, front, present);
    let dir = path_join(package_path, folders.last().dir@);
    if k == folders.len() - 1 {
        lemma_with_request(before, dir, folder_mode(folders.last()));
    } else {
        assert(front[k] == folders[k]);
        lemma_folders_answer(paths, package_path, front, present, k);
        lemma_answer_stays(
            before,
            path_join(package_path, folders[k].dir@),
            folder_mode(folders[k]),
            dir,
            folder_mode(folders.last()),
        );
    }
}

proof fn lemma_package_keeps_answer(
    paths: Seq<(Seq<char>, RecursiveMode)>,
    package: Package,
    present: Seq<Seq<char>>,
    path: Seq<char>,
    mode: RecursiveMode,
)
    requires
        answers(paths, path, mode),
    ensures
        answers(with_package(paths, package, present), path, mode),
{
    if package.is_local_dep {
        lemma_answer_stays(paths, path, mode, package.path@, RecursiveMode::NonRecursive);
        lemma_folders_keep_answer(
            with_request(paths, package.path@, RecursiveMode::NonRecursive),
            package.path@,
            package.source_folders@,
            present,
            path,
            mode,
        );
    }
}

/// Whether a project asks for a path to be watched in a mode: the path is
/// the root of a workspace package, asked for non-recursively, or a source
/// folder of such a package that is present on disk, asked for in the
/// folder's mode, or the directory of the lock file, if it is present, asked
/// for non-recursively.
pub open spec fn is_requested(
    packages: Map<Seq<char>, Package>,
    root: Seq<char>,
    present: Seq<Seq<char>>,
    path: Seq<char>,
    mode: RecursiveMode,
) -> bool {
    ||| exists|name: Seq<char>| #[trigger]
        packages.contains_key(name) && packages[name].is_local_dep && path == packages[name].path@
            && mode is NonRecursive
    ||| exists|name: Seq<char>, k: int|
        packages.contains_key(name) && packages[name].is_local_dep && 0 <= k
            < packages[name].source_folders.len() && path == path_join(
            packages[name].path@,
            (#[trigger] packages[name].source_folders[k]).dir@,
        ) && present.contains(path) && mode == folder_mode(packages[name].source_folders[k])
    ||| path == lock_dir(root) && present.contains(path) && mode is NonRecursive
}

proof fn lemma_packages_answer(
    packages: Map<Seq<char>, Package>,
    names: Seq<Seq<char>>,
    present: Seq<Seq<char>>,
    name: Seq<char>,
    path: Seq<char>,
    mode: RecursiveMode,
)
    requires
        names.contains(name),
        packages.contains_key(name),
        packages[name].is_local_dep,
        (path == packages[name].path@ && mode is NonRecursive) || exists|k: int|
            0 <= k < packages[name].source_folders.len() && path == path_join(
                packages[name].path@,
                (#[trigger] packages[name].source_folders[k]).dir@,
            ) && present.contains(path) && mode == folder_mode(packages[name].source_folders[k]),
    ensures
        answers(with_packages(Seq::empty(), packages, names, present), path, mode),
    decreases names.len(),
{
    let front = names.drop_last();
    let before = with_packages(Seq::empty(), packages, front, present);
    if names.last() == name {
        let package = packages[name];
        let rooted = with_request(before, package.path@, RecursiveMode::NonRecursive);
        lemma_with_request(before, package.path@, RecursiveMode::NonRecursive);
        if path == package.path@ && mode is NonRecursive {
            lemma_folders_keep_answer(
                rooted,
                package.path@,
                package.source_folders@,
                present,
                path,
                mode,
            );
        } else {
            let k = choose|k: int|
                0 <= k < package.source_folders.len() && path == path_join(
                    package.path@,
                    (#[trigger] package.source_folders[k]).dir@,
                ) && present.contains(path) && mode == folder_mode(package.source_folders[k]);
            assert(package.source_folders@[k] == package.source_folders[k]);
            lemma_folders_answer(rooted, package.path@, package.source_folders@, present, k);
        }
    } else {
        let i = choose|i: int| 0 <= i < names.len() && names[i] == name;
        assert(front[i] == name);
        lemma_packages_answer(packages, front, present, name, path, mode);
        if packages.contains_key(names.last()) {
            lemma_package_keeps_answer(before, packages[names.last()], present, path, mode);
        }
    }
}

/// Every request of a project is answered by its watch targets, in whatever
/// order its packages are taken up, as long as each is taken up: the path is
/// watched, and recursively if that was asked for.
pub proof fn lemma_watch_paths_answer(
    packages: Map<Seq<char>, Package>,
    names: Seq<Seq<char>>,
    root: Seq<char>,
    present: Seq<Seq<char>>,
    path: Seq<char>,
    mode: RecursiveMode,
)
    requires
        names.to_set() == packages.dom(),
        is_requested(packages, root, present, path, mode),
    ensures
        answers(watch_paths_in_order(packages, names, root, present), path, mode),
{
    let paths = with_packages(Seq::empty(), packages, names, present);
    let by_root = exists|name: Seq<char>| #[trigger]
        packages.contains_key(name) && packages[name].is_local_dep && path == packages[name].path@
            && mode is NonRecursive;
    let by_folder = exists|name: Seq<char>, k: int|
        packages.contains_key(name) && packages[name].is_local_dep && 0 <= k
            < packages[name].source_folders.len() && path == path_join(
            packages[name].path@,
            (#[trigger] packages[name].source_folders[k]).dir@,
        ) && present.contains(path) && mode == folder_mode(packages[name].source_folders[k]);
    if by_root {
        let name = choose|name: Seq<char>| #[trigger]
            packages.contains_key(name) && packages[name].is_local_dep && path
                == packages[name].path@ && mode is NonRecursive;
        assert(names.to_set().contains(name));
        lemma_packages_answer(packages, names, present, name, path, mode);
        if present.contains(lock_dir(root)) {
            lemma_answer_stays(paths, path, mode, lock_dir(root), RecursiveMode::NonRecursive);
        }
    } else if by_folder {
        let (name, k) = choose|name: Seq<char>, k: int|
            packages.contains_key(name) && packages[name].is_local_dep && 0 <= k
                < packages[name].source_folders.len() && path == path_join(
                packages[name].path@,
                (#[trigger] packages[name].source_folders[k]).dir@,
            ) && present.contains(path) && mode == folder_mode(packages[name].source_folders[k]);
        assert(names.to_set().contains(name));
        lemma_packages_answer(packages, names, present, name, path, mode);
        if present.contains(lock_dir(root)) {
            lemma_answer_stays(paths, path, mode, lock_dir(root), RecursiveMode::NonRecursive);
        }
    } else {
        lemma_with_request(paths, lock_dir(root), RecursiveMode::NonRecursive);
    }
}

/// Adds what a package asks for to a list of watch targets.
fn insert_package_paths(
    paths: &mut Vec<(String, RecursiveMode)>,
    package: &Package,
    present: &Vec<String>,
)
    ensures
        watch_view(final(paths)@) == with_package(
            watch_view(old(paths)@),
            *package,
            views(present@),
        ),
{
    if !package.is_local_dep {
        return ;
    }
    insert_watch_path(paths, package.path.clone(), RecursiveMode::NonRecursive);
    let ghost start = watch_view(paths@);
    let mut i: usize = 0;
    assert(package.source_folders@.take(0) =~= Seq::<PackageSource>::empty());
    while i < package.source_folders.len()
        invariant
            i <= package.source_folders.len(),
            watch_view(paths@) == with_folders(
                start,
                package.path@,
                package.source_folders@.take(i as int),
                views(present@),
            ),
        decreases package.source_folders.len() - i,
    {
        let ghost upto = package.source_folders@.take(i + 1);
        assert(upto.drop_last() =~= package.source_folders@.take(i as int));
        assert(upto.last() == package.source_folders@[i as int]);
        let source = &package.source_folders[i];
        let dir = join(package.path.as_str(), source.dir.as_str());
        if contains_str(present, dir.as_str()) {
            let mode = if source.recursive() {
                RecursiveMode::Recursive
            } else {
                RecursiveMode::NonRecursive
            };
            insert_watch_path(paths, dir, mode);
        }
        i += 1;
    }
    assert(package.source_folders@.take(i as int) =~= package.source_folders@);
}

/// The watch targets of a project, with its packages taken up in the order
/// of `names`.
///
/// `present` lists the directories that are there on disk: a source folder
/// or lock directory that is not among them is not watched.
pub fn watch_paths_for(
    build_state: &BuildCommandState,
    names: &Vec<String>,
    root: &str,
    present: &Vec<String>,
) -> (paths: Vec<(String, RecursiveMode)>)
    ensures
        watch_view(paths@) == watch_paths_in_order(
            build_state.build_state.packages_map(),
            views(names@),
            root@,
            views(present@),
        ),
{
    let ghost packages = build_state.build_state.packages_map();
    let mut paths: Vec<(String, RecursiveMode)> = Vec::new();
    let mut i: usize = 0;
    assert(views(names@).take(0) =~= Seq::<Seq<char>>::empty());
    assert(watch_view(paths@) =~= Seq::<(Seq<char>, RecursiveMode)>::empty());
    while i < names.len()
        invariant
            i <= names.len(),
            packages == build_state.build_state.packages_map(),
            watch_view(paths@) == with_packages(
                Seq::empty(),
                packages,
                views(names@).take(i as int),
                views(present@),
            ),
        decreases names.len() - i,
    {
        let ghost upto = views(names@).take(i + 1);
        assert(upto.drop_last() =~= views(names@).take(i as int));
        assert(upto.last() == names@[i as int]@);
        match package_table_get(&build_state.build_state.packages, names[i].as_str()) {
            Some(package) => {
                insert_package_paths(&mut paths, package, present);
            },
            None => {},
        }
        i += 1;
    }
    assert(views(names@).take(i as int) =~= views(names@));
    let lib_dir = join(root, "lib");
    if contains_str(present, lib_dir.as_str()) {
        insert_watch_path(&mut paths, lib_dir, RecursiveMode::NonRecursive);
    }
    paths
}

/// The watch targets of a project.
///
/// The result is that of `watch_paths_for` for some order of the packages:
/// the graph hands out its packages in no particular order.
pub fn compute_watch_paths(build_state: &BuildCommandState, root: &str, present: &Vec<String>) -> (paths:
    Vec<(String, RecursiveMode)>)
    ensures
        exists|names: Seq<Seq<char>>|
            names.no_duplicates() && names.to_set() == build_state.build_state.packages_map().dom()
                && watch_view(paths@) == #[trigger] watch_paths_in_order(
                build_state.build_state.packages_map(),
                names,
                root@,
                views(present@),
            ),
        targets_distinct(watch_view(paths@)),
        forall|path: Seq<char>, mode: RecursiveMode|
            is_requested(build_state.build_state.packages_map(), root@, views(present@), path, mode)
                ==> #[trigger] answers(watch_view(paths@), path, mode),
{
    let names = package_table_names(&build_state.build_state.packages);
    proof {
        let packages = build_state.build_state.packages_map();
        lemma_watch_paths_distinct(packages, views(names@), root@, views(present@));
        assert forall|path: Seq<char>, mode: RecursiveMode|
            is_requested(packages, root@, views(present@), path, mode) implies #[trigger] answers(
            watch_paths_in_order(packages, views(names@), root@, views(present@)),
            path,
            mode,
        ) by {
            lemma_watch_paths_answer(packages, views(names@), root@, views(present@), path, mode);
        }
    }
    watch_paths_for(build_state, &names, root, present)
}

/// Whether the existence of a directory matters for the watch targets of a
/// project: it is a source folder of a workspace package or the directory of
/// the lock file.
pub open spec fn is_watch_candidate(
    packages: Map<Seq<char>, Package>,
    root: Seq<char>,
    dir: Seq<char>,
) -> bool {
    ||| dir == lock_dir(root)
    ||| exists|name: Seq<char>, k: int|
        packages.contains_key(name) && packages[name].is_local_dep && 0 <= k
            < packages[name].source_folders.len() && dir == path_join(
            packages[name].path@,
            (#[trigger] packages[name].source_folders[k]).dir@,
        )
}

/// The directories whose existence matters for the watch targets of a
/// project. The caller finds out which of them are present on disk and
/// hands those to `compute_watch_paths`.
pub fn watch_candidates(build_state: &BuildCommandState, root: &str) -> (dirs: Vec<String>)
    ensures
        forall|dir: Seq<char>|
            is_watch_candidate(build_state.build_state.packages_map(), root@, dir) <==> views(
                dirs@,
            ).contains(dir),
{
    let ghost packages = build_state.build_state.packages_map();
    let names = package_table_names(&build_state.build_state.packages);
    let mut dirs: Vec<String> = Vec::new();
    dirs.push(join(root, "lib"));
    assert(views(dirs@)[0] == lock_dir(root@));
    let mut i: usize = 0;
    while i < names.len()
        invariant
            i <= names.len(),
            packages == build_state.build_state.packages_map(),
            views(names@).to_set() == packages.dom(),
            views(dirs@).contains(lock_dir(root@)),
            forall|j: int| 0 <= j < dirs.len() ==> is_watch_candidate(packages, root@, #[trigger] views(dirs@)[j]),
            forall|j: int, k: int|
                0 <= j < i && packages[names@[j]@].is_local_dep && 0 <= k
                    < packages[names@[j]@].source_folders.len() ==> views(dirs@).contains(
                    path_join(
                        packages[names@[j]@].path@,
                        (#[trigger] packages[names@[j]@].source_folders[k]).dir@,
                    ),
                ),
        decreases names.len() - i,
    {
        assert(views(names@)[i as int] == names@[i as int]@);
        assert(views(names@).to_set().contains(names@[i as int]@));
        match package_table_get(&build_state.build_state.packages, names[i].as_str()) {
            Some(package) => {
                if package.is_local_dep {
                    let mut k: usize = 0;
                    while k < package.source_folders.len()
                        invariant
                            k <= package.source_folders.len(),
                            i < names.len(),
                            packages.contains_key(names@[i as int]@),
                            *package == packages[names@[i as int]@],
                            package.is_local_dep,
                            views(dirs@).contains(lock_dir(root@)),
                            forall|j: int| 0 <= j < dirs.len() ==> is_watch_candidate(packages, root@, #[trigger] views(dirs@)[j]),
                            forall|j: int, k: int|
                                0 <= j < i && packages[names@[j]@].is_local_dep && 0 <= k
                                    < packages[names@[j]@].source_folders.len() ==> views(
                                    dirs@,
                                ).contains(
                                    path_join(
                                        packages[names@[j]@].path@,
                                        (#[trigger] packages[names@[j]@].source_folders[k]).dir@,
                                    ),
                                ),
                            forall|m: int|
                                0 <= m < k ==> views(dirs@).contains(
                                    path_join(
                                        package.path@,
                                        (#[trigger] package.source_folders[m]).dir@,
                                    ),
                                ),
                        decreases package.source_folders.len() - k,
                    {
                        let ghost before = views(dirs@);
                        let dir = join(package.path.as_str(), package.source_folders[k].dir.as_str());
                        dirs.push(dir);
                        proof {
                            let after = views(dirs@);
                            assert(after.len() == before.len() + 1);
                            assert forall|j: int| 0 <= j < before.len() implies after[j]
                                == before[j] by {}
                            assert(after[before.len() as int] == path_join(
                                package.path@,
                                package.source_folders[k as int].dir@,
                            ));
                            assert forall|d: Seq<char>| before.contains(d) implies after.contains(
                                d,
                            ) by {
                                let j = choose|j: int| 0 <= j < before.len() && before[j] == d;
                                assert(after[j] == d);
                            }
                        }
                        k += 1;
                    }
                }
            },
            None => {
                assert(false);
            },
        }
        i += 1;
    }
    proof {
        assert forall|dir: Seq<char>| is_watch_candidate(packages, root@, dir) implies views(
            dirs@,
        ).contains(dir) by {
            if dir != lock_dir(root@) {
                let (name, k) = choose|name: Seq<char>, k: int|
                    packages.contains_key(name) && packages[name].is_local_dep && 0 <= k
                        < packages[name].source_folders.len() && dir == path_join(
                        packages[name].path@,
                        (#[trigger] packages[name].source_folders[k]).dir@,
                    );
                assert(views(names@).to_set().contains(name));
                let j = choose|j: int| 0 <= j < names.len() && views(names@)[j] == name;
                assert(names@[j]@ == name);
            }
        }
    }
    dirs
}

} // verus!
