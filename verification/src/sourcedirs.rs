//! The manifest of source directories.
//!
//! Tools that analyse a project after it was built read a manifest at the
//! root of the workspace. It lists the directories that hold sources, the
//! packages that the workspace depends on, and for each package of the
//! workspace where its compiled interfaces are to be found.

use crate::build::build_types::BuildState;
use crate::build::packages::Package;
use crate::build::tables::{package_table, package_table_get, package_table_names};
use crate::paths::{is_same_path, join, path_join, path_strip_prefix, same_path, strip_prefix};
use crate::text::{is_sorted, sort_strings, text_le, views};
use ahash::AHashMap;
use vstd::prelude::*;

verus! {

/// Where the compiled interfaces of one package are to be found.
#[derive(Debug, Clone, PartialEq, Eq, Hash)]
pub struct CmtScanEntry {
    /// The build folder of the package, relative to the workspace root.
    pub build_root: String,
    /// The directories below `build_root` to look into.
    pub scan_dirs: Vec<String>,
    /// Whether to look into `build_root` itself too.
    pub also_scan_build_root: bool,
}

/// The manifest of source directories of a workspace.
#[derive(Debug, Clone, PartialEq, Eq, Hash)]
pub struct SourceDirs {
    pub version: u8,
    pub dirs: Vec<String>,
    /// The packages that the workspace depends on: name and root.
    pub pkgs: Vec<(String, String)>,
    pub generated: Vec<String>,
    pub cmt_scan: Option<Vec<CmtScanEntry>>,
}

/// The version of the manifest.
pub const MANIFEST_VERSION: u8 = 2;

/// Pairs of strings as plain text.
pub open spec fn pairs_view(pairs: Seq<(String, String)>) -> Seq<(Seq<char>, Seq<char>)> {
    Seq::new(pairs.len(), |i: int| (pairs[i].0@, pairs[i].1@))
}

/// The directories of a package, as plain text: none where they were not
/// looked for.
pub open spec fn dirs_of(package: Package) -> Seq<Seq<char>> {
    match package.dirs {
        Some(dirs) => views(dirs@),
        None => Seq::empty(),
    }
}

/// Each of `dirs` adjoined to `base`.
pub open spec fn joined(base: Seq<char>, dirs: Seq<Seq<char>>) -> Seq<Seq<char>> {
    Seq::new(dirs.len(), |i: int| path_join(base, dirs[i]))
}

/// The source directories of a package relative to the root of the
/// workspace: none where the package does not lie below that root.
pub open spec fn package_dirs(package: Package, root_path: Seq<char>) -> Seq<Seq<char>> {
    match path_strip_prefix(package.path@, root_path) {
        Some(relative) => joined(relative, dirs_of(package)),
        None => Seq::empty(),
    }
}

/// The source directories of a package relative to the root of the
/// workspace.
pub fn package_to_dirs(package: &Package, root_package_path: &str) -> (dirs: Vec<String>)
    ensures
        views(dirs@) == package_dirs(*package, root_package_path@),
{
    let mut result: Vec<String> = Vec::new();
    let relative = match strip_prefix(package.path.as_str(), root_package_path) {
        Some(relative) => relative,
        None => {
            assert(views(result@) =~= Seq::<Seq<char>>::empty());
            return result;
        },
    };
    match &package.dirs {
        Some(dirs) => {
            let mut i: usize = 0;
            while i < dirs.len()
                invariant
                    i <= dirs.len(),
                    result.len() == i,
                    forall|j: int|
                        0 <= j < i ==> (#[trigger] result@[j])@ == path_join(relative@, dirs@[j]@),
                decreases dirs.len() - i,
            {
                result.push(join(relative.as_str(), dirs[i].as_str()));
                i += 1;
            }
            assert(views(result@) =~= joined(relative@, views(dirs@)));
        },
        None => {
            assert(views(result@) =~= joined(relative@, Seq::empty()));
        },
    }
    result
}

/// Those of the names that are packages of the table, in order, each with
/// the root of its package.
pub open spec fn known_deps(packages: Map<Seq<char>, Package>, names: Seq<Seq<char>>) -> Seq<
    (Seq<char>, Seq<char>),
>
    decreases names.len(),
{
    if names.len() == 0 {
        Seq::empty()
    } else {
        let before = known_deps(packages, names.drop_last());
        if packages.contains_key(names.last()) {
            before.push((names.last(), packages[names.last()].path@))
        } else {
            before
        }
    }
}

/// The names of a list of dependencies, as plain text: none where there is
/// no list.
pub open spec fn dep_names(dependencies: Option<Vec<String>>) -> Seq<Seq<char>> {
    match dependencies {
        Some(names) => views(names@),
        None => Seq::empty(),
    }
}

/// Those of the dependencies that are packages of the table, each with the
/// root of its package.
pub fn deps_to_pkgs(packages: &AHashMap<String, Package>, dependencies: &Option<Vec<String>>) -> (pkgs:
    Vec<(String, String)>)
    ensures
        pairs_view(pkgs@) == known_deps(package_table(*packages), dep_names(*dependencies)),
{
    let mut pkgs: Vec<(String, String)> = Vec::new();
    assert(pairs_view(pkgs@) =~= Seq::<(Seq<char>, Seq<char>)>::empty());
    match dependencies {
        Some(names) => {
            let mut i: usize = 0;
            assert(views(names@).take(0) =~= Seq::<Seq<char>>::empty());
            while i < names.len()
                invariant
                    i <= names.len(),
                    pairs_view(pkgs@) == known_deps(
                        package_table(*packages),
                        views(names@).take(i as int),
                    ),
                decreases names.len() - i,
            {
                let ghost upto = views(names@).take(i + 1);
                assert(upto.drop_last() =~= views(names@).take(i as int));
                assert(upto.last() == names@[i as int]@);
                let ghost before = pairs_view(pkgs@);
                match package_table_get(packages, names[i].as_str()) {
                    Some(package) => {
                        pkgs.push((names[i].clone(), package.path.clone()));
                        assert(pairs_view(pkgs@) =~= before.push(
                            (names@[i as int]@, package.path@),
                        ));
                    },
                    None => {},
                }
                i += 1;
            }
            assert(views(names@).take(i as int) =~= views(names@));
        },
        None => {},
    }
    pkgs
}

/// Paths in the order of their texts.
pub fn sort_paths(paths: Vec<String>) -> (sorted: Vec<String>)
    ensures
        views(sorted@).to_multiset() == views(paths@).to_multiset(),
        is_sorted(views(sorted@)),
{
    let mut sorted = paths;
    sort_strings(&mut sorted);
    sorted
}

/// The build folder of a package relative to the root of the workspace.
/// A package that does not lie below that root is taken to lie at it.
pub open spec fn build_root_of(package: Package, root_path: Seq<char>) -> Seq<char> {
    path_join(
        path_join(
            match path_strip_prefix(package.path@, root_path) {
                Some(relative) => relative,
                None => Seq::empty(),
            },
            "lib"@,
        ),
        "bs"@,
    )
}

/// Whether an entry tells where the compiled interfaces of a package are to
/// be found: in the build folder of the package and in its source
/// directories below that folder, which are listed in order.
pub open spec fn is_entry_of(entry: CmtScanEntry, package: Package, root_path: Seq<char>) -> bool {
    &&& entry.build_root@ == build_root_of(package, root_path)
    &&& views(entry.scan_dirs@).to_multiset() == dirs_of(package).to_multiset()
    &&& is_sorted(views(entry.scan_dirs@))
    &&& entry.also_scan_build_root
}

/// Where the compiled interfaces of a package are to be found.
pub fn cmt_scan_entry(package: &Package, root_package_path: &str) -> (entry: CmtScanEntry)
    ensures
        is_entry_of(entry, *package, root_package_path@),
{
    let relative = match strip_prefix(package.path.as_str(), root_package_path) {
        Some(relative) => relative,
        None => String::new(),
    };
    let build_root = join(join(relative.as_str(), "lib").as_str(), "bs");
    let mut dirs: Vec<String> = Vec::new();
    match &package.dirs {
        Some(given) => {
            let mut i: usize = 0;
            while i < given.len()
                invariant
                    i <= given.len(),
                    dirs.len() == i,
                    forall|j: int| 0 <= j < i ==> (#[trigger] dirs@[j])@ == given@[j]@,
                decreases given.len() - i,
            {
                dirs.push(given[i].clone());
                i += 1;
            }
            assert(views(dirs@) =~= views(given@));
        },
        None => {
            assert(views(dirs@) =~= Seq::<Seq<char>>::empty());
        },
    }
    CmtScanEntry { build_root, scan_dirs: sort_paths(dirs), also_scan_build_root: true }
}

/// Whether a package has a share in the manifest: it is part of the
/// workspace and its source files were found.
pub open spec fn has_share(package: Package) -> bool {
    package.is_local_dep && package.source_files is Some
}

/// The packages with a share in the manifest among those of the given
/// names, in order.
pub open spec fn sharing(packages: Map<Seq<char>, Package>, names: Seq<Seq<char>>) -> Seq<Package>
    decreases names.len(),
{
    if names.len() == 0 {
        Seq::empty()
    } else {
        let before = sharing(packages, names.drop_last());
        if packages.contains_key(names.last()) && has_share(packages[names.last()]) {
            before.push(packages[names.last()])
        } else {
            before
        }
    }
}

/// A list of paths after one more path was taken up: the path is added at
/// the end unless the list holds the same path already.
pub open spec fn with_path(paths: Seq<Seq<char>>, path: Seq<char>) -> Seq<Seq<char>> {
    if exists|i: int| 0 <= i < paths.len() && same_path(#[trigger] paths[i], path) {
        paths
    } else {
        paths.push(path)
    }
}

/// A list of paths after more paths were taken up in order.
pub open spec fn with_paths(paths: Seq<Seq<char>>, more: Seq<Seq<char>>) -> Seq<Seq<char>>
    decreases more.len(),
{
    if more.len() == 0 {
        paths
    } else {
        with_path(with_paths(paths, more.drop_last()), more.last())
    }
}

/// The source directories of the given packages, each once, in the order
/// in which they are first met.
pub open spec fn merged_dirs(sharing: Seq<Package>, root_path: Seq<char>) -> Seq<Seq<char>>
    decreases sharing.len(),
{
    if sharing.len() == 0 {
        Seq::empty()
    } else {
        with_paths(
            merged_dirs(sharing.drop_last(), root_path),
            package_dirs(sharing.last(), root_path),
        )
    }
}

/// Whether no two paths of a list are the same path.
pub open spec fn paths_distinct(paths: Seq<Seq<char>>) -> bool {
    forall|i: int, j: int|
        0 <= i < j < paths.len() ==> !same_path(#[trigger] paths[i], #[trigger] paths[j])
}

/// Whether a list holds a path.
pub open spec fn holds(paths: Seq<Seq<char>>, path: Seq<char>) -> bool {
    exists|i: int| 0 <= i < paths.len() && same_path(#[trigger] paths[i], path)
}

/// Taking up paths keeps what the list held and adds what it did not hold:
/// afterwards it holds every path that was taken up, and no path twice if
/// it held none twice before.
pub proof fn lemma_with_paths(paths: Seq<Seq<char>>, more: Seq<Seq<char>>)
    ensures
        paths.len() <= with_paths(paths, more).len(),
        forall|i: int| 0 <= i < paths.len() ==> #[trigger] with_paths(paths, more)[i] == paths[i],
        forall|k: int| 0 <= k < more.len() ==> holds(with_paths(paths, more), #[trigger] more[k]),
        paths_distinct(paths) ==> paths_distinct(with_paths(paths, more)),
    decreases more.len(),
{
    if more.len() > 0 {
        let front = more.drop_last();
        lemma_with_paths(paths, front);
        let before = with_paths(paths, front);
        let after = with_path(before, more.last());
        assert forall|k: int| 0 <= k < more.len() implies holds(after, #[trigger] more[k]) by {
            if k < front.len() {
                assert(front[k] == more[k]);
                let i = choose|i: int|
                    0 <= i < before.len() && same_path(#[trigger] before[i], front[k]);
                assert(after[i] == before[i]);
            } else if holds(before, more.last()) {
            } else {
                assert(after[before.len() as int] == more.last());
            }
        }
    }
}

/// The directories of a manifest before they are put in order: no
/// directory is there twice, and every source directory of every package
/// that has a share is there.
pub proof fn lemma_merged_dirs(sharing: Seq<Package>, root_path: Seq<char>)
    ensures
        paths_distinct(merged_dirs(sharing, root_path)),
        forall|p: int, k: int|
            0 <= p < sharing.len() && 0 <= k < package_dirs(sharing[p], root_path).len() ==> holds(
                merged_dirs(sharing, root_path),
                #[trigger] package_dirs(sharing[p], root_path)[k],
            ),
    decreases sharing.len(),
{
    if sharing.len() > 0 {
        let front = sharing.drop_last();
        lemma_merged_dirs(front, root_path);
        let before = merged_dirs(front, root_path);
        let more = package_dirs(sharing.last(), root_path);
        lemma_with_paths(before, more);
        let after = with_paths(before, more);
        assert forall|p: int, k: int|
            0 <= p < sharing.len() && 0 <= k < package_dirs(sharing[p], root_path).len()
                implies holds(after, #[trigger] package_dirs(sharing[p], root_path)[k]) by {
            if p < front.len() {
                assert(front[p] == sharing[p]);
                let dir = package_dirs(front[p], root_path)[k];
                assert(holds(before, dir));
                let i = choose|i: int| 0 <= i < before.len() && same_path(#[trigger] before[i], dir);
                assert(after[i] == before[i]);
            } else {
                assert(holds(after, more[k]));
            }
        }
    }
}

/// A list of packages after one more was taken up: the package is added at
/// the end unless the list holds one of that name already.
pub open spec fn with_pkg(pkgs: Seq<(Seq<char>, Seq<char>)>, pkg: (Seq<char>, Seq<char>)) -> Seq<
    (Seq<char>, Seq<char>),
> {
    if exists|i: int| 0 <= i < pkgs.len() && (#[trigger] pkgs[i]).0 == pkg.0 {
        pkgs
    } else {
        pkgs.push(pkg)
    }
}

/// A list of packages after more packages were taken up in order.
pub open spec fn with_pkgs(
    pkgs: Seq<(Seq<char>, Seq<char>)>,
    more: Seq<(Seq<char>, Seq<char>)>,
) -> Seq<(Seq<char>, Seq<char>)>
    decreases more.len(),
{
    if more.len() == 0 {
        pkgs
    } else {
        with_pkg(with_pkgs(pkgs, more.drop_last()), more.last())
    }
}

/// The packages that the given packages depend on, for use or for
/// development, each once, in the order in which they are first met. A
/// dependency that is no package of the table is left out.
pub open spec fn merged_pkgs(sharing: Seq<Package>, packages: Map<Seq<char>, Package>) -> Seq<
    (Seq<char>, Seq<char>),
>
    decreases sharing.len(),
{
    if sharing.len() == 0 {
        Seq::empty()
    } else {
        with_pkgs(
            with_pkgs(
                merged_pkgs(sharing.drop_last(), packages),
                known_deps(packages, dep_names(sharing.last().config.dependencies)),
            ),
            known_deps(packages, dep_names(sharing.last().config.dev_dependencies)),
        )
    }
}

/// Whether a list holds a path.
fn holds_path(paths: &Vec<String>, path: &str) -> (found: bool)
    ensures
        found == exists|i: int| 0 <= i < paths.len() && same_path(#[trigger] views(paths@)[i], path@),
{
    let mut k: usize = 0;
    while k < paths.len()
        invariant
            k <= paths.len(),
            forall|j: int| 0 <= j < k ==> !same_path(#[trigger] views(paths@)[j], path@),
        decreases paths.len() - k,
    {
        if is_same_path(paths[k].as_str(), path) {
            assert(same_path(views(paths@)[k as int], path@));
            return true;
        }
        k += 1;
    }
    false
}

/// Whether a list holds a package of a name.
fn holds_name(pkgs: &Vec<(String, String)>, name: &str) -> (found: bool)
    ensures
        found == exists|i: int| 0 <= i < pkgs.len() && (#[trigger] pairs_view(pkgs@)[i]).0 == name@,
{
    let mut k: usize = 0;
    while k < pkgs.len()
        invariant
            k <= pkgs.len(),
            forall|j: int| 0 <= j < k ==> (#[trigger] pairs_view(pkgs@)[j]).0 != name@,
        decreases pkgs.len() - k,
    {
        if pkgs[k].0.as_str().eq(name) {
            assert(pairs_view(pkgs@)[k as int].0 == name@);
            return true;
        }
        k += 1;
    }
    false
}

/// Takes up paths into a list in which no path occurs twice.
fn merge_paths(paths: &mut Vec<String>, more: Vec<String>)
    ensures
        views(final(paths)@) == with_paths(views(old(paths)@), views(more@)),
{
    let ghost start = views(paths@);
    let mut i: usize = 0;
    assert(views(more@).take(0) =~= Seq::<Seq<char>>::empty());
    while i < more.len()
        invariant
            i <= more.len(),
            views(paths@) == with_paths(start, views(more@).take(i as int)),
        decreases more.len() - i,
    {
        let ghost upto = views(more@).take(i + 1);
        assert(upto.drop_last() =~= views(more@).take(i as int));
        assert(upto.last() == more@[i as int]@);
        let ghost before = views(paths@);
        let found = holds_path(paths, more[i].as_str());
        if !found {
            paths.push(more[i].clone());
            assert(views(paths@) =~= before.push(more@[i as int]@));
        }
        i += 1;
    }
    assert(views(more@).take(i as int) =~= views(more@));
}

/// Takes up packages into a list in which no name occurs twice.
fn merge_pkgs(pkgs: &mut Vec<(String, String)>, more: Vec<(String, String)>)
    ensures
        pairs_view(final(pkgs)@) == with_pkgs(pairs_view(old(pkgs)@), pairs_view(more@)),
{
    let ghost start = pairs_view(pkgs@);
    let mut i: usize = 0;
    assert(pairs_view(more@).take(0) =~= Seq::<(Seq<char>, Seq<char>)>::empty());
    while i < more.len()
        invariant
            i <= more.len(),
            pairs_view(pkgs@) == with_pkgs(start, pairs_view(more@).take(i as int)),
        decreases more.len() - i,
    {
        let ghost upto = pairs_view(more@).take(i + 1);
        assert(upto.drop_last() =~= pairs_view(more@).take(i as int));
        assert(upto.last() == (more@[i as int].0@, more@[i as int].1@));
        let ghost before = pairs_view(pkgs@);
        let found = holds_name(pkgs, more[i].0.as_str());
        if !found {
            pkgs.push((more[i].0.clone(), more[i].1.clone()));
            assert(pairs_view(pkgs@) =~= before.push((more@[i as int].0@, more@[i as int].1@)));
        }
        i += 1;
    }
    assert(pairs_view(more@).take(i as int) =~= pairs_view(more@));
}

/// Whether a list of packages is in the order of their names.
pub open spec fn sorted_by_name(pkgs: Seq<(Seq<char>, Seq<char>)>) -> bool {
    forall|i: int, j: int|
        0 <= i < j < pkgs.len() ==> text_le((#[trigger] pkgs[i]).0, (#[trigger] pkgs[j]).0)
}

/// Whether a list of entries is in the order of their build folders.
pub open spec fn sorted_by_root(entries: Seq<CmtScanEntry>) -> bool {
    forall|i: int, j: int|
        0 <= i < j < entries.len() ==> text_le(
            (#[trigger] entries[i]).build_root@,
            (#[trigger] entries[j]).build_root@,
        )
}

/// The slice method `sort_by_key`, with the name as the key: afterwards the
/// list holds the same packages as before, each as often as before, in the
/// order of their names.
#[verifier::external_body]
fn sort_pkgs(pkgs: &mut Vec<(String, String)>)
    ensures
        pairs_view(final(pkgs)@).to_multiset() == pairs_view(old(pkgs)@).to_multiset(),
        sorted_by_name(pairs_view(final(pkgs)@)),
{
    pkgs.sort_by_key(|pkg| pkg.0.clone())
}

/// The slice method `sort_by_key`, with the build folder as the key:
/// afterwards the list holds the same entries as before, each as often as
/// before, in the order of their build folders.
#[verifier::external_body]
fn sort_entries(entries: &mut Vec<CmtScanEntry>)
    ensures
        final(entries)@.to_multiset() == old(entries)@.to_multiset(),
        sorted_by_root(final(entries)@),
{
    entries.sort_by_key(|entry| entry.build_root.clone())
}

/// Whether a manifest is that of the given packages of a workspace.
///
/// Its directories are the source directories of the packages, each once,
/// in order. Its packages are those that the given packages depend on, each
/// once, in the order of their names. Its scan plan has an entry for each
/// of the given packages, in the order of the build folders.
pub open spec fn is_manifest_of(
    manifest: SourceDirs,
    sharing: Seq<Package>,
    packages: Map<Seq<char>, Package>,
    root_path: Seq<char>,
) -> bool {
    &&& manifest.version == MANIFEST_VERSION
    &&& manifest.generated@.len() == 0
    &&& views(manifest.dirs@).to_multiset() == merged_dirs(sharing, root_path).to_multiset()
    &&& is_sorted(views(manifest.dirs@))
    &&& pairs_view(manifest.pkgs@).to_multiset() == merged_pkgs(sharing, packages).to_multiset()
    &&& sorted_by_name(pairs_view(manifest.pkgs@))
    &&& manifest.cmt_scan matches Some(entries) && sorted_by_root(entries@) && exists|
        unsorted: Seq<CmtScanEntry>,
    |
        #![trigger unsorted.to_multiset()]
        entries@.to_multiset() == unsorted.to_multiset() && unsorted.len() == sharing.len()
            && forall|i: int|
            0 <= i < sharing.len() ==> is_entry_of(#[trigger] unsorted[i], sharing[i], root_path)
}

/// The manifest of a workspace whose root lies at `root_package_path`, with
/// its packages taken up in the order of `names`.
pub fn source_dirs_for(buildstate: &BuildState, names: &Vec<String>, root_package_path: &str) -> (manifest:
    SourceDirs)
    ensures
        is_manifest_of(
            manifest,
            sharing(buildstate.packages_map(), views(names@)),
            buildstate.packages_map(),
            root_package_path@,
        ),
{
    let ghost packages = buildstate.packages_map();
    let mut dirs: Vec<String> = Vec::new();
    let mut pkgs: Vec<(String, String)> = Vec::new();
    let mut entries: Vec<CmtScanEntry> = Vec::new();
    let mut i: usize = 0;
    assert(views(names@).take(0) =~= Seq::<Seq<char>>::empty());
    assert(views(dirs@) =~= Seq::<Seq<char>>::empty());
    assert(pairs_view(pkgs@) =~= Seq::<(Seq<char>, Seq<char>)>::empty());
    while i < names.len()
        invariant
            i <= names.len(),
            packages == buildstate.packages_map(),
            views(dirs@) == merged_dirs(
                sharing(packages, views(names@).take(i as int)),
                root_package_path@,
            ),
            pairs_view(pkgs@) == merged_pkgs(
                sharing(packages, views(names@).take(i as int)),
                packages,
            ),
            entries.len() == sharing(packages, views(names@).take(i as int)).len(),
            forall|k: int|
                0 <= k < entries.len() ==> is_entry_of(
                    #[trigger] entries@[k],
                    sharing(packages, views(names@).take(i as int))[k],
                    root_package_path@,
                ),
        decreases names.len() - i,
    {
        let ghost upto = views(names@).take(i + 1);
        let ghost before = sharing(packages, views(names@).take(i as int));
        assert(upto.drop_last() =~= views(names@).take(i as int));
        assert(upto.last() == names@[i as int]@);
        match package_table_get(&buildstate.packages, names[i].as_str()) {
            Some(package) => {
                if package.is_local_dep && package.source_files.is_some() {
                    assert(sharing(packages, upto) == before.push(*package));
                    assert(before.push(*package).drop_last() =~= before);
                    merge_paths(&mut dirs, package_to_dirs(package, root_package_path));
                    merge_pkgs(
                        &mut pkgs,
                        deps_to_pkgs(&buildstate.packages, &package.config.dependencies),
                    );
                    merge_pkgs(
                        &mut pkgs,
                        deps_to_pkgs(&buildstate.packages, &package.config.dev_dependencies),
                    );
                    entries.push(cmt_scan_entry(package, root_package_path));
                }
            },
            None => {},
        }
        i += 1;
    }
    assert(views(names@).take(i as int) =~= views(names@));
    let ghost unsorted = entries@;
    let dirs = sort_paths(dirs);
    sort_pkgs(&mut pkgs);
    sort_entries(&mut entries);
    assert(entries@.to_multiset() == unsorted.to_multiset());
    SourceDirs {
        version: MANIFEST_VERSION,
        dirs,
        pkgs,
        generated: Vec::new(),
        cmt_scan: Some(entries),
    }
}

/// The name of a package that is the root of the workspace, if there is
/// one.
pub fn root_package_name(buildstate: &BuildState) -> (root: Option<String>)
    ensures
        match root {
            Some(name) => buildstate.packages_map().contains_key(name@)
                && buildstate.packages_map()[name@].is_root,
            None => forall|name: Seq<char>| #[trigger]
                buildstate.packages_map().contains_key(name)
                    ==> !buildstate.packages_map()[name].is_root,
        },
{
    let names = package_table_names(&buildstate.packages);
    let mut i: usize = 0;
    while i < names.len()
        invariant
            i <= names.len(),
            views(names@).to_set() == buildstate.packages_map().dom(),
            forall|j: int|
                0 <= j < i ==> !buildstate.packages_map()[#[trigger] views(names@)[j]].is_root,
        decreases names.len() - i,
    {
        assert(views(names@)[i as int] == names@[i as int]@);
        assert(views(names@).to_set().contains(names@[i as int]@));
        match package_table_get(&buildstate.packages, names[i].as_str()) {
            Some(package) => {
                if package.is_root {
                    return Some(names[i].clone());
                }
            },
            None => {},
        }
        i += 1;
    }
    proof {
        assert forall|name: Seq<char>| #[trigger]
            buildstate.packages_map().contains_key(name)
                implies !buildstate.packages_map()[name].is_root by {
            assert(views(names@).to_set().contains(name));
            let j = choose|j: int| 0 <= j < names.len() && views(names@)[j] == name;
            assert(!buildstate.packages_map()[views(names@)[j]].is_root);
        }
    }
    None
}

/// The manifest of a workspace whose root lies at `root_package_path`.
///
/// The result is that of `source_dirs_for` for some order of the packages:
/// the graph hands out its packages in no particular order.
pub fn source_dirs(buildstate: &BuildState, root_package_path: &str) -> (manifest: SourceDirs)
    ensures
        exists|names: Seq<Seq<char>>|
            names.no_duplicates() && names.to_set() == buildstate.packages_map().dom()
                && is_manifest_of(
                manifest,
                #[trigger] sharing(buildstate.packages_map(), names),
                buildstate.packages_map(),
                root_package_path@,
            ),
{
    let names = package_table_names(&buildstate.packages);
    source_dirs_for(buildstate, &names, root_package_path)
}

} // verus!
