//! The hashed tables of the module graph.
//!
//! The graph keeps its modules and packages in `ahash` maps and sets. Verus
//! does not look inside them: what a table holds is given a name, and each
//! operation the graph uses states what it does to that content. These
//! statements are taken on trust from `ahash` and the standard hash map
//! beneath it.

use crate::build::build_types::Module;
use crate::build::packages::Package;
use crate::text::views;
use ahash::{AHashMap, AHashSet};
use vstd::prelude::*;

verus! {

/// `ahash::RandomState`, the hasher of the tables. Nothing is known of it.
#[verifier::external_type_specification]
#[verifier::external_body]
pub struct ExRandomState(ahash::RandomState);

/// `ahash::AHashMap`. What a map holds is known only through the names and
/// functions of this module.
#[verifier::external_type_specification]
#[verifier::external_body]
#[verifier::reject_recursive_types(K)]
#[verifier::reject_recursive_types(V)]
#[verifier::reject_recursive_types(S)]
pub struct ExAHashMap<K, V, S>(ahash::AHashMap<K, V, S>);

/// `ahash::AHashSet`. What a set holds is known only through the names and
/// functions of this module.
#[verifier::external_type_specification]
#[verifier::external_body]
#[verifier::reject_recursive_types(T)]
#[verifier::reject_recursive_types(S)]
pub struct ExAHashSet<T, S>(ahash::AHashSet<T, S>);

/// `AHashSet`'s `clone`. Nothing is claimed of the copy.
pub assume_specification<T, S>[ <AHashSet<T, S> as Clone>::clone ](set: &AHashSet<T, S>) -> (copy:
    AHashSet<T, S>)
    where
        S: Clone,
        T: Clone,
;

/// The modules that a table holds, by name.
pub uninterp spec fn module_table(table: AHashMap<String, Module>) -> Map<Seq<char>, Module>;

/// The packages that a table holds, by name.
pub uninterp spec fn package_table(table: AHashMap<String, Package>) -> Map<Seq<char>, Package>;

/// The names that a set holds.
pub uninterp spec fn name_set(set: AHashSet<String>) -> Set<Seq<char>>;

/// `AHashMap::new`: the new table holds nothing.
#[verifier::external_body]
pub(crate) fn module_table_new() -> (fresh: AHashMap<String, Module>)
    ensures
        module_table(fresh) == (Map::<Seq<char>, Module>::empty()),
{
    AHashMap::new()
}

/// `AHashMap::insert`: afterwards the name maps to the given module and every
/// other name to what it mapped to before; the module that the name mapped to
/// before, if any, is returned.
#[verifier::external_body]
pub(crate) fn module_table_insert(
    table: &mut AHashMap<String, Module>,
    name: String,
    module: Module,
) -> (previous: Option<Module>)
    ensures
        module_table(*final(table)) == module_table(*old(table)).insert(name@, module),
        previous == if module_table(*old(table)).contains_key(name@) {
            Some(module_table(*old(table))[name@])
        } else {
            None::<Module>
        },
{
    table.insert(name, module)
}

/// `AHashMap::get`: the module that the name maps to, if any.
#[verifier::external_body]
pub(crate) fn module_table_get<'a>(table: &'a AHashMap<String, Module>, name: &str) -> (found:
    Option<&'a Module>)
    ensures
        match found {
            Some(module) => module_table(*table).contains_key(name@) && *module == module_table(
                *table,
            )[name@],
            None => !module_table(*table).contains_key(name@),
        },
{
    table.get(name)
}

/// `AHashMap::get_mut`: a mutable borrow of the module that the name maps to,
/// if any. What is written through the borrow is what the name maps to
/// afterwards; nothing else in the table changes.
#[verifier::external_body]
pub(crate) fn module_table_get_mut<'a>(
    table: &'a mut AHashMap<String, Module>,
    name: &str,
) -> (found: Option<&'a mut Module>)
    ensures
        match found {
            Some(module) => module_table(*old(table)).contains_key(name@) && *module
                == module_table(*old(table))[name@] && module_table(*final(table)) == module_table(
                *old(table),
            ).insert(name@, *final(module)),
            None => !module_table(*old(table)).contains_key(name@) && module_table(*final(table))
                == module_table(*old(table)),
        },
{
    table.get_mut(name)
}

/// `HashMap::keys`, reached through the table's `Deref`: every name of the
/// table once, in no particular order.
#[verifier::external_body]
pub(crate) fn module_table_names(table: &AHashMap<String, Module>) -> (names: Vec<String>)
    ensures
        views(names@).no_duplicates(),
        views(names@).to_set() == module_table(*table).dom(),
{
    table.keys().cloned().collect()
}

/// `AHashMap::get`: the package that the name maps to, if any.
#[verifier::external_body]
pub(crate) fn package_table_get<'a>(table: &'a AHashMap<String, Package>, name: &str) -> (found:
    Option<&'a Package>)
    ensures
        match found {
            Some(package) => package_table(*table).contains_key(name@) && *package
                == package_table(*table)[name@],
            None => !package_table(*table).contains_key(name@),
        },
{
    table.get(name)
}

/// `HashMap::keys`, reached through the table's `Deref`: every name of the
/// table once, in no particular order.
#[verifier::external_body]
pub(crate) fn package_table_names(table: &AHashMap<String, Package>) -> (names: Vec<String>)
    ensures
        views(names@).no_duplicates(),
        views(names@).to_set() == package_table(*table).dom(),
{
    table.keys().cloned().collect()
}

/// `AHashSet::new`: the new set holds nothing.
#[verifier::external_body]
pub(crate) fn name_set_new() -> (set: AHashSet<String>)
    ensures
        name_set(set) == (Set::<Seq<char>>::empty()),
{
    AHashSet::new()
}

/// `HashSet::insert`, reached through the set's `DerefMut`: afterwards the
/// set holds the name besides what it held; the result tells whether the name
/// is new to the set.
#[verifier::external_body]
pub(crate) fn name_set_insert(set: &mut AHashSet<String>, name: String) -> (fresh: bool)
    ensures
        name_set(*final(set)) == name_set(*old(set)).insert(name@),
        fresh == !name_set(*old(set)).contains(name@),
{
    set.insert(name)
}

/// `HashSet::iter`, reached through the set's `Deref`: every name of the
/// set once, in no particular order.
#[verifier::external_body]
pub(crate) fn name_set_items(set: &AHashSet<String>) -> (names: Vec<String>)
    ensures
        views(names@).no_duplicates(),
        views(names@).to_set() == name_set(*set),
{
    set.iter().cloned().collect()
}

} // verus!
