//! What a batch of events asks for, and what it leaves of the graph.
//!
//! The decision that a batch ends in does not depend on the order of its
//! events nor on the modules of the graph: it is the furthest that any of
//! the events escalates. And whatever a batch does to the graph, it does by
//! marking files: no module comes or goes, and no edge changes.

use crate::build::build_types::{edges_symmetric, Module, SourceType, Timestamp};
use crate::build::packages::Package;
use crate::build::tables::name_set;
use crate::filter::PathFilter;
use crate::watcher::{
    after_events, after_path, after_paths, any_config_change, any_lock_removal, batch_result,
    has_watched_source, is_config_change, is_lock_removal, is_watched_source, mark_path,
    owned_side, owner_at, touched_module, BatchOutcome, BatchState, ChangedPath, CompileType, EventKind, FileSide,
    WatchEvent,
};
use vstd::prelude::*;

verus! {

/// How far a decision has escalated.
pub open spec fn rank(decision: CompileType) -> int {
    match decision {
        CompileType::Nothing => 0,
        CompileType::Incremental => 1,
        CompileType::Full => 2,
    }
}

/// Whether an event by itself makes a full build due: it is structural and
/// one of its paths counts for the build.
pub open spec fn asks_full(event: WatchEvent, filter: Option<PathFilter>) -> bool {
    event.kind.structural() && has_watched_source(event, filter)
}

/// Whether an event by itself makes an incremental build due: it tells of a
/// change of content and one of its paths counts for the build.
pub open spec fn asks_incremental(event: WatchEvent, filter: Option<PathFilter>) -> bool {
    event.kind.content() && has_watched_source(event, filter)
}

/// Whether one of the events by itself makes a full build due.
pub open spec fn any_asks_full(events: Seq<WatchEvent>, filter: Option<PathFilter>) -> bool {
    exists|i: int| 0 <= i < events.len() && asks_full(#[trigger] events[i], filter)
}

/// Whether one of the events by itself makes an incremental build due.
pub open spec fn any_asks_incremental(events: Seq<WatchEvent>, filter: Option<PathFilter>) -> bool {
    exists|i: int| 0 <= i < events.len() && asks_incremental(#[trigger] events[i], filter)
}

/// The build that is due after a batch without lock removal or
/// configuration change: the furthest that the earlier decision or any of
/// the events has escalated.
pub open spec fn batch_decision(
    decision: CompileType,
    events: Seq<WatchEvent>,
    filter: Option<PathFilter>,
) -> CompileType {
    if decision is Full || any_asks_full(events, filter) {
        CompileType::Full
    } else if decision is Incremental || any_asks_incremental(events, filter) {
        CompileType::Incremental
    } else {
        CompileType::Nothing
    }
}

/// What a batch asks for. It depends on which events the batch holds, not on
/// their order, nor on the modules of the graph.
pub open spec fn batch_outcome(
    decision: CompileType,
    events: Seq<WatchEvent>,
    filter: Option<PathFilter>,
) -> BatchOutcome {
    if any_lock_removal(events) {
        BatchOutcome::Shutdown
    } else if any_config_change(events) {
        BatchOutcome::Decided(CompileType::Full)
    } else {
        BatchOutcome::Decided(batch_decision(decision, events, filter))
    }
}

/// Whether two graphs have the same modules with the same edges and
/// packages.
pub open spec fn same_shape(a: Map<Seq<char>, Module>, b: Map<Seq<char>, Module>) -> bool {
    &&& a.dom() == b.dom()
    &&& forall|name: Seq<char>| #[trigger]
        a.contains_key(name) ==> {
            &&& a[name].deps == b[name].deps
            &&& a[name].dependents == b[name].dependents
            &&& a[name].package_name == b[name].package_name
        }
}

/// Whether `after` is `before` with any number of its files marked for
/// parsing: nothing else differs between the two.
pub open spec fn only_marked(before: Module, after: Module) -> bool {
    &&& after.deps == before.deps
    &&& after.dependents == before.dependents
    &&& after.package_name == before.package_name
    &&& after.compile_dirty == before.compile_dirty
    &&& after.deps_dirty == before.deps_dirty
    &&& after.is_type_dev == before.is_type_dev
    &&& after.last_compiled_cmi == before.last_compiled_cmi
    &&& after.last_compiled_cmt == before.last_compiled_cmt
    &&& match (before.source_type, after.source_type) {
        (SourceType::SourceFile(b), SourceType::SourceFile(a)) => {
            &&& a.implementation.path == b.implementation.path
            &&& a.implementation.parse_state == b.implementation.parse_state
            &&& a.implementation.compile_state == b.implementation.compile_state
            &&& b.implementation.parse_dirty ==> a.implementation.parse_dirty
            &&& match (b.interface, a.interface) {
                (Some(old_interface), Some(new_interface)) => {
                    &&& new_interface.path == old_interface.path
                    &&& new_interface.parse_state == old_interface.parse_state
                    &&& new_interface.compile_state == old_interface.compile_state
                    &&& old_interface.parse_dirty ==> new_interface.parse_dirty
                },
                (None, None) => true,
                _ => false,
            }
        },
        (SourceType::MlMap(b), SourceType::MlMap(a)) => a == b,
        _ => false,
    }
}

/// Whether every module of `after` is the module of that name in `before`
/// with any number of its files marked for parsing.
pub open spec fn only_marks(before: Map<Seq<char>, Module>, after: Map<Seq<char>, Module>) -> bool {
    &&& after.dom() == before.dom()
    &&& forall|name: Seq<char>| #[trigger]
        before.contains_key(name) ==> only_marked(before[name], after[name])
}

/// Touching a file of a module marks that file and changes nothing else.
pub proof fn lemma_touched_only_marks(module: Module, side: FileSide, modified: Option<Timestamp>)
    ensures
        only_marked(module, touched_module(module, side, modified)),
{
}

/// The module that a changed file belongs to is stale once it was touched,
/// and is to be parsed again.
pub proof fn lemma_touched_is_stale(
    module: Module,
    package_path: Seq<char>,
    canonical: Seq<char>,
    modified: Option<Timestamp>,
)
    requires
        owned_side(module, package_path, canonical) is Some,
    ensures
        touched_module(
            module,
            owned_side(module, package_path, canonical)->0,
            modified,
        ).parse_dirty(),
{
}

/// A changed file leads to at most one module being touched; every other
/// module stays as it was.
pub proof fn lemma_mark_path_touches_one(
    modules: Map<Seq<char>, Module>,
    packages: Map<Seq<char>, Package>,
    order: Seq<(String, String)>,
    canonical: Seq<char>,
    modified: Option<Timestamp>,
)
    ensures
        only_marks(modules, mark_path(modules, packages, order, canonical, modified)),
        mark_path(modules, packages, order, canonical, modified) == modules || exists|i: int|
            0 <= i < order.len() && modules.contains_key(order[i].0@) && owner_at(
                modules,
                packages,
                order[i].0@,
                order[i].1@,
                canonical,
            ) is Some && #[trigger] mark_path(modules, packages, order, canonical, modified)
                == modules.insert(
                order[i].0@,
                touched_module(
                    modules[order[i].0@],
                    owner_at(modules, packages, order[i].0@, order[i].1@, canonical)->0,
                    modified,
                ),
            ),
    decreases order.len(),
{
    if order.len() == 0 {
    } else {
        match owner_at(modules, packages, order[0].0@, order[0].1@, canonical) {
            Some(side) => {
                lemma_touched_only_marks(modules[order[0].0@], side, modified);
                let after = modules.insert(
                    order[0].0@,
                    touched_module(modules[order[0].0@], side, modified),
                );
                assert(after.dom() =~= modules.dom());
            },
            None => {
                let rest = order.skip(1);
                lemma_mark_path_touches_one(modules, packages, rest, canonical, modified);
                let after = mark_path(modules, packages, rest, canonical, modified);
                if after != modules {
                    let i = choose|i: int|
                        0 <= i < rest.len() && modules.contains_key(rest[i].0@) && owner_at(
                            modules,
                            packages,
                            rest[i].0@,
                            rest[i].1@,
                            canonical,
                        ) is Some && #[trigger] mark_path(modules, packages, rest, canonical, modified)
                            == modules.insert(
                            rest[i].0@,
                            touched_module(
                                modules[rest[i].0@],
                                owner_at(modules, packages, rest[i].0@, rest[i].1@, canonical)->0,
                                modified,
                            ),
                        );
                    assert(rest[i] == order[i + 1]);
                }
            },
        }
    }
}

/// What the paths of one event leave of the decision and of the modules.
pub proof fn lemma_after_paths(
    state: BatchState,
    packages: Map<Seq<char>, Package>,
    order: Seq<(String, String)>,
    kind: EventKind,
    paths: Seq<ChangedPath>,
    filter: Option<PathFilter>,
)
    ensures
        only_marks(state.modules, after_paths(state, packages, order, kind, paths, filter).modules),
        after_paths(state, packages, order, kind, paths, filter).decision == if state.decision is Full {
            CompileType::Full
        } else if exists|i: int|
            0 <= i < paths.len() && #[trigger] is_watched_source(paths[i].path@, filter) {
            if kind.structural() {
                CompileType::Full
            } else if kind.content() {
                CompileType::Incremental
            } else {
                state.decision
            }
        } else {
            state.decision
        },
    decreases paths.len(),
{
    if paths.len() == 0 {
    } else {
        let front = paths.drop_last();
        lemma_after_paths(state, packages, order, kind, front, filter);
        let before = after_paths(state, packages, order, kind, front, filter);
        let after = after_path(before, packages, order, kind, paths.last(), filter);
        if let Some(canonical) = paths.last().canonical {
            lemma_mark_path_touches_one(
                before.modules,
                packages,
                order,
                canonical@,
                paths.last().modified,
            );
        }
        assert(only_marks(state.modules, after.modules)) by {
            assert forall|name: Seq<char>| #[trigger]
                state.modules.contains_key(name) implies only_marked(
                state.modules[name],
                after.modules[name],
            ) by {
                assert(only_marked(state.modules[name], before.modules[name]));
                assert(before.modules.contains_key(name));
                assert(only_marked(before.modules[name], after.modules[name]));
            }
        }
        let seen_before = exists|i: int|
            0 <= i < front.len() && #[trigger] is_watched_source(front[i].path@, filter);
        let seen = exists|i: int|
            0 <= i < paths.len() && #[trigger] is_watched_source(paths[i].path@, filter);
        if seen_before {
            let i = choose|i: int|
                0 <= i < front.len() && #[trigger] is_watched_source(front[i].path@, filter);
            assert(front[i] == paths[i]);
            assert(is_watched_source(paths[i].path@, filter));
        }
        if is_watched_source(paths.last().path@, filter) {
            assert(is_watched_source(paths[paths.len() - 1].path@, filter));
        }
        if seen {
            let i = choose|i: int|
                0 <= i < paths.len() && #[trigger] is_watched_source(paths[i].path@, filter);
            if i < front.len() {
                assert(front[i] == paths[i]);
                assert(is_watched_source(front[i].path@, filter));
            }
        }
    }
}

/// What the events of a batch leave of the decision and of the modules,
/// where none of them removes the lock file or changes a configuration file:
/// the decision is the furthest that the earlier decision or any event has
/// escalated, and modules are changed by marking alone.
pub proof fn lemma_after_events(
    state: BatchState,
    packages: Map<Seq<char>, Package>,
    order: Seq<(String, String)>,
    events: Seq<WatchEvent>,
    filter: Option<PathFilter>,
)
    ensures
        only_marks(state.modules, after_events(state, packages, order, events, filter).modules),
        after_events(state, packages, order, events, filter).decision == batch_decision(
            state.decision,
            events,
            filter,
        ),
    decreases events.len(),
{
    if events.len() == 0 {
    } else {
        let front = events.drop_last();
        let last = events.last();
        lemma_after_events(state, packages, order, front, filter);
        let before = after_events(state, packages, order, front, filter);
        lemma_after_paths(before, packages, order, last.kind, last.paths@, filter);
        let after = after_paths(before, packages, order, last.kind, last.paths@, filter);
        assert(only_marks(state.modules, after.modules)) by {
            assert forall|name: Seq<char>| #[trigger]
                state.modules.contains_key(name) implies only_marked(
                state.modules[name],
                after.modules[name],
            ) by {
                assert(only_marked(state.modules[name], before.modules[name]));
                assert(before.modules.contains_key(name));
                assert(only_marked(before.modules[name], after.modules[name]));
            }
        }
        assert(events[events.len() - 1] == last);
        if any_asks_full(front, filter) {
            let i = choose|i: int| 0 <= i < front.len() && asks_full(#[trigger] front[i], filter);
            assert(front[i] == events[i]);
        }
        if any_asks_incremental(front, filter) {
            let i = choose|i: int|
                0 <= i < front.len() && asks_incremental(#[trigger] front[i], filter);
            assert(front[i] == events[i]);
        }
        if any_asks_full(events, filter) {
            let i = choose|i: int| 0 <= i < events.len() && asks_full(#[trigger] events[i], filter);
            if i < front.len() {
                assert(front[i] == events[i]);
            }
        }
        if any_asks_incremental(events, filter) {
            let i = choose|i: int|
                0 <= i < events.len() && asks_incremental(#[trigger] events[i], filter);
            if i < front.len() {
                assert(front[i] == events[i]);
            }
        }
    }
}

/// What a batch asks for does not depend on the modules of the graph nor on
/// the order in which they are gone through, and what it leaves of the
/// modules differs from what it found by marking alone.
pub proof fn lemma_batch_result(
    decision: CompileType,
    modules: Map<Seq<char>, Module>,
    packages: Map<Seq<char>, Package>,
    order: Seq<(String, String)>,
    events: Seq<WatchEvent>,
    filter: Option<PathFilter>,
)
    ensures
        batch_result(decision, modules, packages, order, events, filter).0 == batch_outcome(
            decision,
            events,
            filter,
        ),
        only_marks(modules, batch_result(decision, modules, packages, order, events, filter).1),
{
    lemma_after_events(BatchState { decision, modules }, packages, order, events, filter);
}

/// Two batches that hold the same events hold the same events whatever
/// their order.
proof fn lemma_same_events(a: Seq<WatchEvent>, b: Seq<WatchEvent>)
    requires
        a.to_multiset() == b.to_multiset(),
    ensures
        forall|event: WatchEvent| a.contains(event) <==> b.contains(event),
{
    broadcast use vstd::seq_lib::group_to_multiset_ensures;

    assert forall|event: WatchEvent| a.contains(event) <==> b.contains(event) by {
        assert(a.contains(event) <==> a.to_multiset().count(event) > 0);
        assert(b.contains(event) <==> b.to_multiset().count(event) > 0);
    }
}

/// What a batch asks for is at least what one of its events asks for.
proof fn lemma_outcome_one_way(
    decision: CompileType,
    a: Seq<WatchEvent>,
    b: Seq<WatchEvent>,
    filter: Option<PathFilter>,
)
    requires
        forall|event: WatchEvent| a.contains(event) ==> b.contains(event),
    ensures
        any_lock_removal(a) ==> any_lock_removal(b),
        any_config_change(a) ==> any_config_change(b),
        any_asks_full(a, filter) ==> any_asks_full(b, filter),
        any_asks_incremental(a, filter) ==> any_asks_incremental(b, filter),
{
    if any_lock_removal(a) {
        let i = choose|i: int| 0 <= i < a.len() && is_lock_removal(#[trigger] a[i]);
        assert(a.contains(a[i]));
        let j = choose|j: int| 0 <= j < b.len() && b[j] == a[i];
        assert(is_lock_removal(b[j]));
    }
    if any_config_change(a) {
        let i = choose|i: int| 0 <= i < a.len() && is_config_change(#[trigger] a[i]);
        assert(a.contains(a[i]));
        let j = choose|j: int| 0 <= j < b.len() && b[j] == a[i];
        assert(is_config_change(b[j]));
    }
    if any_asks_full(a, filter) {
        let i = choose|i: int| 0 <= i < a.len() && asks_full(#[trigger] a[i], filter);
        assert(a.contains(a[i]));
        let j = choose|j: int| 0 <= j < b.len() && b[j] == a[i];
        assert(asks_full(b[j], filter));
    }
    if any_asks_incremental(a, filter) {
        let i = choose|i: int| 0 <= i < a.len() && asks_incremental(#[trigger] a[i], filter);
        assert(a.contains(a[i]));
        let j = choose|j: int| 0 <= j < b.len() && b[j] == a[i];
        assert(asks_incremental(b[j], filter));
    }
}

/// Escalation does not depend on the order of arrival: two batches that
/// hold the same events, in whatever order, ask for the same.
pub proof fn lemma_outcome_ignores_order(
    decision: CompileType,
    a: Seq<WatchEvent>,
    b: Seq<WatchEvent>,
    filter: Option<PathFilter>,
)
    requires
        a.to_multiset() == b.to_multiset(),
    ensures
        batch_outcome(decision, a, filter) == batch_outcome(decision, b, filter),
{
    lemma_same_events(a, b);
    lemma_outcome_one_way(decision, a, b, filter);
    lemma_outcome_one_way(decision, b, a, filter);
}

/// Escalation is monotone: what is due after a batch is at least what was
/// due before it, and a full build stays due.
pub proof fn lemma_decision_escalates(
    decision: CompileType,
    events: Seq<WatchEvent>,
    filter: Option<PathFilter>,
)
    ensures
        rank(batch_decision(decision, events, filter)) >= rank(decision),
        any_config_change(events) && !any_lock_removal(events) ==> batch_outcome(
            decision,
            events,
            filter,
        ) == BatchOutcome::Decided(CompileType::Full),
{
}

/// Marking keeps the modules, their edges and their packages.
pub proof fn lemma_marks_keep_shape(before: Map<Seq<char>, Module>, after: Map<Seq<char>, Module>)
    requires
        only_marks(before, after),
    ensures
        same_shape(before, after),
        edges_symmetric(before) ==> edges_symmetric(after),
{
    assert forall|name: Seq<char>| #[trigger] before.contains_key(name) implies {
        &&& before[name].deps == after[name].deps
        &&& before[name].dependents == after[name].dependents
        &&& before[name].package_name == after[name].package_name
    } by {
        assert(only_marked(before[name], after[name]));
    }
    if edges_symmetric(before) {
        assert forall|m: Seq<char>, d: Seq<char>|
            #![trigger after[m], after[d]]
            after.contains_key(m) && after.contains_key(d) implies (name_set(
            after[m].deps,
        ).contains(d) <==> name_set(after[d].dependents).contains(m)) by {
            assert(before.contains_key(m) && before.contains_key(d));
            assert(only_marked(before[m], after[m]));
            assert(only_marked(before[d], after[d]));
            let _ = (before[m], before[d]);
        }
    }
}

} // verus!
