//! What a collection of policy layers holds: everything that was observed, with
//! where it comes from, and nothing else.

use vstd::prelude::*;

use crate::filesystem_plan;
use crate::filesystem_plan::{
    ClassificationFacts, CollectorModel, FilesystemPlanError, GlobMatch, GlobObservation,
    LayerObservation, MissingFilesystemTargetKind, MissingModel, MissingPathBehavior, Opened,
    PathObservation, PlanModel, PlannedModel, ProtectedObservation, ReadOnlyObservation,
    RuleObservation, ScopeObservation, TargetOrigins,
};
use crate::keyed;
use crate::native_path;
use crate::native_path::PathModel;
use crate::ordering;

verus! {

/// Whether a collection holds a target.
pub open spec fn is_target(state: CollectorModel, key: Seq<u32>) -> bool {
    exists|k: int| 0 <= k < state.targets.len() && (#[trigger] state.targets[k]).path.key() == key
}

/// Where the target under a key comes from; from nowhere, where there is none.
pub open spec fn origins_at(state: CollectorModel, key: Seq<u32>) -> TargetOrigins {
    if is_target(state, key) {
        state.targets[choose|k: int|
            0 <= k < state.targets.len() && (#[trigger] state.targets[k]).path.key() == key].origins
    } else {
        TargetOrigins { scope: false, read_only: false, glob: false, protected: false }
    }
}

/// Whether a collection holds a missing path of a kind.
pub open spec fn is_missing(
    state: CollectorModel,
    kind: MissingFilesystemTargetKind,
    key: Seq<u32>,
) -> bool {
    exists|k: int|
        0 <= k < state.missing.len() && (#[trigger] state.missing[k]).kind == kind
            && state.missing[k].path.key() == key
}

/// Whether an object was opened under a key.
pub open spec fn is_opened(opened: Opened, key: Seq<u32>) -> bool {
    opened matches Ok(path) && path@.key() == key
}

/// Whether an object exists and was opened under a key.
pub open spec fn is_seen(observed: PathObservation, key: Seq<u32>) -> bool {
    observed.presence is Present && is_opened(observed.opened, key)
}

/// Whether a collection holds everything that another one does.
pub open spec fn keeps(before: CollectorModel, after: CollectorModel) -> bool {
    &&& after.wf()
    &&& after.bounded == before.bounded
    &&& before.readable_base ==> after.readable_base
    &&& forall|key: Seq<u32>| #[trigger] is_target(before, key) ==> is_target(after, key)
    &&& forall|key: Seq<u32>|
        {
            let held = #[trigger] origins_at(before, key);
            let now = origins_at(after, key);
            &&& held.scope ==> now.scope
            &&& held.read_only ==> now.read_only
            &&& held.glob ==> now.glob
            &&& held.protected ==> now.protected
        }
    &&& forall|kind: MissingFilesystemTargetKind, key: Seq<u32>| #[trigger]
        is_missing(before, kind, key) ==> is_missing(after, kind, key)
    &&& forall|key: Seq<u32>| #[trigger]
        native_path::path_keys(before.protected).contains(key) ==> native_path::path_keys(
            after.protected,
        ).contains(key)
}

/// Where a target comes from, wherever it stands.
proof fn origins_of(state: CollectorModel, k: int)
    requires
        state.wf(),
        0 <= k < state.targets.len(),
    ensures
        is_target(state, state.targets[k].path.key()),
        origins_at(state, state.targets[k].path.key()) == state.targets[k].origins,
{
    let key = state.targets[k].path.key();
    let j = choose|j: int|
        0 <= j < state.targets.len() && (#[trigger] state.targets[j]).path.key() == key;
    let keys = filesystem_plan::target_keys(state.targets);
    assert(keys[k] == key && keys[j] == key);
    keyed::one_position(keys, k, j);
}

/// What a collection holds under a key, once a target is taken in.
proof fn target_joins(
    state: CollectorModel,
    path: PathModel,
    origins: TargetOrigins,
    key: Seq<u32>,
)
    requires
        state.wf(),
    ensures
        ({
            let after = state.with_target(path, origins);
            let held = origins_at(state, key);
            let now = origins_at(after, key);
            &&& after.wf()
            &&& after.bounded == state.bounded
            &&& after.missing == state.missing
            &&& after.protected == state.protected
            &&& after.readable_base == state.readable_base
            &&& is_target(after, key) <==> is_target(state, key) || key == path.key()
            &&& now.scope == (held.scope || key == path.key() && origins.scope)
            &&& now.read_only == (held.read_only || key == path.key() && origins.read_only)
            &&& now.glob == (held.glob || key == path.key() && origins.glob)
            &&& now.protected == (held.protected || key == path.key() && origins.protected)
        }),
{
    let own = path.key();
    let after = state.with_target(path, origins);
    let keys = filesystem_plan::target_keys(state.targets);
    let after_keys = filesystem_plan::target_keys(after.targets);
    let at = ordering::slot(keys, own);
    ordering::slot_divides(keys, own);
    ordering::present_where_contained(keys, own);
    if ordering::is_present(keys, own) {
        assert(after_keys =~= keys);
        assert(keys[at] == own);
        assert(state.targets[at].path.key() == own);
        origins_of(state, at);
        assert forall|k: int| 0 <= k < keys.len() implies (#[trigger] after.targets[k]).path.key()
            == state.targets[k].path.key() by {}
        if is_target(state, key) {
            let k = choose|k: int|
                0 <= k < state.targets.len() && (#[trigger] state.targets[k]).path.key() == key;
            assert(after.targets[k].path.key() == key);
            origins_of(state, k);
            origins_of(after, k);
            if key == own {
                assert(keys[k] == own);
                keyed::one_position(keys, k, at);
            }
        }
        if is_target(after, key) {
            let k = choose|k: int|
                0 <= k < after.targets.len() && (#[trigger] after.targets[k]).path.key() == key;
            assert(state.targets[k].path.key() == key);
        }
    } else {
        assert(after_keys =~= keys.insert(at, own));
        ordering::insert_keeps_order(keys, own);
        assert(after.targets[at].path.key() == own);
        origins_of(after, at);
        assert(!is_target(state, own)) by {
            if is_target(state, own) {
                let k = choose|k: int|
                    0 <= k < state.targets.len() && (#[trigger] state.targets[k]).path.key()
                        == own;
                assert(keys[k] == own);
                assert(keys.contains(own));
            }
        }
        if is_target(state, key) {
            let k = choose|k: int|
                0 <= k < state.targets.len() && (#[trigger] state.targets[k]).path.key() == key;
            let j = if k < at {
                k
            } else {
                k + 1
            };
            assert(after.targets[j] == state.targets[k]);
            origins_of(state, k);
            origins_of(after, j);
        }
        if is_target(after, key) && key != own {
            let j = choose|j: int|
                0 <= j < after.targets.len() && (#[trigger] after.targets[j]).path.key() == key;
            let k = if j < at {
                j
            } else {
                j - 1
            };
            assert(after.targets[j] == state.targets[k]);
            assert(state.targets[k].path.key() == key);
        }
    }
}

/// A missing path is told by its kind and its own key.
proof fn missing_key_tells(a: MissingModel, b: MissingModel)
    ensures
        a.key() == b.key() <==> a.kind == b.kind && a.path.key() == b.path.key(),
{
    if a.key() == b.key() {
        assert(a.key()[0] == filesystem_plan::kind_rank(a.kind));
        assert(b.key()[0] == filesystem_plan::kind_rank(b.kind));
        assert(a.path.key() =~= a.key().skip(1));
        assert(b.path.key() =~= b.key().skip(1));
    }
}

/// What a collection holds of missing paths, once one is taken in.
proof fn missing_joins(
    state: CollectorModel,
    target: MissingModel,
    kind: MissingFilesystemTargetKind,
    key: Seq<u32>,
)
    requires
        state.wf(),
    ensures
        ({
            let after = state.with_missing(target);
            &&& after.wf()
            &&& after.bounded == state.bounded
            &&& after.targets == state.targets
            &&& after.protected == state.protected
            &&& after.readable_base == state.readable_base
            &&& is_missing(after, kind, key) <==> is_missing(state, kind, key) || (kind
                == target.kind && key == target.path.key())
        }),
{
    let own = target.key();
    let after = state.with_missing(target);
    let keys = filesystem_plan::missing_keys(state.missing);
    let at = ordering::slot(keys, own);
    ordering::slot_divides(keys, own);
    if ordering::is_present(keys, own) {
        assert(keys[at] == own);
        assert(state.missing[at].key() == own);
        missing_key_tells(state.missing[at], target);
        assert(is_missing(state, target.kind, target.path.key()));
    } else {
        ordering::insert_keeps_order(keys, own);
        assert(filesystem_plan::missing_keys(after.missing) =~= keys.insert(at, own));
        assert(after.missing[at] == target);
        if is_missing(state, kind, key) {
            let k = choose|k: int|
                0 <= k < state.missing.len() && (#[trigger] state.missing[k]).kind == kind
                    && state.missing[k].path.key() == key;
            assert(after.missing[if k < at {
                k
            } else {
                k + 1
            }] == state.missing[k]);
        }
        if is_missing(after, kind, key) && !(kind == target.kind && key == target.path.key()) {
            let j = choose|j: int|
                0 <= j < after.missing.len() && (#[trigger] after.missing[j]).kind == kind
                    && after.missing[j].path.key() == key;
            assert(state.missing[if j < at {
                j
            } else {
                j - 1
            }] == after.missing[j]);
        }
    }
}

/// What one collection keeps of another, a third keeps that keeps the first.
proof fn keeping_is_transitive(a: CollectorModel, b: CollectorModel, c: CollectorModel)
    requires
        keeps(a, b),
        keeps(b, c),
    ensures
        keeps(a, c),
{
    assert forall|key: Seq<u32>| #[trigger] is_target(a, key) implies is_target(c, key) by {
        assert(is_target(b, key));
    }
    assert forall|key: Seq<u32>|
        {
            let held = #[trigger] origins_at(a, key);
            let now = origins_at(c, key);
            &&& held.scope ==> now.scope
            &&& held.read_only ==> now.read_only
            &&& held.glob ==> now.glob
            &&& held.protected ==> now.protected
        } by {
        let middle = origins_at(b, key);
    }
    assert forall|kind: MissingFilesystemTargetKind, key: Seq<u32>| #[trigger]
        is_missing(a, kind, key) implies is_missing(c, kind, key) by {
        assert(is_missing(b, kind, key));
    }
    assert forall|key: Seq<u32>| #[trigger]
        native_path::path_keys(a.protected).contains(key) implies native_path::path_keys(
        c.protected,
    ).contains(key) by {
        assert(native_path::path_keys(b.protected).contains(key));
    }
}

/// A collection keeps what it holds, once a target is taken in.
proof fn target_keeps(state: CollectorModel, path: PathModel, origins: TargetOrigins)
    requires
        state.wf(),
    ensures
        keeps(state, state.with_target(path, origins)),
{
    let after = state.with_target(path, origins);
    target_joins(state, path, origins, path.key());
    assert forall|key: Seq<u32>| #[trigger] is_target(state, key) implies is_target(after, key) by {
        target_joins(state, path, origins, key);
    }
    assert forall|key: Seq<u32>|
        {
            let held = #[trigger] origins_at(state, key);
            let now = origins_at(after, key);
            &&& held.scope ==> now.scope
            &&& held.read_only ==> now.read_only
            &&& held.glob ==> now.glob
            &&& held.protected ==> now.protected
        } by {
        target_joins(state, path, origins, key);
    }
}

/// A collection keeps what it holds, once a missing path is taken in.
proof fn missing_keeps(state: CollectorModel, target: MissingModel)
    requires
        state.wf(),
    ensures
        keeps(state, state.with_missing(target)),
{
    let after = state.with_missing(target);
    missing_joins(state, target, target.kind, target.path.key());
    assert forall|kind: MissingFilesystemTargetKind, key: Seq<u32>| #[trigger]
        is_missing(state, kind, key) implies is_missing(after, kind, key) by {
        missing_joins(state, target, kind, key);
    }
    assert forall|key: Seq<u32>| #[trigger] is_target(state, key) implies is_target(after, key) by {
        assert(state.targets == after.targets);
        let k = choose|k: int|
            0 <= k < state.targets.len() && (#[trigger] state.targets[k]).path.key() == key;
        assert(after.targets[k].path.key() == key);
    }
    assert forall|key: Seq<u32>|
        {
            let held = #[trigger] origins_at(state, key);
            let now = origins_at(after, key);
            &&& held.scope ==> now.scope
            &&& held.read_only ==> now.read_only
            &&& held.glob ==> now.glob
            &&& held.protected ==> now.protected
        } by {
        same_targets(state, after, key);
    }
}

/// Collections with the same targets hold the same under a key.
proof fn same_targets(a: CollectorModel, b: CollectorModel, key: Seq<u32>)
    requires
        a.wf(),
        b.wf(),
        a.targets == b.targets,
    ensures
        is_target(a, key) == is_target(b, key),
        origins_at(a, key) == origins_at(b, key),
{
    if is_target(a, key) {
        let k = choose|k: int|
            0 <= k < a.targets.len() && (#[trigger] a.targets[k]).path.key() == key;
        assert(b.targets[k].path.key() == key);
        origins_of(a, k);
        origins_of(b, k);
    }
    if is_target(b, key) {
        let k = choose|k: int|
            0 <= k < b.targets.len() && (#[trigger] b.targets[k]).path.key() == key;
        assert(a.targets[k].path.key() == key);
    }
}

/// Collections with the same missing paths miss the same.
proof fn same_missing(
    a: CollectorModel,
    b: CollectorModel,
    kind: MissingFilesystemTargetKind,
    key: Seq<u32>,
)
    requires
        a.missing == b.missing,
    ensures
        is_missing(a, kind, key) == is_missing(b, kind, key),
{
    if is_missing(a, kind, key) {
        let k = choose|k: int|
            0 <= k < a.missing.len() && (#[trigger] a.missing[k]).kind == kind
                && a.missing[k].path.key() == key;
        assert(b.missing[k].kind == kind);
    }
    if is_missing(b, kind, key) {
        let k = choose|k: int|
            0 <= k < b.missing.len() && (#[trigger] b.missing[k]).kind == kind
                && b.missing[k].path.key() == key;
        assert(a.missing[k].kind == kind);
    }
}

/// Whether a collection holds under a key what it held before, and where
/// something was seen there, a target that comes from the given origins too.
pub open spec fn adds(
    before: CollectorModel,
    after: CollectorModel,
    key: Seq<u32>,
    seen: bool,
    origins: TargetOrigins,
) -> bool {
    let held = origins_at(before, key);
    let now = origins_at(after, key);
    &&& is_target(after, key) <==> is_target(before, key) || seen
    &&& now.scope == (held.scope || seen && origins.scope)
    &&& now.read_only == (held.read_only || seen && origins.read_only)
    &&& now.glob == (held.glob || seen && origins.glob)
    &&& now.protected == (held.protected || seen && origins.protected)
}

/// Whether a match, from the `i`th on, was opened under a key.
pub open spec fn is_matched(matches: Seq<GlobMatch>, i: int, key: Seq<u32>) -> bool {
    exists|j: int| i <= j < matches.len() && is_opened((#[trigger] matches[j]).opened, key)
}

/// Whether a match in a directory, from the `i`th on, was opened under a key.
pub open spec fn is_matched_below(roots: Seq<GlobObservation>, i: int, key: Seq<u32>) -> bool {
    exists|r: int|
        i <= r < roots.len() && ((#[trigger] roots[r]).matches matches Ok(matches) && is_matched(
            matches@,
            0,
            key,
        ))
}

/// Whether a read-only path, from the `i`th on, was opened under a key.
pub open spec fn is_read_only_seen(paths: Seq<ReadOnlyObservation>, i: int, key: Seq<u32>) -> bool {
    exists|j: int| i <= j < paths.len() && is_seen((#[trigger] paths[j]).observed, key)
}

/// Whether a read-only path, from the `i`th on, is missing.
pub open spec fn is_read_only_gone(paths: Seq<ReadOnlyObservation>, i: int, key: Seq<u32>) -> bool {
    exists|j: int|
        i <= j < paths.len() && (#[trigger] paths[j]).observed.presence is Missing
            && paths[j].path@.key() == key
}

/// Whether a protected path, from the `i`th on, was opened under a key.
pub open spec fn is_protected_seen(
    paths: Seq<ProtectedObservation>,
    i: int,
    key: Seq<u32>,
) -> bool {
    exists|j: int| i <= j < paths.len() && is_seen((#[trigger] paths[j]).observed, key)
}

/// Whether a protected path, from the `i`th on, is missing.
pub open spec fn is_protected_gone(
    paths: Seq<ProtectedObservation>,
    i: int,
    key: Seq<u32>,
) -> bool {
    exists|j: int|
        i <= j < paths.len() && (#[trigger] paths[j]).observed.presence is Missing
            && paths[j].path@.key() == key
}

/// The origins of what a deny pattern matched.
spec fn by_pattern() -> TargetOrigins {
    TargetOrigins { scope: false, read_only: false, glob: true, protected: false }
}

/// The origins of a read-only path.
spec fn by_read_only() -> TargetOrigins {
    TargetOrigins { scope: false, read_only: true, glob: false, protected: false }
}

/// The origins of a protected path.
spec fn by_protection() -> TargetOrigins {
    TargetOrigins { scope: false, read_only: false, glob: false, protected: true }
}

/// What `matches_are_gathered` says, from the `i`th match on.
proof fn matches_are_gathered_from(
    state: CollectorModel,
    matches: Seq<GlobMatch>,
    i: int,
    key: Seq<u32>,
)
    requires
        state.wf(),
        0 <= i <= matches.len(),
        filesystem_plan::with_matches_from(state, matches, i) is Ok,
    ensures
        ({
            let after = filesystem_plan::with_matches_from(state, matches, i)->Ok_0;
            &&& keeps(state, after)
            &&& after.missing == state.missing
            &&& after.protected == state.protected
            &&& after.readable_base == state.readable_base
            &&& adds(state, after, key, is_matched(matches, i, key), by_pattern())
            &&& forall|j: int|
                i <= j < matches.len() ==> (#[trigger] matches[j]).decision is Deny
                    && matches[j].opened is Ok
        }),
    decreases matches.len() - i,
{
    let after = filesystem_plan::with_matches_from(state, matches, i)->Ok_0;
    if i < matches.len() {
        let path = matches[i].opened->Ok_0@;
        let next = state.with_target(path, by_pattern());
        assert(filesystem_plan::with_opened(
            state,
            matches[i].opened,
            filesystem_plan::from_glob(),
        ) == Ok::<CollectorModel, FilesystemPlanError<PathModel>>(next));
        target_joins(state, path, by_pattern(), key);
        target_keeps(state, path, by_pattern());
        matches_are_gathered_from(next, matches, i + 1, key);
        keeping_is_transitive(state, next, after);
        assert(is_matched(matches, i, key) <==> is_opened(matches[i].opened, key) || is_matched(
            matches,
            i + 1,
            key,
        )) by {
            if is_matched(matches, i, key) {
                let j = choose|j: int|
                    i <= j < matches.len() && is_opened((#[trigger] matches[j]).opened, key);
            }
        }
    } else {
        nothing_changes(state);
    }
}

/// A collection keeps what it holds.
proof fn nothing_changes(state: CollectorModel)
    requires
        state.wf(),
    ensures
        keeps(state, state),
{
}

/// Once the matches of a deny pattern are collected, every one of them is
/// denied by the policy and was opened, and the targets are those there were and
/// what was opened, which now comes from the pattern too. Nothing else changes.
pub proof fn matches_are_gathered(
    state: CollectorModel,
    matches: Seq<GlobMatch>,
    after: CollectorModel,
    key: Seq<u32>,
)
    requires
        state.wf(),
        filesystem_plan::with_matches_from(state, matches, 0) == Ok::<
            CollectorModel,
            FilesystemPlanError<PathModel>,
        >(after),
    ensures
        forall|j: int|
            0 <= j < matches.len() ==> (#[trigger] matches[j]).decision is Deny && (
            matches[j].opened matches Ok(path) && is_target(after, path@.key()) && origins_at(
                after,
                path@.key(),
            ).glob),
        is_target(after, key) <==> is_target(state, key) || exists|j: int|
            0 <= j < matches.len() && is_opened((#[trigger] matches[j]).opened, key),
        origins_at(after, key) == (TargetOrigins {
            glob: origins_at(state, key).glob || exists|j: int|
                0 <= j < matches.len() && is_opened((#[trigger] matches[j]).opened, key),
            ..origins_at(state, key)
        }),
        after.missing == state.missing,
        after.protected == state.protected,
        after.readable_base == state.readable_base,
        keeps(state, after),
{
    matches_are_gathered_from(state, matches, 0, key);
    assert forall|j: int| 0 <= j < matches.len() implies (#[trigger] matches[j]).decision is Deny
        && (matches[j].opened matches Ok(path) && is_target(after, path@.key()) && origins_at(
        after,
        path@.key(),
    ).glob) by {
        let own = matches[j].opened->Ok_0@.key();
        matches_are_gathered_from(state, matches, 0, own);
        assert(is_opened(matches[j].opened, own));
        assert(is_matched(matches, 0, own));
    }
    assert(is_matched(matches, 0, key) <==> exists|j: int|
        0 <= j < matches.len() && is_opened((#[trigger] matches[j]).opened, key));
}

/// What `patterns_are_gathered` says, from the `i`th directory on.
proof fn patterns_are_gathered_from(
    state: CollectorModel,
    pattern: Seq<u16>,
    roots: Seq<GlobObservation>,
    i: int,
    key: Seq<u32>,
)
    requires
        state.wf(),
        0 <= i <= roots.len(),
        filesystem_plan::with_globs_from(state, pattern, roots, i) is Ok,
    ensures
        ({
            let after = filesystem_plan::with_globs_from(state, pattern, roots, i)->Ok_0;
            &&& keeps(state, after)
            &&& after.missing == state.missing
            &&& after.protected == state.protected
            &&& after.readable_base == state.readable_base
            &&& adds(state, after, key, is_matched_below(roots, i, key), by_pattern())
            &&& forall|r: int|
                i <= r < roots.len() ==> {
                    &&& (#[trigger] roots[r]).matches is Ok
                    &&& !filesystem_plan::visits_volume(state.bounded, roots[r].root@, pattern)
                }
        }),
    decreases roots.len() - i,
{
    let after = filesystem_plan::with_globs_from(state, pattern, roots, i)->Ok_0;
    if i < roots.len() {
        let matches = roots[i].matches->Ok_0@;
        let next = filesystem_plan::with_matches_from(state, matches, 0)->Ok_0;
        matches_are_gathered_from(state, matches, 0, key);
        patterns_are_gathered_from(next, pattern, roots, i + 1, key);
        keeping_is_transitive(state, next, after);
        assert(is_matched_below(roots, i, key) <==> is_matched(matches, 0, key)
            || is_matched_below(roots, i + 1, key)) by {
            if is_matched_below(roots, i, key) {
                let r = choose|r: int|
                    i <= r < roots.len() && ((#[trigger] roots[r]).matches matches Ok(matches)
                        && is_matched(matches@, 0, key));
            }
        }
    } else {
        nothing_changes(state);
    }
}

/// Once a deny pattern is collected, everything that it matched in any
/// directory is a target that comes from a pattern; no directory was left out, and
/// no search without a bound visited a volume. Nothing else changes.
pub proof fn patterns_are_gathered(
    state: CollectorModel,
    pattern: Seq<u16>,
    roots: Seq<GlobObservation>,
    after: CollectorModel,
    key: Seq<u32>,
)
    requires
        state.wf(),
        filesystem_plan::with_globs_from(state, pattern, roots, 0) == Ok::<
            CollectorModel,
            FilesystemPlanError<PathModel>,
        >(after),
    ensures
        forall|r: int|
            0 <= r < roots.len() ==> {
                &&& (#[trigger] roots[r]).matches is Ok
                &&& roots[r].root@.is_volume_root() && filesystem_plan::is_recursive_pattern(pattern)
                    ==> state.bounded
            },
        forall|r: int, j: int|
            0 <= r < roots.len() && 0 <= j < roots[r].matches->Ok_0@.len() && is_opened(
                (#[trigger] roots[r].matches->Ok_0@[j]).opened,
                key,
            ) ==> is_target(after, key) && origins_at(after, key).glob,
        is_target(after, key) && !is_target(state, key) ==> is_matched_below(roots, 0, key),
        origins_at(after, key).glob && !origins_at(state, key).glob ==> is_matched_below(
            roots,
            0,
            key,
        ),
        origins_at(after, key).scope == origins_at(state, key).scope,
        origins_at(after, key).read_only == origins_at(state, key).read_only,
        origins_at(after, key).protected == origins_at(state, key).protected,
        after.missing == state.missing,
        after.protected == state.protected,
        after.readable_base == state.readable_base,
        keeps(state, after),
{
    patterns_are_gathered_from(state, pattern, roots, 0, key);
    assert forall|r: int, j: int|
        0 <= r < roots.len() && 0 <= j < roots[r].matches->Ok_0@.len() && is_opened(
            (#[trigger] roots[r].matches->Ok_0@[j]).opened,
            key,
        ) implies is_target(after, key) && origins_at(after, key).glob by {
        assert(roots[r].matches is Ok);
        assert(is_matched(roots[r].matches->Ok_0@, 0, key));
        assert(is_matched_below(roots, 0, key));
    }
}

/// What a collection holds once a guarded path is taken in.
proof fn guarded_joins(
    state: CollectorModel,
    path: PathModel,
    observed: PathObservation,
    origins: TargetOrigins,
    kind: MissingFilesystemTargetKind,
    root: PathModel,
    ancestors: Seq<PathObservation>,
    key: Seq<u32>,
    gone: MissingFilesystemTargetKind,
)
    requires
        state.wf(),
        filesystem_plan::with_guarded(state, path, observed, origins, kind, root, ancestors) is Ok,
    ensures
        ({
            let after = filesystem_plan::with_guarded(
                state,
                path,
                observed,
                origins,
                kind,
                root,
                ancestors,
            )->Ok_0;
            &&& keeps(state, after)
            &&& after.protected == state.protected
            &&& after.readable_base == state.readable_base
            &&& adds(state, after, key, is_seen(observed, key), origins)
            &&& is_missing(after, gone, key) <==> is_missing(state, gone, key) || (
            observed.presence is Missing && gone == kind && key == path.key())
            &&& observed.presence is Present && observed.opened is Ok || observed.presence
                is Missing
        }),
{
    let after = filesystem_plan::with_guarded(
        state,
        path,
        observed,
        origins,
        kind,
        root,
        ancestors,
    )->Ok_0;
    if observed.presence is Present {
        let opened = observed.opened->Ok_0@;
        target_joins(state, opened, origins, key);
        target_keeps(state, opened, origins);
        same_missing(state, after, gone, key);
    } else {
        let anchor = filesystem_plan::anchor_of(path, Some(root), ancestors)->Ok_0;
        let target = MissingModel { path, anchor: Some(anchor), kind };
        assert(after == state.with_missing(target));
        missing_joins(state, target, gone, key);
        missing_keeps(state, target);
        same_targets(state, after, key);
    }
}

/// What `read_only_paths_are_gathered` says, from the `i`th path on.
proof fn read_only_paths_are_gathered_from(
    state: CollectorModel,
    root: PathModel,
    paths: Seq<ReadOnlyObservation>,
    i: int,
    key: Seq<u32>,
    gone: MissingFilesystemTargetKind,
)
    requires
        state.wf(),
        0 <= i <= paths.len(),
        filesystem_plan::with_read_only_from(state, root, paths, i) is Ok,
    ensures
        ({
            let after = filesystem_plan::with_read_only_from(state, root, paths, i)->Ok_0;
            &&& keeps(state, after)
            &&& after.protected == state.protected
            &&& after.readable_base == state.readable_base
            &&& adds(state, after, key, is_read_only_seen(paths, i, key), by_read_only())
            &&& is_missing(after, gone, key) <==> is_missing(state, gone, key) || (gone
                is ReadOnly && is_read_only_gone(paths, i, key))
            &&& forall|j: int|
                i <= j < paths.len() ==> {
                    &&& (#[trigger] paths[j]).path@.is_within(root)
                    &&& paths[j].observed.presence is Present && paths[j].observed.opened is Ok
                        || paths[j].observed.presence is Missing
                }
        }),
    decreases paths.len() - i,
{
    let after = filesystem_plan::with_read_only_from(state, root, paths, i)->Ok_0;
    if i < paths.len() {
        let next = filesystem_plan::with_guarded(
            state,
            paths[i].path@,
            paths[i].observed,
            filesystem_plan::from_read_only(),
            MissingFilesystemTargetKind::ReadOnly,
            root,
            paths[i].ancestors@,
        )->Ok_0;
        guarded_joins(
            state,
            paths[i].path@,
            paths[i].observed,
            filesystem_plan::from_read_only(),
            MissingFilesystemTargetKind::ReadOnly,
            root,
            paths[i].ancestors@,
            key,
            gone,
        );
        read_only_paths_are_gathered_from(next, root, paths, i + 1, key, gone);
        keeping_is_transitive(state, next, after);
        assert(is_read_only_seen(paths, i, key) <==> is_seen(paths[i].observed, key)
            || is_read_only_seen(paths, i + 1, key)) by {
            if is_read_only_seen(paths, i, key) {
                let j = choose|j: int|
                    i <= j < paths.len() && is_seen((#[trigger] paths[j]).observed, key);
            }
        }
        assert(is_read_only_gone(paths, i, key) <==> (paths[i].observed.presence is Missing
            && paths[i].path@.key() == key) || is_read_only_gone(paths, i + 1, key)) by {
            if is_read_only_gone(paths, i, key) {
                let j = choose|j: int|
                    i <= j < paths.len() && (#[trigger] paths[j]).observed.presence is Missing
                        && paths[j].path@.key() == key;
            }
        }
    } else {
        nothing_changes(state);
    }
}

/// Once the read-only paths below a writable root are collected, all of them
/// lie within the root, and each is either a target that is read-only, where it
/// exists, or a missing path that must be read-only. Nothing else changes.
pub proof fn read_only_paths_are_gathered(
    state: CollectorModel,
    root: PathModel,
    paths: Seq<ReadOnlyObservation>,
    after: CollectorModel,
    key: Seq<u32>,
)
    requires
        state.wf(),
        filesystem_plan::with_read_only_from(state, root, paths, 0) == Ok::<
            CollectorModel,
            FilesystemPlanError<PathModel>,
        >(after),
    ensures
        forall|j: int|
            0 <= j < paths.len() ==> (#[trigger] paths[j]).path@.is_within(root) && (if paths[j].observed.presence is Present {
                paths[j].observed.opened matches Ok(path) && is_target(after, path@.key())
                    && origins_at(after, path@.key()).read_only
            } else {
                paths[j].observed.presence is Missing && is_missing(
                    after,
                    MissingFilesystemTargetKind::ReadOnly,
                    paths[j].path@.key(),
                )
            }),
        is_target(after, key) <==> is_target(state, key) || exists|j: int|
            0 <= j < paths.len() && is_seen((#[trigger] paths[j]).observed, key),
        origins_at(after, key) == (TargetOrigins {
            read_only: origins_at(state, key).read_only || exists|j: int|
                0 <= j < paths.len() && is_seen((#[trigger] paths[j]).observed, key),
            ..origins_at(state, key)
        }),
        is_missing(after, MissingFilesystemTargetKind::ReadOnly, key) <==> is_missing(
            state,
            MissingFilesystemTargetKind::ReadOnly,
            key,
        ) || exists|j: int|
            0 <= j < paths.len() && (#[trigger] paths[j]).observed.presence is Missing
                && paths[j].path@.key() == key,
        is_missing(after, MissingFilesystemTargetKind::SkippedScope, key) == is_missing(
            state,
            MissingFilesystemTargetKind::SkippedScope,
            key,
        ),
        is_missing(after, MissingFilesystemTargetKind::Protected, key) == is_missing(
            state,
            MissingFilesystemTargetKind::Protected,
            key,
        ),
        after.protected == state.protected,
        after.readable_base == state.readable_base,
        keeps(state, after),
{
    let read_only = MissingFilesystemTargetKind::ReadOnly;
    read_only_paths_are_gathered_from(state, root, paths, 0, key, read_only);
    read_only_paths_are_gathered_from(
        state,
        root,
        paths,
        0,
        key,
        MissingFilesystemTargetKind::SkippedScope,
    );
    read_only_paths_are_gathered_from(
        state,
        root,
        paths,
        0,
        key,
        MissingFilesystemTargetKind::Protected,
    );
    assert(is_read_only_seen(paths, 0, key) <==> exists|j: int|
        0 <= j < paths.len() && is_seen((#[trigger] paths[j]).observed, key));
    assert(is_read_only_gone(paths, 0, key) <==> exists|j: int|
        0 <= j < paths.len() && (#[trigger] paths[j]).observed.presence is Missing
            && paths[j].path@.key() == key);
    assert forall|j: int| 0 <= j < paths.len() implies (#[trigger] paths[j]).path@.is_within(root)
        && (if paths[j].observed.presence is Present {
        paths[j].observed.opened matches Ok(path) && is_target(after, path@.key()) && origins_at(
            after,
            path@.key(),
        ).read_only
    } else {
        paths[j].observed.presence is Missing && is_missing(
            after,
            MissingFilesystemTargetKind::ReadOnly,
            paths[j].path@.key(),
        )
    }) by {
        if paths[j].observed.presence is Present {
            let own = paths[j].observed.opened->Ok_0@.key();
            read_only_paths_are_gathered_from(state, root, paths, 0, own, read_only);
            assert(is_seen(paths[j].observed, own));
            assert(is_read_only_seen(paths, 0, own));
        } else {
            let own = paths[j].path@.key();
            read_only_paths_are_gathered_from(state, root, paths, 0, own, read_only);
            assert(is_read_only_gone(paths, 0, own));
        }
    }
}

/// What `protected_paths_are_gathered` says, from the `i`th path on.
proof fn protected_paths_are_gathered_from(
    state: CollectorModel,
    paths: Seq<ProtectedObservation>,
    i: int,
    key: Seq<u32>,
    gone: MissingFilesystemTargetKind,
)
    requires
        state.wf(),
        0 <= i <= paths.len(),
        filesystem_plan::with_protected_paths_from(state, paths, i) is Ok,
    ensures
        ({
            let after = filesystem_plan::with_protected_paths_from(state, paths, i)->Ok_0;
            &&& keeps(state, after)
            &&& after.protected == state.protected
            &&& after.readable_base == state.readable_base
            &&& adds(state, after, key, is_protected_seen(paths, i, key), by_protection())
            &&& is_missing(after, gone, key) <==> is_missing(state, gone, key) || (gone
                is Protected && is_protected_gone(paths, i, key))
            &&& forall|j: int|
                i <= j < paths.len() ==> {
                    &&& (#[trigger] paths[j]).decision is Read || paths[j].decision is Deny
                    &&& paths[j].observed.presence is Present && paths[j].observed.opened is Ok
                        || paths[j].observed.presence is Missing
                }
        }),
    decreases paths.len() - i,
{
    let after = filesystem_plan::with_protected_paths_from(state, paths, i)->Ok_0;
    if i < paths.len() {
        let next = filesystem_plan::with_guarded(
            state,
            paths[i].path@,
            paths[i].observed,
            filesystem_plan::from_protected(),
            MissingFilesystemTargetKind::Protected,
            paths[i].root@,
            paths[i].ancestors@,
        )->Ok_0;
        guarded_joins(
            state,
            paths[i].path@,
            paths[i].observed,
            filesystem_plan::from_protected(),
            MissingFilesystemTargetKind::Protected,
            paths[i].root@,
            paths[i].ancestors@,
            key,
            gone,
        );
        protected_paths_are_gathered_from(next, paths, i + 1, key, gone);
        keeping_is_transitive(state, next, after);
        assert(is_protected_seen(paths, i, key) <==> is_seen(paths[i].observed, key)
            || is_protected_seen(paths, i + 1, key)) by {
            if is_protected_seen(paths, i, key) {
                let j = choose|j: int|
                    i <= j < paths.len() && is_seen((#[trigger] paths[j]).observed, key);
            }
        }
        assert(is_protected_gone(paths, i, key) <==> (paths[i].observed.presence is Missing
            && paths[i].path@.key() == key) || is_protected_gone(paths, i + 1, key)) by {
            if is_protected_gone(paths, i, key) {
                let j = choose|j: int|
                    i <= j < paths.len() && (#[trigger] paths[j]).observed.presence is Missing
                        && paths[j].path@.key() == key;
            }
        }
    } else {
        nothing_changes(state);
    }
}

/// Once the protected paths are collected, the policy lets none of them be
/// written, and each is either a target that is protected, where it exists, or a
/// missing path that must be protected. Nothing else changes.
pub proof fn protected_paths_are_gathered(
    state: CollectorModel,
    paths: Seq<ProtectedObservation>,
    after: CollectorModel,
    key: Seq<u32>,
)
    requires
        state.wf(),
        filesystem_plan::with_protected_paths_from(state, paths, 0) == Ok::<
            CollectorModel,
            FilesystemPlanError<PathModel>,
        >(after),
    ensures
        forall|j: int|
            0 <= j < paths.len() ==> ((#[trigger] paths[j]).decision is Read || paths[j].decision
                is Deny) && (if paths[j].observed.presence is Present {
                paths[j].observed.opened matches Ok(path) && is_target(after, path@.key())
                    && origins_at(after, path@.key()).protected
            } else {
                paths[j].observed.presence is Missing && is_missing(
                    after,
                    MissingFilesystemTargetKind::Protected,
                    paths[j].path@.key(),
                )
            }),
        is_target(after, key) <==> is_target(state, key) || exists|j: int|
            0 <= j < paths.len() && is_seen((#[trigger] paths[j]).observed, key),
        origins_at(after, key) == (TargetOrigins {
            protected: origins_at(state, key).protected || exists|j: int|
                0 <= j < paths.len() && is_seen((#[trigger] paths[j]).observed, key),
            ..origins_at(state, key)
        }),
        is_missing(after, MissingFilesystemTargetKind::Protected, key) <==> is_missing(
            state,
            MissingFilesystemTargetKind::Protected,
            key,
        ) || exists|j: int|
            0 <= j < paths.len() && (#[trigger] paths[j]).observed.presence is Missing
                && paths[j].path@.key() == key,
        is_missing(after, MissingFilesystemTargetKind::SkippedScope, key) == is_missing(
            state,
            MissingFilesystemTargetKind::SkippedScope,
            key,
        ),
        is_missing(after, MissingFilesystemTargetKind::ReadOnly, key) == is_missing(
            state,
            MissingFilesystemTargetKind::ReadOnly,
            key,
        ),
        after.protected == state.protected,
        after.readable_base == state.readable_base,
        keeps(state, after),
{
    let protected = MissingFilesystemTargetKind::Protected;
    protected_paths_are_gathered_from(state, paths, 0, key, protected);
    protected_paths_are_gathered_from(
        state,
        paths,
        0,
        key,
        MissingFilesystemTargetKind::SkippedScope,
    );
    protected_paths_are_gathered_from(state, paths, 0, key, MissingFilesystemTargetKind::ReadOnly);
    assert(is_protected_seen(paths, 0, key) <==> exists|j: int|
        0 <= j < paths.len() && is_seen((#[trigger] paths[j]).observed, key));
    assert(is_protected_gone(paths, 0, key) <==> exists|j: int|
        0 <= j < paths.len() && (#[trigger] paths[j]).observed.presence is Missing
            && paths[j].path@.key() == key);
    assert forall|j: int| 0 <= j < paths.len() implies ((#[trigger] paths[j]).decision is Read
        || paths[j].decision is Deny) && (if paths[j].observed.presence is Present {
        paths[j].observed.opened matches Ok(path) && is_target(after, path@.key()) && origins_at(
            after,
            path@.key(),
        ).protected
    } else {
        paths[j].observed.presence is Missing && is_missing(
            after,
            MissingFilesystemTargetKind::Protected,
            paths[j].path@.key(),
        )
    }) by {
        if paths[j].observed.presence is Present {
            let own = paths[j].observed.opened->Ok_0@.key();
            protected_paths_are_gathered_from(state, paths, 0, own, protected);
            assert(is_seen(paths[j].observed, own));
            assert(is_protected_seen(paths, 0, own));
        } else {
            let own = paths[j].path@.key();
            protected_paths_are_gathered_from(state, paths, 0, own, protected);
            assert(is_protected_gone(paths, 0, own));
        }
    }
}

/// Whether a scope lets what lies below its path be written: it exists, and
/// the policy says so.
pub open spec fn is_writable_scope(scope: ScopeObservation) -> bool {
    scope.observed.presence is Present && scope.decision is Write
}

/// Whether a scope makes the platform readable.
pub open spec fn is_readable_scope(scope: ScopeObservation, platform_base: bool) -> bool {
    (scope.decision is Read || scope.decision is Write) && (platform_base
        || scope.path@.is_volume_root())
}

/// Once one path of a scope is collected, the policy has decided on it. Where
/// it exists, it is a target that comes from a scope; where it does not, it may be
/// left out and is noted as such. The read-only paths below it count where it may
/// be written. Nothing else changes.
pub proof fn scope_is_gathered(
    state: CollectorModel,
    scope: ScopeObservation,
    platform_base: bool,
    missing: MissingPathBehavior,
    after: CollectorModel,
    key: Seq<u32>,
)
    requires
        state.wf(),
        filesystem_plan::with_scope(state, scope, platform_base, missing) == Ok::<
            CollectorModel,
            FilesystemPlanError<PathModel>,
        >(after),
    ensures
        !(scope.decision is Undecided),
        scope.observed.presence is Present && scope.observed.opened is Ok
            || scope.observed.presence is Missing && missing is Skip,
        is_target(after, key) <==> is_target(state, key) || is_seen(scope.observed, key) || (
        is_writable_scope(scope) && is_read_only_seen(scope.read_only@, 0, key)),
        origins_at(after, key) == (TargetOrigins {
            scope: origins_at(state, key).scope || is_seen(scope.observed, key),
            read_only: origins_at(state, key).read_only || (is_writable_scope(scope)
                && is_read_only_seen(scope.read_only@, 0, key)),
            ..origins_at(state, key)
        }),
        is_missing(after, MissingFilesystemTargetKind::SkippedScope, key) <==> is_missing(
            state,
            MissingFilesystemTargetKind::SkippedScope,
            key,
        ) || (scope.observed.presence is Missing && scope.path@.key() == key),
        is_missing(after, MissingFilesystemTargetKind::ReadOnly, key) <==> is_missing(
            state,
            MissingFilesystemTargetKind::ReadOnly,
            key,
        ) || (is_writable_scope(scope) && is_read_only_gone(scope.read_only@, 0, key)),
        is_missing(after, MissingFilesystemTargetKind::Protected, key) == is_missing(
            state,
            MissingFilesystemTargetKind::Protected,
            key,
        ),
        is_writable_scope(scope) ==> forall|j: int|
            0 <= j < scope.read_only@.len() ==> (#[trigger] scope.read_only@[j]).path@.is_within(
                scope.path@,
            ),
        after.protected == state.protected,
        after.readable_base == (state.readable_base || is_readable_scope(scope, platform_base)),
        keeps(state, after),
{
    let by_scope = TargetOrigins { scope: true, read_only: false, glob: false, protected: false };
    let based = CollectorModel {
        readable_base: state.readable_base || is_readable_scope(scope, platform_base),
        ..state
    };
    same_targets(state, based, key);
    let skipped = MissingFilesystemTargetKind::SkippedScope;
    let read_only = MissingFilesystemTargetKind::ReadOnly;
    let protected = MissingFilesystemTargetKind::Protected;
    same_missing(state, based, skipped, key);
    same_missing(state, based, read_only, key);
    same_missing(state, based, protected, key);
    assert(keeps(state, based)) by {
        assert forall|key: Seq<u32>| #[trigger] is_target(state, key) implies is_target(
            based,
            key,
        ) by {
            same_targets(state, based, key);
        }
        assert forall|key: Seq<u32>|
            {
                let held = #[trigger] origins_at(state, key);
                let now = origins_at(based, key);
                &&& held.scope ==> now.scope
                &&& held.read_only ==> now.read_only
                &&& held.glob ==> now.glob
                &&& held.protected ==> now.protected
            } by {
            same_targets(state, based, key);
        }
        assert forall|kind: MissingFilesystemTargetKind, key: Seq<u32>| #[trigger]
            is_missing(state, kind, key) implies is_missing(based, kind, key) by {
            same_missing(state, based, kind, key);
        }
    }
    let next = filesystem_plan::with_scope_path(
        based,
        scope.path@,
        scope.observed,
        missing,
        filesystem_plan::from_scope(),
    )->Ok_0;
    if scope.observed.presence is Present {
        let opened = scope.observed.opened->Ok_0@;
        target_joins(based, opened, by_scope, key);
        target_keeps(based, opened, by_scope);
        same_missing(based, next, skipped, key);
        same_missing(based, next, read_only, key);
        same_missing(based, next, protected, key);
        keeping_is_transitive(state, based, next);
        if scope.decision is Write {
            read_only_paths_are_gathered(next, scope.path@, scope.read_only@, after, key);
            assert(is_read_only_seen(scope.read_only@, 0, key) <==> exists|j: int|
                0 <= j < scope.read_only@.len() && is_seen(
                    (#[trigger] scope.read_only@[j]).observed,
                    key,
                ));
            assert(is_read_only_gone(scope.read_only@, 0, key) <==> exists|j: int|
                0 <= j < scope.read_only@.len() && (
                #[trigger] scope.read_only@[j]).observed.presence is Missing
                    && scope.read_only@[j].path@.key() == key);
            keeping_is_transitive(state, next, after);
        }
    } else {
        let target = MissingModel { path: scope.path@, anchor: None, kind: skipped };
        assert(next == based.with_missing(target));
        missing_joins(based, target, skipped, key);
        missing_joins(based, target, read_only, key);
        missing_joins(based, target, protected, key);
        missing_keeps(based, target);
        same_targets(based, next, key);
        keeping_is_transitive(state, based, next);
    }
}

/// Whether a path of a scope, from the `i`th on, was opened under a key.
pub open spec fn is_scope_seen(scopes: Seq<ScopeObservation>, i: int, key: Seq<u32>) -> bool {
    exists|s: int| i <= s < scopes.len() && is_seen((#[trigger] scopes[s]).observed, key)
}

/// Whether a read-only path below a writable path of a scope, from the `i`th
/// on, was opened under a key.
pub open spec fn is_guard_seen(scopes: Seq<ScopeObservation>, i: int, key: Seq<u32>) -> bool {
    exists|s: int|
        i <= s < scopes.len() && is_writable_scope(#[trigger] scopes[s]) && is_read_only_seen(
            scopes[s].read_only@,
            0,
            key,
        )
}

/// Whether a path of a scope, from the `i`th on, is missing.
pub open spec fn is_scope_gone(scopes: Seq<ScopeObservation>, i: int, key: Seq<u32>) -> bool {
    exists|s: int|
        i <= s < scopes.len() && (#[trigger] scopes[s]).observed.presence is Missing
            && scopes[s].path@.key() == key
}

/// Whether a read-only path below a writable path of a scope, from the `i`th
/// on, is missing.
pub open spec fn is_guard_gone(scopes: Seq<ScopeObservation>, i: int, key: Seq<u32>) -> bool {
    exists|s: int|
        i <= s < scopes.len() && is_writable_scope(#[trigger] scopes[s]) && is_read_only_gone(
            scopes[s].read_only@,
            0,
            key,
        )
}

/// Whether a path of a scope, from the `i`th on, makes the platform readable.
pub open spec fn is_base_among(
    scopes: Seq<ScopeObservation>,
    platform_base: bool,
    i: int,
) -> bool {
    exists|s: int|
        i <= s < scopes.len() && is_readable_scope(#[trigger] scopes[s], platform_base)
}

/// Whether a collection differs from another under a key by what was seen and
/// missed there alone.
pub open spec fn differs_by(
    before: CollectorModel,
    after: CollectorModel,
    key: Seq<u32>,
    scope_seen: bool,
    guard_seen: bool,
    matched: bool,
    scope_gone: bool,
    guard_gone: bool,
) -> bool {
    let skipped = MissingFilesystemTargetKind::SkippedScope;
    let read_only = MissingFilesystemTargetKind::ReadOnly;
    let protected = MissingFilesystemTargetKind::Protected;
    &&& is_target(after, key) <==> is_target(before, key) || scope_seen || guard_seen || matched
    &&& origins_at(after, key) == (TargetOrigins {
        scope: origins_at(before, key).scope || scope_seen,
        read_only: origins_at(before, key).read_only || guard_seen,
        glob: origins_at(before, key).glob || matched,
        protected: origins_at(before, key).protected,
    })
    &&& is_missing(after, skipped, key) <==> is_missing(before, skipped, key) || scope_gone
    &&& is_missing(after, read_only, key) <==> is_missing(before, read_only, key) || guard_gone
    &&& is_missing(after, protected, key) <==> is_missing(before, protected, key)
}

/// What scopes observed from the `i`th on is what the `i`th observed and what
/// those behind it did.
proof fn scopes_unfold(
    scopes: Seq<ScopeObservation>,
    platform_base: bool,
    i: int,
    key: Seq<u32>,
)
    requires
        0 <= i < scopes.len(),
    ensures
        is_scope_seen(scopes, i, key) <==> is_seen(scopes[i].observed, key)
            || is_scope_seen(scopes, i + 1, key),
        is_guard_seen(scopes, i, key) <==> (is_writable_scope(scopes[i])
            && is_read_only_seen(scopes[i].read_only@, 0, key)) || is_guard_seen(
            scopes,
            i + 1,
            key,
        ),
        is_scope_gone(scopes, i, key) <==> (scopes[i].observed.presence is Missing
            && scopes[i].path@.key() == key) || is_scope_gone(scopes, i + 1, key),
        is_guard_gone(scopes, i, key) <==> (is_writable_scope(scopes[i])
            && is_read_only_gone(scopes[i].read_only@, 0, key)) || is_guard_gone(
            scopes,
            i + 1,
            key,
        ),
        is_base_among(scopes, platform_base, i) <==> is_readable_scope(
            scopes[i],
            platform_base,
        ) || is_base_among(scopes, platform_base, i + 1),
{
    assert(is_scope_seen(scopes, i, key) <==> is_seen(scopes[i].observed, key)
        || is_scope_seen(scopes, i + 1, key)) by {
        if is_scope_seen(scopes, i, key) {
            let s = choose|s: int|
                i <= s < scopes.len() && is_seen((#[trigger] scopes[s]).observed, key);
        }
    }
    assert(is_guard_seen(scopes, i, key) <==> (is_writable_scope(scopes[i])
        && is_read_only_seen(scopes[i].read_only@, 0, key)) || is_guard_seen(
        scopes,
        i + 1,
        key,
    )) by {
        if is_guard_seen(scopes, i, key) {
            let s = choose|s: int|
                i <= s < scopes.len() && is_writable_scope(#[trigger] scopes[s])
                    && is_read_only_seen(scopes[s].read_only@, 0, key);
        }
    }
    assert(is_scope_gone(scopes, i, key) <==> (scopes[i].observed.presence is Missing
        && scopes[i].path@.key() == key) || is_scope_gone(scopes, i + 1, key)) by {
        if is_scope_gone(scopes, i, key) {
            let s = choose|s: int|
                i <= s < scopes.len() && (#[trigger] scopes[s]).observed.presence is Missing
                    && scopes[s].path@.key() == key;
        }
    }
    assert(is_guard_gone(scopes, i, key) <==> (is_writable_scope(scopes[i])
        && is_read_only_gone(scopes[i].read_only@, 0, key)) || is_guard_gone(
        scopes,
        i + 1,
        key,
    )) by {
        if is_guard_gone(scopes, i, key) {
            let s = choose|s: int|
                i <= s < scopes.len() && is_writable_scope(#[trigger] scopes[s])
                    && is_read_only_gone(scopes[s].read_only@, 0, key);
        }
    }
    assert(is_base_among(scopes, platform_base, i) <==> is_readable_scope(
        scopes[i],
        platform_base,
    ) || is_base_among(scopes, platform_base, i + 1)) by {
        if is_base_among(scopes, platform_base, i) {
            let s = choose|s: int|
                i <= s < scopes.len() && is_readable_scope(#[trigger] scopes[s], platform_base);
        }
    }
}

/// What `layer_is_gathered` says of one scope, from the `i`th path on.
proof fn scopes_are_gathered_from(
    state: CollectorModel,
    scopes: Seq<ScopeObservation>,
    platform_base: bool,
    missing: MissingPathBehavior,
    i: int,
    key: Seq<u32>,
)
    requires
        state.wf(),
        0 <= i <= scopes.len(),
        filesystem_plan::with_scopes_from(state, scopes, platform_base, missing, i) is Ok,
    ensures
        ({
            let after = filesystem_plan::with_scopes_from(
                state,
                scopes,
                platform_base,
                missing,
                i,
            )->Ok_0;
            &&& keeps(state, after)
            &&& after.protected == state.protected
            &&& after.readable_base == (state.readable_base || is_base_among(
                scopes,
                platform_base,
                i,
            ))
            &&& differs_by(
                state,
                after,
                key,
                is_scope_seen(scopes, i, key),
                is_guard_seen(scopes, i, key),
                false,
                is_scope_gone(scopes, i, key),
                is_guard_gone(scopes, i, key),
            )
            &&& forall|s: int|
                i <= s < scopes.len() ==> {
                    &&& !((#[trigger] scopes[s]).decision is Undecided)
                    &&& scopes[s].observed.presence is Present && scopes[s].observed.opened is Ok
                        || scopes[s].observed.presence is Missing && missing is Skip
                    &&& is_writable_scope(scopes[s]) ==> forall|j: int|
                        0 <= j < scopes[s].read_only@.len() ==> (
                        #[trigger] scopes[s].read_only@[j]).path@.is_within(scopes[s].path@)
                }
        }),
    decreases scopes.len() - i,
{
    let after = filesystem_plan::with_scopes_from(state, scopes, platform_base, missing, i)->Ok_0;
    if i < scopes.len() {
        let next = filesystem_plan::with_scope(state, scopes[i], platform_base, missing)->Ok_0;
        scope_is_gathered(state, scopes[i], platform_base, missing, next, key);
        scopes_are_gathered_from(next, scopes, platform_base, missing, i + 1, key);
        keeping_is_transitive(state, next, after);
        scopes_unfold(scopes, platform_base, i, key);
    } else {
        nothing_changes(state);
    }
}

/// Whether a rule's scope was opened under a key.
pub open spec fn rule_scopes(rule: RuleObservation, key: Seq<u32>) -> bool {
    rule matches RuleObservation::Scope { resolved, .. } && is_scope_seen(resolved@, 0, key)
}

/// Whether a read-only path of a rule's scope was opened under a key.
pub open spec fn rule_guards(rule: RuleObservation, key: Seq<u32>) -> bool {
    rule matches RuleObservation::Scope { resolved, .. } && is_guard_seen(resolved@, 0, key)
}

/// Whether a rule's pattern matched what was opened under a key.
pub open spec fn rule_matches(rule: RuleObservation, key: Seq<u32>) -> bool {
    rule matches RuleObservation::Glob { roots, .. } && is_matched_below(roots@, 0, key)
}

/// Whether a path of a rule's scope is missing.
pub open spec fn rule_skips(rule: RuleObservation, key: Seq<u32>) -> bool {
    rule matches RuleObservation::Scope { resolved, .. } && is_scope_gone(resolved@, 0, key)
}

/// Whether a read-only path of a rule's scope is missing.
pub open spec fn rule_misses(rule: RuleObservation, key: Seq<u32>) -> bool {
    rule matches RuleObservation::Scope { resolved, .. } && is_guard_gone(resolved@, 0, key)
}

/// Whether a rule makes the platform readable.
pub open spec fn rule_is_base(rule: RuleObservation) -> bool {
    rule matches RuleObservation::Scope { resolved, platform_base, .. } && is_base_among(
        resolved@,
        platform_base,
        0,
    )
}

/// Whether a predicate holds of a rule, from the `i`th on, under a key.
spec fn any_rule(
    rules: Seq<RuleObservation>,
    i: int,
    key: Seq<u32>,
    holds: spec_fn(RuleObservation, Seq<u32>) -> bool,
) -> bool {
    exists|r: int| i <= r < rules.len() && holds(#[trigger] rules[r], key)
}

/// A predicate holds of a rule from the `i`th on where it holds of the `i`th
/// or of one behind it.
proof fn any_rule_unfolds(
    rules: Seq<RuleObservation>,
    i: int,
    key: Seq<u32>,
    holds: spec_fn(RuleObservation, Seq<u32>) -> bool,
)
    requires
        0 <= i < rules.len(),
    ensures
        any_rule(rules, i, key, holds) <==> holds(rules[i], key) || any_rule(
            rules,
            i + 1,
            key,
            holds,
        ),
{
    if any_rule(rules, i, key, holds) {
        let r = choose|r: int| i <= r < rules.len() && holds(#[trigger] rules[r], key);
    }
}

/// What a collection holds once a rule is taken in.
proof fn rule_joins(state: CollectorModel, rule: RuleObservation, key: Seq<u32>)
    requires
        state.wf(),
        filesystem_plan::with_rule(state, rule) is Ok,
    ensures
        ({
            let after = filesystem_plan::with_rule(state, rule)->Ok_0;
            &&& keeps(state, after)
            &&& after.protected == state.protected
            &&& after.readable_base == (state.readable_base || rule_is_base(rule))
            &&& differs_by(
                state,
                after,
                key,
                rule_scopes(rule, key),
                rule_guards(rule, key),
                rule_matches(rule, key),
                rule_skips(rule, key),
                rule_misses(rule, key),
            )
            &&& rule matches RuleObservation::Scope { slash_tmp, .. } ==> !slash_tmp
        }),
{
    let after = filesystem_plan::with_rule(state, rule)->Ok_0;
    match rule {
        RuleObservation::Scope { slash_tmp, platform_base, missing, resolved } => {
            scopes_are_gathered_from(state, resolved@, platform_base, missing, 0, key);
        },
        RuleObservation::Glob { pattern, roots } => {
            patterns_are_gathered_from(state, pattern@, roots@, 0, key);
            same_missing(state, after, MissingFilesystemTargetKind::SkippedScope, key);
            same_missing(state, after, MissingFilesystemTargetKind::ReadOnly, key);
            same_missing(state, after, MissingFilesystemTargetKind::Protected, key);
        },
    }
}

/// What `layer_is_gathered` says of the rules from the `i`th on.
proof fn rules_are_gathered_from(
    state: CollectorModel,
    rules: Seq<RuleObservation>,
    i: int,
    key: Seq<u32>,
)
    requires
        state.wf(),
        0 <= i <= rules.len(),
        filesystem_plan::with_rules_from(state, rules, i) is Ok,
    ensures
        ({
            let after = filesystem_plan::with_rules_from(state, rules, i)->Ok_0;
            &&& keeps(state, after)
            &&& after.protected == state.protected
            &&& after.readable_base == (state.readable_base || any_rule(
                rules,
                i,
                key,
                |rule: RuleObservation, key: Seq<u32>| rule_is_base(rule),
            ))
            &&& differs_by(
                state,
                after,
                key,
                any_rule(
                    rules,
                    i,
                    key,
                    |rule: RuleObservation, key: Seq<u32>| rule_scopes(rule, key),
                ),
                any_rule(
                    rules,
                    i,
                    key,
                    |rule: RuleObservation, key: Seq<u32>| rule_guards(rule, key),
                ),
                any_rule(
                    rules,
                    i,
                    key,
                    |rule: RuleObservation, key: Seq<u32>| rule_matches(rule, key),
                ),
                any_rule(
                    rules,
                    i,
                    key,
                    |rule: RuleObservation, key: Seq<u32>| rule_skips(rule, key),
                ),
                any_rule(
                    rules,
                    i,
                    key,
                    |rule: RuleObservation, key: Seq<u32>| rule_misses(rule, key),
                ),
            )
            &&& forall|r: int|
                i <= r < rules.len() ==> (#[trigger] rules[r] matches RuleObservation::Scope {
                    slash_tmp,
                    ..
                } ==> !slash_tmp)
        }),
    decreases rules.len() - i,
{
    let after = filesystem_plan::with_rules_from(state, rules, i)->Ok_0;
    if i < rules.len() {
        let next = filesystem_plan::with_rule(state, rules[i])->Ok_0;
        rule_joins(state, rules[i], key);
        rules_are_gathered_from(next, rules, i + 1, key);
        keeping_is_transitive(state, next, after);
        any_rule_unfolds(
            rules,
            i,
            key,
            |rule: RuleObservation, key: Seq<u32>| rule_is_base(rule),
        );
        any_rule_unfolds(
            rules,
            i,
            key,
            |rule: RuleObservation, key: Seq<u32>| rule_scopes(rule, key),
        );
        any_rule_unfolds(
            rules,
            i,
            key,
            |rule: RuleObservation, key: Seq<u32>| rule_guards(rule, key),
        );
        any_rule_unfolds(
            rules,
            i,
            key,
            |rule: RuleObservation, key: Seq<u32>| rule_matches(rule, key),
        );
        any_rule_unfolds(
            rules,
            i,
            key,
            |rule: RuleObservation, key: Seq<u32>| rule_skips(rule, key),
        );
        any_rule_unfolds(
            rules,
            i,
            key,
            |rule: RuleObservation, key: Seq<u32>| rule_misses(rule, key),
        );
    } else {
        nothing_changes(state);
    }
}

/// What a collection holds once protected relative paths are taken in.
proof fn protected_names_join(
    state: CollectorModel,
    paths: Seq<native_path::NativePath>,
    i: int,
    key: Seq<u32>,
)
    requires
        state.wf(),
        0 <= i <= paths.len(),
    ensures
        ({
            let after = state.with_protected_from(paths, i);
            &&& after == (CollectorModel { protected: after.protected, ..state })
            &&& after.wf()
            &&& native_path::path_keys(after.protected).contains(key) <==> native_path::path_keys(
                state.protected,
            ).contains(key) || exists|j: int|
                i <= j < paths.len() && (#[trigger] paths[j])@.key() == key
        }),
    decreases paths.len() - i,
{
    if i < paths.len() {
        let keys = native_path::path_keys(state.protected);
        let own = paths[i]@.key();
        let next = state.with_protected(paths[i]@);
        ordering::slot_divides(keys, own);
        ordering::key_joins(keys, own, key);
        assert(native_path::path_keys(next.protected) =~= ordering::with_key(keys, own));
        protected_names_join(next, paths, i + 1, key);
        let after = state.with_protected_from(paths, i);
        assert(after == next.with_protected_from(paths, i + 1));
        assert((exists|j: int| i <= j < paths.len() && (#[trigger] paths[j])@.key() == key)
            <==> own == key || (exists|j: int|
            i + 1 <= j < paths.len() && (#[trigger] paths[j])@.key() == key)) by {
            if exists|j: int| i <= j < paths.len() && (#[trigger] paths[j])@.key() == key {
                let j = choose|j: int| i <= j < paths.len() && (#[trigger] paths[j])@.key() == key;
            }
            if own == key {
                assert(paths[i]@.key() == key);
            }
        }
    }
}

/// Once a policy layer is collected, this process enforces it. The collection
/// holds what it held and what the layer's rules observed, each with where it comes
/// from, and the layer's protected relative paths. Nothing else changes.
pub proof fn layer_is_gathered(
    state: CollectorModel,
    layer: LayerObservation,
    after: CollectorModel,
    key: Seq<u32>,
)
    requires
        state.wf(),
        filesystem_plan::with_layer(state, layer) == Ok::<
            CollectorModel,
            FilesystemPlanError<PathModel>,
        >(after),
    ensures
        !layer.external,
        forall|r: int|
            0 <= r < layer.rules@.len() ==> (
            #[trigger] layer.rules@[r] matches RuleObservation::Scope { slash_tmp, .. }
                ==> !slash_tmp),
        is_target(after, key) <==> is_target(state, key) || exists|r: int|
            0 <= r < layer.rules@.len() && (rule_scopes(#[trigger] layer.rules@[r], key)
                || rule_guards(layer.rules@[r], key) || rule_matches(layer.rules@[r], key)),
        origins_at(after, key).scope <==> origins_at(state, key).scope || exists|r: int|
            0 <= r < layer.rules@.len() && rule_scopes(#[trigger] layer.rules@[r], key),
        origins_at(after, key).read_only <==> origins_at(state, key).read_only || exists|r: int|
            0 <= r < layer.rules@.len() && rule_guards(#[trigger] layer.rules@[r], key),
        origins_at(after, key).glob <==> origins_at(state, key).glob || exists|r: int|
            0 <= r < layer.rules@.len() && rule_matches(#[trigger] layer.rules@[r], key),
        origins_at(after, key).protected == origins_at(state, key).protected,
        is_missing(after, MissingFilesystemTargetKind::SkippedScope, key) <==> is_missing(
            state,
            MissingFilesystemTargetKind::SkippedScope,
            key,
        ) || exists|r: int|
            0 <= r < layer.rules@.len() && rule_skips(#[trigger] layer.rules@[r], key),
        is_missing(after, MissingFilesystemTargetKind::ReadOnly, key) <==> is_missing(
            state,
            MissingFilesystemTargetKind::ReadOnly,
            key,
        ) || exists|r: int|
            0 <= r < layer.rules@.len() && rule_misses(#[trigger] layer.rules@[r], key),
        native_path::path_keys(after.protected).contains(key) <==> native_path::path_keys(
            state.protected,
        ).contains(key) || exists|j: int|
            0 <= j < layer.protected_relative_paths@.len() && (
            #[trigger] layer.protected_relative_paths@[j])@.key() == key,
        after.readable_base <==> state.readable_base || exists|r: int|
            0 <= r < layer.rules@.len() && rule_is_base(#[trigger] layer.rules@[r]),
        after.wf(),
        after.bounded == state.bounded,
{
    let names = layer.protected_relative_paths@;
    let rules = layer.rules@;
    let named = state.with_protected_from(names, 0);
    protected_names_join(state, names, 0, key);
    same_targets(state, named, key);
    same_missing(state, named, MissingFilesystemTargetKind::SkippedScope, key);
    same_missing(state, named, MissingFilesystemTargetKind::ReadOnly, key);
    rules_are_gathered_from(named, rules, 0, key);
    let scoped = any_rule(
        rules,
        0,
        key,
        |rule: RuleObservation, key: Seq<u32>| rule_scopes(rule, key),
    );
    let guarded = any_rule(
        rules,
        0,
        key,
        |rule: RuleObservation, key: Seq<u32>| rule_guards(rule, key),
    );
    let matched = any_rule(
        rules,
        0,
        key,
        |rule: RuleObservation, key: Seq<u32>| rule_matches(rule, key),
    );
    assert(scoped || guarded || matched <==> exists|r: int|
        0 <= r < rules.len() && (rule_scopes(#[trigger] rules[r], key) || rule_guards(
            rules[r],
            key,
        ) || rule_matches(rules[r], key))) by {
        if exists|r: int|
            0 <= r < rules.len() && (rule_scopes(#[trigger] rules[r], key) || rule_guards(
                rules[r],
                key,
            ) || rule_matches(rules[r], key)) {
            let r = choose|r: int|
                0 <= r < rules.len() && (rule_scopes(#[trigger] rules[r], key) || rule_guards(
                    rules[r],
                    key,
                ) || rule_matches(rules[r], key));
        }
    }
}

/// A finished plan has the gathered targets, one for one and where each was
/// opened again. A target that the policy denies is denied, one that it lets be
/// written is a writable root, and one that it lets be read is read-only below a
/// writable one and a readable root elsewhere. The missing paths are those that
/// were gathered, and the anchor is a target that may at least be read.
pub proof fn plans_enforce_the_policy(
    state: CollectorModel,
    facts: ClassificationFacts,
    plan: PlanModel,
    i: int,
)
    requires
        facts.decisions@.len() == state.targets.len(),
        facts.reopened@.len() == state.targets.len(),
        filesystem_plan::finished(state, facts) == Ok::<PlanModel, FilesystemPlanError<PathModel>>(
            plan,
        ),
        0 <= i < state.targets.len(),
    ensures
        plan.targets.len() == state.targets.len(),
        facts.reopened@[i] matches Ok(path) && plan.targets[i].path == path@,
        plan.targets[i].origins == state.targets[i].origins,
        plan.targets[i].access is Deny <==> facts.decisions@[i] is Deny,
        plan.targets[i].access is WriteRoot <==> facts.decisions@[i] is Write,
        plan.targets[i].access is ReadOnly <==> facts.decisions@[i] is Read && exists|j: int|
            0 <= j < state.targets.len() && facts.decisions@[j] is Write
                && state.targets[i].path.is_within((#[trigger] state.targets[j]).path),
        plan.targets[i].access is ReadRoot ==> facts.decisions@[i] is Read,
        facts.decisions@[i] is Write ==> !state.targets[i].origins.read_only
            && !state.targets[i].origins.protected,
        plan.missing == state.missing,
        exists|k: int|
            0 <= k < plan.targets.len() && (#[trigger] plan.targets[k]).path == plan.anchor && (
            plan.targets[k].access is ReadRoot || plan.targets[k].access is WriteRoot),
{
    filesystem_plan::decided_targets(state.targets, facts.decisions@, facts.reopened@, i);
    let targets = filesystem_plan::classification(
        state.targets,
        facts.decisions@,
        facts.reopened@,
    );
    assert(plan.targets == targets);
    if exists|j: int|
        0 <= j < state.targets.len() && facts.decisions@[j] is Write
            && state.targets[i].path.is_within((#[trigger] state.targets[j]).path) {
        let j = choose|j: int|
            0 <= j < state.targets.len() && facts.decisions@[j] is Write
                && state.targets[i].path.is_within((#[trigger] state.targets[j]).path);
        assert(filesystem_plan::below_write_root(state.targets, facts.decisions@, i, j));
    }
    if exists|j: int| filesystem_plan::below_write_root(state.targets, facts.decisions@, i, j) {
        let j = choose|j: int|
            filesystem_plan::below_write_root(state.targets, facts.decisions@, i, j);
        assert(state.targets[i].path.is_within(state.targets[j].path));
    }
    first_root_is_readable(targets, 0);
}

/// The first root of a list is one of its targets that may be read.
proof fn first_root_is_readable(targets: Seq<PlannedModel>, i: int)
    requires
        0 <= i <= targets.len(),
        filesystem_plan::first_root_from(targets, i) is Some,
    ensures
        exists|k: int|
            i <= k < targets.len() && Some((#[trigger] targets[k]).path)
                == filesystem_plan::first_root_from(targets, i) && (targets[k].access is ReadRoot
                || targets[k].access is WriteRoot),
    decreases targets.len() - i,
{
    if i < targets.len() && !filesystem_plan::is_root_access(targets[i].access) {
        first_root_is_readable(targets, i + 1);
        let k = choose|k: int|
            i + 1 <= k < targets.len() && Some((#[trigger] targets[k]).path)
                == filesystem_plan::first_root_from(targets, i + 1) && (targets[k].access
                is ReadRoot || targets[k].access is WriteRoot);
        assert(Some(targets[k].path) == filesystem_plan::first_root_from(targets, i));
    } else {
        assert(Some(targets[i].path) == filesystem_plan::first_root_from(targets, i));
    }
}

} // verus!
