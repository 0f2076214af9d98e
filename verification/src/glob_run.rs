//! What a whole search for the matches of a deny pattern finds: every match
//! within its bound, once and in order.

use vstd::prelude::*;

use crate::glob_scan;
use crate::glob_scan::{EntryModel, ScanEntry, ScanModel};
use crate::native_path;
use crate::native_path::PathModel;
use crate::ordering;

verus! {

/// What every directory holds while a search runs.
pub type Tree = spec_fn(PathModel) -> Seq<ScanEntry>;

/// Whether a search reads what an object holds.
pub open spec fn is_read(bound: Option<u64>, entry: EntryModel) -> bool {
    entry.directory && glob_scan::within_bound(bound, entry.depth)
}

/// Whether a directory holds an object, one level below it.
pub open spec fn holds(tree: Tree, entry: EntryModel, child: EntryModel) -> bool {
    exists|i: int|
        0 <= i < tree(entry.path).len() && (#[trigger] tree(entry.path)[i]).at(
            glob_scan::below(entry.depth),
        ) == child
}

/// Whether objects lead from a root down to the last of them: each is held by
/// the one before it, which is read.
pub open spec fn leads_down(
    tree: Tree,
    bound: Option<u64>,
    root: EntryModel,
    chain: Seq<EntryModel>,
) -> bool
    decreases chain.len(),
{
    if chain.len() == 0 {
        false
    } else if chain.len() == 1 {
        chain[0] == root
    } else {
        let before = chain.drop_last();
        &&& leads_down(tree, bound, root, before)
        &&& is_read(bound, before.last())
        &&& holds(tree, before.last(), chain.last())
    }
}

/// Whether an object lies within the bound of a search.
pub open spec fn is_reached(
    tree: Tree,
    bound: Option<u64>,
    root: EntryModel,
    entry: EntryModel,
) -> bool {
    exists|chain: Seq<EntryModel>| #[trigger]
        leads_down(tree, bound, root, chain) && chain.last() == entry
}

/// Whether a path is that of a match within the bound of a search.
pub open spec fn is_match(
    tree: Tree,
    bound: Option<u64>,
    root: EntryModel,
    path: PathModel,
) -> bool {
    exists|entry: EntryModel| #[trigger]
        is_reached(tree, bound, root, entry) && entry.matches && entry.path == path
}

/// Whether a search comes from one state to another by reading its next
/// directory.
pub open spec fn reads(tree: Tree, before: ScanModel, after: ScanModel) -> bool {
    match glob_scan::next_directory(before) {
        Ok((between, Some(path))) => glob_scan::takes_in(between, tree(path), after),
        _ => false,
    }
}

/// Whether the `i`th state of a search leads to the next one.
pub open spec fn goes_on(tree: Tree, states: Seq<ScanModel>, i: int) -> bool {
    reads(tree, states[i], states[i + 1])
}

/// Whether states are a whole search below a root, from its start until it is
/// over, with what it comes to.
pub open spec fn is_search(
    tree: Tree,
    bound: Option<u64>,
    root: EntryModel,
    states: Seq<ScanModel>,
    end: ScanModel,
) -> bool {
    &&& states.len() > 0
    &&& states[0] == (ScanModel { bound, stack: seq![root], found: Seq::empty(), depth: 0 })
    &&& forall|i: int| 0 <= i < states.len() - 1 ==> #[trigger] goes_on(tree, states, i)
    &&& glob_scan::next_directory(states.last()) == Ok::<
        (ScanModel, Option<PathModel>),
        PathModel,
    >((end, None))
}

/// What holds of every state of a search, where some objects were visited: it
/// visits what lies within the bound alone; what an object holds that was
/// visited and is read, but for one, was visited or is to be; and every match
/// that was visited was found, in order and once each.
spec fn keeps_track(
    tree: Tree,
    bound: Option<u64>,
    root: EntryModel,
    visited: Set<EntryModel>,
    but: Option<EntryModel>,
    state: ScanModel,
) -> bool {
    &&& state.bound == bound
    &&& ordering::strictly_ascending(native_path::path_keys(state.found))
    &&& visited.contains(root) || state.stack.contains(root)
    &&& forall|entry: EntryModel| #[trigger]
        state.stack.contains(entry) ==> is_reached(tree, bound, root, entry)
    &&& forall|entry: EntryModel| #[trigger]
        visited.contains(entry) ==> {
            &&& is_reached(tree, bound, root, entry)
            &&& !entry.reparse
            &&& entry.matches ==> native_path::path_keys(state.found).contains(entry.path.key())
        }
    &&& forall|entry: EntryModel, child: EntryModel|
        #![trigger visited.contains(entry), holds(tree, entry, child)]
        visited.contains(entry) && is_read(bound, entry) && but != Some(entry) && holds(
            tree,
            entry,
            child,
        ) ==> visited.contains(child) || state.stack.contains(child)
    &&& forall|path: PathModel| #[trigger]
        state.found.contains(path) ==> is_match(tree, bound, root, path)
}

/// What paths hold once one more is taken in.
proof fn path_joins(paths: Seq<PathModel>, own: PathModel, key: Seq<u32>, path: PathModel)
    requires
        ordering::strictly_ascending(native_path::path_keys(paths)),
    ensures
        ordering::strictly_ascending(native_path::path_keys(native_path::with_path(paths, own))),
        native_path::path_keys(native_path::with_path(paths, own)).contains(key)
            <==> native_path::path_keys(paths).contains(key) || key == own.key(),
        native_path::with_path(paths, own).contains(path) ==> paths.contains(path) || path == own,
{
    let keys = native_path::path_keys(paths);
    let more = native_path::with_path(paths, own);
    let at = ordering::slot(keys, own.key());
    ordering::slot_divides(keys, own.key());
    ordering::key_joins(keys, own.key(), key);
    assert(native_path::path_keys(more) =~= ordering::with_key(keys, own.key()));
    if more.contains(path) && path != own {
        let i = choose|i: int| 0 <= i < more.len() && more[i] == path;
        if !ordering::is_present(keys, own.key()) {
            assert(paths[if i < at {
                i
            } else {
                i - 1
            }] == path);
        }
    }
}

/// What a search holds once it visited one object that does not stand for
/// another.
spec fn after_visit(state: ScanModel) -> ScanModel {
    let entry = state.stack.last();
    ScanModel {
        stack: state.stack.drop_last(),
        found: if entry.matches {
            native_path::with_path(state.found, entry.path)
        } else {
            state.found
        },
        ..state
    }
}

/// Visiting an object keeps track, but for what the object holds.
proof fn visit_keeps_track(
    tree: Tree,
    bound: Option<u64>,
    root: EntryModel,
    visited: Set<EntryModel>,
    state: ScanModel,
)
    requires
        keeps_track(tree, bound, root, visited, None, state),
        state.stack.len() > 0,
        !state.stack.last().reparse,
    ensures
        keeps_track(
            tree,
            bound,
            root,
            visited.insert(state.stack.last()),
            Some(state.stack.last()),
            after_visit(state),
        ),
{
    let entry = state.stack.last();
    let after = after_visit(state);
    let more = visited.insert(entry);
    assert(state.stack[state.stack.len() - 1] == entry);
    assert(state.stack.contains(entry));
    assert forall|other: EntryModel| state.stack.contains(other) implies other == entry
        || #[trigger] after.stack.contains(other) by {
        let i = choose|i: int| 0 <= i < state.stack.len() && state.stack[i] == other;
        if i < state.stack.len() - 1 {
            assert(after.stack[i] == other);
        }
    }
    assert forall|other: EntryModel| #[trigger] after.stack.contains(
        other,
    ) implies state.stack.contains(other) by {
        let i = choose|i: int| 0 <= i < after.stack.len() && after.stack[i] == other;
        assert(state.stack[i] == other);
    }
    path_joins(state.found, entry.path, entry.path.key(), entry.path);
    assert forall|other: EntryModel| #[trigger] more.contains(other) implies {
        &&& is_reached(tree, bound, root, other)
        &&& !other.reparse
        &&& other.matches ==> native_path::path_keys(after.found).contains(other.path.key())
    } by {
        path_joins(state.found, entry.path, other.path.key(), entry.path);
        if visited.contains(other) {
            assert(other.matches ==> native_path::path_keys(state.found).contains(
                other.path.key(),
            ));
        }
    }
    assert forall|other: EntryModel, child: EntryModel|
        #![trigger more.contains(other), holds(tree, other, child)]
        more.contains(other) && is_read(bound, other) && Some(entry) != Some(other) && holds(
            tree,
            other,
            child,
        ) implies more.contains(child) || after.stack.contains(child) by {
        assert(visited.contains(other));
        assert(visited.contains(child) || state.stack.contains(child));
    }
    assert forall|path: PathModel| #[trigger] after.found.contains(path) implies is_match(
        tree,
        bound,
        root,
        path,
    ) by {
        path_joins(state.found, entry.path, entry.path.key(), path);
        if !state.found.contains(path) {
            assert(is_reached(tree, bound, root, entry));
            assert(entry.path == path);
        }
    }
}

/// Going on to the next directory keeps track, but for what that directory
/// holds. Gives back what was visited by then and the directory.
proof fn next_keeps_track(
    tree: Tree,
    bound: Option<u64>,
    root: EntryModel,
    visited: Set<EntryModel>,
    state: ScanModel,
) -> (now: (Set<EntryModel>, EntryModel))
    requires
        keeps_track(tree, bound, root, visited, None, state),
    ensures
        match glob_scan::next_directory(state) {
            Ok((between, None)) => between.stack.len() == 0 && keeps_track(
                tree,
                bound,
                root,
                now.0,
                None,
                between,
            ),
            Ok((between, Some(path))) => {
                &&& keeps_track(tree, bound, root, now.0, Some(now.1), between)
                &&& now.0.contains(now.1)
                &&& is_read(bound, now.1)
                &&& now.1.path == path
                &&& now.1.depth == between.depth
            },
            Err(_) => true,
        },
    decreases state.stack.len(),
{
    if state.stack.len() == 0 {
        (visited, root)
    } else {
        let entry = state.stack.last();
        let more = visited.insert(entry);
        let after = after_visit(state);
        if entry.reparse {
            (visited, root)
        } else {
            visit_keeps_track(tree, bound, root, visited, state);
            if is_read(bound, entry) {
                let between = ScanModel { depth: entry.depth, ..after };
                assert(keeps_track(tree, bound, root, more, Some(entry), between));
                (more, entry)
            } else {
                assert(keeps_track(tree, bound, root, more, None, after));
                next_keeps_track(tree, bound, root, more, after)
            }
        }
    }
}

/// What a directory holds that is read lies within the bound.
proof fn held_is_reached(
    tree: Tree,
    bound: Option<u64>,
    root: EntryModel,
    entry: EntryModel,
    child: EntryModel,
)
    requires
        is_reached(tree, bound, root, entry),
        is_read(bound, entry),
        holds(tree, entry, child),
    ensures
        is_reached(tree, bound, root, child),
{
    let above = choose|chain: Seq<EntryModel>| #[trigger]
        leads_down(tree, bound, root, chain) && chain.last() == entry;
    let chain = above.push(child);
    assert(chain.drop_last() =~= above);
    assert(leads_down(tree, bound, root, chain));
    assert(chain.last() == child);
}

/// Taking in what a directory holds keeps track.
proof fn taking_in_keeps_track(
    tree: Tree,
    bound: Option<u64>,
    root: EntryModel,
    visited: Set<EntryModel>,
    entry: EntryModel,
    between: ScanModel,
    after: ScanModel,
)
    requires
        keeps_track(tree, bound, root, visited, Some(entry), between),
        visited.contains(entry),
        is_read(bound, entry),
        entry.depth == between.depth,
        glob_scan::takes_in(between, tree(entry.path), after),
    ensures
        keeps_track(tree, bound, root, visited, None, after),
{
    let children = tree(entry.path);
    let keys = glob_scan::entry_keys(children);
    let depth = glob_scan::below(between.depth);
    let positions = choose|positions: Seq<usize>|
        {
            &&& #[trigger] ordering::ascending(positions, keys)
            &&& after == (ScanModel {
                stack: between.stack + glob_scan::reversed_at(children, positions, depth),
                ..between
            })
        };
    let added = glob_scan::reversed_at(children, positions, depth);
    assert forall|other: EntryModel| between.stack.contains(
        other,
    ) implies #[trigger] after.stack.contains(other) by {
        let i = choose|i: int| 0 <= i < between.stack.len() && between.stack[i] == other;
        assert(after.stack[i] == other);
    }
    assert forall|child: EntryModel| holds(tree, entry, child) implies #[trigger] after.stack.contains(
        child,
    ) by {
        let k = choose|k: int|
            0 <= k < tree(entry.path).len() && (#[trigger] tree(entry.path)[k]).at(
                glob_scan::below(entry.depth),
            ) == child;
        ordering::every_position_is_visited(positions, keys, k);
        let i = choose|i: int| 0 <= i < positions.len() && #[trigger] positions[i] == k;
        let j = positions.len() - 1 - i;
        assert(added[j] == child);
        assert(after.stack[between.stack.len() + j] == child);
    }
    assert forall|other: EntryModel| #[trigger] after.stack.contains(other) implies is_reached(
        tree,
        bound,
        root,
        other,
    ) by {
        let i = choose|i: int| 0 <= i < after.stack.len() && after.stack[i] == other;
        if i < between.stack.len() {
            assert(between.stack[i] == other);
            assert(between.stack.contains(other));
        } else {
            let j = i - between.stack.len();
            assert(added[j] == other);
            let k = positions[positions.len() - 1 - j] as int;
            assert(positions[positions.len() - 1 - j] < keys.len());
            assert(children[k].at(depth) == other);
            assert(holds(tree, entry, other));
            held_is_reached(tree, bound, root, entry, other);
        }
    }
}

/// A search that is over visited everything within its bound.
proof fn everything_was_visited(
    tree: Tree,
    bound: Option<u64>,
    root: EntryModel,
    visited: Set<EntryModel>,
    state: ScanModel,
    chain: Seq<EntryModel>,
)
    requires
        keeps_track(tree, bound, root, visited, None, state),
        state.stack.len() == 0,
        leads_down(tree, bound, root, chain),
    ensures
        visited.contains(chain.last()),
    decreases chain.len(),
{
    if chain.len() > 1 {
        let before = chain.drop_last();
        everything_was_visited(tree, bound, root, visited, state, before);
        assert(holds(tree, before.last(), chain.last()));
    }
}

/// A search that keeps track in its `i`th state keeps track to its end. Gives
/// back what was visited by then.
proof fn search_keeps_track(
    tree: Tree,
    bound: Option<u64>,
    root: EntryModel,
    states: Seq<ScanModel>,
    end: ScanModel,
    i: int,
    visited: Set<EntryModel>,
) -> (all: Set<EntryModel>)
    requires
        is_search(tree, bound, root, states, end),
        0 <= i < states.len(),
        keeps_track(tree, bound, root, visited, None, states[i]),
    ensures
        keeps_track(tree, bound, root, all, None, end),
        end.stack.len() == 0,
    decreases states.len() - i,
{
    let (now, entry) = next_keeps_track(tree, bound, root, visited, states[i]);
    if i == states.len() - 1 {
        now
    } else {
        assert(goes_on(tree, states, i));
        let between = glob_scan::next_directory(states[i])->Ok_0.0;
        taking_in_keeps_track(tree, bound, root, now, entry, between, states[i + 1]);
        search_keeps_track(tree, bound, root, states, end, i + 1, now)
    }
}

/// A whole search finds exactly the matches within its bound, in the order of
/// their paths and each path once, of whose spellings the first one met is
/// kept; and nothing within the bound stands for another object.
pub proof fn search_finds_every_match(
    tree: Tree,
    bound: Option<u64>,
    root: EntryModel,
    states: Seq<ScanModel>,
    end: ScanModel,
)
    requires
        is_search(tree, bound, root, states, end),
    ensures
        ordering::strictly_ascending(native_path::path_keys(end.found)),
        forall|path: PathModel| #[trigger]
            end.found.contains(path) ==> is_match(tree, bound, root, path),
        forall|path: PathModel| #[trigger]
            is_match(tree, bound, root, path) ==> native_path::path_keys(end.found).contains(
                path.key(),
            ),
        forall|entry: EntryModel| #[trigger]
            is_reached(tree, bound, root, entry) ==> !entry.reparse,
{
    let first = states[0];
    let none = Set::<EntryModel>::empty();
    assert(first.stack[0] == root);
    assert(first.stack.contains(root));
    assert(leads_down(tree, bound, root, seq![root]));
    assert(is_reached(tree, bound, root, root)) by {
        assert(seq![root].last() == root);
    }
    assert(keeps_track(tree, bound, root, none, None, first));
    let all = search_keeps_track(tree, bound, root, states, end, 0, none);
    assert forall|entry: EntryModel| #[trigger] is_reached(
        tree,
        bound,
        root,
        entry,
    ) implies all.contains(entry) && !entry.reparse by {
        let chain = choose|chain: Seq<EntryModel>| #[trigger]
            leads_down(tree, bound, root, chain) && chain.last() == entry;
        everything_was_visited(tree, bound, root, all, end, chain);
    }
    assert forall|path: PathModel| #[trigger] is_match(
        tree,
        bound,
        root,
        path,
    ) implies native_path::path_keys(end.found).contains(path.key()) by {
        let entry = choose|entry: EntryModel| #[trigger]
            is_reached(tree, bound, root, entry) && entry.matches && entry.path == path;
        assert(all.contains(entry));
    }
}

} // verus!
