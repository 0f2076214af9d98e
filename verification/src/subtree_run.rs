//! What a whole search for what exists below a directory finds: everything
//! below it that is not left out, and each of it once.

use vstd::prelude::*;

use crate::acl_error::AclErrorModel;
use crate::filesystem_path;
use crate::native_path::PathModel;
use crate::ordering;
use crate::subtree_scan;
use crate::subtree_scan::{DirectoryListing, FoundModel, ListedObject, ObjectFacts, ScanModel};

verus! {

/// The object at a position of a listing that a search keeps: one that is
/// there, is not left out and does not stand for another.
pub open spec fn kept_at(
    listed: Seq<Result<ListedObject, i32>>,
    excluded: Seq<PathModel>,
    i: int,
) -> Option<FoundModel> {
    if 0 <= i < listed.len() {
        match listed[i] {
            Ok(object) => match object.facts {
                ObjectFacts::Seen { attributes, is_directory } => if !subtree_scan::is_excluded(
                    object.path@,
                    excluded,
                ) && !filesystem_path::is_reparse_point(attributes) {
                    Some(FoundModel { path: object.path@, is_directory })
                } else {
                    None
                },
                _ => None,
            },
            Err(_) => None,
        }
    } else {
        None
    }
}

/// Whether a directory lists an object that a search keeps.
pub open spec fn lists(
    listing: DirectoryListing,
    excluded: Seq<PathModel>,
    item: FoundModel,
) -> bool {
    listing matches DirectoryListing::Listed(listed) && exists|i: int| #[trigger]
        kept_at(listed@, excluded, i) == Some(item)
}

/// How every directory is read while a search runs.
pub type Tree = spec_fn(PathModel) -> DirectoryListing;

/// Whether objects lead from a root down to the last of them: each is listed by
/// the directory before it, the first one by the root.
pub open spec fn leads_down(
    tree: Tree,
    excluded: Seq<PathModel>,
    root: PathModel,
    chain: Seq<FoundModel>,
) -> bool
    decreases chain.len(),
{
    if chain.len() == 0 {
        false
    } else if chain.len() == 1 {
        lists(tree(root), excluded, chain[0])
    } else {
        let before = chain.drop_last();
        &&& leads_down(tree, excluded, root, before)
        &&& before.last().is_directory
        &&& lists(tree(before.last().path), excluded, chain.last())
    }
}

/// Whether an object exists below a root, with nothing left out on the way to
/// it.
pub open spec fn is_below(
    tree: Tree,
    excluded: Seq<PathModel>,
    root: PathModel,
    item: FoundModel,
) -> bool {
    exists|chain: Seq<FoundModel>| #[trigger]
        leads_down(tree, excluded, root, chain) && chain.last() == item
}

/// Whether a search comes from one state to another by reading its next
/// directory.
pub open spec fn reads(tree: Tree, before: ScanModel, after: ScanModel) -> bool {
    &&& before.pending.len() > 0
    &&& subtree_scan::takes_in(
        ScanModel { pending: before.pending.drop_last(), ..before },
        before.pending.last(),
        tree(before.pending.last()),
        after,
    )
}

/// Whether the `i`th state of a search leads to the next one.
pub open spec fn goes_on(tree: Tree, states: Seq<ScanModel>, i: int) -> bool {
    reads(tree, states[i], states[i + 1])
}

/// Whether states are a whole search below a directory, from its start until
/// no directory is left.
pub open spec fn is_search(
    tree: Tree,
    excluded: Seq<PathModel>,
    root: PathModel,
    states: Seq<ScanModel>,
) -> bool {
    &&& states.len() > 0
    &&& states[0] == (ScanModel { excluded, pending: seq![root], found: Seq::empty() })
    &&& forall|i: int| 0 <= i < states.len() - 1 ==> #[trigger] goes_on(tree, states, i)
    &&& states.last().pending.len() == 0
}

/// A list in descending order holds what it was made of.
proof fn descending_holds_the_same(sorted: Seq<FoundModel>, all: Seq<FoundModel>, item: FoundModel)
    requires
        subtree_scan::is_descending(sorted, all),
    ensures
        sorted.len() == all.len(),
        sorted.contains(item) <==> all.contains(item),
{
    let keys = subtree_scan::found_keys(all);
    let positions = choose|positions: Seq<usize>|
        {
            &&& #[trigger] ordering::ascending(positions, keys)
            &&& sorted == Seq::new(all.len(), |i: int| all[positions[all.len() - 1 - i] as int])
        };
    if sorted.contains(item) {
        let i = choose|i: int| 0 <= i < sorted.len() && sorted[i] == item;
        assert(positions[all.len() - 1 - i] < keys.len());
        assert(all[positions[all.len() - 1 - i] as int] == item);
    }
    if all.contains(item) {
        let k = choose|k: int| 0 <= k < all.len() && all[k] == item;
        ordering::every_position_is_visited(positions, keys, k);
        let i = choose|i: int| 0 <= i < positions.len() && #[trigger] positions[i] == k;
        assert(sorted[all.len() - 1 - i] == item);
    }
}

/// A list in ascending order holds what it was made of.
proof fn ascending_holds_the_same(sorted: Seq<FoundModel>, all: Seq<FoundModel>, item: FoundModel)
    requires
        subtree_scan::is_ascending(sorted, all),
    ensures
        sorted.len() == all.len(),
        sorted.contains(item) <==> all.contains(item),
{
    let keys = subtree_scan::found_keys(all);
    let positions = choose|positions: Seq<usize>|
        {
            &&& #[trigger] ordering::ascending(positions, keys)
            &&& sorted == Seq::new(all.len(), |i: int| all[positions[i] as int])
        };
    if sorted.contains(item) {
        let i = choose|i: int| 0 <= i < sorted.len() && sorted[i] == item;
        assert(positions[i] < keys.len());
        assert(all[positions[i] as int] == item);
    }
    if all.contains(item) {
        let k = choose|k: int| 0 <= k < all.len() && all[k] == item;
        ordering::every_position_is_visited(positions, keys, k);
        let i = choose|i: int| 0 <= i < positions.len() && #[trigger] positions[i] == k;
        assert(sorted[i] == item);
    }
}

/// The paths of directories are those of the objects that are directories.
proof fn directories_hold(found: Seq<FoundModel>, path: PathModel)
    ensures
        subtree_scan::directories(found).contains(path) <==> found.contains(
            FoundModel { path, is_directory: true },
        ),
    decreases found.len(),
{
    let item = FoundModel { path, is_directory: true };
    let whole = subtree_scan::directories(found);
    if found.len() > 0 {
        let before = found.drop_last();
        let rest = subtree_scan::directories(before);
        directories_hold(before, path);
        if found.contains(item) {
            let i = choose|i: int| 0 <= i < found.len() && found[i] == item;
            if i < before.len() {
                assert(before[i] == item);
                let j = choose|j: int| 0 <= j < rest.len() && rest[j] == path;
                assert(whole[j] == path);
            } else {
                assert(whole[rest.len() as int] == path);
            }
        }
        if whole.contains(path) {
            let j = choose|j: int| 0 <= j < whole.len() && whole[j] == path;
            if j < rest.len() {
                assert(rest[j] == path);
                let i = choose|i: int| 0 <= i < before.len() && before[i] == item;
                assert(found[i] == item);
            } else {
                assert(found[found.len() - 1] == item);
            }
        }
    }
}

/// What is kept of a listing, from the `i`th object on, is what was kept before
/// and what is kept at the positions from there on.
proof fn kept_is_what_is_listed(
    parent: PathModel,
    listed: Seq<Result<ListedObject, i32>>,
    excluded: Seq<PathModel>,
    kept: Seq<FoundModel>,
    i: int,
    children: Seq<FoundModel>,
    item: FoundModel,
)
    requires
        0 <= i <= listed.len(),
        subtree_scan::kept_children_from(parent, listed, excluded, kept, i) == Ok::<
            Seq<FoundModel>,
            AclErrorModel,
        >(children),
    ensures
        children.contains(item) <==> kept.contains(item) || exists|j: int|
            i <= j && #[trigger] kept_at(listed, excluded, j) == Some(item),
    decreases listed.len() - i,
{
    if i < listed.len() {
        match kept_at(listed, excluded, i) {
            Some(own) => {
                let more = kept.push(own);
                kept_is_what_is_listed(parent, listed, excluded, more, i + 1, children, item);
                assert(more[kept.len() as int] == own);
                if kept.contains(item) {
                    let k = choose|k: int| 0 <= k < kept.len() && kept[k] == item;
                    assert(more[k] == item);
                }
                if more.contains(item) && item != own {
                    let k = choose|k: int| 0 <= k < more.len() && more[k] == item;
                    assert(kept[k] == item);
                }
            },
            None => {
                kept_is_what_is_listed(parent, listed, excluded, kept, i + 1, children, item);
            },
        }
        if exists|j: int| i <= j && #[trigger] kept_at(listed, excluded, j) == Some(item) {
            let j = choose|j: int| i <= j && #[trigger] kept_at(listed, excluded, j) == Some(item);
            if j > i {
                assert(i + 1 <= j);
            }
        }
    }
}

/// What a search holds more after a directory was read: what the directory
/// lists, and of that the directories to read.
proof fn read_adds(tree: Tree, before: ScanModel, after: ScanModel, item: FoundModel)
    requires
        reads(tree, before, after),
    ensures
        ({
            let directory = before.pending.last();
            let rest = before.pending.drop_last();
            &&& after.excluded == before.excluded
            &&& after.found.contains(item) <==> before.found.contains(item) || lists(
                tree(directory),
                before.excluded,
                item,
            )
            &&& after.pending.contains(item.path) <==> rest.contains(item.path) || lists(
                tree(directory),
                before.excluded,
                FoundModel { path: item.path, is_directory: true },
            )
        }),
{
    let directory = before.pending.last();
    let rest = before.pending.drop_last();
    let folder = FoundModel { path: item.path, is_directory: true };
    match tree(directory) {
        DirectoryListing::Missing => {},
        DirectoryListing::Failed { .. } => {},
        DirectoryListing::Listed(objects) => {
            let listed = objects@;
            let children = subtree_scan::kept_children_from(
                directory,
                listed,
                before.excluded,
                Seq::empty(),
                0,
            )->Ok_0;
            let sorted = choose|sorted: Seq<FoundModel>|
                {
                    &&& #[trigger] subtree_scan::is_descending(sorted, children)
                    &&& after.found == before.found + sorted
                    &&& after.pending == rest + subtree_scan::directories(sorted)
                };
            kept_is_what_is_listed(
                directory,
                listed,
                before.excluded,
                Seq::empty(),
                0,
                children,
                item,
            );
            kept_is_what_is_listed(
                directory,
                listed,
                before.excluded,
                Seq::empty(),
                0,
                children,
                folder,
            );
            descending_holds_the_same(sorted, children, item);
            descending_holds_the_same(sorted, children, folder);
            directories_hold(sorted, item.path);
            joined_holds(before.found, sorted, item);
            joined_holds(rest, subtree_scan::directories(sorted), item.path);
            assert(children.contains(item) <==> lists(tree(directory), before.excluded, item)) by {
                if lists(tree(directory), before.excluded, item) {
                    let j = choose|j: int| #[trigger]
                        kept_at(listed, before.excluded, j) == Some(item);
                    assert(0 <= j);
                }
            }
            assert(children.contains(folder) <==> lists(tree(directory), before.excluded, folder))
                by {
                if lists(tree(directory), before.excluded, folder) {
                    let j = choose|j: int| #[trigger]
                        kept_at(listed, before.excluded, j) == Some(folder);
                    assert(0 <= j);
                }
            }
        },
    }
}

/// Two lists, one behind the other, hold what either holds.
proof fn joined_holds<T>(a: Seq<T>, b: Seq<T>, item: T)
    ensures
        (a + b).contains(item) <==> a.contains(item) || b.contains(item),
{
    let both = a + b;
    if a.contains(item) {
        let i = choose|i: int| 0 <= i < a.len() && a[i] == item;
        assert(both[i] == item);
    }
    if b.contains(item) {
        let i = choose|i: int| 0 <= i < b.len() && b[i] == item;
        assert(both[a.len() + i] == item);
    }
    if both.contains(item) {
        let i = choose|i: int| 0 <= i < both.len() && both[i] == item;
        if i < a.len() {
            assert(a[i] == item);
        } else {
            assert(b[i - a.len()] == item);
        }
    }
}

/// Whether a path is the root or a directory that was found.
spec fn is_known(state: ScanModel, root: PathModel, path: PathModel) -> bool {
    path == root || state.found.contains(FoundModel { path, is_directory: true })
}

/// What holds of every state of a search: what was found lies below the root,
/// and a directory that is known is still to be read or all that it lists was
/// found.
spec fn keeps_track(tree: Tree, excluded: Seq<PathModel>, root: PathModel, state: ScanModel) -> bool {
    &&& state.excluded == excluded
    &&& forall|item: FoundModel| #[trigger]
        state.found.contains(item) ==> is_below(tree, excluded, root, item)
    &&& forall|path: PathModel| #[trigger]
        state.pending.contains(path) ==> is_known(state, root, path)
    &&& forall|path: PathModel, item: FoundModel|
        #![trigger is_known(state, root, path), lists(tree(path), excluded, item)]
        is_known(state, root, path) && lists(tree(path), excluded, item)
            ==> state.pending.contains(path) || state.found.contains(item)
}

/// What a known directory lists lies below the root.
proof fn below_a_known_directory(
    tree: Tree,
    excluded: Seq<PathModel>,
    root: PathModel,
    state: ScanModel,
    path: PathModel,
    item: FoundModel,
)
    requires
        keeps_track(tree, excluded, root, state),
        is_known(state, root, path),
        lists(tree(path), excluded, item),
    ensures
        is_below(tree, excluded, root, item),
{
    if path == root {
        let chain = seq![item];
        assert(leads_down(tree, excluded, root, chain));
        assert(chain.last() == item);
    } else {
        let folder = FoundModel { path, is_directory: true };
        assert(state.found.contains(folder));
        assert(is_below(tree, excluded, root, folder));
        let above = choose|chain: Seq<FoundModel>| #[trigger]
            leads_down(tree, excluded, root, chain) && chain.last() == folder;
        let chain = above.push(item);
        assert(chain.drop_last() =~= above);
        assert(leads_down(tree, excluded, root, chain));
        assert(chain.last() == item);
    }
}

/// Reading a directory keeps track.
proof fn read_keeps_track(
    tree: Tree,
    excluded: Seq<PathModel>,
    root: PathModel,
    before: ScanModel,
    after: ScanModel,
)
    requires
        keeps_track(tree, excluded, root, before),
        reads(tree, before, after),
    ensures
        keeps_track(tree, excluded, root, after),
{
    let directory = before.pending.last();
    let rest = before.pending.drop_last();
    read_adds(tree, before, after, FoundModel { path: root, is_directory: true });
    assert(before.pending[before.pending.len() - 1] == directory);
    assert(before.pending.contains(directory));
    assert(is_known(before, root, directory));
    assert forall|item: FoundModel| #[trigger] after.found.contains(item) implies is_below(
        tree,
        excluded,
        root,
        item,
    ) by {
        read_adds(tree, before, after, item);
        if !before.found.contains(item) {
            below_a_known_directory(tree, excluded, root, before, directory, item);
        }
    }
    assert forall|path: PathModel| is_known(before, root, path) implies #[trigger] is_known(
        after,
        root,
        path,
    ) by {
        read_adds(tree, before, after, FoundModel { path, is_directory: true });
    }
    assert forall|path: PathModel| #[trigger] after.pending.contains(path) implies is_known(
        after,
        root,
        path,
    ) by {
        read_adds(tree, before, after, FoundModel { path, is_directory: true });
        if rest.contains(path) {
            let i = choose|i: int| 0 <= i < rest.len() && rest[i] == path;
            assert(before.pending[i] == path);
            assert(before.pending.contains(path));
            assert(is_known(before, root, path));
        }
    }
    assert forall|path: PathModel, item: FoundModel|
        #![trigger is_known(after, root, path), lists(tree(path), excluded, item)]
        is_known(after, root, path) && lists(
            tree(path),
            excluded,
            item,
        ) implies after.pending.contains(path) || after.found.contains(item) by {
        read_adds(tree, before, after, FoundModel { path, is_directory: true });
        read_adds(tree, before, after, item);
        if path != directory && is_known(before, root, path) {
            if before.pending.contains(path) {
                let i = choose|i: int| 0 <= i < before.pending.len() && before.pending[i] == path;
                assert(rest[i] == path);
                assert(rest.contains(path));
            }
        }
    }
}

/// Every state of a search keeps track.
proof fn search_keeps_track(
    tree: Tree,
    excluded: Seq<PathModel>,
    root: PathModel,
    states: Seq<ScanModel>,
    i: int,
)
    requires
        is_search(tree, excluded, root, states),
        0 <= i < states.len(),
    ensures
        keeps_track(tree, excluded, root, states[i]),
    decreases i,
{
    if i == 0 {
        assert(states[0].pending[0] == root);
        assert(states[0].pending.contains(root));
    } else {
        search_keeps_track(tree, excluded, root, states, i - 1);
        assert(goes_on(tree, states, i - 1));
        read_keeps_track(tree, excluded, root, states[i - 1], states[i]);
    }
}

/// Where no directory is left to read, everything below the root was found.
proof fn everything_was_found(
    tree: Tree,
    excluded: Seq<PathModel>,
    root: PathModel,
    state: ScanModel,
    chain: Seq<FoundModel>,
)
    requires
        keeps_track(tree, excluded, root, state),
        state.pending.len() == 0,
        leads_down(tree, excluded, root, chain),
    ensures
        state.found.contains(chain.last()),
    decreases chain.len(),
{
    if chain.len() == 1 {
        assert(is_known(state, root, root));
        assert(lists(tree(root), excluded, chain.last()));
    } else {
        let before = chain.drop_last();
        everything_was_found(tree, excluded, root, state, before);
        let folder = before.last();
        assert(folder == FoundModel { path: folder.path, is_directory: true });
        assert(is_known(state, root, folder.path));
        assert(lists(tree(folder.path), excluded, chain.last()));
    }
}

/// A whole search finds exactly what exists below its root: every object to
/// which directories lead down from the root, with nothing on the way that is
/// left out or stands for another object.
pub proof fn search_finds_everything_below(
    tree: Tree,
    excluded: Seq<PathModel>,
    root: PathModel,
    states: Seq<ScanModel>,
    paths: Seq<FoundModel>,
    item: FoundModel,
)
    requires
        is_search(tree, excluded, root, states),
        subtree_scan::is_ascending(paths, states.last().found),
    ensures
        paths.contains(item) <==> is_below(tree, excluded, root, item),
{
    let last = states.last();
    search_keeps_track(tree, excluded, root, states, states.len() - 1);
    ascending_holds_the_same(paths, last.found, item);
    if is_below(tree, excluded, root, item) {
        let chain = choose|chain: Seq<FoundModel>| #[trigger]
            leads_down(tree, excluded, root, chain) && chain.last() == item;
        everything_was_found(tree, excluded, root, last, chain);
    }
}

/// The path of the object at a position of a listing.
pub open spec fn listed_path(listing: DirectoryListing, i: int) -> Option<PathModel> {
    match listing {
        DirectoryListing::Listed(listed) => if 0 <= i < listed@.len() && listed@[i] is Ok {
            Some(listed@[i]->Ok_0.path@)
        } else {
            None
        },
        _ => None,
    }
}

/// Whether every directory lists what lies in it, and each once.
pub open spec fn is_file_tree(tree: Tree) -> bool {
    &&& forall|directory: PathModel, i: int| #[trigger]
        listed_path(tree(directory), i) matches Some(path) ==> path.parent() == Some(directory)
    &&& forall|directory: PathModel, i: int, j: int|
        i != j && #[trigger] listed_path(tree(directory), i) is Some && #[trigger] listed_path(
            tree(directory),
            j,
        ) is Some ==> listed_path(tree(directory), i) != listed_path(tree(directory), j)
}

/// Whether no two objects have the same path.
pub open spec fn has_no_path_twice(found: Seq<FoundModel>) -> bool {
    forall|i: int, j: int|
        0 <= i < j < found.len() ==> (#[trigger] found[i]).path != (#[trigger] found[j]).path
}

/// What is kept of a listing has no path twice.
proof fn kept_has_no_path_twice(
    tree: Tree,
    directory: PathModel,
    excluded: Seq<PathModel>,
    kept: Seq<FoundModel>,
    i: int,
)
    requires
        is_file_tree(tree),
        tree(directory) is Listed,
        0 <= i <= tree(directory)->Listed_0@.len(),
        has_no_path_twice(kept),
        forall|k: int|
            0 <= k < kept.len() ==> exists|j: int|
                0 <= j < i && #[trigger] listed_path(tree(directory), j) == Some(
                    (#[trigger] kept[k]).path,
                ),
    ensures
        subtree_scan::kept_children_from(
            directory,
            tree(directory)->Listed_0@,
            excluded,
            kept,
            i,
        ) matches Ok(children) ==> has_no_path_twice(children),
    decreases tree(directory)->Listed_0@.len() - i,
{
    let listed = tree(directory)->Listed_0@;
    if i < listed.len() {
        let next = match kept_at(listed, excluded, i) {
            Some(own) => kept.push(own),
            None => kept,
        };
        assert forall|k: int| 0 <= k < next.len() implies exists|j: int|
            0 <= j < i + 1 && #[trigger] listed_path(tree(directory), j) == Some(
                (#[trigger] next[k]).path,
            ) by {
            if k < kept.len() {
                assert(next[k] == kept[k]);
                let j = choose|j: int|
                    0 <= j < i && #[trigger] listed_path(tree(directory), j) == Some(kept[k].path);
                assert(listed_path(tree(directory), j) == Some(next[k].path));
            } else {
                assert(listed_path(tree(directory), i) == Some(next[k].path));
            }
        }
        assert(has_no_path_twice(next)) by {
            assert forall|a: int, b: int| 0 <= a < b < next.len() implies (#[trigger] next[a]).path
                != (#[trigger] next[b]).path by {
                assert(next[a] == kept[a]);
                if b < kept.len() {
                    assert(next[b] == kept[b]);
                } else {
                    let j = choose|j: int|
                        0 <= j < i && #[trigger] listed_path(tree(directory), j) == Some(
                            kept[a].path,
                        );
                    assert(listed_path(tree(directory), i) == Some(next[b].path));
                }
            }
        }
        kept_has_no_path_twice(tree, directory, excluded, next, i + 1);
    }
}

/// A list in descending order has no path twice where what it was made of has
/// none.
proof fn descending_has_no_path_twice(sorted: Seq<FoundModel>, all: Seq<FoundModel>)
    requires
        subtree_scan::is_descending(sorted, all),
        has_no_path_twice(all),
    ensures
        has_no_path_twice(sorted),
{
    let keys = subtree_scan::found_keys(all);
    let positions = choose|positions: Seq<usize>|
        {
            &&& #[trigger] ordering::ascending(positions, keys)
            &&& sorted == Seq::new(all.len(), |i: int| all[positions[all.len() - 1 - i] as int])
        };
    assert forall|i: int, j: int| 0 <= i < j < sorted.len() implies (#[trigger] sorted[i]).path != (
    #[trigger] sorted[j]).path by {
        let a = positions[all.len() - 1 - i];
        let b = positions[all.len() - 1 - j];
        assert(b != a);
        assert(sorted[i] == all[a as int]);
        assert(sorted[j] == all[b as int]);
        if a < b {
            assert(all[a as int].path != all[b as int].path);
        } else {
            assert(all[b as int].path != all[a as int].path);
        }
    }
}

/// A list in ascending order has no path twice where what it was made of has
/// none.
proof fn ascending_has_no_path_twice(sorted: Seq<FoundModel>, all: Seq<FoundModel>)
    requires
        subtree_scan::is_ascending(sorted, all),
        has_no_path_twice(all),
    ensures
        has_no_path_twice(sorted),
{
    let keys = subtree_scan::found_keys(all);
    let positions = choose|positions: Seq<usize>|
        {
            &&& #[trigger] ordering::ascending(positions, keys)
            &&& sorted == Seq::new(all.len(), |i: int| all[positions[i] as int])
        };
    assert forall|i: int, j: int| 0 <= i < j < sorted.len() implies (#[trigger] sorted[i]).path != (
    #[trigger] sorted[j]).path by {
        let a = positions[i];
        let b = positions[j];
        assert(a != b);
        assert(sorted[i] == all[a as int]);
        assert(sorted[j] == all[b as int]);
        if a < b {
            assert(all[a as int].path != all[b as int].path);
        } else {
            assert(all[b as int].path != all[a as int].path);
        }
    }
}

/// The directories among objects are once each where the objects are.
proof fn directories_are_apart(found: Seq<FoundModel>)
    requires
        has_no_path_twice(found),
    ensures
        subtree_scan::directories(found).no_duplicates(),
    decreases found.len(),
{
    if found.len() > 0 {
        let before = found.drop_last();
        let rest = subtree_scan::directories(before);
        assert(has_no_path_twice(before)) by {
            assert forall|i: int, j: int| 0 <= i < j < before.len() implies (
            #[trigger] before[i]).path != (#[trigger] before[j]).path by {
                assert(found[i] == before[i] && found[j] == before[j]);
            }
        }
        directories_are_apart(before);
        directories_hold(before, found.last().path);
        if rest.contains(found.last().path) {
            let item = FoundModel { path: found.last().path, is_directory: true };
            let i = choose|i: int| 0 <= i < before.len() && before[i] == item;
            assert(found[i].path == found[found.len() - 1].path);
        }
    }
}

/// What holds of every state of a search in a file tree: nothing was found
/// twice or is to be read twice, and what was found lies in a directory that
/// was read, below the root.
spec fn keeps_apart(root: PathModel, state: ScanModel) -> bool {
    &&& has_no_path_twice(state.found)
    &&& state.pending.no_duplicates()
    &&& forall|item: FoundModel| #[trigger]
        state.found.contains(item) ==> {
            &&& item.path.parent() is Some
            &&& is_known(state, root, item.path.parent()->0)
            &&& !state.pending.contains(item.path.parent()->0)
            &&& item.path.parts.len() > root.parts.len()
        }
}

/// What a directory lists lies in it.
proof fn listed_lies_in(tree: Tree, excluded: Seq<PathModel>, directory: PathModel, item: FoundModel)
    requires
        is_file_tree(tree),
        lists(tree(directory), excluded, item),
    ensures
        item.path.parent() == Some(directory),
        item.path.parts.len() == directory.parts.len() + 1,
        item.path != directory,
{
    let listed = tree(directory)->Listed_0@;
    let i = choose|i: int| #[trigger] kept_at(listed, excluded, i) == Some(item);
    assert(listed_path(tree(directory), i) == Some(item.path));
}

/// Reading a directory keeps what was found apart.
proof fn read_keeps_apart(
    tree: Tree,
    excluded: Seq<PathModel>,
    root: PathModel,
    before: ScanModel,
    after: ScanModel,
)
    requires
        is_file_tree(tree),
        keeps_track(tree, excluded, root, before),
        keeps_apart(root, before),
        reads(tree, before, after),
    ensures
        keeps_apart(root, after),
{
    let directory = before.pending.last();
    let rest = before.pending.drop_last();
    assert(before.pending[before.pending.len() - 1] == directory);
    assert(before.pending.contains(directory));
    assert(is_known(before, root, directory));
    assert(directory.parts.len() >= root.parts.len());
    assert forall|path: PathModel| #[trigger] rest.contains(path) implies before.pending.contains(
        path,
    ) && path != directory by {
        let i = choose|i: int| 0 <= i < rest.len() && rest[i] == path;
        assert(before.pending[i] == path);
    }
    // What the directory lists is new.
    assert forall|item: FoundModel, old_item: FoundModel|
        #![trigger lists(tree(directory), excluded, item), before.found.contains(old_item)]
        lists(tree(directory), excluded, item) && before.found.contains(
            old_item,
        ) implies item.path != old_item.path by {
        listed_lies_in(tree, excluded, directory, item);
    }
    assert forall|item: FoundModel| #[trigger]
        lists(tree(directory), excluded, item) implies item.path.parent() == Some(directory)
        && item.path.parts.len() > root.parts.len() && item.path != directory && item.path
        != root && !rest.contains(item.path) by {
        listed_lies_in(tree, excluded, directory, item);
        if rest.contains(item.path) {
            assert(is_known(before, root, item.path));
            assert(before.found.contains(FoundModel { path: item.path, is_directory: true }));
        }
    }
    added_stays_apart(tree, excluded, before, after);
    assert forall|item: FoundModel| #[trigger] after.found.contains(item) implies {
        &&& item.path.parent() is Some
        &&& is_known(after, root, item.path.parent()->0)
        &&& !after.pending.contains(item.path.parent()->0)
        &&& item.path.parts.len() > root.parts.len()
    } by {
        read_adds(tree, before, after, item);
        if before.found.contains(item) {
            let above = item.path.parent()->0;
            let folder = FoundModel { path: above, is_directory: true };
            read_adds(tree, before, after, folder);
            assert(is_known(before, root, above));
            if lists(tree(directory), excluded, folder) {
                assert(before.found.contains(folder));
            }
        } else {
            assert(lists(tree(directory), excluded, item));
            let folder = FoundModel { path: directory, is_directory: true };
            read_adds(tree, before, after, folder);
            if lists(tree(directory), excluded, folder) {
                assert(folder.path != directory);
            }
        }
    }
}

/// What a directory lists, where it is new, joins what was found and what is to
/// be read without a path twice.
proof fn added_stays_apart(
    tree: Tree,
    excluded: Seq<PathModel>,
    before: ScanModel,
    after: ScanModel,
)
    requires
        is_file_tree(tree),
        before.excluded == excluded,
        has_no_path_twice(before.found),
        before.pending.no_duplicates(),
        reads(tree, before, after),
        forall|item: FoundModel, old_item: FoundModel|
            #![trigger lists(tree(before.pending.last()), excluded, item), before.found.contains(old_item)]
            lists(tree(before.pending.last()), excluded, item) && before.found.contains(
                old_item,
            ) ==> item.path != old_item.path,
        forall|item: FoundModel| #[trigger]
            lists(tree(before.pending.last()), excluded, item)
                ==> !before.pending.drop_last().contains(item.path),
    ensures
        has_no_path_twice(after.found),
        after.pending.no_duplicates(),
{
    let directory = before.pending.last();
    let rest = before.pending.drop_last();
    match tree(directory) {
        DirectoryListing::Missing => {},
        DirectoryListing::Failed { .. } => {},
        DirectoryListing::Listed(objects) => {
            let listed = objects@;
            let none = Seq::<FoundModel>::empty();
            let children = subtree_scan::kept_children_from(directory, listed, excluded, none, 0)->Ok_0;
            let sorted = choose|sorted: Seq<FoundModel>|
                {
                    &&& #[trigger] subtree_scan::is_descending(sorted, children)
                    &&& after.found == before.found + sorted
                    &&& after.pending == rest + subtree_scan::directories(sorted)
                };
            let folders = subtree_scan::directories(sorted);
            kept_has_no_path_twice(tree, directory, excluded, none, 0);
            descending_has_no_path_twice(sorted, children);
            directories_are_apart(sorted);
            assert forall|item: FoundModel| #[trigger] sorted.contains(item) implies lists(
                tree(directory),
                excluded,
                item,
            ) by {
                descending_holds_the_same(sorted, children, item);
                kept_is_what_is_listed(directory, listed, excluded, none, 0, children, item);
            }
            assert forall|i: int, j: int| 0 <= i < j < after.found.len() implies (
            #[trigger] after.found[i]).path != (#[trigger] after.found[j]).path by {
                let count = before.found.len() as int;
                if j < count {
                    assert(after.found[i] == before.found[i]);
                    assert(after.found[j] == before.found[j]);
                } else {
                    assert(after.found[j] == sorted[j - count]);
                    assert(sorted.contains(sorted[j - count]));
                    assert(lists(tree(directory), excluded, sorted[j - count]));
                    if i < count {
                        assert(after.found[i] == before.found[i]);
                        assert(before.found.contains(before.found[i]));
                    } else {
                        assert(after.found[i] == sorted[i - count]);
                    }
                }
            }
            assert forall|i: int, j: int| 0 <= i < j < after.pending.len() implies after.pending[i]
                != after.pending[j] by {
                let count = rest.len() as int;
                if j < count {
                    assert(after.pending[i] == before.pending[i]);
                    assert(after.pending[j] == before.pending[j]);
                } else {
                    let path = folders[j - count];
                    assert(after.pending[j] == path);
                    assert(folders.contains(path));
                    directories_hold(sorted, path);
                    let item = FoundModel { path, is_directory: true };
                    assert(lists(tree(directory), excluded, item));
                    if i < count {
                        assert(after.pending[i] == rest[i]);
                        assert(rest.contains(rest[i]));
                    } else {
                        assert(after.pending[i] == folders[i - count]);
                    }
                }
            }
        },
    }
}

/// A whole search finds nothing twice, as long as every directory lists what
/// lies in it, and each once.
pub proof fn search_finds_nothing_twice(
    tree: Tree,
    excluded: Seq<PathModel>,
    root: PathModel,
    states: Seq<ScanModel>,
    paths: Seq<FoundModel>,
)
    requires
        is_file_tree(tree),
        is_search(tree, excluded, root, states),
        subtree_scan::is_ascending(paths, states.last().found),
    ensures
        has_no_path_twice(paths),
{
    search_keeps_apart(tree, excluded, root, states, states.len() - 1);
    ascending_has_no_path_twice(paths, states.last().found);
}

/// Every state of a search keeps what was found apart.
proof fn search_keeps_apart(
    tree: Tree,
    excluded: Seq<PathModel>,
    root: PathModel,
    states: Seq<ScanModel>,
    i: int,
)
    requires
        is_file_tree(tree),
        is_search(tree, excluded, root, states),
        0 <= i < states.len(),
    ensures
        keeps_apart(root, states[i]),
    decreases i,
{
    if i > 0 {
        search_keeps_apart(tree, excluded, root, states, i - 1);
        search_keeps_track(tree, excluded, root, states, i - 1);
        assert(goes_on(tree, states, i - 1));
        read_keeps_apart(tree, excluded, root, states[i - 1], states[i]);
    }
}

} // verus!
