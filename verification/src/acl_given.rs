//! What the objects of a plan are given: which rights each of them allows and
//! denies to whom once the plan is collected.

use vstd::prelude::*;

use crate::acl_builder;
use crate::acl_builder::{AclContext, BuilderModel};
use crate::acl_entries;
use crate::acl_entries::{
    AclAccessMode, AclEntryModel, OperationModel, RequestModel, FILE_ALL_ACCESS, READ_ALLOW_MASK,
    WRITE_ALLOW_MASK, WRITE_DENY_MASK,
};
use crate::acl_error::AclErrorModel;
use crate::filesystem_plan::{
    FilesystemPlanAccess, MissingFilesystemTargetKind, MissingModel, PlannedModel,
};
use crate::keyed;
use crate::native_path;
use crate::native_path::PathModel;
use crate::ordering;

verus! {

/// Whether a list of operations is in order, each of them well formed.
pub open spec fn is_list(operations: Seq<OperationModel>) -> bool {
    &&& ordering::strictly_ascending(acl_builder::operation_keys(operations))
    &&& forall|i: int| 0 <= i < operations.len() ==> (#[trigger] operations[i]).wf()
}

/// Whether everything gathered is in order.
pub open spec fn is_gathered(state: BuilderModel) -> bool {
    &&& is_list(state.foundation)
    &&& is_list(state.continuation)
    &&& is_list(state.denies)
}

/// The operation on the object under a key, if there is one.
pub open spec fn operation_at(operations: Seq<OperationModel>, key: Seq<u32>) -> Option<
    OperationModel,
> {
    keyed::item_at(acl_builder::operation_keys(operations), operations, key)
}

/// The rights that operations allow, or deny, someone on the object under a key.
pub open spec fn rights_at(
    operations: Seq<OperationModel>,
    key: Seq<u32>,
    sid: Seq<char>,
    mode: AclAccessMode,
) -> u32 {
    match operation_at(operations, key) {
        Some(operation) => acl_entries::asked_mask(operation.entries, sid, mode),
        None => 0,
    }
}

/// Whether these rights go down to everything below the object.
pub open spec fn reaches_below(
    operations: Seq<OperationModel>,
    key: Seq<u32>,
    sid: Seq<char>,
    mode: AclAccessMode,
) -> bool {
    operation_at(operations, key) matches Some(operation) && acl_entries::is_asked_below(
        operation.entries,
        sid,
        mode,
    )
}

/// Whether entries from above stop at the object under a key.
pub open spec fn stops_at(operations: Seq<OperationModel>, key: Seq<u32>) -> bool {
    operation_at(operations, key) matches Some(operation) && operation.protect_dacl
}

/// Whether someone's entries go from the object under a key.
pub open spec fn removes_at(
    operations: Seq<OperationModel>,
    key: Seq<u32>,
    sid: Seq<char>,
) -> bool {
    operation_at(operations, key) matches Some(operation) && acl_entries::text_keys(
        operation.remove_sids,
    ).contains(acl_entries::text_words(sid))
}

/// Whether a path below is left out on the object under a key.
pub open spec fn leaves_out(
    operations: Seq<OperationModel>,
    key: Seq<u32>,
    path: PathModel,
) -> bool {
    operation_at(operations, key) matches Some(operation) && native_path::path_keys(
        operation.excluded_roots,
    ).contains(path.key())
}

/// Whether rights hold all of some rights.
pub open spec fn covers(rights: u32, some: u32) -> bool {
    rights & some == some
}

/// Whether operations still hold everything that they held.
pub open spec fn grows(before: Seq<OperationModel>, after: Seq<OperationModel>) -> bool {
    &&& is_list(after)
    &&& forall|key: Seq<u32>, sid: Seq<char>, mode: AclAccessMode|
        covers(
            rights_at(after, key, sid, mode),
            #[trigger] rights_at(before, key, sid, mode),
        )
    &&& forall|key: Seq<u32>, sid: Seq<char>, mode: AclAccessMode| #[trigger]
        reaches_below(before, key, sid, mode) ==> reaches_below(after, key, sid, mode)
    &&& forall|key: Seq<u32>| #[trigger] stops_at(before, key) ==> stops_at(after, key)
    &&& forall|key: Seq<u32>, sid: Seq<char>| #[trigger]
        removes_at(before, key, sid) ==> removes_at(after, key, sid)
    &&& forall|key: Seq<u32>, path: PathModel| #[trigger]
        leaves_out(before, key, path) ==> leaves_out(after, key, path)
}

/// What is added to rights keeps them, and rights keep what they cover.
proof fn covering(a: u32, b: u32, c: u32)
    ensures
        covers(a | b, a),
        covers(a | b, b),
        covers(a, a),
        covers(a, b) && covers(b, c) ==> covers(a, c),
        covers(a, b) ==> covers(a | c, b),
        a | 0 == a,
        0 | a == a,
        (a | b) | c == a | (b | c),
{
    assert({
        &&& (a | b) & a == a
        &&& (a | b) & b == b
        &&& a & a == a
        &&& a & b == b && b & c == c ==> a & c == c
        &&& a & b == b ==> (a | c) & b == b
        &&& a | 0 == a
        &&& 0 | a == a
        &&& (a | b) | c == a | (b | c)
    }) by (bit_vector);
}

/// The operation under a key once a request is taken in.
proof fn request_joins(
    operations: Seq<OperationModel>,
    path: PathModel,
    request: RequestModel,
    key: Seq<u32>,
)
    requires
        is_list(operations),
    ensures
        ({
            let after = acl_builder::with_request(
                operations,
                path,
                request.entries,
                request.protect_dacl,
                request.remove_sids,
                request.excluded_roots,
            );
            let held = match operation_at(operations, path.key()) {
                Some(operation) => operation,
                None => OperationModel::empty(path),
            };
            &&& is_list(after)
            &&& held.wf()
            &&& operation_at(after, key) == (if key == path.key() {
                Some(held.with_request(request))
            } else {
                operation_at(operations, key)
            })
        }),
{
    let own = path.key();
    let keys = acl_builder::operation_keys(operations);
    let after = acl_builder::with_request(
        operations,
        path,
        request.entries,
        request.protect_dacl,
        request.remove_sids,
        request.excluded_roots,
    );
    let at = ordering::slot(keys, own);
    let empty = OperationModel::empty(path);
    ordering::slot_divides(keys, own);
    assert(empty.wf());
    if ordering::is_present(keys, own) {
        let item = operations[at].with_request(request);
        acl_entries::requests_add_rights(
            operations[at],
            request,
            Seq::empty(),
            AclAccessMode::Allow,
        );
        assert(after == operations.update(at, item));
        assert(acl_builder::operation_keys(after) =~= keys);
        keyed::found_after_replace(keys, operations, own, item, key);
        assert forall|i: int| 0 <= i < after.len() implies (#[trigger] after[i]).wf() by {
            if i != at {
                assert(after[i] == operations[i]);
            }
        }
    } else {
        let item = empty.with_request(request);
        acl_entries::requests_add_rights(empty, request, Seq::empty(), AclAccessMode::Allow);
        assert(after == operations.insert(at, item));
        assert(acl_builder::operation_keys(after) =~= keys.insert(at, own));
        keyed::found_after_insert(keys, operations, own, item, key);
        assert forall|i: int| 0 <= i < after.len() implies (#[trigger] after[i]).wf() by {
            if i < at {
                assert(after[i] == operations[i]);
            } else if i > at {
                assert(after[i] == operations[i - 1]);
            }
        }
    }
}

/// What a request adds on its object, and that it changes nothing elsewhere.
proof fn request_gives(
    operations: Seq<OperationModel>,
    path: PathModel,
    request: RequestModel,
    key: Seq<u32>,
    sid: Seq<char>,
    mode: AclAccessMode,
    root: PathModel,
)
    requires
        is_list(operations),
    ensures
        ({
            let after = acl_builder::with_request(
                operations,
                path,
                request.entries,
                request.protect_dacl,
                request.remove_sids,
                request.excluded_roots,
            );
            let own = key == path.key();
            &&& is_list(after)
            &&& !own ==> operation_at(after, key) == operation_at(operations, key)
            &&& rights_at(after, key, sid, mode) == rights_at(operations, key, sid, mode) | (if own {
                acl_entries::asked_mask(request.entries, sid, mode)
            } else {
                0
            })
            &&& reaches_below(after, key, sid, mode) <==> reaches_below(operations, key, sid, mode)
                || own && acl_entries::is_asked_below(request.entries, sid, mode)
            &&& stops_at(after, key) <==> stops_at(operations, key) || own && request.protect_dacl
            &&& removes_at(after, key, sid) <==> removes_at(operations, key, sid) || own
                && request.remove_sids.contains(sid)
            &&& leaves_out(after, key, root) <==> leaves_out(operations, key, root) || own
                && native_path::path_keys(request.excluded_roots).contains(root.key())
        }),
{
    request_joins(operations, path, request, key);
    let rights = rights_at(operations, key, sid, mode);
    covering(rights, 0, 0);
    if key == path.key() {
        let held = match operation_at(operations, path.key()) {
            Some(operation) => operation,
            None => OperationModel::empty(path),
        };
        acl_entries::requests_add_rights(held, request, sid, mode);
        acl_entries::operations_hold_what_requests_name(
            held,
            request,
            acl_entries::text_words(sid),
        );
        acl_entries::operations_hold_what_requests_name(held, request, root.key());
        let words = acl_entries::text_words(sid);
        let named = acl_entries::text_keys(request.remove_sids);
        assert(named.contains(words) <==> request.remove_sids.contains(sid)) by {
            if named.contains(words) {
                let i = choose|i: int| 0 <= i < named.len() && named[i] == words;
                acl_entries::words_determine_text(request.remove_sids[i], sid);
            }
            if request.remove_sids.contains(sid) {
                let i = choose|i: int|
                    0 <= i < request.remove_sids.len() && request.remove_sids[i] == sid;
                assert(named[i] == words);
            }
        }
        if operation_at(operations, key) is None {
            assert(acl_entries::text_keys(held.remove_sids) =~= Seq::empty());
            assert(native_path::path_keys(held.excluded_roots) =~= Seq::empty());
            assert(!acl_entries::is_asked_below(held.entries, sid, mode));
        }
    }
}

/// Operations grow by a request.
proof fn request_grows(operations: Seq<OperationModel>, path: PathModel, request: RequestModel)
    requires
        is_list(operations),
    ensures
        grows(
            operations,
            acl_builder::with_request(
                operations,
                path,
                request.entries,
                request.protect_dacl,
                request.remove_sids,
                request.excluded_roots,
            ),
        ),
{
    let after = acl_builder::with_request(
        operations,
        path,
        request.entries,
        request.protect_dacl,
        request.remove_sids,
        request.excluded_roots,
    );
    let allow = AclAccessMode::Allow;
    request_joins(operations, path, request, path.key());
    assert forall|key: Seq<u32>, sid: Seq<char>, mode: AclAccessMode|
        covers(
            rights_at(after, key, sid, mode),
            #[trigger] rights_at(operations, key, sid, mode),
        ) by {
        request_gives(operations, path, request, key, sid, mode, path);
        covering(
            rights_at(operations, key, sid, mode),
            if key == path.key() {
                acl_entries::asked_mask(request.entries, sid, mode)
            } else {
                0
            },
            0,
        );
    }
    assert forall|key: Seq<u32>, sid: Seq<char>, mode: AclAccessMode| #[trigger]
        reaches_below(operations, key, sid, mode) implies reaches_below(after, key, sid, mode) by {
        request_gives(operations, path, request, key, sid, mode, path);
    }
    assert forall|key: Seq<u32>| #[trigger] stops_at(operations, key) implies stops_at(
        after,
        key,
    ) by {
        request_gives(operations, path, request, key, Seq::empty(), allow, path);
    }
    assert forall|key: Seq<u32>, sid: Seq<char>| #[trigger]
        removes_at(operations, key, sid) implies removes_at(after, key, sid) by {
        request_gives(operations, path, request, key, sid, allow, path);
    }
    assert forall|key: Seq<u32>, root: PathModel| #[trigger]
        leaves_out(operations, key, root) implies leaves_out(after, key, root) by {
        request_gives(operations, path, request, key, Seq::empty(), allow, root);
    }
}

/// Operations hold what they hold.
proof fn nothing_shrinks(operations: Seq<OperationModel>)
    requires
        is_list(operations),
    ensures
        grows(operations, operations),
{
    assert forall|key: Seq<u32>, sid: Seq<char>, mode: AclAccessMode|
        covers(
            rights_at(operations, key, sid, mode),
            #[trigger] rights_at(operations, key, sid, mode),
        ) by {
        covering(rights_at(operations, key, sid, mode), 0, 0);
    }
}

/// Growing twice is growing.
proof fn growing_is_transitive(
    a: Seq<OperationModel>,
    b: Seq<OperationModel>,
    c: Seq<OperationModel>,
)
    requires
        grows(a, b),
        grows(b, c),
    ensures
        grows(a, c),
{
    assert forall|key: Seq<u32>, sid: Seq<char>, mode: AclAccessMode|
        covers(rights_at(c, key, sid, mode), #[trigger] rights_at(a, key, sid, mode)) by {
        covering(
            rights_at(c, key, sid, mode),
            rights_at(b, key, sid, mode),
            rights_at(a, key, sid, mode),
        );
    }
    assert forall|key: Seq<u32>, sid: Seq<char>, mode: AclAccessMode| #[trigger]
        reaches_below(a, key, sid, mode) implies reaches_below(c, key, sid, mode) by {
        assert(reaches_below(b, key, sid, mode));
    }
    assert forall|key: Seq<u32>| #[trigger] stops_at(a, key) implies stops_at(c, key) by {
        assert(stops_at(b, key));
    }
    assert forall|key: Seq<u32>, sid: Seq<char>| #[trigger]
        removes_at(a, key, sid) implies removes_at(c, key, sid) by {
        assert(removes_at(b, key, sid));
    }
    assert forall|key: Seq<u32>, path: PathModel| #[trigger]
        leaves_out(a, key, path) implies leaves_out(c, key, path) by {
        assert(leaves_out(b, key, path));
    }
}

/// Those whose entries go from a path are all who may write below a root that
/// the path lies strictly below, and no one else; the paths left out of it are all
/// writable roots within it, and no others.
pub proof fn guarded_paths_know_their_roots(
    context: AclContext,
    path: PathModel,
    sid: Seq<char>,
    root: PathModel,
)
    ensures
        context.writers_above_from(path, 0).contains(sid) <==> exists|k: int|
            {
                &&& 0 <= k < context.write_roots.len()
                &&& path.is_within(#[trigger] context.write_roots[k])
                &&& !path.same_path(context.write_roots[k])
                &&& context.authorities.writers.dom().contains(context.write_roots[k].key())
                &&& context.authorities.writers[context.write_roots[k].key()] == sid
            },
        native_path::path_keys(context.roots_within_from(path, 0)).contains(root.key())
            <==> exists|k: int|
            0 <= k < context.write_roots.len() && (
            #[trigger] context.write_roots[k]).is_within(path) && context.write_roots[k].key()
                == root.key(),
{
    writers_above(context, path, 0, sid);
    roots_within(context, path, 0, root.key());
}

/// Whether the `k`th root lets someone write above a path.
spec fn lets_write(context: AclContext, path: PathModel, k: int, sid: Seq<char>) -> bool {
    &&& path.is_within(context.write_roots[k])
    &&& !path.same_path(context.write_roots[k])
    &&& context.authorities.writers.dom().contains(context.write_roots[k].key())
    &&& context.authorities.writers[context.write_roots[k].key()] == sid
}

/// Who may write above a path, from the `i`th root on.
proof fn writers_above(context: AclContext, path: PathModel, i: int, sid: Seq<char>)
    requires
        0 <= i <= context.write_roots.len(),
    ensures
        context.writers_above_from(path, i).contains(sid) <==> exists|k: int|
            {
                &&& i <= k < context.write_roots.len()
                &&& path.is_within(#[trigger] context.write_roots[k])
                &&& !path.same_path(context.write_roots[k])
                &&& context.authorities.writers.dom().contains(context.write_roots[k].key())
                &&& context.authorities.writers[context.write_roots[k].key()] == sid
            },
    decreases context.write_roots.len() - i,
{
    let all = context.writers_above_from(path, i);
    if i < context.write_roots.len() {
        writers_above(context, path, i + 1, sid);
        let rest = context.writers_above_from(path, i + 1);
        if all.contains(sid) {
            let j = choose|j: int| 0 <= j < all.len() && all[j] == sid;
            if !lets_write(context, path, i, sid) {
                assert(rest[if all == rest {
                    j
                } else {
                    j - 1
                }] == sid);
            } else {
                assert(path.is_within(context.write_roots[i]));
            }
        }
        if rest.contains(sid) {
            let j = choose|j: int| 0 <= j < rest.len() && rest[j] == sid;
            assert(all[if all == rest {
                j
            } else {
                j + 1
            }] == sid);
        }
        if lets_write(context, path, i, sid) {
            assert(all[0] == sid);
        }
    }
}

/// The writable roots within a path, from the `i`th on.
proof fn roots_within(context: AclContext, path: PathModel, i: int, key: Seq<u32>)
    requires
        0 <= i <= context.write_roots.len(),
    ensures
        native_path::path_keys(context.roots_within_from(path, i)).contains(key) <==> exists|k: int|
            i <= k < context.write_roots.len() && (
            #[trigger] context.write_roots[k]).is_within(path) && context.write_roots[k].key()
                == key,
    decreases context.write_roots.len() - i,
{
    let all = context.roots_within_from(path, i);
    let keys = native_path::path_keys(all);
    if i < context.write_roots.len() {
        roots_within(context, path, i + 1, key);
        let rest = context.roots_within_from(path, i + 1);
        let rest_keys = native_path::path_keys(rest);
        let own = context.write_roots[i].is_within(path);
        assert(own ==> keys =~= seq![context.write_roots[i].key()] + rest_keys);
        if keys.contains(key) {
            let j = choose|j: int| 0 <= j < keys.len() && keys[j] == key;
            if own && j > 0 {
                assert(rest_keys[j - 1] == key);
            }
        }
        if rest_keys.contains(key) {
            let j = choose|j: int| 0 <= j < rest_keys.len() && rest_keys[j] == key;
            assert(keys[if own {
                j + 1
            } else {
                j
            }] == key);
        }
        if own && context.write_roots[i].key() == key {
            assert(keys[0] == key);
        }
    } else {
        assert(keys =~= Seq::empty());
    }
}

/// What one entry asks for.
proof fn one_entry_asks(entry: AclEntryModel, sid: Seq<char>, mode: AclAccessMode)
    ensures
        acl_entries::asked_mask(seq![entry], sid, mode) == (if entry.is_for(sid, mode) {
            entry.mask
        } else {
            0
        }),
        acl_entries::is_asked_below(seq![entry], sid, mode) <==> entry.is_for(sid, mode)
            && entry.inheritance is Subtree,
{
    reveal_with_fuel(acl_entries::asked_mask, 2);
    let one = seq![entry];
    assert(one.last() == entry);
    assert(one.drop_last() =~= Seq::empty());
    covering(entry.mask, 0, 0);
    assert(one[0] == entry);
}

/// What two entries ask for.
proof fn two_entries_ask(
    first: AclEntryModel,
    second: AclEntryModel,
    sid: Seq<char>,
    mode: AclAccessMode,
)
    ensures
        acl_entries::asked_mask(seq![first, second], sid, mode) == (if first.is_for(sid, mode) {
            first.mask
        } else {
            0
        }) | (if second.is_for(sid, mode) {
            second.mask
        } else {
            0
        }),
        acl_entries::is_asked_below(seq![first, second], sid, mode) <==> first.is_for(sid, mode)
            && first.inheritance is Subtree || second.is_for(sid, mode) && second.inheritance
            is Subtree,
{
    let two = seq![first, second];
    assert(two.last() == second);
    assert(two.drop_last() =~= seq![first]);
    one_entry_asks(first, sid, mode);
    covering(acl_entries::asked_mask(seq![first], sid, mode), 0, 0);
    assert(two[0] == first && two[1] == second);
}

/// What three entries ask for.
proof fn three_entries_ask(
    first: AclEntryModel,
    second: AclEntryModel,
    third: AclEntryModel,
    sid: Seq<char>,
    mode: AclAccessMode,
)
    ensures
        acl_entries::asked_mask(seq![first, second, third], sid, mode) == (if first.is_for(
            sid,
            mode,
        ) {
            first.mask
        } else {
            0
        }) | (if second.is_for(sid, mode) {
            second.mask
        } else {
            0
        }) | (if third.is_for(sid, mode) {
            third.mask
        } else {
            0
        }),
        acl_entries::is_asked_below(seq![first, second, third], sid, mode) <==> first.is_for(
            sid,
            mode,
        ) && first.inheritance is Subtree || second.is_for(sid, mode) && second.inheritance
            is Subtree || third.is_for(sid, mode) && third.inheritance is Subtree,
{
    let three = seq![first, second, third];
    assert(three.last() == third);
    assert(three.drop_last() =~= seq![first, second]);
    two_entries_ask(first, second, sid, mode);
    covering(acl_entries::asked_mask(seq![first, second], sid, mode), 0, 0);
    assert(three[0] == first && three[1] == second && three[2] == third);
}

/// Whether an object is guarded: the profile's guard is denied some rights on it
/// and on everything below, nothing comes from above, and the entries of all who may
/// write above it go.
pub open spec fn is_guarded(
    context: AclContext,
    state: BuilderModel,
    path: PathModel,
    rights: u32,
) -> bool {
    let key = path.key();
    &&& covers(
        rights_at(state.denies, key, context.authorities.guard, AclAccessMode::Deny),
        rights,
    )
    &&& reaches_below(state.denies, key, context.authorities.guard, AclAccessMode::Deny)
    &&& stops_at(state.denies, key)
    &&& forall|k: int|
        0 <= k < context.write_roots.len() && path.is_within(#[trigger] context.write_roots[k])
            && !path.same_path(context.write_roots[k])
            && context.authorities.writers.dom().contains(context.write_roots[k].key())
            ==> removes_at(
            state.denies,
            key,
            context.authorities.writers[context.write_roots[k].key()],
        )
    &&& forall|k: int|
        0 <= k < context.write_roots.len() && (#[trigger] context.write_roots[k]).is_within(path)
            ==> leaves_out(state.denies, key, context.write_roots[k])
}

/// Whether an object is a readable root: the group and the reading authority may
/// read it and everything below, nothing comes from above, and the entries of all
/// who may write above it go.
pub open spec fn is_readable(context: AclContext, state: BuilderModel, path: PathModel) -> bool {
    let key = path.key();
    let allow = AclAccessMode::Allow;
    &&& covers(rights_at(state.foundation, key, context.group, allow), READ_ALLOW_MASK)
    &&& covers(
        rights_at(state.foundation, key, context.authorities.read_base, allow),
        READ_ALLOW_MASK,
    )
    &&& reaches_below(state.foundation, key, context.group, allow)
    &&& reaches_below(state.foundation, key, context.authorities.read_base, allow)
    &&& stops_at(state.foundation, key)
    &&& forall|k: int|
        0 <= k < context.write_roots.len() && path.is_within(#[trigger] context.write_roots[k])
            && !path.same_path(context.write_roots[k])
            && context.authorities.writers.dom().contains(context.write_roots[k].key())
            ==> removes_at(
            state.foundation,
            key,
            context.authorities.writers[context.write_roots[k].key()],
        )
}

/// Whether an object is writable as a root is: the root has a writing authority
/// of its own, which may write the object and everything below, as the group may;
/// the reading authority may read it, nothing comes from above, and the guard's
/// entries go.
pub open spec fn is_writable(
    context: AclContext,
    state: BuilderModel,
    path: PathModel,
    root: PathModel,
) -> bool {
    let key = path.key();
    let allow = AclAccessMode::Allow;
    &&& context.authorities.writers.dom().contains(root.key())
    &&& covers(
        rights_at(
            state.foundation,
            key,
            context.authorities.writers[root.key()],
            allow,
        ),
        WRITE_ALLOW_MASK,
    )
    &&& covers(rights_at(state.foundation, key, context.group, allow), WRITE_ALLOW_MASK)
    &&& covers(
        rights_at(state.foundation, key, context.authorities.read_base, allow),
        READ_ALLOW_MASK,
    )
    &&& reaches_below(
        state.foundation,
        key,
        context.authorities.writers[root.key()],
        allow,
    )
    &&& reaches_below(state.foundation, key, context.group, allow)
    &&& reaches_below(state.foundation, key, context.authorities.read_base, allow)
    &&& stops_at(state.foundation, key)
    &&& removes_at(state.foundation, key, context.authorities.guard)
}

/// Whether everything that was gathered still is.
pub open spec fn extends(before: BuilderModel, after: BuilderModel) -> bool {
    &&& is_gathered(after)
    &&& grows(before.foundation, after.foundation)
    &&& grows(before.denies, after.denies)
    &&& after.continuation == before.continuation
}

/// An object that is guarded stays so, and so do readable and writable ones.
proof fn given_stays(
    context: AclContext,
    before: BuilderModel,
    after: BuilderModel,
    path: PathModel,
    root: PathModel,
    rights: u32,
)
    requires
        extends(before, after),
    ensures
        is_guarded(context, before, path, rights) ==> is_guarded(context, after, path, rights),
        is_readable(context, before, path) ==> is_readable(context, after, path),
        is_writable(context, before, path, root) ==> is_writable(context, after, path, root),
{
    let key = path.key();
    let allow = AclAccessMode::Allow;
    let guard = context.authorities.guard;
    covering(
        rights_at(after.denies, key, guard, AclAccessMode::Deny),
        rights_at(before.denies, key, guard, AclAccessMode::Deny),
        rights,
    );
    let read_base = context.authorities.read_base;
    let writer = context.authorities.writers[root.key()];
    covering(
        rights_at(after.foundation, key, context.group, allow),
        rights_at(before.foundation, key, context.group, allow),
        READ_ALLOW_MASK,
    );
    covering(
        rights_at(after.foundation, key, context.group, allow),
        rights_at(before.foundation, key, context.group, allow),
        WRITE_ALLOW_MASK,
    );
    covering(
        rights_at(after.foundation, key, read_base, allow),
        rights_at(before.foundation, key, read_base, allow),
        READ_ALLOW_MASK,
    );
    covering(
        rights_at(after.foundation, key, writer, allow),
        rights_at(before.foundation, key, writer, allow),
        WRITE_ALLOW_MASK,
    );
}

/// What guarding an object comes to.
proof fn deny_guards(context: AclContext, state: BuilderModel, path: PathModel, mask: u32)
    requires
        is_gathered(state),
    ensures
        extends(state, context.with_deny(state, path, mask)),
        is_guarded(context, context.with_deny(state, path, mask), path, mask),
{
    let after = context.with_deny(state, path, mask);
    let guard = context.authorities.guard;
    let entry = acl_entries::denying(guard, mask);
    let request = RequestModel {
        entries: seq![entry],
        protect_dacl: true,
        remove_sids: context.writers_above_from(path, 0),
        excluded_roots: context.roots_within_from(path, 0),
    };
    let deny = AclAccessMode::Deny;
    request_grows(state.denies, path, request);
    nothing_shrinks(state.foundation);
    request_gives(state.denies, path, request, path.key(), guard, deny, path);
    one_entry_asks(entry, guard, deny);
    covering(rights_at(state.denies, path.key(), guard, deny), mask, 0);
    assert forall|k: int|
        0 <= k < context.write_roots.len() && path.is_within(#[trigger] context.write_roots[k])
            && !path.same_path(context.write_roots[k])
            && context.authorities.writers.dom().contains(
            context.write_roots[k].key(),
        ) implies removes_at(
        after.denies,
        path.key(),
        context.authorities.writers[context.write_roots[k].key()],
    ) by {
        let sid = context.authorities.writers[context.write_roots[k].key()];
        guarded_paths_know_their_roots(context, path, sid, path);
        request_gives(state.denies, path, request, path.key(), sid, deny, path);
    }
    assert forall|k: int|
        0 <= k < context.write_roots.len() && (#[trigger] context.write_roots[k]).is_within(
            path,
        ) implies leaves_out(after.denies, path.key(), context.write_roots[k]) by {
        let root = context.write_roots[k];
        guarded_paths_know_their_roots(context, path, guard, root);
        request_gives(state.denies, path, request, path.key(), guard, deny, root);
    }
}

/// What making an object writable comes to.
proof fn writable_gives(
    context: AclContext,
    state: BuilderModel,
    path: PathModel,
    root: PathModel,
)
    requires
        is_gathered(state),
        context.with_writable(state, path, root) is Ok,
    ensures
        extends(state, context.with_writable(state, path, root)->Ok_0),
        is_writable(context, context.with_writable(state, path, root)->Ok_0, path, root),
{
    let writer = context.authorities.writers[root.key()];
    let read_base = context.authorities.read_base;
    let group = context.group;
    let guard = context.authorities.guard;
    let request = RequestModel {
        entries: context.write_entries(writer),
        protect_dacl: true,
        remove_sids: seq![guard],
        excluded_roots: Seq::empty(),
    };
    let allow = AclAccessMode::Allow;
    let first = acl_entries::allowing(group, WRITE_ALLOW_MASK);
    let second = acl_entries::allowing(read_base, READ_ALLOW_MASK);
    let third = acl_entries::allowing(writer, WRITE_ALLOW_MASK);
    request_grows(state.foundation, path, request);
    nothing_shrinks(state.denies);
    request_gives(state.foundation, path, request, path.key(), group, allow, path);
    request_gives(state.foundation, path, request, path.key(), read_base, allow, path);
    request_gives(state.foundation, path, request, path.key(), writer, allow, path);
    request_gives(state.foundation, path, request, path.key(), guard, allow, path);
    assert(seq![guard].contains(guard)) by {
        assert(seq![guard][0] == guard);
    }
    three_entries_ask(first, second, third, group, allow);
    three_entries_ask(first, second, third, read_base, allow);
    three_entries_ask(first, second, third, writer, allow);
    some_right_of_three(
        rights_at(state.foundation, path.key(), group, allow),
        first,
        second,
        third,
        group,
    );
    some_right_of_three(
        rights_at(state.foundation, path.key(), read_base, allow),
        first,
        second,
        third,
        read_base,
    );
    some_right_of_three(
        rights_at(state.foundation, path.key(), writer, allow),
        first,
        second,
        third,
        writer,
    );
}

/// Rights that three entries add cover what each of them adds.
proof fn some_right_of_three(
    held: u32,
    first: AclEntryModel,
    second: AclEntryModel,
    third: AclEntryModel,
    sid: Seq<char>,
)
    ensures
        ({
            let all = held | acl_entries::asked_mask(
                seq![first, second, third],
                sid,
                AclAccessMode::Allow,
            );
            &&& first.is_for(sid, AclAccessMode::Allow) ==> covers(all, first.mask)
            &&& second.is_for(sid, AclAccessMode::Allow) ==> covers(all, second.mask)
            &&& third.is_for(sid, AclAccessMode::Allow) ==> covers(all, third.mask)
        }),
{
    let allow = AclAccessMode::Allow;
    three_entries_ask(first, second, third, sid, allow);
    let a: u32 = if first.is_for(sid, allow) {
        first.mask
    } else {
        0
    };
    let b: u32 = if second.is_for(sid, allow) {
        second.mask
    } else {
        0
    };
    let c: u32 = if third.is_for(sid, allow) {
        third.mask
    } else {
        0
    };
    assert({
        &&& (held | (a | b | c)) & a == a
        &&& (held | (a | b | c)) & b == b
        &&& (held | (a | b | c)) & c == c
    }) by (bit_vector);
}

/// What making an object readable comes to.
proof fn readable_gives(context: AclContext, state: BuilderModel, target: PlannedModel)
    requires
        is_gathered(state),
        target.access is ReadRoot,
    ensures
        context.with_target(state, target) is Ok,
        extends(state, context.with_target(state, target)->Ok_0),
        is_readable(context, context.with_target(state, target)->Ok_0, target.path),
{
    let path = target.path;
    let after = context.with_target(state, target)->Ok_0;
    let read_base = context.authorities.read_base;
    let group = context.group;
    let request = RequestModel {
        entries: context.read_entries(),
        protect_dacl: true,
        remove_sids: context.writers_above_from(path, 0),
        excluded_roots: Seq::empty(),
    };
    let allow = AclAccessMode::Allow;
    let first = acl_entries::allowing(group, READ_ALLOW_MASK);
    let second = acl_entries::allowing(read_base, READ_ALLOW_MASK);
    request_grows(state.foundation, path, request);
    nothing_shrinks(state.denies);
    request_gives(state.foundation, path, request, path.key(), group, allow, path);
    request_gives(state.foundation, path, request, path.key(), read_base, allow, path);
    two_entries_ask(first, second, group, allow);
    two_entries_ask(first, second, read_base, allow);
    covering(READ_ALLOW_MASK, 0, 0);
    covering(READ_ALLOW_MASK, READ_ALLOW_MASK, 0);
    covering(rights_at(state.foundation, path.key(), group, allow), READ_ALLOW_MASK, 0);
    covering(rights_at(state.foundation, path.key(), read_base, allow), READ_ALLOW_MASK, 0);
    assert(READ_ALLOW_MASK | READ_ALLOW_MASK == READ_ALLOW_MASK) by {
        let mask = READ_ALLOW_MASK;
        assert(mask | mask == mask) by (bit_vector);
    }
    assert forall|k: int|
        0 <= k < context.write_roots.len() && path.is_within(#[trigger] context.write_roots[k])
            && !path.same_path(context.write_roots[k])
            && context.authorities.writers.dom().contains(
            context.write_roots[k].key(),
        ) implies removes_at(
        after.foundation,
        path.key(),
        context.authorities.writers[context.write_roots[k].key()],
    ) by {
        let sid = context.authorities.writers[context.write_roots[k].key()];
        guarded_paths_know_their_roots(context, path, sid, path);
        request_gives(state.foundation, path, request, path.key(), sid, allow, path);
    }
}

/// Whether a target of a plan is given what its access says. One that is denied
/// is guarded by every right, those of readers and writers among them; one that is
/// read-only by every right to write, to delete, and to change its guard.
pub open spec fn is_given(context: AclContext, state: BuilderModel, target: PlannedModel) -> bool {
    match target.access {
        FilesystemPlanAccess::ReadRoot => is_readable(context, state, target.path),
        FilesystemPlanAccess::WriteRoot => is_writable(context, state, target.path, target.path),
        FilesystemPlanAccess::ReadOnly => {
            &&& is_guarded(context, state, target.path, WRITE_ALLOW_MASK & !READ_ALLOW_MASK)
            &&& is_guarded(context, state, target.path, 0x000d_0156)
        },
        FilesystemPlanAccess::Deny => {
            &&& is_guarded(context, state, target.path, 0x001f_01ff)
            &&& is_guarded(context, state, target.path, READ_ALLOW_MASK)
            &&& is_guarded(context, state, target.path, WRITE_ALLOW_MASK)
        },
    }
}

/// Whether a missing target of a plan is given what its kind says.
pub open spec fn is_given_when_made(
    context: AclContext,
    state: BuilderModel,
    target: MissingModel,
) -> bool {
    match target.kind {
        MissingFilesystemTargetKind::SkippedScope => true,
        MissingFilesystemTargetKind::ReadOnly => {
            &&& is_guarded(context, state, target.path, WRITE_ALLOW_MASK & !READ_ALLOW_MASK)
            &&& is_guarded(context, state, target.path, 0x000d_0156)
        },
        MissingFilesystemTargetKind::Protected => {
            &&& is_guarded(context, state, target.path, 0x001f_01ff)
            &&& is_guarded(context, state, target.path, READ_ALLOW_MASK)
            &&& is_guarded(context, state, target.path, WRITE_ALLOW_MASK)
        },
    }
}

/// What the masks of the guard cover.
proof fn guard_masks_cover()
    ensures
        covers(FILE_ALL_ACCESS, 0x001f_01ff),
        covers(FILE_ALL_ACCESS, READ_ALLOW_MASK),
        covers(FILE_ALL_ACCESS, WRITE_ALLOW_MASK),
        covers(WRITE_DENY_MASK, WRITE_ALLOW_MASK & !READ_ALLOW_MASK),
        covers(WRITE_DENY_MASK, 0x000d_0156),
{
    let all = FILE_ALL_ACCESS;
    let read = READ_ALLOW_MASK;
    let write = WRITE_ALLOW_MASK;
    let deny = WRITE_DENY_MASK;
    assert(read == 0x0012_00a9) by {
        assert(0x0012_0089u32 | 0x0012_00a0u32 == 0x0012_00a9) by (bit_vector);
    }
    assert(write == 0x0013_01bf) by {
        assert(0x0012_0089u32 | 0x0012_0116u32 | 0x0012_00a0u32 | 0x0001_0000u32 == 0x0013_01bf)
            by (bit_vector);
    }
    assert(deny == 0x001f_0156) by {
        assert(0x0012_0116u32 | 0x2u32 | 0x4u32 | 0x10u32 | 0x100u32 | 0x0001_0000u32 | 0x40u32
            | 0x0004_0000u32 | 0x0008_0000u32 == 0x001f_0156) by (bit_vector);
    }
    assert(all & 0x001f_01ff == 0x001f_01ff && all & read == read && all & write == write
        && deny & (write & !read) == (write & !read) && deny & 0x000d_0156 == 0x000d_0156)
        by (bit_vector)
        requires
            all == 0x001f_01ff,
            read == 0x0012_00a9,
            write == 0x0013_01bf,
            deny == 0x001f_0156,
    ;
}

/// An object that is guarded by rights is guarded by those that they cover.
proof fn guarded_by_less(
    context: AclContext,
    state: BuilderModel,
    path: PathModel,
    rights: u32,
    some: u32,
)
    requires
        is_guarded(context, state, path, rights),
        covers(rights, some),
    ensures
        is_guarded(context, state, path, some),
{
    covering(
        rights_at(state.denies, path.key(), context.authorities.guard, AclAccessMode::Deny),
        rights,
        some,
    );
}

/// What taking in a target comes to.
proof fn target_is_given(context: AclContext, state: BuilderModel, target: PlannedModel)
    requires
        is_gathered(state),
        context.with_target(state, target) is Ok,
    ensures
        extends(state, context.with_target(state, target)->Ok_0),
        is_given(context, context.with_target(state, target)->Ok_0, target),
{
    let after = context.with_target(state, target)->Ok_0;
    let path = target.path;
    guard_masks_cover();
    match target.access {
        FilesystemPlanAccess::ReadRoot => {
            readable_gives(context, state, target);
        },
        FilesystemPlanAccess::WriteRoot => {
            writable_gives(context, state, path, path);
        },
        FilesystemPlanAccess::ReadOnly => {
            deny_guards(context, state, path, WRITE_DENY_MASK);
            guarded_by_less(
                context,
                after,
                path,
                WRITE_DENY_MASK,
                WRITE_ALLOW_MASK & !READ_ALLOW_MASK,
            );
            guarded_by_less(context, after, path, WRITE_DENY_MASK, 0x000d_0156);
        },
        FilesystemPlanAccess::Deny => {
            deny_guards(context, state, path, FILE_ALL_ACCESS);
            guarded_by_less(context, after, path, FILE_ALL_ACCESS, 0x001f_01ff);
            guarded_by_less(context, after, path, FILE_ALL_ACCESS, READ_ALLOW_MASK);
            guarded_by_less(context, after, path, FILE_ALL_ACCESS, WRITE_ALLOW_MASK);
        },
    }
}

/// What taking in a missing target comes to.
proof fn missing_is_given(context: AclContext, state: BuilderModel, target: MissingModel)
    requires
        is_gathered(state),
    ensures
        extends(state, context.with_missing(state, target)),
        is_given_when_made(context, context.with_missing(state, target), target),
{
    let after = context.with_missing(state, target);
    let path = target.path;
    guard_masks_cover();
    match target.kind {
        MissingFilesystemTargetKind::SkippedScope => {
            nothing_shrinks(state.foundation);
            nothing_shrinks(state.denies);
        },
        MissingFilesystemTargetKind::ReadOnly => {
            deny_guards(context, state, path, WRITE_DENY_MASK);
            guarded_by_less(
                context,
                after,
                path,
                WRITE_DENY_MASK,
                WRITE_ALLOW_MASK & !READ_ALLOW_MASK,
            );
            guarded_by_less(context, after, path, WRITE_DENY_MASK, 0x000d_0156);
        },
        MissingFilesystemTargetKind::Protected => {
            deny_guards(context, state, path, FILE_ALL_ACCESS);
            guarded_by_less(context, after, path, FILE_ALL_ACCESS, 0x001f_01ff);
            guarded_by_less(context, after, path, FILE_ALL_ACCESS, READ_ALLOW_MASK);
            guarded_by_less(context, after, path, FILE_ALL_ACCESS, WRITE_ALLOW_MASK);
        },
    }
}

/// What was gathered twice more is gathered still.
proof fn extending_is_transitive(a: BuilderModel, b: BuilderModel, c: BuilderModel)
    requires
        extends(a, b),
        extends(b, c),
    ensures
        extends(a, c),
{
    growing_is_transitive(a.foundation, b.foundation, c.foundation);
    growing_is_transitive(a.denies, b.denies, c.denies);
}

/// A target that is given what it asks for still is, once more is gathered.
proof fn target_stays_given(
    context: AclContext,
    before: BuilderModel,
    after: BuilderModel,
    target: PlannedModel,
)
    requires
        extends(before, after),
        is_given(context, before, target),
    ensures
        is_given(context, after, target),
{
    let path = target.path;
    given_stays(context, before, after, path, path, 0x001f_01ff);
    given_stays(context, before, after, path, path, READ_ALLOW_MASK);
    given_stays(context, before, after, path, path, WRITE_ALLOW_MASK);
    given_stays(context, before, after, path, path, WRITE_ALLOW_MASK & !READ_ALLOW_MASK);
    given_stays(context, before, after, path, path, 0x000d_0156);
}

/// A missing target that is given what it asks for still is, once more is
/// gathered.
proof fn missing_stays_given(
    context: AclContext,
    before: BuilderModel,
    after: BuilderModel,
    target: MissingModel,
)
    requires
        extends(before, after),
        is_given_when_made(context, before, target),
    ensures
        is_given_when_made(context, after, target),
{
    let path = target.path;
    given_stays(context, before, after, path, path, 0x001f_01ff);
    given_stays(context, before, after, path, path, READ_ALLOW_MASK);
    given_stays(context, before, after, path, path, WRITE_ALLOW_MASK);
    given_stays(context, before, after, path, path, WRITE_ALLOW_MASK & !READ_ALLOW_MASK);
    given_stays(context, before, after, path, path, 0x000d_0156);
}

/// What taking in targets from the `from`th on comes to.
proof fn targets_are_given_from(
    context: AclContext,
    state: BuilderModel,
    targets: Seq<PlannedModel>,
    from: int,
)
    requires
        is_gathered(state),
        0 <= from <= targets.len(),
        context.with_targets_from(state, targets, from) is Ok,
    ensures
        ({
            let after = context.with_targets_from(state, targets, from)->Ok_0;
            &&& extends(state, after)
            &&& forall|i: int|
                from <= i < targets.len() ==> is_given(context, after, #[trigger] targets[i])
        }),
    decreases targets.len() - from,
{
    let after = context.with_targets_from(state, targets, from)->Ok_0;
    if from < targets.len() {
        let next = context.with_target(state, targets[from])->Ok_0;
        target_is_given(context, state, targets[from]);
        targets_are_given_from(context, next, targets, from + 1);
        extending_is_transitive(state, next, after);
        target_stays_given(context, next, after, targets[from]);
    } else {
        nothing_shrinks(state.foundation);
        nothing_shrinks(state.denies);
    }
}

/// What taking in missing targets from the `from`th on comes to.
proof fn missing_are_given_from(
    context: AclContext,
    state: BuilderModel,
    missing: Seq<MissingModel>,
    from: int,
)
    requires
        is_gathered(state),
        0 <= from <= missing.len(),
    ensures
        ({
            let after = context.with_missing_from(state, missing, from);
            &&& extends(state, after)
            &&& forall|i: int|
                from <= i < missing.len() ==> is_given_when_made(
                    context,
                    after,
                    #[trigger] missing[i],
                )
        }),
    decreases missing.len() - from,
{
    let after = context.with_missing_from(state, missing, from);
    if from < missing.len() {
        let next = context.with_missing(state, missing[from]);
        missing_is_given(context, state, missing[from]);
        missing_are_given_from(context, next, missing, from + 1);
        extending_is_transitive(state, next, after);
        missing_stays_given(context, next, after, missing[from]);
    } else {
        nothing_shrinks(state.foundation);
        nothing_shrinks(state.denies);
    }
}

/// Once a plan is collected, every target is given what its access says, and
/// every missing one what its kind says: what is denied is guarded by every right, what
/// is read-only by every right to write, readable roots are readable and writable ones
/// writable. What was gathered before stays.
pub proof fn plans_are_given(
    context: AclContext,
    state: BuilderModel,
    targets: Seq<PlannedModel>,
    missing: Seq<MissingModel>,
    after: BuilderModel,
)
    requires
        is_gathered(state),
        context.with_plan(state, targets, missing) == Ok::<BuilderModel, AclErrorModel>(after),
    ensures
        forall|i: int| 0 <= i < targets.len() ==> is_given(context, after, #[trigger] targets[i]),
        forall|i: int|
            0 <= i < missing.len() ==> is_given_when_made(context, after, #[trigger] missing[i]),
        extends(state, after),
{
    let middle = context.with_targets_from(state, targets, 0)->Ok_0;
    targets_are_given_from(context, state, targets, 0);
    missing_are_given_from(context, middle, missing, 0);
    extending_is_transitive(state, middle, after);
    assert forall|i: int| 0 <= i < targets.len() implies is_given(
        context,
        after,
        #[trigger] targets[i],
    ) by {
        target_stays_given(context, middle, after, targets[i]);
    }
}

/// Every target of a plan that is denied holds an entry that denies the guard
/// every right, those of readers and of writers among them.
pub proof fn denied_targets_are_denied_everything(
    context: AclContext,
    state: BuilderModel,
    targets: Seq<PlannedModel>,
    missing: Seq<MissingModel>,
    after: BuilderModel,
    i: int,
)
    requires
        is_gathered(state),
        context.with_plan(state, targets, missing) == Ok::<BuilderModel, AclErrorModel>(after),
        0 <= i < targets.len(),
        targets[i].access is Deny,
    ensures
        operation_at(after.denies, targets[i].path.key()) is Some,
        ({
            let denied = rights_at(
                after.denies,
                targets[i].path.key(),
                context.authorities.guard,
                AclAccessMode::Deny,
            );
            &&& denied & 0x001f_01ff == 0x001f_01ff
            &&& denied & READ_ALLOW_MASK == READ_ALLOW_MASK
            &&& denied & WRITE_ALLOW_MASK == WRITE_ALLOW_MASK
        }),
{
    plans_are_given(context, state, targets, missing, after);
    assert(is_given(context, after, targets[i]));
}

/// Whether a directory is writable as the deepest root is that it lies below.
pub open spec fn is_writable_below(
    context: AclContext,
    state: BuilderModel,
    directory: PathModel,
) -> bool {
    exists|k: int|
        #[trigger] context.is_deepest_root(directory, k) && is_writable(
            context,
            state,
            directory,
            context.write_roots[k],
        )
}

/// Created directories are writable as the deepest root is that they lie below.
pub proof fn created_directories_are_writable(
    context: AclContext,
    state: BuilderModel,
    directories: Seq<PathModel>,
    from: int,
)
    requires
        is_gathered(state),
        0 <= from <= directories.len(),
        context.with_directories_from(state, directories, from) is Ok,
    ensures
        ({
            let after = context.with_directories_from(state, directories, from)->Ok_0;
            &&& extends(state, after)
            &&& after.denies == state.denies
            &&& forall|i: int|
                from <= i < directories.len() ==> is_writable_below(
                    context,
                    after,
                    #[trigger] directories[i],
                )
        }),
    decreases directories.len() - from,
{
    let after = context.with_directories_from(state, directories, from)->Ok_0;
    if from < directories.len() {
        let path = directories[from];
        let next = context.with_directory(state, path)->Ok_0;
        let k = choose|k: int| context.is_deepest_root(path, k);
        writable_gives(context, state, path, context.write_roots[k]);
        created_directories_are_writable(context, next, directories, from + 1);
        extending_is_transitive(state, next, after);
        given_stays(context, next, after, path, context.write_roots[k], 0);
        assert(context.is_deepest_root(path, k));
        assert(is_writable_below(context, after, directories[from]));
    } else {
        nothing_shrinks(state.foundation);
        nothing_shrinks(state.denies);
    }
}

/// Nothing is gathered for an object that no target of a plan names.
pub proof fn other_objects_are_left_alone(
    context: AclContext,
    state: BuilderModel,
    targets: Seq<PlannedModel>,
    missing: Seq<MissingModel>,
    after: BuilderModel,
    key: Seq<u32>,
)
    requires
        is_gathered(state),
        context.with_plan(state, targets, missing) == Ok::<BuilderModel, AclErrorModel>(after),
        forall|i: int| 0 <= i < targets.len() ==> (#[trigger] targets[i]).path.key() != key,
        forall|i: int|
            0 <= i < missing.len() && !((#[trigger] missing[i]).kind is SkippedScope)
                ==> missing[i].path.key() != key,
    ensures
        operation_at(after.foundation, key) == operation_at(state.foundation, key),
        operation_at(after.continuation, key) == operation_at(state.continuation, key),
        operation_at(after.denies, key) == operation_at(state.denies, key),
{
    let middle = context.with_targets_from(state, targets, 0)->Ok_0;
    targets_leave_others(context, state, targets, 0, key);
    targets_are_given_from(context, state, targets, 0);
    missing_leave_others(context, middle, missing, 0, key);
}

/// A request leaves other objects alone.
proof fn deny_leaves_others(
    context: AclContext,
    state: BuilderModel,
    path: PathModel,
    mask: u32,
    key: Seq<u32>,
)
    requires
        is_gathered(state),
        path.key() != key,
    ensures
        operation_at(context.with_deny(state, path, mask).denies, key) == operation_at(
            state.denies,
            key,
        ),
{
    let request = RequestModel {
        entries: seq![acl_entries::denying(context.authorities.guard, mask)],
        protect_dacl: true,
        remove_sids: context.writers_above_from(path, 0),
        excluded_roots: context.roots_within_from(path, 0),
    };
    request_joins(state.denies, path, request, key);
}

/// Targets from the `from`th on leave other objects alone.
proof fn targets_leave_others(
    context: AclContext,
    state: BuilderModel,
    targets: Seq<PlannedModel>,
    from: int,
    key: Seq<u32>,
)
    requires
        is_gathered(state),
        0 <= from <= targets.len(),
        context.with_targets_from(state, targets, from) is Ok,
        forall|i: int| from <= i < targets.len() ==> (#[trigger] targets[i]).path.key() != key,
    ensures
        ({
            let after = context.with_targets_from(state, targets, from)->Ok_0;
            &&& operation_at(after.foundation, key) == operation_at(state.foundation, key)
            &&& operation_at(after.continuation, key) == operation_at(state.continuation, key)
            &&& operation_at(after.denies, key) == operation_at(state.denies, key)
        }),
    decreases targets.len() - from,
{
    if from < targets.len() {
        let target = targets[from];
        let path = target.path;
        let next = context.with_target(state, target)->Ok_0;
        target_is_given(context, state, target);
        match target.access {
            FilesystemPlanAccess::ReadRoot => {
                let request = RequestModel {
                    entries: context.read_entries(),
                    protect_dacl: true,
                    remove_sids: context.writers_above_from(path, 0),
                    excluded_roots: Seq::empty(),
                };
                request_joins(state.foundation, path, request, key);
            },
            FilesystemPlanAccess::WriteRoot => {
                let request = RequestModel {
                    entries: context.write_entries(context.authorities.writers[path.key()]),
                    protect_dacl: true,
                    remove_sids: seq![context.authorities.guard],
                    excluded_roots: Seq::empty(),
                };
                request_joins(state.foundation, path, request, key);
            },
            FilesystemPlanAccess::ReadOnly => {
                deny_leaves_others(context, state, path, WRITE_DENY_MASK, key);
            },
            FilesystemPlanAccess::Deny => {
                deny_leaves_others(context, state, path, FILE_ALL_ACCESS, key);
            },
        }
        targets_leave_others(context, next, targets, from + 1, key);
    }
}

/// Missing targets from the `from`th on leave other objects alone.
proof fn missing_leave_others(
    context: AclContext,
    state: BuilderModel,
    missing: Seq<MissingModel>,
    from: int,
    key: Seq<u32>,
)
    requires
        is_gathered(state),
        0 <= from <= missing.len(),
        forall|i: int|
            from <= i < missing.len() && !((#[trigger] missing[i]).kind is SkippedScope)
                ==> missing[i].path.key() != key,
    ensures
        ({
            let after = context.with_missing_from(state, missing, from);
            &&& operation_at(after.foundation, key) == operation_at(state.foundation, key)
            &&& operation_at(after.continuation, key) == operation_at(state.continuation, key)
            &&& operation_at(after.denies, key) == operation_at(state.denies, key)
        }),
    decreases missing.len() - from,
{
    if from < missing.len() {
        let target = missing[from];
        let next = context.with_missing(state, target);
        missing_is_given(context, state, target);
        if target.kind is ReadOnly {
            deny_leaves_others(context, state, target.path, WRITE_DENY_MASK, key);
        } else if target.kind is Protected {
            deny_leaves_others(context, state, target.path, FILE_ALL_ACCESS, key);
        }
        missing_leave_others(context, next, missing, from + 1, key);
    }
}

/// What a target asks for on a root.
spec fn root_rights(
    context: AclContext,
    target: PlannedModel,
    sid: Seq<char>,
    mode: AclAccessMode,
) -> u32 {
    match target.access {
        FilesystemPlanAccess::ReadRoot => acl_entries::asked_mask(
            context.read_entries(),
            sid,
            mode,
        ),
        FilesystemPlanAccess::WriteRoot => acl_entries::asked_mask(
            context.write_entries(context.authorities.writers[target.path.key()]),
            sid,
            mode,
        ),
        _ => 0,
    }
}

/// What is asked for by guarding with some rights.
spec fn guard_rights(
    context: AclContext,
    mask: u32,
    sid: Seq<char>,
    mode: AclAccessMode,
) -> u32 {
    acl_entries::asked_mask(
        seq![acl_entries::denying(context.authorities.guard, mask)],
        sid,
        mode,
    )
}

/// Rights that are not asked for do not change.
proof fn unasked_bits(held: u32, asked: u32, bits: u32)
    requires
        asked & bits == 0,
    ensures
        (held | asked) & bits == held & bits,
        (held | 0) & bits == held & bits,
{
    assert({
        &&& asked & bits == 0 ==> (held | asked) & bits == held & bits
        &&& (held | 0) & bits == held & bits
    }) by (bit_vector);
}

/// What guarding an object leaves of other rights.
proof fn deny_keeps_bits(
    context: AclContext,
    state: BuilderModel,
    path: PathModel,
    mask: u32,
    key: Seq<u32>,
    sid: Seq<char>,
    mode: AclAccessMode,
    bits: u32,
)
    requires
        is_gathered(state),
        path.key() == key ==> guard_rights(context, mask, sid, mode) & bits == 0,
    ensures
        rights_at(context.with_deny(state, path, mask).denies, key, sid, mode) & bits == rights_at(
            state.denies,
            key,
            sid,
            mode,
        ) & bits,
{
    let request = RequestModel {
        entries: seq![acl_entries::denying(context.authorities.guard, mask)],
        protect_dacl: true,
        remove_sids: context.writers_above_from(path, 0),
        excluded_roots: context.roots_within_from(path, 0),
    };
    request_gives(state.denies, path, request, key, sid, mode, path);
    all_bits(bits, bits);
    unasked_bits(
        rights_at(state.denies, key, sid, mode),
        if key == path.key() {
            guard_rights(context, mask, sid, mode)
        } else {
            0
        },
        bits,
    );
}

/// What targets from the `from`th on leave of rights that none of them asks for.
proof fn targets_keep_bits(
    context: AclContext,
    state: BuilderModel,
    targets: Seq<PlannedModel>,
    from: int,
    key: Seq<u32>,
    sid: Seq<char>,
    mode: AclAccessMode,
    root_bits: u32,
    guard_bits: u32,
)
    requires
        is_gathered(state),
        0 <= from <= targets.len(),
        context.with_targets_from(state, targets, from) is Ok,
        forall|i: int|
            from <= i < targets.len() && (#[trigger] targets[i]).path.key() == key ==> {
                &&& root_rights(context, targets[i], sid, mode) & root_bits == 0
                &&& targets[i].access is ReadOnly ==> guard_rights(
                    context,
                    WRITE_DENY_MASK,
                    sid,
                    mode,
                ) & guard_bits == 0
                &&& targets[i].access is Deny ==> guard_rights(context, FILE_ALL_ACCESS, sid, mode)
                    & guard_bits == 0
            },
    ensures
        ({
            let after = context.with_targets_from(state, targets, from)->Ok_0;
            &&& rights_at(after.foundation, key, sid, mode) & root_bits == rights_at(
                state.foundation,
                key,
                sid,
                mode,
            ) & root_bits
            &&& rights_at(after.denies, key, sid, mode) & guard_bits == rights_at(
                state.denies,
                key,
                sid,
                mode,
            ) & guard_bits
        }),
    decreases targets.len() - from,
{
    if from < targets.len() {
        let target = targets[from];
        let path = target.path;
        let next = context.with_target(state, target)->Ok_0;
        target_is_given(context, state, target);
        all_bits(root_bits, root_bits);
        match target.access {
            FilesystemPlanAccess::ReadRoot => {
                let request = RequestModel {
                    entries: context.read_entries(),
                    protect_dacl: true,
                    remove_sids: context.writers_above_from(path, 0),
                    excluded_roots: Seq::empty(),
                };
                request_gives(state.foundation, path, request, key, sid, mode, path);
            },
            FilesystemPlanAccess::WriteRoot => {
                let request = RequestModel {
                    entries: context.write_entries(context.authorities.writers[path.key()]),
                    protect_dacl: true,
                    remove_sids: seq![context.authorities.guard],
                    excluded_roots: Seq::empty(),
                };
                request_gives(state.foundation, path, request, key, sid, mode, path);
            },
            FilesystemPlanAccess::ReadOnly => {
                deny_keeps_bits(
                    context,
                    state,
                    path,
                    WRITE_DENY_MASK,
                    key,
                    sid,
                    mode,
                    guard_bits,
                );
            },
            FilesystemPlanAccess::Deny => {
                deny_keeps_bits(
                    context,
                    state,
                    path,
                    FILE_ALL_ACCESS,
                    key,
                    sid,
                    mode,
                    guard_bits,
                );
            },
        }
        unasked_bits(
            rights_at(state.foundation, key, sid, mode),
            if key == path.key() {
                root_rights(context, target, sid, mode)
            } else {
                0
            },
            root_bits,
        );
        targets_keep_bits(
            context,
            next,
            targets,
            from + 1,
            key,
            sid,
            mode,
            root_bits,
            guard_bits,
        );
    }
}

/// What missing targets from the `from`th on leave of rights that none of them
/// asks for.
proof fn missing_keep_bits(
    context: AclContext,
    state: BuilderModel,
    missing: Seq<MissingModel>,
    from: int,
    key: Seq<u32>,
    sid: Seq<char>,
    mode: AclAccessMode,
    bits: u32,
)
    requires
        is_gathered(state),
        0 <= from <= missing.len(),
        forall|i: int|
            from <= i < missing.len() && (#[trigger] missing[i]).path.key() == key ==> {
                &&& missing[i].kind is ReadOnly ==> guard_rights(
                    context,
                    WRITE_DENY_MASK,
                    sid,
                    mode,
                ) & bits == 0
                &&& missing[i].kind is Protected ==> guard_rights(
                    context,
                    FILE_ALL_ACCESS,
                    sid,
                    mode,
                ) & bits == 0
            },
    ensures
        ({
            let after = context.with_missing_from(state, missing, from);
            &&& after.foundation == state.foundation
            &&& rights_at(after.denies, key, sid, mode) & bits == rights_at(
                state.denies,
                key,
                sid,
                mode,
            ) & bits
        }),
    decreases missing.len() - from,
{
    if from < missing.len() {
        let target = missing[from];
        let next = context.with_missing(state, target);
        missing_is_given(context, state, target);
        if target.kind is ReadOnly {
            deny_keeps_bits(
                context,
                state,
                target.path,
                WRITE_DENY_MASK,
                key,
                sid,
                mode,
                bits,
            );
        } else if target.kind is Protected {
            deny_keeps_bits(
                context,
                state,
                target.path,
                FILE_ALL_ACCESS,
                key,
                sid,
                mode,
                bits,
            );
        }
        missing_keep_bits(context, next, missing, from + 1, key, sid, mode, bits);
    }
}

/// Rights are all of their bits.
proof fn all_bits(a: u32, b: u32)
    ensures
        a & 0xffff_ffff == b & 0xffff_ffff ==> a == b,
        0 & a == 0,
        a & 0 == 0,
        0u32 | 0u32 | 0u32 == 0,
        0u32 | 0u32 == 0,
{
    assert({
        &&& a & 0xffff_ffff == b & 0xffff_ffff ==> a == b
        &&& 0 & a == 0
        &&& a & 0 == 0
        &&& 0u32 | 0u32 | 0u32 == 0
        &&& 0u32 | 0u32 == 0
    }) by (bit_vector);
}

/// A plan denies something to no one but the guard, and allows something on
/// roots alone: no other denial is gathered, and guarded paths gather no grants.
pub proof fn only_the_guard_is_denied(
    context: AclContext,
    state: BuilderModel,
    targets: Seq<PlannedModel>,
    missing: Seq<MissingModel>,
    after: BuilderModel,
    key: Seq<u32>,
    sid: Seq<char>,
)
    requires
        is_gathered(state),
        context.with_plan(state, targets, missing) == Ok::<BuilderModel, AclErrorModel>(after),
    ensures
        rights_at(after.foundation, key, sid, AclAccessMode::Deny) == rights_at(
            state.foundation,
            key,
            sid,
            AclAccessMode::Deny,
        ),
        rights_at(after.denies, key, sid, AclAccessMode::Allow) == rights_at(
            state.denies,
            key,
            sid,
            AclAccessMode::Allow,
        ),
        sid != context.authorities.guard ==> rights_at(
            after.denies,
            key,
            sid,
            AclAccessMode::Deny,
        ) == rights_at(state.denies, key, sid, AclAccessMode::Deny),
{
    let middle = context.with_targets_from(state, targets, 0)->Ok_0;
    let allow = AclAccessMode::Allow;
    let deny = AclAccessMode::Deny;
    let guard = context.authorities.guard;
    let every: u32 = 0xffff_ffff;
    let none: u32 = 0;
    targets_are_given_from(context, state, targets, 0);
    all_bits(every, every);
    all_bits(none, none);
    assert forall|i: int| 0 <= i < targets.len() implies root_rights(
        context,
        #[trigger] targets[i],
        sid,
        deny,
    ) & every == 0 by {
        two_entries_ask(context.read_entries()[0], context.read_entries()[1], sid, deny);
        let writer = context.authorities.writers[targets[i].path.key()];
        let entries = context.write_entries(writer);
        three_entries_ask(entries[0], entries[1], entries[2], sid, deny);
        assert(entries =~= seq![entries[0], entries[1], entries[2]]);
        all_bits(every, every);
    }
    one_entry_asks(acl_entries::denying(guard, WRITE_DENY_MASK), sid, allow);
    one_entry_asks(acl_entries::denying(guard, FILE_ALL_ACCESS), sid, allow);
    one_entry_asks(acl_entries::denying(guard, WRITE_DENY_MASK), sid, deny);
    one_entry_asks(acl_entries::denying(guard, FILE_ALL_ACCESS), sid, deny);
    assert forall|a: u32| #[trigger] (a & none) == 0 by {
        all_bits(a, a);
    }
    let guard_bits = if sid == guard {
        none
    } else {
        every
    };
    targets_keep_bits(context, state, targets, 0, key, sid, deny, every, guard_bits);
    missing_keep_bits(context, middle, missing, 0, key, sid, deny, guard_bits);
    targets_keep_bits(context, state, targets, 0, key, sid, allow, none, every);
    missing_keep_bits(context, middle, missing, 0, key, sid, allow, every);
    all_bits(
        rights_at(after.foundation, key, sid, deny),
        rights_at(state.foundation, key, sid, deny),
    );
    all_bits(rights_at(after.denies, key, sid, allow), rights_at(state.denies, key, sid, allow));
    all_bits(rights_at(after.denies, key, sid, deny), rights_at(state.denies, key, sid, deny));
}

/// What a plan does not deny altogether can still be read: on an object that no
/// target denies and none protects, no right to read, to look at or to run is denied.
pub proof fn read_only_objects_can_be_read(
    context: AclContext,
    state: BuilderModel,
    targets: Seq<PlannedModel>,
    missing: Seq<MissingModel>,
    after: BuilderModel,
    key: Seq<u32>,
)
    requires
        is_gathered(state),
        context.with_plan(state, targets, missing) == Ok::<BuilderModel, AclErrorModel>(after),
        forall|i: int|
            0 <= i < targets.len() && (#[trigger] targets[i]).path.key() == key
                ==> !(targets[i].access is Deny),
        forall|i: int|
            0 <= i < missing.len() && (#[trigger] missing[i]).path.key() == key
                ==> !(missing[i].kind is Protected),
    ensures
        rights_at(after.denies, key, context.authorities.guard, AclAccessMode::Deny) & 0xa9
            == rights_at(state.denies, key, context.authorities.guard, AclAccessMode::Deny) & 0xa9,
{
    let middle = context.with_targets_from(state, targets, 0)->Ok_0;
    let deny = AclAccessMode::Deny;
    let guard = context.authorities.guard;
    targets_are_given_from(context, state, targets, 0);
    one_entry_asks(acl_entries::denying(guard, WRITE_DENY_MASK), guard, deny);
    assert((0x0012_0116u32 | 0x2u32 | 0x4u32 | 0x10u32 | 0x100u32 | 0x0001_0000u32 | 0x40u32
        | 0x0004_0000u32 | 0x0008_0000u32) & 0xa9 == 0) by (bit_vector);
    let none: u32 = 0;
    assert forall|a: u32| #[trigger] (a & none) == 0 by {
        all_bits(a, a);
    }
    targets_keep_bits(context, state, targets, 0, key, guard, deny, none, 0xa9);
    missing_keep_bits(context, middle, missing, 0, key, guard, deny, 0xa9);
}

/// What is no writable root of a plan cannot be written by it: on such an object
/// no one is allowed to write, to delete, or to change its guard. The reading
/// authority is allowed nothing of the kind on writable roots either, nor is anyone
/// but the group and that root's own authority.
pub proof fn only_writable_roots_can_be_written(
    context: AclContext,
    state: BuilderModel,
    targets: Seq<PlannedModel>,
    missing: Seq<MissingModel>,
    after: BuilderModel,
    key: Seq<u32>,
    sid: Seq<char>,
)
    requires
        is_gathered(state),
        context.with_plan(state, targets, missing) == Ok::<BuilderModel, AclErrorModel>(after),
        forall|i: int|
            0 <= i < targets.len() && (#[trigger] targets[i]).path.key() == key
                ==> !(targets[i].access is WriteRoot) || (sid != context.group && sid
                != context.authorities.writers[key]),
    ensures
        rights_at(after.foundation, key, sid, AclAccessMode::Allow) & 0x000d_0156 == rights_at(
            state.foundation,
            key,
            sid,
            AclAccessMode::Allow,
        ) & 0x000d_0156,
{
    let middle = context.with_targets_from(state, targets, 0)->Ok_0;
    let allow = AclAccessMode::Allow;
    let bits: u32 = 0x000d_0156;
    let none: u32 = 0;
    targets_are_given_from(context, state, targets, 0);
    assert forall|a: u32| #[trigger] (a & none) == 0 by {
        all_bits(a, a);
    }
    let read = READ_ALLOW_MASK;
    assert(read == 0x0012_00a9) by {
        assert(0x0012_0089u32 | 0x0012_00a0u32 == 0x0012_00a9) by (bit_vector);
    }
    assert forall|i: int|
        0 <= i < targets.len() && (#[trigger] targets[i]).path.key() == key implies root_rights(
        context,
        targets[i],
        sid,
        allow,
    ) & bits == 0 by {
        let entries = context.read_entries();
        two_entries_ask(entries[0], entries[1], sid, allow);
        let writer = context.authorities.writers[targets[i].path.key()];
        let more = context.write_entries(writer);
        three_entries_ask(more[0], more[1], more[2], sid, allow);
        assert(more =~= seq![more[0], more[1], more[2]]);
        let a: u32 = if entries[0].is_for(sid, allow) {
            read
        } else {
            0
        };
        let b: u32 = if entries[1].is_for(sid, allow) {
            read
        } else {
            0
        };
        let zero: u32 = 0;
        assert((a | b) & bits == 0 && (zero | b | zero) & bits == 0 && zero & bits == 0)
            by (bit_vector)
            requires
                a == 0 || a == 0x0012_00a9,
                b == 0 || b == 0x0012_00a9,
                bits == 0x000d_0156,
                zero == 0,
        ;
    }
    targets_keep_bits(context, state, targets, 0, key, sid, allow, bits, none);
    missing_keep_bits(context, middle, missing, 0, key, sid, allow, none);
}

} // verus!
