//! The operations of an access-control plan: what exists below its roots, and
//! the order in which lists are changed.

use vstd::prelude::*;

use crate::acl_builder;
use crate::acl_builder::{AclPlanBuilder, BuilderModel};
use crate::acl_entries;
use crate::acl_entries::{AclEntry, AclEntryModel, OperationModel, PendingAclOperation};
use crate::acl_error::{AclError, AclErrorModel, FilesystemAclError};
use crate::filesystem_plan::Opened;
use crate::keyed::Keyed;
use crate::native_path;
use crate::native_path::{NativePath, PathModel};
use crate::ordering;
use crate::text;

verus! {

/// The paths of operations, from the `i`th on, that lie strictly below a
/// root.
pub open spec fn boundaries_from(
    operations: Seq<OperationModel>,
    root: PathModel,
    i: int,
) -> Seq<PathModel>
    decreases operations.len() - i,
{
    if i < 0 || i >= operations.len() {
        Seq::empty()
    } else {
        let path = operations[i].path;
        let rest = boundaries_from(operations, root, i + 1);
        if !path.same_path(root) && path.is_within(root) {
            seq![path] + rest
        } else {
            rest
        }
    }
}

/// The paths strictly below a root that get entries of their own.
pub open spec fn boundaries(
    root: PathModel,
    foundation: Seq<OperationModel>,
    denies: Seq<OperationModel>,
) -> Seq<PathModel> {
    boundaries_from(foundation, root, 0) + boundaries_from(denies, root, 0)
}

/// Appends the paths of operations that lie strictly below a root.
fn push_boundaries(
    paths: &mut Vec<NativePath>,
    root: &NativePath,
    operations: &Keyed<PendingAclOperation>,
)
    ensures
        native_path::models(final(paths)@) == native_path::models(old(paths)@) + boundaries_from(
            acl_builder::operation_models(operations.items()),
            root@,
            0,
        ),
{
    let ghost list = acl_builder::operation_models(operations.items());
    let ghost whole = native_path::models(paths@) + boundaries_from(list, root@, 0);
    let count: usize = operations.len();
    for i in 0..count
        invariant
            count == operations.items().len(),
            list == acl_builder::operation_models(operations.items()),
            native_path::models(paths@) + boundaries_from(list, root@, i as int) == whole,
    {
        let operation = operations.get(i);
        let path = operation.path();
        assert(list[i as int].path == path@);
        let ghost held = native_path::models(paths@);
        let ghost rest = boundaries_from(list, root@, i + 1);
        if !path.same_path(root) && path.is_within(root) {
            paths.push(path.clone());
            assert(native_path::models(paths@) =~= held.push(path@));
            assert(held + (seq![path@] + rest) =~= native_path::models(paths@) + rest);
        }
    }
    assert(native_path::models(paths@) + Seq::<PathModel>::empty() =~= native_path::models(paths@));
}

/// The paths strictly below a root that get entries of their own.
pub fn nested_acl_boundaries(
    root: &NativePath,
    foundations: &Keyed<PendingAclOperation>,
    denies: &Keyed<PendingAclOperation>,
) -> (paths: Vec<NativePath>)
    ensures
        native_path::models(paths@) == boundaries(
            root@,
            acl_builder::operation_models(foundations.items()),
            acl_builder::operation_models(denies.items()),
        ),
{
    let mut paths: Vec<NativePath> = Vec::new();
    assert(native_path::models(paths@) =~= Seq::<PathModel>::empty());
    push_boundaries(&mut paths, root, foundations);
    push_boundaries(&mut paths, root, denies);
    assert(native_path::models(paths@) =~= boundaries(
        root@,
        acl_builder::operation_models(foundations.items()),
        acl_builder::operation_models(denies.items()),
    ));
    paths
}

/// A root below which existing objects are looked for, what they get, and
/// what is left out.
#[derive(Debug)]
pub struct ScanRequest {
    /// The root.
    pub root: NativePath,
    /// What existing objects get.
    pub entries: Vec<AclEntry>,
    /// What is left out.
    pub exclusions: Vec<NativePath>,
}

/// What a scan request asks.
#[verifier::ext_equal]
pub struct ScanRequestModel {
    /// The root.
    pub root: PathModel,
    /// What existing objects get.
    pub entries: Seq<AclEntryModel>,
    /// What is left out.
    pub exclusions: Seq<PathModel>,
}

impl View for ScanRequest {
    type V = ScanRequestModel;

    open spec fn view(&self) -> ScanRequestModel {
        ScanRequestModel {
            root: self.root@,
            entries: acl_entries::entry_models(self.entries@),
            exclusions: native_path::models(self.exclusions@),
        }
    }
}

/// What scan requests ask.
pub open spec fn request_models(requests: Seq<ScanRequest>) -> Seq<ScanRequestModel> {
    requests.map_values(|request: ScanRequest| request@)
}

/// What is looked for: below every root all but what gets entries of its
/// own, and below every guarded path all but the writable roots.
pub open spec fn requests(state: BuilderModel) -> Seq<ScanRequestModel> {
    Seq::new(
        state.foundation.len() + state.denies.len(),
        |i: int|
            if i < state.foundation.len() {
                ScanRequestModel {
                    root: state.foundation[i].path,
                    entries: state.foundation[i].entries,
                    exclusions: boundaries(
                        state.foundation[i].path,
                        state.foundation,
                        state.denies,
                    ),
                }
            } else {
                let operation = state.denies[i - state.foundation.len()];
                ScanRequestModel {
                    root: operation.path,
                    entries: operation.entries,
                    exclusions: operation.excluded_roots,
                }
            },
    )
}

/// An object that exists below a root.
#[derive(Debug)]
pub struct SubtreePath {
    /// Its path.
    pub path: NativePath,
    /// Whether it is a directory.
    pub is_directory: bool,
}

/// Operations with what existing objects get, from the `i`th on.
pub open spec fn with_descendants_from(
    operations: Seq<OperationModel>,
    entries: Seq<AclEntryModel>,
    descendants: Seq<SubtreePath>,
    i: int,
) -> Seq<OperationModel>
    decreases descendants.len() - i,
{
    if i < 0 || i >= descendants.len() {
        operations
    } else {
        with_descendants_from(
            acl_builder::with_request(
                operations,
                descendants[i].path@,
                acl_entries::for_existing(entries, descendants[i].is_directory),
                false,
                Seq::empty(),
                Seq::empty(),
            ),
            entries,
            descendants,
            i + 1,
        )
    }
}

/// Operations with what was found for requests, from the `i`th on.
pub open spec fn with_scans_from(
    operations: Seq<OperationModel>,
    requests: Seq<ScanRequest>,
    found: Seq<Vec<SubtreePath>>,
    i: int,
) -> Seq<OperationModel>
    decreases requests.len() - i,
{
    if i < 0 || i >= requests.len() {
        operations
    } else {
        with_scans_from(
            with_descendants_from(operations, requests[i]@.entries, found[i]@, 0),
            requests,
            found,
            i + 1,
        )
    }
}

/// A change of one object's access-control list.
#[derive(Debug)]
pub struct AclOperation {
    /// The object.
    pub path: NativePath,
    /// Whether the object is held open, or was found by a scan.
    pub pinned: bool,
    /// The entries that it gets.
    pub entries: Vec<AclEntry>,
    /// Whose entries go.
    pub remove_sids: Vec<String>,
    /// Whether entries from above stop here.
    pub protect_dacl: bool,
}

/// What a change does.
#[verifier::ext_equal]
pub struct ChangeModel {
    /// The object.
    pub path: PathModel,
    /// Whether the object is held open.
    pub pinned: bool,
    /// The entries that it gets.
    pub entries: Seq<AclEntryModel>,
    /// Whose entries go.
    pub remove_sids: Seq<Seq<char>>,
    /// Whether entries from above stop here.
    pub protect_dacl: bool,
}

impl View for AclOperation {
    type V = ChangeModel;

    open spec fn view(&self) -> ChangeModel {
        ChangeModel {
            path: self.path@,
            pinned: self.pinned,
            entries: acl_entries::entry_models(self.entries@),
            remove_sids: text::texts(self.remove_sids@),
            protect_dacl: self.protect_dacl,
        }
    }
}

/// What changes do.
pub open spec fn change_models(operations: Seq<AclOperation>) -> Seq<ChangeModel> {
    operations.map_values(|operation: AclOperation| operation@)
}

/// A number as four words, most significant first.
pub open spec fn count_words(n: nat) -> Seq<u32> {
    seq![
        (n / 0x1_0000_0000_0000_0000_0000_0000) as u32,
        (n / 0x1_0000_0000_0000_0000 % 0x1_0000_0000) as u32,
        (n / 0x1_0000_0000 % 0x1_0000_0000) as u32,
        (n % 0x1_0000_0000) as u32,
    ]
}

/// The words by which changes are ordered: by how deep the object lies, then
/// by its path.
pub open spec fn depth_key(path: PathModel) -> Seq<u32> {
    count_words(path.component_count()) + path.key()
}

/// The keys of changes.
pub open spec fn depth_keys(operations: Seq<ChangeModel>) -> Seq<Seq<u32>> {
    operations.map_values(|operation: ChangeModel| depth_key(operation.path))
}

/// Whether a list holds the changes of another, shallow objects first.
pub open spec fn is_depth_ordered(sorted: Seq<ChangeModel>, all: Seq<ChangeModel>) -> bool {
    exists|positions: Seq<usize>|
        {
            &&& #[trigger] ordering::ascending(positions, depth_keys(all))
            &&& sorted == Seq::new(all.len(), |i: int| all[positions[i] as int])
        }
}

/// The first word at which two sequences differ decides their order.
proof fn first_word_decides(x: Seq<u32>, y: Seq<u32>)
    requires
        ordering::lex_le(x, y),
        x.len() > 0,
        y.len() > 0,
    ensures
        x[0] < y[0] || (x[0] == y[0] && ordering::lex_le(x.skip(1), y.skip(1))),
{
}

/// A number is the sum of its words.
proof fn count_is_its_words(n: nat)
    requires
        n <= u128::MAX,
    ensures
        n == count_words(n)[0] * 0x1_0000_0000_0000_0000_0000_0000 + count_words(n)[1]
            * 0x1_0000_0000_0000_0000 + count_words(n)[2] * 0x1_0000_0000 + count_words(n)[3],
{
    assert(n / 0x1_0000_0000_0000_0000_0000_0000 <= u32::MAX);
    assert(n / 0x1_0000_0000_0000_0000 == n / 0x1_0000_0000_0000_0000_0000_0000 * 0x1_0000_0000
        + n / 0x1_0000_0000_0000_0000 % 0x1_0000_0000);
    assert(n / 0x1_0000_0000 == n / 0x1_0000_0000_0000_0000 * 0x1_0000_0000 + n / 0x1_0000_0000
        % 0x1_0000_0000);
}

/// Sequences that begin with the words of numbers are ordered as the numbers
/// are.
proof fn leading_count_orders(m: nat, n: nat, x: Seq<u32>, y: Seq<u32>)
    requires
        m <= u128::MAX,
        n <= u128::MAX,
        ordering::lex_le(count_words(m) + x, count_words(n) + y),
    ensures
        m <= n,
{
    let v = count_words(m);
    let w = count_words(n);
    let a = v + x;
    let b = w + y;
    assert(a[0] == v[0] && a[1] == v[1] && a[2] == v[2] && a[3] == v[3]);
    assert(b[0] == w[0] && b[1] == w[1] && b[2] == w[2] && b[3] == w[3]);
    first_word_decides(a, b);
    if a[0] == b[0] {
        first_word_decides(a.skip(1), b.skip(1));
        if a[1] == b[1] {
            first_word_decides(a.skip(1).skip(1), b.skip(1).skip(1));
            if a[2] == b[2] {
                first_word_decides(a.skip(1).skip(1).skip(1), b.skip(1).skip(1).skip(1));
            }
        }
    }
    count_is_its_words(m);
    count_is_its_words(n);
}

/// The words of numbers are ordered as the numbers are.
pub proof fn count_words_order(m: nat, n: nat)
    requires
        m <= u128::MAX,
        n <= u128::MAX,
        ordering::lex_le(count_words(m), count_words(n)),
    ensures
        m <= n,
{
    assert(count_words(m) + Seq::<u32>::empty() =~= count_words(m));
    assert(count_words(n) + Seq::<u32>::empty() =~= count_words(n));
    leading_count_orders(m, n, Seq::empty(), Seq::empty());
}

/// In a list that is ordered by depth no object stands before a shallower
/// one: parents are changed before what they hold.
pub proof fn parents_come_first(sorted: Seq<ChangeModel>, all: Seq<ChangeModel>, i: int, j: int)
    requires
        is_depth_ordered(sorted, all),
        0 <= i < j < sorted.len(),
        forall|k: int|
            0 <= k < all.len() ==> (#[trigger] all[k]).path.component_count() <= u128::MAX,
    ensures
        sorted[i].path.component_count() <= sorted[j].path.component_count(),
{
    let positions = choose|positions: Seq<usize>|
        {
            &&& #[trigger] ordering::ascending(positions, depth_keys(all))
            &&& sorted == Seq::new(all.len(), |i: int| all[positions[i] as int])
        };
    let keys = depth_keys(all);
    assert(positions[i] != positions[j]);
    assert(ordering::lex_le(keys[positions[i] as int], keys[positions[j] as int]));
    leading_count_orders(
        sorted[i].path.component_count(),
        sorted[j].path.component_count(),
        sorted[i].path.key(),
        sorted[j].path.key(),
    );
}

/// A number as four words, most significant first.
pub(crate) fn words_of_count(n: u128) -> (words: Vec<u32>)
    ensures
        words@ == count_words(n as nat),
{
    let mut words: Vec<u32> = Vec::new();
    words.push((n / 0x1_0000_0000_0000_0000_0000_0000) as u32);
    words.push((n / 0x1_0000_0000_0000_0000 % 0x1_0000_0000) as u32);
    words.push((n / 0x1_0000_0000 % 0x1_0000_0000) as u32);
    words.push((n % 0x1_0000_0000) as u32);
    assert(words@ =~= count_words(n as nat));
    words
}

/// The words by which changes are ordered.
fn words_of_depth(path: &NativePath) -> (words: Vec<u32>)
    ensures
        words@ == depth_key(path@),
{
    let mut words = words_of_count(path.component_count());
    let key = path.key();
    let ghost front = words@;
    for i in 0..key.len()
        invariant
            words@ == front + key@.take(i as int),
    {
        words.push(key[i]);
        assert(words@ =~= front + key@.take(i + 1));
    }
    assert(key@.take(key@.len() as int) =~= key@);
    words
}

impl Clone for AclOperation {
    fn clone(&self) -> (copy: Self)
        ensures
            copy@ == self@,
    {
        let mut entries: Vec<AclEntry> = Vec::new();
        for i in 0..self.entries.len()
            invariant
                entries@.len() == i,
                forall|j: int| 0 <= j < i ==> (#[trigger] entries@[j])@ == self.entries@[j]@,
        {
            entries.push(self.entries[i].clone());
        }
        let mut remove_sids: Vec<String> = Vec::new();
        for i in 0..self.remove_sids.len()
            invariant
                remove_sids@.len() == i,
                forall|j: int|
                    0 <= j < i ==> (#[trigger] remove_sids@[j])@ == self.remove_sids@[j]@,
        {
            remove_sids.push(self.remove_sids[i].clone());
        }
        assert(acl_entries::entry_models(entries@) =~= self@.entries);
        assert(text::texts(remove_sids@) =~= self@.remove_sids);
        AclOperation {
            path: self.path.clone(),
            pinned: self.pinned,
            entries,
            remove_sids,
            protect_dacl: self.protect_dacl,
        }
    }
}

/// Orders changes: shallow objects first.
pub fn sort_operations(operations: &Vec<AclOperation>) -> (sorted: Vec<AclOperation>)
    ensures
        is_depth_ordered(change_models(sorted@), change_models(operations@)),
{
    let ghost all = change_models(operations@);
    let mut keys: Vec<Vec<u32>> = Vec::new();
    for i in 0..operations.len()
        invariant
            keys@.len() == i,
            forall|j: int|
                0 <= j < i ==> (#[trigger] keys@[j])@ == depth_key(operations@[j].path@),
    {
        keys.push(words_of_depth(&operations[i].path));
    }
    assert(ordering::key_list(keys@) =~= depth_keys(all));
    let positions = ordering::sorted_positions(&keys);
    let mut sorted: Vec<AclOperation> = Vec::new();
    for i in 0..positions.len()
        invariant
            all == change_models(operations@),
            ordering::ascending(positions@, depth_keys(all)),
            sorted@.len() == i,
            forall|j: int|
                0 <= j < i ==> (#[trigger] sorted@[j])@ == operations@[positions@[j] as int]@,
    {
        sorted.push(operations[positions[i]].clone());
    }
    assert(change_models(sorted@) =~= Seq::new(all.len(), |i: int| all[positions@[i] as int]));
    sorted
}

/// The change of an operation at the place where its object was opened.
pub open spec fn change_at(
    operation: OperationModel,
    path: PathModel,
    pinned: bool,
) -> ChangeModel {
    ChangeModel {
        path,
        pinned,
        entries: operation.entries,
        remove_sids: operation.remove_sids,
        protect_dacl: operation.protect_dacl,
    }
}

/// Why an object could not be opened, from the `i`th on.
pub open spec fn opening_failure_from(opened: Seq<Opened>, i: int) -> Option<AclErrorModel>
    decreases opened.len() - i,
{
    if i < 0 || i >= opened.len() {
        None
    } else {
        match opened[i] {
            Ok(_) => opening_failure_from(opened, i + 1),
            Err(error) => Some(AclErrorModel::InvalidPath(error@)),
        }
    }
}

/// The changes of operations at the places where their objects were opened.
pub open spec fn pinned_changes(operations: Seq<OperationModel>, opened: Seq<Opened>) -> Seq<
    ChangeModel,
> {
    Seq::new(
        operations.len(),
        |i: int| change_at(operations[i], opened[i]->Ok_0@, true),
    )
}

/// The changes of operations on objects that a scan found.
pub open spec fn discovered_changes(operations: Seq<OperationModel>) -> Seq<ChangeModel> {
    operations.map_values(
        |operation: OperationModel| change_at(operation, operation.path, false),
    )
}

/// The change of an operation at a place.
fn change_of(operation: &PendingAclOperation, path: NativePath, pinned: bool) -> (change:
    AclOperation)
    ensures
        change@ == change_at(operation@, path@, pinned),
{
    AclOperation {
        path,
        pinned,
        entries: operation.entries(),
        remove_sids: operation.remove_sids(),
        protect_dacl: operation.protect_dacl(),
    }
}

/// The objects of changes.
pub open spec fn operation_paths(operations: Seq<OperationModel>) -> Seq<PathModel> {
    operations.map_values(|operation: OperationModel| operation.path)
}

/// The objects of changes.
fn paths_of(operations: &Keyed<PendingAclOperation>) -> (paths: Vec<NativePath>)
    ensures
        native_path::models(paths@) == operation_paths(
            acl_builder::operation_models(operations.items()),
        ),
{
    let ghost models = acl_builder::operation_models(operations.items());
    let mut paths: Vec<NativePath> = Vec::new();
    let count: usize = operations.len();
    for i in 0..count
        invariant
            count == operations.items().len(),
            models == acl_builder::operation_models(operations.items()),
            paths@.len() == i,
            forall|j: int| 0 <= j < i ==> (#[trigger] paths@[j])@ == models[j].path,
    {
        paths.push(operations.get(i).path().clone());
        assert(models[i as int] == operations.items()[i as int]@);
    }
    assert(native_path::models(paths@) =~= operation_paths(models));
    paths
}

/// The changes on objects that were opened, shallow objects first.
pub fn finish_operations(
    operations: &Keyed<PendingAclOperation>,
    opened: &Vec<Opened>,
) -> (result: Result<Vec<AclOperation>, AclError>)
    requires
        opened@.len() == operations.items().len(),
    ensures
        match result {
            Ok(changes) => {
                &&& opening_failure_from(opened@, 0) is None
                &&& is_depth_ordered(
                    change_models(changes@),
                    pinned_changes(
                        acl_builder::operation_models(operations.items()),
                        opened@,
                    ),
                )
            },
            Err(error) => opening_failure_from(opened@, 0) == Some(error@),
        },
{
    let ghost list = acl_builder::operation_models(operations.items());
    let mut changes: Vec<AclOperation> = Vec::new();
    for i in 0..opened.len()
        invariant
            opened@.len() == operations.items().len(),
            list == acl_builder::operation_models(operations.items()),
            opening_failure_from(opened@, i as int) == opening_failure_from(opened@, 0),
            changes@.len() == i,
            forall|j: int|
                0 <= j < i ==> (#[trigger] changes@[j])@ == pinned_changes(list, opened@)[j],
    {
        match &opened[i] {
            Ok(path) => {
                changes.push(change_of(operations.get(i), path.clone(), true));
            },
            Err(error) => {
                return Err(FilesystemAclError::InvalidPath(error.clone()));
            },
        }
    }
    assert(change_models(changes@) =~= pinned_changes(list, opened@));
    Ok(sort_operations(&changes))
}

/// The changes on objects that a scan found, shallow objects first.
pub fn finish_discovered_operations(operations: &Keyed<PendingAclOperation>) -> (changes: Vec<
    AclOperation,
>)
    ensures
        is_depth_ordered(
            change_models(changes@),
            discovered_changes(acl_builder::operation_models(operations.items())),
        ),
{
    let ghost list = acl_builder::operation_models(operations.items());
    let mut changes: Vec<AclOperation> = Vec::new();
    let count: usize = operations.len();
    for i in 0..count
        invariant
            count == operations.items().len(),
            list == acl_builder::operation_models(operations.items()),
            changes@.len() == i,
            forall|j: int|
                0 <= j < i ==> (#[trigger] changes@[j])@ == discovered_changes(list)[j],
    {
        let operation = operations.get(i);
        changes.push(change_of(operation, operation.path().clone(), false));
    }
    assert(change_models(changes@) =~= discovered_changes(list));
    sort_operations(&changes)
}

/// The changes of a plan.
#[derive(Debug)]
pub struct FilesystemAclPlan {
    /// The changes of roots.
    pub foundation: Vec<AclOperation>,
    /// The changes of what lies below them.
    pub continuation: Vec<AclOperation>,
    /// The changes of guarded paths.
    pub denies: Vec<AclOperation>,
}

impl FilesystemAclPlan {
    /// All changes in the order in which they are made: shallow objects
    /// first, on one object roots before guards before what a scan found.
    pub fn prepare(self) -> (operations: Vec<AclOperation>)
        ensures
            is_depth_ordered(
                change_models(operations@),
                change_models(self.foundation@) + change_models(self.denies@) + change_models(
                    self.continuation@,
                ),
            ),
    {
        let mut all: Vec<AclOperation> = Vec::new();
        push_changes(&mut all, &self.foundation);
        push_changes(&mut all, &self.denies);
        push_changes(&mut all, &self.continuation);
        assert(change_models(all@) =~= change_models(self.foundation@) + change_models(
            self.denies@,
        ) + change_models(self.continuation@));
        sort_operations(&all)
    }
}

/// Appends changes to others.
fn push_changes(all: &mut Vec<AclOperation>, more: &Vec<AclOperation>)
    ensures
        change_models(final(all)@) == change_models(old(all)@) + change_models(more@),
{
    let ghost before = change_models(all@);
    let ghost added = change_models(more@);
    assert(before + added.take(0) =~= change_models(all@));
    for i in 0..more.len()
        invariant
            added == change_models(more@),
            change_models(all@) == before + added.take(i as int),
    {
        let ghost held = change_models(all@);
        all.push(more[i].clone());
        assert(change_models(all@) =~= held.push(added[i as int]));
        assert(change_models(all@) =~= before + added.take(i + 1));
    }
    assert(added.take(more@.len() as int) =~= added);
}

impl<'a> AclPlanBuilder<'a> {
    /// What is looked for below roots and guarded paths.
    pub fn scan_requests(&self) -> (list: Vec<ScanRequest>)
        ensures
            request_models(list@) == requests(self@),
    {
        let (foundation, _, denies) = self.lists();
        let ghost state = self@;
        let mut list: Vec<ScanRequest> = Vec::new();
        let count: usize = foundation.len();
        for i in 0..count
            invariant
                count == foundation.items().len(),
                acl_builder::operation_models(foundation.items()) == state.foundation,
                acl_builder::operation_models(denies.items()) == state.denies,
                list@.len() == i,
                forall|j: int| 0 <= j < i ==> (#[trigger] list@[j])@ == requests(state)[j],
        {
            let operation = foundation.get(i);
            assert(state.foundation[i as int] == operation@);
            list.push(
                ScanRequest {
                    root: operation.path().clone(),
                    entries: operation.entries(),
                    exclusions: nested_acl_boundaries(operation.path(), foundation, denies),
                },
            );
        }
        let more: usize = denies.len();
        for i in 0..more
            invariant
                more == denies.items().len(),
                acl_builder::operation_models(denies.items()) == state.denies,
                list@.len() == state.foundation.len() + i,
                forall|j: int|
                    0 <= j < list@.len() ==> (#[trigger] list@[j])@ == requests(state)[j],
        {
            let operation = denies.get(i);
            assert(state.denies[i as int] == operation@);
            list.push(
                ScanRequest {
                    root: operation.path().clone(),
                    entries: operation.entries(),
                    exclusions: operation.excluded_roots(),
                },
            );
        }
        assert(request_models(list@) =~= requests(state));
        list
    }

    /// Gathers what the objects get that were found for the scan requests.
    pub fn expand_existing_descendants(
        &mut self,
        scans: &Vec<ScanRequest>,
        found: &Vec<Vec<SubtreePath>>,
    )
        requires
            old(self).wf(),
            scans@.len() == found@.len(),
        ensures
            final(self).wf(),
            final(self).context() == old(self).context(),
            final(self)@ == (BuilderModel {
                continuation: with_scans_from(old(self)@.continuation, scans@, found@, 0),
                ..old(self)@
            }),
    {
        let none: Vec<String> = Vec::new();
        let nowhere: Vec<NativePath> = Vec::new();
        assert(text::texts(none@) =~= Seq::<Seq<char>>::empty());
        assert(native_path::models(nowhere@) =~= Seq::<PathModel>::empty());
        let ghost whole = with_scans_from(self@.continuation, scans@, found@, 0);
        let ghost before = self@;
        let ghost context = self.context();
        for i in 0..scans.len()
            invariant
                scans@.len() == found@.len(),
                self.wf(),
                self.context() == context,
                text::texts(none@) == Seq::<Seq<char>>::empty(),
                native_path::models(nowhere@) == Seq::<PathModel>::empty(),
                with_scans_from(self@.continuation, scans@, found@, i as int) == whole,
                self@ == (BuilderModel { continuation: self@.continuation, ..before }),
        {
            let entries = &scans[i].entries;
            let descendants = &found[i];
            let ghost models = scans@[i as int]@.entries;
            let ghost part = with_descendants_from(
                self@.continuation,
                models,
                descendants@,
                0,
            );
            for j in 0..descendants.len()
                invariant
                    self.wf(),
                    self.context() == context,
                    models == acl_entries::entry_models(entries@),
                    text::texts(none@) == Seq::<Seq<char>>::empty(),
                    native_path::models(nowhere@) == Seq::<PathModel>::empty(),
                    with_descendants_from(self@.continuation, models, descendants@, j as int)
                        == part,
                    self@ == (BuilderModel { continuation: self@.continuation, ..before }),
            {
                let descendant = &descendants[j];
                let fitted = acl_entries::entries_for_existing_path(
                    entries,
                    descendant.is_directory,
                );
                self.continue_with(&descendant.path, &fitted, &none, &nowhere);
            }
        }
    }

    /// The roots that are opened before the changes are made.
    pub fn foundation_paths(&self) -> (paths: Vec<NativePath>)
        ensures
            native_path::models(paths@) == operation_paths(self@.foundation),
    {
        let (first, _, _) = self.lists();
        paths_of(first)
    }

    /// The guarded paths that are opened before the changes are made.
    pub fn deny_paths(&self) -> (paths: Vec<NativePath>)
        ensures
            native_path::models(paths@) == operation_paths(self@.denies),
    {
        let (_, _, last) = self.lists();
        paths_of(last)
    }

    /// The changes of everything gathered, where the objects of roots and
    /// guarded paths were opened.
    pub fn finish(self, roots: &Vec<Opened>, guarded: &Vec<Opened>) -> (result: Result<
        FilesystemAclPlan,
        AclError,
    >)
        requires
            roots@.len() == self@.foundation.len(),
            guarded@.len() == self@.denies.len(),
        ensures
            match result {
                Ok(plan) => {
                    &&& opening_failure_from(roots@, 0) is None
                    &&& opening_failure_from(guarded@, 0) is None
                    &&& is_depth_ordered(
                        change_models(plan.foundation@),
                        pinned_changes(self@.foundation, roots@),
                    )
                    &&& is_depth_ordered(
                        change_models(plan.continuation@),
                        discovered_changes(self@.continuation),
                    )
                    &&& is_depth_ordered(
                        change_models(plan.denies@),
                        pinned_changes(self@.denies, guarded@),
                    )
                },
                Err(error) => match opening_failure_from(roots@, 0) {
                    Some(failure) => error@ == failure,
                    None => opening_failure_from(guarded@, 0) == Some(error@),
                },
            },
    {
        let (first, between, last) = self.lists();
        let foundation = match finish_operations(first, roots) {
            Ok(changes) => changes,
            Err(error) => {
                return Err(error);
            },
        };
        let continuation = finish_discovered_operations(between);
        let denies = match finish_operations(last, guarded) {
            Ok(changes) => changes,
            Err(error) => {
                return Err(error);
            },
        };
        Ok(FilesystemAclPlan { foundation, continuation, denies })
    }
}

/// The boundaries of a scan are all objects of the plan below its root, roots and
/// guarded ones alike, and nothing else.
pub proof fn scans_stop_at_other_objects(
    root: PathModel,
    foundation: Seq<OperationModel>,
    denies: Seq<OperationModel>,
    path: PathModel,
)
    ensures
        boundaries(root, foundation, denies).contains(path) <==> path.is_within(root)
            && !path.same_path(root) && ((exists|i: int|
            0 <= i < foundation.len() && (#[trigger] foundation[i]).path == path) || (exists|i: int|
            0 <= i < denies.len() && (#[trigger] denies[i]).path == path)),
{
    boundaries_hold(foundation, root, 0, path);
    boundaries_hold(denies, root, 0, path);
    let a = boundaries_from(foundation, root, 0);
    let b = boundaries_from(denies, root, 0);
    if a.contains(path) {
        let i = choose|i: int| 0 <= i < a.len() && a[i] == path;
        assert((a + b)[i] == path);
    }
    if b.contains(path) {
        let i = choose|i: int| 0 <= i < b.len() && b[i] == path;
        assert((a + b)[a.len() + i] == path);
    }
    if (a + b).contains(path) {
        let i = choose|i: int| 0 <= i < (a + b).len() && (a + b)[i] == path;
        if i < a.len() {
            assert(a[i] == path);
        } else {
            assert(b[i - a.len()] == path);
        }
    }
}

/// The boundaries from the `i`th operation on.
proof fn boundaries_hold(operations: Seq<OperationModel>, root: PathModel, i: int, path: PathModel)
    requires
        0 <= i <= operations.len(),
    ensures
        boundaries_from(operations, root, i).contains(path) <==> path.is_within(root)
            && !path.same_path(root) && exists|k: int|
            i <= k < operations.len() && (#[trigger] operations[k]).path == path,
    decreases operations.len() - i,
{
    if i < operations.len() {
        boundaries_hold(operations, root, i + 1, path);
        let all = boundaries_from(operations, root, i);
        let rest = boundaries_from(operations, root, i + 1);
        let own = operations[i].path;
        let counts = !own.same_path(root) && own.is_within(root);
        if all.contains(path) {
            let j = choose|j: int| 0 <= j < all.len() && all[j] == path;
            if counts && j > 0 {
                assert(rest[j - 1] == path);
            }
        }
        if rest.contains(path) {
            let j = choose|j: int| 0 <= j < rest.len() && rest[j] == path;
            assert(all[if counts {
                j + 1
            } else {
                j
            }] == path);
        }
        if counts && own == path {
            assert(all[0] == path);
        }
    } else {
        assert(boundaries_from(operations, root, i) =~= Seq::empty());
    }
}

/// Every object of a plan is scanned below, with its own entries: one that is a
/// root up to the other objects of the plan, one that is guarded up to the writable
/// roots that it leaves out.
pub proof fn every_object_is_scanned(state: BuilderModel, i: int)
    ensures
        requests(state).len() == state.foundation.len() + state.denies.len(),
        0 <= i < state.foundation.len() ==> exists|k: int|
            0 <= k < requests(state).len() && (#[trigger] requests(state)[k]).root
                == state.foundation[i].path && requests(state)[k].entries
                == state.foundation[i].entries && requests(state)[k].exclusions == boundaries(
                state.foundation[i].path,
                state.foundation,
                state.denies,
            ),
        0 <= i < state.denies.len() ==> exists|k: int|
            0 <= k < requests(state).len() && (#[trigger] requests(state)[k]).root
                == state.denies[i].path && requests(state)[k].entries == state.denies[i].entries
                && requests(state)[k].exclusions == state.denies[i].excluded_roots,
{
    if 0 <= i < state.foundation.len() {
        assert(requests(state)[i].root == state.foundation[i].path);
    }
    if 0 <= i < state.denies.len() {
        let k = state.foundation.len() + i;
        assert(requests(state)[k].root == state.denies[i].path);
    }
}

/// A change keeps what its operation asks for; objects of the plan are changed where
/// they were opened again, what was found below them where it was found, and none
/// where one could not be opened.
pub proof fn changes_are_the_operations(
    operations: Seq<OperationModel>,
    opened: Seq<Opened>,
    i: int,
)
    requires
        opened.len() == operations.len(),
        0 <= i < operations.len(),
    ensures
        opening_failure_from(opened, 0) is None <==> forall|k: int|
            0 <= k < opened.len() ==> (#[trigger] opened[k]) is Ok,
        ({
            let pinned = pinned_changes(operations, opened)[i];
            let found = discovered_changes(operations)[i];
            &&& opened[i] matches Ok(path) ==> pinned.path == path@
            &&& pinned.pinned && !found.pinned
            &&& found.path == operations[i].path
            &&& pinned.entries == operations[i].entries && found.entries == operations[i].entries
            &&& pinned.remove_sids == operations[i].remove_sids && found.remove_sids
                == operations[i].remove_sids
            &&& pinned.protect_dacl == operations[i].protect_dacl && found.protect_dacl
                == operations[i].protect_dacl
        }),
{
    all_are_opened(opened, 0);
}

/// No object fails to open from the `i`th on where each of them was opened.
proof fn all_are_opened(opened: Seq<Opened>, i: int)
    requires
        0 <= i <= opened.len(),
    ensures
        opening_failure_from(opened, i) is None <==> forall|k: int|
            i <= k < opened.len() ==> (#[trigger] opened[k]) is Ok,
    decreases opened.len() - i,
{
    if i < opened.len() {
        all_are_opened(opened, i + 1);
    }
}

} // verus!
