//! Security descriptors: whether an object's owner and list are exactly what
//! they have to be.

use vstd::prelude::*;

use crate::aces;
use crate::aces::{
    ACCESS_ACE_BYTES, ACE_HEADER_BYTES, ACE_SID_OFFSET, ACL_HEADER_BYTES, SID_HEADER_BYTES,
};
use crate::acl_entries::{
    FILE_ALL_ACCESS, FILE_GENERIC_EXECUTE, FILE_GENERIC_READ, FILE_GENERIC_WRITE,
};
use crate::bytes;
use crate::text;

verus! {

/// The control bit of a list that takes nothing from above.
pub const SE_DACL_PROTECTED: u16 = 0x1000;

/// The rights of someone who uses a pipe.
pub const PIPE_ACCESS_MASK: u32 = FILE_GENERIC_READ | FILE_GENERIC_WRITE;

/// The right to match a filter.
pub const MATCH_FILTER_ACCESS: u32 = 1;

/// An entry's place in memory, where it could be had, and whom it is about as
/// text, where that could be said.
#[derive(Debug)]
pub struct ObservedAce {
    /// Where it stands.
    pub address: Option<usize>,
    /// Whom it is about.
    pub sid: Option<String>,
}

/// A list in memory.
#[derive(Debug)]
pub struct ObservedAcl {
    /// Where it stands.
    pub start: usize,
    /// Its bytes in use, where their number could be had.
    pub bytes: Option<Vec<u8>>,
    /// Its entries.
    pub aces: Vec<ObservedAce>,
}

/// What was seen of a security descriptor.
#[derive(Debug)]
pub struct DescriptorFacts {
    /// Whether it is valid.
    pub valid: bool,
    /// The owner, where there is a valid one.
    pub owner: Option<Vec<u8>>,
    /// The owner that has to be, where it could be said in bytes.
    pub expected_owner: Option<Vec<u8>>,
    /// The control bits, where they could be had.
    pub control: Option<u16>,
    /// The list, where there is one.
    pub dacl: Option<ObservedAcl>,
}

/// Whether the bytes of an entry hold a whole and valid identifier.
pub open spec fn sid_fits(entry: Seq<u8>) -> bool {
    entry.len() >= ACE_SID_OFFSET && aces::holds_valid_sid(entry.skip(ACE_SID_OFFSET as int))
}

/// Whether the bytes of an entry hold a whole and valid identifier.
pub fn sid_fits_ace(raw_ace: &[u8], ace_size: usize) -> (fits: bool)
    requires
        ace_size <= raw_ace@.len(),
    ensures
        fits == sid_fits(raw_ace@.take(ace_size as int)),
{
    let ghost entry = raw_ace@.take(ace_size as int);
    if ace_size < ACE_SID_OFFSET || ace_size - ACE_SID_OFFSET < SID_HEADER_BYTES {
        return false;
    }
    let ghost sid = entry.skip(ACE_SID_OFFSET as int);
    assert(sid[0] == raw_ace@[8] && sid[1] == raw_ace@[9]);
    if raw_ace[ACE_SID_OFFSET] != 1 || raw_ace[ACE_SID_OFFSET + 1] > 15 {
        return false;
    }
    let count: usize = raw_ace[ACE_SID_OFFSET + 1] as usize;
    SID_HEADER_BYTES + 4 * count <= ace_size - ACE_SID_OFFSET
}

/// Whether bytes that stand somewhere end where an address can say.
pub open spec fn is_addressable(start: int, bytes: Seq<u8>) -> bool {
    start + bytes.len() <= usize::MAX
}

/// Whether something of a size that stands at an address lies within bytes.
pub open spec fn lies_within(start: int, bytes: Seq<u8>, address: int, size: int) -> bool {
    start <= address && address + size <= start + bytes.len()
}

/// The bytes of the allowing entry at an address, if a whole one that names
/// someone stands there.
pub open spec fn allowing_entry(
    start: int,
    bytes: Seq<u8>,
    address: int,
    alignment: int,
) -> Option<Seq<u8>> {
    if address % alignment != 0 || !lies_within(start, bytes, address, ACE_HEADER_BYTES as int) {
        None
    } else {
        let rest = bytes.skip(address - start);
        let size = aces::entry_size(rest);
        if rest[0] != 0 || size < ACCESS_ACE_BYTES || !lies_within(start, bytes, address, size)
            || !sid_fits(rest.take(size)) {
            None
        } else {
            Some(rest.take(size))
        }
    }
}

/// The bytes of the allowing entry at an address.
fn find_allowing_entry(start: usize, bytes: &Vec<u8>, address: usize, alignment: usize) -> (entry:
    Option<Vec<u8>>)
    requires
        is_addressable(start as int, bytes@),
        alignment > 0,
    ensures
        match (entry, allowing_entry(start as int, bytes@, address as int, alignment as int)) {
            (Some(found), Some(expected)) => found@ == expected,
            (None, None) => true,
            _ => false,
        },
{
    let length: usize = bytes.len();
    if address % alignment != 0 || address < start {
        return None;
    }
    let offset: usize = address - start;
    if offset > length || length - offset < ACE_HEADER_BYTES {
        return None;
    }
    let ghost rest = bytes@.skip(offset as int);
    assert(rest[0] == bytes@[offset as int] && rest[2] == bytes@[offset + 2] && rest[3]
        == bytes@[offset + 3]);
    let size: usize = bytes[offset + 2] as usize + 256 * (bytes[offset + 3] as usize);
    if bytes[offset] != 0 || size < ACCESS_ACE_BYTES || size > length - offset {
        return None;
    }
    let entry = bytes::part(bytes.as_slice(), offset, offset + size);
    assert(entry@ =~= rest.take(size as int));
    assert(entry@.take(size as int) =~= entry@);
    if !sid_fits_ace(entry.as_slice(), size) {
        return None;
    }
    Some(entry)
}

/// An entry that allows someone something.
#[verifier::ext_equal]
pub struct GrantModel {
    /// Whom.
    pub sid: Seq<char>,
    /// How far it goes.
    pub flags: u8,
    /// Which rights.
    pub mask: u32,
}

/// An entry that allows someone something.
#[derive(Debug)]
pub struct Grant {
    /// Whom.
    pub sid: String,
    /// How far it goes.
    pub flags: u8,
    /// Which rights.
    pub mask: u32,
}

impl View for Grant {
    type V = GrantModel;

    open spec fn view(&self) -> GrantModel {
        GrantModel { sid: self.sid@, flags: self.flags, mask: self.mask }
    }
}

/// What entries allow.
pub open spec fn grant_models(grants: Seq<Grant>) -> Seq<GrantModel> {
    grants.map_values(|grant: Grant| grant@)
}

/// What an entry of a list allows, if it is a whole allowing entry.
pub open spec fn observed_grant(start: int, bytes: Seq<u8>, ace: ObservedAce) -> Option<
    GrantModel,
> {
    match (ace.address, ace.sid) {
        (Some(address), Some(sid)) => match allowing_entry(start, bytes, address as int, 2) {
            Some(entry) => Some(
                GrantModel { sid: sid@, flags: entry[1], mask: aces::entry_mask(entry) },
            ),
            None => None,
        },
        _ => None,
    }
}

/// Whether all entries of a list are whole allowing entries.
pub open spec fn all_grants(start: int, bytes: Seq<u8>, aces: Seq<ObservedAce>) -> bool {
    forall|i: int|
        0 <= i < aces.len() ==> observed_grant(start, bytes, #[trigger] aces[i]) is Some
}

/// What the entries of a list allow.
pub open spec fn grants_of(start: int, bytes: Seq<u8>, aces: Seq<ObservedAce>) -> Seq<GrantModel> {
    Seq::new(aces.len(), |i: int| observed_grant(start, bytes, aces[i])->Some_0)
}

/// Whether a descriptor is valid, has the owner that it has to have, and a
/// list that takes nothing from above.
pub open spec fn is_owned_and_protected(facts: DescriptorFacts) -> bool {
    &&& facts.valid
    &&& facts.owner matches Some(owner) && facts.expected_owner matches Some(expected)
        && owner@ == expected@
    &&& facts.control matches Some(control) && control & SE_DACL_PROTECTED != 0
}

/// Whether the list of a descriptor is exactly some entries, in any order.
pub open spec fn allows_exactly(facts: DescriptorFacts, expected: Seq<GrantModel>) -> bool {
    &&& facts.dacl matches Some(acl) && acl.bytes matches Some(bytes) && {
        &&& bytes@.len() >= ACL_HEADER_BYTES
        &&& is_addressable(acl.start as int, bytes@)
        &&& all_grants(acl.start as int, bytes@, acl.aces@)
        &&& grants_of(acl.start as int, bytes@, acl.aces@).to_multiset()
            == expected.to_multiset()
    }
}

/// How often an entry occurs.
pub open spec fn occurrences(grants: Seq<GrantModel>, grant: GrantModel) -> nat
    decreases grants.len(),
{
    if grants.len() == 0 {
        0
    } else {
        occurrences(grants.drop_last(), grant) + if grants.last() == grant {
            1nat
        } else {
            0nat
        }
    }
}

/// An entry is counted as often as it occurs.
proof fn count_is_occurrences(grants: Seq<GrantModel>, grant: GrantModel)
    ensures
        grants.to_multiset().count(grant) == occurrences(grants, grant),
        occurrences(grants, grant) <= grants.len(),
    decreases grants.len(),
{
    grants.to_multiset_ensures();
    if grants.len() > 0 {
        count_is_occurrences(grants.drop_last(), grant);
        grants.drop_last().to_multiset_ensures();
        assert(grants.drop_last().push(grants.last()) =~= grants);
    } else {
        assert(!grants.contains(grant));
    }
}

/// Whether two entries allow the same.
fn same_grant(a: &Grant, b: &Grant) -> (same: bool)
    ensures
        same == (a@ == b@),
{
    a.flags == b.flags && a.mask == b.mask && text::same_text(a.sid.as_str(), b.sid.as_str())
}

/// How often an entry occurs.
fn times(grants: &Vec<Grant>, grant: &Grant) -> (count: usize)
    ensures
        count == occurrences(grant_models(grants@), grant@),
{
    let ghost all = grant_models(grants@);
    let mut count: usize = 0;
    assert(all.take(0).len() == 0);
    for i in 0..grants.len()
        invariant
            all == grant_models(grants@),
            count == occurrences(all.take(i as int), grant@),
            count <= i,
    {
        assert(all.take(i + 1).drop_last() =~= all.take(i as int));
        assert(all.take(i + 1).last() == grants@[i as int]@);
        if same_grant(&grants[i], grant) {
            count = count + 1;
        }
    }
    assert(all.take(grants@.len() as int) =~= all);
    count
}

/// Whether every entry of one list occurs as often in another.
fn occurs_alike(a: &Vec<Grant>, b: &Vec<Grant>) -> (alike: bool)
    ensures
        alike == (forall|i: int|
            0 <= i < a@.len() ==> occurrences(grant_models(a@), (#[trigger] a@[i])@)
                == occurrences(grant_models(b@), a@[i]@)),
{
    for i in 0..a.len()
        invariant
            forall|j: int|
                0 <= j < i ==> occurrences(grant_models(a@), (#[trigger] a@[j])@) == occurrences(
                    grant_models(b@),
                    a@[j]@,
                ),
    {
        if times(a, &a[i]) != times(b, &a[i]) {
            assert(occurrences(grant_models(a@), a@[i as int]@) != occurrences(
                grant_models(b@),
                a@[i as int]@,
            ));
            return false;
        }
    }
    true
}

/// Whether two lists hold the same entries, in any order.
fn same_grants(a: &Vec<Grant>, b: &Vec<Grant>) -> (same: bool)
    ensures
        same == (grant_models(a@).to_multiset() == grant_models(b@).to_multiset()),
{
    let ghost left = grant_models(a@);
    let ghost right = grant_models(b@);
    let there = occurs_alike(a, b);
    let back = occurs_alike(b, a);
    proof {
        assert forall|grant: GrantModel|
            left.to_multiset().count(grant) == occurrences(left, grant)
                && right.to_multiset().count(grant) == occurrences(right, grant) by {
            count_is_occurrences(left, grant);
            count_is_occurrences(right, grant);
        }
        if there && back {
            left.to_multiset_ensures();
            right.to_multiset_ensures();
            assert forall|grant: GrantModel| #[trigger]
                left.to_multiset().count(grant) == right.to_multiset().count(grant) by {
                if left.contains(grant) {
                    let i = choose|i: int| 0 <= i < left.len() && left[i] == grant;
                    assert(a@[i]@ == grant);
                } else if right.contains(grant) {
                    let i = choose|i: int| 0 <= i < right.len() && right[i] == grant;
                    assert(b@[i]@ == grant);
                }
            }
            assert(left.to_multiset() =~= right.to_multiset());
        } else if left.to_multiset() == right.to_multiset() {
            assert(there);
            assert(back);
        }
    }
    there && back
}

/// What the entries of a list allow, if all are whole allowing entries.
fn collect_grants(start: usize, bytes: &Vec<u8>, aces: &Vec<ObservedAce>) -> (grants: Option<
    Vec<Grant>,
>)
    requires
        is_addressable(start as int, bytes@),
    ensures
        match grants {
            Some(found) => {
                &&& all_grants(start as int, bytes@, aces@)
                &&& grant_models(found@) == grants_of(start as int, bytes@, aces@)
            },
            None => !all_grants(start as int, bytes@, aces@),
        },
{
    let mut grants: Vec<Grant> = Vec::new();
    for i in 0..aces.len()
        invariant
            is_addressable(start as int, bytes@),
            grants@.len() == i,
            forall|j: int|
                0 <= j < i ==> observed_grant(start as int, bytes@, #[trigger] aces@[j]) == Some(
                    grants@[j]@,
                ),
    {
        let ace = &aces[i];
        match (&ace.address, &ace.sid) {
            (Some(address), Some(sid)) => {
                match find_allowing_entry(start, bytes, *address, 2) {
                    Some(entry) => {
                        let part = bytes::part(entry.as_slice(), 4, 8);
                        let mask: u32 = bytes::read_u32(part.as_slice());
                        grants.push(Grant { sid: sid.clone(), flags: entry[1], mask });
                    },
                    None => {
                        assert(observed_grant(start as int, bytes@, aces@[i as int]) is None);
                        return None;
                    },
                }
            },
            _ => {
                assert(observed_grant(start as int, bytes@, aces@[i as int]) is None);
                return None;
            },
        }
    }
    assert(grant_models(grants@) =~= grants_of(start as int, bytes@, aces@));
    Some(grants)
}

/// Whether a descriptor is valid, owned as it has to be, and protected.
fn owned_and_protected(facts: &DescriptorFacts) -> (yes: bool)
    ensures
        yes == is_owned_and_protected(*facts),
{
    if !facts.valid {
        return false;
    }
    let owned = match (&facts.owner, &facts.expected_owner) {
        (Some(owner), Some(expected)) => bytes::same_bytes(owner.as_slice(), expected.as_slice()),
        _ => false,
    };
    let protected = match facts.control {
        Some(control) => control & SE_DACL_PROTECTED != 0,
        None => false,
    };
    owned && protected
}

/// Whether the list of a descriptor is exactly some entries, in any order.
fn allows(facts: &DescriptorFacts, expected: &Vec<Grant>) -> (yes: bool)
    ensures
        yes == allows_exactly(*facts, grant_models(expected@)),
{
    match &facts.dacl {
        Some(acl) => match &acl.bytes {
            Some(bytes) => {
                if bytes.len() < ACL_HEADER_BYTES || bytes.len() > usize::MAX - acl.start {
                    return false;
                }
                match collect_grants(acl.start, bytes, &acl.aces) {
                    Some(grants) => same_grants(&grants, expected),
                    None => false,
                }
            },
            None => false,
        },
        None => false,
    }
}

/// What kind of file the runner's account may use.
#[derive(Clone, Copy, Debug, PartialEq, Eq, Structural)]
pub enum RunnerResourceKind {
    /// The program itself.
    Executable,
    /// What says which program it is.
    Manifest,
}

/// The entry that allows the system everything.
pub open spec fn system_grant(flags: u8) -> GrantModel {
    GrantModel { sid: "S-1-5-18"@, flags, mask: FILE_ALL_ACCESS }
}

/// The entry that allows administrators everything.
pub open spec fn administrators_grant(flags: u8) -> GrantModel {
    GrantModel { sid: "S-1-5-32-544"@, flags, mask: FILE_ALL_ACCESS }
}

/// The entries that an owner's file has: the system, administrators and the
/// owner may do everything.
pub open spec fn owner_grants(owner_sid: Seq<char>, flags: u8) -> Seq<GrantModel> {
    seq![
        system_grant(flags),
        administrators_grant(flags),
        GrantModel { sid: owner_sid, flags, mask: FILE_ALL_ACCESS },
    ]
}

/// The entries of a runner's file: besides, the runners' group may use it.
pub open spec fn resource_grants(
    owner_sid: Seq<char>,
    group_sid: Seq<char>,
    kind: RunnerResourceKind,
) -> Seq<GrantModel> {
    owner_grants(owner_sid, 0).push(
        GrantModel {
            sid: group_sid,
            flags: 0,
            mask: match kind {
                RunnerResourceKind::Executable => FILE_GENERIC_READ | FILE_GENERIC_EXECUTE,
                RunnerResourceKind::Manifest => FILE_GENERIC_READ,
            },
        },
    )
}

/// The entries of an owner's file.
fn grants_for_owner(owner_sid: &str, flags: u8) -> (grants: Vec<Grant>)
    ensures
        grant_models(grants@) == owner_grants(owner_sid@, flags),
{
    let mut grants: Vec<Grant> = Vec::new();
    grants.push(Grant { sid: "S-1-5-18".to_owned(), flags, mask: FILE_ALL_ACCESS });
    grants.push(Grant { sid: "S-1-5-32-544".to_owned(), flags, mask: FILE_ALL_ACCESS });
    grants.push(Grant { sid: owner_sid.to_owned(), flags, mask: FILE_ALL_ACCESS });
    assert(grant_models(grants@) =~= owner_grants(owner_sid@, flags));
    grants
}

/// Whether a runner's file belongs to its owner and allows exactly what it
/// has to allow.
pub fn descriptor_matches(
    facts: &DescriptorFacts,
    owner_sid: &str,
    group_sid: &str,
    kind: RunnerResourceKind,
) -> (matches: bool)
    ensures
        matches == (is_owned_and_protected(*facts) && allows_exactly(
            *facts,
            resource_grants(owner_sid@, group_sid@, kind),
        )),
{
    if !owned_and_protected(facts) {
        return false;
    }
    let mask: u32 = match kind {
        RunnerResourceKind::Executable => FILE_GENERIC_READ | FILE_GENERIC_EXECUTE,
        RunnerResourceKind::Manifest => FILE_GENERIC_READ,
    };
    let mut expected = grants_for_owner(owner_sid, 0);
    let ghost before = grant_models(expected@);
    expected.push(Grant { sid: group_sid.to_owned(), flags: 0, mask });
    assert(grant_models(expected@) =~= before.push(expected@.last()@));
    allows(facts, &expected)
}

/// What a protected path's descriptor has to be.
#[derive(Debug)]
pub enum ProtectedDescriptor<'a> {
    /// Only the owner's, for what lies below too or not.
    OwnerOnly {
        /// Whether for what lies below too.
        inherit: bool,
    },
    /// The owner's, to be read and searched by the runners' group.
    RunnerDirectory {
        /// The group.
        group_sid: &'a str,
    },
}

/// The entries of a protected path.
pub open spec fn protected_grants(owner_sid: Seq<char>, kind: ProtectedDescriptor) -> Seq<
    GrantModel,
> {
    match kind {
        ProtectedDescriptor::OwnerOnly { inherit } => owner_grants(
            owner_sid,
            if inherit {
                3
            } else {
                0
            },
        ),
        ProtectedDescriptor::RunnerDirectory { group_sid } => owner_grants(owner_sid, 0).push(
            GrantModel {
                sid: group_sid@,
                flags: 0,
                mask: FILE_GENERIC_READ | FILE_GENERIC_EXECUTE,
            },
        ),
    }
}

/// Whether a protected path belongs to its owner and allows exactly what it
/// has to allow.
pub fn protected_descriptor_matches(
    facts: &DescriptorFacts,
    owner_sid: &str,
    descriptor_kind: &ProtectedDescriptor<'_>,
) -> (matches: bool)
    ensures
        matches == (is_owned_and_protected(*facts) && allows_exactly(
            *facts,
            protected_grants(owner_sid@, *descriptor_kind),
        )),
{
    if !owned_and_protected(facts) {
        return false;
    }
    match descriptor_kind {
        ProtectedDescriptor::OwnerOnly { inherit } => {
            let flags: u8 = if *inherit {
                3
            } else {
                0
            };
            let expected = grants_for_owner(owner_sid, flags);
            allows(facts, &expected)
        },
        ProtectedDescriptor::RunnerDirectory { group_sid } => {
            let mut expected = grants_for_owner(owner_sid, 0);
            let ghost before = grant_models(expected@);
            expected.push(
                Grant {
                    sid: (*group_sid).to_owned(),
                    flags: 0,
                    mask: FILE_GENERIC_READ | FILE_GENERIC_EXECUTE,
                },
            );
            assert(grant_models(expected@) =~= before.push(expected@.last()@));
            allows(facts, &expected)
        },
    }
}

/// What was seen of the security descriptor that a filter's condition holds.
#[derive(Debug)]
pub struct UserConditionFacts {
    /// The size of the blob that holds it, where there is one with bytes.
    pub blob_size: Option<u32>,
    /// Whether it is valid.
    pub valid: bool,
    /// Its length.
    pub length: u32,
    /// Whom the condition has to be about, where that could be said in bytes.
    pub expected_sid: Option<Vec<u8>>,
    /// The list, where there is one.
    pub dacl: Option<ObservedAcl>,
}

/// Whether the descriptor of a filter's condition allows exactly one user to
/// match the filter.
pub open spec fn matches_user(facts: UserConditionFacts) -> bool {
    &&& facts.blob_size matches Some(size) && 0 < facts.length <= size
    &&& facts.valid
    &&& facts.expected_sid matches Some(sid) && facts.dacl matches Some(acl)
        && acl.bytes matches Some(bytes) && {
        &&& bytes@.len() >= ACL_HEADER_BYTES
        &&& is_addressable(acl.start as int, bytes@)
        &&& acl.aces@.len() == 1
        &&& acl.aces@[0].address matches Some(address) && allowing_entry(
            acl.start as int,
            bytes@,
            address as int,
            4,
        ) matches Some(entry) && {
            &&& entry[1] == 0
            &&& aces::entry_mask(entry) == MATCH_FILTER_ACCESS
            &&& names_exactly(entry, sid@)
        }
    }
}

/// Whether the identifier that an entry holds is a given one.
pub open spec fn names_exactly(entry: Seq<u8>, sid: Seq<u8>) -> bool {
    let length = SID_HEADER_BYTES + 4 * entry[ACE_SID_OFFSET + 1];
    entry.subrange(ACE_SID_OFFSET as int, ACE_SID_OFFSET + length) == sid
}

/// Whether the identifier that an entry holds is a given one.
fn entry_names(entry: &Vec<u8>, sid: &Vec<u8>) -> (yes: bool)
    requires
        sid_fits(entry@),
    ensures
        yes == names_exactly(entry@, sid@),
{
    assert(entry@.skip(ACE_SID_OFFSET as int)[1] == entry@[ACE_SID_OFFSET + 1]);
    let length: usize = SID_HEADER_BYTES + 4 * (entry[ACE_SID_OFFSET + 1] as usize);
    let named = bytes::part(entry.as_slice(), ACE_SID_OFFSET, ACE_SID_OFFSET + length);
    bytes::same_bytes(named.as_slice(), sid.as_slice())
}

/// Whether the descriptor of a filter's condition allows exactly one user to
/// match the filter.
pub fn user_condition_matches(facts: &UserConditionFacts) -> (matches: bool)
    ensures
        matches == matches_user(*facts),
{
    match facts.blob_size {
        Some(size) => {
            if facts.length == 0 || facts.length > size {
                return false;
            }
        },
        None => {
            return false;
        },
    }
    if !facts.valid {
        return false;
    }
    match (&facts.expected_sid, &facts.dacl) {
        (Some(sid), Some(acl)) => match &acl.bytes {
            Some(bytes) => {
                if bytes.len() < ACL_HEADER_BYTES || bytes.len() > usize::MAX - acl.start
                    || acl.aces.len() != 1 {
                    return false;
                }
                match acl.aces[0].address {
                    Some(address) => match find_allowing_entry(acl.start, bytes, address, 4) {
                        Some(entry) => {
                            assert(sid_fits(entry@));
                            let part = bytes::part(entry.as_slice(), 4, 8);
                            let mask: u32 = bytes::read_u32(part.as_slice());
                            entry[1] == 0 && mask == MATCH_FILTER_ACCESS && entry_names(
                                &entry,
                                sid,
                            )
                        },
                        None => false,
                    },
                    None => false,
                }
            },
            None => false,
        },
        _ => false,
    }
}

/// Whether a pipe's list lets someone use the pipe, from the `i`th entry on.
/// A list whose entries do not lie within it lets no one. Whom an entry is
/// about is read from where it starts, as far as the list goes.
pub open spec fn pipe_access_from(
    start: int,
    bytes: Seq<u8>,
    aces: Seq<ObservedAce>,
    sid: Seq<u8>,
    i: int,
) -> bool
    decreases aces.len() - i,
{
    if i < 0 || i >= aces.len() {
        false
    } else {
        match aces[i].address {
            None => false,
            Some(address) => if !lies_within(
                start,
                bytes,
                address as int,
                ACE_HEADER_BYTES as int,
            ) {
                false
            } else {
                let rest = bytes.skip(address - start);
                let size = aces::entry_size(rest);
                if lies_within(start, bytes, address as int, size) && rest[0] == 0 && sid_fits(rest)
                    && names_exactly(rest, sid) && aces::entry_mask(rest) & PIPE_ACCESS_MASK
                    == PIPE_ACCESS_MASK {
                    true
                } else {
                    pipe_access_from(start, bytes, aces, sid, i + 1)
                }
            },
        }
    }
}

/// Whether a pipe's list lets someone use the pipe.
pub open spec fn lets_use_pipe(acl: ObservedAcl, sid: Seq<u8>) -> bool {
    acl.bytes matches Some(bytes) && is_addressable(acl.start as int, bytes@)
        && pipe_access_from(acl.start as int, bytes@, acl.aces@, sid, 0)
}

/// Whether a pipe's list lets someone use the pipe.
pub fn snapshot_contains_sid(acl: &ObservedAcl, sid: &Vec<u8>) -> (yes: bool)
    ensures
        yes == lets_use_pipe(*acl, sid@),
{
    let bytes = match &acl.bytes {
        Some(bytes) => bytes,
        None => {
            return false;
        },
    };
    let start: usize = acl.start;
    let length: usize = bytes.len();
    if length > usize::MAX - start {
        return false;
    }
    for i in 0..acl.aces.len()
        invariant
            start == acl.start,
            acl.bytes == Some(*bytes),
            length == bytes@.len(),
            is_addressable(start as int, bytes@),
            pipe_access_from(start as int, bytes@, acl.aces@, sid@, i as int) == lets_use_pipe(
                *acl,
                sid@,
            ),
    {
        let address: usize = match acl.aces[i].address {
            Some(address) => address,
            None => {
                return false;
            },
        };
        if address < start || address - start > length || length - (address - start)
            < ACE_HEADER_BYTES {
            return false;
        }
        let offset: usize = address - start;
        let ghost rest = bytes@.skip(offset as int);
        assert(rest[0] == bytes@[offset as int] && rest[2] == bytes@[offset + 2] && rest[3]
            == bytes@[offset + 3]);
        let size: usize = bytes[offset + 2] as usize + 256 * (bytes[offset + 3] as usize);
        if size <= length - offset && bytes[offset] == 0 {
            let entry = bytes::part(bytes.as_slice(), offset, length);
            assert(entry@ =~= rest);
            assert(entry@.take(entry@.len() as int) =~= entry@);
            if sid_fits_ace(entry.as_slice(), entry.len()) {
                let part = bytes::part(entry.as_slice(), 4, 8);
                let mask: u32 = bytes::read_u32(part.as_slice());
                if entry_names(&entry, sid) && mask & PIPE_ACCESS_MASK == PIPE_ACCESS_MASK {
                    return true;
                }
            }
        }
    }
    false
}

/// A descriptor is owned and protected only where it is valid, its owner is the
/// expected one to the last byte, and its list takes nothing from above.
pub proof fn accepted_descriptors_are_owned(facts: DescriptorFacts)
    requires
        is_owned_and_protected(facts),
    ensures
        facts.valid,
        facts.owner is Some && facts.expected_owner is Some && facts.owner->0@
            == facts.expected_owner->0@,
        facts.control is Some && facts.control->0 / 0x1000 % 2 == 1,
{
    let control = facts.control->0;
    assert(control & 0x1000 != 0 ==> control / 0x1000 % 2 == 1) by (bit_vector);
}

/// Whether some entry of a list grants just this.
pub open spec fn is_granted(acl: ObservedAcl, grant: GrantModel) -> bool {
    exists|i: int|
        0 <= i < acl.aces@.len() && observed_grant(
            acl.start as int,
            acl.bytes->0@,
            #[trigger] acl.aces@[i],
        ) == Some(grant)
}

/// A list that allows exactly some entries has as many of its own; each of its own
/// is one of them, and each of them is one of its own.
pub proof fn accepted_lists_allow_nothing_else(facts: DescriptorFacts, expected: Seq<GrantModel>)
    requires
        allows_exactly(facts, expected),
    ensures
        ({
            let acl = facts.dacl->0;
            let bytes = acl.bytes->0@;
            &&& acl.aces@.len() == expected.len()
            &&& forall|i: int|
                0 <= i < acl.aces@.len() ==> (observed_grant(
                    acl.start as int,
                    bytes,
                    #[trigger] acl.aces@[i],
                ) matches Some(grant) && expected.contains(grant))
            &&& forall|k: int| 0 <= k < expected.len() ==> is_granted(acl, #[trigger] expected[k])
        }),
{
    let acl = facts.dacl->0;
    let bytes = acl.bytes->0@;
    let grants = grants_of(acl.start as int, bytes, acl.aces@);
    grants.to_multiset_ensures();
    expected.to_multiset_ensures();
    assert(grants.to_multiset().len() == expected.to_multiset().len());
    assert forall|i: int| 0 <= i < acl.aces@.len() implies (observed_grant(
        acl.start as int,
        bytes,
        #[trigger] acl.aces@[i],
    ) matches Some(grant) && expected.contains(grant)) by {
        assert(grants[i] == observed_grant(acl.start as int, bytes, acl.aces@[i])->0);
        assert(grants.contains(grants[i]));
        assert(grants.to_multiset().contains(grants[i]));
        assert(expected.to_multiset().contains(grants[i]));
    }
    assert forall|k: int| 0 <= k < expected.len() implies is_granted(
        acl,
        #[trigger] expected[k],
    ) by {
        assert(expected.contains(expected[k]));
        assert(expected.to_multiset().contains(expected[k]));
        assert(grants.to_multiset().contains(expected[k]));
        let i = choose|i: int| 0 <= i < grants.len() && grants[i] == expected[k];
        assert(observed_grant(acl.start as int, bytes, acl.aces@[i]) == Some(expected[k]));
    }
}

/// No one but the system, the administrators and the owner may change a runner's
/// files or the setup's directories: the group is allowed no right to write, to delete
/// or to change the guard, and the right to run only where there is something to run.
pub proof fn only_the_owner_may_change(
    owner_sid: Seq<char>,
    group_sid: Seq<char>,
    kind: RunnerResourceKind,
    i: int,
)
    requires
        0 <= i < resource_grants(owner_sid, group_sid, kind).len(),
    ensures
        resource_grants(owner_sid, group_sid, kind).len() == 4,
        ({
            let grant = resource_grants(owner_sid, group_sid, kind)[i];
            &&& grant.flags == 0
            &&& i == 0 ==> grant.sid == "S-1-5-18"@
            &&& i == 1 ==> grant.sid == "S-1-5-32-544"@
            &&& i == 2 ==> grant.sid == owner_sid
            &&& i < 3 ==> grant.mask == 0x001f_01ff
            &&& i == 3 ==> grant.sid == group_sid && grant.mask & 0x000d_0156 == 0 && grant.mask
                & 0x0012_0089 == 0x0012_0089 && (grant.mask & 0x20 == 0x20 <==> kind is Executable)
        }),
{
    assert({
        &&& (0x0012_0089u32 | 0x0012_00a0u32) & 0x000d_0156 == 0
        &&& (0x0012_0089u32 | 0x0012_00a0u32) & 0x0012_0089 == 0x0012_0089
        &&& (0x0012_0089u32 | 0x0012_00a0u32) & 0x20 == 0x20
        &&& 0x0012_0089u32 & 0x000d_0156 == 0
        &&& 0x0012_0089u32 & 0x0012_0089 == 0x0012_0089
        &&& 0x0012_0089u32 & 0x20 == 0
    }) by (bit_vector);
}

/// What is the owner's only is allowed to the system, the administrators and the
/// owner alone, and goes down to what lies below exactly where it is inherited. The
/// runner's directory is open to its group for reading and running only.
pub proof fn protected_directories_are_the_owners(
    owner_sid: Seq<char>,
    kind: ProtectedDescriptor,
    i: int,
)
    requires
        0 <= i < protected_grants(owner_sid, kind).len(),
    ensures
        ({
            let grant = protected_grants(owner_sid, kind)[i];
            &&& i < 3 ==> grant.mask == 0x001f_01ff && (grant.sid == "S-1-5-18"@ || grant.sid
                == "S-1-5-32-544"@ || grant.sid == owner_sid)
            &&& kind matches ProtectedDescriptor::OwnerOnly { inherit } ==> i < 3 && grant.flags
                == (if inherit {
                3int
            } else {
                0int
            })
            &&& kind matches ProtectedDescriptor::RunnerDirectory { group_sid } ==> grant.flags == 0
                && (i == 3 ==> grant.sid == group_sid@ && grant.mask & 0x000d_0156 == 0)
        }),
{
    assert((0x0012_0089u32 | 0x0012_00a0u32) & 0x000d_0156 == 0) by (bit_vector);
}

/// A condition on a user is about one user: their identifier stands in the only
/// entry of the list, which allows them to match and nothing else.
pub proof fn a_user_condition_names_one_user(
    facts: UserConditionFacts,
    other: UserConditionFacts,
)
    requires
        matches_user(facts),
        other.blob_size == facts.blob_size,
        other.valid == facts.valid,
        other.length == facts.length,
        other.dacl == facts.dacl,
    ensures
        facts.expected_sid is Some,
        facts.valid,
        facts.dacl is Some && facts.dacl->0.aces@.len() == 1,
        matches_user(other) <==> (other.expected_sid matches Some(sid) && sid@
            == facts.expected_sid->0@),
{
}

/// Someone may use a pipe only where an entry allows it that names just them, and
/// holds every right that using it takes.
pub proof fn pipes_are_used_by_those_named(acl: ObservedAcl, sid: Seq<u8>)
    requires
        lets_use_pipe(acl, sid),
    ensures
        exists|i: int|
            {
                &&& 0 <= i < acl.aces@.len()
                &&& (#[trigger] acl.aces@[i]).address is Some
                &&& grants_pipe(acl, acl.aces@[i].address->0 as int, sid)
            },
{
    pipe_entry_from(acl, sid, 0);
}

/// Whether the entry at an address allows someone the use of a pipe.
pub open spec fn grants_pipe(acl: ObservedAcl, address: int, sid: Seq<u8>) -> bool {
    let rest = acl.bytes->0@.skip(address - acl.start);
    &&& acl.start <= address
    &&& address + aces::entry_size(rest) <= acl.start + acl.bytes->0@.len()
    &&& rest[0] == 0
    &&& rest[8] == 1
    &&& rest.subrange(8, 16 + 4 * rest[9]) == sid
    &&& aces::entry_mask(rest) & 0x0012_019f == 0x0012_019f
}

/// The entry that allows someone the use of a pipe, from the `i`th on.
proof fn pipe_entry_from(acl: ObservedAcl, sid: Seq<u8>, i: int)
    requires
        0 <= i <= acl.aces@.len(),
        acl.bytes is Some,
        pipe_access_from(acl.start as int, acl.bytes->0@, acl.aces@, sid, i),
    ensures
        exists|k: int|
            {
                &&& i <= k < acl.aces@.len()
                &&& (#[trigger] acl.aces@[k]).address is Some
                &&& grants_pipe(acl, acl.aces@[k].address->0 as int, sid)
            },
    decreases acl.aces@.len() - i,
{
    assert(0x0012_0089u32 | 0x0012_0116u32 == 0x0012_019f) by (bit_vector);
    let address = acl.aces@[i].address->0 as int;
    if !grants_pipe(acl, address, sid) {
        pipe_entry_from(acl, sid, i + 1);
    } else {
        assert(acl.aces@[i].address is Some);
    }
}

/// A grant that was observed is an entry that allows, wholly inside its list, for
/// someone whose identifier is whole; its flags and its rights are the entry's own.
pub proof fn grants_are_entries_that_allow(start: int, bytes: Seq<u8>, ace: ObservedAce)
    requires
        observed_grant(start, bytes, ace) is Some,
    ensures
        ace.address is Some && ace.sid is Some,
        ({
            let at = ace.address->0 - start;
            let grant = observed_grant(start, bytes, ace)->0;
            &&& 0 <= at && at + 12 <= bytes.len()
            &&& at + bytes[at + 2] + 0x100 * bytes[at + 3] <= bytes.len()
            &&& bytes[at] == 0
            &&& bytes[at + 8] == 1 && 16 + 4 * bytes[at + 9] <= bytes[at + 2] + 0x100 * bytes[at + 3]
            &&& ace.address->0 % 2 == 0
            &&& grant.sid == ace.sid->0@
            &&& grant.flags == bytes[at + 1]
            &&& grant.mask == bytes[at + 4] + 0x100 * bytes[at + 5] + 0x1_0000 * bytes[at + 6]
                + 0x100_0000 * bytes[at + 7]
        }),
{
    let at = ace.address->0 - start;
    let rest = bytes.skip(at);
    let entry = rest.take(aces::entry_size(rest));
    assert(rest[0] == bytes[at] && rest[2] == bytes[at + 2] && rest[3] == bytes[at + 3]);
    let sid = entry.skip(8);
    assert(sid[0] == entry[8] && sid[1] == entry[9]);
    assert(forall|i: int| 0 <= i < entry.len() ==> #[trigger] entry[i] == bytes[at + i]);
    aces::numbers_stand_lowest_byte_first(entry);
}

} // verus!
