//! Native access-control entries: what is kept of a list, and whether a list
//! says what was asked for.
//!
//! An entry is the bytes of its native form: its type, its flags, its size in
//! two bytes, for the plain types its rights in four, and whom it is about. What
//! is read of an entry may go on with the bytes that follow it in its list:
//! whom a plain entry is about is read from where it starts, even where it runs
//! past the size that the entry gives itself.

use vstd::prelude::*;

use crate::acl_entries::{AclAccessMode, AclEntry, AclEntryModel};
use crate::acl_error::{AceExpectation, AclError, AclErrorModel, FilesystemAclError};
use crate::bytes;
use crate::native_path::{NativePath, PathModel};

verus! {

/// The size of a list without entries.
pub const ACL_HEADER_BYTES: usize = 8;

/// The size of an entry's header.
pub const ACE_HEADER_BYTES: usize = 4;

/// The least size of an entry that allows or denies.
pub const ACCESS_ACE_BYTES: usize = 12;

/// Where such an entry says whom it is about.
pub const ACE_SID_OFFSET: usize = 8;

/// The size of an identifier without subauthorities.
pub const SID_HEADER_BYTES: usize = 8;

/// The flag of an entry that holds only for what lies below.
pub const INHERIT_ONLY_FLAG: u8 = 8;

/// The flag of an entry that came from above.
pub const INHERITED_FLAG: u8 = 0x10;

/// An entry as it was read, with what follows it, or the native status of the
/// read.
pub type ObservedEntry = Result<Vec<u8>, u32>;

/// The size that an entry gives itself.
pub open spec fn entry_size(entry: Seq<u8>) -> int {
    entry[2] + 256 * entry[3]
}

/// Whether all bytes of an entry are there.
pub open spec fn is_whole(entry: Seq<u8>) -> bool {
    entry.len() >= ACE_HEADER_BYTES && entry.len() >= entry_size(entry)
}

/// Whether all entries that were read are there whole.
pub open spec fn all_whole(entries: Seq<ObservedEntry>) -> bool {
    forall|i: int|
        0 <= i < entries.len() ==> ((#[trigger] entries[i]) matches Ok(entry) ==> is_whole(
            entry@,
        ))
}

/// The bytes of an entry.
pub open spec fn entry_bytes(entry: Seq<u8>) -> Seq<u8> {
    entry.take(entry_size(entry))
}

/// Whether an entry plainly allows or denies.
pub open spec fn is_plain(entry: Seq<u8>) -> bool {
    entry[0] == 0 || entry[0] == 1
}

/// The rights that a plain entry is about.
pub open spec fn entry_mask(entry: Seq<u8>) -> u32 {
    bytes::little_endian_value(entry.subrange(4, 8)) as u32
}

/// Whether the bytes begin with a valid identifier.
pub open spec fn holds_valid_sid(bytes: Seq<u8>) -> bool {
    &&& bytes.len() >= SID_HEADER_BYTES
    &&& bytes[0] == 1
    &&& bytes[1] <= 15
    &&& SID_HEADER_BYTES + 4 * bytes[1] <= bytes.len()
}

/// Whether an identifier stands where a plain entry says whom it is about.
pub open spec fn is_about(entry: Seq<u8>, sid: Seq<u8>) -> bool {
    &&& ACE_SID_OFFSET + sid.len() <= entry.len()
    &&& entry.subrange(ACE_SID_OFFSET as int, ACE_SID_OFFSET + sid.len()) == sid
}

/// Whether bytes occur in others at a place.
pub open spec fn occurs_at(haystack: Seq<u8>, needle: Seq<u8>, i: int) -> bool {
    &&& 0 <= i
    &&& i + needle.len() <= haystack.len()
    &&& haystack.subrange(i, i + needle.len()) == needle
}

/// Whether bytes, at least one, occur in others.
pub open spec fn contains(haystack: Seq<u8>, needle: Seq<u8>) -> bool {
    needle.len() > 0 && exists|i: int| #[trigger] occurs_at(haystack, needle, i)
}

/// The bytes of identifiers.
pub open spec fn sid_bytes(sids: Seq<Vec<u8>>) -> Seq<Seq<u8>> {
    sids.map_values(|sid: Vec<u8>| sid@)
}

/// Whether an entry plainly allows or denies, and is about one of several.
pub open spec fn is_about_any(entry: Seq<u8>, sids: Seq<Seq<u8>>) -> bool {
    &&& is_plain(entry)
    &&& entry_size(entry) >= ACCESS_ACE_BYTES
    &&& exists|i: int| 0 <= i < sids.len() && is_about(entry, #[trigger] sids[i])
}

/// Whether one of several identifiers occurs in an entry.
pub open spec fn mentions_any(entry: Seq<u8>, sids: Seq<Seq<u8>>) -> bool {
    exists|i: int| 0 <= i < sids.len() && contains(entry_bytes(entry), #[trigger] sids[i])
}

/// An entry as one of the object's own.
pub open spec fn own_entry(entry: Seq<u8>) -> Seq<u8> {
    entry_bytes(entry).update(1, entry[1] & !INHERITED_FLAG)
}

/// An entry that is kept, and where it stood.
pub struct KeptModel {
    /// Its place in the list.
    pub index: u32,
    /// Its bytes.
    pub bytes: Seq<u8>,
}

/// The entries that are kept of a list after `kept`, from the `i`th on.
pub open spec fn kept_from(
    path: PathModel,
    entries: Seq<ObservedEntry>,
    sids: Seq<Seq<u8>>,
    kept: Seq<KeptModel>,
    i: int,
) -> Result<Seq<KeptModel>, AclErrorModel>
    decreases entries.len() - i,
{
    if i < 0 || i >= entries.len() {
        Ok(kept)
    } else {
        match entries[i] {
            Err(code) => Err(FilesystemAclError::AceRead { path, index: i as u32, code }),
            Ok(entry) => if entry_size(entry@) < ACE_HEADER_BYTES {
                Err(FilesystemAclError::MalformedAce { path, index: i as u32 })
            } else if is_about_any(entry@, sids) {
                kept_from(path, entries, sids, kept, i + 1)
            } else if mentions_any(entry@, sids) {
                Err(FilesystemAclError::UnsupportedGuardAce { path, ace_type: entry@[0] })
            } else {
                kept_from(
                    path,
                    entries,
                    sids,
                    kept.push(KeptModel { index: i as u32, bytes: own_entry(entry@) }),
                    i + 1,
                )
            },
        }
    }
}

/// The size of a list of kept entries.
pub open spec fn kept_size(kept: Seq<KeptModel>) -> int
    decreases kept.len(),
{
    if kept.len() == 0 {
        ACL_HEADER_BYTES as int
    } else {
        kept_size(kept.drop_last()) + kept.last().bytes.len()
    }
}

/// An entry that is kept, and where it stood.
#[derive(Debug)]
pub struct KeptEntry {
    /// Its place in the list.
    pub index: u32,
    /// Its bytes.
    pub bytes: Vec<u8>,
}

impl View for KeptEntry {
    type V = KeptModel;

    open spec fn view(&self) -> KeptModel {
        KeptModel { index: self.index, bytes: self.bytes@ }
    }
}

/// What is kept.
pub open spec fn kept_models(entries: Seq<KeptEntry>) -> Seq<KeptModel> {
    entries.map_values(|entry: KeptEntry| entry@)
}

/// A list without the entries of some.
#[derive(Debug)]
pub struct FilteredAcl {
    /// The entries that are kept.
    pub entries: Vec<KeptEntry>,
    /// The size of the list in bytes.
    pub size: u32,
}

/// Whether bytes occur in others.
pub fn contains_bytes(haystack: &[u8], needle: &[u8]) -> (found: bool)
    ensures
        found == contains(haystack@, needle@),
{
    let length: usize = haystack.len();
    if needle.len() == 0 || needle.len() > length {
        assert(forall|i: int| #[trigger]
            occurs_at(haystack@, needle@, i) ==> needle@.len() <= haystack@.len());
        return false;
    }
    let last: usize = length - needle.len();
    let mut i: usize = 0;
    while i <= last
        invariant
            length == haystack@.len(),
            0 < needle@.len() <= length,
            last == length - needle@.len(),
            i <= last + 1,
            forall|j: int| 0 <= j < i ==> !#[trigger] occurs_at(haystack@, needle@, j),
        decreases last + 1 - i,
    {
        let window = bytes::part(haystack, i, i + needle.len());
        if bytes::same_bytes(window.as_slice(), needle) {
            assert(occurs_at(haystack@, needle@, i as int));
            return true;
        }
        if i == last {
            assert forall|j: int| !#[trigger] occurs_at(haystack@, needle@, j) by {
                if 0 <= j <= last {
                    assert(j < i || j == i);
                }
            }
            return false;
        }
        i = i + 1;
    }
    false
}

/// The size that an entry gives itself.
fn size_of_entry(entry: &Vec<u8>) -> (size: usize)
    requires
        entry@.len() >= ACE_HEADER_BYTES,
    ensures
        size == entry_size(entry@),
        size <= 0xffff,
{
    entry[2] as usize + 256 * (entry[3] as usize)
}

/// Whether an entry is about someone.
fn entry_is_about(entry: &Vec<u8>, sid: &Vec<u8>) -> (yes: bool)
    ensures
        yes == is_about(entry@, sid@),
{
    if entry.len() < ACE_SID_OFFSET || sid.len() > entry.len() - ACE_SID_OFFSET {
        return false;
    }
    let named = bytes::part(entry.as_slice(), ACE_SID_OFFSET, ACE_SID_OFFSET + sid.len());
    bytes::same_bytes(named.as_slice(), sid.as_slice())
}

/// The rights that a plain entry is about.
fn mask_of_entry(entry: &Vec<u8>) -> (mask: u32)
    requires
        entry@.len() >= ACCESS_ACE_BYTES,
    ensures
        mask == entry_mask(entry@),
{
    let part = bytes::part(entry.as_slice(), 4, 8);
    bytes::read_u32(part.as_slice())
}

/// Whether an entry plainly allows or denies, and is about one of several.
fn entry_is_about_any(entry: &Vec<u8>, sids: &Vec<Vec<u8>>) -> (yes: bool)
    requires
        is_whole(entry@),
    ensures
        yes == is_about_any(entry@, sid_bytes(sids@)),
{
    let ghost list = sid_bytes(sids@);
    let size: usize = size_of_entry(entry);
    if (entry[0] != 0 && entry[0] != 1) || size < ACCESS_ACE_BYTES {
        return false;
    }
    for i in 0..sids.len()
        invariant
            is_whole(entry@),
            is_plain(entry@),
            entry_size(entry@) >= ACCESS_ACE_BYTES,
            list == sid_bytes(sids@),
            forall|j: int| 0 <= j < i ==> !is_about(entry@, #[trigger] list[j]),
    {
        if entry_is_about(entry, &sids[i]) {
            assert(is_about(entry@, list[i as int]));
            return true;
        }
    }
    false
}

/// Whether one of several identifiers occurs in an entry.
fn entry_mentions_any(entry: &Vec<u8>, sids: &Vec<Vec<u8>>) -> (yes: bool)
    requires
        is_whole(entry@),
    ensures
        yes == mentions_any(entry@, sid_bytes(sids@)),
{
    let ghost list = sid_bytes(sids@);
    let size: usize = size_of_entry(entry);
    let whole = bytes::part(entry.as_slice(), 0, size);
    assert(whole@ =~= entry_bytes(entry@));
    for i in 0..sids.len()
        invariant
            whole@ == entry_bytes(entry@),
            list == sid_bytes(sids@),
            forall|j: int| 0 <= j < i ==> !contains(entry_bytes(entry@), #[trigger] list[j]),
    {
        if contains_bytes(whole.as_slice(), sids[i].as_slice()) {
            assert(contains(entry_bytes(entry@), list[i as int]));
            return true;
        }
    }
    false
}

/// The list of an object without the entries of some, all entries made the
/// object's own. An entry of another form that mentions one of them, and an
/// entry that is none, are refused.
pub fn filter_acl(
    path: &NativePath,
    entries: &Vec<ObservedEntry>,
    remove_sids: &Vec<Vec<u8>>,
) -> (result: Result<FilteredAcl, AclError>)
    requires
        entries@.len() <= u32::MAX,
        all_whole(entries@),
    ensures
        match (kept_from(path@, entries@, sid_bytes(remove_sids@), Seq::empty(), 0), result) {
            (Err(failure), Err(error)) => error@ == failure,
            (Ok(kept), Ok(acl)) => {
                &&& kept_models(acl.entries@) == kept
                &&& acl.size == kept_size(kept)
            },
            (Ok(kept), Err(error)) => {
                &&& kept_size(kept) > u32::MAX
                &&& error@ == (AclErrorModel::AclSizeOverflow { path: path@ })
            },
            _ => false,
        },
{
    let ghost sids = sid_bytes(remove_sids@);
    let ghost expected = kept_from(path@, entries@, sids, Seq::empty(), 0);
    let mut retained: Vec<KeptEntry> = Vec::new();
    let mut size: u128 = ACL_HEADER_BYTES as u128;
    assert(kept_models(retained@) =~= Seq::<KeptModel>::empty());
    for i in 0..entries.len()
        invariant
            entries@.len() <= u32::MAX,
            all_whole(entries@),
            sids == sid_bytes(remove_sids@),
            expected == kept_from(path@, entries@, sids, Seq::empty(), 0),
            kept_from(path@, entries@, sids, kept_models(retained@), i as int) == expected,
            size == kept_size(kept_models(retained@)),
            size <= 8 + 0xffff * i,
    {
        match &entries[i] {
            Err(code) => {
                return Err(
                    FilesystemAclError::AceRead {
                        path: path.clone(),
                        index: i as u32,
                        code: *code,
                    },
                );
            },
            Ok(entry) => {
                assert(is_whole(entry@));
                let length: usize = size_of_entry(entry);
                if length < ACE_HEADER_BYTES {
                    return Err(
                        FilesystemAclError::MalformedAce { path: path.clone(), index: i as u32 },
                    );
                }
                if !entry_is_about_any(entry, remove_sids) {
                    if entry_mentions_any(entry, remove_sids) {
                        return Err(
                            FilesystemAclError::UnsupportedGuardAce {
                                path: path.clone(),
                                ace_type: entry[0],
                            },
                        );
                    }
                    let mut copy = bytes::part(entry.as_slice(), 0, length);
                    assert(copy@ =~= entry_bytes(entry@));
                    copy.set(1, entry[1] & !INHERITED_FLAG);
                    assert(copy@ =~= own_entry(entry@));
                    let ghost before = kept_models(retained@);
                    size = size + copy.len() as u128;
                    retained.push(KeptEntry { index: i as u32, bytes: copy });
                    assert(kept_models(retained@) =~= before.push(retained@.last()@));
                    assert(kept_models(retained@).drop_last() =~= before);
                }
            },
        }
    }
    if size > u32::MAX as u128 {
        return Err(FilesystemAclError::AclSizeOverflow { path: path.clone() });
    }
    Ok(FilteredAcl { entries: retained, size: size as u32 })
}

/// Whether an entry says nothing about the object's own rights: it holds only
/// for what lies below, came from above where only the object's own entries
/// count, or is not plain.
pub open spec fn is_passed_over(entry: Seq<u8>, explicit_only: bool) -> bool {
    ||| entry[1] & INHERIT_ONLY_FLAG != 0
    ||| explicit_only && entry[1] & INHERITED_FLAG != 0
    ||| !is_plain(entry)
}

/// The rights that entries give or take from someone as asked, and whether
/// one does the opposite, from the `i`th on.
pub open spec fn effect_from(
    path: PathModel,
    entries: Seq<ObservedEntry>,
    sid: Seq<u8>,
    expected: AclEntryModel,
    explicit_only: bool,
    mask: u32,
    opposite: bool,
    i: int,
) -> Result<(u32, bool), AclErrorModel>
    decreases entries.len() - i,
{
    if i < 0 || i >= entries.len() {
        Ok((mask, opposite))
    } else {
        match entries[i] {
            Err(code) => Err(FilesystemAclError::AceRead { path, index: i as u32, code }),
            Ok(entry) => if is_passed_over(entry@, explicit_only) {
                effect_from(path, entries, sid, expected, explicit_only, mask, opposite, i + 1)
            } else if entry_size(entry@) < ACCESS_ACE_BYTES || !holds_valid_sid(
                entry@.skip(ACE_SID_OFFSET as int),
            ) {
                Err(FilesystemAclError::MalformedAce { path, index: i as u32 })
            } else if !is_about(entry@, sid) {
                effect_from(path, entries, sid, expected, explicit_only, mask, opposite, i + 1)
            } else if entry@[0] != expected.mode.rank() {
                effect_from(path, entries, sid, expected, explicit_only, mask, true, i + 1)
            } else if !explicit_only || entry@[1] & !INHERITED_FLAG == expected.inheritance.flags() {
                effect_from(
                    path,
                    entries,
                    sid,
                    expected,
                    explicit_only,
                    mask | entry_mask(entry@),
                    opposite,
                    i + 1,
                )
            } else {
                effect_from(path, entries, sid, expected, explicit_only, mask, opposite, i + 1)
            },
        }
    }
}

/// What was asked of someone's rights.
pub open spec fn expectation(mode: AclAccessMode) -> AceExpectation {
    match mode {
        AclAccessMode::Allow => AceExpectation::Allow,
        AclAccessMode::Deny => AceExpectation::Deny,
    }
}

/// Why a list does not say what was asked for, if it does not.
pub open spec fn entry_failure(
    path: PathModel,
    entries: Seq<ObservedEntry>,
    sid: Seq<u8>,
    expected: AclEntryModel,
    explicit_only: bool,
) -> Option<AclErrorModel> {
    match effect_from(path, entries, sid, expected, explicit_only, 0, false, 0) {
        Err(error) => Some(error),
        Ok((mask, opposite)) => if mask == expected.mask && !opposite {
            None
        } else {
            Some(
                FilesystemAclError::AceMismatch {
                    path,
                    sid: expected.sid,
                    mode: expectation(expected.mode),
                    expected: expected.mask,
                },
            )
        },
    }
}

/// Whether bytes begin with a valid identifier.
fn valid_sid(bytes: &Vec<u8>) -> (yes: bool)
    ensures
        yes == holds_valid_sid(bytes@),
{
    if bytes.len() < SID_HEADER_BYTES || bytes[0] != 1 || bytes[1] > 15 {
        return false;
    }
    SID_HEADER_BYTES + 4 * (bytes[1] as usize) <= bytes.len()
}

/// Whether the list of an object gives or takes exactly the rights that an
/// entry asks for.
pub fn verify_entry(
    path: &NativePath,
    entries: &Vec<ObservedEntry>,
    sid: &Vec<u8>,
    expected: &AclEntry,
    explicit_only: bool,
) -> (result: Result<(), AclError>)
    requires
        entries@.len() <= u32::MAX,
        all_whole(entries@),
    ensures
        match (entry_failure(path@, entries@, sid@, expected@, explicit_only), result) {
            (None, Ok(_)) => true,
            (Some(failure), Err(error)) => error@ == failure,
            _ => false,
        },
{
    let ghost whole = effect_from(path@, entries@, sid@, expected@, explicit_only, 0, false, 0);
    let mut mask: u32 = 0;
    let mut opposite = false;
    for i in 0..entries.len()
        invariant
            entries@.len() <= u32::MAX,
            all_whole(entries@),
            effect_from(
                path@,
                entries@,
                sid@,
                expected@,
                explicit_only,
                mask,
                opposite,
                i as int,
            ) == whole,
            whole == effect_from(path@, entries@, sid@, expected@, explicit_only, 0, false, 0),
    {
        match &entries[i] {
            Err(code) => {
                return Err(
                    FilesystemAclError::AceRead {
                        path: path.clone(),
                        index: i as u32,
                        code: *code,
                    },
                );
            },
            Ok(entry) => {
                assert(is_whole(entry@));
                let flags: u8 = entry[1];
                let passed = flags & INHERIT_ONLY_FLAG != 0 || (explicit_only && flags
                    & INHERITED_FLAG != 0) || (entry[0] != 0 && entry[0] != 1);
                if !passed {
                    let size: usize = size_of_entry(entry);
                    if size < ACCESS_ACE_BYTES {
                        return Err(
                            FilesystemAclError::MalformedAce {
                                path: path.clone(),
                                index: i as u32,
                            },
                        );
                    }
                    let named = bytes::part(entry.as_slice(), ACE_SID_OFFSET, entry.len());
                    assert(named@ =~= entry@.skip(ACE_SID_OFFSET as int));
                    if !valid_sid(&named) {
                        return Err(
                            FilesystemAclError::MalformedAce {
                                path: path.clone(),
                                index: i as u32,
                            },
                        );
                    }
                    if entry_is_about(entry, sid) {
                        if entry[0] != expected.mode.ace_type() {
                            opposite = true;
                        } else if !explicit_only || (flags & !INHERITED_FLAG) as u32
                            == expected.inheritance.native() {
                            mask = mask | mask_of_entry(entry);
                        }
                    }
                }
            },
        }
    }
    if mask == expected.mask && !opposite {
        Ok(())
    } else {
        let mode = match expected.mode {
            AclAccessMode::Allow => AceExpectation::Allow,
            AclAccessMode::Deny => AceExpectation::Deny,
        };
        Err(
            FilesystemAclError::AceMismatch {
                path: path.clone(),
                sid: expected.sid.clone(),
                mode,
                expected: expected.mask,
            },
        )
    }
}

/// The words for whose entries a guarded path's list may not hold.
pub open spec fn guard_label() -> Seq<char> {
    "profile guard"@
}

/// Why a list still mentions someone, if it does, from the `i`th entry on.
pub open spec fn presence_from(
    path: PathModel,
    entries: Seq<ObservedEntry>,
    sid: Seq<u8>,
    i: int,
) -> Option<AclErrorModel>
    decreases entries.len() - i,
{
    if i < 0 || i >= entries.len() {
        None
    } else {
        match entries[i] {
            Err(code) => Some(FilesystemAclError::AceRead { path, index: i as u32, code }),
            Ok(entry) => if entry_size(entry@) < ACE_HEADER_BYTES {
                Some(FilesystemAclError::MalformedAce { path, index: i as u32 })
            } else if contains(entry_bytes(entry@), sid) {
                Some(
                    FilesystemAclError::AceMismatch {
                        path,
                        sid: guard_label(),
                        mode: AceExpectation::Removed,
                        expected: 0,
                    },
                )
            } else {
                presence_from(path, entries, sid, i + 1)
            },
        }
    }
}

/// Whether the list of an object does not mention someone.
pub fn verify_sid_absent(
    path: &NativePath,
    entries: &Vec<ObservedEntry>,
    sid: &Vec<u8>,
) -> (result: Result<(), AclError>)
    requires
        entries@.len() <= u32::MAX,
        all_whole(entries@),
    ensures
        match (presence_from(path@, entries@, sid@, 0), result) {
            (None, Ok(_)) => true,
            (Some(failure), Err(error)) => error@ == failure,
            _ => false,
        },
{
    for i in 0..entries.len()
        invariant
            entries@.len() <= u32::MAX,
            all_whole(entries@),
            presence_from(path@, entries@, sid@, i as int) == presence_from(
                path@,
                entries@,
                sid@,
                0,
            ),
    {
        match &entries[i] {
            Err(code) => {
                return Err(
                    FilesystemAclError::AceRead {
                        path: path.clone(),
                        index: i as u32,
                        code: *code,
                    },
                );
            },
            Ok(entry) => {
                assert(is_whole(entry@));
                let size: usize = size_of_entry(entry);
                if size < ACE_HEADER_BYTES {
                    return Err(
                        FilesystemAclError::MalformedAce { path: path.clone(), index: i as u32 },
                    );
                }
                let whole = bytes::part(entry.as_slice(), 0, size);
                assert(whole@ =~= entry_bytes(entry@));
                if contains_bytes(whole.as_slice(), sid.as_slice()) {
                    return Err(
                        FilesystemAclError::AceMismatch {
                            path: path.clone(),
                            sid: "profile guard".to_owned(),
                            mode: AceExpectation::Removed,
                            expected: 0,
                        },
                    );
                }
            },
        }
    }
    Ok(())
}

/// Whether a kept entry is an entry of the list, made the object's own, that
/// mentions none of some.
pub open spec fn is_kept_of(
    kept: KeptModel,
    entries: Seq<ObservedEntry>,
    sids: Seq<Seq<u8>>,
) -> bool {
    exists|i: int|
        0 <= i < entries.len() && ((#[trigger] entries[i]) matches Ok(entry) && {
            &&& kept.bytes == own_entry(entry@)
            &&& !mentions_any(entry@, sids)
        })
}

/// Every kept entry is one of the list, wherever those kept before were.
proof fn kept_are_of_the_list(
    path: PathModel,
    entries: Seq<ObservedEntry>,
    sids: Seq<Seq<u8>>,
    kept: Seq<KeptModel>,
    i: int,
    result: Seq<KeptModel>,
)
    requires
        kept_from(path, entries, sids, kept, i) == Ok::<Seq<KeptModel>, AclErrorModel>(result),
        forall|k: int| 0 <= k < kept.len() ==> is_kept_of((#[trigger] kept[k]), entries, sids),
    ensures
        forall|k: int|
            0 <= k < result.len() ==> is_kept_of((#[trigger] result[k]), entries, sids),
    decreases entries.len() - i,
{
    if 0 <= i < entries.len() {
        if let Ok(entry) = entries[i] {
            if is_about_any(entry@, sids) {
                kept_are_of_the_list(path, entries, sids, kept, i + 1, result);
            } else if !mentions_any(entry@, sids) {
                let more = kept.push(KeptModel { index: i as u32, bytes: own_entry(entry@) });
                assert(is_kept_of(more.last(), entries, sids));
                kept_are_of_the_list(path, entries, sids, more, i + 1, result);
            }
        }
    }
}

/// What is kept of a list mentions no one whose entries went: every kept
/// entry is an entry of the list that mentions none of them, made the
/// object's own.
pub proof fn filtered_list_is_free_of_the_removed(
    path: PathModel,
    entries: Seq<ObservedEntry>,
    sids: Seq<Seq<u8>>,
    result: Seq<KeptModel>,
)
    requires
        kept_from(path, entries, sids, Seq::empty(), 0) == Ok::<Seq<KeptModel>, AclErrorModel>(
            result,
        ),
    ensures
        forall|k: int|
            0 <= k < result.len() ==> is_kept_of((#[trigger] result[k]), entries, sids),
{
    kept_are_of_the_list(path, entries, sids, Seq::empty(), 0, result);
}

/// What filtering adds behind what is kept already, from the `i`th entry on.
proof fn kept_behind(
    path: PathModel,
    entries: Seq<ObservedEntry>,
    sids: Seq<Seq<u8>>,
    kept: Seq<KeptModel>,
    i: int,
    result: Seq<KeptModel>,
)
    requires
        entries.len() <= u32::MAX,
        0 <= i <= entries.len(),
        kept_from(path, entries, sids, kept, i) == Ok::<Seq<KeptModel>, AclErrorModel>(result),
    ensures
        kept.len() <= result.len(),
        forall|k: int| 0 <= k < kept.len() ==> #[trigger] result[k] == kept[k],
        forall|k: int|
            kept.len() <= k < result.len() ==> {
                &&& i <= (#[trigger] result[k]).index < entries.len()
                &&& entries[result[k].index as int] matches Ok(entry) && !is_about_any(entry@, sids)
                    && result[k].bytes == own_entry(entry@)
            },
        forall|j: int|
            i <= j < entries.len() ==> ((#[trigger] entries[j]) matches Ok(entry) && entry_size(
                entry@,
            ) >= ACE_HEADER_BYTES && (is_about_any(entry@, sids) || !mentions_any(entry@, sids)
                && exists|k: int|
                kept.len() <= k < result.len() && (#[trigger] result[k]).index == j)),
        forall|k: int, l: int|
            kept.len() <= k < l < result.len() ==> (#[trigger] result[k]).index < (
            #[trigger] result[l]).index,
    decreases entries.len() - i,
{
    if i < entries.len() {
        let entry = entries[i]->Ok_0@;
        if is_about_any(entry, sids) {
            kept_behind(path, entries, sids, kept, i + 1, result);
        } else {
            let more = kept.push(KeptModel { index: i as u32, bytes: own_entry(entry) });
            kept_behind(path, entries, sids, more, i + 1, result);
            assert(result[kept.len() as int] == more[kept.len() as int]);
            assert forall|k: int| 0 <= k < kept.len() implies #[trigger] result[k] == kept[k] by {
                assert(more[k] == kept[k]);
            }
            assert forall|j: int| i <= j < entries.len() implies ((
            #[trigger] entries[j]) matches Ok(entry) && entry_size(entry@) >= ACE_HEADER_BYTES && (
            is_about_any(entry@, sids) || !mentions_any(entry@, sids) && exists|k: int|
                kept.len() <= k < result.len() && (#[trigger] result[k]).index == j)) by {
                if j == i {
                    assert(result[kept.len() as int].index == i);
                } else if !is_about_any(entries[j]->Ok_0@, sids) {
                    let k = choose|k: int|
                        more.len() <= k < result.len() && (#[trigger] result[k]).index == j;
                    assert(result[k].index == j);
                }
            }
        }
    }
}

/// A filtered list holds every entry but those about the removed, in order and
/// once each, as it was but for the mark of what comes from above. Nothing else that
/// names one of the removed was let through.
pub proof fn every_other_entry_is_kept(
    path: PathModel,
    entries: Seq<ObservedEntry>,
    sids: Seq<Seq<u8>>,
    result: Seq<KeptModel>,
    j: int,
)
    requires
        entries.len() <= u32::MAX,
        all_whole(entries),
        0 <= j < entries.len(),
        kept_from(path, entries, sids, Seq::empty(), 0) == Ok::<Seq<KeptModel>, AclErrorModel>(
            result,
        ),
    ensures
        entries[j] is Ok,
        is_about_any(entries[j]->Ok_0@, sids) ==> forall|k: int|
            0 <= k < result.len() ==> (#[trigger] result[k]).index != j,
        !is_about_any(entries[j]->Ok_0@, sids) ==> !mentions_any(entries[j]->Ok_0@, sids)
            && exists|k: int|
            0 <= k < result.len() && (#[trigger] result[k]).index == j && result[k].bytes.len()
                == entry_size(entries[j]->Ok_0@),
        forall|k: int, l: int|
            0 <= k < l < result.len() ==> (#[trigger] result[k]).index < (
            #[trigger] result[l]).index,
        forall|k: int|
            0 <= k < result.len() && (#[trigger] result[k]).index == j ==> result[k].bytes
                == own_entry(entries[j]->Ok_0@),
{
    kept_behind(path, entries, sids, Seq::empty(), 0, result);
    if !is_about_any(entries[j]->Ok_0@, sids) {
        let k = choose|k: int| 0 <= k < result.len() && (#[trigger] result[k]).index == j;
        own_entries_are_the_same(entries[j]->Ok_0@, 0);
        assert(result[k].index == j);
    }
}

/// An entry of one's own is the entry as it was, byte for byte, but that it does not
/// come from above any more.
pub proof fn own_entries_are_the_same(entry: Seq<u8>, i: int)
    requires
        entry.len() >= entry_size(entry),
        entry_size(entry) >= 4,
    ensures
        own_entry(entry).len() == entry_size(entry),
        0 <= i < entry_size(entry) && i != 1 ==> own_entry(entry)[i] == entry[i],
        own_entry(entry)[1] == (if entry[1] / 16 % 2 == 1 {
            entry[1] - 16
        } else {
            entry[1] as int
        }),
{
    let flags = entry[1];
    assert((flags & !0x10u8) == (if flags / 16 % 2 == 1 {
        flags - 16
    } else {
        flags as int
    })) by (bit_vector);
}

/// Whether an entry is in force for someone: it is a plain one that is not passed
/// over, and is about them.
pub open spec fn is_in_force(entry: Seq<u8>, sid: Seq<u8>, explicit_only: bool) -> bool {
    &&& entry[1] / 8 % 2 == 0
    &&& explicit_only ==> entry[1] / 16 % 2 == 0
    &&& entry[0] <= 1
    &&& is_about(entry, sid)
}

/// An entry is passed over where its flags or its type say so.
proof fn passed_over_by_flags(entry: Seq<u8>, sid: Seq<u8>, explicit_only: bool)
    ensures
        is_in_force(entry, sid, explicit_only) <==> !is_passed_over(entry, explicit_only)
            && is_about(entry, sid),
{
    let flags = entry[1];
    assert({
        &&& flags & 8 == 0 <==> flags / 8 % 2 == 0
        &&& flags & 0x10 == 0 <==> flags / 16 % 2 == 0
    }) by (bit_vector);
}

/// What the entries from the `i`th on come to for someone.
proof fn effect_is_of_the_entries(
    path: PathModel,
    entries: Seq<ObservedEntry>,
    sid: Seq<u8>,
    expected: AclEntryModel,
    explicit_only: bool,
    mask: u32,
    opposite: bool,
    i: int,
    bits: u32,
)
    requires
        0 <= i <= entries.len(),
        effect_from(path, entries, sid, expected, explicit_only, mask, opposite, i) is Ok,
    ensures
        ({
            let (rights, against) = effect_from(
                path,
                entries,
                sid,
                expected,
                explicit_only,
                mask,
                opposite,
                i,
            )->Ok_0;
            &&& rights & mask == mask
            &&& opposite ==> against
            &&& against ==> opposite || exists|j: int|
                i <= j < entries.len() && ((#[trigger] entries[j]) matches Ok(entry) && is_in_force(
                    entry@,
                    sid,
                    explicit_only,
                ) && entry@[0] != expected.mode.rank())
            &&& forall|j: int|
                i <= j < entries.len() ==> ((#[trigger] entries[j]) matches Ok(entry) && (
                is_in_force(entry@, sid, explicit_only) ==> if entry@[0] != expected.mode.rank() {
                    against
                } else {
                    !explicit_only || entry@[1] == expected.inheritance.flags() ==> rights
                        & entry_mask(entry@) == entry_mask(entry@)
                }))
            &&& (bits & mask == 0 && forall|j: int|
                i <= j < entries.len() ==> ((#[trigger] entries[j]) matches Ok(entry) ==> (
                is_in_force(entry@, sid, explicit_only) && (!explicit_only || entry@[1]
                    == expected.inheritance.flags()) ==> bits & entry_mask(entry@) == 0)))
                ==> bits & rights == 0
        }),
    decreases entries.len() - i,
{
    if i < entries.len() {
        let entry = entries[i]->Ok_0@;
        let flags = entry[1];
        passed_over_by_flags(entry, sid, explicit_only);
        assert(flags / 16 % 2 == 0 ==> flags & !0x10u8 == flags) by (bit_vector);
        let result = effect_from(path, entries, sid, expected, explicit_only, mask, opposite, i);
        let rights = result->Ok_0.0;
        let counted = is_in_force(entry, sid, explicit_only) && entry[0] == expected.mode.rank() && (
        !explicit_only || entry[1] & !INHERITED_FLAG == expected.inheritance.flags());
        let more: u32 = if counted {
            mask | entry_mask(entry)
        } else {
            mask
        };
        let turned = opposite || is_in_force(entry, sid, explicit_only) && entry[0]
            != expected.mode.rank();
        effect_is_of_the_entries(
            path,
            entries,
            sid,
            expected,
            explicit_only,
            more,
            turned,
            i + 1,
            bits,
        );
        let one = entry_mask(entry);
        assert({
            &&& rights & (mask | one) == (mask | one) ==> rights & mask == mask && rights & one
                == one
            &&& bits & mask == 0 && bits & one == 0 ==> bits & (mask | one) == 0
        }) by (bit_vector);
    } else {
        assert(mask & mask == mask) by (bit_vector);
    }
}

/// A list that passes for an entry gives someone just the rights asked for: no
/// entry in force for them says the opposite, none in the expected form goes beyond
/// them, and every right asked for stands in some entry in that form.
pub proof fn accepted_entries_give_just_the_rights(
    path: PathModel,
    entries: Seq<ObservedEntry>,
    sid: Seq<u8>,
    expected: AclEntryModel,
    explicit_only: bool,
    bits: u32,
)
    requires
        entry_failure(path, entries, sid, expected, explicit_only) is None,
    ensures
        forall|j: int|
            0 <= j < entries.len() ==> ((#[trigger] entries[j]) matches Ok(entry) && (is_in_force(
                entry@,
                sid,
                explicit_only,
            ) ==> entry@[0] == expected.mode.rank() && (!explicit_only || entry@[1]
                == expected.inheritance.flags() ==> expected.mask & entry_mask(entry@)
                == entry_mask(entry@)))),
        (forall|j: int|
            0 <= j < entries.len() ==> ((#[trigger] entries[j]) matches Ok(entry) ==> (is_in_force(
                entry@,
                sid,
                explicit_only,
            ) && (!explicit_only || entry@[1] == expected.inheritance.flags()) ==> bits & entry_mask(
                entry@,
            ) == 0))) ==> bits & expected.mask == 0,
{
    effect_is_of_the_entries(path, entries, sid, expected, explicit_only, 0, false, 0, bits);
    assert(bits & 0 == 0) by (bit_vector);
}

/// Someone is absent from a list exactly where every entry of it could be read, is
/// whole, and does not hold their identifier anywhere.
pub proof fn absent_means_nowhere(
    path: PathModel,
    entries: Seq<ObservedEntry>,
    sid: Seq<u8>,
    i: int,
)
    requires
        0 <= i <= entries.len(),
    ensures
        presence_from(path, entries, sid, i) is None <==> forall|j: int|
            i <= j < entries.len() ==> ((#[trigger] entries[j]) matches Ok(entry) && entry_size(
                entry@,
            ) >= 4 && !contains(entry_bytes(entry@), sid)),
    decreases entries.len() - i,
{
    if i < entries.len() {
        absent_means_nowhere(path, entries, sid, i + 1);
    }
}

/// Bytes hold what stands between others in them, wherever it stands.
pub proof fn parts_are_contained(before: Seq<u8>, needle: Seq<u8>, behind: Seq<u8>)
    requires
        needle.len() > 0,
    ensures
        contains(before + needle + behind, needle),
{
    let all = before + needle + behind;
    assert(all.subrange(before.len() as int, (before.len() + needle.len()) as int) =~= needle);
    assert(occurs_at(all, needle, before.len() as int));
}

/// An entry is about whom it names: an identifier fits where the bytes behind the
/// eight of the entry's header and rights start with it, and nowhere else.
pub proof fn entries_are_about_whom_they_name(
    header: Seq<u8>,
    sid: Seq<u8>,
    behind: Seq<u8>,
    other: Seq<u8>,
)
    requires
        header.len() == 8,
    ensures
        is_about(header + sid + behind, sid),
        is_about(header + sid + behind, other) <==> other.is_prefix_of(sid + behind),
        is_about(header + sid + behind, other) && other.len() == sid.len() ==> other == sid,
{
    let entry = header + sid + behind;
    assert(entry.subrange(8, (8 + sid.len()) as int) =~= sid);
    if 8 + other.len() <= entry.len() {
        assert(entry.subrange(8, (8 + other.len()) as int) =~= (sid + behind).take(
            other.len() as int,
        ));
    }
    if other.is_prefix_of(sid + behind) && other.len() == sid.len() {
        assert((sid + behind).take(other.len() as int) =~= sid);
    }
}

/// The size of an entry stands in its third and fourth bytes, and the rights of a
/// plain one in the four behind them, the lowest first.
pub proof fn numbers_stand_lowest_byte_first(entry: Seq<u8>)
    requires
        entry.len() >= 8,
    ensures
        entry_size(entry) == entry[2] + 0x100 * entry[3],
        entry_mask(entry) == entry[4] + 0x100 * entry[5] + 0x1_0000 * entry[6] + 0x100_0000
            * entry[7],
{
    let part = entry.subrange(4, 8);
    reveal_with_fuel(bytes::little_endian_value, 5);
}

} // verus!
