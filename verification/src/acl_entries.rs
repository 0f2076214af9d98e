//! The access-control entries that a plan asks for, and how requests for one
//! object are taken together.

use vstd::prelude::*;

use crate::keyed;
use crate::keyed::Keyed;
use crate::native_path;
use crate::native_path::{NativePath, PathModel};
use crate::ordering;
use crate::text;

verus! {

/// The rights that reading a file takes.
pub const FILE_GENERIC_READ: u32 = 0x0012_0089;

/// The rights that writing a file takes.
pub const FILE_GENERIC_WRITE: u32 = 0x0012_0116;

/// The rights that executing a file takes.
pub const FILE_GENERIC_EXECUTE: u32 = 0x0012_00a0;

/// Every right on a file.
pub const FILE_ALL_ACCESS: u32 = 0x001f_01ff;

/// The right to write a file's contents.
pub const FILE_WRITE_DATA: u32 = 0x2;

/// The right to append to a file's contents.
pub const FILE_APPEND_DATA: u32 = 0x4;

/// The right to write extended attributes.
pub const FILE_WRITE_EA: u32 = 0x10;

/// The right to delete what a directory holds.
pub const FILE_DELETE_CHILD: u32 = 0x40;

/// The right to write attributes.
pub const FILE_WRITE_ATTRIBUTES: u32 = 0x100;

/// The right to delete.
pub const DELETE: u32 = 0x0001_0000;

/// The right to change a discretionary access-control list.
pub const WRITE_DAC: u32 = 0x0004_0000;

/// The right to change the owner.
pub const WRITE_OWNER: u32 = 0x0008_0000;

/// What a writable root grants.
pub const WRITE_ALLOW_MASK: u32 = FILE_GENERIC_READ | FILE_GENERIC_WRITE | FILE_GENERIC_EXECUTE
    | DELETE;

/// What a readable root grants.
pub const READ_ALLOW_MASK: u32 = FILE_GENERIC_READ | FILE_GENERIC_EXECUTE;

/// What a read-only path denies.
pub const WRITE_DENY_MASK: u32 = FILE_GENERIC_WRITE | FILE_WRITE_DATA | FILE_APPEND_DATA
    | FILE_WRITE_EA | FILE_WRITE_ATTRIBUTES | DELETE | FILE_DELETE_CHILD | WRITE_DAC | WRITE_OWNER;

/// Entries with these flags go down to everything below.
pub const SUBTREE_INHERITANCE: u32 = 3;

/// Whether an entry allows or denies.
#[derive(Clone, Copy, Debug, PartialEq, Eq, Structural)]
pub enum AclAccessMode {
    /// It allows.
    Allow,
    /// It denies.
    Deny,
}

/// How far an entry goes.
#[derive(Clone, Copy, Debug, PartialEq, Eq, Structural)]
pub enum AclInheritance {
    /// To the object alone.
    Exact,
    /// To the object and everything below it.
    Subtree,
}

impl AclAccessMode {
    /// The place of the mode among modes.
    pub open spec fn rank(self) -> u32 {
        match self {
            AclAccessMode::Allow => 0,
            AclAccessMode::Deny => 1,
        }
    }

    /// The place of the mode among modes.
    pub fn key(self) -> (rank: u8)
        ensures
            rank == self.rank(),
    {
        match self {
            AclAccessMode::Allow => 0,
            AclAccessMode::Deny => 1,
        }
    }

    /// The native access mode: setting or denying access.
    pub open spec fn native_mode(self) -> i32 {
        if self is Allow {
            2i32
        } else {
            3
        }
    }

    /// The native access mode: setting or denying access.
    pub fn native(self) -> (mode: i32)
        ensures
            mode == self.native_mode(),
    {
        match self {
            AclAccessMode::Allow => 2,
            AclAccessMode::Deny => 3,
        }
    }

    /// The native type of such an entry.
    pub fn ace_type(self) -> (ace_type: u8)
        ensures
            ace_type == self.rank(),
    {
        match self {
            AclAccessMode::Allow => 0,
            AclAccessMode::Deny => 1,
        }
    }

    /// The word for the mode.
    pub fn label(self) -> (label: &'static str)
        ensures
            label@ == (if self is Allow {
                "allow"@
            } else {
                "deny"@
            }),
    {
        match self {
            AclAccessMode::Allow => "allow",
            AclAccessMode::Deny => "deny",
        }
    }
}

impl AclInheritance {
    /// The native inheritance flags.
    pub open spec fn flags(self) -> u32 {
        match self {
            AclInheritance::Exact => 0,
            AclInheritance::Subtree => SUBTREE_INHERITANCE,
        }
    }

    /// The native inheritance flags.
    pub fn native(self) -> (flags: u32)
        ensures
            flags == self.flags(),
    {
        match self {
            AclInheritance::Exact => 0,
            AclInheritance::Subtree => SUBTREE_INHERITANCE,
        }
    }
}

/// What an entry says.
#[verifier::ext_equal]
pub struct AclEntryModel {
    /// Whom it is about.
    pub sid: Seq<char>,
    /// Whether it allows or denies.
    pub mode: AclAccessMode,
    /// Which rights.
    pub mask: u32,
    /// How far it goes.
    pub inheritance: AclInheritance,
}

/// An access-control entry that a plan asks for.
#[derive(Debug)]
pub struct AclEntry {
    /// Whom it is about.
    pub sid: String,
    /// Whether it allows or denies.
    pub mode: AclAccessMode,
    /// Which rights.
    pub mask: u32,
    /// How far it goes.
    pub inheritance: AclInheritance,
}

impl View for AclEntry {
    type V = AclEntryModel;

    open spec fn view(&self) -> AclEntryModel {
        AclEntryModel {
            sid: self.sid@,
            mode: self.mode,
            mask: self.mask,
            inheritance: self.inheritance,
        }
    }
}

impl Clone for AclEntry {
    fn clone(&self) -> (copy: Self)
        ensures
            copy@ == self@,
    {
        AclEntry {
            sid: self.sid.clone(),
            mode: self.mode,
            mask: self.mask,
            inheritance: self.inheritance,
        }
    }
}

/// What the entries of a list say.
pub open spec fn entry_models(entries: Seq<AclEntry>) -> Seq<AclEntryModel> {
    entries.map_values(|entry: AclEntry| entry@)
}

/// An entry that allows.
pub open spec fn allowing(sid: Seq<char>, mask: u32) -> AclEntryModel {
    AclEntryModel {
        sid,
        mode: AclAccessMode::Allow,
        mask,
        inheritance: AclInheritance::Subtree,
    }
}

/// An entry that denies.
pub open spec fn denying(sid: Seq<char>, mask: u32) -> AclEntryModel {
    AclEntryModel { sid, mode: AclAccessMode::Deny, mask, inheritance: AclInheritance::Subtree }
}

impl AclEntry {
    /// An entry that allows, down to everything below.
    pub fn allow(sid: &str, mask: u32) -> (entry: AclEntry)
        ensures
            entry@ == allowing(sid@, mask),
    {
        AclEntry {
            sid: sid.to_owned(),
            mode: AclAccessMode::Allow,
            mask,
            inheritance: AclInheritance::Subtree,
        }
    }

    /// An entry that denies, down to everything below.
    pub fn deny(sid: &str, mask: u32) -> (entry: AclEntry)
        ensures
            entry@ == denying(sid@, mask),
    {
        AclEntry {
            sid: sid.to_owned(),
            mode: AclAccessMode::Deny,
            mask,
            inheritance: AclInheritance::Subtree,
        }
    }
}

/// A text as words that end in a zero.
pub open spec fn text_words(value: Seq<char>) -> Seq<u32> {
    value.map_values(|c: char| (c as u32 + 1) as u32).push(0)
}

impl AclEntryModel {
    /// The words by which entries for one object are ordered and told apart:
    /// whom they are about and whether they allow or deny.
    pub open spec fn key(self) -> Seq<u32> {
        text_words(self.sid).push(self.mode.rank())
    }

    /// One entry that asks for what two entries with the same key ask for.
    pub open spec fn merged(self, other: AclEntryModel) -> AclEntryModel {
        AclEntryModel {
            mask: self.mask | other.mask,
            inheritance: if other.inheritance is Subtree {
                AclInheritance::Subtree
            } else {
                self.inheritance
            },
            ..self
        }
    }
}

/// The keys of entries.
pub open spec fn entry_keys(entries: Seq<AclEntryModel>) -> Seq<Seq<u32>> {
    entries.map_values(|entry: AclEntryModel| entry.key())
}

/// Entries with one more, taken together with one of the same key.
pub open spec fn with_entry(entries: Seq<AclEntryModel>, entry: AclEntryModel) -> Seq<
    AclEntryModel,
> {
    let keys = entry_keys(entries);
    let i = ordering::slot(keys, entry.key());
    if ordering::is_present(keys, entry.key()) {
        entries.update(i, entries[i].merged(entry))
    } else {
        entries.insert(i, entry)
    }
}

/// Entries with more, from the `i`th on.
pub open spec fn with_entries_from(
    entries: Seq<AclEntryModel>,
    more: Seq<AclEntryModel>,
    i: int,
) -> Seq<AclEntryModel>
    decreases more.len() - i,
{
    if i < 0 || i >= more.len() {
        entries
    } else {
        with_entries_from(with_entry(entries, more[i]), more, i + 1)
    }
}

/// The words of texts.
pub open spec fn text_keys(values: Seq<Seq<char>>) -> Seq<Seq<u32>> {
    values.map_values(|value: Seq<char>| text_words(value))
}

/// Texts in order and once each, with one more.
pub open spec fn with_text(values: Seq<Seq<char>>, value: Seq<char>) -> Seq<Seq<char>> {
    let keys = text_keys(values);
    if ordering::is_present(keys, text_words(value)) {
        values
    } else {
        values.insert(ordering::slot(keys, text_words(value)), value)
    }
}

/// Texts with more, from the `i`th on.
pub open spec fn with_texts_from(
    values: Seq<Seq<char>>,
    more: Seq<Seq<char>>,
    i: int,
) -> Seq<Seq<char>>
    decreases more.len() - i,
{
    if i < 0 || i >= more.len() {
        values
    } else {
        with_texts_from(with_text(values, more[i]), more, i + 1)
    }
}

/// Paths with more, from the `i`th on.
pub open spec fn with_paths_from(
    paths: Seq<PathModel>,
    more: Seq<PathModel>,
    i: int,
) -> Seq<PathModel>
    decreases more.len() - i,
{
    if i < 0 || i >= more.len() {
        paths
    } else {
        with_paths_from(native_path::with_path(paths, more[i]), more, i + 1)
    }
}

/// What is asked for one object.
#[verifier::ext_equal]
pub struct OperationModel {
    /// The object.
    pub path: PathModel,
    /// The entries, in the order of their keys.
    pub entries: Seq<AclEntryModel>,
    /// Whose entries go, in order.
    pub remove_sids: Seq<Seq<char>>,
    /// Whether entries from above stop here.
    pub protect_dacl: bool,
    /// The paths below that are left out, in order.
    pub excluded_roots: Seq<PathModel>,
}

impl OperationModel {
    /// Whether everything is in order and once each.
    pub open spec fn wf(self) -> bool {
        &&& ordering::strictly_ascending(entry_keys(self.entries))
        &&& ordering::strictly_ascending(text_keys(self.remove_sids))
        &&& ordering::strictly_ascending(native_path::path_keys(self.excluded_roots))
    }

    /// Nothing asked for an object yet.
    pub open spec fn empty(path: PathModel) -> OperationModel {
        OperationModel {
            path,
            entries: Seq::empty(),
            remove_sids: Seq::empty(),
            protect_dacl: false,
            excluded_roots: Seq::empty(),
        }
    }

    /// With a further request taken in.
    pub open spec fn merged(
        self,
        entries: Seq<AclEntryModel>,
        protect_dacl: bool,
        remove_sids: Seq<Seq<char>>,
        excluded_roots: Seq<PathModel>,
    ) -> OperationModel {
        OperationModel {
            path: self.path,
            entries: with_entries_from(self.entries, entries, 0),
            remove_sids: with_texts_from(self.remove_sids, remove_sids, 0),
            protect_dacl: self.protect_dacl || protect_dacl,
            excluded_roots: with_paths_from(self.excluded_roots, excluded_roots, 0),
        }
    }
}

/// The word of a character.
fn word_of(c: char) -> (word: u32)
    ensures
        word == (c as u32 + 1) as u32,
{
    c as u32 + 1
}

/// The words of a text.
pub fn words_of(value: &str) -> (words: Vec<u32>)
    ensures
        words@ == text_words(value@),
{
    let chars = text::chars_of(value);
    let mut words: Vec<u32> = Vec::new();
    for i in 0..chars.len()
        invariant
            chars@ == value@,
            words@ == chars@.take(i as int).map_values(|c: char| (c as u32 + 1) as u32),
    {
        words.push(word_of(chars[i]));
        assert(words@ =~= chars@.take(i + 1).map_values(|c: char| (c as u32 + 1) as u32));
    }
    assert(chars@.take(chars@.len() as int) =~= chars@);
    words.push(0);
    words
}

/// What is asked for one object, under construction.
#[derive(Debug)]
pub struct PendingAclOperation {
    path: NativePath,
    entries: Keyed<AclEntry>,
    remove_sids: Keyed<String>,
    protect_dacl: bool,
    excluded_roots: Keyed<NativePath>,
}

impl View for PendingAclOperation {
    type V = OperationModel;

    closed spec fn view(&self) -> OperationModel {
        OperationModel {
            path: self.path@,
            entries: entry_models(self.entries.items()),
            remove_sids: text::texts(self.remove_sids.items()),
            protect_dacl: self.protect_dacl,
            excluded_roots: native_path::models(self.excluded_roots.items()),
        }
    }
}

impl PendingAclOperation {
    /// Whether the keys belong to what is asked for.
    pub closed spec fn wf(&self) -> bool {
        &&& self@.wf()
        &&& self.entries.wf()
        &&& self.entries.keys() == entry_keys(self@.entries)
        &&& self.remove_sids.wf()
        &&& self.remove_sids.keys() == text_keys(self@.remove_sids)
        &&& self.excluded_roots.wf()
        &&& self.excluded_roots.keys() == native_path::path_keys(self@.excluded_roots)
    }

    /// Nothing asked for an object yet.
    pub fn new(path: NativePath) -> (operation: PendingAclOperation)
        ensures
            operation.wf(),
            operation@ == OperationModel::empty(path@),
    {
        let operation = PendingAclOperation {
            path,
            entries: Keyed::new(),
            remove_sids: Keyed::new(),
            protect_dacl: false,
            excluded_roots: Keyed::new(),
        };
        proof {
            assert(operation@ =~= OperationModel::empty(path@));
            assert(entry_keys(operation@.entries) =~= Seq::empty());
            assert(text_keys(operation@.remove_sids) =~= Seq::empty());
            assert(native_path::path_keys(operation@.excluded_roots) =~= Seq::empty());
        }
        operation
    }

    /// The object.
    pub fn path(&self) -> (path: &NativePath)
        ensures
            path@ == self@.path,
    {
        &self.path
    }

    /// Whether entries from above stop here.
    pub fn protect_dacl(&self) -> (protect: bool)
        ensures
            protect == self@.protect_dacl,
    {
        self.protect_dacl
    }

    /// The entries that are asked for.
    pub fn entries(&self) -> (entries: Vec<AclEntry>)
        ensures
            entry_models(entries@) == self@.entries,
    {
        let mut entries: Vec<AclEntry> = Vec::new();
        let count: usize = self.entries.len();
        for i in 0..count
            invariant
                count == self.entries.items().len(),
                entries@.len() == i,
                forall|j: int|
                    0 <= j < i ==> (#[trigger] entries@[j])@ == self.entries.items()[j]@,
        {
            entries.push(self.entries.get(i).clone());
        }
        assert(entry_models(entries@) =~= self@.entries);
        entries
    }

    /// Whose entries go.
    pub fn remove_sids(&self) -> (sids: Vec<String>)
        ensures
            text::texts(sids@) == self@.remove_sids,
    {
        let mut sids: Vec<String> = Vec::new();
        let count: usize = self.remove_sids.len();
        for i in 0..count
            invariant
                count == self.remove_sids.items().len(),
                sids@.len() == i,
                forall|j: int|
                    0 <= j < i ==> (#[trigger] sids@[j])@ == self.remove_sids.items()[j]@,
        {
            sids.push(self.remove_sids.get(i).clone());
        }
        assert(text::texts(sids@) =~= self@.remove_sids);
        sids
    }

    /// The paths below that are left out.
    pub fn excluded_roots(&self) -> (roots: Vec<NativePath>)
        ensures
            native_path::models(roots@) == self@.excluded_roots,
    {
        let mut roots: Vec<NativePath> = Vec::new();
        let count: usize = self.excluded_roots.len();
        for i in 0..count
            invariant
                count == self.excluded_roots.items().len(),
                roots@.len() == i,
                forall|j: int|
                    0 <= j < i ==> (#[trigger] roots@[j])@ == self.excluded_roots.items()[j]@,
        {
            roots.push(self.excluded_roots.get(i).clone());
        }
        assert(native_path::models(roots@) =~= self@.excluded_roots);
        roots
    }

    /// Takes in one entry.
    fn merge_entry(&mut self, entry: &AclEntry)
        requires
            old(self).wf(),
        ensures
            final(self).wf(),
            final(self)@ == (OperationModel {
                entries: with_entry(old(self)@.entries, entry@),
                ..old(self)@
            }),
    {
        let ghost before = self@;
        let ghost keys = entry_keys(before.entries);
        let mut key = words_of(entry.sid.as_str());
        key.push(entry.mode.key() as u32);
        assert(key@ == entry@.key());
        let (i, present) = self.entries.locate(&key);
        proof {
            ordering::slot_divides(keys, key@);
        }
        if present {
            let held = self.entries.get(i);
            let merged = AclEntry {
                sid: held.sid.clone(),
                mode: held.mode,
                mask: held.mask | entry.mask,
                inheritance: match entry.inheritance {
                    AclInheritance::Subtree => AclInheritance::Subtree,
                    AclInheritance::Exact => held.inheritance,
                },
            };
            assert(merged@ == before.entries[i as int].merged(entry@));
            self.entries.replace(i, merged);
            assert(self@.entries =~= before.entries.update(i as int, merged@));
            assert(entry_keys(self@.entries) =~= keys);
        } else {
            self.entries.insert(i, key, entry.clone());
            assert(self@.entries =~= before.entries.insert(i as int, entry@));
            assert(entry_keys(self@.entries) =~= keys.insert(i as int, key@));
        }
        assert(self@.remove_sids =~= before.remove_sids);
    }

    /// Takes in one whose entries go.
    fn merge_sid(&mut self, sid: &String)
        requires
            old(self).wf(),
        ensures
            final(self).wf(),
            final(self)@ == (OperationModel {
                remove_sids: with_text(old(self)@.remove_sids, sid@),
                ..old(self)@
            }),
    {
        let ghost before = self@;
        let ghost keys = text_keys(before.remove_sids);
        let key = words_of(sid.as_str());
        let (i, present) = self.remove_sids.locate(&key);
        proof {
            ordering::slot_divides(keys, key@);
        }
        if !present {
            self.remove_sids.insert(i, key, sid.clone());
            assert(self@.remove_sids =~= before.remove_sids.insert(i as int, sid@));
            assert(text_keys(self@.remove_sids) =~= keys.insert(i as int, key@));
        }
    }

    /// Takes in one path that is left out.
    fn merge_exclusion(&mut self, root: &NativePath)
        requires
            old(self).wf(),
        ensures
            final(self).wf(),
            final(self)@ == (OperationModel {
                excluded_roots: native_path::with_path(old(self)@.excluded_roots, root@),
                ..old(self)@
            }),
    {
        let ghost before = self@;
        let ghost keys = native_path::path_keys(before.excluded_roots);
        let key = root.key();
        let (i, present) = self.excluded_roots.locate(&key);
        proof {
            ordering::slot_divides(keys, key@);
        }
        if !present {
            self.excluded_roots.insert(i, key, root.clone());
            assert(self@.excluded_roots =~= before.excluded_roots.insert(i as int, root@));
            assert(native_path::path_keys(self@.excluded_roots) =~= keys.insert(i as int, key@));
        }
    }

    /// Takes in a further request for the object.
    pub fn merge(
        &mut self,
        entries: &Vec<AclEntry>,
        protect_dacl: bool,
        remove_sids: &Vec<String>,
        excluded_roots: &Vec<NativePath>,
    )
        requires
            old(self).wf(),
        ensures
            final(self).wf(),
            final(self)@ == old(self)@.merged(
                entry_models(entries@),
                protect_dacl,
                text::texts(remove_sids@),
                native_path::models(excluded_roots@),
            ),
    {
        let ghost before = self@;
        let ghost more_entries = entry_models(entries@);
        let ghost more_sids = text::texts(remove_sids@);
        let ghost more_roots = native_path::models(excluded_roots@);
        let ghost all_entries = with_entries_from(before.entries, more_entries, 0);
        for i in 0..entries.len()
            invariant
                self.wf(),
                more_entries == entry_models(entries@),
                with_entries_from(self@.entries, more_entries, i as int) == all_entries,
                self@ == (OperationModel { entries: self@.entries, ..before }),
        {
            assert(more_entries[i as int] == entries@[i as int]@);
            self.merge_entry(&entries[i]);
        }
        let ghost all_sids = with_texts_from(before.remove_sids, more_sids, 0);
        for i in 0..remove_sids.len()
            invariant
                self.wf(),
                more_sids == text::texts(remove_sids@),
                with_texts_from(self@.remove_sids, more_sids, i as int) == all_sids,
                self@ == (OperationModel {
                    entries: all_entries,
                    remove_sids: self@.remove_sids,
                    ..before
                }),
        {
            assert(more_sids[i as int] == remove_sids@[i as int]@);
            self.merge_sid(&remove_sids[i]);
        }
        self.protect_dacl = self.protect_dacl || protect_dacl;
        let ghost all_roots = with_paths_from(before.excluded_roots, more_roots, 0);
        for i in 0..excluded_roots.len()
            invariant
                self.wf(),
                more_roots == native_path::models(excluded_roots@),
                with_paths_from(self@.excluded_roots, more_roots, i as int) == all_roots,
                self@ == (OperationModel {
                    entries: all_entries,
                    remove_sids: all_sids,
                    protect_dacl: before.protect_dacl || protect_dacl,
                    excluded_roots: self@.excluded_roots,
                    ..before
                }),
        {
            assert(more_roots[i as int] == excluded_roots@[i as int]@);
            self.merge_exclusion(&excluded_roots[i]);
        }
    }
}

/// The entries as they go onto an object that exists already: entries on
/// what is no directory go no further.
pub open spec fn for_existing(entries: Seq<AclEntryModel>, is_directory: bool) -> Seq<
    AclEntryModel,
> {
    entries.map_values(
        |entry: AclEntryModel|
            AclEntryModel {
                inheritance: if is_directory {
                    entry.inheritance
                } else {
                    AclInheritance::Exact
                },
                ..entry
            },
    )
}

/// The entries as they go onto an object that exists already.
pub fn entries_for_existing_path(entries: &Vec<AclEntry>, is_directory: bool) -> (result: Vec<
    AclEntry,
>)
    ensures
        entry_models(result@) == for_existing(entry_models(entries@), is_directory),
{
    let mut result: Vec<AclEntry> = Vec::new();
    for i in 0..entries.len()
        invariant
            result@.len() == i,
            forall|j: int|
                0 <= j < i ==> (#[trigger] result@[j])@ == for_existing(
                    entry_models(entries@),
                    is_directory,
                )[j],
    {
        let entry = &entries[i];
        result.push(
            AclEntry {
                sid: entry.sid.clone(),
                mode: entry.mode,
                mask: entry.mask,
                inheritance: if is_directory {
                    entry.inheritance
                } else {
                    AclInheritance::Exact
                },
            },
        );
    }
    assert(entry_models(result@) =~= for_existing(entry_models(entries@), is_directory));
    result
}

/// The grant of a writable root does not reach into what the root's
/// directories hold: it leaves out the right to delete children.
pub proof fn write_grant_spares_children()
    ensures
        WRITE_ALLOW_MASK & FILE_DELETE_CHILD == 0,
{
    assert((0x0012_0089u32 | 0x0012_0116u32 | 0x0012_00a0u32 | 0x0001_0000u32) & 0x40u32 == 0)
        by (bit_vector);
}

/// A read-only path denies every right to write that a writable root grants.
pub proof fn write_denial_covers_write_grant()
    ensures
        WRITE_ALLOW_MASK & !READ_ALLOW_MASK & !WRITE_DENY_MASK == 0,
{
    assert((0x0012_0089u32 | 0x0012_0116u32 | 0x0012_00a0u32 | 0x0001_0000u32) & !(0x0012_0089u32
        | 0x0012_00a0u32) & !(0x0012_0116u32 | 0x2u32 | 0x4u32 | 0x10u32 | 0x100u32 | 0x0001_0000u32
        | 0x40u32 | 0x0004_0000u32 | 0x0008_0000u32) == 0) by (bit_vector);
}

/// The entry with a key.
pub open spec fn entry_with_key(entries: Seq<AclEntryModel>, key: Seq<u32>) -> Option<
    AclEntryModel,
> {
    keyed::item_at(entry_keys(entries), entries, key)
}

/// What is found under a key once an entry is taken in.
proof fn found_after_entry(entries: Seq<AclEntryModel>, entry: AclEntryModel, key: Seq<u32>)
    requires
        ordering::strictly_ascending(entry_keys(entries)),
    ensures
        ordering::strictly_ascending(entry_keys(with_entry(entries, entry))),
        entry_with_key(with_entry(entries, entry), key) == (if key == entry.key() {
            match entry_with_key(entries, key) {
                Some(held) => Some(held.merged(entry)),
                None => Some(entry),
            }
        } else {
            entry_with_key(entries, key)
        }),
{
    let keys = entry_keys(entries);
    let own = entry.key();
    let at = ordering::slot(keys, own);
    let after_keys = entry_keys(with_entry(entries, entry));
    ordering::slot_divides(keys, own);
    if ordering::is_present(keys, own) {
        assert(entries[at].merged(entry).key() == entries[at].key());
        assert(after_keys =~= keys);
        keyed::found_after_replace(keys, entries, own, entries[at].merged(entry), key);
    } else {
        assert(after_keys =~= keys.insert(at, own));
        keyed::found_after_insert(keys, entries, own, entry, key);
        ordering::slot_divides(keys, key);
    }
}

/// Lists that hold the same entries under the same keys are the same list.
proof fn entries_are_determined(a: Seq<AclEntryModel>, b: Seq<AclEntryModel>)
    requires
        ordering::strictly_ascending(entry_keys(a)),
        ordering::strictly_ascending(entry_keys(b)),
        forall|key: Seq<u32>| #[trigger] entry_with_key(a, key) == entry_with_key(b, key),
    ensures
        a == b,
{
    let ka = entry_keys(a);
    let kb = entry_keys(b);
    assert forall|key: Seq<u32>| #[trigger] ka.contains(key) <==> kb.contains(key) by {
        ordering::present_where_contained(ka, key);
        ordering::present_where_contained(kb, key);
        assert(entry_with_key(a, key) == entry_with_key(b, key));
    }
    ordering::ascending_list_is_unique(ka, kb);
    assert(a.len() == ka.len());
    assert(b.len() == kb.len());
    assert forall|i: int| 0 <= i < a.len() implies a[i] == b[i] by {
        let key = ka[i];
        assert(ka.contains(key));
        ordering::present_where_contained(ka, key);
        ordering::slot_divides(ka, key);
        keyed::one_position(ka, i, ordering::slot(ka, key));
        assert(entry_with_key(a, key) == Some(a[i]));
        assert(entry_with_key(b, key) == Some(b[i]));
    }
    assert(a =~= b);
}

/// Entries are taken together to the same result in either order.
pub proof fn entries_merge_in_either_order(
    entries: Seq<AclEntryModel>,
    first: AclEntryModel,
    second: AclEntryModel,
)
    requires
        ordering::strictly_ascending(entry_keys(entries)),
    ensures
        with_entry(with_entry(entries, first), second) == with_entry(
            with_entry(entries, second),
            first,
        ),
{
    let a = with_entry(entries, first);
    let b = with_entry(entries, second);
    found_after_entry(entries, first, first.key());
    found_after_entry(entries, second, first.key());
    found_after_entry(a, second, first.key());
    found_after_entry(b, first, first.key());
    assert forall|key: Seq<u32>| #[trigger]
        entry_with_key(with_entry(a, second), key) == entry_with_key(with_entry(b, first), key) by {
        found_after_entry(entries, first, key);
        found_after_entry(entries, second, key);
        found_after_entry(a, second, key);
        found_after_entry(b, first, key);
        if key == first.key() && key == second.key() {
            same_key_same_subject(first, second);
            match entry_with_key(entries, key) {
                Some(held) => {
                    let x = held.mask;
                    let y = first.mask;
                    let z = second.mask;
                    assert((x | y) | z == (x | z) | y) by (bit_vector);
                },
                None => {
                    let y = first.mask;
                    let z = second.mask;
                    assert(y | z == z | y) by (bit_vector);
                },
            }
        }
    }
    entries_are_determined(with_entry(a, second), with_entry(b, first));
}

/// Entries with the same key are about the same whom and mode.
proof fn same_key_same_subject(a: AclEntryModel, b: AclEntryModel)
    requires
        a.key() == b.key(),
    ensures
        a.sid == b.sid,
        a.mode == b.mode,
{
    assert(a.key().last() == a.mode.rank());
    assert(b.key().last() == b.mode.rank());
    assert(a.key().drop_last() =~= text_words(a.sid));
    assert(b.key().drop_last() =~= text_words(b.sid));
    words_determine_text(a.sid, b.sid);
}

/// Texts with the same words are the same text.
pub proof fn words_determine_text(a: Seq<char>, b: Seq<char>)
    requires
        text_words(a) == text_words(b),
    ensures
        a == b,
{
    assert(text_words(a).len() == a.len() + 1);
    assert(text_words(b).len() == b.len() + 1);
    assert forall|i: int| 0 <= i < a.len() implies a[i] == b[i] by {
        assert(text_words(a)[i] == word_spec(a[i]));
        assert(text_words(b)[i] == word_spec(b[i]));
        word_determines_char(a[i], b[i]);
    }
    assert(a =~= b);
}

/// The word of a character.
spec fn word_spec(c: char) -> u32 {
    (c as u32 + 1) as u32
}

/// Characters with the same word are the same character.
proof fn word_determines_char(a: char, b: char)
    requires
        word_spec(a) == word_spec(b),
    ensures
        a == b,
{
}

/// One more entry before or behind others comes to the same.
proof fn entry_moves_past_others(
    entries: Seq<AclEntryModel>,
    entry: AclEntryModel,
    more: Seq<AclEntryModel>,
    i: int,
)
    requires
        ordering::strictly_ascending(entry_keys(entries)),
        0 <= i <= more.len(),
    ensures
        with_entry(with_entries_from(entries, more, i), entry) == with_entries_from(
            with_entry(entries, entry),
            more,
            i,
        ),
    decreases more.len() - i,
{
    if i < more.len() {
        found_after_entry(entries, more[i], more[i].key());
        entry_moves_past_others(with_entry(entries, more[i]), entry, more, i + 1);
        entries_merge_in_either_order(entries, more[i], entry);
    }
}

/// Two requests for one object ask for the same entries in either order.
pub proof fn requests_merge_in_either_order(
    entries: Seq<AclEntryModel>,
    first: Seq<AclEntryModel>,
    second: Seq<AclEntryModel>,
)
    requires
        ordering::strictly_ascending(entry_keys(entries)),
    ensures
        with_entries_from(with_entries_from(entries, first, 0), second, 0) == with_entries_from(
            with_entries_from(entries, second, 0),
            first,
            0,
        ),
{
    requests_swap_from(entries, first, second, 0);
}

/// What `requests_merge_in_either_order` says, from the `i`th entry on.
proof fn requests_swap_from(
    entries: Seq<AclEntryModel>,
    first: Seq<AclEntryModel>,
    second: Seq<AclEntryModel>,
    i: int,
)
    requires
        ordering::strictly_ascending(entry_keys(entries)),
        0 <= i <= first.len(),
    ensures
        with_entries_from(with_entries_from(entries, first, i), second, 0) == with_entries_from(
            with_entries_from(entries, second, 0),
            first,
            i,
        ),
    decreases first.len() - i,
{
    if i < first.len() {
        found_after_entry(entries, first[i], first[i].key());
        requests_swap_from(with_entry(entries, first[i]), first, second, i + 1);
        entry_moves_past_others(entries, first[i], second, 0);
    }
}

/// Keys with more, from the `i`th on.
pub open spec fn with_keys_from(
    keys: Seq<Seq<u32>>,
    more: Seq<Seq<u32>>,
    i: int,
) -> Seq<Seq<u32>>
    decreases more.len() - i,
{
    if i < 0 || i >= more.len() {
        keys
    } else {
        with_keys_from(ordering::with_key(keys, more[i]), more, i + 1)
    }
}

/// Whether a key stands in a list, from the `i`th on.
spec fn stands_from(more: Seq<Seq<u32>>, key: Seq<u32>, i: int) -> bool {
    exists|j: int| i <= j < more.len() && #[trigger] more[j] == key
}

/// What a list holds once keys are taken in, from the `i`th on.
proof fn keys_join(keys: Seq<Seq<u32>>, more: Seq<Seq<u32>>, i: int, key: Seq<u32>)
    requires
        ordering::strictly_ascending(keys),
        0 <= i <= more.len(),
    ensures
        ordering::strictly_ascending(with_keys_from(keys, more, i)),
        with_keys_from(keys, more, i).contains(key) <==> keys.contains(key) || stands_from(
            more,
            key,
            i,
        ),
    decreases more.len() - i,
{
    if i < more.len() {
        ordering::key_joins(keys, more[i], key);
        keys_join(ordering::with_key(keys, more[i]), more, i + 1, key);
        if stands_from(more, key, i) && !stands_from(more, key, i + 1) {
            let j = choose|j: int| i <= j < more.len() && #[trigger] more[j] == key;
            assert(j == i);
        }
    }
}

/// Keys are taken in to the same result in either order.
proof fn keys_merge_in_either_order(
    keys: Seq<Seq<u32>>,
    first: Seq<Seq<u32>>,
    second: Seq<Seq<u32>>,
)
    requires
        ordering::strictly_ascending(keys),
    ensures
        ordering::strictly_ascending(with_keys_from(with_keys_from(keys, first, 0), second, 0)),
        with_keys_from(with_keys_from(keys, first, 0), second, 0) == with_keys_from(
            with_keys_from(keys, second, 0),
            first,
            0,
        ),
{
    let a = with_keys_from(keys, first, 0);
    let b = with_keys_from(keys, second, 0);
    let ab = with_keys_from(a, second, 0);
    let ba = with_keys_from(b, first, 0);
    keys_join(keys, first, 0, Seq::empty());
    keys_join(keys, second, 0, Seq::empty());
    keys_join(a, second, 0, Seq::empty());
    keys_join(b, first, 0, Seq::empty());
    assert forall|key: Seq<u32>| #[trigger] ab.contains(key) <==> ba.contains(key) by {
        keys_join(keys, first, 0, key);
        keys_join(keys, second, 0, key);
        keys_join(a, second, 0, key);
        keys_join(b, first, 0, key);
    }
    ordering::ascending_list_is_unique(ab, ba);
}

/// The words of texts are taken in as keys.
proof fn texts_join_as_keys(values: Seq<Seq<char>>, more: Seq<Seq<char>>, i: int)
    requires
        ordering::strictly_ascending(text_keys(values)),
        0 <= i <= more.len(),
    ensures
        text_keys(with_texts_from(values, more, i)) == with_keys_from(
            text_keys(values),
            text_keys(more),
            i,
        ),
    decreases more.len() - i,
{
    if i < more.len() {
        let keys = text_keys(values);
        let own = text_words(more[i]);
        ordering::slot_divides(keys, own);
        ordering::key_joins(keys, own, own);
        assert(text_keys(with_text(values, more[i])) =~= ordering::with_key(keys, own));
        assert(text_keys(more)[i] == own);
        texts_join_as_keys(with_text(values, more[i]), more, i + 1);
    }
}

/// The keys of paths are taken in as keys.
proof fn paths_join_as_keys(paths: Seq<PathModel>, more: Seq<PathModel>, i: int)
    requires
        ordering::strictly_ascending(native_path::path_keys(paths)),
        0 <= i <= more.len(),
    ensures
        native_path::path_keys(with_paths_from(paths, more, i)) == with_keys_from(
            native_path::path_keys(paths),
            native_path::path_keys(more),
            i,
        ),
    decreases more.len() - i,
{
    if i < more.len() {
        let keys = native_path::path_keys(paths);
        let own = more[i].key();
        ordering::slot_divides(keys, own);
        ordering::key_joins(keys, own, own);
        assert(native_path::path_keys(native_path::with_path(paths, more[i])) =~= ordering::with_key(
            keys,
            own,
        ));
        assert(native_path::path_keys(more)[i] == own);
        paths_join_as_keys(native_path::with_path(paths, more[i]), more, i + 1);
    }
}

/// Texts with the same words are the same texts.
proof fn keys_determine_texts(a: Seq<Seq<char>>, b: Seq<Seq<char>>)
    requires
        text_keys(a) == text_keys(b),
    ensures
        a == b,
{
    assert(text_keys(a).len() == a.len());
    assert(text_keys(b).len() == b.len());
    assert forall|i: int| 0 <= i < a.len() implies a[i] == b[i] by {
        assert(text_keys(a)[i] == text_words(a[i]));
        assert(text_keys(b)[i] == text_words(b[i]));
        words_determine_text(a[i], b[i]);
    }
    assert(a =~= b);
}

/// A request for one object.
#[verifier::ext_equal]
pub struct RequestModel {
    /// The entries.
    pub entries: Seq<AclEntryModel>,
    /// Whether entries from above stop here.
    pub protect_dacl: bool,
    /// Whose entries go.
    pub remove_sids: Seq<Seq<char>>,
    /// The paths below that are left out.
    pub excluded_roots: Seq<PathModel>,
}

impl OperationModel {
    /// With a further request taken in.
    pub open spec fn with_request(self, request: RequestModel) -> OperationModel {
        self.merged(
            request.entries,
            request.protect_dacl,
            request.remove_sids,
            request.excluded_roots,
        )
    }
}

/// Two requests for one object come to the same in either order: the same
/// entries, the same whose entries go, the same stop to entries from above, and
/// the same paths left out, where of two spellings of one path the first is
/// kept.
pub proof fn operations_merge_in_either_order(
    operation: OperationModel,
    first: RequestModel,
    second: RequestModel,
)
    requires
        operation.wf(),
    ensures
        ({
            let one = operation.with_request(first).with_request(second);
            let other = operation.with_request(second).with_request(first);
            &&& one.path == other.path
            &&& one.entries == other.entries
            &&& one.remove_sids == other.remove_sids
            &&& one.protect_dacl == other.protect_dacl
            &&& native_path::path_keys(one.excluded_roots) == native_path::path_keys(
                other.excluded_roots,
            )
        }),
{
    let one = operation.with_request(first).with_request(second);
    let other = operation.with_request(second).with_request(first);
    requests_merge_in_either_order(operation.entries, first.entries, second.entries);
    let sids = text_keys(operation.remove_sids);
    let (fs, ss) = (text_keys(first.remove_sids), text_keys(second.remove_sids));
    keys_merge_in_either_order(sids, fs, ss);
    keys_join(sids, fs, 0, Seq::empty());
    keys_join(sids, ss, 0, Seq::empty());
    texts_join_as_keys(operation.remove_sids, first.remove_sids, 0);
    texts_join_as_keys(operation.remove_sids, second.remove_sids, 0);
    texts_join_as_keys(operation.with_request(first).remove_sids, second.remove_sids, 0);
    texts_join_as_keys(operation.with_request(second).remove_sids, first.remove_sids, 0);
    keys_determine_texts(one.remove_sids, other.remove_sids);
    let roots = native_path::path_keys(operation.excluded_roots);
    let fr = native_path::path_keys(first.excluded_roots);
    let sr = native_path::path_keys(second.excluded_roots);
    keys_merge_in_either_order(roots, fr, sr);
    keys_join(roots, fr, 0, Seq::empty());
    keys_join(roots, sr, 0, Seq::empty());
    paths_join_as_keys(operation.excluded_roots, first.excluded_roots, 0);
    paths_join_as_keys(operation.excluded_roots, second.excluded_roots, 0);
    paths_join_as_keys(operation.with_request(first).excluded_roots, second.excluded_roots, 0);
    paths_join_as_keys(operation.with_request(second).excluded_roots, first.excluded_roots, 0);
}

/// What an operation holds of those whose entries go and of the paths left
/// out, once a request is taken in: what it held and what the request names.
pub proof fn operations_hold_what_requests_name(
    operation: OperationModel,
    request: RequestModel,
    key: Seq<u32>,
)
    requires
        operation.wf(),
    ensures
        ({
            let after = operation.with_request(request);
            &&& text_keys(after.remove_sids).contains(key) <==> text_keys(
                operation.remove_sids,
            ).contains(key) || text_keys(request.remove_sids).contains(key)
            &&& native_path::path_keys(after.excluded_roots).contains(key)
                <==> native_path::path_keys(operation.excluded_roots).contains(key)
                || native_path::path_keys(request.excluded_roots).contains(key)
            &&& after.protect_dacl == (operation.protect_dacl || request.protect_dacl)
        }),
{
    texts_join_as_keys(operation.remove_sids, request.remove_sids, 0);
    keys_join(text_keys(operation.remove_sids), text_keys(request.remove_sids), 0, key);
    paths_join_as_keys(operation.excluded_roots, request.excluded_roots, 0);
    keys_join(
        native_path::path_keys(operation.excluded_roots),
        native_path::path_keys(request.excluded_roots),
        0,
        key,
    );
    assert(text_keys(request.remove_sids).contains(key) <==> stands_from(
        text_keys(request.remove_sids),
        key,
        0,
    ));
    assert(native_path::path_keys(request.excluded_roots).contains(key) <==> stands_from(
        native_path::path_keys(request.excluded_roots),
        key,
        0,
    ));
}

impl AclEntryModel {
    /// Whether the entry allows, or denies, someone.
    pub open spec fn is_for(self, sid: Seq<char>, mode: AclAccessMode) -> bool {
        self.sid == sid && self.mode == mode
    }
}

/// Whether entries that were asked for hold one that allows, or denies,
/// someone.
pub open spec fn is_asked(
    asked: Seq<AclEntryModel>,
    sid: Seq<char>,
    mode: AclAccessMode,
) -> bool {
    exists|i: int| 0 <= i < asked.len() && (#[trigger] asked[i]).is_for(sid, mode)
}

/// Whether one of them goes down to everything below.
pub open spec fn is_asked_below(
    asked: Seq<AclEntryModel>,
    sid: Seq<char>,
    mode: AclAccessMode,
) -> bool {
    exists|i: int|
        0 <= i < asked.len() && (#[trigger] asked[i]).is_for(sid, mode) && asked[i].inheritance
            is Subtree
}

/// All rights that entries that were asked for allow, or deny, someone.
pub open spec fn asked_mask(
    asked: Seq<AclEntryModel>,
    sid: Seq<char>,
    mode: AclAccessMode,
) -> u32
    decreases asked.len(),
{
    if asked.len() == 0 {
        0
    } else if asked.last().is_for(sid, mode) {
        asked_mask(asked.drop_last(), sid, mode) | asked.last().mask
    } else {
        asked_mask(asked.drop_last(), sid, mode)
    }
}

/// Whether entries come to what was asked for: one entry for everyone who is
/// allowed something and one for everyone who is denied something, with all
/// rights that were asked for, that goes down to everything below where one that
/// was asked for does.
pub open spec fn come_to(entries: Seq<AclEntryModel>, asked: Seq<AclEntryModel>) -> bool {
    &&& ordering::strictly_ascending(entry_keys(entries))
    &&& forall|sid: Seq<char>, mode: AclAccessMode| #[trigger]
        is_asked(asked, sid, mode) <==> is_asked(entries, sid, mode)
    &&& forall|i: int|
        0 <= i < entries.len() ==> {
            &&& (#[trigger] entries[i]).mask == asked_mask(
                asked,
                entries[i].sid,
                entries[i].mode,
            )
            &&& entries[i].inheritance is Subtree <==> is_asked_below(
                asked,
                entries[i].sid,
                entries[i].mode,
            )
        }
}

/// No rights were asked for where no entry was.
proof fn nothing_asked(asked: Seq<AclEntryModel>, sid: Seq<char>, mode: AclAccessMode)
    requires
        !is_asked(asked, sid, mode),
    ensures
        asked_mask(asked, sid, mode) == 0,
        !is_asked_below(asked, sid, mode),
    decreases asked.len(),
{
    if asked.len() > 0 {
        let before = asked.drop_last();
        assert(!is_asked(before, sid, mode)) by {
            if is_asked(before, sid, mode) {
                let i = choose|i: int|
                    0 <= i < before.len() && (#[trigger] before[i]).is_for(sid, mode);
                assert(asked[i].is_for(sid, mode));
            }
        }
        assert(!asked[asked.len() - 1].is_for(sid, mode));
        nothing_asked(before, sid, mode);
    }
}

/// What was asked for once one more entry is.
proof fn asked_with(
    asked: Seq<AclEntryModel>,
    entry: AclEntryModel,
    sid: Seq<char>,
    mode: AclAccessMode,
)
    ensures
        is_asked(asked.push(entry), sid, mode) <==> is_asked(asked, sid, mode) || entry.is_for(
            sid,
            mode,
        ),
        is_asked_below(asked.push(entry), sid, mode) <==> is_asked_below(asked, sid, mode) || (
        entry.is_for(sid, mode) && entry.inheritance is Subtree),
        asked_mask(asked.push(entry), sid, mode) == (if entry.is_for(sid, mode) {
            asked_mask(asked, sid, mode) | entry.mask
        } else {
            asked_mask(asked, sid, mode)
        }),
{
    let more = asked.push(entry);
    assert(more.drop_last() =~= asked);
    assert(more[asked.len() as int] == entry);
    if is_asked(asked, sid, mode) {
        let i = choose|i: int| 0 <= i < asked.len() && (#[trigger] asked[i]).is_for(sid, mode);
        assert(more[i].is_for(sid, mode));
    }
    if is_asked_below(asked, sid, mode) {
        let i = choose|i: int|
            0 <= i < asked.len() && (#[trigger] asked[i]).is_for(sid, mode) && asked[i].inheritance
                is Subtree;
        assert(more[i].is_for(sid, mode));
    }
    if is_asked(more, sid, mode) && !entry.is_for(sid, mode) {
        let i = choose|i: int| 0 <= i < more.len() && (#[trigger] more[i]).is_for(sid, mode);
        assert(asked[i].is_for(sid, mode));
    }
    if is_asked_below(more, sid, mode) && !(entry.is_for(sid, mode) && entry.inheritance
        is Subtree) {
        let i = choose|i: int|
            0 <= i < more.len() && (#[trigger] more[i]).is_for(sid, mode) && more[i].inheritance
                is Subtree;
        assert(asked[i].is_for(sid, mode));
    }
}

/// Entries come to what was asked for, with one more.
proof fn entry_comes_to(
    entries: Seq<AclEntryModel>,
    asked: Seq<AclEntryModel>,
    entry: AclEntryModel,
)
    requires
        come_to(entries, asked),
    ensures
        come_to(with_entry(entries, entry), asked.push(entry)),
{
    let keys = entry_keys(entries);
    let own = entry.key();
    let at = ordering::slot(keys, own);
    let after = with_entry(entries, entry);
    let more = asked.push(entry);
    found_after_entry(entries, entry, own);
    ordering::slot_divides(keys, own);
    ordering::present_where_contained(keys, own);
    if ordering::is_present(keys, own) {
        assert(entries[at].key() == own);
        same_key_same_subject(entries[at], entry);
        assert(entries[at].is_for(entry.sid, entry.mode));
    } else {
        assert(!is_asked(entries, entry.sid, entry.mode)) by {
            if is_asked(entries, entry.sid, entry.mode) {
                let i = choose|i: int|
                    0 <= i < entries.len() && (#[trigger] entries[i]).is_for(
                        entry.sid,
                        entry.mode,
                    );
                assert(keys[i] == own);
            }
        }
        assert(!is_asked(asked, entry.sid, entry.mode));
        nothing_asked(asked, entry.sid, entry.mode);
        let y = entry.mask;
        assert(0u32 | y == y) by (bit_vector);
    }
    assert forall|sid: Seq<char>, mode: AclAccessMode| #[trigger]
        is_asked(more, sid, mode) <==> is_asked(after, sid, mode) by {
        asked_with(asked, entry, sid, mode);
        assert(is_asked(asked, sid, mode) <==> is_asked(entries, sid, mode));
        if is_asked(entries, sid, mode) {
            let i = choose|i: int|
                0 <= i < entries.len() && (#[trigger] entries[i]).is_for(sid, mode);
            let j = if ordering::is_present(keys, own) || i < at {
                i
            } else {
                i + 1
            };
            assert(after[j].is_for(sid, mode));
        }
        if entry.is_for(sid, mode) {
            assert(after[at].is_for(sid, mode));
        }
        if is_asked(after, sid, mode) && !entry.is_for(sid, mode) {
            let j = choose|j: int| 0 <= j < after.len() && (#[trigger] after[j]).is_for(sid, mode);
            let i = if ordering::is_present(keys, own) || j < at {
                j
            } else {
                j - 1
            };
            assert(entries[i].is_for(sid, mode));
        }
    }
    assert forall|j: int| 0 <= j < after.len() implies {
        &&& (#[trigger] after[j]).mask == asked_mask(more, after[j].sid, after[j].mode)
        &&& after[j].inheritance is Subtree <==> is_asked_below(more, after[j].sid, after[j].mode)
    } by {
        asked_with(asked, entry, after[j].sid, after[j].mode);
        if j != at {
            let i = if ordering::is_present(keys, own) || j < at {
                j
            } else {
                j - 1
            };
            assert(after[j] == entries[i]);
            if entry.is_for(after[j].sid, after[j].mode) {
                assert(entry_keys(after)[j] == own);
                assert(entry_keys(after)[at] == own);
                keyed::one_position(entry_keys(after), j, at);
            }
        } else if ordering::is_present(keys, own) {
            assert(after[at] == entries[at].merged(entry));
        } else {
            assert(after[at] == entry);
        }
    }
}

/// Entries that come to what was asked for come to it still once more are
/// taken in. So the entries of an operation that a request came to hold one
/// entry for each whom and mode, with all rights that any request asked for.
pub proof fn requests_come_to_all_that_was_asked(
    entries: Seq<AclEntryModel>,
    asked: Seq<AclEntryModel>,
    more: Seq<AclEntryModel>,
)
    requires
        come_to(entries, asked),
    ensures
        come_to(Seq::empty(), Seq::empty()),
        come_to(with_entries_from(entries, more, 0), asked + more),
{
    entries_come_to_from(entries, asked, more, 0);
    assert(more.skip(0) =~= more);
}

/// What `requests_come_to_all_that_was_asked` says, from the `i`th entry on.
proof fn entries_come_to_from(
    entries: Seq<AclEntryModel>,
    asked: Seq<AclEntryModel>,
    more: Seq<AclEntryModel>,
    i: int,
)
    requires
        come_to(entries, asked),
        0 <= i <= more.len(),
    ensures
        come_to(with_entries_from(entries, more, i), asked + more.skip(i)),
    decreases more.len() - i,
{
    if i < more.len() {
        entry_comes_to(entries, asked, more[i]);
        entries_come_to_from(with_entry(entries, more[i]), asked.push(more[i]), more, i + 1);
        assert(asked.push(more[i]) + more.skip(i + 1) =~= asked + more.skip(i));
    } else {
        assert(asked + more.skip(i) =~= asked);
    }
}

/// Of entries that come to what was asked for, no two are about the same whom
/// and mode.
pub proof fn one_entry_for_each(
    entries: Seq<AclEntryModel>,
    asked: Seq<AclEntryModel>,
    i: int,
    j: int,
)
    requires
        come_to(entries, asked),
        0 <= i < j < entries.len(),
    ensures
        entries[i].sid != entries[j].sid || entries[i].mode != entries[j].mode,
{
    let keys = entry_keys(entries);
    if entries[i].sid == entries[j].sid && entries[i].mode == entries[j].mode {
        assert(keys[i] == keys[j]);
        keyed::one_position(keys, i, j);
    }
}

/// Entries that are in order allow, or deny, someone what the one entry about
/// them does.
proof fn rights_are_one_entrys(entries: Seq<AclEntryModel>, sid: Seq<char>, mode: AclAccessMode)
    requires
        ordering::strictly_ascending(entry_keys(entries)),
    ensures
        match entry_with_key(entries, text_words(sid).push(mode.rank())) {
            Some(entry) => entry.is_for(sid, mode) && asked_mask(entries, sid, mode) == entry.mask
                && (is_asked_below(entries, sid, mode) <==> entry.inheritance is Subtree),
            None => asked_mask(entries, sid, mode) == 0 && !is_asked_below(entries, sid, mode),
        },
{
    let keys = entry_keys(entries);
    let subject = AclEntryModel { sid, mode, mask: 0, inheritance: AclInheritance::Subtree };
    let key = subject.key();
    ordering::slot_divides(keys, key);
    ordering::present_where_contained(keys, key);
    if ordering::is_present(keys, key) {
        let at = ordering::slot(keys, key);
        assert(entries[at].key() == key);
        same_key_same_subject(entries[at], subject);
        assert(entries[at].is_for(sid, mode));
        only_entry_counts(entries, at);
        if is_asked_below(entries, sid, mode) {
            let i = choose|i: int|
                0 <= i < entries.len() && (#[trigger] entries[i]).is_for(sid, mode)
                    && entries[i].inheritance is Subtree;
            assert(keys[i] == key);
            keyed::one_position(keys, i, at);
        }
    } else {
        assert(!is_asked(entries, sid, mode)) by {
            if is_asked(entries, sid, mode) {
                let i = choose|i: int|
                    0 <= i < entries.len() && (#[trigger] entries[i]).is_for(sid, mode);
                assert(keys[i] == key);
            }
        }
        nothing_asked(entries, sid, mode);
    }
}

/// Where one entry only is about someone, all rights are its own.
proof fn only_entry_counts(entries: Seq<AclEntryModel>, at: int)
    requires
        ordering::strictly_ascending(entry_keys(entries)),
        0 <= at < entries.len(),
    ensures
        asked_mask(entries, entries[at].sid, entries[at].mode) == entries[at].mask,
    decreases entries.len(),
{
    let keys = entry_keys(entries);
    let front = entries.drop_last();
    let last = entries.len() - 1;
    let sid = entries[at].sid;
    let mode = entries[at].mode;
    assert(entry_keys(front) =~= keys.drop_last());
    assert(ordering::strictly_ascending(entry_keys(front)));
    if at == last {
        assert(!is_asked(front, sid, mode)) by {
            if is_asked(front, sid, mode) {
                let i = choose|i: int|
                    0 <= i < front.len() && (#[trigger] front[i]).is_for(sid, mode);
                assert(entries[i].key() == entries[at].key());
                assert(keys[i] == keys[at]);
                keyed::one_position(keys, i, at);
            }
        }
        nothing_asked(front, sid, mode);
        let mask = entries[at].mask;
        assert(0u32 | mask == mask) by (bit_vector);
    } else {
        only_entry_counts(front, at);
        assert(front[at] == entries[at]);
        if entries[last].is_for(sid, mode) {
            assert(keys[last] == keys[at]);
            keyed::one_position(keys, last, at);
        }
    }
}

/// Rights add up in any grouping.
proof fn rights_add_up(a: u32, b: u32, c: u32)
    ensures
        (a | b) | c == a | (b | c),
        a | 0 == a,
        0 | a == a,
        (a | b) & a == a,
        (a | b) & b == b,
{
    assert({
        &&& (a | b) | c == a | (b | c)
        &&& a | 0 == a
        &&& 0 | a == a
        &&& (a | b) & a == a
        &&& (a | b) & b == b
    }) by (bit_vector);
}

/// What entries allow, or deny, someone once one more is taken in.
proof fn entry_adds_rights(
    entries: Seq<AclEntryModel>,
    entry: AclEntryModel,
    sid: Seq<char>,
    mode: AclAccessMode,
)
    requires
        ordering::strictly_ascending(entry_keys(entries)),
    ensures
        ordering::strictly_ascending(entry_keys(with_entry(entries, entry))),
        asked_mask(with_entry(entries, entry), sid, mode) == asked_mask(entries, sid, mode)
            | asked_mask(seq![entry], sid, mode),
        is_asked_below(with_entry(entries, entry), sid, mode) <==> is_asked_below(
            entries,
            sid,
            mode,
        ) || is_asked_below(seq![entry], sid, mode),
{
    let subject = AclEntryModel { sid, mode, mask: 0, inheritance: AclInheritance::Subtree };
    let key = subject.key();
    found_after_entry(entries, entry, key);
    rights_are_one_entrys(entries, sid, mode);
    rights_are_one_entrys(with_entry(entries, entry), sid, mode);
    let one = seq![entry];
    assert(ordering::strictly_ascending(entry_keys(one)));
    rights_are_one_entrys(one, sid, mode);
    asked_with(Seq::empty(), entry, sid, mode);
    assert(Seq::<AclEntryModel>::empty().push(entry) =~= one);
    rights_add_up(entry.mask, 0, 0);
    rights_add_up(asked_mask(entries, sid, mode), 0, 0);
    if key == entry.key() {
        same_key_same_subject(entry, subject);
    }
}

/// What two lists of entries allow, or deny, someone is what both do.
proof fn rights_of_both(
    a: Seq<AclEntryModel>,
    b: Seq<AclEntryModel>,
    sid: Seq<char>,
    mode: AclAccessMode,
)
    ensures
        asked_mask(a + b, sid, mode) == asked_mask(a, sid, mode) | asked_mask(b, sid, mode),
        is_asked_below(a + b, sid, mode) <==> is_asked_below(a, sid, mode) || is_asked_below(
            b,
            sid,
            mode,
        ),
    decreases b.len(),
{
    rights_add_up(asked_mask(a, sid, mode), 0, 0);
    if b.len() == 0 {
        assert(a + b =~= a);
    } else {
        let front = b.drop_last();
        rights_of_both(a, front, sid, mode);
        assert((a + front).push(b.last()) =~= a + b);
        assert(front.push(b.last()) =~= b);
        asked_with(a + front, b.last(), sid, mode);
        asked_with(front, b.last(), sid, mode);
        rights_add_up(asked_mask(a, sid, mode), asked_mask(front, sid, mode), b.last().mask);
    }
}

/// What entries allow, or deny, someone once more are taken in from the `i`th
/// on.
proof fn entries_add_rights_from(
    entries: Seq<AclEntryModel>,
    more: Seq<AclEntryModel>,
    i: int,
    sid: Seq<char>,
    mode: AclAccessMode,
)
    requires
        ordering::strictly_ascending(entry_keys(entries)),
        0 <= i <= more.len(),
    ensures
        ordering::strictly_ascending(entry_keys(with_entries_from(entries, more, i))),
        asked_mask(with_entries_from(entries, more, i), sid, mode) == asked_mask(
            entries,
            sid,
            mode,
        ) | asked_mask(more.skip(i), sid, mode),
        is_asked_below(with_entries_from(entries, more, i), sid, mode) <==> is_asked_below(
            entries,
            sid,
            mode,
        ) || is_asked_below(more.skip(i), sid, mode),
    decreases more.len() - i,
{
    if i < more.len() {
        let one = seq![more[i]];
        entry_adds_rights(entries, more[i], sid, mode);
        entries_add_rights_from(with_entry(entries, more[i]), more, i + 1, sid, mode);
        assert(one + more.skip(i + 1) =~= more.skip(i));
        rights_of_both(one, more.skip(i + 1), sid, mode);
        rights_add_up(
            asked_mask(entries, sid, mode),
            asked_mask(one, sid, mode),
            asked_mask(more.skip(i + 1), sid, mode),
        );
    } else {
        assert(more.skip(i) =~= Seq::empty());
        rights_add_up(asked_mask(entries, sid, mode), 0, 0);
    }
}

/// An operation allows, or denies, someone what it did and what a request that
/// is taken in asks for, and nothing else; it reaches as far down as either does. It
/// stays about the same object and in order.
pub proof fn requests_add_rights(
    operation: OperationModel,
    request: RequestModel,
    sid: Seq<char>,
    mode: AclAccessMode,
)
    requires
        operation.wf(),
    ensures
        ({
            let after = operation.with_request(request);
            &&& after.wf()
            &&& after.path == operation.path
            &&& asked_mask(after.entries, sid, mode) == asked_mask(operation.entries, sid, mode)
                | asked_mask(request.entries, sid, mode)
            &&& is_asked_below(after.entries, sid, mode) <==> is_asked_below(
                operation.entries,
                sid,
                mode,
            ) || is_asked_below(request.entries, sid, mode)
        }),
{
    entries_add_rights_from(operation.entries, request.entries, 0, sid, mode);
    assert(request.entries.skip(0) =~= request.entries);
    texts_join_as_keys(operation.remove_sids, request.remove_sids, 0);
    keys_join(
        text_keys(operation.remove_sids),
        text_keys(request.remove_sids),
        0,
        Seq::empty(),
    );
    paths_join_as_keys(operation.excluded_roots, request.excluded_roots, 0);
    keys_join(
        native_path::path_keys(operation.excluded_roots),
        native_path::path_keys(request.excluded_roots),
        0,
        Seq::empty(),
    );
}

/// What exists already gets the entries as they are, for whom, in which mode and
/// with which rights; only that they go no further than what is no directory.
pub proof fn existing_objects_get_the_same_rights(
    entries: Seq<AclEntryModel>,
    is_directory: bool,
    i: int,
)
    requires
        0 <= i < entries.len(),
    ensures
        for_existing(entries, is_directory).len() == entries.len(),
        for_existing(entries, is_directory)[i].sid == entries[i].sid,
        for_existing(entries, is_directory)[i].mode == entries[i].mode,
        for_existing(entries, is_directory)[i].mask == entries[i].mask,
        for_existing(entries, is_directory)[i].inheritance is Subtree <==> is_directory
            && entries[i].inheritance is Subtree,
{
}

/// What is allowed and what is denied stays apart: the two have different ranks,
/// types and native modes, and an entry goes down to files and directories alike or to
/// nothing.
pub proof fn modes_stay_apart(a: AclAccessMode, b: AclAccessMode, reach: AclInheritance)
    ensures
        a.rank() == b.rank() <==> a == b,
        a.native_mode() == b.native_mode() <==> a == b,
        a is Deny <==> a.rank() == 1,
        a is Allow <==> a.rank() == 0,
        reach.flags() == 3 <==> reach is Subtree,
        reach.flags() == 0 <==> reach is Exact,
{
}

} // verus!
