//! The text that stands for a filesystem plan, whatever the order in which
//! its rules were declared.

use vstd::prelude::*;

use crate::bytes;
use crate::filesystem_plan::{
    FilesystemPlanAccess, FilesystemPlanTarget, MissingFilesystemTarget,
    MissingFilesystemTargetKind, MissingModel, PlannedModel,
};
use crate::filesystem_plan;
use crate::ordering;
use crate::outside;
use crate::text;

verus! {

/// One fact of a plan: what kind it is of, the path that it is about, and the
/// existing directory above a missing path.
#[verifier::ext_equal]
pub struct RecordModel {
    /// The kind of fact.
    pub kind: u8,
    /// The path.
    pub path: Seq<u16>,
    /// The directory above it; empty where there is none.
    pub anchor: Seq<u16>,
}

/// The kind of fact that a target's access is.
pub open spec fn access_tag(access: FilesystemPlanAccess) -> u8 {
    match access {
        FilesystemPlanAccess::ReadRoot => 0,
        FilesystemPlanAccess::WriteRoot => 1,
        FilesystemPlanAccess::ReadOnly => 2,
        FilesystemPlanAccess::Deny => 3,
    }
}

/// The kind of fact that a missing target is.
pub open spec fn missing_tag(kind: MissingFilesystemTargetKind) -> u8 {
    match kind {
        MissingFilesystemTargetKind::SkippedScope => 7,
        MissingFilesystemTargetKind::ReadOnly => 8,
        MissingFilesystemTargetKind::Protected => 9,
    }
}

/// Whether a record states something of a target.
pub open spec fn states_target(record: RecordModel, target: PlannedModel) -> bool {
    &&& record.path == target.path.canonical_units()
    &&& record.anchor == Seq::<u16>::empty()
    &&& {
        ||| record.kind == access_tag(target.access)
        ||| record.kind == 4 && target.origins.read_only
        ||| record.kind == 5 && target.origins.glob
        ||| record.kind == 6 && target.origins.protected
    }
}

/// The record of a missing target.
pub open spec fn missing_record(target: MissingModel) -> RecordModel {
    RecordModel {
        kind: missing_tag(target.kind),
        path: target.path.canonical_units(),
        anchor: match target.anchor {
            Some(anchor) => anchor.canonical_units(),
            None => Seq::empty(),
        },
    }
}

/// Whether a record states something of a plan's targets.
pub open spec fn states_plan(
    record: RecordModel,
    targets: Seq<PlannedModel>,
    missing: Seq<MissingModel>,
) -> bool {
    ||| exists|i: int| 0 <= i < targets.len() && states_target(record, #[trigger] targets[i])
    ||| exists|i: int| 0 <= i < missing.len() && record == missing_record(#[trigger] missing[i])
}

/// Code units as words that end in a zero.
pub open spec fn unit_words(units: Seq<u16>) -> Seq<u32> {
    units.map_values(|unit: u16| (unit as u32 + 1) as u32).push(0)
}

impl RecordModel {
    /// The words by which records are ordered: by kind, then by path, then
    /// by anchor.
    pub open spec fn words(self) -> Seq<u32> {
        seq![self.kind as u32] + unit_words(self.path) + unit_words(self.anchor)
    }

    /// The record as bytes.
    pub open spec fn bytes(self) -> Seq<u8> {
        seq![self.kind] + unit_bytes(self.path) + unit_bytes(self.anchor)
    }
}

/// Code units as bytes, with their number before them.
pub open spec fn unit_bytes(units: Seq<u16>) -> Seq<u8> {
    bytes::little_endian(units.len(), 8) + raw_units(units)
}

/// Code units as bytes.
pub open spec fn raw_units(units: Seq<u16>) -> Seq<u8>
    decreases units.len(),
{
    if units.len() == 0 {
        Seq::empty()
    } else {
        raw_units(units.drop_last()) + bytes::little_endian(units.last() as nat, 2)
    }
}

/// The words of records.
pub open spec fn record_words(records: Seq<RecordModel>) -> Seq<Seq<u32>> {
    records.map_values(|record: RecordModel| record.words())
}

/// Whether a list holds, in order and once each, the records of a plan.
pub open spec fn is_record_list(
    records: Seq<RecordModel>,
    targets: Seq<PlannedModel>,
    missing: Seq<MissingModel>,
) -> bool {
    &&& ordering::strictly_ascending(record_words(records))
    &&& forall|record: RecordModel| #[trigger]
        records.contains(record) <==> states_plan(record, targets, missing)
}

/// The bytes of records, one behind the other.
pub open spec fn records_bytes(records: Seq<RecordModel>) -> Seq<u8>
    decreases records.len(),
{
    if records.len() == 0 {
        Seq::empty()
    } else {
        records_bytes(records.drop_last()) + records.last().bytes()
    }
}

/// What is hashed for a list of records.
pub open spec fn digest_input(records: Seq<RecordModel>) -> Seq<u8> {
    vstd::utf8::encode_utf8("cageforge-windows-filesystem-profile-v1"@).push(0) + records_bytes(
        records,
    )
}

/// The digest of a list of records.
pub open spec fn records_digest(records: Seq<RecordModel>) -> Seq<char> {
    text::hex(outside::sha256_digest(digest_input(records)))
}

/// Whether a text is made up as digests are: of 64 lower-case hexadecimal
/// digits.
pub open spec fn is_digest_text(value: Seq<char>) -> bool {
    &&& value.len() == 64
    &&& forall|i: int|
        0 <= i < value.len() ==> ('0' <= #[trigger] value[i] <= '9' || 'a' <= value[i] <= 'f')
}

/// The digits of 32 bytes make up a digest.
proof fn hex_of_digest(digest: Seq<u8>)
    requires
        digest.len() == 32,
    ensures
        is_digest_text(text::hex(digest)),
{
    let value = text::hex(digest);
    assert forall|i: int| 0 <= i < value.len() implies ('0' <= #[trigger] value[i] <= '9' || 'a'
        <= value[i] <= 'f') by {
        let byte = digest[i / 2];
        assert(byte / 16 < 16 && byte % 16 < 16);
    }
}

/// Whether the number of code units of every path fits in eight bytes.
pub open spec fn lengths_fit(records: Seq<RecordModel>) -> bool {
    forall|i: int|
        0 <= i < records.len() ==> (#[trigger] records[i]).path.len() <= u64::MAX
            && records[i].anchor.len() <= u64::MAX
}

/// Code units become twice as many bytes.
proof fn raw_units_length(units: Seq<u16>)
    ensures
        raw_units(units).len() == 2 * units.len(),
    decreases units.len(),
{
    if units.len() > 0 {
        raw_units_length(units.drop_last());
        bytes::value_of_little_endian(units.last() as nat, 2);
    }
}

/// So many code units with the same bytes are the same code units.
proof fn raw_units_determine_units(a: Seq<u16>, b: Seq<u16>)
    requires
        a.len() == b.len(),
        raw_units(a) == raw_units(b),
    ensures
        a == b,
    decreases a.len(),
{
    if a.len() > 0 {
        let split = 2 * (a.len() - 1);
        raw_units_length(a.drop_last());
        raw_units_length(b.drop_last());
        raw_units_length(a);
        raw_units_length(b);
        assert(raw_units(a.drop_last()) =~= raw_units(a).take(split));
        assert(raw_units(b.drop_last()) =~= raw_units(b).take(split));
        raw_units_determine_units(a.drop_last(), b.drop_last());
        assert(bytes::little_endian(a.last() as nat, 2) =~= raw_units(a).skip(split));
        assert(bytes::little_endian(b.last() as nat, 2) =~= raw_units(b).skip(split));
        bytes::value_of_little_endian(a.last() as nat, 2);
        bytes::value_of_little_endian(b.last() as nat, 2);
        vstd::arithmetic::power::lemma_pow_adds(256, 1, 1);
        vstd::arithmetic::power::lemma_pow1(256);
        assert(a =~= a.drop_last().push(a.last()));
        assert(b =~= b.drop_last().push(b.last()));
    } else {
        assert(a =~= b);
    }
}

/// Code units with their number before them tell where they end.
proof fn unit_bytes_determine_units(a: Seq<u16>, b: Seq<u16>, x: Seq<u8>, y: Seq<u8>)
    requires
        a.len() <= u64::MAX,
        b.len() <= u64::MAX,
        unit_bytes(a) + x == unit_bytes(b) + y,
    ensures
        a == b,
        x == y,
{
    let left = unit_bytes(a) + x;
    let right = unit_bytes(b) + y;
    bytes::value_of_little_endian(a.len(), 8);
    bytes::value_of_little_endian(b.len(), 8);
    assert(vstd::arithmetic::power::pow(256, 8) == 0x1_0000_0000_0000_0000) by {
        reveal_with_fuel(vstd::arithmetic::power::pow, 9);
    }
    assert(bytes::little_endian(a.len(), 8) =~= left.take(8));
    assert(bytes::little_endian(b.len(), 8) =~= right.take(8));
    assert(a.len() == b.len());
    raw_units_length(a);
    raw_units_length(b);
    let end = 8 + 2 * a.len();
    assert(raw_units(a) =~= left.subrange(8, end as int));
    assert(raw_units(b) =~= right.subrange(8, end as int));
    raw_units_determine_units(a, b);
    assert(x =~= left.skip(end as int));
    assert(y =~= right.skip(end as int));
}

/// A record's bytes tell where they end.
proof fn bytes_determine_record(a: RecordModel, b: RecordModel, x: Seq<u8>, y: Seq<u8>)
    requires
        lengths_fit(seq![a]),
        lengths_fit(seq![b]),
        a.bytes() + x == b.bytes() + y,
    ensures
        a == b,
        x == y,
{
    let left = a.bytes() + x;
    let right = b.bytes() + y;
    assert(seq![a][0] == a && seq![b][0] == b);
    assert(left[0] == a.kind);
    assert(right[0] == b.kind);
    let left_rest = unit_bytes(a.anchor) + x;
    let right_rest = unit_bytes(b.anchor) + y;
    assert(unit_bytes(a.path) + left_rest =~= left.skip(1));
    assert(unit_bytes(b.path) + right_rest =~= right.skip(1));
    unit_bytes_determine_units(a.path, b.path, left_rest, right_rest);
    unit_bytes_determine_units(a.anchor, b.anchor, x, y);
}

/// The bytes of records start with those of the first one.
proof fn records_bytes_start(records: Seq<RecordModel>)
    requires
        records.len() > 0,
    ensures
        records_bytes(records) == records[0].bytes() + records_bytes(records.skip(1)),
    decreases records.len(),
{
    let rest = records.skip(1);
    if records.len() == 1 {
        assert(records.drop_last() =~= Seq::empty());
        assert(rest =~= Seq::empty());
        assert(records_bytes(records) =~= records[0].bytes() + records_bytes(rest));
    } else {
        let front = records.drop_last();
        records_bytes_start(front);
        assert(front.skip(1) =~= rest.drop_last());
        assert(records_bytes(records) =~= records[0].bytes() + records_bytes(rest));
    }
}

/// Records with the same bytes are the same records.
proof fn bytes_determine_records(a: Seq<RecordModel>, b: Seq<RecordModel>)
    requires
        lengths_fit(a),
        lengths_fit(b),
        records_bytes(a) == records_bytes(b),
    ensures
        a == b,
    decreases a.len(),
{
    if a.len() > 0 {
        records_bytes_start(a);
    }
    if b.len() > 0 {
        records_bytes_start(b);
    }
    if a.len() > 0 && b.len() > 0 {
        assert(lengths_fit(seq![a[0]]));
        assert(lengths_fit(seq![b[0]]));
        bytes_determine_record(
            a[0],
            b[0],
            records_bytes(a.skip(1)),
            records_bytes(b.skip(1)),
        );
        assert(lengths_fit(a.skip(1)));
        assert(lengths_fit(b.skip(1)));
        bytes_determine_records(a.skip(1), b.skip(1));
        assert(a =~= seq![a[0]] + a.skip(1));
        assert(b =~= seq![b[0]] + b.skip(1));
    } else {
        assert(a.len() > 0 ==> a[0].bytes().len() > 0);
        assert(b.len() > 0 ==> b[0].bytes().len() > 0);
        assert(a =~= b);
    }
}

/// Different facts are hashed as different bytes.
pub proof fn facts_are_hashed_apart(first: Seq<RecordModel>, second: Seq<RecordModel>)
    requires
        lengths_fit(first),
        lengths_fit(second),
        digest_input(first) == digest_input(second),
    ensures
        first == second,
{
    let front = vstd::utf8::encode_utf8("cageforge-windows-filesystem-profile-v1"@).push(0);
    assert(records_bytes(first) =~= digest_input(first).skip(front.len() as int));
    assert(records_bytes(second) =~= digest_input(second).skip(front.len() as int));
    bytes_determine_records(first, second);
}

/// A plan with one more missing target, that it did not hold before, is hashed
/// as different bytes.
pub proof fn missing_targets_change_what_is_hashed(
    first: Seq<RecordModel>,
    second: Seq<RecordModel>,
    targets: Seq<PlannedModel>,
    missing: Seq<MissingModel>,
    added: MissingModel,
)
    requires
        is_record_list(first, targets, missing),
        is_record_list(second, targets, missing.push(added)),
        lengths_fit(first),
        lengths_fit(second),
        forall|i: int|
            0 <= i < missing.len() ==> missing_record(#[trigger] missing[i]) != missing_record(
                added,
            ),
    ensures
        digest_input(first) != digest_input(second),
{
    let record = missing_record(added);
    let longer = missing.push(added);
    assert(longer[missing.len() as int] == added);
    assert(states_plan(record, targets, longer));
    assert(second.contains(record));
    assert(!states_plan(record, targets, missing));
    assert(!first.contains(record));
    if digest_input(first) == digest_input(second) {
        facts_are_hashed_apart(first, second);
    }
}

/// Words that end in a zero tell where they end.
proof fn unit_words_determine_units(a: Seq<u16>, b: Seq<u16>, x: Seq<u32>, y: Seq<u32>)
    requires
        unit_words(a) + x == unit_words(b) + y,
    ensures
        a == b,
        x == y,
    decreases a.len(),
{
    let left = unit_words(a) + x;
    let right = unit_words(b) + y;
    if a.len() < b.len() {
        assert(left[a.len() as int] == 0);
        assert(right[a.len() as int] == (b[a.len() as int] as u32 + 1) as u32);
        assert(false);
    }
    if b.len() < a.len() {
        assert(right[b.len() as int] == 0);
        assert(left[b.len() as int] == (a[b.len() as int] as u32 + 1) as u32);
        assert(false);
    }
    assert forall|i: int| 0 <= i < a.len() implies a[i] == b[i] by {
        assert(left[i] == (a[i] as u32 + 1) as u32);
        assert(right[i] == (b[i] as u32 + 1) as u32);
    }
    assert(a =~= b);
    assert(x =~= left.skip(a.len() as int + 1));
    assert(y =~= right.skip(a.len() as int + 1));
}

/// Records with the same words are the same record.
pub proof fn words_determine_record(a: RecordModel, b: RecordModel)
    requires
        a.words() == b.words(),
    ensures
        a == b,
{
    assert(a.words()[0] == a.kind as u32);
    assert(b.words()[0] == b.kind as u32);
    let left = unit_words(a.path) + unit_words(a.anchor);
    let right = unit_words(b.path) + unit_words(b.anchor);
    assert(left =~= a.words().skip(1));
    assert(right =~= b.words().skip(1));
    unit_words_determine_units(a.path, b.path, unit_words(a.anchor), unit_words(b.anchor));
    let none = Seq::<u32>::empty();
    assert(unit_words(a.anchor) + none =~= unit_words(a.anchor));
    assert(unit_words(b.anchor) + none =~= unit_words(b.anchor));
    unit_words_determine_units(a.anchor, b.anchor, none, none);
}

/// A plan has one list of records.
proof fn record_list_is_unique(
    a: Seq<RecordModel>,
    b: Seq<RecordModel>,
)
    requires
        ordering::strictly_ascending(record_words(a)),
        ordering::strictly_ascending(record_words(b)),
        forall|record: RecordModel| #[trigger] a.contains(record) <==> b.contains(record),
    ensures
        a == b,
{
    assert forall|key: Seq<u32>| #[trigger] record_words(a).contains(key) <==> record_words(
        b,
    ).contains(key) by {
        if record_words(a).contains(key) {
            let i = choose|i: int| 0 <= i < a.len() && record_words(a)[i] == key;
            assert(a.contains(a[i]));
            assert(b.contains(a[i]));
            let j = choose|j: int| 0 <= j < b.len() && b[j] == a[i];
            assert(record_words(b)[j] == key);
        }
        if record_words(b).contains(key) {
            let i = choose|i: int| 0 <= i < b.len() && record_words(b)[i] == key;
            assert(b.contains(b[i]));
            assert(a.contains(b[i]));
            let j = choose|j: int| 0 <= j < a.len() && a[j] == b[i];
            assert(record_words(a)[j] == key);
        }
    }
    ordering::ascending_list_is_unique(record_words(a), record_words(b));
    assert(a.len() == record_words(a).len());
    assert(b.len() == record_words(b).len());
    assert forall|i: int| 0 <= i < a.len() implies a[i] == b[i] by {
        assert(record_words(a)[i] == record_words(b)[i]);
        words_determine_record(a[i], b[i]);
    }
    assert(a =~= b);
}

/// Plans that state the same facts have the same digest, in whatever order,
/// and however often, the facts were declared.
pub proof fn digest_ignores_declaration_order(
    first: Seq<RecordModel>,
    second: Seq<RecordModel>,
    first_targets: Seq<PlannedModel>,
    first_missing: Seq<MissingModel>,
    second_targets: Seq<PlannedModel>,
    second_missing: Seq<MissingModel>,
)
    requires
        is_record_list(first, first_targets, first_missing),
        is_record_list(second, second_targets, second_missing),
        forall|record: RecordModel| #[trigger]
            states_plan(record, first_targets, first_missing) <==> states_plan(
                record,
                second_targets,
                second_missing,
            ),
    ensures
        records_digest(first) == records_digest(second),
{
    assert forall|record: RecordModel| #[trigger] first.contains(record) <==> second.contains(
        record,
    ) by {
        assert(states_plan(record, first_targets, first_missing) <==> states_plan(
            record,
            second_targets,
            second_missing,
        ));
    }
    record_list_is_unique(first, second);
}

/// One fact of a plan.
struct DigestRecord {
    kind: u8,
    path: Vec<u16>,
    anchor: Vec<u16>,
}

impl View for DigestRecord {
    type V = RecordModel;

    closed spec fn view(&self) -> RecordModel {
        RecordModel { kind: self.kind, path: self.path@, anchor: self.anchor@ }
    }
}

/// The records of a plan, in order and once each.
struct RecordList {
    keys: Vec<Vec<u32>>,
    records: Vec<DigestRecord>,
}

/// The records that a list holds.
spec fn record_models(records: Seq<DigestRecord>) -> Seq<RecordModel> {
    records.map_values(|record: DigestRecord| record@)
}

/// Appends the words of code units.
fn push_unit_words(words: &mut Vec<u32>, units: &Vec<u16>)
    ensures
        final(words)@ == old(words)@ + unit_words(units@),
{
    let ghost before = words@;
    for i in 0..units.len()
        invariant
            before == old(words)@,
            words@ == before + units@.take(i as int).map_values(
                |unit: u16| (unit as u32 + 1) as u32,
            ),
    {
        words.push(units[i] as u32 + 1);
        assert(words@ =~= before + units@.take(i + 1).map_values(
            |unit: u16| (unit as u32 + 1) as u32,
        ));
    }
    assert(units@.take(units@.len() as int) =~= units@);
    words.push(0);
    assert(words@ =~= before + unit_words(units@));
}

/// Appends the bytes of code units, with their number before them.
fn push_unit_bytes(out: &mut Vec<u8>, units: &Vec<u16>)
    ensures
        final(out)@ == old(out)@ + unit_bytes(units@),
{
    let ghost before = out@;
    bytes::push_little_endian(out, units.len() as u64, 8);
    let ghost front = out@;
    for i in 0..units.len()
        invariant
            out@ == front + raw_units(units@.take(i as int)),
    {
        let ghost taken = units@.take(i + 1);
        assert(taken.drop_last() =~= units@.take(i as int));
        bytes::push_little_endian(out, units[i] as u64, 2);
        assert(out@ =~= front + raw_units(taken));
    }
    assert(units@.take(units@.len() as int) =~= units@);
    assert(out@ =~= before + unit_bytes(units@));
}

impl DigestRecord {
    /// The words by which records are ordered.
    fn words(&self) -> (words: Vec<u32>)
        ensures
            words@ == self@.words(),
    {
        let mut words: Vec<u32> = Vec::new();
        words.push(self.kind as u32);
        push_unit_words(&mut words, &self.path);
        push_unit_words(&mut words, &self.anchor);
        assert(words@ =~= self@.words());
        words
    }
}

impl RecordList {
    /// Whether the keys are those of the records, in order.
    spec fn wf(self) -> bool {
        &&& ordering::key_list(self.keys@) == record_words(record_models(self.records@))
        &&& ordering::strictly_ascending(record_words(record_models(self.records@)))
    }

    /// Adds a record, unless it is there already.
    fn insert(&mut self, record: DigestRecord)
        requires
            old(self).wf(),
        ensures
            final(self).wf(),
            forall|other: RecordModel| #[trigger]
                record_models(final(self).records@).contains(other) <==> record_models(
                    old(self).records@,
                ).contains(other) || other == record@,
    {
        let ghost before = record_models(self.records@);
        let ghost words = record_words(before);
        let key = record.words();
        let i = ordering::find_slot(&self.keys, &key);
        proof {
            ordering::slot_divides(words, key@);
        }
        assert(self.keys@.len() == words.len());
        assert(self.records@.len() == words.len());
        if i < self.records.len() && ordering::same_words(&self.keys[i], &key) {
            proof {
                assert(words[i as int] == key@);
                words_determine_record(before[i as int], record@);
                assert(before.contains(record@));
            }
        } else {
            assert(!ordering::is_present(words, key@));
            proof {
                ordering::insert_keeps_order(words, key@);
            }
            self.keys.insert(i, key);
            self.records.insert(i, record);
            proof {
                let now = record_models(self.records@);
                assert(now =~= before.insert(i as int, record@));
                assert(record_words(now) =~= words.insert(i as int, key@));
                assert(ordering::key_list(self.keys@) =~= words.insert(i as int, key@));
                assert forall|other: RecordModel| #[trigger] now.contains(other) <==> before.contains(
                    other,
                ) || other == record@ by {
                    if now.contains(other) {
                        let k = choose|k: int| 0 <= k < now.len() && now[k] == other;
                        if k < i {
                            assert(before[k] == other);
                        } else if k > i {
                            assert(before[k - 1] == other);
                        }
                    }
                    if before.contains(other) {
                        let k = choose|k: int| 0 <= k < before.len() && before[k] == other;
                        if k < i {
                            assert(now[k] == other);
                        } else {
                            assert(now[k + 1] == other);
                        }
                    }
                    if other == record@ {
                        assert(now[i as int] == other);
                    }
                }
            }
        }
    }
}

/// Whether a record states something of the first targets.
spec fn states_first(
    record: RecordModel,
    targets: Seq<PlannedModel>,
    count: int,
    missing: Seq<MissingModel>,
    missing_count: int,
) -> bool {
    states_plan(record, targets.take(count), missing.take(missing_count))
}

/// What is stated once one more target counts.
proof fn one_more_target(
    record: RecordModel,
    targets: Seq<PlannedModel>,
    count: int,
    missing: Seq<MissingModel>,
)
    requires
        0 <= count < targets.len(),
    ensures
        states_first(record, targets, count + 1, missing, 0) <==> states_first(
            record,
            targets,
            count,
            missing,
            0,
        ) || states_target(record, targets[count]),
{
    let longer = targets.take(count + 1);
    let shorter = targets.take(count);
    if states_first(record, targets, count + 1, missing, 0) {
        let i = choose|i: int| 0 <= i < longer.len() && states_target(record, #[trigger] longer[i]);
        if i < count {
            assert(shorter[i] == longer[i]);
        }
    }
    if states_first(record, targets, count, missing, 0) {
        let i = choose|i: int|
            0 <= i < shorter.len() && states_target(record, #[trigger] shorter[i]);
        assert(longer[i] == shorter[i]);
    }
    if states_target(record, targets[count]) {
        assert(longer[count] == targets[count]);
    }
}

/// What is stated once one more missing target counts.
proof fn one_more_missing(
    record: RecordModel,
    targets: Seq<PlannedModel>,
    missing: Seq<MissingModel>,
    count: int,
)
    requires
        0 <= count < missing.len(),
    ensures
        states_first(record, targets, targets.len() as int, missing, count + 1) <==> states_first(
            record,
            targets,
            targets.len() as int,
            missing,
            count,
        ) || record == missing_record(missing[count]),
{
    let longer = missing.take(count + 1);
    let shorter = missing.take(count);
    if exists|i: int| 0 <= i < longer.len() && record == missing_record(#[trigger] longer[i]) {
        let i = choose|i: int|
            0 <= i < longer.len() && record == missing_record(#[trigger] longer[i]);
        if i < count {
            assert(shorter[i] == longer[i]);
        }
    }
    if exists|i: int| 0 <= i < shorter.len() && record == missing_record(#[trigger] shorter[i]) {
        let i = choose|i: int|
            0 <= i < shorter.len() && record == missing_record(#[trigger] shorter[i]);
        assert(longer[i] == shorter[i]);
    }
    if record == missing_record(missing[count]) {
        assert(longer[count] == missing[count]);
    }
}

/// The text that stands for a plan: the SHA-256 digest of its facts, in
/// order and once each.
pub fn profile_digest(
    targets: &Vec<FilesystemPlanTarget>,
    missing: &Vec<MissingFilesystemTarget>,
) -> (digest: String)
    ensures
        exists|records: Seq<RecordModel>|
            {
                &&& #[trigger] is_record_list(
                    records,
                    filesystem_plan::planned_models(targets@),
                    filesystem_plan::missing_models(missing@),
                )
                &&& digest@ == records_digest(records)
            },
        is_digest_text(digest@),
{
    let ghost planned = filesystem_plan::planned_models(targets@);
    let ghost absent = filesystem_plan::missing_models(missing@);
    let mut list = RecordList { keys: Vec::new(), records: Vec::new() };
    proof {
        assert(ordering::key_list(list.keys@) =~= record_words(record_models(list.records@)));
        assert(record_models(list.records@) =~= Seq::empty());
    }
    for i in 0..targets.len()
        invariant
            planned == filesystem_plan::planned_models(targets@),
            list.wf(),
            forall|record: RecordModel| #[trigger]
                record_models(list.records@).contains(record) <==> states_first(
                    record,
                    planned,
                    i as int,
                    absent,
                    0,
                ),
    {
        let target = &targets[i];
        let origins = target.origins();
        assert(planned[i as int] == targets@[i as int]@);
        let ghost before = record_models(list.records@);
        let tag: u8 = match target.access() {
            FilesystemPlanAccess::ReadRoot => 0,
            FilesystemPlanAccess::WriteRoot => 1,
            FilesystemPlanAccess::ReadOnly => 2,
            FilesystemPlanAccess::Deny => 3,
        };
        let ghost units = planned[i as int].path.canonical_units();
        let ghost none = Seq::<u16>::empty();
        list.insert(
            DigestRecord {
                kind: tag,
                path: target.path().canonical_path_units(),
                anchor: Vec::new(),
            },
        );
        if origins.read_only {
            list.insert(
                DigestRecord {
                    kind: 4,
                    path: target.path().canonical_path_units(),
                    anchor: Vec::new(),
                },
            );
        }
        if origins.glob {
            list.insert(
                DigestRecord {
                    kind: 5,
                    path: target.path().canonical_path_units(),
                    anchor: Vec::new(),
                },
            );
        }
        if origins.protected {
            list.insert(
                DigestRecord {
                    kind: 6,
                    path: target.path().canonical_path_units(),
                    anchor: Vec::new(),
                },
            );
        }
        assert forall|record: RecordModel| #[trigger]
            record_models(list.records@).contains(record) <==> states_first(
            record,
            planned,
            i + 1,
            absent,
            0,
        ) by {
            one_more_target(record, planned, i as int, absent);
            assert(before.contains(record) <==> states_first(
                record,
                planned,
                i as int,
                absent,
                0,
            ));
        }
    }
    for i in 0..missing.len()
        invariant
            planned == filesystem_plan::planned_models(targets@),
            absent == filesystem_plan::missing_models(missing@),
            list.wf(),
            forall|record: RecordModel| #[trigger]
                record_models(list.records@).contains(record) <==> states_first(
                    record,
                    planned,
                    planned.len() as int,
                    absent,
                    i as int,
                ),
    {
        let target = &missing[i];
        assert(absent[i as int] == missing@[i as int]@);
        let ghost before = record_models(list.records@);
        let tag: u8 = match target.kind() {
            MissingFilesystemTargetKind::SkippedScope => 7,
            MissingFilesystemTargetKind::ReadOnly => 8,
            MissingFilesystemTargetKind::Protected => 9,
        };
        let anchor: Vec<u16> = match target.anchor() {
            Some(anchor) => anchor.canonical_path_units(),
            None => Vec::new(),
        };
        assert(anchor@ == missing_record(absent[i as int]).anchor);
        list.insert(
            DigestRecord { kind: tag, path: target.path().canonical_path_units(), anchor },
        );
        assert forall|record: RecordModel| #[trigger]
            record_models(list.records@).contains(record) <==> states_first(
            record,
            planned,
            planned.len() as int,
            absent,
            i + 1,
        ) by {
            one_more_missing(record, planned, absent, i as int);
            assert(before.contains(record) <==> states_first(
                record,
                planned,
                planned.len() as int,
                absent,
                i as int,
            ));
        }
    }
    let ghost records = record_models(list.records@);
    proof {
        assert(planned.take(planned.len() as int) =~= planned);
        assert(absent.take(absent.len() as int) =~= absent);
        assert forall|record: RecordModel| #[trigger] records.contains(record) <==> states_plan(
            record,
            planned,
            absent,
        ) by {
            assert(states_first(
                record,
                planned,
                planned.len() as int,
                absent,
                absent.len() as int,
            ) == states_plan(record, planned, absent));
        }
        assert(is_record_list(records, planned, absent));
    }
    let mut input: Vec<u8> = Vec::new();
    bytes::append(&mut input, "cageforge-windows-filesystem-profile-v1".as_bytes());
    input.push(0);
    let ghost front = input@;
    assert(front =~= vstd::utf8::encode_utf8("cageforge-windows-filesystem-profile-v1"@).push(0));
    for i in 0..list.records.len()
        invariant
            records == record_models(list.records@),
            input@ == front + records_bytes(records.take(i as int)),
    {
        let record = &list.records[i];
        let ghost taken = records.take(i + 1);
        assert(taken.drop_last() =~= records.take(i as int));
        assert(taken.last() == list.records@[i as int]@);
        input.push(record.kind);
        push_unit_bytes(&mut input, &record.path);
        push_unit_bytes(&mut input, &record.anchor);
        assert(input@ =~= front + records_bytes(taken));
    }
    assert(records.take(list.records@.len() as int) =~= records);
    assert(input@ =~= digest_input(records));
    let hashed = outside::sha256(&input);
    proof {
        hex_of_digest(hashed@);
    }
    text::hex_text(&hashed)
}

/// Different facts about a path are recorded apart: what may be done with it, why it
/// is guarded, and what is missing.
pub proof fn kinds_of_facts_are_apart(
    a: FilesystemPlanAccess,
    b: FilesystemPlanAccess,
    k: MissingFilesystemTargetKind,
    l: MissingFilesystemTargetKind,
)
    ensures
        access_tag(a) == access_tag(b) <==> a == b,
        missing_tag(k) == missing_tag(l) <==> k == l,
        access_tag(a) < 4,
        6 < missing_tag(k) < 10,
{
}

} // verus!
