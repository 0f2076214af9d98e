//! The packet filters of a setup: which there have to be, and whether those
//! that are there are they.

use vstd::prelude::*;

use crate::descriptors;
use crate::descriptors::UserConditionFacts;
use crate::outside;
use crate::owner_identity;
use crate::setup_error::WindowsSetupVerificationError;
use crate::text;

verus! {

/// A filter that blocks.
pub const FWP_ACTION_BLOCK: u32 = 4097;

/// A filter that permits.
pub const FWP_ACTION_PERMIT: u32 = 4098;

/// The flag of what outlasts a restart.
pub const PERSISTENT_FLAG: u32 = 1;

/// The protocol number of TCP.
pub const IPPROTO_TCP: u8 = 6;

/// The address of this machine for itself.
pub const IPV4_LOOPBACK_HOST_ORDER: u32 = 0x7f00_0001;

/// A key: four words, the first digits in the first one, most significant
/// first.
#[derive(Clone, Copy, Debug, PartialEq, Eq, Structural)]
pub struct Guid {
    /// The first eight digits.
    pub first: u32,
    /// The second eight digits.
    pub second: u32,
    /// The third eight digits.
    pub third: u32,
    /// The fourth eight digits.
    pub fourth: u32,
}

/// A key as text: in braces, and with dashes behind 8, 12, 16 and 20 digits.
pub open spec fn guid_text(value: Guid) -> Seq<char> {
    "{"@ + text::hex_word(value.first) + "-"@ + text::hex_word(value.second).take(4) + "-"@
        + text::hex_word(value.second).skip(4) + "-"@ + text::hex_word(value.third).take(4) + "-"@
        + text::hex_word(value.third).skip(4) + text::hex_word(value.fourth) + "}"@
}

/// The first four or the last four digits of a word.
fn half_text(word: u32, first: bool) -> (half: String)
    ensures
        half@ == (if first {
            text::hex_word(word).take(4)
        } else {
            text::hex_word(word).skip(4)
        }),
{
    let digits = text::chars_of(text::hex_word_text(word).as_str());
    if first {
        let half = text::text_of(text::part(digits.as_slice(), 0, 4).as_slice());
        assert(half@ =~= text::hex_word(word).take(4));
        half
    } else {
        let half = text::text_of(text::part(digits.as_slice(), 4, 8).as_slice());
        assert(half@ =~= text::hex_word(word).skip(4));
        half
    }
}

/// A key as text.
pub fn guid_string(value: Guid) -> (written: String)
    ensures
        written@ == guid_text(value),
{
    let mut written = "{".to_owned();
    written.append(text::hex_word_text(value.first).as_str());
    written.append("-");
    written.append(half_text(value.second, true).as_str());
    written.append("-");
    written.append(half_text(value.second, false).as_str());
    written.append("-");
    written.append(half_text(value.third, true).as_str());
    written.append("-");
    written.append(half_text(value.third, false).as_str());
    written.append(text::hex_word_text(value.fourth).as_str());
    written.append("}");
    written
}

/// The bytes of a digest that make up a key, marked as one that comes from a
/// name.
pub open spec fn stamped(digest: Seq<u8>) -> Seq<u8> {
    digest.take(16).update(6, (digest[6] & 0x0f) | 0x50).update(8, (digest[8] & 0x3f) | 0x80)
}

/// The word that four bytes make up, the first most significant.
pub open spec fn big_word(bytes: Seq<u8>, at: int) -> u32 {
    (bytes[at] * 0x100_0000 + bytes[at + 1] * 0x1_0000 + bytes[at + 2] * 0x100 + bytes[at
        + 3]) as u32
}

/// The key that a digest makes up.
pub open spec fn guid_of(digest: Seq<u8>) -> Guid {
    let bytes = stamped(digest);
    Guid {
        first: big_word(bytes, 0),
        second: big_word(bytes, 4),
        third: big_word(bytes, 8),
        fourth: big_word(bytes, 12),
    }
}

/// What the key of a filter is derived from.
pub open spec fn guid_name(owner_sid: Seq<char>, label: Seq<char>) -> Seq<char> {
    "cageforge/windows/wfp/"@ + owner_sid + "/"@ + label
}

/// The key of a filter.
pub open spec fn filter_key(owner_sid: Seq<char>, label: Seq<char>) -> Guid {
    guid_of(outside::sha256_digest(vstd::utf8::encode_utf8(guid_name(owner_sid, label))))
}

/// The word that four bytes make up, the first most significant.
fn word_of(a: u8, b: u8, c: u8, d: u8) -> (word: u32)
    ensures
        word == a * 0x100_0000 + b * 0x1_0000 + c * 0x100 + d,
{
    a as u32 * 0x100_0000 + b as u32 * 0x1_0000 + c as u32 * 0x100 + d as u32
}

/// The key that a digest makes up.
pub fn guid_from_digest(digest: &[u8]) -> (key: Guid)
    requires
        digest@.len() >= 16,
    ensures
        key == guid_of(digest@),
{
    Guid {
        first: word_of(digest[0], digest[1], digest[2], digest[3]),
        second: word_of(digest[4], digest[5], (digest[6] & 0x0f) | 0x50, digest[7]),
        third: word_of((digest[8] & 0x3f) | 0x80, digest[9], digest[10], digest[11]),
        fourth: word_of(digest[12], digest[13], digest[14], digest[15]),
    }
}

/// The key of a filter.
pub fn derived_guid(owner_sid: &str, label: &str) -> (key: Guid)
    ensures
        key == filter_key(owner_sid@, label@),
{
    let mut name = "cageforge/windows/wfp/".to_owned();
    name.append(owner_sid);
    name.append("/");
    name.append(label);
    let digest = outside::sha256(name.as_str().as_bytes());
    guid_from_digest(digest.as_slice())
}

/// A derived key is marked as one of version 5 in the usual variant.
pub proof fn derived_keys_are_marked(digest: Seq<u8>)
    requires
        digest.len() >= 16,
    ensures
        guid_of(digest).second / 0x1000 % 0x10 == 5,
        guid_of(digest).third / 0x4000_0000 == 2,
{
    let six = digest[6];
    let eight = digest[8];
    assert(0x50 <= (six & 0x0f) | 0x50 <= 0x5f) by (bit_vector);
    assert(0x80 <= (eight & 0x3f) | 0x80 <= 0xbf) by (bit_vector);
}

/// Where a filter looks.
#[derive(Clone, Copy, Debug, PartialEq, Eq, Structural)]
pub enum WfpLayer {
    /// At new IPv4 connections.
    ConnectV4,
    /// At new IPv6 connections.
    ConnectV6,
}

/// The key of a layer.
pub open spec fn layer_key(layer: WfpLayer) -> Guid {
    match layer {
        WfpLayer::ConnectV4 => Guid {
            first: 0xc38d_57d1,
            second: 0x05a7_4c33,
            third: 0x904f_7fbc,
            fourth: 0xeee6_0e82,
        },
        WfpLayer::ConnectV6 => Guid {
            first: 0x4a72_393b,
            second: 0x319f_44bc,
            third: 0x84c3_ba54,
            fourth: 0xdcb3_b6b4,
        },
    }
}

impl WfpLayer {
    /// The key.
    pub fn key(self) -> (key: Guid)
        ensures
            key == layer_key(self),
    {
        match self {
            WfpLayer::ConnectV4 => Guid {
                first: 0xc38d_57d1,
                second: 0x05a7_4c33,
                third: 0x904f_7fbc,
                fourth: 0xeee6_0e82,
            },
            WfpLayer::ConnectV6 => Guid {
                first: 0x4a72_393b,
                second: 0x319f_44bc,
                third: 0x84c3_ba54,
                fourth: 0xdcb3_b6b4,
            },
        }
    }
}

/// What a filter asks of a connection.
#[derive(Clone, Copy, Debug, PartialEq, Eq, Structural)]
pub enum ConditionExpectation {
    /// That the account without direct networking makes it.
    User,
    /// Its protocol.
    Protocol(u8),
    /// Its other end's IPv4 address.
    RemoteAddressV4(u32),
    /// Its other end's port.
    RemotePort(u16),
}

/// The key of what a condition is about.
pub open spec fn field_key(condition: ConditionExpectation) -> Guid {
    match condition {
        ConditionExpectation::User => Guid {
            first: 0xaf04_3a0a,
            second: 0xb34d_4f86,
            third: 0x979c_c903,
            fourth: 0x71af_6e66,
        },
        ConditionExpectation::Protocol(_) => Guid {
            first: 0x3971_ef2b,
            second: 0x623e_4f9a,
            third: 0x8cb1_6e79,
            fourth: 0xb806_b9a7,
        },
        ConditionExpectation::RemoteAddressV4(_) => Guid {
            first: 0xb235_ae9a,
            second: 0x1d64_49b8,
            third: 0xa44c_5ff3,
            fourth: 0xd909_5045,
        },
        ConditionExpectation::RemotePort(_) => Guid {
            first: 0xc35a_604d,
            second: 0xd22b_4e1a,
            third: 0x91b4_68f6,
            fourth: 0x74ee_674b,
        },
    }
}

impl ConditionExpectation {
    /// The key of what the condition is about.
    pub fn field(self) -> (key: Guid)
        ensures
            key == field_key(self),
    {
        match self {
            ConditionExpectation::User => Guid {
                first: 0xaf04_3a0a,
                second: 0xb34d_4f86,
                third: 0x979c_c903,
                fourth: 0x71af_6e66,
            },
            ConditionExpectation::Protocol(_) => Guid {
                first: 0x3971_ef2b,
                second: 0x623e_4f9a,
                third: 0x8cb1_6e79,
                fourth: 0xb806_b9a7,
            },
            ConditionExpectation::RemoteAddressV4(_) => Guid {
                first: 0xb235_ae9a,
                second: 0x1d64_49b8,
                third: 0xa44c_5ff3,
                fourth: 0xd909_5045,
            },
            ConditionExpectation::RemotePort(_) => Guid {
                first: 0xc35a_604d,
                second: 0xd22b_4e1a,
                third: 0x91b4_68f6,
                fourth: 0x74ee_674b,
            },
        }
    }
}

/// A filter that there has to be.
#[derive(Debug)]
pub struct FilterExpectation {
    /// Its key.
    pub key: Guid,
    /// Its name.
    pub name: String,
    /// Where it looks.
    pub layer_key: Guid,
    /// What it does.
    pub action: u32,
    /// Its weight against others.
    pub weight: u8,
    /// What it asks of a connection.
    pub conditions: Vec<ConditionExpectation>,
}

/// A filter that there has to be.
#[verifier::ext_equal]
pub struct FilterModel {
    /// Its key.
    pub key: Guid,
    /// Its name.
    pub name: Seq<char>,
    /// Where it looks.
    pub layer_key: Guid,
    /// What it does.
    pub action: u32,
    /// Its weight against others.
    pub weight: u8,
    /// What it asks of a connection.
    pub conditions: Seq<ConditionExpectation>,
}

impl View for FilterExpectation {
    type V = FilterModel;

    open spec fn view(&self) -> FilterModel {
        FilterModel {
            key: self.key,
            name: self.name@,
            layer_key: self.layer_key,
            action: self.action,
            weight: self.weight,
            conditions: self.conditions@,
        }
    }
}

/// A filter that blocks something for every setup.
#[derive(Debug)]
pub struct WfpBaseFilter {
    /// Its label.
    pub label: String,
    /// Where it looks.
    pub layer: WfpLayer,
    /// What it blocks.
    pub condition: WfpBaseCondition,
}

/// What a filter blocks for every setup.
#[derive(Clone, Copy, Debug, PartialEq, Eq, Structural)]
pub enum WfpBaseCondition {
    /// A protocol.
    Protocol(u8),
    /// A port.
    RemotePort(u16),
}

/// The filters that a list says there have to be.
pub open spec fn filter_models(filters: Seq<FilterExpectation>) -> Seq<FilterModel> {
    Seq::new(filters.len(), |i: int| filters[i]@)
}

/// The name of a filter.
pub open spec fn filter_name(owner_sid: Seq<char>, label: Seq<char>) -> Seq<char> {
    "cageforge_"@ + label + "_"@ + owner_identity::key_of(owner_sid).take(12)
}

/// A filter with a label.
pub open spec fn labelled(
    owner_sid: Seq<char>,
    label: Seq<char>,
    layer: WfpLayer,
    action: u32,
    weight: u8,
    conditions: Seq<ConditionExpectation>,
) -> FilterModel {
    FilterModel {
        key: filter_key(owner_sid, label),
        name: filter_name(owner_sid, label),
        layer_key: layer_key(layer),
        action,
        weight,
        conditions,
    }
}

/// The filter that blocks something for every setup.
pub open spec fn base_model(owner_sid: Seq<char>, base: WfpBaseFilter) -> FilterModel {
    labelled(
        owner_sid,
        base.label@,
        base.layer,
        FWP_ACTION_BLOCK,
        1,
        seq![
            ConditionExpectation::User,
            match base.condition {
                WfpBaseCondition::Protocol(protocol) => ConditionExpectation::Protocol(protocol),
                WfpBaseCondition::RemotePort(port) => ConditionExpectation::RemotePort(port),
            },
        ],
    )
}

/// The filter that lets a listener be reached.
pub open spec fn proxy_model(owner_sid: Seq<char>, port: u16) -> FilterModel {
    labelled(
        owner_sid,
        "proxy-v4-"@ + text::decimal(port as nat),
        WfpLayer::ConnectV4,
        FWP_ACTION_PERMIT,
        2,
        seq![
            ConditionExpectation::User,
            ConditionExpectation::Protocol(IPPROTO_TCP),
            ConditionExpectation::RemoteAddressV4(IPV4_LOOPBACK_HOST_ORDER),
            ConditionExpectation::RemotePort(port),
        ],
    )
}

/// The filter that blocks everything else.
pub open spec fn deny_model(owner_sid: Seq<char>, layer: WfpLayer) -> FilterModel {
    labelled(
        owner_sid,
        if layer is ConnectV4 {
            "default-deny-v4"@
        } else {
            "default-deny-v6"@
        },
        layer,
        FWP_ACTION_BLOCK,
        1,
        seq![ConditionExpectation::User],
    )
}

/// The filters that there have to be.
pub open spec fn expected_filters(
    owner_sid: Seq<char>,
    proxy_ports: Seq<u16>,
    base: Seq<WfpBaseFilter>,
) -> Seq<FilterModel> {
    Seq::new(base.len(), |i: int| base_model(owner_sid, base[i])) + Seq::new(
        proxy_ports.len(),
        |i: int| proxy_model(owner_sid, proxy_ports[i]),
    ) + seq![
        deny_model(owner_sid, WfpLayer::ConnectV4),
        deny_model(owner_sid, WfpLayer::ConnectV6),
    ]
}

/// A filter with a label.
fn make_filter(
    owner_sid: &str,
    label: &str,
    layer: WfpLayer,
    action: u32,
    weight: u8,
    conditions: Vec<ConditionExpectation>,
) -> (filter: FilterExpectation)
    ensures
        filter@ == labelled(owner_sid@, label@, layer, action, weight, conditions@),
{
    let mut name = "cageforge_".to_owned();
    name.append(label);
    name.append("_");
    let key = text::chars_of(owner_identity::owner_key(owner_sid).as_str());
    let short = text::text_of(text::part(key.as_slice(), 0, 12).as_slice());
    assert(short@ =~= owner_identity::key_of(owner_sid@).take(12));
    name.append(short.as_str());
    FilterExpectation {
        key: derived_guid(owner_sid, label),
        name,
        layer_key: layer.key(),
        action,
        weight,
        conditions,
    }
}

/// The filters that there have to be, given those that block something for
/// every setup.
pub fn filter_expectations(owner_sid: &str, proxy_ports: &[u16], base: &Vec<WfpBaseFilter>) -> (
    filters: Vec<FilterExpectation>)
    ensures
        filter_models(filters@) == expected_filters(owner_sid@, proxy_ports@, base@),
{
    let mut filters: Vec<FilterExpectation> = Vec::new();
    let ghost blocked = Seq::new(base@.len(), |i: int| base_model(owner_sid@, base@[i]));
    let ghost permitted = Seq::new(
        proxy_ports@.len(),
        |i: int| proxy_model(owner_sid@, proxy_ports@[i]),
    );
    for i in 0..base.len()
        invariant
            blocked == Seq::new(base@.len(), |k: int| base_model(owner_sid@, base@[k])),
            filter_models(filters@) == blocked.take(i as int),
    {
        let mut conditions: Vec<ConditionExpectation> = Vec::new();
        conditions.push(ConditionExpectation::User);
        match base[i].condition {
            WfpBaseCondition::Protocol(protocol) => {
                conditions.push(ConditionExpectation::Protocol(protocol));
            },
            WfpBaseCondition::RemotePort(port) => {
                conditions.push(ConditionExpectation::RemotePort(port));
            },
        }
        let ghost expected = base_model(owner_sid@, base@[i as int]);
        assert(conditions@ =~= expected.conditions);
        let ghost before = filters@;
        filters.push(
            make_filter(
                owner_sid,
                base[i].label.as_str(),
                base[i].layer,
                FWP_ACTION_BLOCK,
                1,
                conditions,
            ),
        );
        assert(filter_models(filters@) =~= filter_models(before).push(expected));
        assert(filter_models(filters@) =~= blocked.take(i + 1));
    }
    assert(blocked.take(base@.len() as int) =~= blocked);
    for i in 0..proxy_ports.len()
        invariant
            permitted == Seq::new(
                proxy_ports@.len(),
                |k: int| proxy_model(owner_sid@, proxy_ports@[k]),
            ),
            filter_models(filters@) == blocked + permitted.take(i as int),
    {
        let mut label = "proxy-v4-".to_owned();
        label.append(text::decimal_text(proxy_ports[i] as u64).as_str());
        let mut conditions: Vec<ConditionExpectation> = Vec::new();
        conditions.push(ConditionExpectation::User);
        conditions.push(ConditionExpectation::Protocol(IPPROTO_TCP));
        conditions.push(ConditionExpectation::RemoteAddressV4(IPV4_LOOPBACK_HOST_ORDER));
        conditions.push(ConditionExpectation::RemotePort(proxy_ports[i]));
        let ghost expected = proxy_model(owner_sid@, proxy_ports@[i as int]);
        assert(conditions@ =~= expected.conditions);
        let ghost before = filters@;
        filters.push(
            make_filter(
                owner_sid,
                label.as_str(),
                WfpLayer::ConnectV4,
                FWP_ACTION_PERMIT,
                2,
                conditions,
            ),
        );
        assert(filter_models(filters@) =~= filter_models(before).push(expected));
        assert(filter_models(filters@) =~= blocked + permitted.take(i + 1));
    }
    assert(permitted.take(proxy_ports@.len() as int) =~= permitted);
    let ghost before = filters@;
    let mut user: Vec<ConditionExpectation> = Vec::new();
    user.push(ConditionExpectation::User);
    assert(user@ =~= seq![ConditionExpectation::User]);
    filters.push(
        make_filter(
            owner_sid,
            "default-deny-v4",
            WfpLayer::ConnectV4,
            FWP_ACTION_BLOCK,
            1,
            user,
        ),
    );
    let mut user: Vec<ConditionExpectation> = Vec::new();
    user.push(ConditionExpectation::User);
    assert(user@ =~= seq![ConditionExpectation::User]);
    filters.push(
        make_filter(
            owner_sid,
            "default-deny-v6",
            WfpLayer::ConnectV6,
            FWP_ACTION_BLOCK,
            1,
            user,
        ),
    );
    assert(filter_models(filters@) =~= filter_models(before) + seq![
        deny_model(owner_sid@, WfpLayer::ConnectV4),
        deny_model(owner_sid@, WfpLayer::ConnectV6),
    ]);
    filters
}

/// Every filter is about the account without direct networking alone; what is
/// permitted outweighs what is blocked, and is a listener's port on loopback.
pub proof fn filters_bind_the_offline_account(
    owner_sid: Seq<char>,
    proxy_ports: Seq<u16>,
    base: Seq<WfpBaseFilter>,
    i: int,
)
    requires
        0 <= i < expected_filters(owner_sid, proxy_ports, base).len(),
    ensures
        ({
            let filter = expected_filters(owner_sid, proxy_ports, base)[i];
            &&& filter.conditions.len() > 0 && filter.conditions[0] == ConditionExpectation::User
            &&& filter.action == FWP_ACTION_BLOCK && filter.weight == 1 || filter.action
                == FWP_ACTION_PERMIT && filter.weight == 2
            &&& filter.action == FWP_ACTION_PERMIT ==> exists|k: int|
                0 <= k < proxy_ports.len() && filter.conditions == seq![
                    ConditionExpectation::User,
                    ConditionExpectation::Protocol(IPPROTO_TCP),
                    ConditionExpectation::RemoteAddressV4(IPV4_LOOPBACK_HOST_ORDER),
                    ConditionExpectation::RemotePort(#[trigger] proxy_ports[k]),
                ]
        }),
{
    let filter = expected_filters(owner_sid, proxy_ports, base)[i];
    if base.len() <= i < base.len() + proxy_ports.len() {
        let k = i - base.len();
        assert(filter == proxy_model(owner_sid, proxy_ports[k]));
        assert(filter.conditions == seq![
            ConditionExpectation::User,
            ConditionExpectation::Protocol(IPPROTO_TCP),
            ConditionExpectation::RemoteAddressV4(IPV4_LOOPBACK_HOST_ORDER),
            ConditionExpectation::RemotePort(proxy_ports[k]),
        ]);
    }
}

/// What was seen of the value of a condition.
#[derive(Debug)]
pub enum ObservedValue {
    /// A byte.
    Uint8(u8),
    /// A half word.
    Uint16(u16),
    /// A word.
    Uint32(u32),
    /// A security descriptor.
    SecurityDescriptor(UserConditionFacts),
    /// Something else.
    Other,
}

/// What was seen of a condition.
#[derive(Debug)]
pub struct ObservedCondition {
    /// What it is about.
    pub field: Guid,
    /// Whether it asks for equality.
    pub equal: bool,
    /// The value.
    pub value: ObservedValue,
}

/// Whether a condition is as it has to be.
pub open spec fn is_condition(actual: ObservedCondition, expected: ConditionExpectation) -> bool {
    actual.equal && actual.field == field_key(expected) && match expected {
        ConditionExpectation::User => actual.value matches ObservedValue::SecurityDescriptor(facts)
            && descriptors::matches_user(facts),
        ConditionExpectation::Protocol(protocol) => actual.value == ObservedValue::Uint8(protocol),
        ConditionExpectation::RemoteAddressV4(address) => actual.value == ObservedValue::Uint32(
            address,
        ),
        ConditionExpectation::RemotePort(port) => actual.value == ObservedValue::Uint16(port),
    }
}

/// Whether a condition is as it has to be.
pub fn condition_matches(actual: &ObservedCondition, expected: ConditionExpectation) -> (yes: bool)
    ensures
        yes == is_condition(*actual, expected),
{
    if !actual.equal || actual.field != expected.field() {
        return false;
    }
    match (expected, &actual.value) {
        (ConditionExpectation::User, ObservedValue::SecurityDescriptor(facts)) =>
            descriptors::user_condition_matches(facts),
        (ConditionExpectation::Protocol(protocol), ObservedValue::Uint8(value)) => *value
            == protocol,
        (ConditionExpectation::RemoteAddressV4(address), ObservedValue::Uint32(value)) => *value
            == address,
        (ConditionExpectation::RemotePort(port), ObservedValue::Uint16(value)) => *value == port,
        _ => false,
    }
}

/// A condition asks for one thing: it is accepted for one expectation at most,
/// so for another port, protocol or address it is refused, and what it is about and
/// the value that it holds are those of the expectation, compared for equality.
pub proof fn a_condition_asks_for_one_thing(
    actual: ObservedCondition,
    expected: ConditionExpectation,
    other: ConditionExpectation,
)
    requires
        is_condition(actual, expected),
    ensures
        is_condition(actual, other) <==> other == expected,
        actual.equal,
        match expected {
            ConditionExpectation::User => actual.value is SecurityDescriptor,
            ConditionExpectation::Protocol(protocol) => actual.value matches ObservedValue::Uint8(
                value,
            ) && value == protocol,
            ConditionExpectation::RemoteAddressV4(address) => actual.value matches ObservedValue::Uint32(
                value,
            ) && value == address,
            ConditionExpectation::RemotePort(port) => actual.value matches ObservedValue::Uint16(
                value,
            ) && value == port,
        },
{
}

/// A condition that asks for equality with just the value expected, of the field
/// that the expectation is about, is accepted.
pub proof fn what_was_asked_for_is_accepted(expected: ConditionExpectation, facts: UserConditionFacts)
    requires
        expected is User ==> descriptors::matches_user(facts),
    ensures
        is_condition(
            ObservedCondition {
                field: field_key(expected),
                equal: true,
                value: match expected {
                    ConditionExpectation::User => ObservedValue::SecurityDescriptor(facts),
                    ConditionExpectation::Protocol(protocol) => ObservedValue::Uint8(protocol),
                    ConditionExpectation::RemoteAddressV4(address) => ObservedValue::Uint32(address),
                    ConditionExpectation::RemotePort(port) => ObservedValue::Uint16(port),
                },
            },
            expected,
        ),
{
}

/// What was seen of a filter.
#[derive(Debug)]
pub struct ObservedFilter {
    /// Its key.
    pub key: Guid,
    /// Its flags.
    pub flags: u32,
    /// Where it looks.
    pub layer_key: Guid,
    /// Its sublayer.
    pub sublayer_key: Guid,
    /// Its provider, where it has one.
    pub provider_key: Option<Guid>,
    /// What it does.
    pub action: u32,
    /// Its weight, where it is a byte.
    pub weight: Option<u8>,
    /// Its conditions, where there is a list of them.
    pub conditions: Option<Vec<ObservedCondition>>,
}

/// Whether a filter is as it has to be.
pub open spec fn is_filter(
    filter: ObservedFilter,
    expected: FilterModel,
    provider: Guid,
    sublayer: Guid,
) -> bool {
    &&& filter.key == expected.key
    &&& filter.flags & PERSISTENT_FLAG != 0
    &&& filter.layer_key == expected.layer_key
    &&& filter.sublayer_key == sublayer
    &&& filter.provider_key == Some(provider)
    &&& filter.action == expected.action
    &&& filter.weight == Some(expected.weight)
    &&& filter.conditions matches Some(conditions) && conditions@.len() == expected.conditions.len()
        && forall|i: int|
        0 <= i < conditions@.len() ==> is_condition(
            #[trigger] conditions@[i],
            expected.conditions[i],
        )
}

/// A filter is one filter: where it is accepted for two expectations, they
/// agree in everything but the name, and so do the providers and sublayers that it was
/// held against. One that is accepted outlasts a restart.
pub proof fn a_filter_is_one_filter(
    filter: ObservedFilter,
    expected: FilterModel,
    provider: Guid,
    sublayer: Guid,
    other: FilterModel,
    other_provider: Guid,
    other_sublayer: Guid,
)
    requires
        is_filter(filter, expected, provider, sublayer),
    ensures
        is_filter(filter, other, other_provider, other_sublayer) <==> other == (FilterModel {
            name: other.name,
            ..expected
        }) && other_provider == provider && other_sublayer == sublayer,
        filter.flags % 2 == 1,
        filter.conditions is Some,
        filter.conditions->0@.len() == expected.conditions.len(),
        forall|i: int|
            0 <= i < expected.conditions.len() ==> is_condition(
                #[trigger] filter.conditions->0@[i],
                expected.conditions[i],
            ),
{
    let flags = filter.flags;
    assert(flags & 1 != 0 ==> flags % 2 == 1) by (bit_vector);
    let conditions = filter.conditions->0@;
    if is_filter(filter, other, other_provider, other_sublayer) {
        assert forall|i: int| 0 <= i < conditions.len() implies expected.conditions[i]
            == other.conditions[i] by {
            assert(is_condition(conditions[i], expected.conditions[i]));
            a_condition_asks_for_one_thing(
                conditions[i],
                expected.conditions[i],
                other.conditions[i],
            );
        }
        assert(expected.conditions =~= other.conditions);
    }
}

/// Whether a key is another one, where there is one.
fn is_key(actual: &Option<Guid>, expected: Guid) -> (yes: bool)
    ensures
        yes == (*actual == Some(expected)),
{
    match actual {
        Some(key) => *key == expected,
        None => false,
    }
}

/// Whether a filter is as it has to be.
fn filter_matches(
    filter: &ObservedFilter,
    expected: &FilterExpectation,
    provider: Guid,
    sublayer: Guid,
) -> (yes: bool)
    ensures
        yes == is_filter(*filter, expected@, provider, sublayer),
{
    let weight = match filter.weight {
        Some(weight) => weight == expected.weight,
        None => false,
    };
    if filter.key != expected.key || filter.flags & PERSISTENT_FLAG == 0 || filter.layer_key
        != expected.layer_key || filter.sublayer_key != sublayer || !is_key(
        &filter.provider_key,
        provider,
    ) || filter.action != expected.action || !weight {
        return false;
    }
    match &filter.conditions {
        None => false,
        Some(conditions) => {
            if conditions.len() != expected.conditions.len() {
                return false;
            }
            for i in 0..conditions.len()
                invariant
                    conditions@.len() == expected.conditions@.len(),
                    filter.conditions == Some(*conditions),
                    forall|j: int|
                        0 <= j < i ==> is_condition(
                            #[trigger] conditions@[j],
                            expected.conditions@[j],
                        ),
            {
                if !condition_matches(&conditions[i], expected.conditions[i]) {
                    return false;
                }
            }
            true
        },
    }
}

/// Refuses a filter that is missing or another.
pub fn verify_filter<E>(
    expected: &FilterExpectation,
    status: u32,
    filter: &Option<ObservedFilter>,
    provider: Guid,
    sublayer: Guid,
) -> (result: Result<(), WindowsSetupVerificationError<E>>)
    ensures
        match result {
            Ok(_) => status == 0 && (*filter matches Some(found) && is_filter(
                found,
                expected@,
                provider,
                sublayer,
            )),
            Err(error) => !(status == 0 && (*filter matches Some(found) && is_filter(
                found,
                expected@,
                provider,
                sublayer,
            ))) && (error matches WindowsSetupVerificationError::WfpFilter { name, code } && name@
                == expected@.name && code == status),
        },
{
    let matching = match filter {
        Some(found) => status == 0 && filter_matches(found, expected, provider, sublayer),
        None => false,
    };
    if matching {
        Ok(())
    } else {
        Err(
            WindowsSetupVerificationError::WfpFilter {
                name: expected.name.as_str().to_owned(),
                code: status,
            },
        )
    }
}

/// What was seen of a provider or sublayer.
#[derive(Clone, Copy, Debug)]
pub struct ObservedOwner {
    /// Its key.
    pub key: Guid,
    /// Its flags.
    pub flags: u32,
    /// Its provider, where it has one.
    pub provider_key: Option<Guid>,
}

/// Refuses a provider that is missing or another.
pub fn verify_provider<E>(status: u32, found: Option<ObservedOwner>, provider: Guid) -> (result:
    Result<(), WindowsSetupVerificationError<E>>)
    ensures
        ({
            let holds = status == 0 && (found matches Some(owner) && owner.key == provider
                && owner.flags & PERSISTENT_FLAG != 0);
            match result {
                Ok(_) => holds,
                Err(error) => !holds && error == (WindowsSetupVerificationError::<E>::WfpProvider {
                    code: status,
                }),
            }
        }),
{
    match found {
        Some(owner) => if status == 0 && owner.key == provider && owner.flags & PERSISTENT_FLAG
            != 0 {
            Ok(())
        } else {
            Err(WindowsSetupVerificationError::WfpProvider { code: status })
        },
        None => Err(WindowsSetupVerificationError::WfpProvider { code: status }),
    }
}

/// Refuses a sublayer that is missing or another.
pub fn verify_sublayer<E>(
    status: u32,
    found: Option<ObservedOwner>,
    sublayer: Guid,
    provider: Guid,
) -> (result: Result<(), WindowsSetupVerificationError<E>>)
    ensures
        ({
            let holds = status == 0 && (found matches Some(owner) && owner.key == sublayer
                && owner.flags & PERSISTENT_FLAG != 0 && owner.provider_key == Some(provider));
            match result {
                Ok(_) => holds,
                Err(error) => !holds && error == (WindowsSetupVerificationError::<E>::WfpSublayer {
                    code: status,
                }),
            }
        }),
{
    match found {
        Some(owner) => if status == 0 && owner.key == sublayer && owner.flags & PERSISTENT_FLAG
            != 0 && is_key(&owner.provider_key, provider) {
            Ok(())
        } else {
            Err(WindowsSetupVerificationError::WfpSublayer { code: status })
        },
        None => Err(WindowsSetupVerificationError::WfpSublayer { code: status }),
    }
}

/// The next step of seeing whether the packet filters are there, or what it
/// came to.
#[derive(Debug)]
pub enum WfpStep<E> {
    /// Open the engine.
    OpenEngine,
    /// Look at the provider.
    Provider,
    /// Look at the sublayer.
    Sublayer,
    /// Look at a filter.
    Filter {
        /// Which.
        index: usize,
    },
    /// They are there.
    Done,
    /// They are not.
    Failed {
        /// Why.
        error: WindowsSetupVerificationError<E>,
    },
}

impl<E> WfpStep<E> {
    /// The first step: the marker has to name the provider.
    pub fn first(provider_id: &str, provider: Guid) -> (step: WfpStep<E>)
        ensures
            step == (if text::eq_ignore_case(provider_id@, guid_text(provider)) {
                WfpStep::<E>::OpenEngine
            } else {
                WfpStep::<E>::Failed {
                    error: WindowsSetupVerificationError::WfpProvider { code: 0 },
                }
            }),
    {
        if text::same_text_ignoring_case(provider_id, guid_string(provider).as_str()) {
            WfpStep::OpenEngine
        } else {
            WfpStep::Failed { error: WindowsSetupVerificationError::WfpProvider { code: 0 } }
        }
    }

    /// The step after the result of a step, for so many filters.
    pub open spec fn after(
        self,
        result: Result<(), WindowsSetupVerificationError<E>>,
        filters: usize,
    ) -> WfpStep<E> {
        match (self, result) {
            (_, Err(error)) => WfpStep::Failed { error },
            (WfpStep::OpenEngine, Ok(_)) => WfpStep::Provider,
            (WfpStep::Provider, Ok(_)) => WfpStep::Sublayer,
            (WfpStep::Sublayer, Ok(_)) => if filters == 0 {
                WfpStep::Done
            } else {
                WfpStep::Filter { index: 0 }
            },
            (WfpStep::Filter { index }, Ok(_)) => if index + 1 < filters {
                WfpStep::Filter { index: (index + 1) as usize }
            } else {
                WfpStep::Done
            },
            (step, Ok(_)) => step,
        }
    }

    /// Takes the step after the result of a step, for so many filters.
    pub fn advance(self, result: Result<(), WindowsSetupVerificationError<E>>, filters: usize) -> (
    step: WfpStep<E>)
        requires
            !(self is Done),
            !(self is Failed),
        ensures
            step == self.after(result, filters),
    {
        match (self, result) {
            (_, Err(error)) => WfpStep::Failed { error },
            (WfpStep::OpenEngine, Ok(_)) => WfpStep::Provider,
            (WfpStep::Provider, Ok(_)) => WfpStep::Sublayer,
            (WfpStep::Sublayer, Ok(_)) => if filters == 0 {
                WfpStep::Done
            } else {
                WfpStep::Filter { index: 0 }
            },
            (WfpStep::Filter { index }, Ok(_)) => if filters > 0 && index < filters - 1 {
                WfpStep::Filter { index: index + 1 }
            } else {
                WfpStep::Done
            },
            (step, Ok(_)) => step,
        }
    }
}

/// The packet filters count as there only after the engine, the provider, the
/// sublayer and every filter were looked at, one after the other.
pub proof fn every_filter_is_looked_at<E>(
    step: WfpStep<E>,
    result: Result<(), WindowsSetupVerificationError<E>>,
    filters: usize,
)
    requires
        !(step is Done),
        !(step is Failed),
        filters > 0,
        step matches WfpStep::Filter { index } ==> index < filters,
    ensures
        result is Err ==> step.after(result, filters) is Failed,
        step.after(result, filters) is Done ==> step == (WfpStep::<E>::Filter {
            index: (filters - 1) as usize,
        }),
        step.after(result, filters) matches WfpStep::Filter { index } ==> index < filters && (if index
            == 0 {
            step is Sublayer
        } else {
            step == (WfpStep::<E>::Filter { index: (index - 1) as usize })
        }),
{
}

} // verus!
