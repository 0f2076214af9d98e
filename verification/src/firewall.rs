//! What a read-back of the Windows Firewall configuration is held against:
//! active profiles, address and port sets, and the user that a rule is
//! scoped to.

use vstd::arithmetic::power2;
use vstd::prelude::*;

use crate::addresses;
use crate::addresses::Address;
use crate::intervals;
use crate::intervals::Interval;
use crate::text;

verus! {

/// The firewall profile of domain networks.
pub const DOMAIN_PROFILE: i32 = 1;

/// The firewall profile of private networks.
pub const PRIVATE_PROFILE: i32 = 2;

/// The firewall profile of public networks.
pub const PUBLIC_PROFILE: i32 = 4;

/// The profiles whose bits are set in a mask, in the order of their bits.
pub open spec fn profiles_in(mask: int) -> Seq<i32> {
    let domain: Seq<i32> = if mask % 2 == 1 {
        seq![DOMAIN_PROFILE]
    } else {
        seq![]
    };
    let private: Seq<i32> = if mask / 2 % 2 == 1 {
        seq![PRIVATE_PROFILE]
    } else {
        seq![]
    };
    let public: Seq<i32> = if mask / 4 % 2 == 1 {
        seq![PUBLIC_PROFILE]
    } else {
        seq![]
    };
    domain + private + public
}

/// The active profiles that a mask names; none where the mask is empty or
/// has a bit that stands for no known profile.
pub fn active_firewall_profiles(mask: i32) -> (profiles: Option<Vec<i32>>)
    ensures
        profiles is Some <==> 1 <= mask <= 7,
        profiles is Some ==> profiles->0@ == profiles_in(mask as int),
{
    if mask < 1 || 7 < mask {
        return None;
    }
    let mut profiles: Vec<i32> = Vec::new();
    if mask % 2 == 1 {
        profiles.push(DOMAIN_PROFILE);
    }
    if mask / 2 % 2 == 1 {
        profiles.push(PRIVATE_PROFILE);
    }
    if mask / 4 % 2 == 1 {
        profiles.push(PUBLIC_PROFILE);
    }
    assert(profiles@ =~= profiles_in(mask as int));
    Some(profiles)
}

/// The addresses of one family from a least to a greatest one.
#[derive(Clone, Copy, Debug, PartialEq, Eq, Structural)]
pub struct AddressRange {
    /// Whether the addresses are IPv6 addresses.
    pub v6: bool,
    /// The addresses as numbers.
    pub interval: Interval,
}

/// The addresses of `width` bits that share the first `prefix` bits of one.
pub open spec fn block(address: nat, width: nat, prefix: nat) -> Interval {
    let size = power2::pow2((width - prefix) as nat);
    let start = address - address % size;
    Interval { start: start as u128, end: (start + size - 1) as u128 }
}

/// Whether a 32-bit mask has exactly its first `prefix` bits set.
pub open spec fn is_prefix_mask(mask: u32, prefix: nat) -> bool {
    prefix <= 32 && mask as int == 0x1_0000_0000 - power2::pow2((32 - prefix) as nat)
}

/// The prefix length that the text behind an IPv4 address and a slash
/// spells, as a number or as a dotted mask.
pub open spec fn prefix_length(s: Seq<char>) -> Option<nat> {
    match text::parse_unsigned(s, 255) {
        Some(prefix) => if prefix <= 32 {
            Some(prefix)
        } else {
            None
        },
        None => match addresses::ipv4_value(s) {
            Some(mask) => if exists|prefix: nat| is_prefix_mask(mask, prefix) {
                Some(choose|prefix: nat| is_prefix_mask(mask, prefix))
            } else {
                None
            },
            None => None,
        },
    }
}

/// The addresses that an address with a prefix length or mask stands for.
pub open spec fn prefix_range(address: Seq<char>, mask: Seq<char>) -> Option<AddressRange> {
    match addresses::address_value(address) {
        Some(Address::V4(value)) => match prefix_length(mask) {
            Some(prefix) => Some(
                AddressRange { v6: false, interval: block(value as nat, 32, prefix) },
            ),
            None => None,
        },
        Some(Address::V6(value)) => match text::parse_unsigned(mask, 128) {
            Some(prefix) => Some(
                AddressRange { v6: true, interval: block(value as nat, 128, prefix) },
            ),
            None => None,
        },
        None => None,
    }
}

/// The addresses from one to another of the same family.
pub open spec fn between(start: Seq<char>, end: Seq<char>) -> Option<AddressRange> {
    match (addresses::address_value(start), addresses::address_value(end)) {
        (Some(Address::V4(a)), Some(Address::V4(b))) => if a <= b {
            Some(
                AddressRange { v6: false, interval: Interval { start: a as u128, end: b as u128 } },
            )
        } else {
            None
        },
        (Some(Address::V6(a)), Some(Address::V6(b))) => if a <= b {
            Some(AddressRange { v6: true, interval: Interval { start: a, end: b } })
        } else {
            None
        },
        _ => None,
    }
}

/// The addresses that one entry of an address list stands for.
pub open spec fn entry_range(entry: Seq<char>) -> Option<AddressRange> {
    match text::split_once(entry, seq!['/']) {
        Some((address, mask)) => prefix_range(address, mask),
        None => match text::split_once(entry, seq!['-']) {
            Some((start, end)) => between(start, end),
            None => between(entry, entry),
        },
    }
}

/// The entries of a list with commas between them.
pub open spec fn entries(value: Seq<char>) -> Seq<Seq<char>> {
    text::split_on(value, ',').map_values(|entry: Seq<char>| text::trim(entry))
}

/// Whether every entry of a text stands for a range of addresses.
pub open spec fn is_address_list(value: Seq<char>) -> bool {
    forall|i: int|
        0 <= i < entries(value).len() ==> entry_range(#[trigger] entries(value)[i]) is Some
}

/// Whether an address belongs to the set that an address list denotes.
pub open spec fn in_address_list(value: Seq<char>, v6: bool, address: int) -> bool {
    exists|i: int|
        {
            &&& 0 <= i < entries(value).len()
            &&& entry_range(#[trigger] entries(value)[i]) matches Some(range)
            &&& range.v6 == v6
            &&& range.interval.holds(address)
        }
}

/// The ports that one entry of a port list stands for.
pub open spec fn port_range(entry: Seq<char>) -> Option<Interval> {
    let bounds = match text::split_once(entry, seq!['-']) {
        Some(bounds) => bounds,
        None => (entry, entry),
    };
    match (text::parse_unsigned(bounds.0, 65535), text::parse_unsigned(bounds.1, 65535)) {
        (Some(start), Some(end)) => if 0 < start && start <= end {
            Some(Interval { start: start as u128, end: end as u128 })
        } else {
            None
        },
        _ => None,
    }
}

/// Whether a text is the entry that stands for every port.
pub open spec fn is_any_port(value: Seq<char>) -> bool {
    text::trim(value) == seq!['*']
}

/// Whether a text stands for a set of ports.
pub open spec fn is_port_list(value: Seq<char>) -> bool {
    is_any_port(value) || forall|i: int|
        0 <= i < entries(value).len() ==> port_range(#[trigger] entries(value)[i]) is Some
}

/// Whether a port belongs to the set that a port list denotes.
pub open spec fn in_port_list(value: Seq<char>, port: int) -> bool {
    if is_any_port(value) {
        1 <= port <= 65535
    } else {
        exists|i: int|
            {
                &&& 0 <= i < entries(value).len()
                &&& port_range(#[trigger] entries(value)[i]) matches Some(range)
                &&& range.holds(port)
            }
    }
}

/// The powers of two at the widths of the two address families.
proof fn address_widths()
    ensures
        power2::pow2(0) == 1,
        power2::pow2(32) == 0x1_0000_0000,
        power2::pow2(128) == 0x1_0000_0000_0000_0000_0000_0000_0000_0000,
{
    power2::lemma2_to64();
    power2::lemma_pow2_adds(64, 64);
    assert(0x1_0000_0000_0000_0000int * 0x1_0000_0000_0000_0000int
        == 0x1_0000_0000_0000_0000_0000_0000_0000_0000) by (nonlinear_arith);
}

/// A block of addresses ends within the width of its address.
proof fn block_fits(address: nat, width: nat, prefix: nat)
    requires
        prefix <= width,
        address < power2::pow2(width),
    ensures
        ({
            let size = power2::pow2((width - prefix) as nat);
            let start = address - address % size;
            &&& size > 0
            &&& 0 <= start
            &&& start + size <= power2::pow2(width)
        }),
{
    let size = power2::pow2((width - prefix) as nat);
    let count = power2::pow2(prefix);
    power2::lemma_pow2_pos((width - prefix) as nat);
    power2::lemma_pow2_adds((width - prefix) as nat, prefix);
    let quotient = address / size;
    vstd::arithmetic::div_mod::lemma_fundamental_div_mod(address as int, size as int);
    assert(address < size * count);
    assert(quotient < count) by (nonlinear_arith)
        requires
            address < size * count,
            address == size * quotient + address % size,
            0 <= address % size < size,
            size > 0,
    ;
    assert((quotient + 1) * size <= count * size) by (nonlinear_arith)
        requires
            quotient + 1 <= count,
            size > 0,
    ;
    assert((quotient + 1) * size == size * quotient + size) by (nonlinear_arith);
    assert(count * size == size * count) by (nonlinear_arith);
}

/// The addresses that share the first `prefix` bits of an address.
fn prefix_block(address: u128, width: u8, prefix: u8) -> (interval: Interval)
    requires
        width == 32 || width == 128,
        prefix <= width,
        address < power2::pow2(width as nat),
    ensures
        interval == block(address as nat, width as nat, prefix as nat),
        interval.start <= interval.end,
{
    proof {
        address_widths();
        block_fits(address as nat, width as nat, prefix as nat);
    }
    let hosts: u8 = width - prefix;
    if hosts == 128 {
        return Interval { start: 0, end: u128::MAX };
    }
    let mut size: u128 = 1;
    for i in 0..hosts
        invariant
            hosts < 128,
            size == power2::pow2(i as nat),
            power2::pow2(128) == 0x1_0000_0000_0000_0000_0000_0000_0000_0000,
    {
        proof {
            power2::lemma_pow2_unfold((i + 1) as nat);
            power2::lemma_pow2_strictly_increases((i + 1) as nat, 128);
        }
        size = 2 * size;
    }
    let start: u128 = address - address % size;
    Interval { start, end: start + (size - 1) }
}

/// A mask has at most one prefix length.
proof fn prefix_mask_is_unique(mask: u32, a: nat, b: nat)
    requires
        is_prefix_mask(mask, a),
        is_prefix_mask(mask, b),
    ensures
        a == b,
{
    if a < b {
        power2::lemma_pow2_strictly_increases((32 - b) as nat, (32 - a) as nat);
    } else if b < a {
        power2::lemma_pow2_strictly_increases((32 - a) as nat, (32 - b) as nat);
    }
}

/// The number of leading bits that a contiguous mask has set.
fn mask_length(mask: u32) -> (length: Option<u8>)
    ensures
        match length {
            Some(length) => is_prefix_mask(mask, length as nat),
            None => forall|prefix: nat| !is_prefix_mask(mask, prefix),
        },
{
    proof {
        address_widths();
    }
    let mut hosts: u8 = 0;
    let mut size: u64 = 1;
    while hosts <= 32
        invariant
            hosts <= 33,
            hosts <= 32 ==> size == power2::pow2(hosts as nat),
            size <= 0x2_0000_0000,
            power2::pow2(32) == 0x1_0000_0000,
            forall|prefix: nat| #[trigger] is_prefix_mask(mask, prefix) ==> 32 - prefix >= hosts,
        decreases 33 - hosts,
    {
        proof {
            if hosts < 32 {
                power2::lemma_pow2_strictly_increases(hosts as nat, 32);
            }
        }
        if mask as u64 == 0x1_0000_0000 - size {
            assert(is_prefix_mask(mask, (32 - hosts) as nat));
            return Some(32 - hosts);
        }
        proof {
            power2::lemma_pow2_unfold((hosts + 1) as nat);
            assert(!is_prefix_mask(mask, (32 - hosts) as nat));
        }
        size = 2 * size;
        hosts = hosts + 1;
    }
    None
}

/// The prefix length that a number or a dotted mask spells.
fn parse_prefix_length(chars: &[char]) -> (length: Option<u8>)
    ensures
        match length {
            Some(length) => prefix_length(chars@) == Some(length as nat) && length <= 32,
            None => prefix_length(chars@) is None,
        },
{
    match text::unsigned(chars, 255) {
        Some(prefix) => if prefix <= 32 {
            Some(prefix as u8)
        } else {
            None
        },
        None => match addresses::parse_ipv4(chars) {
            Some(mask) => {
                let length = mask_length(mask);
                proof {
                    if length is Some {
                        let chosen = choose|prefix: nat| is_prefix_mask(mask, prefix);
                        assert(is_prefix_mask(mask, length->0 as nat));
                        prefix_mask_is_unique(mask, chosen, length->0 as nat);
                    }
                }
                length
            },
            None => None,
        },
    }
}

/// The addresses that an address with a prefix length or mask stands for.
fn parse_prefix_range(address: &[char], mask: &[char]) -> (range: Option<AddressRange>)
    ensures
        range == prefix_range(address@, mask@),
        range matches Some(range) ==> range.interval.start <= range.interval.end,
{
    proof {
        address_widths();
    }
    match addresses::parse_address(address) {
        Some(Address::V4(value)) => match parse_prefix_length(mask) {
            Some(prefix) => Some(
                AddressRange { v6: false, interval: prefix_block(value as u128, 32, prefix) },
            ),
            None => None,
        },
        Some(Address::V6(value)) => match text::unsigned(mask, 128) {
            Some(prefix) => Some(
                AddressRange { v6: true, interval: prefix_block(value, 128, prefix as u8) },
            ),
            None => None,
        },
        None => None,
    }
}

/// The addresses from one to another of the same family.
fn parse_between(start: &[char], end: &[char]) -> (range: Option<AddressRange>)
    ensures
        range == between(start@, end@),
        range matches Some(range) ==> range.interval.start <= range.interval.end,
{
    match (addresses::parse_address(start), addresses::parse_address(end)) {
        (Some(Address::V4(a)), Some(Address::V4(b))) => if a <= b {
            Some(
                AddressRange { v6: false, interval: Interval { start: a as u128, end: b as u128 } },
            )
        } else {
            None
        },
        (Some(Address::V6(a)), Some(Address::V6(b))) => if a <= b {
            Some(AddressRange { v6: true, interval: Interval { start: a, end: b } })
        } else {
            None
        },
        _ => None,
    }
}

/// The addresses that one entry of an address list stands for.
fn parse_entry(entry: &[char]) -> (range: Option<AddressRange>)
    ensures
        range == entry_range(entry@),
        range matches Some(range) ==> range.interval.start <= range.interval.end,
{
    let slash: [char; 1] = ['/'];
    let dash: [char; 1] = ['-'];
    assert(slash@ =~= seq!['/']);
    assert(dash@ =~= seq!['-']);
    match text::split_at_first(entry, &slash) {
        Some((address, mask)) => parse_prefix_range(&address, &mask),
        None => match text::split_at_first(entry, &dash) {
            Some((start, end)) => parse_between(&start, &end),
            None => parse_between(entry, entry),
        },
    }
}

/// The entries of a list with commas between them, without white space.
fn split_entries(value: &str) -> (list: Vec<Vec<char>>)
    ensures
        text::contents(list@) == entries(value@),
{
    let parts = text::split(&text::chars_of(value), ',');
    let mut list: Vec<Vec<char>> = Vec::new();
    for i in 0..parts.len()
        invariant
            text::contents(parts@) == text::split_on(value@, ','),
            list@.len() == i,
            forall|j: int| 0 <= j < i ==> (#[trigger] list@[j])@ == text::trim(parts@[j]@),
    {
        list.push(text::trimmed(&parts[i]));
    }
    assert(text::contents(list@) =~= entries(value@)) by {
        assert(text::contents(parts@).len() == parts@.len());
        assert forall|j: int| 0 <= j < list@.len() implies text::contents(list@)[j] == entries(
            value@,
        )[j] by {
            assert(text::contents(parts@)[j] == parts@[j]@);
        }
    }
    list
}

/// A set of addresses in canonical form.
pub struct AddressSet {
    ipv4: Vec<Interval>,
    ipv6: Vec<Interval>,
}

impl AddressSet {
    /// Whether both families are in canonical form.
    pub closed spec fn wf(self) -> bool {
        intervals::canonical(self.ipv4@) && intervals::canonical(self.ipv6@)
    }

    /// Whether an address belongs to the set.
    pub closed spec fn has(self, v6: bool, address: int) -> bool {
        if v6 {
            intervals::covers(self.ipv6@, address)
        } else {
            intervals::covers(self.ipv4@, address)
        }
    }
}

/// Whether an address lies in one of the first `count` entries.
spec fn in_first_entries(value: Seq<char>, count: int, v6: bool, address: int) -> bool {
    exists|i: int|
        {
            &&& 0 <= i < count
            &&& entry_range(#[trigger] entries(value)[i]) matches Some(range)
            &&& range.v6 == v6
            &&& range.interval.holds(address)
        }
}

/// What the entries hold once one more is counted.
proof fn one_more_entry(value: Seq<char>, count: int, v6: bool, address: int)
    requires
        0 <= count < entries(value).len(),
        entry_range(entries(value)[count]) is Some,
    ensures
        in_first_entries(value, count + 1, v6, address) <==> in_first_entries(
            value,
            count,
            v6,
            address,
        ) || ({
            let range = entry_range(entries(value)[count])->0;
            range.v6 == v6 && range.interval.holds(address)
        }),
{
    if in_first_entries(value, count + 1, v6, address) {
        let i = choose|i: int|
            {
                &&& 0 <= i < count + 1
                &&& entry_range(#[trigger] entries(value)[i]) matches Some(range)
                &&& range.v6 == v6
                &&& range.interval.holds(address)
            };
        if i < count {
            assert(in_first_entries(value, count, v6, address));
        }
    }
}

/// The set that an address list denotes; none where the text is no address
/// list.
pub fn canonical_address_set(value: &str) -> (set: Option<AddressSet>)
    ensures
        set is Some <==> is_address_list(value@),
        set matches Some(set) ==> set.wf() && forall|v6: bool, address: int| #[trigger]
            set.has(v6, address) == in_address_list(value@, v6, address),
{
    let list = split_entries(value);
    let mut ipv4: Vec<Interval> = Vec::new();
    let mut ipv6: Vec<Interval> = Vec::new();
    for i in 0..list.len()
        invariant
            text::contents(list@) == entries(value@),
            intervals::proper(ipv4@),
            intervals::proper(ipv6@),
            forall|j: int| 0 <= j < i ==> entry_range(#[trigger] entries(value@)[j]) is Some,
            forall|x: int| #[trigger]
                intervals::covers(ipv4@, x) == in_first_entries(value@, i as int, false, x),
            forall|x: int| #[trigger]
                intervals::covers(ipv6@, x) == in_first_entries(value@, i as int, true, x),
    {
        assert(entries(value@)[i as int] == list@[i as int]@);
        assert(entries(value@).len() == list@.len());
        match parse_entry(&list[i]) {
            None => {
                return None;
            },
            Some(range) => {
                let ghost before4 = ipv4@;
                let ghost before6 = ipv6@;
                if range.v6 {
                    ipv6.push(range.interval);
                } else {
                    ipv4.push(range.interval);
                }
                proof {
                    assert forall|x: int| #[trigger]
                        intervals::covers(ipv4@, x) == in_first_entries(
                        value@,
                        i + 1,
                        false,
                        x,
                    ) by {
                        one_more_entry(value@, i as int, false, x);
                        intervals::cover_after_push(before4, range.interval, x);
                        assert(intervals::covers(before4, x) == in_first_entries(
                            value@,
                            i as int,
                            false,
                            x,
                        ));
                    }
                    assert forall|x: int| #[trigger]
                        intervals::covers(ipv6@, x) == in_first_entries(
                        value@,
                        i + 1,
                        true,
                        x,
                    ) by {
                        one_more_entry(value@, i as int, true, x);
                        intervals::cover_after_push(before6, range.interval, x);
                        assert(intervals::covers(before6, x) == in_first_entries(
                            value@,
                            i as int,
                            true,
                            x,
                        ));
                    }
                }
            },
        }
    }
    assert(entries(value@).len() == list@.len());
    let set = AddressSet {
        ipv4: intervals::merge_intervals(&ipv4),
        ipv6: intervals::merge_intervals(&ipv6),
    };
    assert forall|v6: bool, address: int| #[trigger]
        set.has(v6, address) == in_address_list(value@, v6, address) by {
        assert(intervals::covers(set.ipv4@, address) == intervals::covers(ipv4@, address));
        assert(intervals::covers(set.ipv6@, address) == intervals::covers(ipv6@, address));
        assert(in_first_entries(value@, list@.len() as int, v6, address) == in_address_list(
            value@,
            v6,
            address,
        ));
    }
    Some(set)
}

/// Whether two texts are address lists that denote the same addresses.
pub fn address_sets_match(actual: &str, expected: &str) -> (same: bool)
    ensures
        same <==> {
            &&& is_address_list(actual@)
            &&& is_address_list(expected@)
            &&& forall|v6: bool, address: int| #[trigger]
                in_address_list(actual@, v6, address) == in_address_list(expected@, v6, address)
        },
{
    match (canonical_address_set(actual), canonical_address_set(expected)) {
        (Some(actual_set), Some(expected_set)) => {
            let same = intervals::same_set(&actual_set.ipv4, &expected_set.ipv4)
                && intervals::same_set(&actual_set.ipv6, &expected_set.ipv6);
            proof {
                if same {
                    assert forall|v6: bool, address: int| #[trigger]
                        in_address_list(actual@, v6, address) == in_address_list(
                        expected@,
                        v6,
                        address,
                    ) by {
                        assert(actual_set.has(v6, address) == expected_set.has(v6, address));
                    }
                } else if forall|v6: bool, address: int| #[trigger]
                    in_address_list(actual@, v6, address) == in_address_list(
                        expected@,
                        v6,
                        address,
                    ) {
                    assert forall|x: int| #[trigger]
                        intervals::covers(actual_set.ipv4@, x) == intervals::covers(
                        expected_set.ipv4@,
                        x,
                    ) by {
                        assert(actual_set.has(false, x) == in_address_list(actual@, false, x));
                        assert(expected_set.has(false, x) == in_address_list(expected@, false, x));
                    }
                    assert forall|x: int| #[trigger]
                        intervals::covers(actual_set.ipv6@, x) == intervals::covers(
                        expected_set.ipv6@,
                        x,
                    ) by {
                        assert(actual_set.has(true, x) == in_address_list(actual@, true, x));
                        assert(expected_set.has(true, x) == in_address_list(expected@, true, x));
                    }
                }
            }
            same
        },
        _ => false,
    }
}

/// The ports that one entry of a port list stands for.
fn parse_port_range(entry: &[char]) -> (range: Option<Interval>)
    ensures
        range == port_range(entry@),
{
    let dash: [char; 1] = ['-'];
    assert(dash@ =~= seq!['-']);
    let (start, end) = match text::split_at_first(entry, &dash) {
        Some((start, end)) => (text::unsigned(&start, 65535), text::unsigned(&end, 65535)),
        None => (text::unsigned(entry, 65535), text::unsigned(entry, 65535)),
    };
    match (start, end) {
        (Some(start), Some(end)) => if 0 < start && start <= end {
            Some(Interval { start, end })
        } else {
            None
        },
        _ => None,
    }
}

/// Whether a port lies in one of the first `count` entries.
spec fn in_first_ports(value: Seq<char>, count: int, port: int) -> bool {
    exists|i: int|
        {
            &&& 0 <= i < count
            &&& port_range(#[trigger] entries(value)[i]) matches Some(range)
            &&& range.holds(port)
        }
}

/// What the port entries hold once one more is counted.
proof fn one_more_port_entry(value: Seq<char>, count: int, port: int)
    requires
        0 <= count < entries(value).len(),
        port_range(entries(value)[count]) is Some,
    ensures
        in_first_ports(value, count + 1, port) <==> in_first_ports(value, count, port)
            || port_range(entries(value)[count])->0.holds(port),
{
    if in_first_ports(value, count + 1, port) {
        let i = choose|i: int|
            {
                &&& 0 <= i < count + 1
                &&& port_range(#[trigger] entries(value)[i]) matches Some(range)
                &&& range.holds(port)
            };
        if i < count {
            assert(in_first_ports(value, count, port));
        }
    }
}

/// The canonical intervals of the ports that a text stands for; none where
/// it is no port list.
pub fn canonical_port_set(value: &str) -> (set: Option<Vec<Interval>>)
    ensures
        set is Some <==> is_port_list(value@),
        set matches Some(set) ==> intervals::canonical(set@) && forall|port: int| #[trigger]
            intervals::covers(set@, port) == in_port_list(value@, port),
{
    let star: [char; 1] = ['*'];
    assert(star@ =~= seq!['*']);
    let mut list: Vec<Interval> = Vec::new();
    if text::same_chars(&text::trimmed(&text::chars_of(value)), &star) {
        list.push(Interval { start: 1, end: 65535 });
        assert forall|port: int| #[trigger] intervals::covers(list@, port) == in_port_list(
            value@,
            port,
        ) by {
            assert(list@[0].holds(port) ==> intervals::covers(list@, port));
        }
        return Some(list);
    }
    let parts = split_entries(value);
    for i in 0..parts.len()
        invariant
            text::contents(parts@) == entries(value@),
            !is_any_port(value@),
            intervals::proper(list@),
            forall|j: int| 0 <= j < i ==> port_range(#[trigger] entries(value@)[j]) is Some,
            forall|port: int| #[trigger]
                intervals::covers(list@, port) == in_first_ports(value@, i as int, port),
    {
        assert(entries(value@)[i as int] == parts@[i as int]@);
        assert(entries(value@).len() == parts@.len());
        match parse_port_range(&parts[i]) {
            None => {
                return None;
            },
            Some(range) => {
                let ghost before = list@;
                list.push(range);
                assert forall|port: int| #[trigger]
                    intervals::covers(list@, port) == in_first_ports(value@, i + 1, port) by {
                    one_more_port_entry(value@, i as int, port);
                    intervals::cover_after_push(before, range, port);
                    assert(intervals::covers(before, port) == in_first_ports(
                        value@,
                        i as int,
                        port,
                    ));
                }
            },
        }
    }
    assert(entries(value@).len() == parts@.len());
    let merged = intervals::merge_intervals(&list);
    assert forall|port: int| #[trigger] intervals::covers(merged@, port) == in_port_list(
        value@,
        port,
    ) by {
        assert(intervals::covers(merged@, port) == intervals::covers(list@, port));
        assert(in_first_ports(value@, parts@.len() as int, port) == in_port_list(value@, port));
    }
    Some(merged)
}

/// Whether two texts stand for the same set of ports.
pub fn port_sets_match(actual: &str, expected: &str) -> (same: bool)
    ensures
        same <==> {
            &&& is_port_list(actual@)
            &&& is_port_list(expected@)
            &&& forall|port: int| #[trigger]
                in_port_list(actual@, port) == in_port_list(expected@, port)
        },
{
    match (canonical_port_set(actual), canonical_port_set(expected)) {
        (Some(actual_set), Some(expected_set)) => {
            let same = intervals::same_set(&actual_set, &expected_set);
            proof {
                if same {
                    assert forall|port: int| #[trigger]
                        in_port_list(actual@, port) == in_port_list(expected@, port) by {
                        assert(intervals::covers(actual_set@, port) == intervals::covers(
                            expected_set@,
                            port,
                        ));
                    }
                } else if forall|port: int| #[trigger]
                    in_port_list(actual@, port) == in_port_list(expected@, port) {
                    assert forall|port: int| #[trigger]
                        intervals::covers(actual_set@, port) == intervals::covers(
                        expected_set@,
                        port,
                    ) by {
                        assert(in_port_list(actual@, port) == in_port_list(expected@, port));
                    }
                }
            }
            same
        },
        _ => false,
    }
}

/// Whether an access-control entry allows connecting to exactly one user.
pub open spec fn allows_user(fields: Seq<Seq<char>>, sid: Seq<char>) -> bool {
    &&& fields.len() == 6
    &&& text::eq_ignore_case(fields[0], seq!['A'])
    &&& fields[1].len() == 0
    &&& (text::eq_ignore_case(fields[2], seq!['C', 'C']) || fields[2] == seq!['0', 'x', '1']
        || fields[2] == seq!['0', 'X', '1'] || fields[2] == seq!['1'])
    &&& fields[3].len() == 0
    &&& fields[4].len() == 0
    &&& text::eq_ignore_case(fields[5], sid)
}

/// Whether the discretionary part of a security descriptor is one entry,
/// which allows exactly the given user.
pub open spec fn scopes_to_user(descriptor: Seq<char>, sid: Seq<char>) -> bool {
    &&& text::split_once(descriptor, seq!['D', ':']) matches Some((_, dacl))
    &&& text::split_once(dacl, seq!['(']) matches Some((flags, list))
    &&& text::trim(flags) == Seq::<char>::empty() || text::trim(flags) == seq!['P']
    &&& text::split_once(list, seq![')']) matches Some((entry, rest))
    &&& text::trim(rest).len() == 0
    &&& allows_user(text::split_on(entry, ';'), sid)
}

/// Whether a rule's user scope is one entry that allows exactly one user.
pub fn local_user_scope_matches(actual: &str, expected_sid: &str) -> (matches: bool)
    ensures
        matches == scopes_to_user(actual@, expected_sid@),
{
    let dacl_mark: [char; 2] = ['D', ':'];
    let open_mark: [char; 1] = ['('];
    let close_mark: [char; 1] = [')'];
    let protected: [char; 1] = ['P'];
    assert(dacl_mark@ =~= seq!['D', ':']);
    assert(open_mark@ =~= seq!['(']);
    assert(close_mark@ =~= seq![')']);
    assert(protected@ =~= seq!['P']);
    let (_, dacl) = match text::split_at_first(&text::chars_of(actual), &dacl_mark) {
        Some(parts) => parts,
        None => return false,
    };
    let (flags, list) = match text::split_at_first(&dacl, &open_mark) {
        Some(parts) => parts,
        None => return false,
    };
    let flags = text::trimmed(&flags);
    assert(flags@.len() == 0 ==> flags@ =~= Seq::<char>::empty());
    if flags.len() != 0 && !text::same_chars(&flags, &protected) {
        return false;
    }
    let (entry, rest) = match text::split_at_first(&list, &close_mark) {
        Some(parts) => parts,
        None => return false,
    };
    if text::trimmed(&rest).len() != 0 {
        return false;
    }
    let fields = text::split(&entry, ';');
    let ghost spelled = text::split_on(entry@, ';');
    assert(spelled.len() == fields@.len());
    if fields.len() != 6 {
        return false;
    }
    assert forall|i: int| 0 <= i < 6 implies fields@[i]@ == #[trigger] spelled[i] by {
        assert(text::contents(fields@)[i] == fields@[i]@);
    }
    let allow: [char; 1] = ['A'];
    let create_child: [char; 2] = ['C', 'C'];
    let lower_one: [char; 3] = ['0', 'x', '1'];
    let upper_one: [char; 3] = ['0', 'X', '1'];
    let one: [char; 1] = ['1'];
    assert(allow@ =~= seq!['A']);
    assert(create_child@ =~= seq!['C', 'C']);
    assert(lower_one@ =~= seq!['0', 'x', '1']);
    assert(upper_one@ =~= seq!['0', 'X', '1']);
    assert(one@ =~= seq!['1']);
    text::same_ignoring_case(&fields[0], &allow) && fields[1].len() == 0 && (
    text::same_ignoring_case(&fields[2], &create_child) || text::same_chars(&fields[2], &lower_one)
        || text::same_chars(&fields[2], &upper_one) || text::same_chars(&fields[2], &one))
        && fields[3].len() == 0 && fields[4].len() == 0 && text::same_ignoring_case(
        &fields[5],
        &text::chars_of(expected_sid),
    )
}

/// The active profiles are those whose bits are set, the domain's first and the
/// public one last, and none twice.
pub proof fn profiles_are_the_set_bits(mask: int)
    requires
        0 <= mask <= 7,
    ensures
        profiles_in(mask).contains(1) <==> mask % 2 == 1,
        profiles_in(mask).contains(2) <==> mask / 2 % 2 == 1,
        profiles_in(mask).contains(4) <==> mask / 4 == 1,
        profiles_in(mask).len() == mask % 2 + mask / 2 % 2 + mask / 4,
        forall|i: int, j: int|
            0 <= i < j < profiles_in(mask).len() ==> #[trigger] profiles_in(mask)[i]
                < #[trigger] profiles_in(mask)[j],
{
    let list = profiles_in(mask);
    let a = mask % 2;
    let b = mask / 2 % 2;
    let c = mask / 4 % 2;
    if a == 1 {
        assert(list[0] == 1);
    }
    if b == 1 {
        assert(list[a] == 2);
    }
    if c == 1 {
        assert(list[a + b] == 4);
    }
}

/// A block of addresses holds its address and all that share its leading bits, and
/// no others.
pub proof fn blocks_share_their_leading_bits(address: nat, width: nat, prefix: nat, other: nat)
    requires
        width == 32 || width == 128,
        prefix <= width,
        address < power2::pow2(width),
    ensures
        block(address, width, prefix).holds(other as int) <==> other / power2::pow2(
            (width - prefix) as nat,
        ) == address / power2::pow2((width - prefix) as nat),
        block(address, width, prefix).holds(address as int),
{
    let size = power2::pow2((width - prefix) as nat);
    block_fits(address, width, prefix);
    address_widths();
    let start = address - address % size;
    vstd::arithmetic::div_mod::lemma_fundamental_div_mod(address as int, size as int);
    vstd::arithmetic::div_mod::lemma_fundamental_div_mod(other as int, size as int);
    let q = (address / size) as int;
    let r = (other / size) as int;
    let s = size as int;
    assert(start == s * q);
    assert(s * q <= other < s * q + s <==> r == q) by (nonlinear_arith)
        requires
            other == s * r + (other as int) % s,
            0 <= (other as int) % s < s,
            s > 0,
    ;
}

/// A port range holds ports that a connection can have, and at least one.
pub proof fn port_ranges_hold_ports(entry: Seq<char>)
    ensures
        port_range(entry) matches Some(range) ==> 1 <= range.start <= range.end <= 65535,
        port_range(entry) matches Some(range) ==> (text::split_once(entry, seq!['-']) is None
            ==> range.start == range.end),
{
}

/// A range between two addresses is one of addresses of the same kind, from the
/// first to the last.
pub proof fn address_ranges_are_of_one_kind(start: Seq<char>, end: Seq<char>)
    ensures
        between(start, end) matches Some(range) ==> range.interval.start <= range.interval.end && (
        match (addresses::address_value(start), addresses::address_value(end)) {
            (Some(Address::V4(a)), Some(Address::V4(b))) => !range.v6 && range.interval.start == a
                && range.interval.end == b,
            (Some(Address::V6(a)), Some(Address::V6(b))) => range.v6 && range.interval.start == a
                && range.interval.end == b,
            _ => false,
        }),
        between(start, start) is Some <==> addresses::address_value(start) is Some,
{
}

/// A rule is scoped to one user: where it is accepted for two, they are the same
/// but for case.
pub proof fn a_rule_is_scoped_to_one_user(descriptor: Seq<char>, sid: Seq<char>, other: Seq<char>)
    requires
        scopes_to_user(descriptor, sid),
    ensures
        scopes_to_user(descriptor, other) <==> text::eq_ignore_case(sid, other),
{
    let (_, dacl) = text::split_once(descriptor, seq!['D', ':'])->0;
    let (_, list) = text::split_once(dacl, seq!['('])->0;
    let (entry, _) = text::split_once(list, seq![')'])->0;
    let field = text::split_on(entry, ';')[5];
    text::ignoring_case_is_comparing_upper_case(field, sid);
    text::ignoring_case_is_comparing_upper_case(field, other);
    text::ignoring_case_is_comparing_upper_case(sid, other);
}

/// What stands before the mask's zeros is what counts of an address.
proof fn masks_cut_addresses(x: u32, mask: u32, prefix: nat)
    requires
        is_prefix_mask(mask, prefix),
    ensures
        (x & mask) as int == x - x as int % power2::pow2((32 - prefix) as nat) as int,
{
    let n = (32 - prefix) as nat;
    let low = !mask;
    address_widths();
    assert(low == 0xffff_ffffu32 - mask && (x & mask) + (x & low) == x && x & 0 == 0) by (
    bit_vector)
        requires
            low == !mask,
    ;
    if n == 32 {
        assert(mask == 0);
    } else {
        vstd::bits::lemma_u32_low_bits_mask_is_mod(x, n);
        vstd::bits::lemma_u32_pow2_no_overflow(n);
        assert(low == vstd::bits::low_bits_mask(n) as u32);
        assert(x % (power2::pow2(n) as u32) == x as int % power2::pow2(n) as int);
    }
}

/// An address with a length or a mask stands for all addresses that share the
/// leading bits with it: as many as the length says, or those that the mask keeps.
pub proof fn prefixes_stand_for_their_blocks(address: Seq<char>, mask: Seq<char>, other: u32)
    ensures
        (addresses::address_value(address) matches Some(Address::V4(value)) && text::parse_unsigned(
            mask,
            255,
        ) matches Some(prefix)) ==> {
            let value = addresses::address_value(address)->0->V4_0;
            let prefix = text::parse_unsigned(mask, 255)->0;
            let size = power2::pow2((32 - prefix) as nat) as int;
            &&& prefix_range(address, mask) is Some <==> prefix <= 32
            &&& prefix <= 32 ==> !prefix_range(address, mask)->0.v6 && (prefix_range(
                address,
                mask,
            )->0.interval.holds(other as int) <==> other as int / size == value as int / size)
        },
        (addresses::address_value(address) matches Some(Address::V4(value)) && text::parse_unsigned(
            mask,
            255,
        ) is None && prefix_range(address, mask) is Some) ==> {
            let value = addresses::address_value(address)->0->V4_0;
            let bits = addresses::ipv4_value(mask)->0;
            &&& addresses::ipv4_value(mask) is Some
            &&& !prefix_range(address, mask)->0.v6
            &&& prefix_range(address, mask)->0.interval.holds(other as int) <==> other & bits
                == value & bits
        },
{
    address_widths();
    if let Some(Address::V4(value)) = addresses::address_value(address) {
        if let Some(prefix) = prefix_length(mask) {
            if text::parse_unsigned(mask, 255) is None {
                let bits = addresses::ipv4_value(mask)->0;
                assert(is_prefix_mask(bits, prefix));
                masks_cut_addresses(other, bits, prefix);
                masks_cut_addresses(value, bits, prefix);
            }
            blocks_share_their_leading_bits(value as nat, 32, prefix, other as nat);
            let size = power2::pow2((32 - prefix) as nat) as int;
            block_fits(value as nat, 32, prefix);
            vstd::arithmetic::div_mod::lemma_fundamental_div_mod(value as int, size);
            vstd::arithmetic::div_mod::lemma_fundamental_div_mod(other as int, size);
            let (q, r) = (value as int / size, other as int / size);
            assert(size * q == size * r <==> q == r) by (nonlinear_arith)
                requires
                    size > 0,
            ;
        }
    }
}

/// Whether fields are those of an entry that plainly allows one user to connect.
pub open spec fn is_plain_allowance(fields: Seq<Seq<char>>, sid: Seq<char>) -> bool {
    &&& fields.len() == 6
    &&& fields[0] == seq!['A'] || fields[0] == seq!['a']
    &&& fields[1] == Seq::<char>::empty()
    &&& is_connecting(fields[2])
    &&& fields[3] == Seq::<char>::empty()
    &&& fields[4] == Seq::<char>::empty()
    &&& text::to_ascii_upper(fields[5]) == text::to_ascii_upper(sid)
}

/// The ways to write the right to connect.
pub open spec fn is_connecting(right: Seq<char>) -> bool {
    ||| right == seq!['C', 'C']
    ||| right == seq!['C', 'c']
    ||| right == seq!['c', 'C']
    ||| right == seq!['c', 'c']
    ||| right == seq!['0', 'x', '1']
    ||| right == seq!['0', 'X', '1']
    ||| right == seq!['1']
}

/// An entry allows a user exactly where it is a plain allowance of one right to them.
pub proof fn only_plain_allowances_count(fields: Seq<Seq<char>>, sid: Seq<char>)
    ensures
        allows_user(fields, sid) <==> is_plain_allowance(fields, sid),
{
    text::ignoring_case_is_comparing_upper_case(fields[5], sid);
    text::only_letters_have_a_case(fields[0], seq!['A']);
    text::only_letters_have_a_case(fields[2], seq!['C', 'C']);
    if allows_user(fields, sid) {
        let kind = fields[0];
        assert(kind[0] == 'A' || kind[0] == 'a');
        assert(kind =~= seq!['A'] || kind =~= seq!['a']);
        assert(fields[1] =~= Seq::empty());
        assert(fields[3] =~= Seq::empty());
        assert(fields[4] =~= Seq::empty());
        let right = fields[2];
        if text::eq_ignore_case(right, seq!['C', 'C']) {
            assert(right[0] == 'C' || right[0] == 'c');
            assert(right[1] == 'C' || right[1] == 'c');
            assert(right =~= seq!['C', 'C'] || right =~= seq!['C', 'c'] || right =~= seq!['c', 'C']
                || right =~= seq!['c', 'c']);
        }
    }
    if is_plain_allowance(fields, sid) {
        assert(text::eq_ignore_case(fields[0], seq!['A']));
        if fields[2].len() == 2 {
            assert(text::eq_ignore_case(fields[2], seq!['C', 'C']));
        }
    }
}

/// The text of an entry that plainly allows a right to a user.
pub open spec fn allowance(right: Seq<char>, sid: Seq<char>) -> Seq<char> {
    seq!['A', ';', ';'] + right + seq![';', ';', ';'] + sid
}

/// The fields of an allowance.
proof fn fields_of_an_allowance(right: Seq<char>, sid: Seq<char>)
    requires
        is_connecting(right),
        !sid.contains(';'),
    ensures
        ({
            let nothing = Seq::<char>::empty();
            text::split_on(allowance(right, sid), ';') == seq![
                seq!['A'],
                nothing,
                right,
                nothing,
                nothing,
                sid,
            ]
        }),
{
    let nothing = Seq::<char>::empty();
    let one = seq!['A'];
    let start = text::split_on(one, ';');
    text::parts_make_up_the_text(one, ';');
    assert(start =~= seq![one]) by {
        text::split_of_extended(nothing, one, ';');
        assert(nothing + one =~= one);
        assert(text::split_on(nothing, ';') =~= seq![nothing]);
    }
    assert forall|i: int| 0 <= i < right.len() implies right[i] != ';' by {}
    assert forall|i: int| 0 <= i < sid.len() implies sid[i] != ';' by {
        assert(sid.contains(sid[i]));
    }
    let two = one + seq![';'] + nothing;
    text::split_of_next(one, nothing, ';');
    let three = two + seq![';'] + right;
    text::split_of_next(two, right, ';');
    let four = three + seq![';'] + nothing;
    text::split_of_next(three, nothing, ';');
    let five = four + seq![';'] + nothing;
    text::split_of_next(four, nothing, ';');
    text::split_of_next(five, sid, ';');
    assert(five + seq![';'] + sid =~= allowance(right, sid));
    assert(text::split_on(allowance(right, sid), ';') =~= seq![
        one,
        nothing,
        right,
        nothing,
        nothing,
        sid,
    ]);
}

/// A descriptor with one such entry and nothing else is accepted for its user.
pub proof fn one_allowance_is_accepted(right: Seq<char>, sid: Seq<char>)
    requires
        is_connecting(right),
        !sid.contains(';'),
        !sid.contains(')'),
    ensures
        scopes_to_user(seq!['D', ':', '('] + allowance(right, sid) + seq![')'], sid),
{
    let nothing = Seq::<char>::empty();
    let entry = allowance(right, sid);
    let all = seq!['D', ':', '('] + entry + seq![')'];
    let mark = seq!['D', ':'];
    let list = entry + seq![')'];
    fields_of_an_allowance(right, sid);
    only_plain_allowances_count(text::split_on(entry, ';'), sid);
    assert(all.subrange(0, 2) =~= mark);
    assert(text::occurs_at(all, mark, 0));
    assert(text::first_at(all, mark, 0));
    let i = choose|i: int| text::first_at(all, mark, i);
    text::first_occurrence_is_unique(all, mark, i, 0);
    assert(all.skip(2) =~= nothing + seq!['('] + list);
    text::split_where_the_pattern_stands(nothing, '(', list);
    assert(!entry.contains(')')) by {
        no_bracket_in_an_allowance(right, sid);
    }
    assert(entry + seq![')'] + nothing =~= list);
    text::split_where_the_pattern_stands(entry, ')', nothing);
    assert(text::trim(nothing) =~= nothing);
}

/// An allowance ends where its user does.
proof fn no_bracket_in_an_allowance(right: Seq<char>, sid: Seq<char>)
    requires
        is_connecting(right),
        !sid.contains(')'),
    ensures
        !allowance(right, sid).contains(')'),
{
    let entry = allowance(right, sid);
    assert forall|k: int| 0 <= k < entry.len() implies entry[k] != ')' by {
        let at = k - 6 - right.len();
        if at >= 0 {
            assert(entry[k] == sid[at]);
            assert(sid.contains(sid[at]));
        }
    }
}

/// A port stands in a list where one of its entries holds it; a single port stands
/// for itself, and a star for every port there is.
pub proof fn ports_stand_for_themselves(port: u16, other: int)
    ensures
        port > 0 ==> (port_range(text::decimal(port as nat)) matches Some(range) && (range.holds(
            other,
        ) <==> other == port)),
        port_range(text::decimal(0)) is None,
        in_port_list(seq!['*'], other) <==> 0 < other < 0x1_0000,
        is_port_list(seq!['*']),
{
    let written = text::decimal(port as nat);
    text::written_numbers_are_read_back(port as nat, 65535);
    text::written_numbers_are_read_back(0, 65535);
    no_dash_in_numbers(port as nat);
    no_dash_in_numbers(0);
    let star = seq!['*'];
    assert(text::trim_start(star) == star);
    assert(text::trim(star) == star);
}

/// Written numbers hold no dash.
proof fn no_dash_in_numbers(n: nat)
    ensures
        text::split_once(text::decimal(n), seq!['-']) is None,
{
    let written = text::decimal(n);
    text::written_numbers_are_read_back(n, n);
    text::splitting_once_takes_the_first(written, seq!['-']);
    assert forall|i: int| !text::occurs_at(written, seq!['-'], i) by {
        if text::occurs_at(written, seq!['-'], i) {
            assert(written.subrange(i, i + 1)[0] == '-');
            assert(text::is_digit(written[i]));
        }
    }
}

/// Whether a descriptor says one thing only of who may connect: one plain allowance
/// for a user, with nothing but white space around it.
pub open spec fn says_one_allowance(
    descriptor: Seq<char>,
    sid: Seq<char>,
    parts: (Seq<char>, Seq<char>, Seq<Seq<char>>, Seq<char>),
) -> bool {
    let (before, flags, fields, behind) = parts;
    &&& descriptor == before + seq!['D', ':'] + flags + seq!['('] + text::rejoined(fields, ';')
        + seq![')'] + behind
    &&& is_plain_allowance(fields, sid)
    &&& text::trim(flags).len() == 0 || text::trim(flags) == seq!['P']
    &&& forall|i: int| 0 <= i < behind.len() ==> text::is_white_space(#[trigger] behind[i])
}

/// Three pieces go together from either side.
proof fn three_go_together(a: Seq<char>, b: Seq<char>, c: Seq<char>)
    ensures
        a + b + c == a + (b + c),
{
    assert(a + b + c =~= a + (b + c));
}

/// Four pieces go together from either side.
proof fn pieces_go_together(a: Seq<char>, b: Seq<char>, c: Seq<char>, d: Seq<char>)
    ensures
        a + (b + (c + d)) == a + b + c + d,
{
    assert(a + (b + (c + d)) =~= a + b + c + d);
}

/// A descriptor is accepted for a user only where it says one allowance for them.
pub proof fn accepted_scopes_say_one_allowance(descriptor: Seq<char>, sid: Seq<char>)
    requires
        scopes_to_user(descriptor, sid),
    ensures
        exists|parts: (Seq<char>, Seq<char>, Seq<Seq<char>>, Seq<char>)| #[trigger]
            says_one_allowance(descriptor, sid, parts),
{
    let (before, dacl) = text::split_once(descriptor, seq!['D', ':'])->0;
    let (flags, list) = text::split_once(dacl, seq!['('])->0;
    let (entry, behind) = text::split_once(list, seq![')'])->0;
    let fields = text::split_on(entry, ';');
    text::splitting_once_takes_the_first(descriptor, seq!['D', ':']);
    text::splitting_once_takes_the_first(dacl, seq!['(']);
    text::splitting_once_takes_the_first(list, seq![')']);
    text::parts_make_up_the_text(entry, ';');
    text::trimming_takes_white_space_off(behind);
    only_plain_allowances_count(fields, sid);
    pieces_go_together(before + seq!['D', ':'], flags + seq!['('], entry + seq![')'], behind);
    assert(before + seq!['D', ':'] + flags + seq!['('] == before + seq!['D', ':'] + (flags
        + seq!['('])) by {
        three_go_together(before + seq!['D', ':'], flags, seq!['(']);
    }
    assert(before + seq!['D', ':'] + flags + seq!['('] + entry + seq![')'] == before + seq![
        'D',
        ':',
    ] + flags + seq!['('] + (entry + seq![')'])) by {
        three_go_together(
            before + seq!['D', ':'] + flags + seq!['('],
            entry,
            seq![')'],
        );
    }
    let (i, j) = choose|i: int, j: int| text::is_middle_of(text::trim(behind), behind, i, j);
    assert(i == j);
    assert(says_one_allowance(descriptor, sid, (before, flags, fields, behind)));
}

} // verus!
