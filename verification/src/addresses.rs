//! The textual forms of IPv4 and IPv6 addresses.

use vstd::prelude::*;

use crate::text;

verus! {

/// An address of one of the two Internet Protocol families, as a number.
#[derive(Clone, Copy, Debug, PartialEq, Eq, Structural)]
pub enum Address {
    /// A 32-bit address.
    V4(u32),
    /// A 128-bit address.
    V6(u128),
}

/// The number that one part of a dotted IPv4 address spells: one to three
/// decimal digits, without a leading zero.
pub open spec fn octet_value(s: Seq<char>) -> Option<u8> {
    if 1 <= s.len() <= 3 && text::all_digits(s) && (s.len() == 1 || s[0] != '0') && text::decimal_value(s)
        <= 255 {
        Some(text::decimal_value(s) as u8)
    } else {
        None
    }
}

/// The IPv4 address that a text spells: four octets with dots between them.
pub open spec fn ipv4_value(s: Seq<char>) -> Option<u32> {
    let parts = text::split_on(s, '.');
    if parts.len() == 4 {
        match (
            octet_value(parts[0]),
            octet_value(parts[1]),
            octet_value(parts[2]),
            octet_value(parts[3]),
        ) {
            (Some(a), Some(b), Some(c), Some(d)) => Some(
                (a * 0x100_0000 + b * 0x1_0000 + c * 0x100 + d) as u32,
            ),
            _ => None,
        }
    } else {
        None
    }
}

/// The value of one hexadecimal digit, in either case.
pub open spec fn hex_digit_value(c: char) -> Option<u8> {
    if '0' <= c <= '9' {
        Some((c as u32 - 48) as u8)
    } else if 'a' <= c <= 'f' {
        Some((c as u32 - 87) as u8)
    } else if 'A' <= c <= 'F' {
        Some((c as u32 - 55) as u8)
    } else {
        None
    }
}

/// The number that hexadecimal digits spell.
pub open spec fn hex_value(s: Seq<char>) -> Option<nat>
    decreases s.len(),
{
    if s.len() == 0 {
        Some(0)
    } else {
        match (hex_value(s.drop_last()), hex_digit_value(s.last())) {
            (Some(head), Some(digit)) => Some(16 * head + digit as nat),
            _ => None,
        }
    }
}

/// The 16-bit group that one to four hexadecimal digits spell.
pub open spec fn group_value(s: Seq<char>) -> Option<u16> {
    if 1 <= s.len() <= 4 {
        match hex_value(s) {
            Some(value) => Some(value as u16),
            None => None,
        }
    } else {
        None
    }
}

/// The 16-bit groups that the parts between colons spell; where `with_ipv4`
/// holds, the last part may be a dotted IPv4 address, which makes two groups.
pub open spec fn groups(parts: Seq<Seq<char>>, with_ipv4: bool) -> Option<Seq<u16>>
    decreases parts.len(),
{
    if parts.len() == 0 {
        Some(Seq::empty())
    } else {
        match groups(parts.drop_last(), false) {
            None => None,
            Some(head) => if with_ipv4 && ipv4_value(parts.last()) is Some {
                let address = ipv4_value(parts.last())->0;
                Some(head.push((address / 0x1_0000) as u16).push((address % 0x1_0000) as u16))
            } else {
                match group_value(parts.last()) {
                    Some(group) => Some(head.push(group)),
                    None => None,
                }
            },
        }
    }
}

/// The groups of a possibly empty text.
pub open spec fn group_list(s: Seq<char>, with_ipv4: bool) -> Option<Seq<u16>> {
    if s.len() == 0 {
        Some(Seq::empty())
    } else {
        groups(text::split_on(s, ':'), with_ipv4)
    }
}

/// The number that 16-bit groups make up, most significant group first.
pub open spec fn groups_value(groups: Seq<u16>) -> nat
    decreases groups.len(),
{
    if groups.len() == 0 {
        0
    } else {
        0x1_0000 * groups_value(groups.drop_last()) + groups.last() as nat
    }
}

/// The eight groups of an IPv6 address: all of them written out, or at most
/// seven around one `::` that stands for the missing zero groups.
pub open spec fn ipv6_groups(s: Seq<char>) -> Option<Seq<u16>> {
    match text::split_once(s, seq![':', ':']) {
        None => match group_list(s, true) {
            Some(all) => if all.len() == 8 {
                Some(all)
            } else {
                None
            },
            None => None,
        },
        Some((before, after)) => match (group_list(before, false), group_list(after, true)) {
            (Some(head), Some(tail)) => if head.len() + tail.len() <= 7 {
                Some(head + Seq::new((8 - head.len() - tail.len()) as nat, |i: int| 0u16) + tail)
            } else {
                None
            },
            _ => None,
        },
    }
}

/// The IPv6 address that a text spells.
pub open spec fn ipv6_value(s: Seq<char>) -> Option<u128> {
    match ipv6_groups(s) {
        Some(groups) => Some(groups_value(groups) as u128),
        None => None,
    }
}

/// The address that a text spells, in either family.
pub open spec fn address_value(s: Seq<char>) -> Option<Address> {
    match ipv4_value(s) {
        Some(value) => Some(Address::V4(value)),
        None => match ipv6_value(s) {
            Some(value) => Some(Address::V6(value)),
            None => None,
        },
    }
}

/// The number that one part of a dotted IPv4 address spells.
fn parse_octet(chars: &[char]) -> (value: Option<u8>)
    ensures
        value == octet_value(chars@),
{
    if chars.len() == 0 || chars.len() > 3 || chars[0] == '+' {
        assert(chars@.len() > 0 ==> text::is_digit(chars@[0]) ==> chars@[0] != '+');
        return None;
    }
    if chars.len() > 1 && chars[0] == '0' {
        return None;
    }
    assert(text::unsigned_digits(chars@) == chars@);
    match text::unsigned(chars, 255) {
        Some(value) => Some(value as u8),
        None => None,
    }
}

/// The IPv4 address that a text spells.
pub fn parse_ipv4(chars: &[char]) -> (value: Option<u32>)
    ensures
        value == ipv4_value(chars@),
{
    let parts = text::split(chars, '.');
    let ghost spelled = text::split_on(chars@, '.');
    assert(spelled.len() == parts@.len());
    if parts.len() != 4 {
        return None;
    }
    assert forall|i: int| 0 <= i < 4 implies parts@[i]@ == #[trigger] spelled[i] by {
        assert(text::contents(parts@)[i] == parts@[i]@);
    }
    match (
        parse_octet(&parts[0]),
        parse_octet(&parts[1]),
        parse_octet(&parts[2]),
        parse_octet(&parts[3]),
    ) {
        (Some(a), Some(b), Some(c), Some(d)) => Some(
            a as u32 * 0x100_0000 + b as u32 * 0x1_0000 + c as u32 * 0x100 + d as u32,
        ),
        _ => None,
    }
}

/// The value of one hexadecimal digit.
fn parse_hex_digit(c: char) -> (value: Option<u8>)
    ensures
        value == hex_digit_value(c),
{
    if '0' <= c && c <= '9' {
        Some(c as u8 - 48)
    } else if 'a' <= c && c <= 'f' {
        Some(c as u8 - 87)
    } else if 'A' <= c && c <= 'F' {
        Some(c as u8 - 55)
    } else {
        None
    }
}

/// A text with a character that is no hexadecimal digit spells no number.
proof fn hex_value_needs_digits(s: Seq<char>, i: int)
    requires
        0 <= i < s.len(),
        hex_digit_value(s[i]) is None,
    ensures
        hex_value(s) is None,
    decreases s.len(),
{
    if i < s.len() - 1 {
        hex_value_needs_digits(s.drop_last(), i);
    }
}

/// The 16-bit group that one to four hexadecimal digits spell.
fn parse_group(chars: &[char]) -> (value: Option<u16>)
    ensures
        value == group_value(chars@),
{
    if chars.len() == 0 || chars.len() > 4 {
        return None;
    }
    let mut value: u32 = 0;
    for i in 0..chars.len()
        invariant
            1 <= chars@.len() <= 4,
            hex_value(chars@.take(i as int)) == Some(value as nat),
            i == 0 ==> value == 0,
            i == 1 ==> value < 16,
            i == 2 ==> value < 256,
            i == 3 ==> value < 4096,
            i == 4 ==> value < 65536,
    {
        assert(chars@.take(i + 1).drop_last() =~= chars@.take(i as int));
        match parse_hex_digit(chars[i]) {
            Some(digit) => {
                value = 16 * value + digit as u32;
            },
            None => {
                proof {
                    hex_value_needs_digits(chars@, i as int);
                }
                return None;
            },
        }
    }
    assert(chars@.take(chars@.len() as int) =~= chars@);
    Some(value as u16)
}

/// Parts of which a shorter beginning spells no groups spell none either.
proof fn groups_need_every_part(parts: Seq<Seq<char>>, i: int, with_ipv4: bool)
    requires
        0 <= i < parts.len() - 1,
        groups(parts.take(i + 1), false) is None,
    ensures
        groups(parts, with_ipv4) is None,
    decreases parts.len(),
{
    if i == parts.len() - 2 {
        assert(parts.drop_last() =~= parts.take(i + 1));
    } else {
        assert(parts.drop_last().take(i + 1) =~= parts.take(i + 1));
        groups_need_every_part(parts.drop_last(), i, false);
    }
}

/// The 16-bit groups that the parts between colons spell.
fn parse_groups(chars: &[char], with_ipv4: bool) -> (value: Option<Vec<u16>>)
    ensures
        match value {
            Some(value) => group_list(chars@, with_ipv4) == Some(value@),
            None => group_list(chars@, with_ipv4) is None,
        },
{
    let mut value: Vec<u16> = Vec::new();
    if chars.len() == 0 {
        return Some(value);
    }
    let parts = text::split(chars, ':');
    let ghost spelled = text::split_on(chars@, ':');
    assert(text::contents(parts@) == spelled);
    let last: usize = parts.len() - 1;
    assert(groups(spelled.take(0), false) == Some(Seq::<u16>::empty()));
    for i in 0..last
        invariant
            last == parts@.len() - 1,
            text::contents(parts@) == spelled,
            spelled == text::split_on(chars@, ':'),
            chars@.len() > 0,
            groups(spelled.take(i as int), false) == Some(value@),
    {
        assert(spelled[i as int] == parts@[i as int]@);
        assert(spelled.take(i + 1).drop_last() =~= spelled.take(i as int));
        assert(spelled.take(i + 1).last() == spelled[i as int]);
        match parse_group(&parts[i]) {
            Some(group) => {
                value.push(group);
            },
            None => {
                proof {
                    groups_need_every_part(spelled, i as int, with_ipv4);
                }
                return None;
            },
        }
    }
    assert(spelled.drop_last() =~= spelled.take(last as int));
    assert(spelled.last() == parts@[last as int]@);
    if with_ipv4 {
        match parse_ipv4(&parts[last]) {
            Some(address) => {
                value.push((address / 0x1_0000) as u16);
                value.push((address % 0x1_0000) as u16);
                return Some(value);
            },
            None => {},
        }
    }
    match parse_group(&parts[last]) {
        Some(group) => {
            value.push(group);
            Some(value)
        },
        None => None,
    }
}

/// The number that eight 16-bit groups make up.
fn combine(groups: &Vec<u16>) -> (value: u128)
    requires
        groups@.len() == 8,
    ensures
        value == groups_value(groups@),
{
    let mut value: u128 = 0;
    for i in 0..8usize
        invariant
            groups@.len() == 8,
            value == groups_value(groups@.take(i as int)),
            i == 0 ==> value == 0,
            i == 1 ==> value < 0x1_0000,
            i == 2 ==> value < 0x1_0000_0000,
            i == 3 ==> value < 0x1_0000_0000_0000,
            i == 4 ==> value < 0x1_0000_0000_0000_0000,
            i == 5 ==> value < 0x1_0000_0000_0000_0000_0000,
            i == 6 ==> value < 0x1_0000_0000_0000_0000_0000_0000,
            i == 7 ==> value < 0x1_0000_0000_0000_0000_0000_0000_0000,
    {
        assert(groups@.take(i + 1).drop_last() =~= groups@.take(i as int));
        value = 0x1_0000 * value + groups[i] as u128;
    }
    assert(groups@.take(8) =~= groups@);
    value
}

/// The IPv6 address that a text spells.
pub fn parse_ipv6(chars: &[char]) -> (value: Option<u128>)
    ensures
        value == ipv6_value(chars@),
{
    let colons: [char; 2] = [':', ':'];
    assert(colons@ =~= seq![':', ':']);
    match text::split_at_first(chars, &colons) {
        None => match parse_groups(chars, true) {
            Some(all) => if all.len() == 8 {
                Some(combine(&all))
            } else {
                None
            },
            None => None,
        },
        Some((before, after)) => {
            let head = parse_groups(&before, false);
            let tail = parse_groups(&after, true);
            match (head, tail) {
                (Some(head), Some(tail)) => {
                    if head.len() > 7 || tail.len() > 7 || head.len() + tail.len() > 7 {
                        return None;
                    }
                    let zeros: usize = 8 - head.len() - tail.len();
                    let mut all: Vec<u16> = Vec::new();
                    for i in 0..head.len()
                        invariant
                            all@ == head@.take(i as int),
                    {
                        all.push(head[i]);
                    }
                    assert(head@.take(head@.len() as int) =~= head@);
                    for i in 0..zeros
                        invariant
                            all@ == head@ + Seq::new(i as nat, |k: int| 0u16),
                    {
                        all.push(0);
                        assert(all@ =~= head@ + Seq::new((i + 1) as nat, |k: int| 0u16));
                    }
                    let ghost front = all@;
                    for i in 0..tail.len()
                        invariant
                            all@ == front + tail@.take(i as int),
                    {
                        all.push(tail[i]);
                        assert(all@ =~= front + tail@.take(i + 1));
                    }
                    assert(tail@.take(tail@.len() as int) =~= tail@);
                    Some(combine(&all))
                },
                _ => None,
            }
        },
    }
}

/// The address that a text spells, in either family.
pub fn parse_address(chars: &[char]) -> (address: Option<Address>)
    ensures
        address == address_value(chars@),
{
    match parse_ipv4(chars) {
        Some(value) => Some(Address::V4(value)),
        None => match parse_ipv6(chars) {
            Some(value) => Some(Address::V6(value)),
            None => None,
        },
    }
}

/// An address of four bytes as it is written: its bytes from the highest on, with
/// dots between them.
pub open spec fn dotted(n: u32) -> Seq<char> {
    text::rejoined(
        seq![
            text::decimal((n / 0x100_0000) as nat),
            text::decimal((n / 0x1_0000 % 0x100) as nat),
            text::decimal((n / 0x100 % 0x100) as nat),
            text::decimal((n % 0x100) as nat),
        ],
        '.',
    )
}

/// A number of one byte is read as it is written, and in no other way.
proof fn octets_are_written_numbers(s: Seq<char>, n: u8)
    ensures
        octet_value(s) == Some(n) <==> s == text::decimal(n as nat),
{
    text::written_numbers_are_read_back(n as nat, 255);
    reveal_with_fuel(text::decimal, 4);
    if octet_value(s) == Some(n) {
        text::digits_are_written_numbers(s);
    }
    if s == text::decimal(n as nat) {
        assert(s.len() <= 3);
    }
}

/// A text is an address of four bytes exactly where it is how that address is
/// written: four numbers without zeros in front, none above 255.
pub proof fn dotted_addresses_are_read_back(s: Seq<char>, n: u32)
    ensures
        ipv4_value(s) == Some(n) <==> s == dotted(n),
{
    let (a, b, c, d) = (
        (n / 0x100_0000) as u8,
        (n / 0x1_0000 % 0x100) as u8,
        (n / 0x100 % 0x100) as u8,
        (n % 0x100) as u8,
    );
    let written = seq![
        text::decimal(a as nat),
        text::decimal(b as nat),
        text::decimal(c as nat),
        text::decimal(d as nat),
    ];
    assert(n == a * 0x100_0000 + b * 0x1_0000 + c * 0x100 + d);
    let parts = text::split_on(s, '.');
    text::parts_make_up_the_text(s, '.');
    if s == dotted(n) {
        assert forall|i: int| 0 <= i < written.len() implies !(#[trigger] written[i]).contains(
            '.',
        ) by {
            no_dot_in_numbers(a as nat);
            no_dot_in_numbers(b as nat);
            no_dot_in_numbers(c as nat);
            no_dot_in_numbers(d as nat);
        }
        text::rejoined_parts_are_found(written, '.');
        assert(parts == written);
        octets_are_written_numbers(parts[0], a);
        octets_are_written_numbers(parts[1], b);
        octets_are_written_numbers(parts[2], c);
        octets_are_written_numbers(parts[3], d);
    }
    if ipv4_value(s) == Some(n) {
        let (w, x, y, z) = (
            octet_value(parts[0])->0,
            octet_value(parts[1])->0,
            octet_value(parts[2])->0,
            octet_value(parts[3])->0,
        );
        assert(w * 0x100_0000 + x * 0x1_0000 + y * 0x100 + z <= u32::MAX);
        assert(n == w * 0x100_0000 + x * 0x1_0000 + y * 0x100 + z);
        assert(w == a && x == b && y == c && z == d);
        octets_are_written_numbers(parts[0], a);
        octets_are_written_numbers(parts[1], b);
        octets_are_written_numbers(parts[2], c);
        octets_are_written_numbers(parts[3], d);
        assert(parts =~= written);
    }
}

/// Written numbers hold digits only.
proof fn no_dot_in_numbers(n: nat)
    ensures
        !text::decimal(n).contains('.'),
{
    text::written_numbers_are_read_back(n, n);
    let s = text::decimal(n);
    assert forall|i: int| 0 <= i < s.len() implies s[i] != '.' by {
        assert(text::is_digit(s[i]));
    }
}

/// Parts are read one by one, and none of them may be anything but a group.
proof fn groups_are_read_one_by_one(parts: Seq<Seq<char>>)
    ensures
        groups(parts, false) is Some <==> forall|k: int|
            0 <= k < parts.len() ==> group_value(#[trigger] parts[k]) is Some,
        groups(parts, false) matches Some(list) ==> list.len() == parts.len() && forall|k: int|
            0 <= k < parts.len() ==> group_value(#[trigger] parts[k]) == Some(list[k]),
    decreases parts.len(),
{
    if parts.len() > 0 {
        let front = parts.drop_last();
        groups_are_read_one_by_one(front);
        assert(forall|k: int| 0 <= k < front.len() ==> #[trigger] front[k] == parts[k]);
        assert(forall|k: int| 0 <= k < front.len() ==> #[trigger] parts[k] == front[k]);
        assert(parts[parts.len() - 1] == parts.last());
    }
}

/// The groups that a text behind stands for, counted from its end: one for each part,
/// or two for a last part that is an address of four bytes.
pub open spec fn ends_with_groups(list: Seq<u16>, parts: Seq<Seq<char>>) -> bool {
    let n = parts.len() as int;
    match ipv4_value(parts.last()) {
        Some(address) => {
            &&& n + 1 <= list.len()
            &&& list[list.len() - 2] == address / 0x1_0000
            &&& list[list.len() - 1] == address % 0x1_0000
            &&& forall|k: int|
                0 <= k < n - 1 ==> group_value(#[trigger] parts[k]) == Some(
                    list[list.len() - n - 1 + k],
                )
        },
        None => {
            &&& n <= list.len()
            &&& forall|k: int|
                0 <= k < n ==> group_value(#[trigger] parts[k]) == Some(list[list.len() - n + k])
        },
    }
}

/// Parts whose last may be an address of four bytes end as they are read.
proof fn groups_end_as_they_are_read(parts: Seq<Seq<char>>)
    requires
        parts.len() > 0,
    ensures
        groups(parts, true) matches Some(list) ==> ends_with_groups(list, parts) && list.len()
            == parts.len() + (if ipv4_value(parts.last()) is Some {
            1int
        } else {
            0
        }),
{
    let front = parts.drop_last();
    groups_are_read_one_by_one(front);
    assert(forall|k: int| 0 <= k < front.len() ==> #[trigger] parts[k] == front[k]);
    assert(parts[parts.len() - 1] == parts.last());
}

/// An address of sixteen bytes is eight groups. Written without a gap it is each of
/// them in order; with a gap it starts with those before it, ends with those behind it,
/// and zeros, one at least, fill it up.
pub proof fn long_addresses_are_eight_groups(s: Seq<char>, before: Seq<char>, behind: Seq<char>)
    requires
        ipv6_groups(s) is Some,
    ensures
        ipv6_groups(s)->0.len() == 8,
        text::split_once(s, seq![':', ':']) is None ==> s.len() > 0 && ends_with_groups(
            ipv6_groups(s)->0,
            text::split_on(s, ':'),
        ) && text::split_on(s, ':').len() == (if ipv4_value(text::split_on(s, ':').last()) is Some {
            7int
        } else {
            8
        }),
        text::split_once(s, seq![':', ':']) == Some((before, behind)) ==> {
            let list = ipv6_groups(s)->0;
            let head = if before.len() == 0 {
                0
            } else {
                text::split_on(before, ':').len() as int
            };
            let tail = if behind.len() == 0 {
                0
            } else {
                text::split_on(behind, ':').len() + (if ipv4_value(
                    text::split_on(behind, ':').last(),
                ) is Some {
                    1int
                } else {
                    0
                })
            };
            &&& head + tail < 8
            &&& behind.len() > 0 ==> ends_with_groups(list, text::split_on(behind, ':'))
            &&& forall|k: int|
                0 <= k < head ==> group_value(#[trigger] text::split_on(before, ':')[k]) == Some(
                    list[k],
                )
            &&& forall|k: int| head <= k < 8 - tail ==> #[trigger] list[k] == 0
        },
{
    text::parts_make_up_the_text(s, ':');
    text::parts_make_up_the_text(before, ':');
    text::parts_make_up_the_text(behind, ':');
    groups_end_as_they_are_read(text::split_on(s, ':'));
    groups_are_read_one_by_one(text::split_on(before, ':'));
    groups_end_as_they_are_read(text::split_on(behind, ':'));
}

/// A group is one to four hexadecimal digits of either case.
pub proof fn groups_are_short(s: Seq<char>)
    ensures
        group_value(s) is Some <==> 1 <= s.len() <= 4 && forall|i: int|
            0 <= i < s.len() ==> ('0' <= #[trigger] s[i] <= '9' || 'a' <= s[i] <= 'f' || 'A' <= s[i]
                <= 'F'),
{
    digits_make_a_value(s);
}

/// Text has a value where all of it is digits.
proof fn digits_make_a_value(s: Seq<char>)
    ensures
        hex_value(s) is Some <==> forall|i: int|
            0 <= i < s.len() ==> ('0' <= #[trigger] s[i] <= '9' || 'a' <= s[i] <= 'f' || 'A' <= s[i]
                <= 'F'),
    decreases s.len(),
{
    if s.len() > 0 {
        let front = s.drop_last();
        digits_make_a_value(front);
        assert(forall|i: int| 0 <= i < front.len() ==> #[trigger] front[i] == s[i]);
        assert(forall|i: int| 0 <= i < front.len() ==> #[trigger] s[i] == front[i]);
        assert(s[s.len() - 1] == s.last());
    }
}

/// Eight groups make up an address from the highest on, each worth sixteen bits.
pub proof fn groups_count_from_the_highest(list: Seq<u16>)
    requires
        list.len() == 8,
    ensures
        groups_value(list) == 0x1_0000_0000_0000_0000_0000_0000_0000 * list[0]
            + 0x1_0000_0000_0000_0000_0000_0000 * list[1] + 0x1_0000_0000_0000_0000_0000 * list[2]
            + 0x1_0000_0000_0000_0000 * list[3] + 0x1_0000_0000_0000 * list[4] + 0x1_0000_0000
            * list[5] + 0x1_0000 * list[6] + list[7],
{
    reveal_with_fuel(groups_value, 9);
}

} // verus!
