//! Text as UTF-16 code units, in the strict and the lossy reading.

use vstd::prelude::*;

use crate::text;

verus! {

/// Converts a number to the character with that code point
/// (`char::from_u32`).
///
/// The standard library documents that the result is a character exactly
/// where the number is a Unicode scalar value, and that the character then
/// has that number.
pub assume_specification[ char::from_u32 ](number: u32) -> (result: Option<char>)
    ensures
        result is Some <==> number < 0xd800 || 0xe000 <= number <= 0x10ffff,
        result matches Some(c) ==> c == number as char,
;

/// The UTF-16 code units of one character.
pub open spec fn encode_char(c: char) -> Seq<u16> {
    let number = c as u32;
    if number < 0x1_0000 {
        seq![number as u16]
    } else {
        seq![
            (0xd800 + (number - 0x1_0000) / 0x400) as u16,
            (0xdc00 + (number - 0x1_0000) % 0x400) as u16,
        ]
    }
}

/// The UTF-16 code units of a text.
pub open spec fn encode(s: Seq<char>) -> Seq<u16>
    decreases s.len(),
{
    if s.len() == 0 {
        Seq::empty()
    } else {
        encode(s.drop_last()) + encode_char(s.last())
    }
}

/// Whether a code unit is the first half of a surrogate pair.
pub open spec fn is_high(unit: u16) -> bool {
    0xd800 <= unit <= 0xdbff
}

/// Whether a code unit is the second half of a surrogate pair.
pub open spec fn is_low(unit: u16) -> bool {
    0xdc00 <= unit <= 0xdfff
}

/// The character that a surrogate pair stands for.
pub open spec fn pair_char(high: u16, low: u16) -> char {
    (0x1_0000 + (high - 0xd800) * 0x400 + (low - 0xdc00)) as char
}

/// The first character of a sequence of units and the units that it takes;
/// no character where the sequence starts with an unpaired surrogate.
pub open spec fn first_char(units: Seq<u16>) -> (Option<char>, int) {
    if !is_high(units[0]) && !is_low(units[0]) {
        (Some(units[0] as char), 1)
    } else if is_high(units[0]) && units.len() > 1 && is_low(units[1]) {
        (Some(pair_char(units[0], units[1])), 2)
    } else {
        (None, 1)
    }
}

/// The text that code units spell; none where a surrogate is unpaired.
pub open spec fn decode(units: Seq<u16>) -> Option<Seq<char>>
    decreases units.len(),
{
    if units.len() == 0 {
        Some(Seq::empty())
    } else {
        let (first, taken) = first_char(units);
        match (first, decode(units.skip(taken))) {
            (Some(c), Some(rest)) => Some(seq![c] + rest),
            _ => None,
        }
    }
}

/// The text that code units spell, with a replacement character for every
/// unpaired surrogate.
pub open spec fn decode_lossy(units: Seq<u16>) -> Seq<char>
    decreases units.len(),
{
    if units.len() == 0 {
        Seq::empty()
    } else {
        let (first, taken) = first_char(units);
        let c = match first {
            Some(c) => c,
            None => '\u{fffd}',
        };
        seq![c] + decode_lossy(units.skip(taken))
    }
}

/// The code units of a text put together are those of its parts.
proof fn encode_concat(a: Seq<char>, b: Seq<char>)
    ensures
        encode(a + b) == encode(a) + encode(b),
    decreases b.len(),
{
    if b.len() == 0 {
        assert(a + b =~= a);
        assert(encode(a) + encode(b) =~= encode(a));
    } else {
        assert((a + b).drop_last() =~= a + b.drop_last());
        encode_concat(a, b.drop_last());
        assert(encode(a + b) =~= encode(a) + encode(b));
    }
}

/// Decoding the code units of one character in front of others gives that
/// character.
proof fn first_char_of_encoded(c: char, rest: Seq<u16>)
    ensures
        first_char(encode_char(c) + rest) == (Some(c), encode_char(c).len() as int),
{
    let number = c as u32;
    if number >= 0x1_0000 {
        let v = number - 0x1_0000;
        assert(v / 0x400 * 0x400 + v % 0x400 == v);
    }
}

/// Decoding what encoding gave returns the text.
pub proof fn decode_of_encode(s: Seq<char>)
    ensures
        decode(encode(s)) == Some(s),
    decreases s.len(),
{
    if s.len() == 0 {
        assert(s =~= Seq::empty());
    } else {
        let head = seq![s[0]];
        let tail = s.skip(1);
        assert(s =~= head + tail);
        encode_concat(head, tail);
        assert(head.drop_last() =~= Seq::<char>::empty());
        reveal_with_fuel(encode, 2);
        assert(encode(head) =~= encode_char(s[0]));
        decode_of_encode(tail);
        first_char_of_encoded(s[0], encode(tail));
        assert((encode_char(s[0]) + encode(tail)).skip(encode_char(s[0]).len() as int) =~= encode(
            tail,
        ));
    }
}

/// Encoding what decoding gave returns the code units.
pub proof fn encode_of_decode(units: Seq<u16>)
    ensures
        decode(units) matches Some(s) ==> encode(s) == units,
    decreases units.len(),
{
    if units.len() > 0 && decode(units) is Some {
        let (first, taken) = first_char(units);
        let rest = units.skip(taken);
        encode_of_decode(rest);
        let c = first->0;
        let s = decode(rest)->0;
        let head = seq![c];
        encode_concat(head, s);
        assert(head.drop_last() =~= Seq::<char>::empty());
        reveal_with_fuel(encode, 2);
        assert(encode(head) =~= encode_char(c));
        if taken == 2 {
            let v = (units[0] - 0xd800) * 0x400 + (units[1] - 0xdc00);
            assert(v / 0x400 == units[0] - 0xd800);
            assert(v % 0x400 == units[1] - 0xdc00);
        }
        assert(encode_char(c) + rest =~= units);
    } else if units.len() == 0 {
        assert(encode(Seq::empty()) =~= units);
    }
}

/// The UTF-16 code units of a text.
pub fn encode_text(value: &str) -> (units: Vec<u16>)
    ensures
        units@ == encode(value@),
{
    let chars = text::chars_of(value);
    let mut units: Vec<u16> = Vec::new();
    for i in 0..chars.len()
        invariant
            chars@ == value@,
            units@ == encode(chars@.take(i as int)),
    {
        assert(chars@.take(i + 1).drop_last() =~= chars@.take(i as int));
        let ghost before = units@;
        let number: u32 = chars[i] as u32;
        if number < 0x1_0000 {
            units.push(number as u16);
        } else {
            units.push((0xd800 + (number - 0x1_0000) / 0x400) as u16);
            units.push((0xdc00 + (number - 0x1_0000) % 0x400) as u16);
        }
        assert(units@ =~= before + encode_char(chars@[i as int]));
    }
    assert(chars@.take(chars@.len() as int) =~= chars@);
    units
}

/// The first character from a position on and the number of units it takes.
fn char_at(units: &[u16], i: usize) -> (result: (Option<char>, usize))
    requires
        i < units@.len(),
    ensures
        result.0 == first_char(units@.skip(i as int)).0,
        result.1 == first_char(units@.skip(i as int)).1,
        i + result.1 <= units@.len(),
        result.1 >= 1,
{
    let ghost rest = units@.skip(i as int);
    let first = units[i];
    assert(rest[0] == first);
    if first < 0xd800 || 0xdfff < first {
        let c = char::from_u32(first as u32);
        assert(c->0 == first as char);
        (c, 1)
    } else if first <= 0xdbff && i + 1 < units.len() && 0xdc00 <= units[i + 1] && units[i + 1]
        <= 0xdfff {
        assert(rest[1] == units@[i + 1]);
        let number: u32 = 0x1_0000 + (first as u32 - 0xd800) * 0x400 + (units[i + 1] as u32
            - 0xdc00);
        let c = char::from_u32(number);
        assert(c->0 == pair_char(rest[0], rest[1]));
        (c, 2)
    } else {
        (None, 1)
    }
}

/// The text that code units spell; none where a surrogate is unpaired.
pub fn decode_units(units: &[u16]) -> (chars: Option<Vec<char>>)
    ensures
        match chars {
            Some(chars) => decode(units@) == Some(chars@),
            None => decode(units@) is None,
        },
{
    let mut chars: Vec<char> = Vec::new();
    let mut i: usize = 0;
    assert(units@.skip(0) =~= units@);
    while i < units.len()
        invariant
            i <= units@.len(),
            match decode(units@.skip(i as int)) {
                Some(rest) => decode(units@) == Some(chars@ + rest),
                None => decode(units@) is None,
            },
        decreases units@.len() - i,
    {
        let (c, taken) = char_at(units, i);
        let ghost before = chars@;
        assert(units@.skip(i as int).skip(taken as int) =~= units@.skip(i + taken));
        match c {
            Some(c) => {
                chars.push(c);
                proof {
                    if decode(units@.skip(i + taken)) is Some {
                        let rest = decode(units@.skip(i + taken))->0;
                        assert(before + (seq![c] + rest) =~= chars@ + rest);
                    }
                }
            },
            None => {
                return None;
            },
        }
        i = i + taken;
    }
    assert(chars@ + Seq::<char>::empty() =~= chars@);
    Some(chars)
}

/// The text that code units spell, with a replacement character for every
/// unpaired surrogate.
pub fn decode_units_lossy(units: &[u16]) -> (value: String)
    ensures
        value@ == decode_lossy(units@),
{
    let mut value = String::new();
    let mut i: usize = 0;
    assert(units@.skip(0) =~= units@);
    while i < units.len()
        invariant
            i <= units@.len(),
            value@ + decode_lossy(units@.skip(i as int)) == decode_lossy(units@),
        decreases units@.len() - i,
    {
        let (c, taken) = char_at(units, i);
        let ghost before = value@;
        let ghost rest = decode_lossy(units@.skip(i + taken));
        assert(units@.skip(i as int).skip(taken as int) =~= units@.skip(i + taken));
        let c = match c {
            Some(c) => c,
            None => '\u{fffd}',
        };
        value.push(c);
        assert(before + (seq![c] + rest) =~= value@ + rest);
        i = i + taken;
    }
    assert(value@ + Seq::<char>::empty() =~= value@);
    value
}

/// The lossy reading gives back what was written, and what the strict reading gives
/// wherever that gives something. It never gives nothing for something.
pub proof fn lossy_reading_loses_only_halves(s: Seq<char>, units: Seq<u16>)
    ensures
        decode_lossy(encode(s)) == s,
        decode(units) matches Some(read) ==> decode_lossy(units) == read,
        units.len() > 0 <==> decode_lossy(units).len() > 0,
        decode(units) is None ==> decode_lossy(units).contains('\u{fffd}'),
{
    decode_of_encode(s);
    lossy_is_strict(encode(s));
    lossy_is_strict(units);
}

/// The two readings agree where the strict one gives something.
proof fn lossy_is_strict(units: Seq<u16>)
    ensures
        decode(units) matches Some(read) ==> decode_lossy(units) == read,
        decode(units) is None ==> decode_lossy(units).contains('\u{fffd}'),
    decreases units.len(),
{
    if units.len() > 0 {
        let (first, taken) = first_char(units);
        lossy_is_strict(units.skip(taken));
        let rest = decode_lossy(units.skip(taken));
        let all = decode_lossy(units);
        if first is None {
            assert(all[0] == '\u{fffd}');
        } else if decode(units.skip(taken)) is None {
            let i = choose|i: int| 0 <= i < rest.len() && rest[i] == '\u{fffd}';
            assert(all[i + 1] == '\u{fffd}');
        }
    }
}

} // verus!
