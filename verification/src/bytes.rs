//! Numbers as bytes, least significant byte first.

use vstd::prelude::*;

verus! {

/// The bytes of a number, least significant first.
pub open spec fn little_endian(n: nat, width: nat) -> Seq<u8>
    decreases width,
{
    if width == 0 {
        Seq::empty()
    } else {
        seq![(n % 256) as u8] + little_endian(n / 256, (width - 1) as nat)
    }
}

/// The number that bytes make up, least significant first.
pub open spec fn little_endian_value(bytes: Seq<u8>) -> nat
    decreases bytes.len(),
{
    if bytes.len() == 0 {
        0
    } else {
        bytes[0] as nat + 256 * little_endian_value(bytes.skip(1))
    }
}

/// A number that fits in the width is what its bytes make up.
pub proof fn value_of_little_endian(n: nat, width: nat)
    ensures
        little_endian(n, width).len() == width,
        n < vstd::arithmetic::power::pow(256, width) ==> little_endian_value(
            little_endian(n, width),
        ) == n,
    decreases width,
{
    reveal(vstd::arithmetic::power::pow);
    if width > 0 {
        value_of_little_endian(n / 256, (width - 1) as nat);
        let bytes = little_endian(n, width);
        assert(bytes.skip(1) =~= little_endian(n / 256, (width - 1) as nat));
        if n < vstd::arithmetic::power::pow(256, width) {
            assert(vstd::arithmetic::power::pow(256, width) == 256 * vstd::arithmetic::power::pow(
                256,
                (width - 1) as nat,
            ));
        }
    }
}

/// Bytes are those of the number that they make up.
pub proof fn little_endian_of_value(bytes: Seq<u8>)
    ensures
        little_endian(little_endian_value(bytes), bytes.len()) == bytes,
    decreases bytes.len(),
{
    if bytes.len() > 0 {
        little_endian_of_value(bytes.skip(1));
        let value = little_endian_value(bytes);
        assert(value % 256 == bytes[0]);
        assert(value / 256 == little_endian_value(bytes.skip(1)));
        assert(little_endian(value, bytes.len()) =~= bytes);
    } else {
        assert(little_endian(little_endian_value(bytes), 0) =~= bytes);
    }
}

/// Appends the bytes of a number.
pub fn push_little_endian(bytes: &mut Vec<u8>, n: u64, width: usize)
    ensures
        final(bytes)@ == old(bytes)@ + little_endian(n as nat, width as nat),
{
    let ghost before = bytes@;
    let ghost whole = little_endian(n as nat, width as nat);
    let mut rest: u64 = n;
    let mut left: usize = width;
    assert(before + whole =~= bytes@ + little_endian(rest as nat, left as nat));
    while left > 0
        invariant
            bytes@ + little_endian(rest as nat, left as nat) == before + whole,
            before == old(bytes)@,
            whole == little_endian(n as nat, width as nat),
        decreases left,
    {
        let ghost held = bytes@;
        let ghost tail = little_endian((rest / 256) as nat, (left - 1) as nat);
        bytes.push((rest % 256) as u8);
        assert(held + little_endian(rest as nat, left as nat) =~= bytes@ + tail);
        rest = rest / 256;
        left = left - 1;
    }
    assert(bytes@ + Seq::<u8>::empty() =~= bytes@);
}

/// The number that four bytes make up, least significant first.
pub fn read_u32(bytes: &[u8]) -> (value: u32)
    requires
        bytes@.len() == 4,
    ensures
        value == little_endian_value(bytes@),
{
    proof {
        reveal_with_fuel(little_endian_value, 5);
        let s = bytes@;
        assert(s.skip(1).skip(1) =~= s.skip(2));
        assert(s.skip(2).skip(1) =~= s.skip(3));
        assert(s.skip(3).skip(1) =~= s.skip(4));
    }
    bytes[0] as u32 + 0x100 * (bytes[1] as u32) + 0x1_0000 * (bytes[2] as u32) + 0x100_0000 * (
    bytes[3] as u32)
}

/// The word at a position, least significant byte first.
pub open spec fn word_at(bytes: Seq<u8>, at: int) -> u32 {
    little_endian_value(bytes.subrange(at, at + 4)) as u32
}

/// The word at a position, least significant byte first.
pub fn read_word(bytes: &[u8], at: usize) -> (value: u32)
    requires
        at + 4 <= bytes@.len(),
    ensures
        value == word_at(bytes@, at as int),
{
    assert(bytes.len() == bytes@.len());
    let four = part(bytes, at, at + 4);
    read_u32(four.as_slice())
}

/// The number of eight bytes at a position, least significant byte first.
pub fn read_long(bytes: &[u8], at: usize) -> (value: u64)
    requires
        at + 8 <= bytes@.len(),
    ensures
        value == little_endian_value(bytes@.subrange(at as int, at + 8)),
        value == word_at(bytes@, at as int) + 0x1_0000_0000 * word_at(bytes@, at + 4),
{
    assert(bytes.len() == bytes@.len());
    let low: u32 = read_word(bytes, at);
    let high: u32 = read_word(bytes, at + 4);
    proof {
        value_splits(bytes@.subrange(at as int, at + 8));
        let whole = bytes@.subrange(at as int, at + 8);
        assert(whole.take(4) =~= bytes@.subrange(at as int, at + 4));
        assert(whole.skip(4) =~= bytes@.subrange(at + 4, at + 8));
        four_bytes_fit(whole.take(4));
        four_bytes_fit(whole.skip(4));
    }
    low as u64 + 0x1_0000_0000 * (high as u64)
}

/// Four bytes make up a word.
proof fn four_bytes_fit(bytes: Seq<u8>)
    requires
        bytes.len() == 4,
    ensures
        little_endian_value(bytes) <= u32::MAX,
{
    reveal_with_fuel(little_endian_value, 5);
    assert(bytes.skip(1).skip(1) =~= bytes.skip(2));
    assert(bytes.skip(2).skip(1) =~= bytes.skip(3));
    assert(bytes.skip(3).skip(1) =~= bytes.skip(4));
}

/// Eight bytes make up a low and a high word.
proof fn value_splits(bytes: Seq<u8>)
    requires
        bytes.len() == 8,
    ensures
        little_endian_value(bytes) == little_endian_value(bytes.take(4)) + 0x1_0000_0000
            * little_endian_value(bytes.skip(4)),
{
    reveal_with_fuel(little_endian_value, 5);
    let low = bytes.take(4);
    assert(low.skip(1).skip(1) =~= low.skip(2));
    assert(low.skip(2).skip(1) =~= low.skip(3));
    assert(low.skip(3).skip(1) =~= low.skip(4));
    assert(bytes.skip(1).skip(1) =~= bytes.skip(2));
    assert(bytes.skip(2).skip(1) =~= bytes.skip(3));
    assert(bytes.skip(3).skip(1) =~= bytes.skip(4));
}

/// Appends bytes to others.
pub fn append(bytes: &mut Vec<u8>, more: &[u8])
    ensures
        final(bytes)@ == old(bytes)@ + more@,
{
    let ghost before = bytes@;
    for i in 0..more.len()
        invariant
            before == old(bytes)@,
            bytes@ == before + more@.take(i as int),
    {
        bytes.push(more[i]);
        assert(bytes@ =~= before + more@.take(i + 1));
    }
    assert(more@.take(more@.len() as int) =~= more@);
}

/// Whether two sequences of bytes are the same.
pub fn same_bytes(a: &[u8], b: &[u8]) -> (same: bool)
    ensures
        same == (a@ == b@),
{
    if a.len() != b.len() {
        return false;
    }
    for i in 0..a.len()
        invariant
            a@.len() == b@.len(),
            forall|j: int| 0 <= j < i ==> a@[j] == b@[j],
    {
        if a[i] != b[i] {
            return false;
        }
    }
    assert(a@ =~= b@);
    true
}

/// The bytes from one position up to another.
pub fn part(bytes: &[u8], from: usize, to: usize) -> (result: Vec<u8>)
    requires
        from <= to <= bytes@.len(),
    ensures
        result@ == bytes@.subrange(from as int, to as int),
{
    let mut result: Vec<u8> = Vec::new();
    for i in from..to
        invariant
            from <= to <= bytes@.len(),
            result@ == bytes@.subrange(from as int, i as int),
    {
        result.push(bytes[i]);
    }
    result
}

} // verus!
