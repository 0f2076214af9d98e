//! Texts in memory that the system owns: read no further than the memory
//! reaches.

use vstd::prelude::*;

use crate::bytes;
use crate::text;
use crate::utf16;

verus! {

/// The native status for data that makes no sense.
pub const ERROR_INVALID_DATA: u32 = 13;

/// How many code units a SID as text takes at most.
pub const MAX_SID_STRING_CODE_UNITS: usize = 272;

/// A text for a native call: its code units and a zero.
pub fn wide(value: &str) -> (units: Vec<u16>)
    ensures
        units@ == utf16::encode(value@).push(0),
{
    let mut units = utf16::encode_text(value);
    units.push(0);
    units
}

/// The code units before the first zero, if there is one.
pub open spec fn before_zero(units: Seq<u16>) -> Option<Seq<u16>>
    decreases units.len(),
{
    if units.len() == 0 {
        None
    } else if units[0] == 0 {
        Some(Seq::empty())
    } else {
        match before_zero(units.skip(1)) {
            Some(rest) => Some(seq![units[0]] + rest),
            None => None,
        }
    }
}

/// The text before the first zero, if there is one and the code units are
/// well-formed.
pub open spec fn terminated_text(units: Seq<u16>) -> Option<Seq<char>> {
    match before_zero(units) {
        Some(content) => utf16::decode(content),
        None => None,
    }
}

/// Code units without a zero and then a zero.
proof fn zero_at(units: Seq<u16>, i: int)
    requires
        0 <= i < units.len(),
        units[i] == 0,
        forall|j: int| 0 <= j < i ==> units[j] != 0,
    ensures
        before_zero(units) == Some(units.take(i)),
    decreases units.len(),
{
    if i == 0 {
        assert(units.take(0) =~= Seq::<u16>::empty());
    } else {
        let rest = units.skip(1);
        assert forall|j: int| 0 <= j < i - 1 implies rest[j] != 0 by {
            assert(rest[j] == units[j + 1]);
        }
        zero_at(rest, i - 1);
        assert(seq![units[0]] + rest.take(i - 1) =~= units.take(i));
    }
}

/// Code units without a zero.
proof fn zero_nowhere(units: Seq<u16>)
    requires
        forall|j: int| 0 <= j < units.len() ==> units[j] != 0,
    ensures
        before_zero(units) is None,
    decreases units.len(),
{
    if units.len() > 0 {
        let rest = units.skip(1);
        assert forall|j: int| 0 <= j < rest.len() implies rest[j] != 0 by {
            assert(rest[j] == units[j + 1]);
        }
        zero_nowhere(rest);
    }
}

/// The code units from one position up to another.
fn part(units: &[u16], from: usize, to: usize) -> (result: Vec<u16>)
    requires
        from <= to <= units@.len(),
    ensures
        result@ == units@.subrange(from as int, to as int),
{
    let mut result: Vec<u16> = Vec::new();
    for i in from..to
        invariant
            from <= to <= units@.len(),
            result@ == units@.subrange(from as int, i as int),
    {
        result.push(units[i]);
    }
    result
}

/// Reads the text before the first zero.
pub fn read_terminated(units: &[u16]) -> (value: Option<String>)
    ensures
        match value {
            Some(read) => terminated_text(units@) == Some(read@),
            None => terminated_text(units@) is None,
        },
{
    for i in 0..units.len()
        invariant
            forall|j: int| 0 <= j < i ==> units@[j] != 0,
    {
        if units[i] == 0 {
            let content = part(units, 0, i);
            proof {
                zero_at(units@, i as int);
                assert(content@ =~= units@.take(i as int));
            }
            return match utf16::decode_units(content.as_slice()) {
                Some(chars) => Some(text::text_of(chars.as_slice())),
                None => None,
            };
        }
    }
    proof {
        zero_nowhere(units@);
    }
    None
}

/// Reads a SID as text out of memory of so many bytes, which holds the code
/// units.
pub fn local_sid_string(allocation_bytes: usize, units: &[u16]) -> (value: Option<String>)
    requires
        allocation_bytes > 0 && allocation_bytes % 2 == 0 && allocation_bytes / 2
            <= MAX_SID_STRING_CODE_UNITS ==> units@.len() == allocation_bytes / 2,
    ensures
        match value {
            Some(read) => allocation_bytes > 0 && allocation_bytes % 2 == 0 && allocation_bytes / 2
                <= MAX_SID_STRING_CODE_UNITS && terminated_text(units@) == Some(read@),
            None => allocation_bytes == 0 || allocation_bytes % 2 != 0 || allocation_bytes / 2
                > MAX_SID_STRING_CODE_UNITS || terminated_text(units@) is None,
        },
{
    if allocation_bytes == 0 || allocation_bytes % 2 != 0 || allocation_bytes / 2
        > MAX_SID_STRING_CODE_UNITS {
        return None;
    }
    read_terminated(units)
}

/// Code units without the zero that may end them.
pub open spec fn without_last_zero(units: Seq<u16>) -> Seq<u16> {
    if units.len() > 0 && units.last() == 0 {
        units.drop_last()
    } else {
        units
    }
}

/// Reads a text of a given length, with or without a zero at its end; what is
/// not well-formed is replaced.
pub fn wide_string_with_length(units: Option<Vec<u16>>) -> (value: Option<String>)
    ensures
        match value {
            Some(read) => units matches Some(list) && list@.len() > 0 && read@
                == utf16::decode_lossy(without_last_zero(list@)),
            None => units is None || (units matches Some(list) && list@.len() == 0),
        },
{
    match units {
        None => None,
        Some(list) => {
            let count: usize = list.len();
            if count == 0 {
                return None;
            }
            if list[count - 1] == 0 {
                let content = part(list.as_slice(), 0, count - 1);
                assert(content@ =~= list@.drop_last());
                Some(utf16::decode_units_lossy(content.as_slice()))
            } else {
                Some(utf16::decode_units_lossy(list.as_slice()))
            }
        },
    }
}

/// Whether a text of so many code units lies in memory of so many bytes.
pub open spec fn fits_allocation(allocation_bytes: usize, length: u32) -> bool {
    allocation_bytes > 0 && allocation_bytes % 2 == 0 && length <= allocation_bytes / 2
}

/// Reads a text of a given length out of memory of so many bytes.
pub fn local_wide_string_with_length(allocation_bytes: usize, length: u32, units: Option<Vec<u16>>) -> (
    value: Option<String>)
    requires
        units matches Some(list) ==> (fits_allocation(allocation_bytes, length) ==> list@.len()
            == length),
    ensures
        match value {
            Some(read) => length > 0 && fits_allocation(allocation_bytes, length) && (units
                matches Some(list) && read@ == utf16::decode_lossy(without_last_zero(list@))),
            None => units is None || length == 0 || !fits_allocation(allocation_bytes, length),
        },
{
    if length == 0 || allocation_bytes == 0 || allocation_bytes % 2 != 0 || length as usize
        > allocation_bytes / 2 {
        return None;
    }
    wide_string_with_length(units)
}

/// How many code units the path of a known folder takes at most.
pub const MAX_KNOWN_FOLDER_PATH_UNITS: usize = 32_767;

/// The native status for an argument that makes no sense.
pub const E_INVALIDARG: i32 = -2_147_024_809;

/// Reads the path of a known folder: its code units before a zero, which has
/// to be among the first ones.
pub fn known_folder_path(status: i32, units: Option<Vec<u16>>) -> (path: Result<Vec<u16>, i32>)
    requires
        units matches Some(list) ==> list@.len() <= MAX_KNOWN_FOLDER_PATH_UNITS + 1,
    ensures
        match path {
            Ok(read) => status >= 0 && (units matches Some(list) && before_zero(list@) == Some(
                read@,
            )),
            Err(code) => if status < 0 || units is None {
                code == status
            } else {
                code == E_INVALIDARG && (units matches Some(list) && before_zero(list@) is None)
            },
        },
{
    match units {
        None => Err(status),
        Some(list) => {
            if status < 0 {
                return Err(status);
            }
            for i in 0..list.len()
                invariant
                    forall|j: int| 0 <= j < i ==> list@[j] != 0,
                    status >= 0,
                    units == Some(list),
            {
                if list[i] == 0 {
                    proof {
                        zero_at(list@, i as int);
                    }
                    let path = part(list.as_slice(), 0, i);
                    assert(path@ =~= list@.take(i as int));
                    return Ok(path);
                }
            }
            proof {
                zero_nowhere(list@);
            }
            Err(E_INVALIDARG)
        },
    }
}

/// How many elements an array has, if it lies in memory of so many bytes.
pub fn net_api_array_len<T>(allocation_bytes: usize, count: u32) -> (length: Option<usize>)
    ensures
        length == (if count * vstd::layout::size_of::<T>() <= allocation_bytes {
            Some(count as usize)
        } else {
            None::<usize>
        }),
{
    let size: usize = std::mem::size_of::<T>();
    let length: usize = count as usize;
    match length.checked_mul(size) {
        Some(bytes) => if bytes <= allocation_bytes {
            Some(length)
        } else {
            None
        },
        None => None,
    }
}

/// The code unit at a position in memory.
pub open spec fn unit_at(memory: Seq<u8>, at: int) -> u16 {
    (memory[at] + 0x100 * memory[at + 1]) as u16
}

/// The code units from a position in memory to its end.
pub open spec fn units_from(memory: Seq<u8>, at: int) -> Seq<u16> {
    Seq::new(((memory.len() - at) / 2) as nat, |i: int| unit_at(memory, at + 2 * i))
}

/// Whether a text can start at an address in memory that starts at another.
pub open spec fn starts_within(start: usize, memory: Seq<u8>, value: usize) -> bool {
    &&& start + memory.len() <= usize::MAX
    &&& value % 2 == 0
    &&& start <= value
    &&& (value - start) % 2 == 0
    &&& value + 2 <= start + memory.len()
}

/// Reads the text at an address, if it lies in memory that starts at another:
/// up to a zero, which has to be there.
pub fn wide_string_within_allocation(start: usize, memory: &[u8], value: usize) -> (read: Option<
    String,
>)
    ensures
        match read {
            Some(text) => starts_within(start, memory@, value) && terminated_text(
                units_from(memory@, value - start),
            ) == Some(text@),
            None => !starts_within(start, memory@, value) || terminated_text(
                units_from(memory@, value - start),
            ) is None,
        },
{
    let length: usize = memory.len();
    if length > usize::MAX - start || value % 2 != 0 || value < start || (value - start) % 2 != 0
        || value - start >= length || length - (value - start) < 2 {
        return None;
    }
    let offset: usize = value - start;
    let count: usize = (length - offset) / 2;
    let ghost expected = units_from(memory@, offset as int);
    let mut units: Vec<u16> = Vec::new();
    for i in 0..count
        invariant
            length == memory@.len(),
            offset <= length,
            count == (length - offset) / 2,
            expected == units_from(memory@, offset as int),
            units@ == expected.take(i as int),
    {
        let at: usize = offset + 2 * i;
        units.push(memory[at] as u16 + 0x100 * (memory[at + 1] as u16));
        assert(units@ =~= expected.take(i + 1));
    }
    assert(expected.take(count as int) =~= expected);
    read_terminated(units.as_slice())
}

/// What a text is read as was written: the code units of a text without
/// zeros, a zero, and anything behind it.
pub proof fn terminated_text_is_read(value: Seq<char>, rest: Seq<u16>)
    requires
        forall|i: int| 0 <= i < utf16::encode(value).len() ==> utf16::encode(value)[i] != 0,
    ensures
        terminated_text(utf16::encode(value).push(0) + rest) == Some(value),
{
    let content = utf16::encode(value);
    let units = content.push(0) + rest;
    assert forall|j: int| 0 <= j < content.len() implies units[j] != 0 by {
        assert(units[j] == content[j]);
    }
    zero_at(units, content.len() as int);
    assert(units.take(content.len() as int) =~= content);
    utf16::decode_of_encode(value);
}

/// What stands before the first zero holds none, and the zero stands right behind
/// it; there is nothing to read where no zero is.
pub proof fn texts_end_at_the_first_zero(units: Seq<u16>)
    ensures
        before_zero(units) is None <==> !units.contains(0),
        before_zero(units) matches Some(content) ==> content.push(0).is_prefix_of(units)
            && !content.contains(0),
    decreases units.len(),
{
    if units.len() > 0 && units[0] != 0 {
        let rest = units.skip(1);
        texts_end_at_the_first_zero(rest);
        if units.contains(0) {
            let i = choose|i: int| 0 <= i < units.len() && units[i] == 0;
            assert(rest[i - 1] == 0);
        }
        if rest.contains(0) {
            let i = choose|i: int| 0 <= i < rest.len() && rest[i] == 0;
            assert(units[i + 1] == 0);
            let inner = before_zero(rest)->0;
            let content = seq![units[0]] + inner;
            assert forall|k: int| 0 <= k < content.len() implies content[k] != 0 by {
                if k > 0 {
                    assert(inner.contains(inner[k - 1]));
                }
            }
            assert forall|k: int| 0 <= k < content.len() + 1 implies content.push(0)[k]
                == units[k] by {
                if k > 0 {
                    assert(inner.push(0)[k - 1] == rest.subrange(0, (inner.len() + 1) as int)[k - 1]);
                    assert(rest[k - 1] == units[k]);
                }
            }
            assert(content.push(0) =~= units.subrange(0, (content.len() + 1) as int));
        }
    } else if units.len() > 0 {
        assert(units.contains(units[0]));
        assert(Seq::<u16>::empty().push(0) =~= units.subrange(0, 1));
    }
}

/// A last zero is left out, and nothing else.
pub proof fn only_a_last_zero_is_left_out(units: Seq<u16>)
    ensures
        without_last_zero(units.push(0)) == units,
        units.len() > 0 && units.last() != 0 ==> without_last_zero(units) == units,
        without_last_zero(Seq::empty()) == Seq::<u16>::empty(),
{
    assert(units.push(0).drop_last() =~= units);
}

} // verus!
