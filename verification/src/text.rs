//! Text as sequences of characters: searching, trimming, splitting, and the
//! decimal and hexadecimal spellings of numbers.

use vstd::prelude::*;

verus! {

/// Appends one character to a string (`alloc::string::String::push`).
///
/// The standard library documents that the given character is appended to the
/// end of the string; nothing else changes.
pub assume_specification[ String::push ](receiver: &mut String, character: char)
    ensures
        final(receiver)@ == old(receiver)@.push(character),
;

/// The white-space characters of Unicode (`White_Space=yes`).
pub open spec fn is_white_space(c: char) -> bool {
    ||| '\u{9}' <= c <= '\u{d}'
    ||| c == ' '
    ||| c == '\u{85}'
    ||| c == '\u{a0}'
    ||| c == '\u{1680}'
    ||| '\u{2000}' <= c <= '\u{200a}'
    ||| c == '\u{2028}'
    ||| c == '\u{2029}'
    ||| c == '\u{202f}'
    ||| c == '\u{205f}'
    ||| c == '\u{3000}'
}

/// The text without its leading white space.
pub open spec fn trim_start(s: Seq<char>) -> Seq<char>
    decreases s.len(),
{
    if s.len() > 0 && is_white_space(s[0]) {
        trim_start(s.skip(1))
    } else {
        s
    }
}

/// The text without its trailing white space.
pub open spec fn trim_end(s: Seq<char>) -> Seq<char>
    decreases s.len(),
{
    if s.len() > 0 && is_white_space(s.last()) {
        trim_end(s.drop_last())
    } else {
        s
    }
}

/// The text without leading and trailing white space.
pub open spec fn trim(s: Seq<char>) -> Seq<char> {
    trim_end(trim_start(s))
}

/// Whether `pattern` stands in `s` at position `i`.
pub open spec fn occurs_at(s: Seq<char>, pattern: Seq<char>, i: int) -> bool {
    &&& 0 <= i
    &&& i + pattern.len() <= s.len()
    &&& s.subrange(i, i + pattern.len()) == pattern
}

/// Whether `i` is the first position at which `pattern` stands in `s`.
pub open spec fn first_at(s: Seq<char>, pattern: Seq<char>, i: int) -> bool {
    &&& occurs_at(s, pattern, i)
    &&& forall|j: int| #[trigger] occurs_at(s, pattern, j) ==> i <= j
}

/// The parts of `s` before and after the first occurrence of `pattern`.
pub open spec fn split_once(s: Seq<char>, pattern: Seq<char>) -> Option<(Seq<char>, Seq<char>)> {
    if exists|i: int| first_at(s, pattern, i) {
        let i = choose|i: int| first_at(s, pattern, i);
        Some((s.take(i), s.skip(i + pattern.len())))
    } else {
        None
    }
}

/// The parts of `s` between the occurrences of `separator`.
pub open spec fn split_on(s: Seq<char>, separator: char) -> Seq<Seq<char>>
    decreases s.len(),
{
    if s.len() == 0 {
        seq![Seq::empty()]
    } else {
        let parts = split_on(s.drop_last(), separator);
        if s.last() == separator {
            parts.push(Seq::empty())
        } else {
            parts.drop_last().push(parts.last().push(s.last()))
        }
    }
}

/// The ASCII lower-case form of a character.
pub open spec fn ascii_lower(c: char) -> char {
    if 'A' <= c <= 'Z' {
        ((c as u32) + 32) as char
    } else {
        c
    }
}

/// The ASCII upper-case form of a character.
pub open spec fn ascii_upper(c: char) -> char {
    if 'a' <= c <= 'z' {
        ((c as u32) - 32) as char
    } else {
        c
    }
}

/// Every character in its ASCII upper-case form.
pub open spec fn to_ascii_upper(s: Seq<char>) -> Seq<char> {
    s.map_values(|c: char| ascii_upper(c))
}

/// Whether two texts agree when ASCII letter case is ignored.
pub open spec fn eq_ignore_case(a: Seq<char>, b: Seq<char>) -> bool {
    &&& a.len() == b.len()
    &&& forall|i: int| 0 <= i < a.len() ==> ascii_lower(#[trigger] a[i]) == ascii_lower(b[i])
}

/// Whether a character is a decimal digit.
pub open spec fn is_digit(c: char) -> bool {
    '0' <= c <= '9'
}

/// Whether a text holds decimal digits only.
pub open spec fn all_digits(s: Seq<char>) -> bool {
    forall|i: int| 0 <= i < s.len() ==> is_digit(#[trigger] s[i])
}

/// The number that a sequence of decimal digits spells.
pub open spec fn decimal_value(s: Seq<char>) -> nat
    decreases s.len(),
{
    if s.len() == 0 {
        0
    } else {
        10 * decimal_value(s.drop_last()) + (s.last() as u32 - '0' as u32) as nat
    }
}

/// The digits of an unsigned number behind an optional plus sign.
pub open spec fn unsigned_digits(s: Seq<char>) -> Seq<char> {
    if s.len() > 0 && s[0] == '+' {
        s.skip(1)
    } else {
        s
    }
}

/// The unsigned number that a text spells, where it is at most `maximum`.
pub open spec fn parse_unsigned(s: Seq<char>, maximum: nat) -> Option<nat> {
    let digits = unsigned_digits(s);
    if digits.len() > 0 && all_digits(digits) && decimal_value(digits) <= maximum {
        Some(decimal_value(digits))
    } else {
        None
    }
}

/// The character of a decimal or hexadecimal digit, in lower case.
pub open spec fn digit_char(d: nat) -> char {
    if d < 10 {
        ('0' as u32 + d) as char
    } else {
        ('a' as u32 + (d - 10)) as char
    }
}

/// The shortest decimal spelling of a number.
pub open spec fn decimal(n: nat) -> Seq<char>
    decreases n,
{
    if n < 10 {
        seq![digit_char(n)]
    } else {
        decimal(n / 10).push(digit_char(n % 10))
    }
}

/// Two lower-case hexadecimal digits for every byte.
pub open spec fn hex(bytes: Seq<u8>) -> Seq<char> {
    Seq::new(
        2 * bytes.len(),
        |i: int|
            if i % 2 == 0 {
                digit_char((bytes[i / 2] / 16) as nat)
            } else {
                digit_char((bytes[i / 2] % 16) as nat)
            },
    )
}

/// The bytes of a 32-bit number, most significant first.
pub open spec fn big_endian(n: u32) -> Seq<u8> {
    seq![
        (n / 0x100_0000) as u8,
        (n / 0x1_0000 % 0x100) as u8,
        (n / 0x100 % 0x100) as u8,
        (n % 0x100) as u8,
    ]
}

/// Eight lower-case hexadecimal digits.
pub open spec fn hex_word(n: u32) -> Seq<char> {
    hex(big_endian(n))
}

/// Two occurrences that are both first stand at the same position.
pub proof fn first_occurrence_is_unique(s: Seq<char>, pattern: Seq<char>, i: int, j: int)
    requires
        first_at(s, pattern, i),
        first_at(s, pattern, j),
    ensures
        i == j,
{
}

/// Comparing without regard to case is comparing the upper-case forms.
pub proof fn ignoring_case_is_comparing_upper_case(a: Seq<char>, b: Seq<char>)
    ensures
        eq_ignore_case(a, b) <==> to_ascii_upper(a) == to_ascii_upper(b),
{
    if eq_ignore_case(a, b) {
        assert(to_ascii_upper(a) =~= to_ascii_upper(b)) by {
            assert forall|i: int| 0 <= i < a.len() implies to_ascii_upper(a)[i] == to_ascii_upper(
                b,
            )[i] by {
                assert(ascii_lower(a[i]) == ascii_lower(b[i]));
            }
        }
    }
    if to_ascii_upper(a) == to_ascii_upper(b) {
        assert(to_ascii_upper(a).len() == a.len());
        assert(to_ascii_upper(b).len() == b.len());
        assert forall|i: int| 0 <= i < a.len() implies ascii_lower(#[trigger] a[i]) == ascii_lower(
            b[i],
        ) by {
            assert(to_ascii_upper(a)[i] == ascii_upper(a[i]));
            assert(to_ascii_upper(b)[i] == ascii_upper(b[i]));
        }
    }
}

/// The characters of a text.
pub fn chars_of(text: &str) -> (chars: Vec<char>)
    ensures
        chars@ == text@,
{
    let mut chars: Vec<char> = Vec::new();
    for c in iter: text.chars()
        invariant
            chars@ == iter.seq().take(iter.index() as int),
            iter.seq() == text@,
    {
        chars.push(c);
    }
    chars
}

/// The text that a sequence of characters makes up.
pub fn text_of(chars: &[char]) -> (text: String)
    ensures
        text@ == chars@,
{
    let mut text = String::new();
    for i in 0..chars.len()
        invariant
            text@ == chars@.take(i as int),
    {
        text.push(chars[i]);
    }
    assert(chars@.take(chars@.len() as int) =~= chars@);
    text
}

/// The texts that a list of character vectors holds.
pub open spec fn contents(parts: Seq<Vec<char>>) -> Seq<Seq<char>> {
    parts.map_values(|part: Vec<char>| part@)
}

/// The texts that a list of strings holds.
pub open spec fn texts(strings: Seq<String>) -> Seq<Seq<char>> {
    strings.map_values(|text: String| text@)
}

/// Whether two texts are the same.
pub fn same_text(a: &str, b: &str) -> (same: bool)
    ensures
        same == (a@ == b@),
{
    same_chars(&chars_of(a), &chars_of(b))
}

/// Whether two sequences of characters are the same.
pub fn same_chars(a: &[char], b: &[char]) -> (same: bool)
    ensures
        same == (a@ == b@),
{
    if a.len() != b.len() {
        return false;
    }
    for i in 0..a.len()
        invariant
            a.len() == b.len(),
            forall|j: int| 0 <= j < i ==> a@[j] == b@[j],
    {
        if a[i] != b[i] {
            return false;
        }
    }
    assert(a@ =~= b@);
    true
}

/// The characters from one position up to another.
pub fn part(chars: &[char], from: usize, to: usize) -> (result: Vec<char>)
    requires
        from <= to <= chars@.len(),
    ensures
        result@ == chars@.subrange(from as int, to as int),
{
    let mut result: Vec<char> = Vec::new();
    for i in from..to
        invariant
            from <= to <= chars@.len(),
            result@ == chars@.subrange(from as int, i as int),
    {
        result.push(chars[i]);
    }
    result
}

/// The first position at which a pattern stands in a text.
pub fn find(chars: &[char], pattern: &[char]) -> (found: Option<usize>)
    ensures
        match found {
            Some(i) => first_at(chars@, pattern@, i as int),
            None => forall|i: int| !occurs_at(chars@, pattern@, i),
        },
{
    if pattern.len() > chars.len() {
        return None;
    }
    let last: usize = chars.len() - pattern.len();
    let mut i: usize = 0;
    while i <= last
        invariant
            i <= last + 1,
            last + pattern@.len() == chars@.len(),
            chars@.len() <= usize::MAX,
            pattern@.len() <= chars@.len(),
            forall|j: int| #[trigger] occurs_at(chars@, pattern@, j) ==> i <= j,
        decreases last + 1 - i,
    {
        if same_chars(&part(chars, i, i + pattern.len()), pattern) {
            return Some(i);
        }
        assert(!occurs_at(chars@, pattern@, i as int));
        if i == last {
            return None;
        }
        i = i + 1;
    }
    None
}

/// The parts before and after the first occurrence of a pattern.
pub fn split_at_first(chars: &[char], pattern: &[char]) -> (parts: Option<(Vec<char>, Vec<char>)>)
    ensures
        match parts {
            Some(parts) => split_once(chars@, pattern@) == Some((parts.0@, parts.1@)),
            None => split_once(chars@, pattern@) is None,
        },
{
    match find(chars, pattern) {
        Some(i) => {
            let length: usize = chars.len();
            let before = part(chars, 0, i);
            let after = part(chars, i + pattern.len(), length);
            proof {
                let k = choose|k: int| first_at(chars@, pattern@, k);
                first_occurrence_is_unique(chars@, pattern@, i as int, k);
                assert(before@ =~= chars@.take(i as int));
                assert(after@ =~= chars@.skip(i + pattern@.len()));
            }
            Some((before, after))
        },
        None => None,
    }
}

/// Whether a character is white space.
pub fn white_space(c: char) -> (yes: bool)
    ensures
        yes == is_white_space(c),
{
    ('\u{9}' <= c && c <= '\u{d}') || c == ' ' || c == '\u{85}' || c == '\u{a0}' || c == '\u{1680}'
        || ('\u{2000}' <= c && c <= '\u{200a}') || c == '\u{2028}' || c == '\u{2029}' || c
        == '\u{202f}' || c == '\u{205f}' || c == '\u{3000}'
}

/// The characters without leading and trailing white space.
pub fn trimmed(chars: &[char]) -> (result: Vec<char>)
    ensures
        result@ == trim(chars@),
{
    let mut from: usize = 0;
    assert(chars@.skip(0) =~= chars@);
    while from < chars.len() && white_space(chars[from])
        invariant
            from <= chars@.len(),
            trim_start(chars@.skip(from as int)) == trim_start(chars@),
        decreases chars@.len() - from,
    {
        assert(chars@.skip(from as int).skip(1) =~= chars@.skip(from + 1));
        from = from + 1;
    }
    let mut to: usize = chars.len();
    let ghost rest = chars@.skip(from as int);
    assert(trim_start(chars@) == rest);
    assert(chars@.subrange(from as int, to as int) =~= rest);
    while from < to && white_space(chars[to - 1])
        invariant
            from <= to <= chars@.len(),
            trim_end(chars@.subrange(from as int, to as int)) == trim_end(rest),
        decreases to,
    {
        assert(chars@.subrange(from as int, to as int).drop_last() =~= chars@.subrange(
            from as int,
            to - 1,
        ));
        to = to - 1;
    }
    part(chars, from, to)
}

/// The parts between the occurrences of a separator.
pub fn split(chars: &[char], separator: char) -> (parts: Vec<Vec<char>>)
    ensures
        contents(parts@) == split_on(chars@, separator),
        parts@.len() >= 1,
{
    let mut parts: Vec<Vec<char>> = Vec::new();
    let mut current: Vec<char> = Vec::new();
    assert(contents(parts@).push(current@) =~= split_on(chars@.take(0), separator));
    for i in 0..chars.len()
        invariant
            contents(parts@).push(current@) == split_on(chars@.take(i as int), separator),
    {
        let ghost before = contents(parts@);
        let ghost prefix = chars@.take(i as int);
        assert(chars@.take(i + 1).drop_last() =~= prefix);
        let c = chars[i];
        if c == separator {
            let ghost done = current@;
            parts.push(current);
            current = Vec::new();
            assert(contents(parts@) =~= before.push(done));
            assert(contents(parts@).push(current@) =~= split_on(prefix, separator).push(
                Seq::empty(),
            ));
        } else {
            let ghost held = current@;
            current.push(c);
            assert(before.push(held).drop_last() =~= before);
        }
    }
    assert(chars@.take(chars@.len() as int) =~= chars@);
    let ghost before = contents(parts@);
    let ghost done = current@;
    parts.push(current);
    assert(contents(parts@) =~= before.push(done));
    parts
}

/// The ASCII lower-case form of a character.
pub fn lower(c: char) -> (result: char)
    ensures
        result == ascii_lower(c),
{
    if 'A' <= c && c <= 'Z' {
        ((c as u8) + 32) as char
    } else {
        c
    }
}

/// The ASCII upper-case form of a character.
pub fn upper(c: char) -> (result: char)
    ensures
        result == ascii_upper(c),
{
    if 'a' <= c && c <= 'z' {
        ((c as u8) - 32) as char
    } else {
        c
    }
}

/// The text in ASCII upper case.
pub fn upper_case(text: &str) -> (result: String)
    ensures
        result@ == to_ascii_upper(text@),
{
    let chars = chars_of(text);
    let mut result = String::new();
    for i in 0..chars.len()
        invariant
            chars@ == text@,
            result@ == to_ascii_upper(chars@.take(i as int)),
    {
        result.push(upper(chars[i]));
        assert(result@ =~= to_ascii_upper(chars@.take(i + 1)));
    }
    assert(chars@.take(chars@.len() as int) =~= chars@);
    result
}

/// Whether two sequences agree when ASCII letter case is ignored.
pub fn same_ignoring_case(a: &[char], b: &[char]) -> (same: bool)
    ensures
        same == eq_ignore_case(a@, b@),
{
    if a.len() != b.len() {
        return false;
    }
    for i in 0..a.len()
        invariant
            a.len() == b.len(),
            forall|j: int| 0 <= j < i ==> ascii_lower(#[trigger] a@[j]) == ascii_lower(b@[j]),
    {
        if lower(a[i]) != lower(b[i]) {
            assert(ascii_lower(a@[i as int]) != ascii_lower(b@[i as int]));
            return false;
        }
    }
    true
}

/// Whether two texts agree when ASCII letter case is ignored.
pub fn same_text_ignoring_case(a: &str, b: &str) -> (same: bool)
    ensures
        same == eq_ignore_case(a@, b@),
{
    same_ignoring_case(&chars_of(a), &chars_of(b))
}

/// A longer sequence of digits spells no smaller number.
proof fn decimal_value_grows(s: Seq<char>, i: int, j: int)
    requires
        all_digits(s),
        0 <= i <= j <= s.len(),
    ensures
        decimal_value(s.take(i)) <= decimal_value(s.take(j)),
    decreases j,
{
    if i < j {
        decimal_value_grows(s, i, j - 1);
        assert(s.take(j).drop_last() =~= s.take(j - 1));
        assert(is_digit(s[j - 1]));
    }
}

/// The unsigned number that a text spells, where it is at most `maximum`.
pub fn unsigned(chars: &[char], maximum: u128) -> (value: Option<u128>)
    ensures
        match value {
            Some(value) => parse_unsigned(chars@, maximum as nat) == Some(value as nat),
            None => parse_unsigned(chars@, maximum as nat) is None,
        },
{
    let from: usize = if chars.len() > 0 && chars[0] == '+' {
        1
    } else {
        0
    };
    let ghost digits = unsigned_digits(chars@);
    assert(digits =~= chars@.skip(from as int));
    if from == chars.len() {
        return None;
    }
    let mut value: u128 = 0;
    for i in from..chars.len()
        invariant
            from < chars@.len(),
            digits == chars@.skip(from as int),
            digits == unsigned_digits(chars@),
            all_digits(digits.take(i - from)),
            value == decimal_value(digits.take(i - from)),
            value <= maximum,
    {
        let c = chars[i];
        assert(digits[i - from] == c);
        if c < '0' || '9' < c {
            assert(!is_digit(digits[i - from]));
            return None;
        }
        assert(digits.take(i + 1 - from).drop_last() =~= digits.take(i - from));
        assert(all_digits(digits.take(i + 1 - from))) by {
            assert forall|j: int| 0 <= j < i + 1 - from implies is_digit(
                #[trigger] digits.take(i + 1 - from)[j],
            ) by {
                if j < i - from {
                    assert(digits.take(i - from)[j] == digits[j]);
                    assert(is_digit(digits.take(i - from)[j]));
                }
            }
        }
        let digit: u128 = (c as u8 - 48u8) as u128;
        let ghost next = 10 * value as int + digit as int;
        assert(next == decimal_value(digits.take(i + 1 - from)));
        if value > maximum / 10 || digit > maximum - value * 10 {
            proof {
                assert(next > maximum);
                if all_digits(digits) {
                    decimal_value_grows(digits, i + 1 - from, digits.len() as int);
                    assert(digits.take(digits.len() as int) =~= digits);
                }
            }
            return None;
        }
        value = value * 10 + digit;
    }
    assert(digits.take(digits.len() as int) =~= digits);
    Some(value)
}

/// The character of a decimal or hexadecimal digit, in lower case.
pub fn digit(d: u8) -> (c: char)
    requires
        d < 16,
    ensures
        c == digit_char(d as nat),
{
    if d < 10 {
        (48u8 + d) as char
    } else {
        (97u8 + (d - 10)) as char
    }
}

/// The shortest decimal spelling of a number.
pub fn decimal_text(n: u64) -> (text: String)
    ensures
        text@ == decimal(n as nat),
    decreases n,
{
    if n < 10 {
        let mut text = String::new();
        text.push(digit(n as u8));
        assert(text@ =~= decimal(n as nat));
        text
    } else {
        let mut text = decimal_text(n / 10);
        text.push(digit((n % 10) as u8));
        text
    }
}

/// Two lower-case hexadecimal digits for every byte.
pub fn hex_text(bytes: &[u8]) -> (text: String)
    ensures
        text@ == hex(bytes@),
{
    let mut text = String::new();
    assert(text@ =~= hex(bytes@.take(0)));
    for i in 0..bytes.len()
        invariant
            text@ == hex(bytes@.take(i as int)),
    {
        text.push(digit(bytes[i] / 16));
        text.push(digit(bytes[i] % 16));
        assert(text@ =~= hex(bytes@.take(i + 1)));
    }
    assert(bytes@.take(bytes@.len() as int) =~= bytes@);
    text
}

/// Eight lower-case hexadecimal digits.
pub fn hex_word_text(n: u32) -> (text: String)
    ensures
        text@ == hex_word(n),
{
    let bytes: [u8; 4] = [
        (n / 0x100_0000) as u8,
        (n / 0x1_0000 % 0x100) as u8,
        (n / 0x100 % 0x100) as u8,
        (n % 0x100) as u8,
    ];
    assert(bytes@ =~= big_endian(n));
    hex_text(&bytes)
}

/// Parts with a separator between each two.
pub open spec fn rejoined(parts: Seq<Seq<char>>, separator: char) -> Seq<char>
    decreases parts.len(),
{
    if parts.len() == 0 {
        Seq::empty()
    } else if parts.len() == 1 {
        parts[0]
    } else {
        rejoined(parts.drop_last(), separator).push(separator) + parts.last()
    }
}

/// The parts that a text is split into hold no separator, and make up the text again
/// once the separators stand between them.
pub proof fn parts_make_up_the_text(s: Seq<char>, separator: char)
    ensures
        rejoined(split_on(s, separator), separator) == s,
        split_on(s, separator).len() > 0,
        forall|i: int|
            0 <= i < split_on(s, separator).len() ==> !(#[trigger] split_on(
                s,
                separator,
            )[i]).contains(separator),
    decreases s.len(),
{
    if s.len() == 0 {
        assert(split_on(s, separator) =~= seq![Seq::empty()]);
    } else {
        let front = s.drop_last();
        parts_make_up_the_text(front, separator);
        let parts = split_on(front, separator);
        let all = split_on(s, separator);
        assert(front.push(s.last()) =~= s);
        if s.last() == separator {
            assert(all.drop_last() =~= parts);
            assert(rejoined(all, separator) =~= s);
        } else {
            assert(!parts[parts.len() - 1].contains(separator));
            let longer = parts.last().push(s.last());
            assert forall|i: int| 0 <= i < longer.len() implies longer[i] != separator by {
                if i < parts.last().len() {
                    assert(parts.last().contains(parts.last()[i]));
                }
            }
            assert(all.drop_last() =~= parts.drop_last());
            assert forall|i: int| 0 <= i < all.len() implies !(#[trigger] all[i]).contains(
                separator,
            ) by {
                if i < parts.len() - 1 {
                    assert(all[i] == parts[i]);
                }
            }
            assert(rejoined(all, separator) =~= s);
        }
    }
}

/// Where something occurs, there is a first place where it does.
proof fn some_occurrence_is_first(s: Seq<char>, pattern: Seq<char>, i: int)
    requires
        occurs_at(s, pattern, i),
    ensures
        exists|k: int| first_at(s, pattern, k),
    decreases i,
{
    if exists|j: int| #[trigger] occurs_at(s, pattern, j) && j < i {
        let j = choose|j: int| #[trigger] occurs_at(s, pattern, j) && j < i;
        some_occurrence_is_first(s, pattern, j);
    } else {
        assert(first_at(s, pattern, i));
    }
}

/// A text is split in two at the first place where the pattern stands, so that the
/// parts with the pattern between them are the text; it is not where the pattern stands
/// nowhere.
pub proof fn splitting_once_takes_the_first(s: Seq<char>, pattern: Seq<char>)
    ensures
        split_once(s, pattern) is None <==> forall|i: int| !occurs_at(s, pattern, i),
        split_once(s, pattern) matches Some((before, behind)) ==> s == before + pattern + behind
            && forall|i: int| #[trigger] occurs_at(s, pattern, i) ==> before.len() <= i,
{
    if exists|i: int| occurs_at(s, pattern, i) {
        some_occurrence_is_first(s, pattern, choose|i: int| occurs_at(s, pattern, i));
        let i = choose|i: int| first_at(s, pattern, i);
        assert(s =~= s.take(i) + s.subrange(i, i + pattern.len()) + s.skip(i + pattern.len()));
    }
    if split_once(s, pattern) is Some {
        let i = choose|i: int| first_at(s, pattern, i);
        assert(occurs_at(s, pattern, i));
    }
}

/// Whether a text is another without the white space around it.
pub open spec fn is_middle_of(middle: Seq<char>, s: Seq<char>, i: int, j: int) -> bool {
    &&& 0 <= i <= j <= s.len()
    &&& middle == s.subrange(i, j)
    &&& forall|k: int| 0 <= k < i || j <= k < s.len() ==> is_white_space(#[trigger] s[k])
    &&& i < j ==> !is_white_space(s[i]) && !is_white_space(s[j - 1])
}

/// Trimming takes the white space off both ends of a text, and nothing else.
pub proof fn trimming_takes_white_space_off(s: Seq<char>)
    ensures
        exists|i: int, j: int| is_middle_of(trim(s), s, i, j),
{
    let start = trim_start(s);
    trimmed_in_front(s);
    trimmed_behind(start);
    let i = s.len() - start.len();
    let j = i + trim(s).len();
    assert(start =~= s.subrange(i, s.len() as int));
    assert(trim(s) =~= s.subrange(i, j));
    assert forall|k: int| 0 <= k < i || j <= k < s.len() implies is_white_space(
        #[trigger] s[k],
    ) by {
        if j <= k {
            assert(s[k] == start[k - i]);
        }
    }
    if i < j {
        assert(start[0] == s[i]);
        assert(start[trim(s).len() - 1] == s[j - 1]);
    }
    assert(is_middle_of(trim(s), s, i, j));
}

/// What is taken off in front is white space.
proof fn trimmed_in_front(s: Seq<char>)
    ensures
        trim_start(s).len() <= s.len(),
        trim_start(s) == s.skip(s.len() - trim_start(s).len()),
        forall|k: int|
            0 <= k < s.len() - trim_start(s).len() ==> is_white_space(#[trigger] s[k]),
        trim_start(s).len() > 0 ==> !is_white_space(trim_start(s)[0]),
    decreases s.len(),
{
    if s.len() > 0 && is_white_space(s[0]) {
        let rest = s.skip(1);
        trimmed_in_front(rest);
        assert(trim_start(s) =~= s.skip(s.len() - trim_start(s).len()));
        assert forall|k: int| 0 <= k < s.len() - trim_start(s).len() implies is_white_space(
            #[trigger] s[k],
        ) by {
            if k > 0 {
                assert(rest[k - 1] == s[k]);
            }
        }
    } else {
        assert(s =~= s.skip(0));
    }
}

/// What is taken off behind is white space.
proof fn trimmed_behind(s: Seq<char>)
    ensures
        trim_end(s).len() <= s.len(),
        trim_end(s) == s.take(trim_end(s).len() as int),
        forall|k: int| trim_end(s).len() <= k < s.len() ==> is_white_space(#[trigger] s[k]),
        trim_end(s).len() > 0 ==> !is_white_space(s[trim_end(s).len() - 1]),
    decreases s.len(),
{
    if s.len() > 0 && is_white_space(s.last()) {
        let front = s.drop_last();
        trimmed_behind(front);
        assert(trim_end(s) =~= s.take(trim_end(s).len() as int));
        assert forall|k: int| trim_end(s).len() <= k < s.len() implies is_white_space(
            #[trigger] s[k],
        ) by {
            if k < front.len() {
                assert(front[k] == s[k]);
            }
        }
        if trim_end(s).len() > 0 {
            assert(front[trim_end(s).len() - 1] == s[trim_end(s).len() - 1]);
        }
    } else {
        assert(s =~= s.take(s.len() as int));
    }
}

/// A number that is written out is read back as that number, up to the largest that
/// is asked for.
pub proof fn written_numbers_are_read_back(n: nat, maximum: nat)
    ensures
        parse_unsigned(decimal(n), maximum) == (if n <= maximum {
            Some(n)
        } else {
            None
        }),
        all_digits(decimal(n)),
        decimal_value(decimal(n)) == n,
        n > 0 ==> decimal(n)[0] != '0',
    decreases n,
{
    let written = decimal(n);
    if n < 10 {
        assert(written.drop_last() =~= Seq::empty());
        assert(decimal_value(written.drop_last()) == 0);
        assert(written.last() as u32 - '0' as u32 == n);
    } else {
        written_numbers_are_read_back(n / 10, maximum);
        assert(written.drop_last() =~= decimal(n / 10));
        assert(written.last() as u32 - '0' as u32 == n % 10);
        assert(decimal(n / 10).len() > 0);
        assert(written[0] == decimal(n / 10)[0]);
        assert forall|i: int| 0 <= i < written.len() implies is_digit(#[trigger] written[i]) by {
            if i < written.len() - 1 {
                assert(written[i] == decimal(n / 10)[i]);
            }
        }
    }
    assert(is_digit(written[0]));
    assert(unsigned_digits(written) == written);
}

/// Bytes that are written out in hexadecimal are told apart by it, two digits for
/// each.
pub proof fn hex_tells_bytes_apart(a: Seq<u8>, b: Seq<u8>)
    ensures
        hex(a) == hex(b) <==> a == b,
        hex(a).len() == 2 * a.len(),
        forall|i: int|
            0 <= i < hex(a).len() ==> ('0' <= #[trigger] hex(a)[i] <= '9' || 'a' <= hex(a)[i]
                <= 'f'),
{
    if hex(a) == hex(b) {
        assert(hex(a).len() == hex(b).len());
        assert forall|i: int| 0 <= i < a.len() implies a[i] == b[i] by {
            assert(hex(a)[2 * i] == hex(b)[2 * i]);
            assert(hex(a)[2 * i + 1] == hex(b)[2 * i + 1]);
            assert((2 * i) / 2 == i && (2 * i + 1) / 2 == i);
            digits_tell_apart((a[i] / 16) as nat, (b[i] / 16) as nat);
            digits_tell_apart((a[i] % 16) as nat, (b[i] % 16) as nat);
        }
        assert(a =~= b);
    }
}

/// Two digits are the same where they stand for the same number.
proof fn digits_tell_apart(a: nat, b: nat)
    requires
        a < 16,
        b < 16,
    ensures
        digit_char(a) == digit_char(b) <==> a == b,
{
    assert(digit_char(a) as u32 == (if a < 10 {
        48 + a
    } else {
        87 + a
    }));
    assert(digit_char(b) as u32 == (if b < 10 {
        48 + b
    } else {
        87 + b
    }));
}

/// Two texts are the same but for case where they are as long and each letter of one
/// stands against itself or its other case, and everything else against itself.
pub proof fn only_letters_have_a_case(a: Seq<char>, b: Seq<char>)
    ensures
        eq_ignore_case(a, b) <==> a.len() == b.len() && forall|i: int|
            0 <= i < a.len() ==> (#[trigger] a[i] == b[i] || 'a' <= a[i] <= 'z' && a[i] as u32
                == b[i] as u32 + 32 || 'a' <= b[i] <= 'z' && b[i] as u32 == a[i] as u32 + 32),
{
    assert forall|i: int| 0 <= i < a.len() && a.len() == b.len() implies (ascii_lower(
        #[trigger] a[i],
    ) == ascii_lower(b[i]) <==> (a[i] == b[i] || 'a' <= a[i] <= 'z' && a[i] as u32 == b[i] as u32
        + 32 || 'a' <= b[i] <= 'z' && b[i] as u32 == a[i] as u32 + 32)) by {
        lower_case_by_number(a[i]);
        lower_case_by_number(b[i]);
    }
}

/// The lower case of a letter by its number.
proof fn lower_case_by_number(c: char)
    ensures
        ascii_lower(c) as u32 == (if 65 <= c as u32 <= 90 {
            c as u32 + 32
        } else {
            c as int
        }),
{
}

/// A text without the separator stays in one part, together with the part
/// before it.
pub proof fn split_of_extended(s: Seq<char>, more: Seq<char>, separator: char)
    requires
        forall|i: int| 0 <= i < more.len() ==> more[i] != separator,
    ensures
        split_on(s + more, separator) == split_on(s, separator).drop_last().push(
            split_on(s, separator).last() + more,
        ),
        split_on(s, separator).len() > 0,
    decreases s.len() + more.len(),
{
    if more.len() == 0 {
        assert(s + more =~= s);
        if s.len() > 0 {
            split_of_extended(s.drop_last(), Seq::empty(), separator);
        }
        let parts = split_on(s, separator);
        assert(parts.last() + more =~= parts.last());
        assert(parts.drop_last().push(parts.last()) =~= parts);
    } else {
        split_of_extended(s, more.drop_last(), separator);
        assert((s + more).drop_last() =~= s + more.drop_last());
        let parts = split_on(s, separator);
        let before = split_on(s + more.drop_last(), separator);
        assert(before.drop_last() =~= parts.drop_last());
        assert(before.last().push(more.last()) =~= parts.last() + more);
    }
}

/// A text behind a separator is the next part.
pub proof fn split_of_next(s: Seq<char>, more: Seq<char>, separator: char)
    requires
        forall|i: int| 0 <= i < more.len() ==> more[i] != separator,
    ensures
        split_on(s + seq![separator] + more, separator) == split_on(s, separator).push(
            more,
        ),
{
    let longer = s + seq![separator];
    assert(longer.drop_last() =~= s);
    split_of_extended(longer, more, separator);
    let parts = split_on(s, separator);
    assert(split_on(longer, separator) =~= parts.push(Seq::empty()));
    assert(parts.push(Seq::<char>::empty()).drop_last() =~= parts);
    assert(Seq::<char>::empty() + more =~= more);
}

/// Parts that hold no separator are found again between the separators.
pub proof fn rejoined_parts_are_found(parts: Seq<Seq<char>>, separator: char)
    requires
        parts.len() > 0,
        forall|i: int| 0 <= i < parts.len() ==> !(#[trigger] parts[i]).contains(separator),
    ensures
        split_on(rejoined(parts, separator), separator) == parts,
    decreases parts.len(),
{
    let last = parts[parts.len() - 1];
    assert(!last.contains(separator));
    assert forall|i: int| 0 <= i < last.len() implies last[i] != separator by {
        assert(last.contains(last[i]));
    }
    if parts.len() == 1 {
        let nothing = Seq::<char>::empty();
        split_of_extended(nothing, last, separator);
        assert(nothing + last =~= last);
        assert(split_on(nothing, separator) =~= seq![nothing]);
        assert(split_on(last, separator) =~= parts);
    } else {
        let front = parts.drop_last();
        assert(forall|i: int| 0 <= i < front.len() ==> #[trigger] front[i] == parts[i]);
        rejoined_parts_are_found(front, separator);
        let before = rejoined(front, separator);
        split_of_next(before, last, separator);
        assert(before.push(separator) + last =~= before + seq![separator] + last);
        assert(front.push(last) =~= parts);
    }
}

/// A text is split where the pattern first stands in it.
pub proof fn split_where_the_pattern_stands(before: Seq<char>, c: char, behind: Seq<char>)
    requires
        !before.contains(c),
    ensures
        split_once(before + seq![c] + behind, seq![c]) == Some((before, behind)),
{
    let all = before + seq![c] + behind;
    let pattern = seq![c];
    let n = before.len() as int;
    assert(all.subrange(n, n + 1) =~= pattern);
    assert(occurs_at(all, pattern, n));
    assert forall|j: int| #[trigger] occurs_at(all, pattern, j) implies n <= j by {
        if j < n {
            assert(all.subrange(j, j + 1)[0] == pattern[0]);
            assert(before[j] == c);
            assert(before.contains(before[j]));
        }
    }
    assert(first_at(all, pattern, n));
    let i = choose|i: int| first_at(all, pattern, i);
    first_occurrence_is_unique(all, pattern, i, n);
    assert(all.take(n) =~= before);
    assert(all.skip(n + 1) =~= behind);
}

/// Digits without a zero in front are how their number is written out.
pub proof fn digits_are_written_numbers(s: Seq<char>)
    requires
        s.len() > 0,
        all_digits(s),
        s.len() == 1 || s[0] != '0',
    ensures
        decimal(decimal_value(s)) == s,
        s[0] != '0' ==> decimal_value(s) > 0,
    decreases s.len(),
{
    let front = s.drop_last();
    let last = s.last();
    assert(is_digit(s[s.len() - 1]));
    let d = (last as u32 - '0' as u32) as nat;
    assert(d < 10);
    assert(digit_char(d) == last);
    if s.len() == 1 {
        assert(front =~= Seq::empty());
        assert(decimal_value(front) == 0);
        assert(decimal_value(s) == d);
        assert(decimal(d) =~= s);
    } else {
        assert forall|i: int| 0 <= i < front.len() implies is_digit(#[trigger] front[i]) by {
            assert(front[i] == s[i]);
        }
        digits_are_written_numbers(front);
        let n = decimal_value(s);
        assert(n == 10 * decimal_value(front) + d);
        assert(n / 10 == decimal_value(front) && n % 10 == d);
        assert(decimal(n) =~= s);
    }
}

} // verus!
