//! Identities that no account has: SIDs out of random bytes.

use vstd::prelude::*;

use crate::bytes;
use crate::outside;
use crate::text;

verus! {

/// How many random bytes such an identity takes.
pub const RANDOM_SID_BYTES: usize = 16;

/// A subauthority of such an identity, as text.
pub open spec fn subauthority(drawn: Seq<u8>, i: int) -> Seq<char> {
    text::decimal(bytes::word_at(drawn, 4 * i) as nat)
}

/// The identity that sixteen bytes make up: four subauthorities in the name
/// space of account domains.
pub open spec fn sid_of(drawn: Seq<u8>) -> Seq<char> {
    "S-1-5-21-"@ + subauthority(drawn, 0) + "-"@ + subauthority(drawn, 1) + "-"@ + subauthority(
        drawn,
        2,
    ) + "-"@ + subauthority(drawn, 3)
}

/// Whether a text is an identity that can be drawn.
pub open spec fn is_random_sid(sid: Seq<char>) -> bool {
    exists|drawn: Seq<u8>| drawn.len() == RANDOM_SID_BYTES && sid == #[trigger] sid_of(drawn)
}

/// Writes the identity that sixteen bytes make up.
pub fn sid_from_bytes(drawn: &[u8]) -> (sid: String)
    requires
        drawn@.len() == RANDOM_SID_BYTES,
    ensures
        sid@ == sid_of(drawn@),
{
    let mut sid = "S-1-5-21-".to_owned();
    let first = text::decimal_text(bytes::read_word(drawn, 0) as u64);
    let second = text::decimal_text(bytes::read_word(drawn, 4) as u64);
    let third = text::decimal_text(bytes::read_word(drawn, 8) as u64);
    let fourth = text::decimal_text(bytes::read_word(drawn, 12) as u64);
    sid.append(first.as_str());
    sid.append("-");
    sid.append(second.as_str());
    sid.append("-");
    sid.append(third.as_str());
    sid.append("-");
    sid.append(fourth.as_str());
    sid
}

/// Draws an identity. It is one that sixteen bytes make up, whichever were
/// drawn.
pub fn draw_sid() -> (sid: Result<String, getrandom::Error>)
    ensures
        sid matches Ok(drawn) ==> is_random_sid(drawn@),
{
    sid_from_drawn(outside::random_bytes(RANDOM_SID_BYTES))
}

/// What a draw comes to: the identity that the bytes make up, or why none
/// were drawn.
pub fn sid_from_drawn(drawn: Result<Vec<u8>, getrandom::Error>) -> (sid: Result<
    String,
    getrandom::Error,
>)
    requires
        drawn matches Ok(list) ==> list@.len() == RANDOM_SID_BYTES,
    ensures
        match drawn {
            Ok(list) => sid matches Ok(written) && written@ == sid_of(list@),
            Err(error) => sid == Err::<String, getrandom::Error>(error),
        },
{
    match drawn {
        Ok(list) => Ok(sid_from_bytes(list.as_slice())),
        Err(error) => Err(error),
    }
}

/// A decimal spelling holds digits only.
proof fn decimal_is_digits(n: nat)
    ensures
        forall|i: int|
            0 <= i < text::decimal(n).len() ==> text::is_digit(#[trigger] text::decimal(n)[i]),
        text::decimal(n).len() > 0,
    decreases n,
{
    if n >= 10 {
        decimal_is_digits(n / 10);
    }
}

/// A text without the separator stays in one part, together with the part
/// before it.
proof fn split_of_extended(s: Seq<char>, more: Seq<char>, separator: char)
    requires
        forall|i: int| 0 <= i < more.len() ==> more[i] != separator,
    ensures
        text::split_on(s + more, separator) == text::split_on(s, separator).drop_last().push(
            text::split_on(s, separator).last() + more,
        ),
        text::split_on(s, separator).len() > 0,
{
    text::split_of_extended(s, more, separator);
}

/// A text behind a separator is the next part.
proof fn split_of_next(s: Seq<char>, more: Seq<char>, separator: char)
    requires
        forall|i: int| 0 <= i < more.len() ==> more[i] != separator,
    ensures
        text::split_on(s + seq![separator] + more, separator) == text::split_on(s, separator).push(
            more,
        ),
{
    text::split_of_next(s, more, separator);
}

/// Such an identity has eight parts: the name space's four and four numbers
/// that each fit in 32 bits.
pub proof fn random_sid_has_eight_parts(drawn: Seq<u8>)
    requires
        drawn.len() == RANDOM_SID_BYTES,
    ensures
        text::split_on(sid_of(drawn), '-') == seq![
            "S"@,
            "1"@,
            "5"@,
            "21"@,
            text::decimal(bytes::word_at(drawn, 0) as nat),
            text::decimal(bytes::word_at(drawn, 4) as nat),
            text::decimal(bytes::word_at(drawn, 8) as nat),
            text::decimal(bytes::word_at(drawn, 12) as nat),
        ],
{
    reveal_strlit("S-1-5-21-");
    reveal_strlit("-");
    reveal_strlit("S");
    reveal_strlit("1");
    reveal_strlit("5");
    reveal_strlit("21");
    let none = Seq::<char>::empty();
    let p0 = "S"@;
    let p1 = p0 + seq!['-'] + "1"@;
    let p2 = p1 + seq!['-'] + "5"@;
    let p3 = p2 + seq!['-'] + "21"@;
    let p4 = p3 + seq!['-'] + subauthority(drawn, 0);
    let p5 = p4 + seq!['-'] + subauthority(drawn, 1);
    let p6 = p5 + seq!['-'] + subauthority(drawn, 2);
    let p7 = p6 + seq!['-'] + subauthority(drawn, 3);
    split_of_extended(none, p0, '-');
    assert(none + p0 =~= p0);
    assert(text::split_on(p0, '-') =~= seq![p0]);
    split_of_next(p0, "1"@, '-');
    split_of_next(p1, "5"@, '-');
    split_of_next(p2, "21"@, '-');
    decimal_is_digits(bytes::word_at(drawn, 0) as nat);
    decimal_is_digits(bytes::word_at(drawn, 4) as nat);
    decimal_is_digits(bytes::word_at(drawn, 8) as nat);
    decimal_is_digits(bytes::word_at(drawn, 12) as nat);
    split_of_next(p3, subauthority(drawn, 0), '-');
    split_of_next(p4, subauthority(drawn, 1), '-');
    split_of_next(p5, subauthority(drawn, 2), '-');
    split_of_next(p6, subauthority(drawn, 3), '-');
    assert(p3 + seq!['-'] =~= "S-1-5-21-"@);
    assert("-"@ =~= seq!['-']);
    assert(p7 =~= sid_of(drawn));
}

} // verus!
