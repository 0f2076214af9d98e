//! The key under which everything that belongs to one user is kept.

use vstd::prelude::*;

use crate::outside;
use crate::text;

verus! {

/// How many characters of the key stand in the name of a managed account.
pub const ACCOUNT_KEY_LENGTH: usize = 12;

/// The key of a user: the digest of the SID in upper case, in hexadecimal.
pub open spec fn key_of(owner_sid: Seq<char>) -> Seq<char> {
    text::hex(outside::sha256_digest(vstd::utf8::encode_utf8(text::to_ascii_upper(owner_sid))))
}

/// The key of a user.
pub fn owner_key(owner_sid: &str) -> (key: String)
    ensures
        key@ == key_of(owner_sid@),
        key@.len() == 64,
{
    let upper = text::upper_case(owner_sid);
    let digest = outside::sha256(upper.as_str().as_bytes());
    text::hex_text(digest.as_slice())
}

/// The key does not depend on the case in which a SID is written.
pub proof fn owner_key_ignores_case(a: Seq<char>, b: Seq<char>)
    requires
        text::eq_ignore_case(a, b),
    ensures
        key_of(a) == key_of(b),
{
    text::ignoring_case_is_comparing_upper_case(a, b);
}

/// The names of the accounts and the group that are managed for a user.
#[derive(Debug)]
pub struct ManagedAccountNames {
    /// The account without direct networking.
    pub offline: String,
    /// The account with direct networking.
    pub online: String,
    /// The group.
    pub group: String,
}

/// The name of a managed account.
pub open spec fn managed_name(prefix: Seq<char>, owner_sid: Seq<char>) -> Seq<char> {
    prefix + key_of(owner_sid).take(ACCOUNT_KEY_LENGTH as int)
}

impl ManagedAccountNames {
    /// The names for a user.
    pub fn for_owner(owner_sid: &str) -> (names: ManagedAccountNames)
        ensures
            names.offline@ == managed_name("CgfOff_"@, owner_sid@),
            names.online@ == managed_name("CgfOn_"@, owner_sid@),
            names.group@ == managed_name("CgfGrp_"@, owner_sid@),
    {
        let key = text::chars_of(owner_key(owner_sid).as_str());
        let short = text::text_of(text::part(key.as_slice(), 0, ACCOUNT_KEY_LENGTH).as_slice());
        let ghost expected = key_of(owner_sid@).take(ACCOUNT_KEY_LENGTH as int);
        assert(short@ =~= expected);
        let mut offline = "CgfOff_".to_owned();
        offline.append(short.as_str());
        let mut online = "CgfOn_".to_owned();
        online.append(short.as_str());
        let mut group = "CgfGrp_".to_owned();
        group.append(short.as_str());
        ManagedAccountNames { offline, online, group }
    }
}

} // verus!
