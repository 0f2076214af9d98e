//! The logon rights of the managed accounts.

use vstd::prelude::*;

use crate::native_strings::ERROR_INVALID_DATA;
use crate::setup_error::WindowsSetupVerificationError;
use crate::text;
use crate::utf16;

verus! {

/// A right that a managed account has to have: it keeps the account from
/// remote sessions.
pub const REQUIRED_RIGHT: &'static str = "SeDenyRemoteInteractiveLogonRight";

/// A right that a managed account must not have: it lets it run batches.
pub const BATCH_LOGON_RIGHT: &'static str = "SeBatchLogonRight";

/// A right that a managed account must not have: it would keep the account
/// from the desktop.
pub const DENY_INTERACTIVE_RIGHT: &'static str = "SeDenyInteractiveLogonRight";

/// Whether a right is among others, whatever its case.
pub open spec fn has_right(rights: Seq<String>, right: Seq<char>) -> bool {
    exists|i: int| 0 <= i < rights.len() && text::eq_ignore_case((#[trigger] rights[i])@, right)
}

/// Whether a right is among others, whatever its case.
fn lists_right(rights: &Vec<String>, right: &str) -> (yes: bool)
    ensures
        yes == has_right(rights@, right@),
{
    for i in 0..rights.len()
        invariant
            forall|j: int| 0 <= j < i ==> !text::eq_ignore_case((#[trigger] rights@[j])@, right@),
    {
        if text::same_text_ignoring_case(rights[i].as_str(), right) {
            return true;
        }
    }
    false
}

/// Refuses an account whose rights are not as they have to be.
pub fn verify_rights<E>(account_sid: &str, rights: &Vec<String>) -> (result: Result<
    (),
    WindowsSetupVerificationError<E>,
>)
    ensures
        match result {
            Ok(_) => has_right(rights@, "SeDenyRemoteInteractiveLogonRight"@) && !has_right(
                rights@,
                "SeBatchLogonRight"@,
            ) && !has_right(rights@, "SeDenyInteractiveLogonRight"@),
            Err(error) => if !has_right(rights@, "SeDenyRemoteInteractiveLogonRight"@) {
                error matches WindowsSetupVerificationError::MissingAccountRight { account, right }
                    && account@ == account_sid@ && right@ == "SeDenyRemoteInteractiveLogonRight"@
            } else {
                error matches WindowsSetupVerificationError::UnexpectedAccountRight {
                    account,
                    right,
                } && account@ == account_sid@ && has_right(rights@, right@) && right@ == (
                if has_right(rights@, "SeBatchLogonRight"@) {
                    "SeBatchLogonRight"@
                } else {
                    "SeDenyInteractiveLogonRight"@
                })
            },
        },
{
    if !lists_right(rights, REQUIRED_RIGHT) {
        return Err(
            WindowsSetupVerificationError::MissingAccountRight {
                account: account_sid.to_owned(),
                right: REQUIRED_RIGHT,
            },
        );
    }
    if lists_right(rights, BATCH_LOGON_RIGHT) {
        return Err(
            WindowsSetupVerificationError::UnexpectedAccountRight {
                account: account_sid.to_owned(),
                right: BATCH_LOGON_RIGHT,
            },
        );
    }
    if lists_right(rights, DENY_INTERACTIVE_RIGHT) {
        return Err(
            WindowsSetupVerificationError::UnexpectedAccountRight {
                account: account_sid.to_owned(),
                right: DENY_INTERACTIVE_RIGHT,
            },
        );
    }
    Ok(())
}

/// Whether a counted text has content that makes sense: its length in bytes
/// is whole code units and no more than there is room for.
pub open spec fn is_counted_text(length: u16, maximum: u16, present: bool) -> bool {
    length > 0 && present && length % 2 == 0 && length <= maximum
}

/// Reads a counted text; one that makes no sense is read as empty.
pub fn lsa_string(length: u16, maximum: u16, units: Option<Vec<u16>>) -> (value: String)
    requires
        units matches Some(list) ==> (is_counted_text(length, maximum, true) ==> list@.len()
            == length / 2),
    ensures
        value@ == (match units {
            Some(list) => if is_counted_text(length, maximum, true) {
                utf16::decode_lossy(list@)
            } else {
                Seq::empty()
            },
            None => Seq::empty(),
        }),
{
    match units {
        Some(list) => {
            if length == 0 || length % 2 != 0 || length > maximum {
                String::new()
            } else {
                utf16::decode_units_lossy(list.as_slice())
            }
        },
        None => String::new(),
    }
}

/// What reading the rights came to: a count without rights makes no sense.
pub fn enumerated_rights<E>(account_sid: &str, count: u32, rights: Option<Vec<String>>) -> (result:
    Result<Vec<String>, WindowsSetupVerificationError<E>>)
    ensures
        match result {
            Ok(list) => if count == 0 {
                list@.len() == 0
            } else {
                rights == Some(list)
            },
            Err(error) => count > 0 && rights is None && (error
                matches WindowsSetupVerificationError::AccountRightsRead { account, code }
                && account@ == account_sid@ && code == ERROR_INVALID_DATA),
        },
{
    if count == 0 {
        return Ok(Vec::new());
    }
    match rights {
        Some(list) => Ok(list),
        None => Err(
            WindowsSetupVerificationError::AccountRightsRead {
                account: account_sid.to_owned(),
                code: ERROR_INVALID_DATA,
            },
        ),
    }
}

} // verus!
