//! The private desktop of a launch.

use vstd::prelude::*;

use crate::outside;
use crate::text;
use crate::utf16;

verus! {

/// Every right on a desktop.
pub const PRIVATE_DESKTOP_ACCESS: u32 = 0x000f_01ff;

/// The size of the random part of a desktop's name.
pub const DESKTOP_NONCE_BYTES: usize = 16;

/// Why a private desktop could not be had.
#[derive(Debug)]
#[allow(inconsistent_fields)]
pub enum ParentDesktopError {
    /// No random number could be drawn.
    Random(getrandom::Error),
    /// The descriptor could not be parsed.
    DescriptorParse {
        /// The native status.
        code: u32,
    },
    /// The desktop could not be created.
    Create {
        /// The native status.
        code: u32,
    },
    /// The desktop's descriptor could not be read.
    DescriptorReadBack {
        /// The native status.
        code: u32,
    },
    /// The desktop has another descriptor.
    DescriptorMismatch,
}

/// What a private desktop is created with.
#[derive(Debug)]
pub struct PlannedDesktop {
    /// Its name.
    pub name: String,
    /// Its name as a new process is told it, in code units.
    pub startup_name: Vec<u16>,
    /// Its security descriptor as text.
    pub sddl: String,
}

/// The name of a desktop with a random part.
pub open spec fn desktop_name(nonce: Seq<u8>) -> Seq<char> {
    "Cageforge-"@ + text::hex(nonce)
}

/// One entry of a desktop's list as text.
pub open spec fn desktop_grant(sid: Seq<char>) -> Seq<char> {
    "(A;;0x"@ + text::hex_word(PRIVATE_DESKTOP_ACCESS) + ";;;"@ + sid + ")"@
}

/// The security descriptor of a desktop as text: the system, administrators,
/// the owner and the runner's session have every right, no one else any.
pub open spec fn desktop_descriptor(owner_sid: Seq<char>, logon_sid: Seq<char>) -> Seq<char> {
    "O:"@ + owner_sid + "D:P"@ + desktop_grant("SY"@) + desktop_grant("BA"@) + desktop_grant(
        owner_sid,
    ) + desktop_grant(logon_sid)
}

/// One entry of a desktop's list as text.
fn grant_text(sid: &str) -> (grant: String)
    ensures
        grant@ == desktop_grant(sid@),
{
    let mut grant = "(A;;0x".to_owned();
    grant.append(text::hex_word_text(PRIVATE_DESKTOP_ACCESS).as_str());
    grant.append(";;;");
    grant.append(sid);
    grant.append(")");
    grant
}

/// The security descriptor of a desktop as text.
pub fn desktop_sddl(owner_sid: &str, logon_sid: &str) -> (sddl: String)
    ensures
        sddl@ == desktop_descriptor(owner_sid@, logon_sid@),
{
    let mut sddl = "O:".to_owned();
    sddl.append(owner_sid);
    sddl.append("D:P");
    sddl.append(grant_text("SY").as_str());
    sddl.append(grant_text("BA").as_str());
    sddl.append(grant_text(owner_sid).as_str());
    sddl.append(grant_text(logon_sid).as_str());
    sddl
}

/// What a private desktop with a random part is created with.
pub fn desktop_from_nonce(nonce: &Vec<u8>, owner_sid: &str, logon_sid: &str) -> (planned:
    PlannedDesktop)
    ensures
        planned.name@ == desktop_name(nonce@),
        planned.startup_name@ == utf16::encode("Winsta0\\"@ + desktop_name(nonce@)),
        planned.sddl@ == desktop_descriptor(owner_sid@, logon_sid@),
{
    let mut name = "Cageforge-".to_owned();
    name.append(text::hex_text(nonce.as_slice()).as_str());
    let mut startup = "Winsta0\\".to_owned();
    startup.append(name.as_str());
    let startup_name = utf16::encode_text(startup.as_str());
    PlannedDesktop { name, startup_name, sddl: desktop_sddl(owner_sid, logon_sid) }
}

/// What a private desktop is created with, from what was drawn for its name.
pub fn desktop_from_drawn(
    drawn: Result<Vec<u8>, getrandom::Error>,
    owner_sid: &str,
    logon_sid: &str,
) -> (result: Result<PlannedDesktop, ParentDesktopError>)
    ensures
        match drawn {
            Ok(nonce) => result matches Ok(planned) && {
                &&& planned.name@ == desktop_name(nonce@)
                &&& planned.startup_name@ == utf16::encode("Winsta0\\"@ + desktop_name(nonce@))
                &&& planned.sddl@ == desktop_descriptor(owner_sid@, logon_sid@)
            },
            Err(error) => result == Err::<PlannedDesktop, ParentDesktopError>(
                ParentDesktopError::Random(error),
            ),
        },
{
    match drawn {
        Ok(nonce) => Ok(desktop_from_nonce(&nonce, owner_sid, logon_sid)),
        Err(error) => Err(ParentDesktopError::Random(error)),
    }
}

/// What a private desktop is created with that no other launch has, as far
/// as chance allows.
pub fn plan_desktop(owner_sid: &str, logon_sid: &str) -> (result: Result<
    PlannedDesktop,
    ParentDesktopError,
>)
    ensures
        match result {
            Ok(planned) => {
                &&& planned.sddl@ == desktop_descriptor(owner_sid@, logon_sid@)
                &&& exists|nonce: Seq<u8>|
                    {
                        &&& nonce.len() == DESKTOP_NONCE_BYTES
                        &&& planned.name@ == #[trigger] desktop_name(nonce)
                        &&& planned.startup_name@ == utf16::encode(
                            "Winsta0\\"@ + desktop_name(nonce),
                        )
                    }
            },
            Err(error) => error is Random,
        },
{
    desktop_from_drawn(outside::random_bytes(DESKTOP_NONCE_BYTES), owner_sid, logon_sid)
}

/// Whether a desktop has the descriptor that it has to have, both as text.
pub fn verify_descriptor(expected: &str, actual: &str) -> (result: Result<(), ParentDesktopError>)
    ensures
        match result {
            Ok(_) => expected@ == actual@,
            Err(error) => expected@ != actual@ && error is DescriptorMismatch,
        },
{
    if text::same_text(expected, actual) {
        Ok(())
    } else {
        Err(ParentDesktopError::DescriptorMismatch)
    }
}

/// The private desktop is open to the system, the administrators, the owner and the
/// child's own session, each with every right on it, and to no one else; nothing comes
/// from above.
pub proof fn desktops_are_private(owner_sid: Seq<char>, logon_sid: Seq<char>)
    ensures
        desktop_descriptor(owner_sid, logon_sid) == "O:"@ + owner_sid
            + "D:P(A;;0x000f01ff;;;SY)(A;;0x000f01ff;;;BA)(A;;0x000f01ff;;;"@ + owner_sid
            + ")(A;;0x000f01ff;;;"@ + logon_sid + ")"@,
{
    reveal_strlit("O:");
    reveal_strlit("D:P");
    reveal_strlit("SY");
    reveal_strlit("BA");
    reveal_strlit("(A;;0x");
    reveal_strlit(";;;");
    reveal_strlit(")");
    reveal_strlit("D:P(A;;0x000f01ff;;;SY)(A;;0x000f01ff;;;BA)(A;;0x000f01ff;;;");
    reveal_strlit(")(A;;0x000f01ff;;;");
    let rights = text::hex_word(PRIVATE_DESKTOP_ACCESS);
    assert(rights =~= seq!['0', '0', '0', 'f', '0', '1', 'f', 'f']);
    assert(desktop_descriptor(owner_sid, logon_sid) =~= "O:"@ + owner_sid
        + "D:P(A;;0x000f01ff;;;SY)(A;;0x000f01ff;;;BA)(A;;0x000f01ff;;;"@ + owner_sid
        + ")(A;;0x000f01ff;;;"@ + logon_sid + ")"@);
}

} // verus!
