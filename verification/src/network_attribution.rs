//! Which process opened a connection to the proxy, and under which
//! restricting identities it runs.

use vstd::prelude::*;

use crate::aces::SID_HEADER_BYTES;
use crate::bytes;
use crate::native_strings::ERROR_INVALID_DATA;
use crate::text;

verus! {

/// The largest connection table that is read.
pub const MAX_TCP_TABLE_BYTES: usize = 67_108_864;

/// How often a table that keeps growing is read.
pub const MAX_TCP_TABLE_READ_ATTEMPTS: usize = 8;

/// The largest list of restricting identities that is read.
pub const MAX_RESTRICTED_SID_BYTES: usize = 1_048_576;

/// Where the rows of a connection table start.
pub const TCP_ROWS_OFFSET: usize = 8;

/// The length of a row of a connection table.
pub const TCP_ROW_BYTES: usize = 160;

/// The native status of a call that succeeded.
pub const NO_ERROR: u32 = 0;

/// The native status of a call that needs more room.
pub const ERROR_INSUFFICIENT_BUFFER: u32 = 122;

/// An IPv4 address, its first octet most significant, and a port.
#[derive(Clone, Copy, Debug, PartialEq, Eq, Structural)]
pub struct SocketV4 {
    /// The address.
    pub address: u32,
    /// The port.
    pub port: u16,
}

impl SocketV4 {
    /// Whether the address is one of this machine for itself.
    pub open spec fn loopback(self) -> bool {
        text::big_endian(self.address)[0] == 127
    }

    /// Whether the address is one of this machine for itself.
    pub fn is_loopback(self) -> (yes: bool)
        ensures
            yes == self.loopback(),
    {
        self.address / 0x100_0000 == 127
    }
}

/// One end of a connection.
#[derive(Clone, Copy, Debug, PartialEq, Eq, Structural)]
pub enum Endpoint {
    /// An IPv4 one.
    V4(SocketV4),
    /// An IPv6 one.
    V6,
}

/// Why a connection cannot be traced to its process.
#[derive(Clone, Copy, Debug, PartialEq, Eq, Structural)]
#[allow(inconsistent_fields)]
pub enum WindowsNetworkAttributionError {
    /// An end is not IPv4.
    NonIpv4Connection,
    /// The accepting end is not on loopback.
    NonLoopbackListener {
        /// The end.
        address: SocketV4,
    },
    /// The connecting end is not on loopback.
    NonLoopbackPeer {
        /// The end.
        address: SocketV4,
    },
    /// The size of the table could not be asked for.
    TcpTableSize {
        /// The native status.
        code: u32,
    },
    /// The size of the table is out of bounds.
    TcpTableSizeInvalid {
        /// The size.
        actual: usize,
        /// The largest that is accepted.
        maximum: usize,
    },
    /// The table could not be read.
    TcpTableRead {
        /// The native status.
        code: u32,
    },
    /// The table kept growing.
    TcpTableUnstable {
        /// How often it was read.
        attempts: usize,
    },
    /// The table is cut off.
    TcpTableMalformed,
    /// No row belongs to the connection.
    ConnectionOwnerMissing,
    /// Several rows belong to the connection.
    ConnectionOwnerDuplicate,
    /// The owner changed meanwhile.
    ConnectionOwnerChanged,
    /// The process's times could not be read.
    ProcessTimes {
        /// The native status.
        code: u32,
    },
    /// The process is younger than the connection.
    ProcessIdentityMismatch,
    /// The process could not be opened.
    ProcessOpen {
        /// The process.
        process_id: u32,
        /// The native status.
        code: u32,
    },
    /// The process's token could not be opened.
    TokenOpen {
        /// The native status.
        code: u32,
    },
    /// Asking for a size alone succeeded.
    RestrictedSidSizeUnexpectedSuccess {
        /// The size.
        byte_length: u32,
    },
    /// The size of the restricting identities could not be asked for.
    RestrictedSidSize {
        /// The native status.
        code: u32,
    },
    /// The size of the restricting identities is out of bounds.
    RestrictedSidSizeInvalid {
        /// The size.
        actual: usize,
        /// The largest that is accepted.
        maximum: usize,
    },
    /// The restricting identities could not be read.
    RestrictedSidRead {
        /// The native status.
        code: u32,
    },
    /// The restricting identities are cut off.
    RestrictedSidMalformed,
    /// A restricting identity is no valid SID.
    RestrictedSidInvalid,
    /// A restricting identity could not be written as text.
    RestrictedSidFormat {
        /// The native status.
        code: u32,
    },
}

/// A row of the connection table, as the system keeps it: each address with
/// its first octet least significant, each port with its bytes exchanged in
/// the low half.
#[derive(Clone, Copy, Debug, PartialEq, Eq, Structural)]
pub struct TcpRow {
    /// The process's end.
    pub local_address: u32,
    /// The process's port.
    pub local_port: u32,
    /// The other end.
    pub remote_address: u32,
    /// The other port.
    pub remote_port: u32,
    /// The process.
    pub process_id: u32,
    /// When the connection was made.
    pub created: i64,
}

/// The process behind a connection.
#[derive(Clone, Copy, Debug, PartialEq, Eq, Structural)]
pub struct ConnectionOwner {
    /// The process.
    pub process_id: u32,
    /// When the connection was made.
    pub connection_created: i64,
}

/// The port that a table's word stands for.
pub open spec fn port_of(table_port: u32) -> u16 {
    (table_port % 0x100 * 0x100 + table_port / 0x100 % 0x100) as u16
}

/// The port that a table's word stands for.
pub fn tcp_port(table_port: u32) -> (port: u16)
    ensures
        port == port_of(table_port),
{
    (table_port % 0x100 * 0x100 + table_port / 0x100 % 0x100) as u16
}

/// Whether a table's word is an address: its bytes, least significant first,
/// are the octets.
pub open spec fn address_of(table_address: u32, address: u32) -> bool {
    bytes::little_endian(table_address as nat, 4) == text::big_endian(address)
}

/// Whether a table's word is an address.
pub fn ipv4_matches(table_address: u32, address: u32) -> (same: bool)
    ensures
        same == address_of(table_address, address),
{
    let ghost stored = bytes::little_endian(table_address as nat, 4);
    let ghost octets = text::big_endian(address);
    proof {
        reveal_with_fuel(bytes::little_endian, 5);
        assert(stored.len() == 4);
        assert(stored[0] == (table_address % 0x100) as u8);
        assert(stored[1] == (table_address / 0x100 % 0x100) as u8);
        assert(table_address as nat / 256 / 256 == table_address / 0x1_0000);
        assert(stored[2] == (table_address / 0x1_0000 % 0x100) as u8);
        assert(table_address as nat / 256 / 256 / 256 == table_address / 0x100_0000);
        assert(stored[3] == (table_address / 0x100_0000) as u8);
    }
    let same = table_address % 0x100 == address / 0x100_0000 && table_address / 0x100 % 0x100
        == address / 0x1_0000 % 0x100 && table_address / 0x1_0000 % 0x100 == address / 0x100 % 0x100
        && table_address / 0x100_0000 == address % 0x100;
    assert(same == (stored =~= octets)) by {
        if stored =~= octets {
            assert(stored[0] == octets[0]);
            assert(stored[1] == octets[1]);
            assert(stored[2] == octets[2]);
            assert(stored[3] == octets[3]);
        }
    }
    same
}

/// Whether a row is the connecting side of an accepted connection.
pub open spec fn is_client_row(row: TcpRow, local: SocketV4, peer: SocketV4) -> bool {
    &&& address_of(row.local_address, peer.address)
    &&& port_of(row.local_port) == peer.port
    &&& address_of(row.remote_address, local.address)
    &&& port_of(row.remote_port) == local.port
}

/// Whether a row is the connecting side of an accepted connection.
pub fn client_row_matches(row: &TcpRow, accepted_local: SocketV4, accepted_peer: SocketV4) -> (yes:
    bool)
    ensures
        yes == is_client_row(*row, accepted_local, accepted_peer),
{
    ipv4_matches(row.local_address, accepted_peer.address) && tcp_port(row.local_port)
        == accepted_peer.port && ipv4_matches(row.remote_address, accepted_local.address)
        && tcp_port(row.remote_port) == accepted_local.port
}

/// The rows that are the connecting side of an accepted connection.
pub open spec fn client_rows(rows: Seq<TcpRow>, local: SocketV4, peer: SocketV4) -> Seq<TcpRow> {
    rows.filter(|row: TcpRow| is_client_row(row, local, peer))
}

/// The one process behind an accepted connection.
pub open spec fn owner_of(rows: Seq<TcpRow>, local: SocketV4, peer: SocketV4) -> Result<
    ConnectionOwner,
    WindowsNetworkAttributionError,
> {
    let found = client_rows(rows, local, peer);
    if found.len() == 0 {
        Err(WindowsNetworkAttributionError::ConnectionOwnerMissing)
    } else if found.len() > 1 {
        Err(WindowsNetworkAttributionError::ConnectionOwnerDuplicate)
    } else {
        Ok(
            ConnectionOwner {
                process_id: found[0].process_id,
                connection_created: found[0].created,
            },
        )
    }
}

/// Finds the one process behind an accepted connection.
pub fn unique_client_owner(
    rows: &[TcpRow],
    accepted_local: SocketV4,
    accepted_peer: SocketV4,
) -> (owner: Result<ConnectionOwner, WindowsNetworkAttributionError>)
    ensures
        owner == owner_of(rows@, accepted_local, accepted_peer),
{
    let mut found: Vec<TcpRow> = Vec::new();
    assert(rows@.take(0) =~= Seq::<TcpRow>::empty());
    proof {
        reveal(Seq::filter);
    }
    for i in 0..rows.len()
        invariant
            found@ == client_rows(rows@.take(i as int), accepted_local, accepted_peer),
    {
        proof {
            reveal(Seq::filter);
            assert(rows@.take(i + 1).drop_last() =~= rows@.take(i as int));
        }
        if client_row_matches(&rows[i], accepted_local, accepted_peer) {
            found.push(rows[i]);
        }
    }
    assert(rows@.take(rows@.len() as int) =~= rows@);
    if found.len() == 0 {
        Err(WindowsNetworkAttributionError::ConnectionOwnerMissing)
    } else if found.len() > 1 {
        Err(WindowsNetworkAttributionError::ConnectionOwnerDuplicate)
    } else {
        Ok(
            ConnectionOwner {
                process_id: found[0].process_id,
                connection_created: found[0].created,
            },
        )
    }
}

/// A table's word and an address stand for each other: a word is one address
/// only, an address has one word only, and the first octet of the address, its most
/// significant byte, is the least significant byte of the word, and so on.
pub proof fn a_word_is_one_address(word: u32, other_word: u32, address: u32, other: u32)
    requires
        address_of(word, address),
    ensures
        word % 0x100 == address / 0x100_0000,
        word / 0x100 % 0x100 == address / 0x1_0000 % 0x100,
        word / 0x1_0000 % 0x100 == address / 0x100 % 0x100,
        word / 0x100_0000 == address % 0x100,
        address_of(word, other) <==> other == address,
        address_of(other_word, address) <==> other_word == word,
{
    reveal_with_fuel(bytes::little_endian, 5);
    octets_of(word, address);
    if address_of(word, other) {
        octets_of(word, other);
        assert(other == address);
    }
    if address_of(other_word, address) {
        octets_of(other_word, address);
        assert(other_word == word);
    }
}

/// The octets of an address in a table's word.
proof fn octets_of(word: u32, address: u32)
    requires
        address_of(word, address),
    ensures
        word % 0x100 == address / 0x100_0000,
        word / 0x100 % 0x100 == address / 0x1_0000 % 0x100,
        word / 0x1_0000 % 0x100 == address / 0x100 % 0x100,
        word / 0x100_0000 == address % 0x100,
{
    reveal_with_fuel(bytes::little_endian, 5);
    let stored = bytes::little_endian(word as nat, 4);
    let octets = text::big_endian(address);
    assert(stored[0] == (word % 0x100) as u8);
    assert(stored[1] == (word / 0x100 % 0x100) as u8);
    assert(word as nat / 256 / 256 == word / 0x1_0000);
    assert(stored[2] == (word / 0x1_0000 % 0x100) as u8);
    assert(word as nat / 256 / 256 / 256 == word / 0x100_0000);
    assert(stored[3] == (word / 0x100_0000) as u8);
    assert(octets[0] == (address / 0x100_0000) as u8);
    assert(octets[1] == (address / 0x1_0000 % 0x100) as u8);
    assert(octets[2] == (address / 0x100 % 0x100) as u8);
    assert(octets[3] == (address % 0x100) as u8);
}

/// A row is the connecting side of one connection at most: from a row the
/// accepting and the connecting end can be told, address and port. The connecting
/// end is the row's own end, the accepting one its other end, and the same row with
/// its ends exchanged is the connecting side of the connection the other way.
pub proof fn a_row_is_one_connection(
    row: TcpRow,
    local: SocketV4,
    peer: SocketV4,
    other_local: SocketV4,
    other_peer: SocketV4,
)
    requires
        is_client_row(row, local, peer),
    ensures
        row.local_port % 0x100 == peer.port / 0x100,
        row.local_port / 0x100 % 0x100 == peer.port % 0x100,
        row.remote_port % 0x100 == local.port / 0x100,
        row.remote_port / 0x100 % 0x100 == local.port % 0x100,
        row.local_address % 0x100 == peer.address / 0x100_0000,
        row.remote_address % 0x100 == local.address / 0x100_0000,
        is_client_row(row, other_local, other_peer) <==> other_local == local && other_peer == peer,
        is_client_row(
            TcpRow {
                local_address: row.remote_address,
                local_port: row.remote_port,
                remote_address: row.local_address,
                remote_port: row.local_port,
                process_id: row.process_id,
                created: row.created,
            },
            peer,
            local,
        ),
{
    a_word_is_one_address(row.local_address, row.local_address, peer.address, other_peer.address);
    a_word_is_one_address(
        row.remote_address,
        row.remote_address,
        local.address,
        other_local.address,
    );
}

/// Every connection has a connecting side: a row whose own end is the
/// connecting one and whose other end is the accepting one, whatever process it
/// belongs to and whenever it was made.
pub proof fn every_connection_has_a_row(
    local: SocketV4,
    peer: SocketV4,
    row: TcpRow,
)
    requires
        row.local_port == peer.port % 0x100 * 0x100 + peer.port / 0x100,
        row.remote_port == local.port % 0x100 * 0x100 + local.port / 0x100,
        bytes::little_endian(row.local_address as nat, 4) == text::big_endian(peer.address),
        bytes::little_endian(row.remote_address as nat, 4) == text::big_endian(local.address),
    ensures
        is_client_row(row, local, peer),
{
}

/// What filtering rows leaves, where one more row comes behind them.
proof fn client_rows_after(rows: Seq<TcpRow>, row: TcpRow, local: SocketV4, peer: SocketV4)
    ensures
        client_rows(rows.push(row), local, peer) == (if is_client_row(row, local, peer) {
            client_rows(rows, local, peer).push(row)
        } else {
            client_rows(rows, local, peer)
        }),
{
    reveal(Seq::filter);
    assert(rows.push(row).drop_last() =~= rows);
}

/// What is left of rows by filtering stands somewhere among them.
proof fn client_rows_are_rows(rows: Seq<TcpRow>, local: SocketV4, peer: SocketV4)
    ensures
        client_rows(rows, local, peer).len() == 0 <==> forall|i: int|
            0 <= i < rows.len() ==> !is_client_row(#[trigger] rows[i], local, peer),
        client_rows(rows, local, peer).len() > 1 <==> exists|i: int, j: int|
            0 <= i < j < rows.len() && is_client_row(#[trigger] rows[i], local, peer)
                && is_client_row(#[trigger] rows[j], local, peer),
        client_rows(rows, local, peer).len() == 1 ==> exists|i: int|
            0 <= i < rows.len() && is_client_row(#[trigger] rows[i], local, peer) && rows[i]
                == client_rows(rows, local, peer)[0],
    decreases rows.len(),
{
    if rows.len() == 0 {
        reveal(Seq::filter);
    } else {
        let front = rows.drop_last();
        let last = rows.last();
        let n = rows.len() - 1;
        assert(front.push(last) =~= rows);
        client_rows_after(front, last, local, peer);
        client_rows_are_rows(front, local, peer);
        let held = client_rows(front, local, peer);
        let now = client_rows(rows, local, peer);
        assert forall|i: int| 0 <= i < front.len() implies #[trigger] front[i] == rows[i] by {}
        if held.len() > 0 {
            let i = choose|i: int|
                0 <= i < front.len() && is_client_row(#[trigger] front[i], local, peer);
            assert(is_client_row(rows[i], local, peer));
            if is_client_row(last, local, peer) {
                assert(is_client_row(rows[n], local, peer));
            }
        }
        if held.len() > 1 {
            let (i, j) = choose|i: int, j: int|
                0 <= i < j < front.len() && is_client_row(#[trigger] front[i], local, peer)
                    && is_client_row(#[trigger] front[j], local, peer);
            assert(is_client_row(rows[i], local, peer) && is_client_row(rows[j], local, peer));
        }
        if exists|i: int, j: int|
            0 <= i < j < rows.len() && is_client_row(#[trigger] rows[i], local, peer)
                && is_client_row(#[trigger] rows[j], local, peer) {
            let (i, j) = choose|i: int, j: int|
                0 <= i < j < rows.len() && is_client_row(#[trigger] rows[i], local, peer)
                    && is_client_row(#[trigger] rows[j], local, peer);
            assert(is_client_row(front[i], local, peer));
            if j < n {
                assert(is_client_row(front[j], local, peer));
            }
        }
        if now.len() == 1 {
            if is_client_row(last, local, peer) {
                assert(is_client_row(rows[n], local, peer));
                assert(now[0] == rows[n]);
            } else {
                let i = choose|i: int|
                    0 <= i < front.len() && is_client_row(#[trigger] front[i], local, peer)
                        && front[i] == held[0];
                assert(is_client_row(rows[i], local, peer));
            }
        }
        if now.len() == 0 {
            assert forall|i: int| 0 <= i < rows.len() implies !is_client_row(
                #[trigger] rows[i],
                local,
                peer,
            ) by {
                if i < n {
                    assert(!is_client_row(front[i], local, peer));
                }
            }
        }
    }
}

/// The owner of a connection is the process of the only row that is its
/// connecting side. None is found exactly where no row is, and several exactly where
/// two rows are.
pub proof fn an_owner_has_the_only_row(rows: Seq<TcpRow>, local: SocketV4, peer: SocketV4)
    ensures
        owner_of(rows, local, peer) matches Ok(owner) ==> exists|i: int|
            {
                &&& 0 <= i < rows.len()
                &&& is_client_row(#[trigger] rows[i], local, peer)
                &&& owner.process_id == rows[i].process_id
                &&& owner.connection_created == rows[i].created
                &&& forall|j: int|
                    0 <= j < rows.len() && is_client_row(#[trigger] rows[j], local, peer) ==> j == i
            },
        owner_of(rows, local, peer) == Err::<ConnectionOwner, WindowsNetworkAttributionError>(
            WindowsNetworkAttributionError::ConnectionOwnerMissing,
        ) <==> forall|i: int|
            0 <= i < rows.len() ==> !is_client_row(#[trigger] rows[i], local, peer),
        owner_of(rows, local, peer) == Err::<ConnectionOwner, WindowsNetworkAttributionError>(
            WindowsNetworkAttributionError::ConnectionOwnerDuplicate,
        ) <==> exists|i: int, j: int|
            0 <= i < j < rows.len() && is_client_row(#[trigger] rows[i], local, peer)
                && is_client_row(#[trigger] rows[j], local, peer),
{
    client_rows_are_rows(rows, local, peer);
    let found = client_rows(rows, local, peer);
    if found.len() == 1 {
        let i = choose|i: int|
            0 <= i < rows.len() && is_client_row(#[trigger] rows[i], local, peer) && rows[i]
                == found[0];
        assert forall|j: int|
            0 <= j < rows.len() && is_client_row(#[trigger] rows[j], local, peer) implies j
            == i by {
            if j < i {
                assert(is_client_row(rows[j], local, peer) && is_client_row(rows[i], local, peer));
            } else if i < j {
                assert(is_client_row(rows[i], local, peer) && is_client_row(rows[j], local, peer));
            }
        }
    }
}

/// The rows of other connections never change whom a connection belongs to: a
/// row with another port or another address on either end counts for nothing.
pub proof fn rows_of_others_do_not_count(
    rows: Seq<TcpRow>,
    row: TcpRow,
    local: SocketV4,
    peer: SocketV4,
)
    requires
        row.local_port % 0x100 * 0x100 + row.local_port / 0x100 % 0x100 != peer.port
            || row.remote_port % 0x100 * 0x100 + row.remote_port / 0x100 % 0x100 != local.port
            || bytes::little_endian(row.local_address as nat, 4) != text::big_endian(peer.address)
            || bytes::little_endian(row.remote_address as nat, 4) != text::big_endian(
            local.address,
        ),
    ensures
        owner_of(rows.push(row), local, peer) == owner_of(rows, local, peer),
{
    client_rows_after(rows, row, local, peer);
}

/// One more row of the connection itself is its owner's where there was none,
/// and one too many where there was one.
pub proof fn rows_of_the_connection_count(
    rows: Seq<TcpRow>,
    row: TcpRow,
    local: SocketV4,
    peer: SocketV4,
)
    requires
        is_client_row(row, local, peer),
    ensures
        owner_of(rows.push(row), local, peer) == (if owner_of(rows, local, peer) == Err::<
            ConnectionOwner,
            WindowsNetworkAttributionError,
        >(WindowsNetworkAttributionError::ConnectionOwnerMissing) {
            Ok::<ConnectionOwner, WindowsNetworkAttributionError>(
                ConnectionOwner {
                    process_id: row.process_id,
                    connection_created: row.created,
                },
            )
        } else {
            Err(WindowsNetworkAttributionError::ConnectionOwnerDuplicate)
        }),
{
    client_rows_after(rows, row, local, peer);
}

/// A process that was created later can have made no more connections, and a
/// connection that was made later can have been made by no fewer processes. One that
/// was created when the connection was can have made it, one created after it not.
pub proof fn only_older_processes_connect(
    owner: ConnectionOwner,
    later: ConnectionOwner,
    created: u64,
    earlier: u64,
)
    requires
        could_connect(owner, created),
        earlier <= created,
        later.connection_created >= owner.connection_created,
    ensures
        created as int <= owner.connection_created as int,
        could_connect(owner, earlier),
        could_connect(later, created),
        could_connect(owner, owner.connection_created as u64),
        owner.connection_created < i64::MAX ==> !could_connect(
            owner,
            (owner.connection_created + 1) as u64,
        ),
{
}

/// Whether a process can have made a connection.
pub open spec fn could_connect(owner: ConnectionOwner, process_created: u64) -> bool {
    0 <= owner.connection_created && process_created <= owner.connection_created
}

/// Refuses a process that is younger than the connection it is said to have
/// made.
pub fn validate_process_identity(owner: ConnectionOwner, process_created: u64) -> (result: Result<
    (),
    WindowsNetworkAttributionError,
>)
    ensures
        result is Ok <==> could_connect(owner, process_created),
        result matches Err(error) ==> error
            == WindowsNetworkAttributionError::ProcessIdentityMismatch,
{
    if owner.connection_created < 0 || process_created > owner.connection_created as u64 {
        Err(WindowsNetworkAttributionError::ProcessIdentityMismatch)
    } else {
        Ok(())
    }
}

/// When a process was created, out of the halves of a native time.
pub fn process_creation_time(low: u32, high: u32) -> (time: u64)
    ensures
        time == low + 0x1_0000_0000 * high,
{
    low as u64 + 0x1_0000_0000 * (high as u64)
}

/// Refuses a size of nothing or above a maximum.
pub fn checked_allocation(byte_length: u32, maximum: usize) -> (allocation: Result<usize, usize>)
    ensures
        allocation == (if byte_length == 0 || byte_length > maximum {
            Err::<usize, usize>(byte_length as usize)
        } else {
            Ok(byte_length as usize)
        }),
{
    let length: usize = byte_length as usize;
    if length == 0 || length > maximum {
        Err(length)
    } else {
        Ok(length)
    }
}

/// The row of a connection table at a position.
pub open spec fn row_at(buffer: Seq<u8>, at: int) -> TcpRow {
    TcpRow {
        local_address: bytes::word_at(buffer, at + 4),
        local_port: bytes::word_at(buffer, at + 8),
        remote_address: bytes::word_at(buffer, at + 12),
        remote_port: bytes::word_at(buffer, at + 16),
        process_id: bytes::word_at(buffer, at + 20),
        created: bytes::little_endian_value(buffer.subrange(at + 24, at + 32)) as u64 as i64,
    }
}

/// Whether a connection table is complete in so many bytes.
pub open spec fn is_whole_table(buffer: Seq<u8>, byte_length: usize) -> bool {
    &&& byte_length <= buffer.len()
    &&& byte_length >= TCP_ROWS_OFFSET
    &&& TCP_ROWS_OFFSET + bytes::word_at(buffer, 0) * TCP_ROW_BYTES <= byte_length
}

/// The rows of a connection table.
pub open spec fn table_rows(buffer: Seq<u8>) -> Seq<TcpRow> {
    Seq::new(
        bytes::word_at(buffer, 0) as nat,
        |i: int| row_at(buffer, TCP_ROWS_OFFSET + i * TCP_ROW_BYTES),
    )
}

/// Reads the row of a connection table at a position.
fn read_row(buffer: &[u8], at: usize) -> (row: TcpRow)
    requires
        at + TCP_ROW_BYTES <= buffer@.len(),
    ensures
        row == row_at(buffer@, at as int),
{
    assert(buffer.len() == buffer@.len());
    TcpRow {
        local_address: bytes::read_word(buffer, at + 4),
        local_port: bytes::read_word(buffer, at + 8),
        remote_address: bytes::read_word(buffer, at + 12),
        remote_port: bytes::read_word(buffer, at + 16),
        process_id: bytes::read_word(buffer, at + 20),
        created: bytes::read_long(buffer, at + 24) as i64,
    }
}

/// Reads the rows of a connection table.
pub fn parse_tcp_owner_rows(buffer: &[u8], byte_length: usize) -> (rows: Result<
    Vec<TcpRow>,
    WindowsNetworkAttributionError,
>)
    ensures
        match rows {
            Ok(read) => is_whole_table(buffer@, byte_length) && read@ == table_rows(buffer@),
            Err(error) => !is_whole_table(buffer@, byte_length) && error
                == WindowsNetworkAttributionError::TcpTableMalformed,
        },
{
    if byte_length > buffer.len() || byte_length < TCP_ROWS_OFFSET {
        return Err(WindowsNetworkAttributionError::TcpTableMalformed);
    }
    let count: u32 = bytes::read_word(buffer, 0);
    let room: usize = (byte_length - TCP_ROWS_OFFSET) / TCP_ROW_BYTES;
    if count as usize > room {
        return Err(WindowsNetworkAttributionError::TcpTableMalformed);
    }
    let count: usize = count as usize;
    let mut rows: Vec<TcpRow> = Vec::new();
    for i in 0..count
        invariant
            count == bytes::word_at(buffer@, 0),
            TCP_ROWS_OFFSET + count * TCP_ROW_BYTES <= byte_length <= buffer@.len(),
            rows@ == table_rows(buffer@).take(i as int),
    {
        assert((i + 1) * TCP_ROW_BYTES <= count * TCP_ROW_BYTES) by (nonlinear_arith)
            requires
                i + 1 <= count,
        ;
        let at: usize = TCP_ROWS_OFFSET + i * TCP_ROW_BYTES;
        rows.push(read_row(buffer, at));
        assert(rows@ =~= table_rows(buffer@).take(i + 1));
    }
    assert(table_rows(buffer@).take(count as int) =~= table_rows(buffer@));
    Ok(rows)
}

/// How far reading the connection table is.
#[derive(Clone, Copy, Debug, PartialEq, Eq, Structural)]
pub struct TableQuery {
    /// How often it was read.
    pub attempts: usize,
    /// How large it is said to be.
    pub byte_length: u32,
}

/// What reading the connection table came to.
#[derive(Debug)]
pub enum TableAnswer {
    /// It was read.
    Rows(Vec<TcpRow>),
    /// It grew.
    Again(TableQuery),
}

impl TableQuery {
    /// Starts from the answer to asking for the size.
    pub fn begin(status: u32, byte_length: u32) -> (query: Result<
        TableQuery,
        WindowsNetworkAttributionError,
    >)
        ensures
            query == (if status == ERROR_INSUFFICIENT_BUFFER {
                Ok::<TableQuery, WindowsNetworkAttributionError>(
                    TableQuery { attempts: 0, byte_length },
                )
            } else {
                Err(WindowsNetworkAttributionError::TcpTableSize { code: status })
            }),
    {
        if status == ERROR_INSUFFICIENT_BUFFER {
            Ok(TableQuery { attempts: 0, byte_length })
        } else {
            Err(WindowsNetworkAttributionError::TcpTableSize { code: status })
        }
    }

    /// How much room the next read takes, unless there is no next one.
    pub fn allocation(self) -> (allocation: Result<usize, WindowsNetworkAttributionError>)
        ensures
            allocation == (if self.attempts >= MAX_TCP_TABLE_READ_ATTEMPTS {
                Err::<usize, WindowsNetworkAttributionError>(
                    WindowsNetworkAttributionError::TcpTableUnstable {
                        attempts: MAX_TCP_TABLE_READ_ATTEMPTS,
                    },
                )
            } else if self.byte_length == 0 || self.byte_length > MAX_TCP_TABLE_BYTES {
                Err(
                    WindowsNetworkAttributionError::TcpTableSizeInvalid {
                        actual: self.byte_length as usize,
                        maximum: MAX_TCP_TABLE_BYTES,
                    },
                )
            } else {
                Ok(self.byte_length as usize)
            }),
    {
        if self.attempts >= MAX_TCP_TABLE_READ_ATTEMPTS {
            return Err(
                WindowsNetworkAttributionError::TcpTableUnstable {
                    attempts: MAX_TCP_TABLE_READ_ATTEMPTS,
                },
            );
        }
        match checked_allocation(self.byte_length, MAX_TCP_TABLE_BYTES) {
            Ok(length) => Ok(length),
            Err(actual) => Err(
                WindowsNetworkAttributionError::TcpTableSizeInvalid {
                    actual,
                    maximum: MAX_TCP_TABLE_BYTES,
                },
            ),
        }
    }

    /// Takes in the answer to a read.
    pub fn take_in(self, status: u32, byte_length: u32, buffer: &[u8]) -> (answer: Result<
        TableAnswer,
        WindowsNetworkAttributionError,
    >)
        requires
            self.attempts < MAX_TCP_TABLE_READ_ATTEMPTS,
        ensures
            match answer {
                Ok(TableAnswer::Rows(rows)) => status == NO_ERROR && is_whole_table(
                    buffer@,
                    byte_length as usize,
                ) && rows@ == table_rows(buffer@),
                Ok(TableAnswer::Again(query)) => status == ERROR_INSUFFICIENT_BUFFER && query == (
                TableQuery { attempts: (self.attempts + 1) as usize, byte_length }),
                Err(WindowsNetworkAttributionError::TcpTableMalformed) => status == NO_ERROR
                    && !is_whole_table(buffer@, byte_length as usize),
                Err(error) => status != NO_ERROR && status != ERROR_INSUFFICIENT_BUFFER && error
                    == (WindowsNetworkAttributionError::TcpTableRead { code: status }),
            },
    {
        if status == NO_ERROR {
            match parse_tcp_owner_rows(buffer, byte_length as usize) {
                Ok(rows) => Ok(TableAnswer::Rows(rows)),
                Err(error) => Err(error),
            }
        } else if status == ERROR_INSUFFICIENT_BUFFER {
            Ok(TableAnswer::Again(TableQuery { attempts: self.attempts + 1, byte_length }))
        } else {
            Err(WindowsNetworkAttributionError::TcpTableRead { code: status })
        }
    }
}

/// How much room the restricting identities take, from the answer to asking
/// for the size alone.
pub fn restricted_sid_allocation(succeeded: bool, last_error: u32, byte_length: u32) -> (allocation:
    Result<usize, WindowsNetworkAttributionError>)
    ensures
        allocation == (if succeeded {
            Err::<usize, WindowsNetworkAttributionError>(
                WindowsNetworkAttributionError::RestrictedSidSizeUnexpectedSuccess { byte_length },
            )
        } else if last_error != ERROR_INSUFFICIENT_BUFFER {
            Err(WindowsNetworkAttributionError::RestrictedSidSize { code: last_error })
        } else if byte_length == 0 || byte_length > MAX_RESTRICTED_SID_BYTES {
            Err(
                WindowsNetworkAttributionError::RestrictedSidSizeInvalid {
                    actual: byte_length as usize,
                    maximum: MAX_RESTRICTED_SID_BYTES,
                },
            )
        } else {
            Ok(byte_length as usize)
        }),
{
    if succeeded {
        return Err(
            WindowsNetworkAttributionError::RestrictedSidSizeUnexpectedSuccess { byte_length },
        );
    }
    if last_error != ERROR_INSUFFICIENT_BUFFER {
        return Err(WindowsNetworkAttributionError::RestrictedSidSize { code: last_error });
    }
    match checked_allocation(byte_length, MAX_RESTRICTED_SID_BYTES) {
        Ok(length) => Ok(length),
        Err(actual) => Err(
            WindowsNetworkAttributionError::RestrictedSidSizeInvalid {
                actual,
                maximum: MAX_RESTRICTED_SID_BYTES,
            },
        ),
    }
}

/// The address that an entry of a token's identity list points to, on a
/// machine whose addresses are so many bytes wide.
pub open spec fn sid_pointer(buffer: Seq<u8>, width: int, i: int) -> nat {
    bytes::little_endian_value(buffer.subrange(width + 2 * width * i, width + 2 * width * i + width))
}

/// Whether a token's identity list is complete in so many bytes.
pub open spec fn is_whole_list(buffer: Seq<u8>, byte_length: usize, width: int) -> bool {
    &&& byte_length <= buffer.len()
    &&& byte_length >= width
    &&& width + bytes::word_at(buffer, 0) * (2 * width) <= byte_length
}

/// Reads a number as wide as an address.
fn read_pointer(buffer: &[u8], at: usize, width: usize) -> (pointer: u64)
    requires
        width == 4 || width == 8,
        at + width <= buffer@.len(),
    ensures
        pointer == bytes::little_endian_value(buffer@.subrange(at as int, at + width)),
{
    assert(buffer.len() == buffer@.len());
    if width == 4 {
        let four = bytes::part(buffer, at, at + 4);
        bytes::read_u32(four.as_slice()) as u64
    } else {
        bytes::read_long(buffer, at)
    }
}

/// Reads the addresses that a token's identity list points to. The list is a
/// count, filled up to the width of an address, and for each identity its
/// address and its attributes, filled up likewise.
pub fn parse_restricted_sids(buffer: &[u8], byte_length: usize, width: usize) -> (pointers: Result<
    Vec<u64>,
    WindowsNetworkAttributionError,
>)
    requires
        width == 4 || width == 8,
    ensures
        match pointers {
            Ok(list) => is_whole_list(buffer@, byte_length, width as int) && list@.len()
                == bytes::word_at(buffer@, 0) && (forall|i: int|
                0 <= i < list@.len() ==> list@[i] == sid_pointer(buffer@, width as int, i)),
            Err(error) => !is_whole_list(buffer@, byte_length, width as int) && error
                == WindowsNetworkAttributionError::RestrictedSidMalformed,
        },
{
    if byte_length > buffer.len() || byte_length < width {
        return Err(WindowsNetworkAttributionError::RestrictedSidMalformed);
    }
    let count: u32 = bytes::read_word(buffer, 0);
    let room: usize = if width == 4 {
        (byte_length - 4) / 8
    } else {
        (byte_length - 8) / 16
    };
    if count as usize > room {
        return Err(WindowsNetworkAttributionError::RestrictedSidMalformed);
    }
    let count: usize = count as usize;
    assert(width + count * (2 * width) <= byte_length) by (nonlinear_arith)
        requires
            width == 4 && count <= (byte_length - 4) / 8 && byte_length >= 4 || width == 8 && count
                <= (byte_length - 8) / 16 && byte_length >= 8,
    ;
    let mut pointers: Vec<u64> = Vec::new();
    for i in 0..count
        invariant
            width == 4 || width == 8,
            width + count * (2 * width) <= byte_length <= buffer@.len(),
            pointers@.len() == i,
            forall|j: int|
                0 <= j < i ==> pointers@[j] == sid_pointer(buffer@, width as int, j),
    {
        assert(width + 2 * width * i + 2 * width <= width + count * (2 * width)) by (nonlinear_arith)
            requires
                i + 1 <= count,
                width >= 0,
        ;
        assert(0 <= 2 * width * i) by (nonlinear_arith)
            requires
                width >= 0,
                i >= 0,
        ;
        let at: usize = width + 2 * width * i;
        pointers.push(read_pointer(buffer, at, width));
    }
    Ok(pointers)
}

/// Where an identity lies in the bytes of a token's identity list: its place
/// and its length.
pub open spec fn sid_place(sid: usize, start: usize, buffer: Seq<u8>, byte_length: usize) -> Option<
    (int, int),
> {
    let offset = sid - start;
    if 0 <= offset && offset + SID_HEADER_BYTES <= byte_length && offset + SID_HEADER_BYTES + 4
        * buffer[offset + 1] <= byte_length {
        Some((offset, SID_HEADER_BYTES + 4 * buffer[offset + 1]))
    } else {
        None
    }
}

/// Finds where an identity lies in the bytes of a token's identity list,
/// which start at an address.
pub fn locate_sid(sid: usize, start: usize, buffer: &[u8], byte_length: usize) -> (place: Result<
    (usize, usize),
    WindowsNetworkAttributionError,
>)
    requires
        byte_length <= buffer@.len(),
    ensures
        match place {
            Ok((offset, length)) => sid != 0 && start + byte_length <= usize::MAX && sid_place(
                sid,
                start,
                buffer@,
                byte_length,
            ) == Some((offset as int, length as int)),
            Err(WindowsNetworkAttributionError::RestrictedSidInvalid) => sid == 0,
            Err(error) => sid != 0 && (start + byte_length > usize::MAX || sid_place(
                sid,
                start,
                buffer@,
                byte_length,
            ) is None) && error == WindowsNetworkAttributionError::RestrictedSidMalformed,
        },
{
    if sid == 0 {
        return Err(WindowsNetworkAttributionError::RestrictedSidInvalid);
    }
    if byte_length > usize::MAX - start || sid < start || sid - start >= byte_length || byte_length
        - (sid - start) < SID_HEADER_BYTES {
        return Err(WindowsNetworkAttributionError::RestrictedSidMalformed);
    }
    let offset: usize = sid - start;
    let length: usize = SID_HEADER_BYTES + 4 * (buffer[offset + 1] as usize);
    if length > byte_length - offset {
        return Err(WindowsNetworkAttributionError::RestrictedSidMalformed);
    }
    Ok((offset, length))
}

/// What an identity in a token's list comes to: it has to be a valid SID, and
/// it has to be written as text.
pub fn sid_text(valid: bool, formatted: Result<Option<String>, u32>) -> (sid: Result<
    String,
    WindowsNetworkAttributionError,
>)
    ensures
        match sid {
            Ok(value) => valid && formatted == Ok::<Option<String>, u32>(Some(value)),
            Err(WindowsNetworkAttributionError::RestrictedSidInvalid) => !valid,
            Err(error) => valid && match formatted {
                Ok(value) => value is None && error == (
                WindowsNetworkAttributionError::RestrictedSidFormat { code: ERROR_INVALID_DATA }),
                Err(code) => error == (WindowsNetworkAttributionError::RestrictedSidFormat {
                    code,
                }),
            },
        },
{
    if !valid {
        return Err(WindowsNetworkAttributionError::RestrictedSidInvalid);
    }
    match formatted {
        Ok(Some(value)) => Ok(value),
        Ok(None) => Err(
            WindowsNetworkAttributionError::RestrictedSidFormat { code: ERROR_INVALID_DATA },
        ),
        Err(code) => Err(WindowsNetworkAttributionError::RestrictedSidFormat { code }),
    }
}

/// Refuses a connection that is not between IPv4 loopback addresses.
pub open spec fn checked_ends(local: Endpoint, peer: Endpoint) -> Result<
    (SocketV4, SocketV4),
    WindowsNetworkAttributionError,
> {
    match (local, peer) {
        (Endpoint::V4(local), Endpoint::V4(peer)) => if !local.loopback() {
            Err(WindowsNetworkAttributionError::NonLoopbackListener { address: local })
        } else if !peer.loopback() {
            Err(WindowsNetworkAttributionError::NonLoopbackPeer { address: peer })
        } else {
            Ok((local, peer))
        },
        _ => Err(WindowsNetworkAttributionError::NonIpv4Connection),
    }
}

/// The next step of tracing a connection, or what it came to.
#[derive(Debug)]
pub enum AttributionStep {
    /// Read the connection table.
    ReadOwner,
    /// Open the process.
    OpenProcess {
        /// The owner.
        owner: ConnectionOwner,
    },
    /// Read when the process was created.
    ReadCreation {
        /// The owner.
        owner: ConnectionOwner,
    },
    /// Read the connection table again.
    ConfirmOwner {
        /// The owner.
        owner: ConnectionOwner,
    },
    /// Read the restricting identities of the opened process.
    ReadSids,
    /// The restricting identities.
    Done {
        /// Their texts.
        sids: Vec<String>,
    },
    /// The connection could not be traced.
    Failed {
        /// Why.
        error: WindowsNetworkAttributionError,
    },
}

/// What came of a step.
#[derive(Debug)]
pub enum AttributionEvent {
    /// The connection table.
    Rows(Result<Vec<TcpRow>, WindowsNetworkAttributionError>),
    /// The process was opened, or the native status.
    Opened(Result<(), u32>),
    /// When the process was created, or the native status.
    Created(Result<u64, u32>),
    /// The restricting identities.
    Sids(Result<Vec<String>, WindowsNetworkAttributionError>),
}

impl AttributionStep {
    /// Whether an event can come of the step.
    pub open spec fn expects(self, event: AttributionEvent) -> bool {
        match self {
            AttributionStep::ReadOwner | AttributionStep::ConfirmOwner { .. } => event is Rows,
            AttributionStep::OpenProcess { .. } => event is Opened,
            AttributionStep::ReadCreation { .. } => event is Created,
            AttributionStep::ReadSids => event is Sids,
            AttributionStep::Done { .. } | AttributionStep::Failed { .. } => false,
        }
    }

    /// The step after an event, for a connection between two ends.
    pub open spec fn after(
        self,
        event: AttributionEvent,
        local: SocketV4,
        peer: SocketV4,
    ) -> AttributionStep {
        match (self, event) {
            (AttributionStep::ReadOwner, AttributionEvent::Rows(Ok(rows))) => match owner_of(
                rows@,
                local,
                peer,
            ) {
                Ok(owner) => AttributionStep::OpenProcess { owner },
                Err(error) => AttributionStep::Failed { error },
            },
            (AttributionStep::OpenProcess { owner }, AttributionEvent::Opened(Ok(_))) =>
                AttributionStep::ReadCreation { owner },
            (AttributionStep::OpenProcess { owner }, AttributionEvent::Opened(Err(code))) =>
                AttributionStep::Failed {
                error: WindowsNetworkAttributionError::ProcessOpen {
                    process_id: owner.process_id,
                    code,
                },
            },
            (AttributionStep::ReadCreation { owner }, AttributionEvent::Created(Ok(created))) =>
                if could_connect(owner, created) {
                AttributionStep::ConfirmOwner { owner }
            } else {
                AttributionStep::Failed {
                    error: WindowsNetworkAttributionError::ProcessIdentityMismatch,
                }
            },
            (AttributionStep::ReadCreation { .. }, AttributionEvent::Created(Err(code))) =>
                AttributionStep::Failed {
                error: WindowsNetworkAttributionError::ProcessTimes { code },
            },
            (AttributionStep::ConfirmOwner { owner }, AttributionEvent::Rows(Ok(rows))) =>
                match owner_of(rows@, local, peer) {
                Ok(again) => if again == owner {
                    AttributionStep::ReadSids
                } else {
                    AttributionStep::Failed {
                        error: WindowsNetworkAttributionError::ConnectionOwnerChanged,
                    }
                },
                Err(error) => AttributionStep::Failed { error },
            },
            (_, AttributionEvent::Rows(Err(error))) => AttributionStep::Failed { error },
            (AttributionStep::ReadSids, AttributionEvent::Sids(Ok(sids))) =>
                AttributionStep::Done { sids },
            (AttributionStep::ReadSids, AttributionEvent::Sids(Err(error))) =>
                AttributionStep::Failed { error },
            (step, _) => step,
        }
    }

    /// Takes the step after an event.
    pub fn advance(self, event: AttributionEvent, local: SocketV4, peer: SocketV4) -> (step:
        AttributionStep)
        requires
            self.expects(event),
        ensures
            step == self.after(event, local, peer),
    {
        match (self, event) {
            (AttributionStep::ReadOwner, AttributionEvent::Rows(Ok(rows))) => {
                match unique_client_owner(rows.as_slice(), local, peer) {
                    Ok(owner) => AttributionStep::OpenProcess { owner },
                    Err(error) => AttributionStep::Failed { error },
                }
            },
            (AttributionStep::OpenProcess { owner }, AttributionEvent::Opened(Ok(_))) =>
                AttributionStep::ReadCreation { owner },
            (AttributionStep::OpenProcess { owner }, AttributionEvent::Opened(Err(code))) =>
                AttributionStep::Failed {
                error: WindowsNetworkAttributionError::ProcessOpen {
                    process_id: owner.process_id,
                    code,
                },
            },
            (AttributionStep::ReadCreation { owner }, AttributionEvent::Created(Ok(created))) => {
                match validate_process_identity(owner, created) {
                    Ok(_) => AttributionStep::ConfirmOwner { owner },
                    Err(error) => AttributionStep::Failed { error },
                }
            },
            (AttributionStep::ReadCreation { .. }, AttributionEvent::Created(Err(code))) =>
                AttributionStep::Failed {
                error: WindowsNetworkAttributionError::ProcessTimes { code },
            },
            (AttributionStep::ConfirmOwner { owner }, AttributionEvent::Rows(Ok(rows))) => {
                match unique_client_owner(rows.as_slice(), local, peer) {
                    Ok(again) => if again == owner {
                        AttributionStep::ReadSids
                    } else {
                        AttributionStep::Failed {
                            error: WindowsNetworkAttributionError::ConnectionOwnerChanged,
                        }
                    },
                    Err(error) => AttributionStep::Failed { error },
                }
            },
            (_, AttributionEvent::Rows(Err(error))) => AttributionStep::Failed { error },
            (AttributionStep::ReadSids, AttributionEvent::Sids(Ok(sids))) =>
                AttributionStep::Done { sids },
            (AttributionStep::ReadSids, AttributionEvent::Sids(Err(error))) =>
                AttributionStep::Failed { error },
            (step, _) => step,
        }
    }
}

/// Starts tracing a connection to the restricting identities of the process
/// that opened it.
pub fn restricting_sids_for_tcp_connection(accepted_local: Endpoint, accepted_peer: Endpoint) -> (
    ends: Result<(SocketV4, SocketV4), WindowsNetworkAttributionError>)
    ensures
        ends == checked_ends(accepted_local, accepted_peer),
{
    match (accepted_local, accepted_peer) {
        (Endpoint::V4(local), Endpoint::V4(peer)) => if !local.is_loopback() {
            Err(WindowsNetworkAttributionError::NonLoopbackListener { address: local })
        } else if !peer.is_loopback() {
            Err(WindowsNetworkAttributionError::NonLoopbackPeer { address: peer })
        } else {
            Ok((local, peer))
        },
        _ => Err(WindowsNetworkAttributionError::NonIpv4Connection),
    }
}

/// Identities are read only of a process that owned the connection alone
/// before and after it was opened, and that is no younger than the
/// connection.
pub proof fn identities_come_from_the_owner(
    first: Seq<TcpRow>,
    created: u64,
    second: Vec<TcpRow>,
    local: SocketV4,
    peer: SocketV4,
    owner: ConnectionOwner,
)
    requires
        owner_of(first, local, peer) == Ok::<ConnectionOwner, WindowsNetworkAttributionError>(owner),
    ensures
        (AttributionStep::ReadCreation { owner }).after(
            AttributionEvent::Created(Ok(created)),
            local,
            peer,
        ) is ConfirmOwner <==> could_connect(owner, created),
        (AttributionStep::ConfirmOwner { owner }).after(
            AttributionEvent::Rows(Ok(second)),
            local,
            peer,
        ) is ReadSids <==> owner_of(second@, local, peer) == owner_of(first, local, peer),
{
}

/// A connection is traced only between two IPv4 ends on loopback, and those
/// ends are the ones that it is traced by.
pub proof fn only_loopback_connections_are_traced(
    local: Endpoint,
    peer: Endpoint,
    ends: (SocketV4, SocketV4),
)
    ensures
        checked_ends(local, peer) == Ok::<(SocketV4, SocketV4), WindowsNetworkAttributionError>(
            ends,
        ) <==> local == Endpoint::V4(ends.0) && peer == Endpoint::V4(ends.1) && ends.0.address
            / 0x100_0000 == 127 && ends.1.address / 0x100_0000 == 127,
{
}

/// Tracing goes on only where a step came to what it was for, and keeps to one
/// owner: the process that is opened, whose age is read and that is confirmed is the
/// one that the first table gave, and the identities are those that were read. Where
/// a step fails, tracing fails for that cause.
pub proof fn tracing_keeps_to_one_owner(
    step: AttributionStep,
    event: AttributionEvent,
    local: SocketV4,
    peer: SocketV4,
)
    requires
        step.expects(event),
    ensures
        step.after(event, local, peer) matches AttributionStep::OpenProcess { owner } ==> step
            is ReadOwner && (event matches AttributionEvent::Rows(Ok(rows)) && owner_of(
            rows@,
            local,
            peer,
        ) == Ok::<ConnectionOwner, WindowsNetworkAttributionError>(owner)),
        step.after(event, local, peer) matches AttributionStep::ReadCreation { owner } ==> step == (
        AttributionStep::OpenProcess { owner }) && (event matches AttributionEvent::Opened(opened)
            && opened is Ok),
        step.after(event, local, peer) matches AttributionStep::ConfirmOwner { owner } ==> step == (
        AttributionStep::ReadCreation { owner }) && (event matches AttributionEvent::Created(
            Ok(created),
        ) && created as int <= owner.connection_created as int),
        step.after(event, local, peer) is ReadSids ==> (step matches AttributionStep::ConfirmOwner {
            owner,
        } && (event matches AttributionEvent::Rows(Ok(rows)) && owner_of(rows@, local, peer) == Ok::<
            ConnectionOwner,
            WindowsNetworkAttributionError,
        >(owner))),
        step.after(event, local, peer) matches AttributionStep::Done { sids } ==> step is ReadSids
            && event == AttributionEvent::Sids(Ok(sids)),
        !(step.after(event, local, peer) is ReadOwner),
        (event matches AttributionEvent::Rows(Err(error)) ==> step.after(event, local, peer) == (
        AttributionStep::Failed { error })),
        (event matches AttributionEvent::Sids(Err(error)) ==> step.after(event, local, peer) == (
        AttributionStep::Failed { error })),
        (event matches AttributionEvent::Opened(Err(code)) ==> (step.after(event, local, peer) matches AttributionStep::Failed {
            error: WindowsNetworkAttributionError::ProcessOpen { process_id, code: told },
        } && told == code && step == (AttributionStep::OpenProcess {
            owner: ConnectionOwner { process_id, ..step->OpenProcess_owner },
        }))),
        (event matches AttributionEvent::Created(Err(code)) ==> step.after(event, local, peer) == (
        AttributionStep::Failed { error: WindowsNetworkAttributionError::ProcessTimes { code } })),
        (step matches AttributionStep::ConfirmOwner { owner } ==> (event matches AttributionEvent::Rows(
            Ok(rows),
        ) ==> (owner_of(rows@, local, peer) matches Ok(again) ==> again != owner ==> step.after(
            event,
            local,
            peer,
        ) == (AttributionStep::Failed {
            error: WindowsNetworkAttributionError::ConnectionOwnerChanged,
        })))),
        (step matches AttributionStep::ReadCreation { owner } ==> (event matches AttributionEvent::Created(
            Ok(created),
        ) ==> created as int > owner.connection_created as int ==> step.after(event, local, peer)
            == (AttributionStep::Failed {
            error: WindowsNetworkAttributionError::ProcessIdentityMismatch,
        }))),
        (event matches AttributionEvent::Opened(Ok(_)) ==> step.after(event, local, peer)
            is ReadCreation),
        (event matches AttributionEvent::Sids(Ok(_)) ==> step.after(event, local, peer) is Done),
{
}

/// The number in four bytes of a buffer, the lowest first.
pub open spec fn four_bytes(buffer: Seq<u8>, at: int) -> int {
    buffer[at] + 0x100 * buffer[at + 1] + 0x1_0000 * buffer[at + 2] + 0x100_0000 * buffer[at + 3]
}

/// A number of four bytes is read as it stands.
proof fn words_are_four_bytes(buffer: Seq<u8>, at: int)
    requires
        0 <= at,
        at + 4 <= buffer.len(),
    ensures
        bytes::word_at(buffer, at) == four_bytes(buffer, at),
{
    reveal_with_fuel(bytes::little_endian_value, 5);
}

/// A connection table starts with the number of its rows; they follow from the
/// eighth byte on, of the same size each, and hold both ends of a connection, whose it
/// is and since when.
pub proof fn rows_stand_one_behind_the_other(buffer: Seq<u8>, byte_length: usize, i: int)
    requires
        is_whole_table(buffer, byte_length),
        0 <= i < table_rows(buffer).len(),
    ensures
        table_rows(buffer).len() == four_bytes(buffer, 0),
        8 + 160 * (i + 1) <= byte_length <= buffer.len(),
        ({
            let row = table_rows(buffer)[i];
            let at = 8 + 160 * i;
            &&& row.local_address == four_bytes(buffer, at + 4)
            &&& row.local_port == four_bytes(buffer, at + 8)
            &&& row.remote_address == four_bytes(buffer, at + 12)
            &&& row.remote_port == four_bytes(buffer, at + 16)
            &&& row.process_id == four_bytes(buffer, at + 20)
            &&& row.created == bytes::little_endian_value(
                buffer.subrange(at + 24, at + 32),
            ) as u64 as i64
        }),
{
    words_are_four_bytes(buffer, 0);
    let n = bytes::word_at(buffer, 0) as int;
    assert((i + 1) * 160 <= n * 160) by (nonlinear_arith)
        requires
            i < n,
    ;
    let at = 8 + 160 * i;
    words_are_four_bytes(buffer, at + 4);
    words_are_four_bytes(buffer, at + 8);
    words_are_four_bytes(buffer, at + 12);
    words_are_four_bytes(buffer, at + 16);
    words_are_four_bytes(buffer, at + 20);
}

/// An identity list starts with the number of its entries, filled up to the width of
/// an address; each entry is an address and as much again, and all of them fit.
pub proof fn identities_stand_one_behind_the_other(
    buffer: Seq<u8>,
    byte_length: usize,
    width: int,
    i: int,
)
    requires
        width == 4 || width == 8,
        is_whole_list(buffer, byte_length, width),
        0 <= i < bytes::word_at(buffer, 0),
    ensures
        i < four_bytes(buffer, 0),
        width == 4 ==> 4 + 8 * (i + 1) <= byte_length <= buffer.len() && sid_pointer(
            buffer,
            width,
            i,
        ) == four_bytes(buffer, 4 + 8 * i),
        width == 8 ==> 8 + 16 * (i + 1) <= byte_length <= buffer.len() && sid_pointer(
            buffer,
            width,
            i,
        ) == four_bytes(buffer, 8 + 16 * i) + 0x1_0000_0000 * four_bytes(buffer, 12 + 16 * i),
{
    words_are_four_bytes(buffer, 0);
    let n = bytes::word_at(buffer, 0) as int;
    assert((i + 1) * 8 <= n * 8 && (i + 1) * 16 <= n * 16) by (nonlinear_arith)
        requires
            i < n,
    ;
    if width == 4 {
        assert(2 * width * i == 8 * i);
        words_are_four_bytes(buffer, 4 + 8 * i);
        reveal_with_fuel(bytes::little_endian_value, 5);
    } else {
        assert(2 * width * i == 16 * i);
        reveal_with_fuel(bytes::little_endian_value, 9);
    }
}

} // verus!
