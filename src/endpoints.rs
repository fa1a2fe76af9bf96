//! Addresses, ports and timing shared by the sender and the receiver.

use vstd::prelude::*;

verus! {

/// 127.0.0.1, as a big-endian IPv4 address.
pub const LOOPBACK_ADDR: u32 = 0x7f00_0001;

/// 0.0.0.0: the sender binds to any local interface.
pub const ANY_ADDR: u32 = 0;

/// Port 0 asks the operating system for an ephemeral port.
pub const EPHEMERAL_PORT: u16 = 0;

/// The port on which the receiver listens.
pub const LISTEN_PORT: u16 = 8082;

/// Size of the receive buffer: longer datagrams are cut to this many bytes.
pub const RECV_BUFFER_LEN: usize = 1024;

/// Pause between two polls of an idle socket, in milliseconds.
pub const POLL_INTERVAL_MS: u64 = 100;

/// The loopback ports the sender delivers to, in order.
pub open spec fn spec_destination_ports() -> Seq<u16> {
    seq![8080u16, 8081u16, 8082u16, 8083u16]
}

/// The number of destination ports.
pub const DESTINATION_COUNT: usize = 4;

/// The `i`-th destination port.
pub fn destination_port(i: usize) -> (p: u16)
    requires
        i < DESTINATION_COUNT,
    ensures
        p == spec_destination_ports()[i as int],
{
    match i {
        0 => 8080,
        1 => 8081,
        2 => 8082,
        _ => 8083,
    }
}

/// The receiver's port is one of the sender's destinations, and the
/// destinations are pairwise distinct.
pub proof fn lemma_listen_port_is_a_destination()
    ensures
        spec_destination_ports().len() == DESTINATION_COUNT,
        spec_destination_ports().contains(LISTEN_PORT),
        forall|i: int, j: int|
            0 <= i < j < spec_destination_ports().len() ==> spec_destination_ports()[i]
                != spec_destination_ports()[j],
{
    assert(spec_destination_ports()[2] == LISTEN_PORT);
}

} // verus!
