//! Addresses of UDP endpoints.
use vstd::prelude::*;

verus! {

/// The address of a UDP endpoint: the IP address as a number, and what goes with it.
#[derive(Debug, PartialEq, Eq, Structural, Clone, Copy)]
#[allow(inconsistent_fields)]
pub enum SocketAddr {
    V4 { ip: u32, port: u16 },
    V6 { ip: u128, port: u16, flowinfo: u32, scope_id: u32 },
}

/// Where the datagrams of a stream go: to one peer of a listening socket, or to the peer of a
/// connected socket. `S` is the handle of the socket.
pub enum UdpEndpoint<S> {
    Listener { listener: S, remote_addr: SocketAddr },
    Connection { connection: S },
}

/// The text of the wildcard address of the same family as this one.
pub open spec fn wildcard(remote_addr: SocketAddr) -> Seq<char> {
    match remote_addr {
        SocketAddr::V4 { .. } => "0.0.0.0:0"@,
        SocketAddr::V6 { .. } => "[::]:0"@,
    }
}

/// The wildcard address, of the same family as `remote_addr`, with a port of the system's choice.
pub fn wildcard_addr(remote_addr: &SocketAddr) -> (local_addr: &'static str)
    ensures
        local_addr@ == wildcard(*remote_addr),
        local_addr@ == (match *remote_addr {
            SocketAddr::V4 { .. } => "0.0.0.0:0"@,
            SocketAddr::V6 { .. } => "[::]:0"@,
        }),
{
    match remote_addr {
        SocketAddr::V4 { .. } => "0.0.0.0:0",
        SocketAddr::V6 { .. } => "[::]:0",
    }
}

/// Which wildcard address it is depends on the family alone: it is the same for all addresses of a
/// family, and the two families have different ones.
pub proof fn law_wildcard_follows_the_family(
    v4: (u32, u16),
    v6: (u128, u16, u32, u32),
)
    ensures
        ({
            let four = SocketAddr::V4 { ip: v4.0, port: v4.1 };
            let six = SocketAddr::V6 { ip: v6.0, port: v6.1, flowinfo: v6.2, scope_id: v6.3 };
            &&& wildcard(four) == seq!['0', '.', '0', '.', '0', '.', '0', ':', '0']
            &&& wildcard(six) == seq!['[', ':', ':', ']', ':', '0']
        }),
{
    reveal_strlit("0.0.0.0:0");
    reveal_strlit("[::]:0");
    assert("0.0.0.0:0"@ =~= seq!['0', '.', '0', '.', '0', '.', '0', ':', '0']);
    assert("[::]:0"@ =~= seq!['[', ':', ':', ']', ':', '0']);
}

} // verus!
