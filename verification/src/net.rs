//! Socket addresses as plain values.
use vstd::prelude::*;

verus! {

/// An IP socket address: an IPv4 or IPv6 address and a port. An address is
/// held as one number, its octets (or, for IPv6, its 16-bit groups) read big-endian.
#[derive(Clone, Copy, Debug, PartialEq, Eq, Structural)]
pub enum SocketAddress {
    V4 { ip: u32, port: u16 },
    V6 { ip6: u128, port: u16, flowinfo: u32, scope_id: u32 },
}

impl SocketAddress {
    /// True for an IPv4 address.
    pub fn is_ipv4(&self) -> (r: bool)
        ensures
            r == (*self is V4),
    {
        match self {
            SocketAddress::V4 { .. } => true,
            SocketAddress::V6 { .. } => false,
        }
    }

    /// The port.
    pub fn port(&self) -> (r: u16)
        ensures
            r == (match *self {
                SocketAddress::V4 { port, .. } => port,
                SocketAddress::V6 { port, .. } => port,
            }),
    {
        match self {
            SocketAddress::V4 { port, .. } => *port,
            SocketAddress::V6 { port, .. } => *port,
        }
    }
}

/// The address a client socket binds to: the unspecified address of the
/// family of the server's address (`0.0.0.0` or `::`), with port 0 so that
/// the system picks one.
pub fn client_local_address(is_ipv4: bool) -> (a: SocketAddress)
    ensures
        a == (if is_ipv4 {
            SocketAddress::V4 { ip: 0, port: 0 }
        } else {
            SocketAddress::V6 { ip6: 0, port: 0, flowinfo: 0, scope_id: 0 }
        }),
{
    if is_ipv4 {
        SocketAddress::V4 { ip: 0, port: 0 }
    } else {
        SocketAddress::V6 { ip6: 0, port: 0, flowinfo: 0, scope_id: 0 }
    }
}

/// Why a set of sockets could not be opened.
#[derive(Debug, Clone, Copy, PartialEq, Eq, Structural)]
pub enum SocketSetupError {
    /// Zero sockets were asked for.
    NoSockets,
}

/// Checks the number of sockets that a listener opens on one address: at
/// least one is needed.
pub fn check_reuseport_count(n: usize) -> (r: Result<usize, SocketSetupError>)
    ensures
        n == 0 ==> r == Err::<usize, SocketSetupError>(SocketSetupError::NoSockets),
        n > 0 ==> r == Ok::<usize, SocketSetupError>(n),
{
    if n == 0 {
        Err(SocketSetupError::NoSockets)
    } else {
        Ok(n)
    }
}

/// What handing one packet to the socket gave.
#[derive(Debug, Clone, Copy, PartialEq, Eq, Structural)]
pub enum SendResult {
    /// The packet went out.
    Sent,
    /// The socket cannot take more now.
    WouldBlock,
    /// The socket failed.
    Failed,
}

/// What a batch send does after one packet.
#[derive(Debug, Clone, Copy, PartialEq, Eq, Structural)]
pub enum SendStep {
    /// Go on with the next packet; this many went out so far.
    Next(usize),
    /// Stop and report that this many packets went out.
    Stop(usize),
    /// Stop and report the failure.
    Fail,
}

/// One step of sending a batch of packets, `count` of which went out before:
/// a sent packet is counted, a full socket ends the batch with the count so
/// far, and a failure ends it with an error.
pub fn packet_send_step(count: usize, result: SendResult) -> (s: SendStep)
    requires
        count < usize::MAX,
    ensures
        s == (match result {
            SendResult::Sent => SendStep::Next((count + 1) as usize),
            SendResult::WouldBlock => SendStep::Stop(count),
            SendResult::Failed => SendStep::Fail,
        }),
{
    match result {
        SendResult::Sent => SendStep::Next(count + 1),
        SendResult::WouldBlock => SendStep::Stop(count),
        SendResult::Failed => SendStep::Fail,
    }
}

/// What one receive from a socket gave.
#[derive(Debug, Clone, Copy, PartialEq, Eq, Structural)]
pub enum RecvResult {
    /// A datagram arrived.
    Datagram,
    /// Nothing more is waiting.
    WouldBlock,
    /// The socket failed.
    Failed,
}

/// What the receive loop of a readable socket does after one receive.
#[derive(Debug, Clone, Copy, PartialEq, Eq, Structural)]
pub enum RecvStep {
    /// Hand the datagram to the QUIC endpoint and receive again.
    Feed,
    /// The socket is drained: stop receiving for this event.
    Stop,
    /// Stop and report the failure.
    Fail,
}

/// One step of draining a readable socket: a datagram is fed to the
/// endpoint, an empty socket ends the round, a failure is reported.
pub fn recv_step(result: RecvResult) -> (s: RecvStep)
    ensures
        s == (match result {
            RecvResult::Datagram => RecvStep::Feed,
            RecvResult::WouldBlock => RecvStep::Stop,
            RecvResult::Failed => RecvStep::Fail,
        }),
{
    match result {
        RecvResult::Datagram => RecvStep::Feed,
        RecvResult::WouldBlock => RecvStep::Stop,
        RecvResult::Failed => RecvStep::Fail,
    }
}

} // verus!
