//! The rules of the transport: which sub-protocol a connection speaks, and
//! which of what it delivers is handed on.
//!
//! The transport keeps what travels secret and whole. It says nothing of
//! who the peer is: certificates are not checked, on purpose. Who is
//! trusted is settled one layer up, by pairing and by freshness signatures.

use crate::text::{bytes_equal, utf8};
use vstd::prelude::*;
use vstd::string::StringSliceAdditionalSpecFns;

verus! {

/// The port that a node listens on where it can.
pub const DEFAULT_PORT: u16 = 4654u16;

/// The port to ask for where the default one is taken: any free one.
pub const EPHEMERAL_PORT: u16 = 0u16;

/// A control message of more bytes than this is not read.
pub const MAX_MESSAGE_SIZE: usize = 10_485_760usize;

/// Milliseconds that a sender holds a connection open after its last byte,
/// so that the peer can finish reading.
pub const SEND_LINGER_MS: u64 = 500u64;

/// Milliseconds after which a probe that has not connected counts as
/// unanswered.
pub const PROBE_TIMEOUT_MS: u64 = 500u64;

/// The two sub-protocols of the transport.
#[derive(Debug, Clone, Copy, PartialEq, Eq, Structural)]
pub enum Channel {
    /// Whole control messages, one for each two-way stream.
    Control,
    /// Files, one for each one-way stream.
    File,
}

/// The name under which a sub-protocol is negotiated.
pub open spec fn protocol_name(channel: Channel) -> Seq<char> {
    match channel {
        Channel::Control => "clustercut-transport"@,
        Channel::File => "clustercut-file"@,
    }
}

/// The name under which a sub-protocol is negotiated, in bytes.
pub fn protocol_of(channel: Channel) -> (r: &'static [u8])
    ensures
        r@ == utf8(protocol_name(channel)),
{
    match channel {
        Channel::Control => "clustercut-transport".as_bytes(),
        Channel::File => "clustercut-file".as_bytes(),
    }
}

/// The server name that every connection asks for.
pub fn server_name() -> (r: &'static str)
    ensures
        r@ == "clustercut"@,
{
    "clustercut"
}

/// The channel of a connection that has negotiated `protocol`.
pub open spec fn channel_of(protocol: Option<Seq<u8>>) -> Channel {
    if protocol == Some(utf8(protocol_name(Channel::File))) {
        Channel::File
    } else {
        Channel::Control
    }
}

/// The channel of an accepted connection: the file channel where it has
/// negotiated that protocol, the control channel in every other case, also
/// where it has negotiated none.
pub fn route(protocol: Option<&[u8]>) -> (r: Channel)
    ensures
        r == channel_of(
            match protocol {
                Some(p) => Some(p@),
                None => None,
            },
        ),
{
    match protocol {
        Some(p) => if bytes_equal(p, protocol_of(Channel::File)) {
            Channel::File
        } else {
            Channel::Control
        },
        None => Channel::Control,
    }
}

/// Whether what a control stream delivered is handed to the engine: an
/// empty stream is passed over.
pub fn accepts(delivered: &[u8]) -> (r: bool)
    ensures
        r == (delivered@.len() > 0),
{
    delivered.len() > 0
}

/// The port to bind next: the default one first, any free one after the
/// default one could not be had.
pub fn port_to_bind(default_failed: bool) -> (r: u16)
    ensures
        r == if default_failed {
            EPHEMERAL_PORT
        } else {
            DEFAULT_PORT
        },
{
    if default_failed {
        EPHEMERAL_PORT
    } else {
        DEFAULT_PORT
    }
}

} // verus!
