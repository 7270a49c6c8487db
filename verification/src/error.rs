//! What can go wrong with a connection and with each kind of request.
use either::Either;
use ntex::connect::ConnectError;
use std::io;
use vstd::prelude::*;

use crate::codec::{ConnectAck, PublishAck};

verus! {

/// Why a packet could not be encoded.
#[derive(Debug, Clone, Copy, PartialEq, Eq, Structural)]
pub enum EncodeError {
    /// The packet is longer than the peer accepts.
    InvalidLength,
    /// A field holds what the format has no form for.
    MalformedPacket,
    /// The packet needs an identifier and has none.
    PacketIdRequired,
    /// The protocol version has no such packet.
    UnsupportedVersion,
}

/// Errors of the protocol.
#[derive(Debug)]
pub enum ProtocolError {
    /// A packet could not be encoded.
    Encode(EncodeError),
    /// A packet of the given type came where the named one was expected.
    Unexpected(u8, &'static str),
    /// Packet id of an acknowledgement does not match that of the oldest request.
    PacketIdMismatch,
    /// Unexpected io error.
    Io(io::Error),
}

/// Errors which can occur when attempting to handle mqtt client connection.
#[derive(Debug)]
pub enum ClientError {
    /// Connect negotiation failed
    Ack(ConnectAck),
    /// Protocol error
    Protocol(ProtocolError),
    /// Handshake timeout
    HandshakeTimeout,
    /// Peer disconnected
    Disconnected,
    /// Connect error
    Connect(ConnectError),
}

impl From<ConnectAck> for ClientError {
    fn from(ack: ConnectAck) -> (r: ClientError) {
        ClientError::Ack(ack)
    }
}

impl vstd::std_specs::convert::FromSpecImpl<ConnectAck> for ClientError {
    open spec fn obeys_from_spec() -> bool {
        true
    }

    open spec fn from_spec(ack: ConnectAck) -> ClientError {
        ClientError::Ack(ack)
    }
}

impl From<ProtocolError> for ClientError {
    fn from(err: ProtocolError) -> (r: ClientError) {
        ClientError::Protocol(err)
    }
}

impl vstd::std_specs::convert::FromSpecImpl<ProtocolError> for ClientError {
    open spec fn obeys_from_spec() -> bool {
        true
    }

    open spec fn from_spec(err: ProtocolError) -> ClientError {
        ClientError::Protocol(err)
    }
}

impl From<ConnectError> for ClientError {
    fn from(err: ConnectError) -> (r: ClientError) {
        ClientError::Connect(err)
    }
}

impl vstd::std_specs::convert::FromSpecImpl<ConnectError> for ClientError {
    open spec fn obeys_from_spec() -> bool {
        true
    }

    open spec fn from_spec(err: ConnectError) -> ClientError {
        ClientError::Connect(err)
    }
}

/// What the framing layer reports: it could not encode a packet, or it could
/// not read or write the connection.
impl From<Either<EncodeError, io::Error>> for ClientError {
    fn from(err: Either<EncodeError, io::Error>) -> (r: ClientError) {
        match err {
            Either::Left(err) => ClientError::Protocol(ProtocolError::Encode(err)),
            Either::Right(err) => ClientError::Protocol(ProtocolError::Io(err)),
        }
    }
}

impl vstd::std_specs::convert::FromSpecImpl<Either<EncodeError, io::Error>> for ClientError {
    open spec fn obeys_from_spec() -> bool {
        true
    }

    open spec fn from_spec(err: Either<EncodeError, io::Error>) -> ClientError {
        match err {
            Either::Left(err) => ClientError::Protocol(ProtocolError::Encode(err)),
            Either::Right(err) => ClientError::Protocol(ProtocolError::Io(err)),
        }
    }
}

/// Errors of a publish request that is not acknowledged.
#[derive(Debug)]
pub enum PublishQos0Error {
    /// Encoder error
    Encode(EncodeError),
    /// Can not allocate next packet id
    PacketIdNotAvailable,
    /// Peer disconnected
    Disconnected,
}

/// Errors of a publish request that the peer acknowledges.
#[derive(Debug)]
pub enum PublishQos1Error {
    /// Negative ack from peer
    Fail(PublishAck),
    /// Encoder error
    Encode(EncodeError),
    /// Can not allocate next packet id
    PacketIdNotAvailable,
    /// Peer disconnected
    Disconnected,
}

/// Errors of a subscribe request.
#[derive(Debug)]
pub enum SubscribeError {
    /// Encoder error
    Encode(EncodeError),
    /// Can not allocate next packet id
    PacketIdNotAvailable,
    /// Peer disconnected
    Disconnected,
}

/// Errors of an unsubscribe request.
#[derive(Debug)]
pub enum UnsubscribeError {
    /// Encoder error
    Encode(EncodeError),
    /// Can not allocate next packet id
    PacketIdNotAvailable,
    /// Peer disconnected
    Disconnected,
}

} // verus!
