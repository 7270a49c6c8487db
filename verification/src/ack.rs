//! Acknowledgements from the peer and reports from the encoder.
use vstd::prelude::*;

use crate::codec::{PublishAck, SubscribeAck, UnsubscribeAck};
use crate::error::EncodeError;
use crate::types::{PUBACK, SUBACK, UNSUBACK};

verus! {

/// A packet that acknowledges a request.
#[derive(Debug)]
pub enum Ack {
    Publish(PublishAck),
    Subscribe(SubscribeAck),
    Unsubscribe(UnsubscribeAck),
}

/// The kind of acknowledgement that a request waits for.
#[derive(Debug, Clone, Copy, PartialEq, Eq, Structural)]
pub enum AckType {
    Publish,
    Subscribe,
    Unsubscribe,
}

/// What the encoder reports of a packet that it was handed.
#[derive(Debug)]
pub enum Info {
    /// The packet was written.
    Written,
    /// The packet could not be encoded.
    Error(EncodeError),
}

impl Ack {
    /// The kind of this acknowledgement.
    pub open spec fn kind(self) -> AckType {
        match self {
            Ack::Publish(_) => AckType::Publish,
            Ack::Subscribe(_) => AckType::Subscribe,
            Ack::Unsubscribe(_) => AckType::Unsubscribe,
        }
    }

    /// The identifier of the packet that is acknowledged.
    pub open spec fn id(self) -> u16 {
        match self {
            Ack::Publish(pkt) => pkt.packet_id@,
            Ack::Subscribe(pkt) => pkt.packet_id@,
            Ack::Unsubscribe(pkt) => pkt.packet_id@,
        }
    }

    /// The first byte of the packet on the wire.
    pub open spec fn first_byte(self) -> u8 {
        match self.kind() {
            AckType::Publish => 0x40,
            AckType::Subscribe => 0x90,
            AckType::Unsubscribe => 0xb0,
        }
    }

    /// The first byte of the packet on the wire.
    pub fn packet_type(&self) -> (r: u8)
        ensures
            r == self.first_byte(),
    {
        match self {
            Ack::Publish(_) => PUBACK,
            Ack::Subscribe(_) => SUBACK,
            Ack::Unsubscribe(_) => UNSUBACK,
        }
    }

    /// The identifier of the packet that is acknowledged, which is never zero.
    pub fn packet_id(&self) -> (r: usize)
        ensures
            r == self.id(),
            r != 0,
    {
        match self {
            Ack::Publish(pkt) => pkt.packet_id.get() as usize,
            Ack::Subscribe(pkt) => pkt.packet_id.get() as usize,
            Ack::Unsubscribe(pkt) => pkt.packet_id.get() as usize,
        }
    }

    /// The acknowledgement of a publish packet, which this one has to be.
    pub fn publish(self) -> (r: PublishAck)
        requires
            self.kind() == AckType::Publish,
        ensures
            self == Ack::Publish(r),
    {
        match self {
            Ack::Publish(pkt) => pkt,
            _ => vstd::pervasive::unreached(),
        }
    }

    /// The acknowledgement of a subscribe packet, which this one has to be.
    pub fn subscribe(self) -> (r: SubscribeAck)
        requires
            self.kind() == AckType::Subscribe,
        ensures
            self == Ack::Subscribe(r),
    {
        match self {
            Ack::Subscribe(pkt) => pkt,
            _ => vstd::pervasive::unreached(),
        }
    }

    /// The acknowledgement of an unsubscribe packet, which this one has to be.
    pub fn unsubscribe(self) -> (r: UnsubscribeAck)
        requires
            self.kind() == AckType::Unsubscribe,
        ensures
            self == Ack::Unsubscribe(r),
    {
        match self {
            Ack::Unsubscribe(pkt) => pkt,
            _ => vstd::pervasive::unreached(),
        }
    }

    /// Whether this is the acknowledgement that a request of type `tp` waits for.
    pub fn is_match(&self, tp: AckType) -> (r: bool)
        ensures
            r == (self.kind() == tp),
    {
        match (self, tp) {
            (Ack::Publish(_), AckType::Publish) => true,
            (Ack::Subscribe(_), AckType::Subscribe) => true,
            (Ack::Unsubscribe(_), AckType::Unsubscribe) => true,
            (_, _) => false,
        }
    }
}

impl AckType {
    /// The name of the packet that is waited for.
    pub open spec fn label(self) -> Seq<char> {
        match self {
            AckType::Publish => "PublishAck"@,
            AckType::Subscribe => "SubscribeAck"@,
            AckType::Unsubscribe => "UnsubscribeAck"@,
        }
    }

    /// The name of the packet that is waited for.
    pub fn name(&self) -> (r: &'static str)
        ensures
            r@ == self.label(),
    {
        match self {
            AckType::Publish => "PublishAck",
            AckType::Subscribe => "SubscribeAck",
            AckType::Unsubscribe => "UnsubscribeAck",
        }
    }
}

} // verus!
