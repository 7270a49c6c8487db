//! Plain values that every packet is made of.
use vstd::prelude::*;

verus! {

/// First byte of the fixed header of a PUBACK packet.
pub const PUBACK: u8 = 0x40;

/// First byte of the fixed header of a SUBACK packet.
pub const SUBACK: u8 = 0x90;

/// First byte of the fixed header of an UNSUBACK packet.
pub const UNSUBACK: u8 = 0xb0;

/// Quality of service of a publish packet or a subscription.
#[derive(Debug, Clone, Copy, PartialEq, Eq, Structural)]
pub enum QoS {
    /// The packet is delivered at most once and never acknowledged.
    AtMostOnce,
    /// The packet is acknowledged by the peer.
    AtLeastOnce,
    /// The packet is delivered by a two-step handshake.
    ExactlyOnce,
}

/// A `u16` that is known not to be zero, such as a packet identifier.
#[derive(Debug, Clone, Copy, PartialEq, Eq, Structural)]
pub struct NonZeroU16 {
    value: u16,
}

impl NonZeroU16 {
    #[verifier::type_invariant]
    spec fn nonzero(self) -> bool {
        self.value != 0
    }

    /// The number.
    pub closed spec fn view(&self) -> u16 {
        self.value
    }

    /// Wraps `value` unless it is zero.
    pub fn new(value: u16) -> (r: Option<NonZeroU16>)
        ensures
            match r {
                Some(n) => value != 0 && n@ == value,
                None => value == 0,
            },
    {
        if value == 0 {
            None
        } else {
            Some(NonZeroU16 { value })
        }
    }

    /// The number, which is never zero.
    pub fn get(&self) -> (r: u16)
        ensures
            r == self@,
            r != 0,
    {
        proof {
            use_type_invariant(self);
        }
        self.value
    }
}

/// A `u32` that is known not to be zero, such as a subscription identifier.
#[derive(Debug, Clone, Copy, PartialEq, Eq, Structural)]
pub struct NonZeroU32 {
    value: u32,
}

impl NonZeroU32 {
    #[verifier::type_invariant]
    spec fn nonzero(self) -> bool {
        self.value != 0
    }

    /// The number.
    pub closed spec fn view(&self) -> u32 {
        self.value
    }

    /// Wraps `value` unless it is zero.
    pub fn new(value: u32) -> (r: Option<NonZeroU32>)
        ensures
            match r {
                Some(n) => value != 0 && n@ == value,
                None => value == 0,
            },
    {
        if value == 0 {
            None
        } else {
            Some(NonZeroU32 { value })
        }
    }

    /// The number, which is never zero.
    pub fn get(&self) -> (r: u32)
        ensures
            r == self@,
            r != 0,
    {
        proof {
            use_type_invariant(self);
        }
        self.value
    }
}

} // verus!
