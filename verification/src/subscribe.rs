//! Subscribe and unsubscribe requests.
use vstd::prelude::*;

use crate::ack::{Ack, AckType, Info};
use crate::codec::{
    Packet, Subscribe, SubscribeAck, SubscriptionOptions, Unsubscribe, UnsubscribeAck,
};
use crate::error::{SubscribeError, UnsubscribeError};
use crate::sink::{MqttSink, Step};
use crate::state::SinkState;
use crate::types::{NonZeroU16, NonZeroU32};

verus! {

/// Subscribe packet builder
pub struct SubscribeBuilder {
    packet: Subscribe,
}

impl SubscribeBuilder {
    /// The packet.
    pub closed spec fn view(&self) -> Subscribe {
        self.packet
    }

    /// The view is the packet that is sent.
    proof fn law_view_is_faithful(self)
        ensures
            self@ == self.packet,
    {
    }

    /// The packet, as far as it is built.
    pub fn packet(&self) -> (r: &Subscribe)
        ensures
            *r == self@,
    {
        &self.packet
    }

    pub(crate) fn new(id: Option<NonZeroU32>) -> (r: SubscribeBuilder)
        ensures
            r@.id == id,
            r@.packet_id@ == 1,
            r@.user_properties@ == Seq::<(String, String)>::empty(),
            r@.topic_filters@ == Seq::<(String, SubscriptionOptions)>::empty(),
    {
        let packet_id = match NonZeroU16::new(1) {
            Some(packet_id) => packet_id,
            None => vstd::pervasive::unreached(),
        };
        SubscribeBuilder {
            packet: Subscribe {
                packet_id,
                id,
                user_properties: Vec::new(),
                topic_filters: Vec::new(),
            },
        }
    }

    /// Add topic filter
    pub fn topic_filter(self, filter: String, opts: SubscriptionOptions) -> (r: SubscribeBuilder)
        ensures
            r@.topic_filters@ == self@.topic_filters@.push((filter, opts)),
            r@ == (Subscribe { topic_filters: r@.topic_filters, ..self@ }),
    {
        let mut packet = self.packet;
        packet.topic_filters.push((filter, opts));
        SubscribeBuilder { packet }
    }

    /// Add user property
    pub fn property(self, key: String, value: String) -> (r: SubscribeBuilder)
        ensures
            r@.user_properties@ == self@.user_properties@.push((key, value)),
            r@ == (Subscribe { user_properties: r@.user_properties, ..self@ }),
    {
        let mut packet = self.packet;
        packet.user_properties.push((key, value));
        SubscribeBuilder { packet }
    }

    /// Send subscribe packet
    ///
    /// Where there is no credit, the request goes on with `resume`. Once the
    /// packet was sent, `written` and then `acked` turn what the two receivers
    /// get into the outcome of the request.
    pub fn send(self, sink: &mut MqttSink) -> (r: Step<SubscribeBuilder, SubscribeError>)
        requires
            old(sink).wf(),
        ensures
            final(sink).wf(),
            if !old(sink)@.is_open() {
                &&& r == Step::<SubscribeBuilder, SubscribeError>::Failed(SubscribeError::Disconnected)
                &&& final(sink)@ == old(sink)@
            } else if old(sink)@.in_flight() == old(sink)@.cap {
                &&& r matches Step::Wait { builder, wake }
                &&& builder == self
                &&& SinkState::wait_step(old(sink)@, final(sink)@, wake)
            } else {
                Self::goes_out(self@, old(sink)@, final(sink)@, r)
            },
    {
        if sink.is_open() {
            // handle client receive maximum
            if sink.credit() == 0 {
                let wake = sink.wait();
                return Step::Wait { builder: self, wake };
            }
            self.transmit(sink)
        } else {
            Step::Failed(SubscribeError::Disconnected)
        }
    }

    /// A subscribe request goes on after it waited for credit. It was told of
    /// some where `woken` holds; where another request took that in between, it
    /// waits again.
    pub fn resume(self, sink: &mut MqttSink, woken: bool) -> (r: Step<SubscribeBuilder, SubscribeError>)
        requires
            old(sink).wf(),
        ensures
            final(sink).wf(),
            if !woken || !old(sink)@.is_open() {
                &&& r == Step::<SubscribeBuilder, SubscribeError>::Failed(SubscribeError::Disconnected)
                &&& final(sink)@ == old(sink)@
            } else if old(sink)@.in_flight() == old(sink)@.cap {
                &&& r matches Step::Wait { builder, wake }
                &&& builder == self
                &&& SinkState::wait_step(old(sink)@, final(sink)@, wake)
            } else {
                Self::goes_out(self@, old(sink)@, final(sink)@, r)
            },
    {
        if woken {
            self.send(sink)
        } else {
            Step::Failed(SubscribeError::Disconnected)
        }
    }

    /// `packet` gets an identifier and goes to the encoder.
    pub open spec fn goes_out(
        packet: Subscribe,
        pre: SinkState,
        post: SinkState,
        r: Step<SubscribeBuilder, SubscribeError>,
    ) -> bool {
        &&& SinkState::request_returns(
            pre,
            AckType::Subscribe,
            post,
            r,
            SubscribeError::PacketIdNotAvailable,
            SubscribeError::Disconnected,
        )
        &&& pre.next_id() <= u16::MAX ==> (post.last_packet() matches Packet::Subscribe(p)
            && p.is_numbered(packet, pre.next_id()))
    }

    fn transmit(self, sink: &mut MqttSink) -> (r: Step<SubscribeBuilder, SubscribeError>)
        requires
            old(sink).wf(),
            old(sink)@.is_open(),
            old(sink)@.in_flight() < old(sink)@.cap,
        ensures
            final(sink).wf(),
            Self::goes_out(self@, old(sink)@, final(sink)@, r),
    {
        let mut packet = self.packet;
        match sink.register(AckType::Subscribe) {
            Some(ticket) => {
                packet.packet_id = ticket.packet_id;
                if sink.dispatch(Packet::Subscribe(packet), ticket.note) {
                    Step::Sent { info: ticket.info, ack: ticket.ack }
                } else {
                    Step::Failed(SubscribeError::Disconnected)
                }
            },
            None => Step::Failed(SubscribeError::PacketIdNotAvailable),
        }
    }

    /// What becomes of the request once the encoder reported, or `None` came in
    /// place of a report.
    pub fn written(info: Option<Info>) -> (r: Result<(), SubscribeError>)
        ensures
            r == match info {
                Some(Info::Written) => Ok(()),
                Some(Info::Error(err)) => Err(SubscribeError::Encode(err)),
                None => Err(SubscribeError::Disconnected),
            },
    {
        match info {
            Some(Info::Written) => Ok(()),
            Some(Info::Error(err)) => Err(SubscribeError::Encode(err)),
            None => Err(SubscribeError::Disconnected),
        }
    }

    /// The outcome of the request once the peer acknowledged it, or `None` came
    /// in place of the acknowledgement.
    pub fn acked(ack: Option<Ack>) -> (r: Result<SubscribeAck, SubscribeError>)
        requires
            ack matches Some(pkt) ==> pkt.kind() == AckType::Subscribe,
        ensures
            r == match ack {
                Some(Ack::Subscribe(pkt)) => Ok(pkt),
                _ => Err(SubscribeError::Disconnected),
            },
    {
        match ack {
            Some(ack) => Ok(ack.subscribe()),
            None => Err(SubscribeError::Disconnected),
        }
    }
}

/// Unsubscribe packet builder
pub struct UnsubscribeBuilder {
    packet: Unsubscribe,
}

impl UnsubscribeBuilder {
    /// The packet.
    pub closed spec fn view(&self) -> Unsubscribe {
        self.packet
    }

    /// The view is the packet that is sent.
    proof fn law_view_is_faithful(self)
        ensures
            self@ == self.packet,
    {
    }

    /// The packet, as far as it is built.
    pub fn packet(&self) -> (r: &Unsubscribe)
        ensures
            *r == self@,
    {
        &self.packet
    }

    pub(crate) fn new() -> (r: UnsubscribeBuilder)
        ensures
            r@.packet_id@ == 1,
            r@.user_properties@ == Seq::<(String, String)>::empty(),
            r@.topic_filters@ == Seq::<String>::empty(),
    {
        let packet_id = match NonZeroU16::new(1) {
            Some(packet_id) => packet_id,
            None => vstd::pervasive::unreached(),
        };
        UnsubscribeBuilder {
            packet: Unsubscribe {
                packet_id,
                user_properties: Vec::new(),
                topic_filters: Vec::new(),
            },
        }
    }

    /// Add topic filter
    pub fn topic_filter(self, filter: String) -> (r: UnsubscribeBuilder)
        ensures
            r@.topic_filters@ == self@.topic_filters@.push(filter),
            r@ == (Unsubscribe { topic_filters: r@.topic_filters, ..self@ }),
    {
        let mut packet = self.packet;
        packet.topic_filters.push(filter);
        UnsubscribeBuilder { packet }
    }

    /// Add user property
    pub fn property(self, key: String, value: String) -> (r: UnsubscribeBuilder)
        ensures
            r@.user_properties@ == self@.user_properties@.push((key, value)),
            r@ == (Unsubscribe { user_properties: r@.user_properties, ..self@ }),
    {
        let mut packet = self.packet;
        packet.user_properties.push((key, value));
        UnsubscribeBuilder { packet }
    }

    /// Send unsubscribe packet
    ///
    /// Where there is no credit, the request goes on with `resume`. Once the
    /// packet was sent, `written` and then `acked` turn what the two receivers
    /// get into the outcome of the request.
    pub fn send(self, sink: &mut MqttSink) -> (r: Step<UnsubscribeBuilder, UnsubscribeError>)
        requires
            old(sink).wf(),
        ensures
            final(sink).wf(),
            if !old(sink)@.is_open() {
                &&& r == Step::<UnsubscribeBuilder, UnsubscribeError>::Failed(UnsubscribeError::Disconnected)
                &&& final(sink)@ == old(sink)@
            } else if old(sink)@.in_flight() == old(sink)@.cap {
                &&& r matches Step::Wait { builder, wake }
                &&& builder == self
                &&& SinkState::wait_step(old(sink)@, final(sink)@, wake)
            } else {
                Self::goes_out(self@, old(sink)@, final(sink)@, r)
            },
    {
        if sink.is_open() {
            // handle client receive maximum
            if sink.credit() == 0 {
                let wake = sink.wait();
                return Step::Wait { builder: self, wake };
            }
            self.transmit(sink)
        } else {
            Step::Failed(UnsubscribeError::Disconnected)
        }
    }

    /// An unsubscribe request goes on after it waited for credit. It was told of
    /// some where `woken` holds; where another request took that in between, it
    /// waits again.
    pub fn resume(self, sink: &mut MqttSink, woken: bool) -> (r: Step<UnsubscribeBuilder, UnsubscribeError>)
        requires
            old(sink).wf(),
        ensures
            final(sink).wf(),
            if !woken || !old(sink)@.is_open() {
                &&& r == Step::<UnsubscribeBuilder, UnsubscribeError>::Failed(UnsubscribeError::Disconnected)
                &&& final(sink)@ == old(sink)@
            } else if old(sink)@.in_flight() == old(sink)@.cap {
                &&& r matches Step::Wait { builder, wake }
                &&& builder == self
                &&& SinkState::wait_step(old(sink)@, final(sink)@, wake)
            } else {
                Self::goes_out(self@, old(sink)@, final(sink)@, r)
            },
    {
        if woken {
            self.send(sink)
        } else {
            Step::Failed(UnsubscribeError::Disconnected)
        }
    }

    /// `packet` gets an identifier and goes to the encoder.
    pub open spec fn goes_out(
        packet: Unsubscribe,
        pre: SinkState,
        post: SinkState,
        r: Step<UnsubscribeBuilder, UnsubscribeError>,
    ) -> bool {
        &&& SinkState::request_returns(
            pre,
            AckType::Unsubscribe,
            post,
            r,
            UnsubscribeError::PacketIdNotAvailable,
            UnsubscribeError::Disconnected,
        )
        &&& pre.next_id() <= u16::MAX ==> (post.last_packet() matches Packet::Unsubscribe(p)
            && p.is_numbered(packet, pre.next_id()))
    }

    fn transmit(self, sink: &mut MqttSink) -> (r: Step<UnsubscribeBuilder, UnsubscribeError>)
        requires
            old(sink).wf(),
            old(sink)@.is_open(),
            old(sink)@.in_flight() < old(sink)@.cap,
        ensures
            final(sink).wf(),
            Self::goes_out(self@, old(sink)@, final(sink)@, r),
    {
        let mut packet = self.packet;
        match sink.register(AckType::Unsubscribe) {
            Some(ticket) => {
                packet.packet_id = ticket.packet_id;
                if sink.dispatch(Packet::Unsubscribe(packet), ticket.note) {
                    Step::Sent { info: ticket.info, ack: ticket.ack }
                } else {
                    Step::Failed(UnsubscribeError::Disconnected)
                }
            },
            None => Step::Failed(UnsubscribeError::PacketIdNotAvailable),
        }
    }

    /// What becomes of the request once the encoder reported, or `None` came in
    /// place of a report.
    pub fn written(info: Option<Info>) -> (r: Result<(), UnsubscribeError>)
        ensures
            r == match info {
                Some(Info::Written) => Ok(()),
                Some(Info::Error(err)) => Err(UnsubscribeError::Encode(err)),
                None => Err(UnsubscribeError::Disconnected),
            },
    {
        match info {
            Some(Info::Written) => Ok(()),
            Some(Info::Error(err)) => Err(UnsubscribeError::Encode(err)),
            None => Err(UnsubscribeError::Disconnected),
        }
    }

    /// The outcome of the request once the peer acknowledged it, or `None` came
    /// in place of the acknowledgement.
    pub fn acked(ack: Option<Ack>) -> (r: Result<UnsubscribeAck, UnsubscribeError>)
        requires
            ack matches Some(pkt) ==> pkt.kind() == AckType::Unsubscribe,
        ensures
            r == match ack {
                Some(Ack::Unsubscribe(pkt)) => Ok(pkt),
                _ => Err(UnsubscribeError::Disconnected),
            },
    {
        match ack {
            Some(ack) => Ok(ack.unsubscribe()),
            None => Err(UnsubscribeError::Disconnected),
        }
    }
}

} // verus!
