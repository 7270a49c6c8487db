//! Publish requests.
use bytes::Bytes;
use ntex::channel::pool;
use vstd::prelude::*;

use crate::ack::{Ack, AckType, Info};
use crate::codec::{Packet, Publish, PublishAck, PublishAckReason, PublishProperties};
use crate::error::{PublishQos0Error, PublishQos1Error};
use crate::sink::{MqttSink, Step};
use crate::state::SinkState;
use crate::types::QoS;

verus! {

/// Publish packet builder
pub struct PublishBuilder {
    packet: Publish,
}

impl PublishBuilder {
    /// The packet.
    pub closed spec fn view(&self) -> Publish {
        self.packet
    }

    /// The view is the packet that is sent.
    proof fn law_view_is_faithful(self)
        ensures
            self@ == self.packet,
    {
    }

    /// The packet, as far as it is built.
    pub fn packet(&self) -> (r: &Publish)
        ensures
            *r == self@,
    {
        &self.packet
    }

    pub(crate) fn new(topic: String, payload: Bytes) -> (r: PublishBuilder)
        ensures
            r@.topic == topic,
            r@.payload == payload,
            r@.qos == QoS::AtMostOnce,
            r@.packet_id is None,
            !r@.dup,
            !r@.retain,
            r@.properties.is_empty(),
    {
        PublishBuilder {
            packet: Publish {
                dup: false,
                retain: false,
                qos: QoS::AtMostOnce,
                topic,
                packet_id: None,
                properties: PublishProperties::default(),
                payload,
            },
        }
    }

    /// this might be re-delivery of an earlier attempt to send the Packet.
    pub fn dup(self, val: bool) -> (r: PublishBuilder)
        ensures
            r@ == (Publish { dup: val, ..self@ }),
    {
        let mut packet = self.packet;
        packet.dup = val;
        PublishBuilder { packet }
    }

    /// Set retain flag
    pub fn retain(self) -> (r: PublishBuilder)
        ensures
            r@ == (Publish { retain: true, ..self@ }),
    {
        let mut packet = self.packet;
        packet.retain = true;
        PublishBuilder { packet }
    }

    /// Set publish packet properties
    pub fn properties<F>(self, f: F) -> (r: PublishBuilder) where F: FnOnce(&mut PublishProperties)
        requires
            forall|p: &mut PublishProperties| *p == self@.properties ==> call_requires(f, (p,)),
        ensures
            r@ == (Publish { properties: r@.properties, ..self@ }),
            exists|p: &mut PublishProperties|
                *p == self@.properties && *final(p) == r@.properties && call_ensures(f, (p,), ()),
    {
        let mut builder = self;
        builder.set_properties(f);
        builder
    }

    /// Set publish packet properties
    pub fn set_properties<F>(&mut self, f: F) where F: FnOnce(&mut PublishProperties)
        requires
            forall|p: &mut PublishProperties|
                *p == old(self)@.properties ==> call_requires(f, (p,)),
        ensures
            final(self)@ == (Publish { properties: final(self)@.properties, ..old(self)@ }),
            exists|p: &mut PublishProperties|
                *p == old(self)@.properties && *final(p) == final(self)@.properties && call_ensures(
                    f,
                    (p,),
                    (),
                ),
    {
        f(&mut self.packet.properties);
    }

    /// Send publish packet with QoS 0
    ///
    /// What is returned gets the report of the encoder, which
    /// `at_most_once_written` turns into the outcome of the request.
    pub fn send_at_most_once(self, sink: &mut MqttSink) -> (r: Result<
        pool::Receiver<Info>,
        PublishQos0Error,
    >)
        requires
            old(sink).wf(),
        ensures
            final(sink).wf(),
            match r {
                Ok(rx) => SinkState::at_most_once_step(
                    old(sink)@,
                    Packet::Publish(self@),
                    final(sink)@,
                    Some(rx),
                ),
                Err(err) => {
                    &&& err == PublishQos0Error::Disconnected
                    &&& SinkState::at_most_once_step(
                        old(sink)@,
                        Packet::Publish(self@),
                        final(sink)@,
                        None,
                    )
                },
            },
    {
        match sink.publish_at_most_once(self.packet) {
            Some(rx) => Ok(rx),
            None => Err(PublishQos0Error::Disconnected),
        }
    }

    /// The outcome of a publish request with QoS 0 once the encoder reported,
    /// or `None` came in place of a report.
    pub fn at_most_once_written(info: Option<Info>) -> (r: Result<(), PublishQos0Error>)
        ensures
            r == match info {
                Some(Info::Written) => Ok(()),
                Some(Info::Error(err)) => Err(PublishQos0Error::Encode(err)),
                None => Err(PublishQos0Error::Disconnected),
            },
    {
        match info {
            Some(Info::Written) => Ok(()),
            Some(Info::Error(err)) => Err(PublishQos0Error::Encode(err)),
            None => Err(PublishQos0Error::Disconnected),
        }
    }

    /// Send publish packet with QoS 1
    ///
    /// Where there is no credit, the request goes on with
    /// `resume_at_least_once`. Once the packet was sent,
    /// `at_least_once_written` and then `at_least_once_acked` turn what the
    /// two receivers get into the outcome of the request.
    pub fn send_at_least_once(self, sink: &mut MqttSink) -> (r: Step<
        PublishBuilder,
        PublishQos1Error,
    >)
        requires
            old(sink).wf(),
        ensures
            final(sink).wf(),
            if !old(sink)@.is_open() {
                &&& r == Step::<PublishBuilder, PublishQos1Error>::Failed(
                    PublishQos1Error::Disconnected,
                )
                &&& final(sink)@ == old(sink)@
            } else if old(sink)@.in_flight() == old(sink)@.cap {
                &&& r matches Step::Wait { builder, wake }
                &&& builder == self
                &&& SinkState::wait_step(old(sink)@, final(sink)@, wake)
            } else {
                Self::goes_out(self@, old(sink)@, final(sink)@, r)
            },
    {
        self.resume_at_least_once(sink, true)
    }

    /// A publish request with QoS 1 goes on after it waited for credit. It was
    /// told of some where `woken` holds; where another request took that in
    /// between, it waits again.
    pub fn resume_at_least_once(self, sink: &mut MqttSink, woken: bool) -> (r: Step<
        PublishBuilder,
        PublishQos1Error,
    >)
        requires
            old(sink).wf(),
        ensures
            final(sink).wf(),
            if !woken || !old(sink)@.is_open() {
                &&& r == Step::<PublishBuilder, PublishQos1Error>::Failed(
                    PublishQos1Error::Disconnected,
                )
                &&& final(sink)@ == old(sink)@
            } else if old(sink)@.in_flight() == old(sink)@.cap {
                &&& r matches Step::Wait { builder, wake }
                &&& builder == self
                &&& SinkState::wait_step(old(sink)@, final(sink)@, wake)
            } else {
                Self::goes_out(self@, old(sink)@, final(sink)@, r)
            },
    {
        if woken && sink.is_open() {
            // handle client receive maximum
            if sink.credit() == 0 {
                let wake = sink.wait();
                return Step::Wait { builder: self, wake };
            }
            self.transmit(sink)
        } else {
            Step::Failed(PublishQos1Error::Disconnected)
        }
    }

    /// `packet` gets an identifier and goes to the encoder with QoS 1,
    /// whatever it was built with.
    pub open spec fn goes_out(
        packet: Publish,
        pre: SinkState,
        post: SinkState,
        r: Step<PublishBuilder, PublishQos1Error>,
    ) -> bool {
        &&& SinkState::request_returns(
            pre,
            AckType::Publish,
            post,
            r,
            PublishQos1Error::PacketIdNotAvailable,
            PublishQos1Error::Disconnected,
        )
        &&& pre.next_id() <= u16::MAX ==> (post.last_packet() matches Packet::Publish(p)
            && p.is_numbered(Publish { qos: QoS::AtLeastOnce, ..packet }, pre.next_id()))
    }

    fn transmit(self, sink: &mut MqttSink) -> (r: Step<PublishBuilder, PublishQos1Error>)
        requires
            old(sink).wf(),
            old(sink)@.is_open(),
            old(sink)@.in_flight() < old(sink)@.cap,
        ensures
            final(sink).wf(),
            Self::goes_out(self@, old(sink)@, final(sink)@, r),
    {
        let mut packet = self.packet;
        packet.qos = QoS::AtLeastOnce;
        match sink.register(AckType::Publish) {
            Some(ticket) => {
                packet.packet_id = Some(ticket.packet_id);
                if sink.dispatch(Packet::Publish(packet), ticket.note) {
                    Step::Sent { info: ticket.info, ack: ticket.ack }
                } else {
                    Step::Failed(PublishQos1Error::Disconnected)
                }
            },
            None => Step::Failed(PublishQos1Error::PacketIdNotAvailable),
        }
    }

    /// What becomes of a publish request with QoS 1 once the encoder reported,
    /// or `None` came in place of a report.
    pub fn at_least_once_written(info: Option<Info>) -> (r: Result<(), PublishQos1Error>)
        ensures
            r == match info {
                Some(Info::Written) => Ok(()),
                Some(Info::Error(err)) => Err(PublishQos1Error::Encode(err)),
                None => Err(PublishQos1Error::Disconnected),
            },
    {
        match info {
            Some(Info::Written) => Ok(()),
            Some(Info::Error(err)) => Err(PublishQos1Error::Encode(err)),
            None => Err(PublishQos1Error::Disconnected),
        }
    }

    /// The outcome of a publish request with QoS 1 once the peer acknowledged
    /// it, or `None` came in place of the acknowledgement.
    pub fn at_least_once_acked(ack: Option<Ack>) -> (r: Result<PublishAck, PublishQos1Error>)
        requires
            ack matches Some(pkt) ==> pkt.kind() == AckType::Publish,
        ensures
            match ack {
                Some(Ack::Publish(pkt)) => r == if pkt.reason_code == PublishAckReason::Success {
                    Ok(pkt)
                } else {
                    Err(PublishQos1Error::Fail(pkt))
                },
                _ => r == Err::<PublishAck, PublishQos1Error>(PublishQos1Error::Disconnected),
            },
    {
        match ack {
            Some(ack) => {
                let pkt = ack.publish();
                match pkt.reason_code {
                    PublishAckReason::Success => Ok(pkt),
                    _ => Err(PublishQos1Error::Fail(pkt)),
                }
            },
            None => Err(PublishQos1Error::Disconnected),
        }
    }
}

} // verus!
