//! What each operation is for, stated of the calls themselves.
//!
//! `call_ensures(f, args, r)` holds of every call of `f` that returned `r`. The
//! laws here say what such a call did to the sink and what it gave back, in
//! terms of the arguments, the result and the contents of the sink before and
//! after. The few functions that they share speak of sequences and maps alone,
//! and no contract is stated in terms of them.
use bytes::Bytes;
use either::Either;
use ntex::channel::{mpsc, pool};
use ntex::connect::ConnectError;
use std::io;
use std::rc::Rc;
use vstd::prelude::*;

use crate::ack::{Ack, AckType, Info};
use crate::channel::Entry;
use crate::codec::{
    ConnectAck, Disconnect, DisconnectReasonCode, Packet, Publish, PublishAck, PublishAckReason,
    PublishProperties, Subscribe, SubscribeAck, SubscriptionOptions, Unsubscribe, UnsubscribeAck,
};
use crate::error::{
    ClientError, EncodeError, ProtocolError, PublishQos0Error, PublishQos1Error, SubscribeError,
    UnsubscribeError,
};
use crate::laws::{law_acks_in_order, law_encode_error_withdraws, Event};
use crate::lemmas::{lemma_leading_zeros, lemma_live_contains, lemma_next_key};
use crate::publish::PublishBuilder;
use crate::sink::{MqttSink, MqttSinkPool, Step};
use crate::state::{leading_zeros, nonzero, Item, SinkState};
use crate::subscribe::{SubscribeBuilder, UnsubscribeBuilder};
use crate::table::{lemma_inserted, Slots};
use crate::types::{NonZeroU16, NonZeroU32, QoS};

verus! {

/// One message was handed over, and nothing before it is forgotten.
pub open spec fn handed<S, M>(
    pre: Seq<Entry<S, M>>,
    post: Seq<Entry<S, M>>,
    to: S,
    message: M,
) -> bool {
    &&& post == pre.push(post.last())
    &&& post.last().to == to
    &&& post.last().message == message
}

/// The number of the slot that the next value goes to: the one that became
/// vacant last, or else a new one.
pub open spec fn fresh<T>(s: Slots<T>) -> nat {
    if s.vacant.len() == 0 {
        s.occupied.dom().len()
    } else {
        s.vacant.last() as nat
    }
}

/// `value` was stored in a slot that was free, and nothing else changed.
pub open spec fn stored<T>(pre: Slots<T>, post: Slots<T>, value: T) -> bool {
    let key = fresh(pre) as usize;
    &&& fresh(pre) < usize::MAX
    &&& !pre.occupied.dom().contains(key)
    &&& post.occupied == pre.occupied.insert(key, value)
    &&& post.vacant == if pre.vacant.len() == 0 {
        pre.vacant
    } else {
        pre.vacant.drop_last()
    }
}

/// The value in the slot `key` was taken out, and nothing else changed.
pub open spec fn freed<T>(pre: Slots<T>, post: Slots<T>, key: usize) -> bool {
    &&& pre.occupied.dom().contains(key)
    &&& post.occupied == pre.occupied.remove(key)
    &&& post.vacant == pre.vacant.push(key)
}

/// The identifiers in the order in which they are to be acknowledged.
pub open spec fn waiting(s: SinkState) -> Seq<usize> {
    s.order.filter(|id: usize| id != 0)
}

/// The number of packets that wait for an acknowledgement or hold an
/// identifier still.
pub open spec fn held(s: SinkState) -> nat {
    s.queue.occupied.dom().len()
}

/// A packet with an identifier went to the encoder: it has an identifier of two
/// bytes that was free, joined at the end of those that wait for an
/// acknowledgement of the type `tp`, and is to be reported under a number that
/// was free. Nothing else changed.
pub open spec fn joined(pre: SinkState, post: SinkState, tp: AckType) -> bool {
    let id = (fresh(pre.queue) + 1) as usize;
    let note = (fresh(pre.info) + 1) as usize;
    let tx = post.queue.occupied[(id - 1) as usize].0;
    let info_tx = post.info.occupied[(note - 1) as usize].0;
    &&& fresh(pre.queue) + 1 <= 0xffff
    &&& stored(pre.queue, post.queue, (tx, tp))
    &&& stored(pre.info, post.info, (info_tx, id))
    &&& tx.origin() == pre.pool.queue
    &&& info_tx.origin() == pre.pool.info
    &&& post.order == pre.order.push(id)
    &&& handed(pre.sent, post.sent, pre.sink->0, (post.sent.last().message.0, note))
    &&& post == (SinkState {
        queue: post.queue,
        info: post.info,
        order: post.order,
        sent: post.sent,
        ..pre
    })
}

/// The receivers of a packet that went out are the other ends of the channels
/// that its report and its acknowledgement go to.
pub open spec fn reaches(
    pre: SinkState,
    post: SinkState,
    info: pool::Receiver<Info>,
    ack: pool::Receiver<Ack>,
) -> bool {
    &&& post.info.occupied[fresh(pre.info) as usize].0.peer() == info
    &&& post.queue.occupied[fresh(pre.queue) as usize].0.peer() == ack
}

/// A request waits for credit, behind those that wait already. Nothing else
/// changed.
pub open spec fn queued(pre: SinkState, post: SinkState, wake: pool::Receiver<()>) -> bool {
    &&& post.waiters == pre.waiters.push(post.waiters.last())
    &&& post.waiters.last().origin() == pre.pool.waiters
    &&& post.waiters.last().peer() == wake
    &&& post == (SinkState { waiters: post.waiters, ..pre })
}

/// The words that the other laws use of a sink.
pub proof fn law_words(s: SinkState, id: usize)
    requires
        s.wf(),
    ensures
        s.is_open() <==> s.sink is Some,
        s.in_flight() == held(s),
        held(s) <= s.cap,
        s.pending() == waiting(s),
        s.is_in_flight(id) <==> id != 0 && s.queue.occupied.dom().contains((id - 1) as usize),
        s.awaits_report(id) <==> id != 0 && s.info.occupied.dom().contains((id - 1) as usize),
        s.next_id() == fresh(s.queue) + 1,
        waiting(s).contains(id) ==> s.is_in_flight(id),
{
    lemma_waiting(s);
    lemma_live_contains(s.order, id);
    if s.order.contains(id) && id != 0 {
        assert(s.is_in_flight(s.order[s.order.index_of(id)]));
    }
}

/// `waiting` filters as the contents of a sink do.
proof fn lemma_waiting(s: SinkState)
    ensures
        s.pending() == waiting(s),
{
    assert(nonzero() =~= |id: usize| id != 0);
}

/// An acknowledgement has the identifier and the type of the packet inside.
pub proof fn law_ack_words(
    publish: PublishAck,
    subscribe: SubscribeAck,
    unsubscribe: UnsubscribeAck,
)
    ensures
        Ack::Publish(publish).id() == publish.packet_id@,
        Ack::Subscribe(subscribe).id() == subscribe.packet_id@,
        Ack::Unsubscribe(unsubscribe).id() == unsubscribe.packet_id@,
        Ack::Publish(publish).kind() == AckType::Publish,
        Ack::Subscribe(subscribe).kind() == AckType::Subscribe,
        Ack::Unsubscribe(unsubscribe).kind() == AckType::Unsubscribe,
{
}

/// A new sink is open, with all its credit and nothing to wait for.
pub proof fn law_new(
    sink: mpsc::Sender<Item>,
    max_send: usize,
    pool: Rc<MqttSinkPool>,
    r: MqttSink,
)
    requires
        call_ensures(MqttSink::new, (sink, max_send, pool), r),
    ensures
        r.wf(),
        r@.cap == max_send,
        r@.pool == *pool,
        r@.sink == Some(sink),
        r@.info.occupied.dom() == Set::<usize>::empty(),
        r@.info.vacant.len() == 0,
        r@.queue.occupied.dom() == Set::<usize>::empty(),
        r@.queue.vacant.len() == 0,
        r@.order.len() == 0,
        r@.waiters.len() == 0,
        r@.sent.len() == 0,
        r@.told.len() == 0,
        r@.acked.len() == 0,
        r@.woken.len() == 0,
{
}

/// A sink is open until its sender is gone.
pub proof fn law_is_open(s: MqttSink, r: bool)
    requires
        call_ensures(MqttSink::is_open, (&s,), r),
    ensures
        r <==> s@.sink is Some,
{
}

/// The credit is what the limit leaves beside the identifiers that are held.
pub proof fn law_credit(s: MqttSink, r: usize)
    requires
        s.wf(),
        call_ensures(MqttSink::credit, (&s,), r),
    ensures
        r + held(s@) == s@.cap,
{
}

/// The encoder has a report to make under each number that it was given and has
/// not reported, and under no other.
pub proof fn law_awaits_report(s: MqttSink, idx: usize, r: bool)
    requires
        call_ensures(MqttSink::awaits_report, (&s, idx), r),
    ensures
        r <==> idx != 0 && s@.info.occupied.dom().contains((idx - 1) as usize),
{
}

/// A packet that is sent goes to the encoder as it is, with no report wanted,
/// where the connection is open. The connection stays as it is, and so does
/// everything else.
pub proof fn law_send(s: &mut MqttSink, pkt: Packet)
    requires
        old(s).wf(),
        call_ensures(MqttSink::send, (s, pkt), ()),
    ensures
        final(s).wf(),
        match old(s)@.sink {
            Some(tx) => handed(old(s)@.sent, final(s)@.sent, tx, (pkt, 0usize)),
            None => final(s)@.sent == old(s)@.sent,
        },
        final(s)@ == (SinkState { sent: final(s)@.sent, ..old(s)@ }),
{
}

/// A ping goes to the encoder where the connection is open, and leaves it open.
/// True is returned exactly where the encoder took it.
pub proof fn law_ping(s: &mut MqttSink, r: bool)
    requires
        old(s).wf(),
        call_ensures(MqttSink::ping, (s,), r),
    ensures
        final(s).wf(),
        match old(s)@.sink {
            Some(tx) => {
                &&& handed(old(s)@.sent, final(s)@.sent, tx, (Packet::PingRequest, 0usize))
                &&& r == final(s)@.sent.last().accepted
            },
            None => !r && final(s)@.sent == old(s)@.sent,
        },
        final(s)@ == (SinkState { sent: final(s)@.sent, ..old(s)@ }),
{
}

/// Closing hands exactly one packet to the encoder where the connection was
/// open, the given one, and none where it was not. The connection is closed
/// after it, whatever is in flight, and nothing else changes.
pub proof fn law_close_with_reason(s: &mut MqttSink, pkt: Disconnect)
    requires
        old(s).wf(),
        call_ensures(MqttSink::close_with_reason, (s, pkt), ()),
    ensures
        final(s).wf(),
        final(s)@.sink is None,
        match old(s)@.sink {
            Some(tx) => handed(
                old(s)@.sent,
                final(s)@.sent,
                tx,
                (Packet::Disconnect(pkt), 0usize),
            ),
            None => final(s)@.sent == old(s)@.sent,
        },
        final(s)@ == (SinkState { sink: None, sent: final(s)@.sent, ..old(s)@ }),
{
}

/// As for any reason, with a packet that says that the connection ends normally
/// and nothing more.
pub proof fn law_close(s: &mut MqttSink)
    requires
        old(s).wf(),
        call_ensures(MqttSink::close, (s,), ()),
    ensures
        final(s).wf(),
        final(s)@.sink is None,
        match old(s)@.sink {
            Some(tx) => {
                let packet = final(s)@.sent.last().message.0;
                &&& handed(old(s)@.sent, final(s)@.sent, tx, (packet, 0usize))
                &&& packet matches Packet::Disconnect(pkt)
                &&& pkt.reason_code == DisconnectReasonCode::NormalDisconnection
                &&& pkt.session_expiry_interval_secs is None
                &&& pkt.server_reference is None
                &&& pkt.reason_string is None
                &&& pkt.user_properties@.len() == 0
            },
            None => final(s)@.sent == old(s)@.sent,
        },
        final(s)@ == (SinkState { sink: None, sent: final(s)@.sent, ..old(s)@ }),
{
}

/// Dropping the sender closes the connection, sends nothing and changes nothing
/// else.
pub proof fn law_drop_sink(s: &mut MqttSink)
    requires
        old(s).wf(),
        call_ensures(MqttSink::drop_sink, (s,), ()),
    ensures
        final(s).wf(),
        final(s)@ == (SinkState { sink: None, ..old(s)@ }),
{
}

/// A report that a packet was written goes to the channel of that packet and to
/// no other, and is made once. The acknowledgements that are waited for, their
/// order, the identifiers and all else stay as they are.
pub proof fn law_pkt_written(s: &mut MqttSink, idx: usize)
    requires
        old(s).wf(),
        idx != 0,
        old(s)@.info.occupied.dom().contains((idx - 1) as usize),
        call_ensures(MqttSink::pkt_written, (s, idx), ()),
    ensures
        final(s).wf(),
        handed(
            old(s)@.told,
            final(s)@.told,
            old(s)@.info.occupied[(idx - 1) as usize].0,
            Info::Written,
        ),
        freed(old(s)@.info, final(s)@.info, (idx - 1) as usize),
        waiting(final(s)@) == waiting(old(s)@),
        final(s)@ == (SinkState { info: final(s)@.info, told: final(s)@.told, ..old(s)@ }),
{
}

/// A report that a packet could not be encoded goes to the channel of that
/// packet and to no other, and is made once. Where the packet waits for an
/// acknowledgement, it does so no longer and gives its identifier back; the
/// others wait as before, in the same order. Nothing else changes.
pub proof fn law_pkt_encode_err(s: &mut MqttSink, idx: usize, err: EncodeError)
    requires
        old(s).wf(),
        idx != 0,
        old(s)@.info.occupied.dom().contains((idx - 1) as usize),
        call_ensures(MqttSink::pkt_encode_err, (s, idx, err), ()),
    ensures
        final(s).wf(),
        handed(
            old(s)@.told,
            final(s)@.told,
            old(s)@.info.occupied[(idx - 1) as usize].0,
            Info::Error(err),
        ),
        freed(old(s)@.info, final(s)@.info, (idx - 1) as usize),
        ({
            let id = old(s)@.info.occupied[(idx - 1) as usize].1;
            let ids = waiting(old(s)@);
            if ids.contains(id) {
                &&& waiting(final(s)@) == ids.remove(ids.index_of(id))
                &&& freed(old(s)@.queue, final(s)@.queue, (id - 1) as usize)
            } else {
                &&& final(s)@.order == old(s)@.order
                &&& final(s)@.queue == old(s)@.queue
            }
        }),
        final(s)@ == (SinkState {
            info: final(s)@.info,
            told: final(s)@.told,
            order: final(s)@.order,
            queue: final(s)@.queue,
            ..old(s)@
        }),
{
    let (pre, post) = (old(s)@, final(s)@);
    let id = pre.info.occupied[(idx - 1) as usize].1;
    lemma_waiting(pre);
    lemma_waiting(post);
    lemma_live_contains(pre.order, id);
    law_encode_error_withdraws(pre, idx, err, post);
    if pre.order.contains(id) && id != 0 {
        assert(pre.is_in_flight(pre.order[pre.order.index_of(id)]));
    }
}

/// An acknowledgement is accepted exactly where it is for the oldest request
/// that waits, and of the type of that request. It goes to the channel of that
/// request alone, its identifier is free again, and requests that wait for
/// credit are told of it from the front, up to the first that is still there.
/// An acknowledgement of the wrong type frees the identifier and goes nowhere;
/// any other is refused as a mismatch, frees nothing and goes nowhere. Whatever
/// it is, the oldest request waits no longer, and nothing else changes.
pub proof fn law_pkt_ack(s: &mut MqttSink, pkt: Ack, r: Result<(), ProtocolError>)
    requires
        old(s).wf(),
        call_ensures(MqttSink::pkt_ack, (s, pkt), r),
    ensures
        final(s).wf(),
        ({
            let (pre, post) = (old(s)@, final(s)@);
            let ids = waiting(pre);
            let key = (pkt.id() - 1) as usize;
            let (tx, tp) = pre.queue.occupied[key];
            let told = post.woken.len() - pre.woken.len();
            &&& waiting(post) == if ids.len() == 0 {
                ids
            } else {
                ids.skip(1)
            }
            &&& post == (SinkState {
                order: post.order,
                queue: post.queue,
                acked: post.acked,
                waiters: post.waiters,
                woken: post.woken,
                ..pre
            })
            &&& if ids.len() == 0 || ids[0] != pkt.id() {
                &&& r == Err::<(), ProtocolError>(ProtocolError::PacketIdMismatch)
                &&& post.queue == pre.queue
                &&& post.acked == pre.acked
                &&& post.waiters == pre.waiters
                &&& post.woken == pre.woken
            } else if tp != pkt.kind() {
                &&& r matches Err(ProtocolError::Unexpected(byte, name))
                &&& byte == match pkt {
                    Ack::Publish(_) => 0x40u8,
                    Ack::Subscribe(_) => 0x90u8,
                    Ack::Unsubscribe(_) => 0xb0u8,
                }
                &&& name@ == match tp {
                    AckType::Publish => "PublishAck"@,
                    AckType::Subscribe => "SubscribeAck"@,
                    AckType::Unsubscribe => "UnsubscribeAck"@,
                }
                &&& freed(pre.queue, post.queue, key)
                &&& post.acked == pre.acked
                &&& post.waiters == pre.waiters
                &&& post.woken == pre.woken
            } else {
                &&& r == Ok::<(), ProtocolError>(())
                &&& freed(pre.queue, post.queue, key)
                &&& handed(pre.acked, post.acked, tx, pkt)
                &&& 0 <= told <= pre.waiters.len()
                &&& post.waiters == pre.waiters.skip(told)
                &&& post.woken.take(pre.woken.len() as int) == pre.woken
                &&& forall|i: int|
                    0 <= i < told ==> {
                        &&& (#[trigger] post.woken[pre.woken.len() + i]).to == pre.waiters[i]
                        &&& i < told - 1 ==> !post.woken[pre.woken.len() + i].accepted
                    }
                &&& told < pre.waiters.len() ==> told > 0 && post.woken.last().accepted
            }
        }),
{
    let (pre, post) = (old(s)@, final(s)@);
    lemma_waiting(pre);
    lemma_waiting(post);
    law_acks_in_order(pre, pkt, post, r);
    let n = leading_zeros(pre.order) as int;
    lemma_leading_zeros(pre.order);
    if n < pre.order.len() {
        assert(pre.is_in_flight(pre.order[n]));
    }
}

/// A report that a packet was written makes no difference to an
/// acknowledgement: it is accepted or refused as it would have been without the
/// report, goes to the same channel, and leaves the same requests waiting.
pub proof fn law_written_report_leaves_acks(
    s: &mut MqttSink,
    idx: usize,
    after: &mut MqttSink,
    before: &mut MqttSink,
    pkt: Ack,
    r_after: Result<(), ProtocolError>,
    r_before: Result<(), ProtocolError>,
)
    requires
        old(s).wf(),
        idx != 0,
        old(s)@.info.occupied.dom().contains((idx - 1) as usize),
        call_ensures(MqttSink::pkt_written, (s, idx), ()),
        old(after)@ == final(s)@,
        call_ensures(MqttSink::pkt_ack, (after, pkt), r_after),
        old(before)@ == old(s)@,
        call_ensures(MqttSink::pkt_ack, (before, pkt), r_before),
    ensures
        r_after is Ok <==> r_before is Ok,
        r_after == Err::<(), ProtocolError>(ProtocolError::PacketIdMismatch) <==> r_before == Err::<
            (),
            ProtocolError,
        >(ProtocolError::PacketIdMismatch),
        waiting(final(after)@) == waiting(final(before)@),
        final(after)@.queue == final(before)@.queue,
        r_after is Ok ==> final(after)@.acked.last().to == final(before)@.acked.last().to,
{
    law_pkt_written(s, idx);
    law_pkt_ack(after, pkt, r_after);
    law_pkt_ack(before, pkt, r_before);
}

/// A publish packet that is not acknowledged goes to the encoder as it was
/// built, where the connection is open, under a number that was free. A receiver
/// is returned exactly where the encoder took it, whatever the credit, and gets
/// its report. No identifier is taken, and nothing else changes.
pub proof fn law_send_at_most_once(
    builder: PublishBuilder,
    s: &mut MqttSink,
    r: Result<pool::Receiver<Info>, PublishQos0Error>,
)
    requires
        old(s).wf(),
        call_ensures(PublishBuilder::send_at_most_once, (builder, s), r),
    ensures
        final(s).wf(),
        ({
            let (pre, post) = (old(s)@, final(s)@);
            let note = (fresh(pre.info) + 1) as usize;
            let tx = post.info.occupied[(note - 1) as usize].0;
            &&& stored(pre.info, post.info, (tx, 0usize))
            &&& tx.origin() == pre.pool.info
            &&& match pre.sink {
                Some(sink) => handed(pre.sent, post.sent, sink, (Packet::Publish(builder@), note)),
                None => post.sent == pre.sent,
            }
            &&& r is Ok <==> pre.sink is Some && post.sent.last().accepted
            &&& r matches Ok(rx) ==> tx.peer() == rx
            &&& r matches Err(e) ==> e == PublishQos0Error::Disconnected
            &&& post == (SinkState { info: post.info, sent: post.sent, ..pre })
        }),
{
    lemma_inserted(old(s)@.info, final(s)@.info.at(old(s)@.info.next_key() as int));
}

/// The slots that a request takes are free.
proof fn lemma_fresh_slots(pre: SinkState, post: SinkState, tp: AckType)
    requires
        pre.wf(),
    ensures
        pre.queue.next_key() <= usize::MAX ==> !pre.queue.contains(pre.queue.next_key() as int),
        pre.info.next_key() <= usize::MAX ==> !pre.info.contains(pre.info.next_key() as int),
{
    if pre.queue.next_key() <= usize::MAX {
        lemma_inserted(pre.queue, (post.queue.at(pre.next_id() - 1).0, tp));
    }
    if pre.info.next_key() <= usize::MAX {
        lemma_inserted(pre.info, post.info.at(pre.info.next_key() as int));
    }
}

/// A publish request with QoS 1 fails with nothing sent where there is no open
/// connection; it waits, unchanged, where there is no credit; it fails where all
/// identifiers are taken. Otherwise exactly one packet goes to the encoder, with
/// a free identifier and with QoS 1, and in all else as it was built. The
/// receivers that are returned get its report and its acknowledgement.
pub proof fn law_send_at_least_once(
    builder: PublishBuilder,
    s: &mut MqttSink,
    r: Step<PublishBuilder, PublishQos1Error>,
)
    requires
        old(s).wf(),
        call_ensures(PublishBuilder::send_at_least_once, (builder, s), r),
    ensures
        final(s).wf(),
        ({
            let (pre, post) = (old(s)@, final(s)@);
            if pre.sink is None {
                &&& r == Step::<PublishBuilder, PublishQos1Error>::Failed(
                    PublishQos1Error::Disconnected,
                )
                &&& post == pre
            } else if held(pre) == pre.cap {
                &&& r matches Step::Wait { builder: waits, wake }
                &&& waits@ == builder@
                &&& queued(pre, post, wake)
            } else if held(pre) == 0xffff {
                &&& r == Step::<PublishBuilder, PublishQos1Error>::Failed(
                    PublishQos1Error::PacketIdNotAvailable,
                )
                &&& post.queue.occupied == pre.queue.occupied
                &&& post == (SinkState { queue: post.queue, ..pre })
            } else {
                &&& joined(pre, post, AckType::Publish)
                &&& post.sent.last().message.0 matches Packet::Publish(p)
                &&& p.packet_id matches Some(n)
                &&& n@ == fresh(pre.queue) + 1
                &&& p.qos == QoS::AtLeastOnce
                &&& p.dup == builder@.dup
                &&& p.retain == builder@.retain
                &&& p.topic == builder@.topic
                &&& p.properties == builder@.properties
                &&& p.payload == builder@.payload
                &&& if post.sent.last().accepted {
                    &&& r matches Step::Sent { info, ack }
                    &&& reaches(pre, post, info, ack)
                } else {
                    r == Step::<PublishBuilder, PublishQos1Error>::Failed(
                        PublishQos1Error::Disconnected,
                    )
                }
            }
        }),
{
    lemma_next_key(old(s)@);
    lemma_fresh_slots(old(s)@, final(s)@, AckType::Publish);
}

/// A publish request that was not woken fails, and so does one without a
/// connection; it waits, unchanged, where there is no credit; it fails where all
/// identifiers are taken. Otherwise exactly one packet goes to the encoder, with
/// a free identifier and with QoS 1, and in all else as it was built. The
/// receivers that are returned get its report and its acknowledgement.
pub proof fn law_resume_at_least_once(
    builder: PublishBuilder,
    s: &mut MqttSink,
    woken: bool,
    r: Step<PublishBuilder, PublishQos1Error>,
)
    requires
        old(s).wf(),
        call_ensures(PublishBuilder::resume_at_least_once, (builder, s, woken), r),
    ensures
        final(s).wf(),
        ({
            let (pre, post) = (old(s)@, final(s)@);
            if !woken || pre.sink is None {
                &&& r == Step::<PublishBuilder, PublishQos1Error>::Failed(
                    PublishQos1Error::Disconnected,
                )
                &&& post == pre
            } else if held(pre) == pre.cap {
                &&& r matches Step::Wait { builder: waits, wake }
                &&& waits@ == builder@
                &&& queued(pre, post, wake)
            } else if held(pre) == 0xffff {
                &&& r == Step::<PublishBuilder, PublishQos1Error>::Failed(
                    PublishQos1Error::PacketIdNotAvailable,
                )
                &&& post.queue.occupied == pre.queue.occupied
                &&& post == (SinkState { queue: post.queue, ..pre })
            } else {
                &&& joined(pre, post, AckType::Publish)
                &&& post.sent.last().message.0 matches Packet::Publish(p)
                &&& p.packet_id matches Some(n)
                &&& n@ == fresh(pre.queue) + 1
                &&& p.qos == QoS::AtLeastOnce
                &&& p.dup == builder@.dup
                &&& p.retain == builder@.retain
                &&& p.topic == builder@.topic
                &&& p.properties == builder@.properties
                &&& p.payload == builder@.payload
                &&& if post.sent.last().accepted {
                    &&& r matches Step::Sent { info, ack }
                    &&& reaches(pre, post, info, ack)
                } else {
                    r == Step::<PublishBuilder, PublishQos1Error>::Failed(
                        PublishQos1Error::Disconnected,
                    )
                }
            }
        }),
{
    lemma_next_key(old(s)@);
    lemma_fresh_slots(old(s)@, final(s)@, AckType::Publish);
}

/// A subscribe request fails with nothing sent where there is no open
/// connection; it waits, unchanged, where there is no credit; it fails where all
/// identifiers are taken. Otherwise exactly one packet goes to the encoder, with
/// a free identifier and with all topic filters and properties that it was built
/// with, in their order. The receivers that are returned get its report and its
/// acknowledgement.
pub proof fn law_subscribe_send(
    builder: SubscribeBuilder,
    s: &mut MqttSink,
    r: Step<SubscribeBuilder, SubscribeError>,
)
    requires
        old(s).wf(),
        call_ensures(SubscribeBuilder::send, (builder, s), r),
    ensures
        final(s).wf(),
        ({
            let (pre, post) = (old(s)@, final(s)@);
            if pre.sink is None {
                &&& r == Step::<SubscribeBuilder, SubscribeError>::Failed(
                    SubscribeError::Disconnected,
                )
                &&& post == pre
            } else if held(pre) == pre.cap {
                &&& r matches Step::Wait { builder: waits, wake }
                &&& waits@ == builder@
                &&& queued(pre, post, wake)
            } else if held(pre) == 0xffff {
                &&& r == Step::<SubscribeBuilder, SubscribeError>::Failed(
                    SubscribeError::PacketIdNotAvailable,
                )
                &&& post.queue.occupied == pre.queue.occupied
                &&& post == (SinkState { queue: post.queue, ..pre })
            } else {
                &&& joined(pre, post, AckType::Subscribe)
                &&& post.sent.last().message.0 matches Packet::Subscribe(p)
                &&& p.packet_id@ == fresh(pre.queue) + 1
                &&& p.id == builder@.id
                &&& p.topic_filters@ == builder@.topic_filters@
                &&& p.user_properties@ == builder@.user_properties@
                &&& if post.sent.last().accepted {
                    &&& r matches Step::Sent { info, ack }
                    &&& reaches(pre, post, info, ack)
                } else {
                    r == Step::<SubscribeBuilder, SubscribeError>::Failed(
                        SubscribeError::Disconnected,
                    )
                }
            }
        }),
{
    lemma_next_key(old(s)@);
    lemma_fresh_slots(old(s)@, final(s)@, AckType::Subscribe);
}

/// A subscribe request that was not woken fails, and so does one without a
/// connection; it waits, unchanged, where there is no credit; it fails where all
/// identifiers are taken. Otherwise exactly one packet goes to the encoder, with
/// a free identifier and with all topic filters and properties that it was built
/// with, in their order. The receivers that are returned get its report and its
/// acknowledgement.
pub proof fn law_subscribe_resume(
    builder: SubscribeBuilder,
    s: &mut MqttSink,
    woken: bool,
    r: Step<SubscribeBuilder, SubscribeError>,
)
    requires
        old(s).wf(),
        call_ensures(SubscribeBuilder::resume, (builder, s, woken), r),
    ensures
        final(s).wf(),
        ({
            let (pre, post) = (old(s)@, final(s)@);
            if !woken || pre.sink is None {
                &&& r == Step::<SubscribeBuilder, SubscribeError>::Failed(
                    SubscribeError::Disconnected,
                )
                &&& post == pre
            } else if held(pre) == pre.cap {
                &&& r matches Step::Wait { builder: waits, wake }
                &&& waits@ == builder@
                &&& queued(pre, post, wake)
            } else if held(pre) == 0xffff {
                &&& r == Step::<SubscribeBuilder, SubscribeError>::Failed(
                    SubscribeError::PacketIdNotAvailable,
                )
                &&& post.queue.occupied == pre.queue.occupied
                &&& post == (SinkState { queue: post.queue, ..pre })
            } else {
                &&& joined(pre, post, AckType::Subscribe)
                &&& post.sent.last().message.0 matches Packet::Subscribe(p)
                &&& p.packet_id@ == fresh(pre.queue) + 1
                &&& p.id == builder@.id
                &&& p.topic_filters@ == builder@.topic_filters@
                &&& p.user_properties@ == builder@.user_properties@
                &&& if post.sent.last().accepted {
                    &&& r matches Step::Sent { info, ack }
                    &&& reaches(pre, post, info, ack)
                } else {
                    r == Step::<SubscribeBuilder, SubscribeError>::Failed(
                        SubscribeError::Disconnected,
                    )
                }
            }
        }),
{
    lemma_next_key(old(s)@);
    lemma_fresh_slots(old(s)@, final(s)@, AckType::Subscribe);
}

/// An unsubscribe request fails with nothing sent where there is no open
/// connection; it waits, unchanged, where there is no credit; it fails where all
/// identifiers are taken. Otherwise exactly one packet goes to the encoder, with
/// a free identifier and with all topic filters and properties that it was built
/// with, in their order. The receivers that are returned get its report and its
/// acknowledgement.
pub proof fn law_unsubscribe_send(
    builder: UnsubscribeBuilder,
    s: &mut MqttSink,
    r: Step<UnsubscribeBuilder, UnsubscribeError>,
)
    requires
        old(s).wf(),
        call_ensures(UnsubscribeBuilder::send, (builder, s), r),
    ensures
        final(s).wf(),
        ({
            let (pre, post) = (old(s)@, final(s)@);
            if pre.sink is None {
                &&& r == Step::<UnsubscribeBuilder, UnsubscribeError>::Failed(
                    UnsubscribeError::Disconnected,
                )
                &&& post == pre
            } else if held(pre) == pre.cap {
                &&& r matches Step::Wait { builder: waits, wake }
                &&& waits@ == builder@
                &&& queued(pre, post, wake)
            } else if held(pre) == 0xffff {
                &&& r == Step::<UnsubscribeBuilder, UnsubscribeError>::Failed(
                    UnsubscribeError::PacketIdNotAvailable,
                )
                &&& post.queue.occupied == pre.queue.occupied
                &&& post == (SinkState { queue: post.queue, ..pre })
            } else {
                &&& joined(pre, post, AckType::Unsubscribe)
                &&& post.sent.last().message.0 matches Packet::Unsubscribe(p)
                &&& p.packet_id@ == fresh(pre.queue) + 1
                &&& p.topic_filters@ == builder@.topic_filters@
                &&& p.user_properties@ == builder@.user_properties@
                &&& if post.sent.last().accepted {
                    &&& r matches Step::Sent { info, ack }
                    &&& reaches(pre, post, info, ack)
                } else {
                    r == Step::<UnsubscribeBuilder, UnsubscribeError>::Failed(
                        UnsubscribeError::Disconnected,
                    )
                }
            }
        }),
{
    lemma_next_key(old(s)@);
    lemma_fresh_slots(old(s)@, final(s)@, AckType::Unsubscribe);
}

/// An unsubscribe request that was not woken fails, and so does one without a
/// connection; it waits, unchanged, where there is no credit; it fails where all
/// identifiers are taken. Otherwise exactly one packet goes to the encoder, with
/// a free identifier and with all topic filters and properties that it was built
/// with, in their order. The receivers that are returned get its report and its
/// acknowledgement.
pub proof fn law_unsubscribe_resume(
    builder: UnsubscribeBuilder,
    s: &mut MqttSink,
    woken: bool,
    r: Step<UnsubscribeBuilder, UnsubscribeError>,
)
    requires
        old(s).wf(),
        call_ensures(UnsubscribeBuilder::resume, (builder, s, woken), r),
    ensures
        final(s).wf(),
        ({
            let (pre, post) = (old(s)@, final(s)@);
            if !woken || pre.sink is None {
                &&& r == Step::<UnsubscribeBuilder, UnsubscribeError>::Failed(
                    UnsubscribeError::Disconnected,
                )
                &&& post == pre
            } else if held(pre) == pre.cap {
                &&& r matches Step::Wait { builder: waits, wake }
                &&& waits@ == builder@
                &&& queued(pre, post, wake)
            } else if held(pre) == 0xffff {
                &&& r == Step::<UnsubscribeBuilder, UnsubscribeError>::Failed(
                    UnsubscribeError::PacketIdNotAvailable,
                )
                &&& post.queue.occupied == pre.queue.occupied
                &&& post == (SinkState { queue: post.queue, ..pre })
            } else {
                &&& joined(pre, post, AckType::Unsubscribe)
                &&& post.sent.last().message.0 matches Packet::Unsubscribe(p)
                &&& p.packet_id@ == fresh(pre.queue) + 1
                &&& p.topic_filters@ == builder@.topic_filters@
                &&& p.user_properties@ == builder@.user_properties@
                &&& if post.sent.last().accepted {
                    &&& r matches Step::Sent { info, ack }
                    &&& reaches(pre, post, info, ack)
                } else {
                    r == Step::<UnsubscribeBuilder, UnsubscribeError>::Failed(
                        UnsubscribeError::Disconnected,
                    )
                }
            }
        }),
{
    lemma_next_key(old(s)@);
    lemma_fresh_slots(old(s)@, final(s)@, AckType::Unsubscribe);
}

/// After a connection was closed no request goes out, and each fails alike.
pub proof fn law_nothing_after_close(
    s: &mut MqttSink,
    reason: Disconnect,
    later: &mut MqttSink,
    publish: PublishBuilder,
    r_publish: Step<PublishBuilder, PublishQos1Error>,
    subscribe: SubscribeBuilder,
    r_subscribe: Step<SubscribeBuilder, SubscribeError>,
    unsubscribe: UnsubscribeBuilder,
    r_unsubscribe: Step<UnsubscribeBuilder, UnsubscribeError>,
    r_once: Result<pool::Receiver<Info>, PublishQos0Error>,
    r_ping: bool,
)
    requires
        old(s).wf(),
        call_ensures(MqttSink::close_with_reason, (s, reason), ()),
        old(later)@ == final(s)@,
    ensures
        call_ensures(MqttSink::close_with_reason, (later, reason), ()) ==> final(later)@ == old(
            later,
        )@,
        call_ensures(MqttSink::ping, (later,), r_ping) ==> !r_ping && final(later)@ == old(later)@,
        call_ensures(PublishBuilder::send_at_least_once, (publish, later), r_publish) ==> r_publish
            == Step::<PublishBuilder, PublishQos1Error>::Failed(
                PublishQos1Error::Disconnected,
            )
            && final(later)@ == old(later)@,
        call_ensures(PublishBuilder::send_at_most_once, (publish, later), r_once) ==> r_once == Err::<
            pool::Receiver<Info>,
            PublishQos0Error,
        >(PublishQos0Error::Disconnected) && final(later)@.sent == old(later)@.sent,
        call_ensures(SubscribeBuilder::send, (subscribe, later), r_subscribe) ==> r_subscribe
            == Step::<SubscribeBuilder, SubscribeError>::Failed(
                SubscribeError::Disconnected,
            )
            && final(later)@ == old(later)@,
        call_ensures(UnsubscribeBuilder::send, (unsubscribe, later), r_unsubscribe) ==> r_unsubscribe
            == Step::<UnsubscribeBuilder, UnsubscribeError>::Failed(
                UnsubscribeError::Disconnected,
            )
            && final(later)@ == old(later)@,
{
    law_close_with_reason(s, reason);
}

/// Each call is a step of a run, so that what holds of runs holds of any
/// sequence of calls.
pub proof fn law_calls_are_steps(
    s: &mut MqttSink,
    packet: Packet,
    reason: Disconnect,
    idx: usize,
    err: EncodeError,
    pkt: Ack,
    r_ack: Result<(), ProtocolError>,
    r_ping: bool,
    publish: PublishBuilder,
    r_once: Result<pool::Receiver<Info>, PublishQos0Error>,
)
    requires
        old(s).wf(),
    ensures
        call_ensures(MqttSink::send, (s, packet), ()) ==> SinkState::step(
            old(s)@,
            Event::Send { packet },
            final(s)@,
        ),
        call_ensures(MqttSink::ping, (s,), r_ping) ==> SinkState::step(
            old(s)@,
            Event::Send { packet: Packet::PingRequest },
            final(s)@,
        ),
        call_ensures(MqttSink::close_with_reason, (s, reason), ()) ==> SinkState::step(
            old(s)@,
            Event::Last { packet: Packet::Disconnect(reason) },
            final(s)@,
        ),
        call_ensures(MqttSink::drop_sink, (s,), ()) ==> SinkState::step(
            old(s)@,
            Event::DropSink,
            final(s)@,
        ),
        call_ensures(MqttSink::pkt_written, (s, idx), ()) ==> SinkState::step(
            old(s)@,
            Event::Written { idx },
            final(s)@,
        ),
        call_ensures(MqttSink::pkt_encode_err, (s, idx, err), ()) ==> SinkState::step(
            old(s)@,
            Event::EncodeErr { idx, err },
            final(s)@,
        ),
        call_ensures(MqttSink::pkt_ack, (s, pkt), r_ack) ==> SinkState::step(
            old(s)@,
            Event::Ack { pkt, r: r_ack },
            final(s)@,
        ),
        call_ensures(PublishBuilder::send_at_most_once, (publish, s), r_once) ==> SinkState::step(
            old(s)@,
            Event::AtMostOnce {
                packet: Packet::Publish(publish@),
                rx: match r_once {
                    Ok(rx) => Some(rx),
                    Err(_) => None,
                },
            },
            final(s)@,
        ),
{
}

/// Each call of a request that finds the connection open is a step of a run: it
/// waits for credit, or goes to the encoder.
pub proof fn law_requests_are_steps(
    s: &mut MqttSink,
    publish: PublishBuilder,
    r_publish: Step<PublishBuilder, PublishQos1Error>,
    subscribe: SubscribeBuilder,
    r_subscribe: Step<SubscribeBuilder, SubscribeError>,
    unsubscribe: UnsubscribeBuilder,
    r_unsubscribe: Step<UnsubscribeBuilder, UnsubscribeError>,
)
    requires
        old(s).wf(),
        old(s)@.sink is Some,
    ensures
        call_ensures(PublishBuilder::send_at_least_once, (publish, s), r_publish)
            ==> SinkState::step(
            old(s)@,
            match r_publish {
                Step::Wait { builder, wake } => Event::Wait { wake },
                _ => Event::Request {
                    tp: AckType::Publish,
                    outcome: r_publish.outcome(PublishQos1Error::PacketIdNotAvailable),
                },
            },
            final(s)@,
        ),
        call_ensures(SubscribeBuilder::send, (subscribe, s), r_subscribe) ==> SinkState::step(
            old(s)@,
            match r_subscribe {
                Step::Wait { builder, wake } => Event::Wait { wake },
                _ => Event::Request {
                    tp: AckType::Subscribe,
                    outcome: r_subscribe.outcome(SubscribeError::PacketIdNotAvailable),
                },
            },
            final(s)@,
        ),
        call_ensures(UnsubscribeBuilder::send, (unsubscribe, s), r_unsubscribe) ==> SinkState::step(
            old(s)@,
            match r_unsubscribe {
                Step::Wait { builder, wake } => Event::Wait { wake },
                _ => Event::Request {
                    tp: AckType::Unsubscribe,
                    outcome: r_unsubscribe.outcome(UnsubscribeError::PacketIdNotAvailable),
                },
            },
            final(s)@,
        ),
{
}

/// Every operation may be called on any sink; a report only for a packet that
/// the encoder has to report.
pub proof fn law_callable(
    s: &mut MqttSink,
    packet: Packet,
    reason: Disconnect,
    idx: usize,
    err: EncodeError,
    pkt: Ack,
    publish: PublishBuilder,
    subscribe: SubscribeBuilder,
    unsubscribe: UnsubscribeBuilder,
    woken: bool,
)
    requires
        old(s).wf(),
    ensures
        call_requires(MqttSink::send, (s, packet)),
        call_requires(MqttSink::ping, (s,)),
        call_requires(MqttSink::close, (s,)),
        call_requires(MqttSink::close_with_reason, (s, reason)),
        call_requires(MqttSink::drop_sink, (s,)),
        call_requires(MqttSink::pkt_ack, (s, pkt)),
        idx != 0 && old(s)@.info.occupied.dom().contains((idx - 1) as usize) ==> {
            &&& call_requires(MqttSink::pkt_written, (s, idx))
            &&& call_requires(MqttSink::pkt_encode_err, (s, idx, err))
        },
        call_requires(PublishBuilder::send_at_most_once, (publish, s)),
        call_requires(PublishBuilder::send_at_least_once, (publish, s)),
        call_requires(PublishBuilder::resume_at_least_once, (publish, s, woken)),
        call_requires(SubscribeBuilder::send, (subscribe, s)),
        call_requires(SubscribeBuilder::resume, (subscribe, s, woken)),
        call_requires(UnsubscribeBuilder::send, (unsubscribe, s)),
        call_requires(UnsubscribeBuilder::resume, (unsubscribe, s, woken)),
{
}

/// A publish packet starts with the given topic and payload, and with nothing
/// else set.
pub proof fn law_publish(s: MqttSink, topic: String, payload: Bytes, r: PublishBuilder)
    requires
        call_ensures(MqttSink::publish, (&s, topic, payload), r),
    ensures
        r@.topic == topic,
        r@.payload == payload,
        r@.qos == QoS::AtMostOnce,
        r@.packet_id is None,
        !r@.dup,
        !r@.retain,
        r@.properties.topic_alias is None,
        r@.properties.correlation_data is None,
        r@.properties.message_expiry_interval is None,
        r@.properties.content_type is None,
        r@.properties.user_properties@.len() == 0,
        !r@.properties.is_utf8_payload,
        r@.properties.response_topic is None,
        r@.properties.subscription_ids@.len() == 0,
{
}

/// A subscribe packet starts with the given identifier of the subscription, and
/// with no topic filter and no property.
pub proof fn law_subscribe(s: MqttSink, id: Option<NonZeroU32>, r: SubscribeBuilder)
    requires
        call_ensures(MqttSink::subscribe, (&s, id), r),
    ensures
        r@.id == id,
        r@.packet_id@ == 1,
        r@.user_properties@.len() == 0,
        r@.topic_filters@.len() == 0,
{
}

/// An unsubscribe packet starts with no topic filter and no property.
pub proof fn law_unsubscribe(s: MqttSink, r: UnsubscribeBuilder)
    requires
        call_ensures(MqttSink::unsubscribe, (&s,), r),
    ensures
        r@.packet_id@ == 1,
        r@.user_properties@.len() == 0,
        r@.topic_filters@.len() == 0,
{
}

/// A builder shows the packet that it holds.
pub proof fn law_packet(
    publish: PublishBuilder,
    p: &Publish,
    subscribe: SubscribeBuilder,
    q: &Subscribe,
    unsubscribe: UnsubscribeBuilder,
    u: &Unsubscribe,
)
    ensures
        call_ensures(PublishBuilder::packet, (&publish,), p) ==> *p == publish@,
        call_ensures(SubscribeBuilder::packet, (&subscribe,), q) ==> *q == subscribe@,
        call_ensures(UnsubscribeBuilder::packet, (&unsubscribe,), u) ==> *u == unsubscribe@,
{
}

/// `dup` sets its flag to what is given, and nothing else.
pub proof fn law_dup(builder: PublishBuilder, val: bool, r: PublishBuilder)
    requires
        call_ensures(PublishBuilder::dup, (builder, val), r),
    ensures
        r@.dup == val,
        r@ == (Publish { dup: r@.dup, ..builder@ }),
{
}

/// `retain` sets its flag, and nothing else.
pub proof fn law_retain(builder: PublishBuilder, r: PublishBuilder)
    requires
        call_ensures(PublishBuilder::retain, (builder,), r),
    ensures
        r@.retain,
        r@ == (Publish { retain: r@.retain, ..builder@ }),
{
}

/// The two flags do not depend on the order in which they are set.
pub proof fn law_flags_commute(
    builder: PublishBuilder,
    val: bool,
    dup: PublishBuilder,
    dup_retain: PublishBuilder,
    retain: PublishBuilder,
    retain_dup: PublishBuilder,
)
    requires
        call_ensures(PublishBuilder::dup, (builder, val), dup),
        call_ensures(PublishBuilder::retain, (dup,), dup_retain),
        call_ensures(PublishBuilder::retain, (builder,), retain),
        call_ensures(PublishBuilder::dup, (retain, val), retain_dup),
    ensures
        dup_retain@ == retain_dup@,
{
}

/// The properties become what the given function makes of them, and nothing
/// else changes.
pub proof fn law_properties<F: FnOnce(&mut PublishProperties)>(
    builder: PublishBuilder,
    f: F,
    r: PublishBuilder,
)
    requires
        call_ensures(PublishBuilder::properties::<F>, (builder, f), r),
    ensures
        r@ == (Publish { properties: r@.properties, ..builder@ }),
        exists|p: &mut PublishProperties|
            *p == builder@.properties && *final(p) == r@.properties && call_ensures(f, (p,), ()),
{
}

/// The properties become what the given function makes of them, and nothing
/// else changes.
pub proof fn law_set_properties<F: FnOnce(&mut PublishProperties)>(
    builder: &mut PublishBuilder,
    f: F,
)
    requires
        call_ensures(PublishBuilder::set_properties::<F>, (builder, f), ()),
    ensures
        final(builder)@ == (Publish { properties: final(builder)@.properties, ..old(builder)@ }),
        exists|p: &mut PublishProperties|
            *p == old(builder)@.properties && *final(p) == final(builder)@.properties
                && call_ensures(f, (p,), ()),
{
}

/// A topic filter joins those that are there, at the end, and nothing else
/// changes.
pub proof fn law_subscribe_topic_filter(
    builder: SubscribeBuilder,
    filter: String,
    opts: SubscriptionOptions,
    r: SubscribeBuilder,
)
    requires
        call_ensures(SubscribeBuilder::topic_filter, (builder, filter, opts), r),
    ensures
        r@.topic_filters@.len() == builder@.topic_filters@.len() + 1,
        r@.topic_filters@.last() == (filter, opts),
        r@.topic_filters@.drop_last() == builder@.topic_filters@,
        r@ == (Subscribe { topic_filters: r@.topic_filters, ..builder@ }),
{
}

/// A property joins those that are there, at the end, and nothing else changes.
pub proof fn law_subscribe_property(
    builder: SubscribeBuilder,
    key: String,
    value: String,
    r: SubscribeBuilder,
)
    requires
        call_ensures(SubscribeBuilder::property, (builder, key, value), r),
    ensures
        r@.user_properties@.len() == builder@.user_properties@.len() + 1,
        r@.user_properties@.last() == (key, value),
        r@.user_properties@.drop_last() == builder@.user_properties@,
        r@ == (Subscribe { user_properties: r@.user_properties, ..builder@ }),
{
}

/// A topic filter joins those that are there, at the end, and nothing else
/// changes.
pub proof fn law_unsubscribe_topic_filter(
    builder: UnsubscribeBuilder,
    filter: String,
    r: UnsubscribeBuilder,
)
    requires
        call_ensures(UnsubscribeBuilder::topic_filter, (builder, filter), r),
    ensures
        r@.topic_filters@.len() == builder@.topic_filters@.len() + 1,
        r@.topic_filters@.last() == filter,
        r@.topic_filters@.drop_last() == builder@.topic_filters@,
        r@ == (Unsubscribe { topic_filters: r@.topic_filters, ..builder@ }),
{
}

/// A property joins those that are there, at the end, and nothing else changes.
pub proof fn law_unsubscribe_property(
    builder: UnsubscribeBuilder,
    key: String,
    value: String,
    r: UnsubscribeBuilder,
)
    requires
        call_ensures(UnsubscribeBuilder::property, (builder, key, value), r),
    ensures
        r@.user_properties@.len() == builder@.user_properties@.len() + 1,
        r@.user_properties@.last() == (key, value),
        r@.user_properties@.drop_last() == builder@.user_properties@,
        r@ == (Unsubscribe { user_properties: r@.user_properties, ..builder@ }),
{
}

/// A request with QoS 0 succeeds exactly where its packet was written; an error
/// of the encoder is passed on, and a report that never comes means that the
/// peer is disconnected.
pub proof fn law_at_most_once_written(
    info: Option<Info>,
    err: EncodeError,
    r: Result<(), PublishQos0Error>,
)
    requires
        call_ensures(PublishBuilder::at_most_once_written, (info,), r),
    ensures
        r is Ok <==> info == Some(Info::Written),
        r == Err::<(), PublishQos0Error>(PublishQos0Error::Encode(err)) <==> info == Some(Info::Error(err)),
        r == Err::<(), PublishQos0Error>(PublishQos0Error::Disconnected) <==> info is None,
{
}

/// A request with QoS 1 goes on exactly where its packet was written; an error
/// of the encoder is passed on, and a report that never comes means that the
/// peer is disconnected.
pub proof fn law_at_least_once_written(
    info: Option<Info>,
    err: EncodeError,
    r: Result<(), PublishQos1Error>,
)
    requires
        call_ensures(PublishBuilder::at_least_once_written, (info,), r),
    ensures
        r is Ok <==> info == Some(Info::Written),
        r == Err::<(), PublishQos1Error>(PublishQos1Error::Encode(err)) <==> info == Some(Info::Error(err)),
        r == Err::<(), PublishQos1Error>(PublishQos1Error::Disconnected) <==> info is None,
{
}

/// A request with QoS 1 succeeds exactly where the peer says so. Either way the
/// caller gets the acknowledgement as it came.
pub proof fn law_at_least_once_acked(
    ack: Option<Ack>,
    pkt: PublishAck,
    r: Result<PublishAck, PublishQos1Error>,
)
    requires
        ack is None || ack == Some(Ack::Publish(pkt)),
        call_ensures(PublishBuilder::at_least_once_acked, (ack,), r),
    ensures
        call_requires(PublishBuilder::at_least_once_acked, (ack,)),
        r is Ok <==> ack is Some && pkt.reason_code == PublishAckReason::Success,
        r matches Ok(got) ==> got == pkt,
        ack is Some && pkt.reason_code != PublishAckReason::Success ==> r == Err::<
            PublishAck,
            PublishQos1Error,
        >(PublishQos1Error::Fail(pkt)),
        ack is None ==> r == Err::<PublishAck, PublishQos1Error>(PublishQos1Error::Disconnected),
{
}

/// A subscribe request goes on exactly where its packet was written; an error of
/// the encoder is passed on, and a report that never comes means that the peer
/// is disconnected.
pub proof fn law_subscribe_written(
    info: Option<Info>,
    err: EncodeError,
    r: Result<(), SubscribeError>,
)
    requires
        call_ensures(SubscribeBuilder::written, (info,), r),
    ensures
        r is Ok <==> info == Some(Info::Written),
        r == Err::<(), SubscribeError>(SubscribeError::Encode(err)) <==> info == Some(Info::Error(err)),
        r == Err::<(), SubscribeError>(SubscribeError::Disconnected) <==> info is None,
{
}

/// A subscribe request succeeds exactly where it is acknowledged, and the caller
/// gets the acknowledgement as it came.
pub proof fn law_subscribe_acked(
    ack: Option<Ack>,
    pkt: SubscribeAck,
    r: Result<SubscribeAck, SubscribeError>,
)
    requires
        ack is None || ack == Some(Ack::Subscribe(pkt)),
        call_ensures(SubscribeBuilder::acked, (ack,), r),
    ensures
        call_requires(SubscribeBuilder::acked, (ack,)),
        ack is Some ==> r == Ok::<SubscribeAck, SubscribeError>(pkt),
        ack is None ==> r == Err::<SubscribeAck, SubscribeError>(SubscribeError::Disconnected),
{
}

/// An unsubscribe request goes on exactly where its packet was written; an error of
/// the encoder is passed on, and a report that never comes means that the peer
/// is disconnected.
pub proof fn law_unsubscribe_written(
    info: Option<Info>,
    err: EncodeError,
    r: Result<(), UnsubscribeError>,
)
    requires
        call_ensures(UnsubscribeBuilder::written, (info,), r),
    ensures
        r is Ok <==> info == Some(Info::Written),
        r == Err::<(), UnsubscribeError>(UnsubscribeError::Encode(err)) <==> info == Some(Info::Error(err)),
        r == Err::<(), UnsubscribeError>(UnsubscribeError::Disconnected) <==> info is None,
{
}

/// An unsubscribe request succeeds exactly where it is acknowledged, and the caller
/// gets the acknowledgement as it came.
pub proof fn law_unsubscribe_acked(
    ack: Option<Ack>,
    pkt: UnsubscribeAck,
    r: Result<UnsubscribeAck, UnsubscribeError>,
)
    requires
        ack is None || ack == Some(Ack::Unsubscribe(pkt)),
        call_ensures(UnsubscribeBuilder::acked, (ack,), r),
    ensures
        call_requires(UnsubscribeBuilder::acked, (ack,)),
        ack is Some ==> r == Ok::<UnsubscribeAck, UnsubscribeError>(pkt),
        ack is None ==> r == Err::<UnsubscribeAck, UnsubscribeError>(UnsubscribeError::Disconnected),
{
}

/// An acknowledgement is of one type, and matches that one only. Its first byte
/// on the wire is that of its type.
pub proof fn law_ack_type(ack: Ack, tp: AckType, matched: bool, byte: u8)
    requires
        call_ensures(Ack::is_match, (&ack, tp), matched),
        call_ensures(Ack::packet_type, (&ack,), byte),
    ensures
        matched <==> match tp {
            AckType::Publish => ack is Publish,
            AckType::Subscribe => ack is Subscribe,
            AckType::Unsubscribe => ack is Unsubscribe,
        },
        matched ==> byte == match tp {
            AckType::Publish => 0x40u8,
            AckType::Subscribe => 0x90u8,
            AckType::Unsubscribe => 0xb0u8,
        },
{
}

/// The identifier of an acknowledgement is that of the packet inside.
pub proof fn law_ack_packet_id(ack: Ack, r: usize, n: u16)
    requires
        call_ensures(Ack::packet_id, (&ack,), r),
        match ack {
            Ack::Publish(pkt) => call_ensures(NonZeroU16::get, (&pkt.packet_id,), n),
            Ack::Subscribe(pkt) => call_ensures(NonZeroU16::get, (&pkt.packet_id,), n),
            Ack::Unsubscribe(pkt) => call_ensures(NonZeroU16::get, (&pkt.packet_id,), n),
        },
    ensures
        r == n,
        r != 0,
{
}

/// An acknowledgement gives out the packet that it holds.
pub proof fn law_ack_inside(
    publish: PublishAck,
    p: PublishAck,
    subscribe: SubscribeAck,
    q: SubscribeAck,
    unsubscribe: UnsubscribeAck,
    u: UnsubscribeAck,
)
    ensures
        call_requires(Ack::publish, (Ack::Publish(publish),)),
        call_requires(Ack::subscribe, (Ack::Subscribe(subscribe),)),
        call_requires(Ack::unsubscribe, (Ack::Unsubscribe(unsubscribe),)),
        call_ensures(Ack::publish, (Ack::Publish(publish),), p) ==> p == publish,
        call_ensures(Ack::subscribe, (Ack::Subscribe(subscribe),), q) ==> q == subscribe,
        call_ensures(Ack::unsubscribe, (Ack::Unsubscribe(unsubscribe),), u) ==> u == unsubscribe,
{
}

/// The name of what a request waits for is that of its acknowledgement.
pub proof fn law_ack_name(tp: AckType, r: &'static str)
    requires
        call_ensures(AckType::name, (&tp,), r),
    ensures
        r@ == match tp {
            AckType::Publish => "PublishAck"@,
            AckType::Subscribe => "SubscribeAck"@,
            AckType::Unsubscribe => "UnsubscribeAck"@,
        },
{
}

/// Every number but zero is wrapped, and comes back as it was.
pub proof fn law_nonzero_u16(value: u16, wrapped: Option<NonZeroU16>, n: NonZeroU16, r: u16)
    requires
        call_ensures(NonZeroU16::new, (value,), wrapped),
        call_ensures(NonZeroU16::get, (&n,), r),
    ensures
        wrapped is Some <==> value != 0,
        wrapped == Some(n) ==> r == value,
        r != 0,
{
}

/// Every number but zero is wrapped, and comes back as it was.
pub proof fn law_nonzero_u32(value: u32, wrapped: Option<NonZeroU32>, n: NonZeroU32, r: u32)
    requires
        call_ensures(NonZeroU32::new, (value,), wrapped),
        call_ensures(NonZeroU32::get, (&n,), r),
    ensures
        wrapped is Some <==> value != 0,
        wrapped == Some(n) ==> r == value,
        r != 0,
{
}

/// By default no property of a publish packet is set.
pub proof fn law_default_properties(r: PublishProperties)
    requires
        call_ensures(<PublishProperties as Default>::default, (), r),
    ensures
        r.topic_alias is None,
        r.correlation_data is None,
        r.message_expiry_interval is None,
        r.content_type is None,
        r.user_properties@.len() == 0,
        !r.is_utf8_payload,
        r.response_topic is None,
        r.subscription_ids@.len() == 0,
{
}

/// By default a connection ends normally, and no property is set.
pub proof fn law_default_disconnect(r: Disconnect)
    requires
        call_ensures(<Disconnect as Default>::default, (), r),
    ensures
        r.reason_code == DisconnectReasonCode::NormalDisconnection,
        r.session_expiry_interval_secs is None,
        r.server_reference is None,
        r.reason_string is None,
        r.user_properties@.len() == 0,
{
}

/// An error of a client keeps what caused it: what the peer answered, what went
/// wrong in the protocol, in the encoder or in the connection, or why there is
/// no connection.
pub proof fn law_client_error(
    ack: ConnectAck,
    protocol: ProtocolError,
    connect: ConnectError,
    encode: EncodeError,
    io: io::Error,
    r: ClientError,
)
    ensures
        call_ensures(<ClientError as From<ConnectAck>>::from, (ack,), r) ==> r == ClientError::Ack(
            ack,
        ),
        call_ensures(<ClientError as From<ProtocolError>>::from, (protocol,), r) ==> r
            == ClientError::Protocol(protocol),
        call_ensures(<ClientError as From<ConnectError>>::from, (connect,), r) ==> r
            == ClientError::Connect(connect),
        call_ensures(
            <ClientError as From<Either<EncodeError, io::Error>>>::from,
            (Either::Left(encode),),
            r,
        ) ==> r == ClientError::Protocol(ProtocolError::Encode(encode)),
        call_ensures(
            <ClientError as From<Either<EncodeError, io::Error>>>::from,
            (Either::Right(io),),
            r,
        ) ==> r == ClientError::Protocol(ProtocolError::Io(io)),
{
}

} // verus!
