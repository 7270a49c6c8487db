//! What holds of the sink as a whole, over any sequence of operations.
use ntex::channel::{mpsc, pool};
use vstd::prelude::*;

use crate::ack::{Ack, AckType, Info};
use crate::codec::Packet;
use crate::error::{EncodeError, ProtocolError};
use crate::lemmas::{
    lemma_leading_zeros, lemma_live_contains, lemma_live_first, lemma_live_no_duplicates,
    lemma_live_none, lemma_live_push, lemma_live_withdrawn, lemma_push_wf, lemma_remove_wf,
    lemma_next_key, lemma_same_queue_wf, lemma_skip_wf, lemma_touched_wf, lemma_withdrawn_wf,
};
use crate::sink::MqttSinkPool;
use crate::state::{leading_zeros, Item, Outcome, SinkState};
use crate::table::{lemma_inserted, lemma_removed};

verus! {

/// An operation on a sink, with its arguments and its result.
pub enum Event {
    /// `MqttSink::send` and `MqttSink::ping`.
    Send { packet: Packet },
    /// `MqttSink::close` and `MqttSink::close_with_reason`.
    Last { packet: Packet },
    /// `MqttSink::drop_sink`.
    DropSink,
    /// `MqttSink::pkt_written`.
    Written { idx: usize },
    /// `MqttSink::pkt_encode_err`.
    EncodeErr { idx: usize, err: EncodeError },
    /// `MqttSink::pkt_ack`.
    Ack { pkt: Ack, r: Result<(), ProtocolError> },
    /// `PublishBuilder::send_at_most_once`.
    AtMostOnce { packet: Packet, rx: Option<pool::Receiver<Info>> },
    /// A request that finds no credit.
    Wait { wake: pool::Receiver<()> },
    /// A request that finds credit, as it goes to the encoder.
    Request { tp: AckType, outcome: Outcome },
}

impl SinkState {
    /// The operation takes the sink from `pre` to `post`.
    pub open spec fn step(pre: SinkState, event: Event, post: SinkState) -> bool {
        match event {
            Event::Send { packet } => SinkState::send_step(pre, packet, post),
            Event::Last { packet } => SinkState::last_step(pre, packet, post),
            Event::DropSink => post == (SinkState { sink: None, ..pre }),
            Event::Written { idx } => SinkState::written_step(pre, idx, post),
            Event::EncodeErr { idx, err } => SinkState::encode_err_step(pre, idx, err, post),
            Event::Ack { pkt, r } => SinkState::ack_step(pre, pkt, post, r),
            Event::AtMostOnce { packet, rx } => SinkState::at_most_once_step(pre, packet, post, rx),
            Event::Wait { wake } => SinkState::wait_step(pre, post, wake),
            Event::Request { tp, outcome } => SinkState::request_step(pre, tp, post, outcome),
        }
    }

    /// Every packet in flight waits for an acknowledgement.
    ///
    /// An acknowledgement that is not for the oldest packet breaks this: the
    /// oldest packet stays in flight and waits no longer.
    pub open spec fn is_settled(self) -> bool {
        forall|key: usize| #[trigger]
            self.queue.occupied.dom().contains(key) ==> exists|i: int|
                0 <= i < self.order.len() && #[trigger] self.order[i] == key + 1
    }
}

/// An acknowledgement was refused: it is not for the oldest packet that waits.
pub open spec fn is_mismatch(r: Result<(), ProtocolError>) -> bool {
    r == Err::<(), ProtocolError>(ProtocolError::PacketIdMismatch)
}

/// An acknowledgement was refused: it is of the wrong type.
pub open spec fn is_unexpected(r: Result<(), ProtocolError>) -> bool {
    r matches Err(ProtocolError::Unexpected(_, _))
}

/// A new sink is open, nothing is in flight, and nothing waits.
pub proof fn law_new_sink(sink: mpsc::Sender<Item>, cap: nat, pool: MqttSinkPool)
    ensures
        SinkState::initial(sink, cap, pool).wf(),
        SinkState::initial(sink, cap, pool).is_open(),
        SinkState::initial(sink, cap, pool).is_settled(),
        SinkState::initial(sink, cap, pool).in_flight() == 0,
        SinkState::initial(sink, cap, pool).pending() == Seq::<usize>::empty(),
        SinkState::initial(sink, cap, pool).next_id() == 1,
{
    lemma_live_none();
}

/// Every operation keeps the sink well formed, and changes neither its limit
/// nor its pools.
pub proof fn law_well_formed(pre: SinkState, event: Event, post: SinkState)
    requires
        pre.wf(),
        SinkState::step(pre, event, post),
    ensures
        post.wf(),
        post.cap == pre.cap,
        post.pool == pre.pool,
{
    match event {
        Event::Written { idx } => {
            lemma_removed(pre.info, idx - 1);
            lemma_same_queue_wf(pre, post);
        },
        Event::EncodeErr { idx, err } => {
            lemma_removed(pre.info, idx - 1);
            let id = pre.info.at(idx - 1).1;
            if id != 0 && pre.order.contains(id) {
                lemma_withdrawn_wf(pre, id, post);
            } else {
                lemma_same_queue_wf(pre, post);
            }
        },
        Event::Ack { pkt, r } => {
            let n = leading_zeros(pre.order) as int;
            lemma_leading_zeros(pre.order);
            if n < pre.order.len() {
                let mid = SinkState { order: pre.order.skip(n + 1), ..pre };
                lemma_skip_wf(pre, n + 1);
                if pre.order[n] == pkt.id() {
                    let id = pkt.id() as usize;
                    assert(pre.is_in_flight(pre.order[n]));
                    assert(!mid.order.contains(id)) by {
                        if mid.order.contains(id) {
                            assert(pre.order[mid.order.index_of(id) + n + 1] == pre.order[n]);
                        }
                    }
                    let gone = SinkState { queue: mid.queue.removed(id - 1), ..mid };
                    lemma_remove_wf(mid, id, gone);
                    lemma_same_queue_wf(gone, post);
                }
            }
        },
        Event::AtMostOnce { packet, rx } => {
            lemma_inserted(pre.info, post.info.at(pre.info.next_key() as int));
            lemma_same_queue_wf(pre, post);
        },
        Event::Request { tp, outcome } => {
            if pre.next_id() > u16::MAX {
                lemma_touched_wf(pre, post);
            } else {
                let item = (post.queue.at(pre.next_id() - 1).0, tp);
                lemma_inserted(pre.info, post.info.at(pre.info.next_key() as int));
                lemma_inserted(pre.queue, item);
                assert(post.queue == pre.queue.inserted(item));
                lemma_push_wf(pre, post);
            }
        },
        _ => {
            lemma_same_queue_wf(pre, post);
        },
    }
}

/// A closed connection stays closed, and nothing goes to the encoder any more.
pub proof fn law_closed_for_good(pre: SinkState, event: Event, post: SinkState)
    requires
        SinkState::step(pre, event, post),
        !pre.is_open(),
    ensures
        !post.is_open(),
        post.sent == pre.sent,
{
}

/// An open connection stays open, until it is closed or the sink is dropped:
/// whatever is sent, a ping too, leaves it as it is.
pub proof fn law_stays_open(pre: SinkState, event: Event, post: SinkState)
    requires
        SinkState::step(pre, event, post),
        !(event is Last),
        !(event is DropSink),
    ensures
        post.sink == pre.sink,
{
}

/// Closing closes, whatever is in flight; and where the connection was open,
/// exactly one packet went to the encoder with it.
pub proof fn law_last_closes(pre: SinkState, packet: Packet, post: SinkState)
    requires
        SinkState::last_step(pre, packet, post),
    ensures
        post.sink is None,
        pre.sink is Some ==> {
            &&& post.sent.len() == pre.sent.len() + 1
            &&& post.sent.take(pre.sent.len() as int) == pre.sent
            &&& post.sent.last().message == (packet, 0usize)
        },
        pre.sink is None ==> post.sent == pre.sent,
{
    if pre.sink is Some {
        assert(post.sent.take(pre.sent.len() as int) =~= pre.sent);
    }
}

/// Only a request, an acknowledgement and the report that a packet could not be
/// encoded change which requests wait for an acknowledgement, or their order.
pub proof fn law_pending_kept(pre: SinkState, event: Event, post: SinkState)
    requires
        SinkState::step(pre, event, post),
        !(event is Request),
        !(event is Ack),
        !(event is EncodeErr),
    ensures
        post.pending() == pre.pending(),
        post.order == pre.order,
        post.queue == pre.queue,
{
}

/// Whatever else is done meanwhile, the requests that wait for an
/// acknowledgement stay the same and in the same order.
pub proof fn law_run_pending_kept(states: Seq<SinkState>, events: Seq<Event>, i: int, j: int)
    requires
        is_run(states, events),
        0 <= i <= j < states.len(),
        forall|k: int|
            i <= k < j ==> !((#[trigger] events[k]) is Request) && !(events[k] is Ack) && !(
            events[k] is EncodeErr),
    ensures
        states[j].pending() == states[i].pending(),
        states[j].queue == states[i].queue,
    decreases j,
{
    if i < j {
        let k = j - 1;
        law_run_pending_kept(states, events, i, k);
        assert(SinkState::step(states[k], events[k], states[k + 1]));
        law_pending_kept(states[k], events[k], states[j]);
    }
}

/// A request gets an identifier of two bytes that no packet in flight has, and
/// joins at the end of those that wait.
pub proof fn law_request_joins(
    pre: SinkState,
    tp: AckType,
    post: SinkState,
    outcome: Outcome,
)
    requires
        pre.wf(),
        SinkState::request_step(pre, tp, post, outcome),
        pre.next_id() <= u16::MAX,
    ensures
        1 <= pre.next_id() <= u16::MAX,
        !pre.is_in_flight(pre.next_id() as usize),
        post.is_in_flight(pre.next_id() as usize),
        post.in_flight() == pre.in_flight() + 1,
        !pre.pending().contains(pre.next_id() as usize),
        post.pending() == pre.pending().push(pre.next_id() as usize),
{
    let id = pre.next_id() as usize;
    lemma_inserted(pre.queue, (post.queue.at(id - 1).0, tp));
    lemma_live_push(pre.order, id);
    lemma_live_contains(pre.order, id);
    if pre.order.contains(id) {
        assert(pre.is_in_flight(pre.order[pre.order.index_of(id)]));
    }
}

/// Requests are acknowledged in the order in which they were sent: an
/// acknowledgement is accepted exactly where it is for the oldest one that
/// waits, and of its type. Whatever becomes of it, the oldest one waits no
/// longer.
pub proof fn law_acks_in_order(
    pre: SinkState,
    pkt: Ack,
    post: SinkState,
    r: Result<(), ProtocolError>,
)
    requires
        pre.wf(),
        SinkState::ack_step(pre, pkt, post, r),
    ensures
        ({
            let pending = pre.pending();
            let is_oldest = pending.len() > 0 && pending[0] == pkt.id();
            let is_expected = pre.queue.at(pkt.id() - 1).1 == pkt.kind();
            &&& r is Ok <==> is_oldest && is_expected
            &&& is_unexpected(r) <==> is_oldest && !is_expected
            &&& is_mismatch(r) <==> !is_oldest
            &&& post.pending() == if pending.len() == 0 {
                pending
            } else {
                pending.skip(1)
            }
        }),
{
    lemma_live_first(pre.order);
    lemma_live_none();
    lemma_leading_zeros(pre.order);
}

/// A packet that could not be encoded waits no longer; the others wait as
/// before, in the same order.
pub proof fn law_encode_error_withdraws(
    pre: SinkState,
    idx: usize,
    err: EncodeError,
    post: SinkState,
)
    requires
        pre.wf(),
        SinkState::encode_err_step(pre, idx, err, post),
    ensures
        ({
            let id = pre.info.at(idx - 1).1;
            let pending = pre.pending();
            if pending.contains(id) {
                &&& post.pending() == pending.remove(pending.index_of(id))
                &&& post.in_flight() + 1 == pre.in_flight()
                &&& !post.is_in_flight(id)
            } else {
                &&& post.pending() == pending
                &&& post.in_flight() == pre.in_flight()
            }
        }),
{
    let id = pre.info.at(idx - 1).1;
    lemma_live_contains(pre.order, id);
    if pre.pending().contains(id) {
        assert(pre.is_in_flight(pre.order[pre.order.index_of(id)]));
        lemma_removed(pre.queue, id - 1);
        lemma_live_withdrawn(pre.order, id);
    }
}

/// An accepted acknowledgement goes to the request that it is for: where
/// nothing else waits, sending a request and acknowledging it leaves in flight
/// what was in flight before, frees the identifier, and gives the
/// acknowledgement to the receiver that the request came with.
pub proof fn law_request_acknowledged(
    pre: SinkState,
    tp: AckType,
    mid: SinkState,
    info: pool::Receiver<Info>,
    ack: pool::Receiver<Ack>,
    pkt: Ack,
    post: SinkState,
    r: Result<(), ProtocolError>,
)
    requires
        pre.wf(),
        pre.pending().len() == 0,
        SinkState::request_step(pre, tp, mid, Outcome::Sent { info, ack }),
        pkt.id() == pre.next_id(),
        pkt.kind() == tp,
        SinkState::ack_step(mid, pkt, post, r),
    ensures
        r is Ok,
        post.acked.last().message == pkt,
        post.acked.last().to.peer() == ack,
        post.queue.occupied == pre.queue.occupied,
        post.pending().len() == 0,
        post.next_id() == pre.next_id(),
{
    let id = pre.next_id() as usize;
    let item = (mid.queue.at(id - 1).0, tp);
    lemma_inserted(pre.queue, item);
    lemma_live_push(pre.order, id);
    assert(mid.pending() =~= seq![id]);
    lemma_live_first(mid.order);
    lemma_live_none();
    lemma_leading_zeros(mid.order);
    lemma_removed(mid.queue, id - 1);
    assert(post.queue.occupied =~= pre.queue.occupied);
}

/// An accepted acknowledgement goes to the channel of the packet that it is
/// for, and is of the type that this packet waits for. A refused one goes
/// nowhere.
pub proof fn law_ack_delivered(
    pre: SinkState,
    pkt: Ack,
    post: SinkState,
    r: Result<(), ProtocolError>,
)
    requires
        pre.wf(),
        SinkState::ack_step(pre, pkt, post, r),
    ensures
        r is Ok ==> {
            &&& pre.is_in_flight(pkt.id() as usize)
            &&& post.acked.len() == pre.acked.len() + 1
            &&& post.acked.last().message == pkt
            &&& post.acked.last().to == pre.queue.at(pkt.id() - 1).0
            &&& pkt.kind() == pre.queue.at(pkt.id() - 1).1
            &&& !post.is_in_flight(pkt.id() as usize)
        },
        r is Err ==> post.acked == pre.acked && post.woken == pre.woken,
{
    let n = leading_zeros(pre.order) as int;
    lemma_leading_zeros(pre.order);
    if r is Ok {
        assert(pre.is_in_flight(pre.order[n]));
    }
}

/// A packet that the encoder has to report goes out under a number that is not
/// zero and that no other packet has which the encoder has not reported yet.
pub proof fn law_report_number_is_new(pre: SinkState, event: Event, post: SinkState)
    requires
        pre.wf(),
        SinkState::step(pre, event, post),
        event is AtMostOnce || event is Request,
        post.sent != pre.sent,
    ensures
        ({
            let idx = post.sent.last().message.1;
            &&& post.sent.len() == pre.sent.len() + 1
            &&& idx != 0
            &&& !pre.awaits_report(idx)
            &&& post.awaits_report(idx)
            &&& forall|other: usize|
                other != idx ==> (#[trigger] post.awaits_report(other) <==> pre.awaits_report(other))
        }),
{
    lemma_inserted(pre.info, post.info.at(pre.info.next_key() as int));
    assert forall|other: usize| other != post.sent.last().message.1 implies (
    #[trigger] post.awaits_report(other) <==> pre.awaits_report(other)) by {
        if other != 0 {
            assert((other - 1) as usize != pre.info.next_key() as usize);
        }
    }
}

/// A publish packet that is not acknowledged goes out as it is, where the
/// connection is open, and takes no credit and no identifier: what is in
/// flight, what waits and the next identifier stay as they are.
pub proof fn law_at_most_once(
    pre: SinkState,
    packet: Packet,
    post: SinkState,
    rx: Option<pool::Receiver<Info>>,
)
    requires
        pre.wf(),
        SinkState::at_most_once_step(pre, packet, post, rx),
    ensures
        pre.is_open() ==> post.sent.len() == pre.sent.len() + 1 && post.last_packet() == packet,
        !pre.is_open() ==> post.sent == pre.sent,
        post.queue == pre.queue,
        post.in_flight() == pre.in_flight(),
        post.pending() == pre.pending(),
        post.next_id() == pre.next_id(),
        rx is Some <==> pre.is_open() && post.sent.last().accepted,
{
}

/// A publish packet that is not acknowledged takes no credit and no
/// identifier. Once the encoder reports that it was written, the receiver that
/// the request came with is told, and nothing is left of it.
pub proof fn law_publish_written(
    pre: SinkState,
    packet: Packet,
    mid: SinkState,
    rx: pool::Receiver<Info>,
    idx: usize,
    post: SinkState,
)
    requires
        pre.wf(),
        SinkState::at_most_once_step(pre, packet, mid, Some(rx)),
        idx == pre.info.next_key() + 1,
        SinkState::written_step(mid, idx, post),
    ensures
        mid.queue == pre.queue,
        mid.order == pre.order,
        mid.sent.last().message == (packet, idx),
        post.told.last().message == Info::Written,
        post.told.last().to.peer() == rx,
        post.queue == pre.queue,
        post.order == pre.order,
        post.info.occupied == pre.info.occupied,
{
    lemma_inserted(pre.info, mid.info.at(idx - 1));
    assert(post.info.occupied =~= pre.info.occupied);
}

/// A request that could not be encoded leaves no trace: what is in flight,
/// what waits and what the encoder has to report is as before, and the
/// receiver that the request came with is told.
pub proof fn law_request_not_encoded(
    pre: SinkState,
    tp: AckType,
    mid: SinkState,
    info: pool::Receiver<Info>,
    ack: pool::Receiver<Ack>,
    idx: usize,
    err: EncodeError,
    post: SinkState,
)
    requires
        pre.wf(),
        SinkState::request_step(pre, tp, mid, Outcome::Sent { info, ack }),
        idx == pre.info.next_key() + 1,
        SinkState::encode_err_step(mid, idx, err, post),
    ensures
        post.told.last().message == Info::Error(err),
        post.told.last().to.peer() == info,
        post.queue.occupied == pre.queue.occupied,
        post.info.occupied == pre.info.occupied,
        post.pending() == pre.pending(),
        post.next_id() == pre.next_id(),
{
    let id = pre.next_id() as usize;
    let item = (mid.queue.at(id - 1).0, tp);
    let info_item = (mid.info.at(idx - 1).0, id);
    lemma_inserted(pre.queue, item);
    lemma_inserted(pre.info, info_item);
    lemma_push_wf(pre, mid);
    lemma_live_push(pre.order, id);
    lemma_live_contains(pre.order, id);
    if pre.order.contains(id) {
        assert(pre.is_in_flight(pre.order[pre.order.index_of(id)]));
    }
    assert(mid.order[pre.order.len() as int] == id);
    assert(mid.order.contains(id));
    lemma_live_withdrawn(mid.order, id);
    lemma_live_no_duplicates(mid.order);
    assert(mid.pending()[pre.pending().len() as int] == id);
    assert(mid.pending().remove(pre.pending().len() as int) =~= pre.pending());
    lemma_removed(mid.queue, id - 1);
    assert(post.queue.occupied =~= pre.queue.occupied);
    assert(post.info.occupied =~= pre.info.occupied);
}

/// Where every packet in flight waits, that stays so, unless an
/// acknowledgement comes that is not for the oldest packet.
pub proof fn law_settled(pre: SinkState, event: Event, post: SinkState)
    requires
        pre.wf(),
        pre.is_settled(),
        SinkState::step(pre, event, post),
        !(event matches Event::Ack { pkt, r } && is_mismatch(r)),
    ensures
        post.is_settled(),
{
    assert forall|key: usize| #[trigger] post.queue.occupied.dom().contains(key) implies exists|
        i: int,
    | 0 <= i < post.order.len() && #[trigger] post.order[i] == key + 1 by {
        match event {
            Event::EncodeErr { idx, err } => {
                assert(pre.queue.occupied.dom().contains(key));
                let i = choose|i: int| 0 <= i < pre.order.len() && #[trigger] pre.order[i] == key + 1;
                let id = pre.info.at(idx - 1).1;
                if id != 0 && pre.order.contains(id) {
                    let at = pre.order.index_of(id);
                    let marked = pre.order.update(at, 0);
                    assert(marked[i] == key + 1);
                    if marked[0] == 0 {
                        assert(post.order[i - 1] == key + 1);
                    } else {
                        assert(post.order[i] == key + 1);
                    }
                } else {
                    assert(post.order[i] == key + 1);
                }
            },
            Event::Ack { pkt, r } => {
                let n = leading_zeros(pre.order) as int;
                lemma_leading_zeros(pre.order);
                assert(pre.queue.occupied.dom().contains(key));
                let i = choose|i: int| 0 <= i < pre.order.len() && #[trigger] pre.order[i] == key + 1;
                assert(i > n);
                assert(post.order[i - n - 1] == key + 1);
            },
            Event::Request { tp, outcome } => {
                if pre.next_id() <= u16::MAX && key == pre.next_id() - 1 {
                    assert(post.order[pre.order.len() as int] == key + 1);
                } else {
                    assert(pre.queue.occupied.dom().contains(key));
                    let i = choose|i: int|
                        0 <= i < pre.order.len() && #[trigger] pre.order[i] == key + 1;
                    assert(post.order[i] == key + 1);
                }
            },
            _ => {
                assert(pre.queue.occupied.dom().contains(key));
                let i = choose|i: int| 0 <= i < pre.order.len() && #[trigger] pre.order[i] == key + 1;
                assert(post.order[i] == key + 1);
            },
        }
    }
}

/// Where every packet in flight waits, the credit that is taken is the number
/// of requests that wait for an acknowledgement.
pub proof fn law_credit_counts_pending(s: SinkState)
    requires
        s.wf(),
        s.is_settled(),
    ensures
        s.in_flight() == s.pending().len(),
{
    let ids = s.pending();
    let keys = ids.map_values(|id: usize| (id - 1) as usize);
    lemma_live_no_duplicates(s.order);
    assert forall|i: int| 0 <= i < ids.len() implies (#[trigger] ids[i]) != 0
        && s.order.contains(ids[i]) by {
        assert(ids.contains(ids[i]));
        lemma_live_contains(s.order, ids[i]);
    }
    assert(keys.no_duplicates());
    keys.unique_seq_to_set();
    assert forall|key: usize| keys.to_set().contains(key) <==> s.queue.occupied.dom().contains(
        key,
    ) by {
        if keys.contains(key) {
            let i = keys.index_of(key);
            let at = s.order.index_of(ids[i]);
            assert(s.is_in_flight(s.order[at]));
        }
        if s.queue.occupied.dom().contains(key) {
            let i = choose|i: int| 0 <= i < s.order.len() && #[trigger] s.order[i] == key + 1;
            let id = s.order[i];
            assert(s.order.contains(id));
            lemma_live_contains(s.order, id);
            let at = ids.index_of(id);
            assert(keys[at] == key);
        }
    }
    assert(keys.to_set() =~= s.queue.occupied.dom());
}

/// No more packets are in flight than the limit allows, and where there are as
/// many, no request goes to the encoder.
pub proof fn law_limit(pre: SinkState, event: Event, post: SinkState)
    requires
        pre.wf(),
        SinkState::step(pre, event, post),
    ensures
        post.in_flight() <= post.cap,
        pre.in_flight() == pre.cap ==> !(event is Request),
{
    law_well_formed(pre, event, post);
}

/// An acknowledgement of the oldest request gives its credit back; any other
/// gives none. An accepted one wakes at most one request that is still there.
pub proof fn law_ack_returns_credit(
    pre: SinkState,
    pkt: Ack,
    post: SinkState,
    r: Result<(), ProtocolError>,
)
    requires
        pre.wf(),
        SinkState::ack_step(pre, pkt, post, r),
    ensures
        post.in_flight() == if is_mismatch(r) {
            pre.in_flight() as int
        } else {
            pre.in_flight() - 1
        },
        forall|i: int, j: int|
            pre.woken.len() <= i < j < post.woken.len() ==> !((#[trigger] post.woken[i]).accepted
                && (#[trigger] post.woken[j]).accepted),
        r is Ok && pre.waiters.len() > 0 ==> post.waiters.len() == 0
            || post.woken.last().accepted,
{
    let n = leading_zeros(pre.order) as int;
    lemma_leading_zeros(pre.order);
    if n < pre.order.len() && pre.order[n] == pkt.id() {
        assert(pre.is_in_flight(pre.order[n]));
        lemma_removed(pre.queue, pkt.id() - 1);
    }
    assert forall|i: int, j: int|
        pre.woken.len() <= i < j < post.woken.len() implies !((#[trigger] post.woken[i]).accepted && (
    #[trigger] post.woken[j]).accepted) by {
        let k = i - pre.woken.len();
        assert(!post.woken[pre.woken.len() + k].accepted);
    }
}

/// There is an identifier for the next request exactly where fewer packets are
/// in flight than there are identifiers.
pub proof fn law_identifier_available(s: SinkState)
    requires
        s.wf(),
    ensures
        s.next_id() <= u16::MAX <==> s.in_flight() < u16::MAX,
        s.in_flight() <= u16::MAX,
{
    lemma_next_key(s);
}

/// The event takes the packet `id` out of flight, or may do so: an
/// acknowledgement of it, or the report that it could not be encoded.
pub open spec fn concerns(pre: SinkState, event: Event, id: usize) -> bool {
    match event {
        Event::Ack { pkt, r } => pkt.id() == id && !is_mismatch(r),
        Event::EncodeErr { idx, err } => pre.info.at(idx - 1).1 == id,
        _ => false,
    }
}

/// A packet in flight keeps its channel and its type until it is acknowledged
/// or cannot be encoded.
pub proof fn law_in_flight_kept(
    pre: SinkState,
    event: Event,
    post: SinkState,
    id: usize,
)
    requires
        pre.wf(),
        SinkState::step(pre, event, post),
        pre.is_in_flight(id),
        !concerns(pre, event, id),
    ensures
        post.is_in_flight(id),
        post.queue.at(id - 1) == pre.queue.at(id - 1),
{
    match event {
        Event::Request { tp, outcome } => {
            lemma_inserted(pre.queue, (post.queue.at(pre.next_id() - 1).0, tp));
        },
        Event::Ack { pkt, r } => {
            lemma_leading_zeros(pre.order);
        },
        _ => {},
    }
}

/// The operations `events`, one after the other, take the sink through
/// `states`.
pub open spec fn is_run(states: Seq<SinkState>, events: Seq<Event>) -> bool {
    &&& states.len() == events.len() + 1
    &&& forall|i: int|
        0 <= i < events.len() ==> SinkState::step(
            states[i],
            #[trigger] events[i],
            states[i + 1],
        )
}

/// The event is an acknowledgement that is not for the oldest packet.
pub open spec fn is_stray(event: Event) -> bool {
    event matches Event::Ack { pkt, r } && is_mismatch(r)
}

/// Whatever is done to it, a sink stays well formed, and once it is closed it
/// stays closed and sends nothing.
pub proof fn law_run_well_formed(
    states: Seq<SinkState>,
    events: Seq<Event>,
    i: int,
    j: int,
)
    requires
        is_run(states, events),
        states[0].wf(),
        0 <= i <= j < states.len(),
    ensures
        states[j].wf(),
        states[j].cap == states[i].cap,
        !states[i].is_open() ==> !states[j].is_open() && states[j].sent == states[i].sent,
    decreases j,
{
    if j > 0 {
        law_run_well_formed(states, events, 0, j - 1);
        assert(SinkState::step(states[j - 1], events[j - 1], states[j]));
        law_well_formed(states[j - 1], events[j - 1], states[j]);
        if i < j {
            law_run_well_formed(states, events, i, j - 1);
            if !states[j - 1].is_open() {
                law_closed_for_good(states[j - 1], events[j - 1], states[j]);
            }
        }
    }
}

/// As long as every acknowledgement is for the oldest packet, the credit that
/// is taken is the number of requests that wait for an acknowledgement.
pub proof fn law_run_credit(states: Seq<SinkState>, events: Seq<Event>, i: int)
    requires
        is_run(states, events),
        states[0].wf(),
        states[0].is_settled(),
        forall|k: int| 0 <= k < events.len() ==> !is_stray(#[trigger] events[k]),
        0 <= i < states.len(),
    ensures
        states[i].is_settled(),
        states[i].in_flight() == states[i].pending().len(),
    decreases i,
{
    law_run_well_formed(states, events, 0, i);
    if i > 0 {
        law_run_credit(states, events, i - 1);
        law_run_well_formed(states, events, 0, i - 1);
        assert(SinkState::step(states[i - 1], events[i - 1], states[i]));
        assert(!is_stray(events[i - 1]));
        law_settled(states[i - 1], events[i - 1], states[i]);
    }
    law_credit_counts_pending(states[i]);
}

/// Whatever is done to a sink, the limit is never exceeded; and there is an
/// identifier for the next request exactly where fewer packets are in flight
/// than there are identifiers.
pub proof fn law_run_limit(states: Seq<SinkState>, events: Seq<Event>, i: int)
    requires
        is_run(states, events),
        states[0].wf(),
        0 <= i < states.len(),
    ensures
        states[i].in_flight() <= states[i].cap,
        states[i].cap == states[0].cap,
        states[i].next_id() <= u16::MAX <==> states[i].in_flight() < u16::MAX,
{
    law_run_well_formed(states, events, 0, i);
    law_identifier_available(states[i]);
}

/// An open connection stays open until it is closed or the sink is dropped.
pub proof fn law_run_stays_open(
    states: Seq<SinkState>,
    events: Seq<Event>,
    i: int,
    j: int,
)
    requires
        is_run(states, events),
        0 <= i <= j < states.len(),
        forall|k: int|
            i <= k < j ==> !((#[trigger] events[k]) is Last) && !(events[k] is DropSink),
    ensures
        states[j].sink == states[i].sink,
    decreases j,
{
    if i < j {
        let k = j - 1;
        law_run_stays_open(states, events, i, k);
        assert(SinkState::step(states[k], events[k], states[k + 1]));
        law_stays_open(states[k], events[k], states[j]);
    }
}

/// Whatever else is done meanwhile, a packet in flight keeps its channel and
/// its type until it is acknowledged or cannot be encoded.
pub proof fn law_run_in_flight_kept(
    states: Seq<SinkState>,
    events: Seq<Event>,
    i: int,
    j: int,
    id: usize,
)
    requires
        is_run(states, events),
        states[0].wf(),
        0 <= i <= j < states.len(),
        states[i].is_in_flight(id),
        forall|k: int| i <= k < j ==> !concerns(states[k], #[trigger] events[k], id),
    ensures
        states[j].is_in_flight(id),
        states[j].queue.at(id - 1) == states[i].queue.at(id - 1),
    decreases j,
{
    if i < j {
        let k = j - 1;
        law_run_in_flight_kept(states, events, i, k, id);
        law_run_well_formed(states, events, 0, k);
        assert(SinkState::step(states[k], events[k], states[k + 1]));
        law_in_flight_kept(states[k], events[k], states[j], id);
    }
}

/// An acknowledgement reaches the request that it is for: where the request
/// was sent at `i`, was in flight ever since, and is acknowledged at `j`, the
/// receiver that it came with gets the acknowledgement, which is of the type
/// that the request waits for. Other requests may be sent, acknowledged or
/// withdrawn in between.
pub proof fn law_run_ack_delivered(
    states: Seq<SinkState>,
    events: Seq<Event>,
    i: int,
    j: int,
)
    requires
        is_run(states, events),
        states[0].wf(),
        0 <= i < j < events.len(),
        events[i] matches Event::Request { outcome, .. } && outcome is Sent,
        events[j] matches Event::Ack { pkt, r } && r is Ok && pkt.id() == states[i].next_id(),
        forall|k: int|
            i < k < j ==> !concerns(
                states[k],
                #[trigger] events[k],
                states[i].next_id() as usize,
            ),
    ensures
        states[j + 1].acked.last().message == events[j]->pkt,
        states[j + 1].acked.last().to.peer() == events[i]->outcome->ack,
        events[j]->pkt.kind() == events[i]->tp,
        !states[j + 1].is_in_flight(states[i].next_id() as usize),
{
    let id = states[i].next_id() as usize;
    law_run_well_formed(states, events, 0, i);
    law_run_well_formed(states, events, 0, j);
    assert(SinkState::step(states[i], events[i], states[i + 1]));
    assert(SinkState::step(states[j], events[j], states[j + 1]));
    if let Event::Request { tp, outcome } = events[i] {
        law_request_joins(states[i], tp, states[i + 1], outcome);
        law_run_in_flight_kept(states, events, i + 1, j, id);
    }
    law_ack_delivered(states[j], events[j]->pkt, states[j + 1], events[j]->Ack_r);
}

/// The encoder reports the packet number `idx`.
pub open spec fn reports(event: Event, idx: usize) -> bool {
    match event {
        Event::Written { idx: number } => number == idx,
        Event::EncodeErr { idx: number, err } => number == idx,
        _ => false,
    }
}

/// The receiver that a packet which went to the encoder came with.
pub open spec fn report_receiver(event: Event) -> Option<pool::Receiver<Info>> {
    match event {
        Event::AtMostOnce { packet, rx } => rx,
        Event::Request { outcome: Outcome::Sent { info, ack }, .. } => Some(info),
        _ => None,
    }
}

/// The encoder has a packet to report until it reported it.
pub proof fn law_report_kept(pre: SinkState, event: Event, post: SinkState, idx: usize)
    requires
        pre.wf(),
        SinkState::step(pre, event, post),
        pre.awaits_report(idx),
        !reports(event, idx),
    ensures
        post.awaits_report(idx),
        post.info.at(idx - 1) == pre.info.at(idx - 1),
{
    match event {
        Event::AtMostOnce { packet, rx } => {
            lemma_inserted(pre.info, post.info.at(pre.info.next_key() as int));
        },
        Event::Request { tp, outcome } => {
            if pre.next_id() <= u16::MAX {
                lemma_inserted(pre.info, post.info.at(pre.info.next_key() as int));
            }
        },
        _ => {},
    }
}

/// Whatever else is done meanwhile, the encoder has a packet to report until
/// it reported it.
pub proof fn law_run_report_kept(
    states: Seq<SinkState>,
    events: Seq<Event>,
    i: int,
    j: int,
    idx: usize,
)
    requires
        is_run(states, events),
        states[0].wf(),
        0 <= i <= j < states.len(),
        states[i].awaits_report(idx),
        forall|k: int| i <= k < j ==> !reports(#[trigger] events[k], idx),
    ensures
        states[j].awaits_report(idx),
        states[j].info.at(idx - 1) == states[i].info.at(idx - 1),
    decreases j,
{
    if i < j {
        let k = j - 1;
        law_run_report_kept(states, events, i, k, idx);
        law_run_well_formed(states, events, 0, k);
        assert(SinkState::step(states[k], events[k], states[k + 1]));
        law_report_kept(states[k], events[k], states[j], idx);
    }
}

/// A report of the encoder reaches the request that it is for: where a packet
/// went to the encoder at `i` with the number `idx`, and its first report is
/// made at `j`, the receiver that the request came with gets that report.
pub proof fn law_run_report_delivered(
    states: Seq<SinkState>,
    events: Seq<Event>,
    i: int,
    j: int,
    idx: usize,
)
    requires
        is_run(states, events),
        states[0].wf(),
        0 <= i < j < events.len(),
        report_receiver(events[i]) is Some,
        idx == states[i].info.next_key() + 1,
        forall|k: int| i < k < j ==> !reports(#[trigger] events[k], idx),
        reports(events[j], idx),
    ensures
        states[i + 1].sent.last().message.1 == idx,
        states[j + 1].told.last().to.peer() == report_receiver(events[i])->0,
        states[j + 1].told.last().message == match events[j] {
            Event::EncodeErr { idx: number, err } => Info::Error(err),
            _ => Info::Written,
        },
{
    law_run_well_formed(states, events, 0, i);
    assert(SinkState::step(states[i], events[i], states[i + 1]));
    assert(SinkState::step(states[j], events[j], states[j + 1]));
    lemma_inserted(states[i].info, states[i + 1].info.at(idx - 1));
    assert(states[i + 1].awaits_report(idx));
    law_run_report_kept(states, events, i + 1, j, idx);
}

/// Two packets that the encoder has to report go out under different numbers,
/// unless the first was reported in between.
pub proof fn law_run_report_numbers_differ(
    states: Seq<SinkState>,
    events: Seq<Event>,
    i: int,
    j: int,
)
    requires
        is_run(states, events),
        states[0].wf(),
        0 <= i < j < events.len(),
        events[i] is AtMostOnce || events[i] is Request,
        events[j] is AtMostOnce || events[j] is Request,
        states[i + 1].sent != states[i].sent,
        states[j + 1].sent != states[j].sent,
        forall|k: int|
            i < k < j ==> !reports(#[trigger] events[k], states[i + 1].sent.last().message.1),
    ensures
        states[i + 1].sent.last().message.1 != states[j + 1].sent.last().message.1,
{
    law_run_well_formed(states, events, 0, i);
    law_run_well_formed(states, events, 0, j);
    assert(SinkState::step(states[i], events[i], states[i + 1]));
    assert(SinkState::step(states[j], events[j], states[j + 1]));
    law_report_number_is_new(states[i], events[i], states[i + 1]);
    law_report_number_is_new(states[j], events[j], states[j + 1]);
    law_run_report_kept(states, events, i + 1, j, states[i + 1].sent.last().message.1);
}

/// An operation leaves the line of those that ever waited for credit as it is,
/// but for a request that finds none, which joins at the end. Who was told of
/// credit stays told.
pub proof fn law_line_kept(pre: SinkState, event: Event, post: SinkState)
    requires
        SinkState::step(pre, event, post),
    ensures
        event matches Event::Wait { wake } ==> {
            &&& post.line() == pre.line().push(post.line().last())
            &&& post.line().last().peer() == wake
            &&& post.line().last().origin() == pre.pool.waiters
        },
        !(event is Wait) ==> post.line() == pre.line(),
        pre.woken.len() <= post.woken.len(),
        post.woken.take(pre.woken.len() as int) == pre.woken,
        post.woken.len() > pre.woken.len() ==> event is Ack,
{
    assert(pre.woken.take(pre.woken.len() as int) =~= pre.woken);
    match event {
        Event::Wait { wake } => {
            assert(post.line() =~= pre.line().push(post.waiters.last()));
        },
        Event::Ack { pkt, r } => {
            let told = pre.woken.len() as int;
            if r is Ok {
                assert forall|i: int| 0 <= i < pre.line().len() implies post.line()[i]
                    == pre.line()[i] by {
                    if i < told {
                        assert(post.woken.take(told)[i] == pre.woken[i]);
                    } else if i < post.woken.len() {
                        let k = i - told;
                        assert(post.woken[told + k].to == pre.waiters[k]);
                    }
                }
            }
            assert(post.line() =~= pre.line());
        },
        _ => {},
    }
}

/// Whatever is done, requests that wait for credit keep their places: the line
/// of those that ever waited only grows at its end, and they are told of credit
/// from its front.
pub proof fn law_run_line_kept(states: Seq<SinkState>, events: Seq<Event>, i: int, j: int)
    requires
        is_run(states, events),
        0 <= i <= j < states.len(),
    ensures
        states[i].line().is_prefix_of(states[j].line()),
        states[i].woken.is_prefix_of(states[j].woken),
    decreases j,
{
    if i < j {
        let k = j - 1;
        law_run_line_kept(states, events, i, k);
        assert(SinkState::step(states[k], events[k], states[k + 1]));
        law_line_kept(states[k], events[k], states[j]);
        assert forall|n: int| 0 <= n < states[k].woken.len() implies states[j].woken[n]
            == states[k].woken[n] by {
            assert(states[j].woken.take(states[k].woken.len() as int)[n] == states[k].woken[n]);
        }
    }
}

/// A request that waits for credit keeps its place, and its wake reaches the
/// receiver that it waits with: at any later time it either still waits, behind
/// those that were before it and not told yet, or was told of credit.
pub proof fn law_run_wake_delivered(
    states: Seq<SinkState>,
    events: Seq<Event>,
    i: int,
    j: int,
)
    requires
        is_run(states, events),
        0 <= i < j < states.len(),
        events[i] is Wait,
    ensures
        ({
            let place = states[i].line().len() as int;
            let told = states[j].woken.len() as int;
            if place < told {
                states[j].woken[place].to.peer() == events[i]->wake
            } else {
                &&& place - told < states[j].waiters.len()
                &&& states[j].waiters[place - told].peer() == events[i]->wake
            }
        }),
{
    let place = states[i].line().len() as int;
    assert(SinkState::step(states[i], events[i], states[i + 1]));
    law_line_kept(states[i], events[i], states[i + 1]);
    law_run_line_kept(states, events, i + 1, j);
    assert(states[i + 1].line()[place].peer() == events[i]->wake);
    assert(states[j].line()[place] == states[i + 1].line()[place]);
}

/// Acknowledgements that come in the order in which the requests were sent,
/// each of the type that its request waits for, are all accepted.
pub proof fn law_run_acks(
    states: Seq<SinkState>,
    acks: Seq<Ack>,
    rs: Seq<Result<(), ProtocolError>>,
    n: int,
)
    requires
        states.len() == acks.len() + 1,
        rs.len() == acks.len(),
        states[0].wf(),
        acks.len() <= states[0].pending().len(),
        forall|i: int|
            0 <= i < acks.len() ==> {
                &&& SinkState::ack_step(states[i], #[trigger] acks[i], states[i + 1], rs[i])
                &&& acks[i].id() == states[0].pending()[i]
                &&& acks[i].kind() == states[0].queue.at(acks[i].id() - 1).1
            },
        0 <= n <= acks.len(),
    ensures
        forall|i: int| 0 <= i < n ==> (#[trigger] rs[i]) is Ok,
        states[n].wf(),
        states[n].pending() == states[0].pending().skip(n),
        states[n].in_flight() == states[0].in_flight() - n,
        forall|i: int|
            n <= i < states[0].pending().len() ==> {
                let id = #[trigger] states[0].pending()[i];
                states[n].is_in_flight(id) && states[n].queue.at(id - 1) == states[0].queue.at(
                    id - 1,
                )
            },
    decreases n,
{
    let ids = states[0].pending();
    lemma_live_no_duplicates(states[0].order);
    assert forall|i: int| 0 <= i < ids.len() implies (#[trigger] ids[i]) != 0
        && states[0].is_in_flight(ids[i]) by {
        assert(ids.contains(ids[i]));
        lemma_live_contains(states[0].order, ids[i]);
        assert(states[0].is_in_flight(states[0].order[states[0].order.index_of(ids[i])]));
    }
    if n == 0 {
        assert(ids.skip(0) =~= ids);
    } else {
        let k = n - 1;
        law_run_acks(states, acks, rs, k);
        assert(SinkState::ack_step(states[k], acks[k], states[k + 1], rs[k]));
        assert(states[k].pending()[0] == ids[k]);
        law_acks_in_order(states[k], acks[k], states[n], rs[k]);
        law_ack_returns_credit(states[k], acks[k], states[n], rs[k]);
        assert(ids.skip(k).skip(1) =~= ids.skip(n));
        let event = Event::Ack { pkt: acks[k], r: rs[k] };
        law_well_formed(states[k], event, states[n]);
        assert forall|i: int| n <= i < ids.len() implies {
            let id = #[trigger] ids[i];
            states[n].is_in_flight(id) && states[n].queue.at(id - 1) == states[0].queue.at(id - 1)
        } by {
            law_in_flight_kept(states[k], event, states[n], ids[i]);
        }
    }
}

} // verus!
