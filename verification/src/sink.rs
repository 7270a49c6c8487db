//! The sink.
use bytes::Bytes;
use ntex::channel::{mpsc, pool};
use std::collections::VecDeque;
use std::rc::Rc;
use vstd::prelude::*;

use crate::ack::{Ack, AckType, Info};
use crate::channel::{attach, new_pool, notify, open, post, Journal, Tx, Wire};
use crate::codec::{Disconnect, Packet, Publish, SubscriptionOptions};
use crate::error::{EncodeError, ProtocolError};
use crate::lemmas::{
    lemma_leading_zeros, lemma_push_wf, lemma_remove_wf, lemma_same_queue_wf, lemma_skip_wf,
    lemma_touched_wf,
};
use crate::publish::PublishBuilder;
use crate::state::{leading_zeros, recorded, wakes, withdrawn, Item, Outcome, SinkState};
use crate::subscribe::{SubscribeBuilder, UnsubscribeBuilder};
use crate::table::{lemma_inserted, lemma_removed, Table};
use crate::types::{NonZeroU16, NonZeroU32, QoS};

verus! {

/// The pools that a sink opens its channels from. Sinks may share them.
pub struct MqttSinkPool {
    /// Reports of the encoder.
    pub info: pool::Pool<Info>,
    /// Acknowledgements.
    pub queue: pool::Pool<Ack>,
    /// Credit.
    pub waiters: pool::Pool<()>,
}

impl Default for MqttSinkPool {
    fn default() -> MqttSinkPool {
        MqttSinkPool { info: new_pool(), queue: new_pool(), waiters: new_pool() }
    }
}

/// A request with an identifier.
pub(crate) struct Ticket {
    /// The identifier.
    pub packet_id: NonZeroU16,
    /// The number under which the encoder reports.
    pub note: usize,
    /// Gets the report of the encoder.
    pub info: pool::Receiver<Info>,
    /// Gets the acknowledgement.
    pub ack: pool::Receiver<Ack>,
}

/// How far a request came, and what it waits for.
pub enum Step<B, E> {
    /// There is no credit. Once `wake` was told of some, the request goes on
    /// with `builder`.
    Wait { builder: B, wake: pool::Receiver<()> },
    /// The packet went to the encoder. `info` gets the report of the encoder,
    /// and after that `ack` the acknowledgement of the peer.
    Sent { info: pool::Receiver<Info>, ack: pool::Receiver<Ack> },
    /// The request failed.
    Failed(E),
}

impl<B, E> Step<B, E> {
    /// What became of a request that found credit, and fails with
    /// `not_available` where there is no identifier for it.
    pub open spec fn outcome(self, not_available: E) -> Outcome {
        match self {
            Step::Sent { info, ack } => Outcome::Sent { info, ack },
            Step::Failed(e) if e == not_available => Outcome::NotAvailable,
            _ => Outcome::Disconnected,
        }
    }
}

/// Sends packets over a connection and keeps account of those that the peer
/// has to acknowledge.
pub struct MqttSink {
    cap: usize,
    sink: Option<Wire<Item>>,
    info: Table<(Tx<Info>, usize)>,
    queue: Table<(Tx<Ack>, AckType)>,
    queue_order: VecDeque<usize>,
    waiters: VecDeque<Tx<()>>,
    pool: Rc<MqttSinkPool>,
    sent: Journal<mpsc::Sender<Item>, Item>,
    told: Journal<Tx<Info>, Info>,
    acked: Journal<Tx<Ack>, Ack>,
    woken: Journal<Tx<()>, ()>,
}

impl MqttSink {
    /// What the sink holds.
    pub closed spec fn view(&self) -> SinkState {
        SinkState {
            cap: self.cap as nat,
            pool: *self.pool,
            sink: match self.sink {
                Some(wire) => Some(wire.sender()),
                None => None,
            },
            info: self.info@,
            queue: self.queue@,
            order: self.queue_order@,
            waiters: self.waiters@,
            sent: self.sent@,
            told: self.told@,
            acked: self.acked@,
            woken: self.woken@,
        }
    }

    /// The contents show each part of the sink as it is.
    proof fn law_view_is_faithful(self)
        ensures
            self@.cap == self.cap,
            self@.pool == *self.pool,
            match self.sink {
                Some(wire) => self@.sink == Some(wire.sender()),
                None => self@.sink is None,
            },
            self@.info == self.info@,
            self@.queue == self.queue@,
            self@.order == self.queue_order@,
            self@.waiters == self.waiters@,
            self@.sent == self.sent@,
            self@.told == self.told@,
            self@.acked == self.acked@,
            self@.woken == self.woken@,
    {
    }

    /// What every sink fulfils.
    pub open spec fn wf(&self) -> bool {
        self@.wf()
    }

    /// A sink that sends by `sink` and lets `max_send` requests wait for an
    /// acknowledgement at a time.
    pub fn new(sink: mpsc::Sender<Item>, max_send: usize, pool: Rc<MqttSinkPool>) -> (r: MqttSink)
        ensures
            r.wf(),
            r@ == SinkState::initial(sink, max_send as nat, *pool),
    {
        let link = attach(sink);
        MqttSink {
            cap: max_send,
            sink: Some(link.wire),
            info: Table::new(),
            queue: Table::new(),
            queue_order: VecDeque::new(),
            waiters: VecDeque::new(),
            pool,
            sent: link.sent,
            told: link.told,
            acked: link.acked,
            woken: link.woken,
        }
    }

    /// Whether the connection is not closed.
    pub fn is_open(&self) -> (r: bool)
        ensures
            r == self@.is_open(),
    {
        self.sink.is_some()
    }

    /// Get client receive credit
    pub fn credit(&self) -> (r: usize)
        requires
            self.wf(),
        ensures
            r == self@.cap - self@.in_flight(),
    {
        self.cap - self.queue.len()
    }

    /// Close mqtt connection with default Disconnect message
    pub fn close(&mut self)
        requires
            old(self).wf(),
        ensures
            final(self).wf(),
            old(self)@.is_open() ==> (final(self)@.last_packet() matches Packet::Disconnect(pkt)
                && pkt.is_normal()),
            SinkState::last_step(old(self)@, final(self)@.last_packet(), final(self)@),
    {
        self.close_with_reason(Disconnect::default());
    }

    /// Close mqtt connection
    pub fn close_with_reason(&mut self, pkt: Disconnect)
        requires
            old(self).wf(),
        ensures
            final(self).wf(),
            SinkState::last_step(old(self)@, Packet::Disconnect(pkt), final(self)@),
    {
        let ghost pre = self@;
        if let Some(tx) = self.sink.take() {
            let _ = post(&tx, (Packet::Disconnect(pkt), 0), &mut self.sent);
        }
        proof {
            lemma_same_queue_wf(pre, self@);
        }
    }

    /// Hands a packet to the encoder, unless the connection is closed.
    pub fn send(&mut self, pkt: Packet)
        requires
            old(self).wf(),
        ensures
            final(self).wf(),
            SinkState::send_step(old(self)@, pkt, final(self)@),
    {
        let _ = self.dispatch(pkt, 0);
    }

    /// Send ping
    ///
    /// False where the connection is closed, or the encoder is gone.
    pub fn ping(&mut self) -> (r: bool)
        requires
            old(self).wf(),
        ensures
            final(self).wf(),
            SinkState::send_step(old(self)@, Packet::PingRequest, final(self)@),
            r == (old(self)@.is_open() && final(self)@.sent.last().accepted),
    {
        self.dispatch(Packet::PingRequest, 0)
    }

    /// Close mqtt connection, dont send disconnect message
    pub fn drop_sink(&mut self)
        requires
            old(self).wf(),
        ensures
            final(self).wf(),
            final(self)@ == (SinkState { sink: None, ..old(self)@ }),
    {
        let ghost pre = self@;
        let _ = self.sink.take();
        proof {
            lemma_same_queue_wf(pre, self@);
        }
    }

    /// Whether the encoder has a packet to report under the number `idx`.
    pub fn awaits_report(&self, idx: usize) -> (r: bool)
        ensures
            r == self@.awaits_report(idx),
    {
        idx != 0 && self.info.contains(idx - 1)
    }

    /// The encoder wrote the packet number `idx`.
    pub fn pkt_written(&mut self, idx: usize)
        requires
            old(self).wf(),
            old(self)@.awaits_report(idx),
        ensures
            final(self).wf(),
            SinkState::written_step(old(self)@, idx, final(self)@),
    {
        let ghost pre = self@;
        let (tx, _) = self.info.remove(idx - 1);
        proof {
            lemma_removed(pre.info, idx - 1);
        }
        notify(tx, Info::Written, &mut self.told);
        proof {
            lemma_same_queue_wf(pre, self@);
        }
    }

    /// The encoder could not encode the packet number `idx`.
    ///
    /// Where the packet waits for an acknowledgement, it does so no longer.
    pub fn pkt_encode_err(&mut self, idx: usize, err: EncodeError)
        requires
            old(self).wf(),
            old(self)@.awaits_report(idx),
        ensures
            final(self).wf(),
            SinkState::encode_err_step(old(self)@, idx, err, final(self)@),
    {
        let ghost pre = self@;
        let (tx, id) = self.info.remove(idx - 1);
        proof {
            lemma_removed(pre.info, idx - 1);
        }
        notify(tx, Info::Error(err), &mut self.told);
        let ghost told = self@;
        proof {
            lemma_same_queue_wf(pre, told);
        }

        // we have qos1 publish in queue, waiting for ack.
        // but publish packet is failed to encode,
        // so we have to cleanup queue
        if id != 0 {
            let mut i: usize = 0;
            while i < self.queue_order.len()
                invariant
                    self@ == told,
                    told.wf(),
                    id != 0,
                    i <= told.order.len(),
                    forall|j: int| 0 <= j < i ==> told.order[j] != id,
                ensures
                    self@ == told,
                    i <= told.order.len(),
                    i < told.order.len() ==> told.order[i as int] == id,
                    forall|j: int| 0 <= j < i ==> told.order[j] != id,
                decreases told.order.len() - i,
            {
                if self.queue_order[i] == id {
                    break;
                }
                i = i + 1;
            }
            if i < self.queue_order.len() {
                self.withdraw(i, id);
            } else {
                assert(!told.order.contains(id));
            }
        }
    }

    /// The packet `id`, which is at `at` in the order, leaves the queue.
    fn withdraw(&mut self, at: usize, id: usize)
        requires
            old(self).wf(),
            id != 0,
            at < old(self)@.order.len(),
            old(self)@.order[at as int] == id,
        ensures
            final(self).wf(),
            final(self)@ == (SinkState {
                queue: old(self)@.queue.removed(id - 1),
                order: withdrawn(old(self)@.order, id),
                ..old(self)@
            }),
    {
        let ghost pre = self@;
        assert(pre.is_in_flight(pre.order[at as int]));
        let _ = self.queue_order.remove(at);
        self.queue_order.insert(at, 0);
        let ghost marked = pre.order.update(at as int, 0);
        assert(self.queue_order@ =~= marked);
        assert(pre.order.index_of(id) == at) by {
            assert(pre.order.contains(id));
        }
        let _ = self.queue.remove(id - 1);
        proof {
            lemma_removed(pre.queue, id - 1);
        }
        if self.queue_order[0] == 0 {
            let _ = self.queue_order.pop_front();
            assert(self.queue_order@ =~= marked.skip(1));
        }
    }

    /// The peer acknowledges a packet: the oldest one that waits, or else the
    /// acknowledgement is refused.
    ///
    /// The request that waits for the acknowledgement gets it, and one request
    /// that waits for credit is told to go on.
    pub fn pkt_ack(&mut self, pkt: Ack) -> (r: Result<(), ProtocolError>)
        requires
            old(self).wf(),
        ensures
            final(self).wf(),
            SinkState::ack_step(old(self)@, pkt, final(self)@, r),
    {
        let ghost pre = self@;
        let ghost n = leading_zeros(pre.order) as int;
        proof {
            lemma_leading_zeros(pre.order);
            assert(pre.order.skip(0) =~= pre.order);
        }
        let id = pkt.packet_id();
        loop
            invariant
                pre == old(self)@,
                pre.wf(),
                n == leading_zeros(pre.order),
                n <= pre.order.len(),
                n < pre.order.len() ==> pre.order[n] != 0,
                forall|i: int| 0 <= i < n ==> pre.order[i] == 0,
                self@ == (SinkState { order: self@.order, ..pre }),
                self@.order.len() <= pre.order.len(),
                self@.order == pre.order.skip(pre.order.len() - self@.order.len()),
                pre.order.len() - self@.order.len() <= n,
                id == pkt.id(),
                id != 0,
            decreases self@.order.len(),
        {
            let ghost at = pre.order.len() - self@.order.len();
            // check ack order
            if let Some(idx) = self.queue_order.pop_front() {
                assert(self.queue_order@ =~= pre.order.skip(at + 1));
                assert(idx == pre.order[at]);
                // errored publish
                if idx == 0 {
                    continue;
                }
                assert(at == n);
                proof {
                    lemma_skip_wf(pre, n + 1);
                }
                if idx == id {
                    assert(pre.is_in_flight(pre.order[n]));
                    let ghost mid = self@;
                    let (tx, tp) = self.queue.remove(id - 1);
                    proof {
                        lemma_removed(pre.queue, id - 1);
                        lemma_remove_wf(mid, id, self@);
                    }
                    if !pkt.is_match(tp) {
                        return Err(ProtocolError::Unexpected(pkt.packet_type(), tp.name()));
                    }
                    notify(tx, pkt, &mut self.acked);

                    // wake up queued request (receive max limit)
                    self.wake();
                    return Ok(());
                }
            } else {
                assert(pre.order.len() == n);
                assert(self@.order =~= Seq::empty());
            }
            return Err(ProtocolError::PacketIdMismatch);
        }
    }

    /// Tells the requests that wait for credit to go on, up to the first that
    /// is still there.
    fn wake(&mut self)
        requires
            old(self).wf(),
        ensures
            final(self).wf(),
            wakes(old(self)@.waiters, old(self)@.woken, final(self)@.waiters, final(self)@.woken),
            final(self)@ == (SinkState {
                waiters: final(self)@.waiters,
                woken: final(self)@.woken,
                ..old(self)@
            }),
    {
        let ghost pre = self@;
        assert(pre.waiters.skip(0) =~= pre.waiters);
        assert(pre.woken.take(pre.woken.len() as int) =~= pre.woken);
        loop
            invariant_except_break
                self@ == (SinkState { waiters: self@.waiters, woken: self@.woken, ..pre }),
                pre.woken.len() <= self@.woken.len() <= pre.woken.len() + pre.waiters.len(),
                self@.waiters == pre.waiters.skip(self@.woken.len() - pre.woken.len()),
                self@.woken.take(pre.woken.len() as int) == pre.woken,
                forall|i: int|
                    0 <= i < self@.woken.len() - pre.woken.len() ==> (#[trigger] self@.woken[
                    pre.woken.len() + i]).to == pre.waiters[i],
                forall|i: int|
                    0 <= i < self@.woken.len() - pre.woken.len() ==> !(#[trigger] self@.woken[
                    pre.woken.len() + i]).accepted,
            ensures
                wakes(pre.waiters, pre.woken, self@.waiters, self@.woken),
                self@ == (SinkState { waiters: self@.waiters, woken: self@.woken, ..pre }),
            decreases self@.waiters.len(),
        {
            let ghost mid = self@;
            if let Some(tx) = self.waiters.pop_front() {
                assert(self.waiters@ =~= pre.waiters.skip(
                    mid.woken.len() - pre.woken.len() + 1,
                ));
                let accepted = notify(tx, (), &mut self.woken);
                assert(self@.woken.take(pre.woken.len() as int) =~= mid.woken.take(
                    pre.woken.len() as int,
                ));
                assert forall|i: int| 0 <= i < self@.woken.len() - pre.woken.len() implies (
                #[trigger] self@.woken[pre.woken.len() + i]).to == pre.waiters[i] by {
                    if i < mid.woken.len() - pre.woken.len() {
                        assert(mid.woken[pre.woken.len() + i].to == pre.waiters[i]);
                    }
                }
                assert forall|i: int| 0 <= i < self@.woken.len() - pre.woken.len() - 1 implies !(
                #[trigger] self@.woken[pre.woken.len() + i]).accepted by {
                    assert(!mid.woken[pre.woken.len() + i].accepted);
                }
                if accepted {
                    break;
                }
            } else {
                break;
            }
        }
    }

    /// Create publish packet builder
    pub fn publish(&self, topic: String, payload: Bytes) -> (r: PublishBuilder)
        ensures
            r@.topic == topic,
            r@.payload == payload,
            r@.qos == QoS::AtMostOnce,
            r@.packet_id is None,
            !r@.dup,
            !r@.retain,
            r@.properties.is_empty(),
    {
        PublishBuilder::new(topic, payload)
    }

    /// Create subscribe packet builder
    pub fn subscribe(&self, id: Option<NonZeroU32>) -> (r: SubscribeBuilder)
        ensures
            r@.id == id,
            r@.packet_id@ == 1,
            r@.user_properties@ == Seq::<(String, String)>::empty(),
            r@.topic_filters@ == Seq::<(String, SubscriptionOptions)>::empty(),
    {
        SubscribeBuilder::new(id)
    }

    /// Create unsubscribe packet builder
    pub fn unsubscribe(&self) -> (r: UnsubscribeBuilder)
        ensures
            r@.packet_id@ == 1,
            r@.user_properties@ == Seq::<(String, String)>::empty(),
            r@.topic_filters@ == Seq::<String>::empty(),
    {
        UnsubscribeBuilder::new()
    }

    /// Hands a publish packet to the encoder that the peer does not
    /// acknowledge. `None` where it did not reach the encoder.
    pub(crate) fn publish_at_most_once(&mut self, packet: Publish) -> (r: Option<
        pool::Receiver<Info>,
    >)
        requires
            old(self).wf(),
        ensures
            final(self).wf(),
            SinkState::at_most_once_step(
                old(self)@,
                Packet::Publish(packet),
                final(self)@,
                r,
            ),
    {
        let ghost pre = self@;
        // encoder notification channel
        let (info_tx, info_rx) = open(&self.pool.info);
        let ghost item = (info_tx, 0usize);
        let note = self.info.insert((info_tx, 0)) + 1;
        proof {
            lemma_inserted(pre.info, item);
            lemma_same_queue_wf(pre, self@);
        }
        if self.dispatch(Packet::Publish(packet), note) {
            Some(info_rx)
        } else {
            None
        }
    }

    /// Enters the queue of those that wait for credit.
    pub(crate) fn wait(&mut self) -> (r: pool::Receiver<()>)
        requires
            old(self).wf(),
        ensures
            final(self).wf(),
            SinkState::wait_step(old(self)@, final(self)@, r),
    {
        let ghost pre = self@;
        let (tx, rx) = open(&self.pool.waiters);
        self.waiters.push_back(tx);
        proof {
            lemma_same_queue_wf(pre, self@);
        }
        rx
    }

    /// Gives the request that is acknowledged by a packet of type `tp` the
    /// next identifier, and opens its channels. `None` where the identifier
    /// has more than two bytes. There has to be credit.
    pub(crate) fn register(&mut self, tp: AckType) -> (r: Option<Ticket>)
        requires
            old(self).wf(),
            old(self)@.in_flight() < old(self)@.cap,
        ensures
            final(self).wf(),
            match r {
                Some(ticket) => {
                    let pre = old(self)@;
                    let id = pre.next_id();
                    let tx = final(self)@.queue.at(id - 1).0;
                    let info_tx = final(self)@.info.at(ticket.note - 1).0;
                    &&& id <= u16::MAX
                    &&& ticket.packet_id@ == id
                    &&& ticket.note == pre.info.next_key() + 1
                    &&& tx.origin() == pre.pool.queue
                    &&& tx.peer() == ticket.ack
                    &&& info_tx.origin() == pre.pool.info
                    &&& info_tx.peer() == ticket.info
                    &&& final(self)@ == (SinkState {
                        queue: pre.queue.inserted((tx, tp)),
                        order: pre.order.push(id as usize),
                        info: pre.info.inserted((info_tx, id as usize)),
                        ..pre
                    })
                },
                None => {
                    &&& old(self)@.next_id() > u16::MAX
                    &&& final(self)@ == (SinkState {
                        queue: old(self)@.queue.touched(),
                        ..old(self)@
                    })
                },
            },
    {
        let ghost pre = self@;
        // ack channel
        let (tx, ack) = open(&self.pool.queue);

        // allocate packet id
        let ghost item = (tx, tp);
        let idx = self.queue.insert((tx, tp)) + 1;
        proof {
            lemma_inserted(pre.queue, item);
        }
        if idx > u16::MAX as usize {
            let _ = self.queue.remove(idx - 1);
            proof {
                lemma_removed(pre.queue.inserted(item), idx - 1);
                assert(self@.queue.occupied =~= pre.queue.occupied);
                assert(self@.queue.vacant =~= pre.queue.touched().vacant);
                lemma_touched_wf(pre, self@);
            }
            return None;
        }
        self.queue_order.push_back(idx);
        let packet_id = match NonZeroU16::new(idx as u16) {
            Some(packet_id) => packet_id,
            None => vstd::pervasive::unreached(),
        };

        // encoder channel (item written/encoder error)
        let (info_tx, info) = open(&self.pool.info);
        let ghost info_item = (info_tx, idx);
        let note = self.info.insert((info_tx, idx)) + 1;
        proof {
            lemma_inserted(pre.info, info_item);
            lemma_push_wf(pre, self@);
        }
        Some(Ticket { packet_id, note, info, ack })
    }

    /// Hands a packet to the encoder, which reports it under the number
    /// `note`. False where the encoder is gone.
    pub(crate) fn dispatch(&mut self, packet: Packet, note: usize) -> (r: bool)
        requires
            old(self).wf(),
        ensures
            final(self).wf(),
            final(self)@ == (SinkState { sent: final(self)@.sent, ..old(self)@ }),
            match old(self)@.sink {
                Some(tx) => {
                    &&& recorded(old(self)@.sent, final(self)@.sent, tx, (packet, note))
                    &&& r == final(self)@.sent.last().accepted
                },
                None => !r && final(self)@.sent == old(self)@.sent,
            },
    {
        let ghost pre = self@;
        let r = match &self.sink {
            Some(tx) => post(tx, (packet, note), &mut self.sent),
            None => false,
        };
        proof {
            lemma_same_queue_wf(pre, self@);
        }
        r
    }
}

} // verus!
