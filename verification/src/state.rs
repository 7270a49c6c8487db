//! What the sink holds, as a mathematical value, and what each of its
//! operations does to that value.
use ntex::channel::{mpsc, pool};
use vstd::prelude::*;

use crate::ack::{Ack, AckType, Info};
use crate::channel::{entry, Entry, Tx};
use crate::codec::Packet;
use crate::error::{EncodeError, ProtocolError};
use crate::sink::{MqttSinkPool, Step};
use crate::table::Slots;

verus! {

/// A packet for the encoder, with the number under which the encoder reports
/// what became of it, or zero where no report is wanted.
pub type Item = (Packet, usize);

/// What becomes of a request that finds credit.
pub enum Outcome {
    /// It went to the encoder, with the receivers for what comes back.
    Sent { info: pool::Receiver<Info>, ack: pool::Receiver<Ack> },
    /// There is no identifier for it.
    NotAvailable,
    /// The encoder is gone.
    Disconnected,
}

/// The contents of a sink.
pub struct SinkState {
    /// Number of requests that may wait for an acknowledgement at a time.
    pub cap: nat,
    /// The pools that channels are opened from.
    pub pool: MqttSinkPool,
    /// The way to the encoder, until the connection is closed.
    pub sink: Option<mpsc::Sender<Item>>,
    /// For each packet that the encoder has not reported yet, under the number
    /// of the report less one: where the report goes, and the identifier of
    /// the packet, or zero.
    pub info: Slots<(Tx<Info>, usize)>,
    /// For each packet in flight, under its identifier less one: where its
    /// acknowledgement goes, and of which type that is.
    pub queue: Slots<(Tx<Ack>, AckType)>,
    /// Identifiers in the order in which they were sent, with zero in the
    /// place of one that could not be encoded.
    pub order: Seq<usize>,
    /// Requests that wait for credit, oldest first.
    pub waiters: Seq<Tx<()>>,
    /// What was handed to the encoder.
    pub sent: Seq<Entry<mpsc::Sender<Item>, Item>>,
    /// The reports of the encoder that were passed on.
    pub told: Seq<Entry<Tx<Info>, Info>>,
    /// The acknowledgements that were passed on.
    pub acked: Seq<Entry<Tx<Ack>, Ack>>,
    /// The requests that were told that there is credit.
    pub woken: Seq<Entry<Tx<()>, ()>>,
}

/// `post` is `pre` with one entry more, for `message`, handed to `to`.
pub open spec fn recorded<S, M>(
    pre: Seq<Entry<S, M>>,
    post: Seq<Entry<S, M>>,
    to: S,
    message: M,
) -> bool {
    post == pre.push(entry(to, message, post.last().accepted))
}

/// Holds of every identifier, and not of what stands for a packet that could
/// not be encoded.
pub open spec fn nonzero() -> spec_fn(usize) -> bool {
    |id: usize| id != 0
}

/// The identifiers in `order` that wait for an acknowledgement.
pub open spec fn live(order: Seq<usize>) -> Seq<usize> {
    order.filter(nonzero())
}

/// Number of zeros that `order` starts with.
pub open spec fn leading_zeros(order: Seq<usize>) -> nat
    decreases order.len(),
{
    if order.len() == 0 || order[0] != 0 {
        0
    } else {
        1 + leading_zeros(order.skip(1))
    }
}

/// `order` after the packet `id` in it could not be encoded: zero takes its
/// place, and one zero in front is dropped.
pub open spec fn withdrawn(order: Seq<usize>, id: usize) -> Seq<usize> {
    let marked = order.update(order.index_of(id), 0);
    if marked[0] == 0 {
        marked.skip(1)
    } else {
        marked
    }
}

/// Waiting requests are told of credit, oldest first, up to and including the
/// first that is still there.
pub open spec fn wakes(
    waiters: Seq<Tx<()>>,
    woken: Seq<Entry<Tx<()>, ()>>,
    post_waiters: Seq<Tx<()>>,
    post_woken: Seq<Entry<Tx<()>, ()>>,
) -> bool {
    let n = post_woken.len() - woken.len();
    &&& 0 <= n <= waiters.len()
    &&& post_waiters == waiters.skip(n)
    &&& post_woken.take(woken.len() as int) == woken
    &&& forall|i: int|
        0 <= i < n ==> (#[trigger] post_woken[woken.len() + i]).to == waiters[i]
    &&& forall|i: int| 0 <= i < n - 1 ==> !(#[trigger] post_woken[woken.len() + i]).accepted
    &&& n < waiters.len() ==> n > 0 && post_woken.last().accepted
}

impl SinkState {
    /// A sink that was not used yet.
    pub open spec fn initial(
        sink: mpsc::Sender<Item>,
        cap: nat,
        pool: MqttSinkPool,
    ) -> SinkState {
        SinkState {
            cap,
            pool,
            sink: Some(sink),
            info: Slots::empty(),
            queue: Slots::empty(),
            order: Seq::empty(),
            waiters: Seq::empty(),
            sent: Seq::empty(),
            told: Seq::empty(),
            acked: Seq::empty(),
            woken: Seq::empty(),
        }
    }

    /// The connection is not closed.
    pub open spec fn is_open(self) -> bool {
        self.sink is Some
    }

    /// Number of packets in flight.
    pub open spec fn in_flight(self) -> nat {
        self.queue.len()
    }

    /// The identifiers that wait for an acknowledgement, oldest first.
    pub open spec fn pending(self) -> Seq<usize> {
        live(self.order)
    }

    /// The requests that ever waited for credit, oldest first: those that were
    /// told of some, and then those that wait still.
    pub open spec fn line(self) -> Seq<Tx<()>> {
        self.woken.map_values(|e: Entry<Tx<()>, ()>| e.to) + self.waiters
    }

    /// The packet `id` is in flight.
    pub open spec fn is_in_flight(self, id: usize) -> bool {
        self.queue.contains(id - 1)
    }

    /// The encoder has a packet to report under the number `idx`.
    pub open spec fn awaits_report(self, idx: usize) -> bool {
        self.info.contains(idx - 1)
    }

    /// The identifier that the next request gets.
    pub open spec fn next_id(self) -> nat {
        self.queue.next_key() + 1
    }

    /// Identifiers have two bytes. One slot more than there are identifiers
    /// can be open, after a request found none; it is the last one to be taken.
    pub open spec fn has_slots_for_identifiers(self) -> bool {
        &&& self.queue.opened() <= u16::MAX + 1
        &&& self.queue.opened() == u16::MAX + 1 ==> self.queue.vacant.len() > 0
            && self.queue.vacant[0] == u16::MAX
    }

    /// No more packets are in flight than the limit allows. Each identifier
    /// that waits for an acknowledgement is that of a packet in flight, and no
    /// two are the same.
    pub open spec fn wf(self) -> bool {
        &&& self.info.wf()
        &&& self.queue.wf()
        &&& self.has_slots_for_identifiers()
        &&& self.in_flight() <= self.cap
        &&& forall|i: int|
            0 <= i < self.order.len() && (#[trigger] self.order[i]) != 0 ==> self.is_in_flight(
                self.order[i],
            )
        &&& forall|i: int, j: int|
            0 <= i < j < self.order.len() && (#[trigger] self.order[i]) != 0 ==> self.order[i] != (
            #[trigger] self.order[j])
    }

    /// `packet` goes to the encoder with no report wanted, unless the
    /// connection is closed.
    pub open spec fn send_step(pre: SinkState, packet: Packet, post: SinkState) -> bool {
        match pre.sink {
            Some(tx) => {
                &&& recorded(pre.sent, post.sent, tx, (packet, 0))
                &&& post == (SinkState { sent: post.sent, ..pre })
            },
            None => post == pre,
        }
    }

    /// As `send_step`, and the connection is closed.
    pub open spec fn last_step(pre: SinkState, packet: Packet, post: SinkState) -> bool {
        match pre.sink {
            Some(tx) => {
                &&& recorded(pre.sent, post.sent, tx, (packet, 0))
                &&& post == (SinkState { sink: None, sent: post.sent, ..pre })
            },
            None => post == pre,
        }
    }

    /// The encoder reports that it wrote the packet number `idx`.
    pub open spec fn written_step(pre: SinkState, idx: usize, post: SinkState) -> bool {
        &&& pre.awaits_report(idx)
        &&& recorded(pre.told, post.told, pre.info.at(idx - 1).0, Info::Written)
        &&& post == (SinkState { info: pre.info.removed(idx - 1), told: post.told, ..pre })
    }

    /// The encoder reports that it could not encode the packet number `idx`. A
    /// packet that waits for an acknowledgement does so no longer.
    pub open spec fn encode_err_step(
        pre: SinkState,
        idx: usize,
        err: EncodeError,
        post: SinkState,
    ) -> bool {
        let (tx, id) = pre.info.at(idx - 1);
        let told = SinkState { info: pre.info.removed(idx - 1), told: post.told, ..pre };
        &&& pre.awaits_report(idx)
        &&& recorded(pre.told, post.told, tx, Info::Error(err))
        &&& post == if id != 0 && pre.order.contains(id) {
            SinkState {
                queue: pre.queue.removed(id - 1),
                order: withdrawn(pre.order, id),
                ..told
            }
        } else {
            told
        }
    }

    /// The peer acknowledges a packet. It has to be the oldest that waits, and
    /// the acknowledgement has to be of the type that is waited for.
    pub open spec fn ack_step(
        pre: SinkState,
        pkt: Ack,
        post: SinkState,
        r: Result<(), ProtocolError>,
    ) -> bool {
        let n = leading_zeros(pre.order) as int;
        let key = pkt.id() - 1;
        let (tx, tp) = pre.queue.at(key);
        &&& pkt.id() != 0
        &&& if n == pre.order.len() {
            &&& r == Err::<(), ProtocolError>(ProtocolError::PacketIdMismatch)
            &&& post == (SinkState { order: Seq::empty(), ..pre })
        } else if pre.order[n] != pkt.id() {
            &&& r == Err::<(), ProtocolError>(ProtocolError::PacketIdMismatch)
            &&& post == (SinkState { order: pre.order.skip(n + 1), ..pre })
        } else if tp != pkt.kind() {
            &&& r matches Err(ProtocolError::Unexpected(byte, name))
            &&& byte == pkt.first_byte()
            &&& name@ == tp.label()
            &&& post == (SinkState {
                order: pre.order.skip(n + 1),
                queue: pre.queue.removed(key),
                ..pre
            })
        } else {
            &&& r == Ok::<(), ProtocolError>(())
            &&& recorded(pre.acked, post.acked, tx, pkt)
            &&& wakes(pre.waiters, pre.woken, post.waiters, post.woken)
            &&& post == (SinkState {
                order: pre.order.skip(n + 1),
                queue: pre.queue.removed(key),
                acked: post.acked,
                waiters: post.waiters,
                woken: post.woken,
                ..pre
            })
        }
    }

    /// A publish packet that is not acknowledged goes to the encoder, unless
    /// the connection is closed. `rx` gets the encoder's report of it, or is
    /// `None` where the packet did not reach the encoder.
    pub open spec fn at_most_once_step(
        pre: SinkState,
        packet: Packet,
        post: SinkState,
        rx: Option<pool::Receiver<Info>>,
    ) -> bool {
        let key = pre.info.next_key();
        let tx = post.info.at(key as int).0;
        &&& key < usize::MAX
        &&& tx.origin() == pre.pool.info
        &&& post == (SinkState { info: pre.info.inserted((tx, 0)), sent: post.sent, ..pre })
        &&& match pre.sink {
            Some(sink) => {
                &&& recorded(pre.sent, post.sent, sink, (packet, (key + 1) as usize))
                &&& match rx {
                    Some(rx) => post.sent.last().accepted && tx.peer() == rx,
                    None => !post.sent.last().accepted,
                }
            },
            None => rx is None && post.sent == pre.sent,
        }
    }

    /// A request enters the queue of those that wait for credit; `wake` tells
    /// when there is some.
    pub open spec fn wait_step(
        pre: SinkState,
        post: SinkState,
        wake: pool::Receiver<()>,
    ) -> bool {
        let tx = post.waiters.last();
        &&& tx.origin() == pre.pool.waiters
        &&& tx.peer() == wake
        &&& post == (SinkState { waiters: pre.waiters.push(tx), ..pre })
    }

    /// The connection is open and there is credit: a request that is
    /// acknowledged by a packet of type `tp` gets an identifier and goes to the
    /// encoder. Identifiers have two bytes: where the next one has more, there
    /// is none for the request.
    pub open spec fn request_step(
        pre: SinkState,
        tp: AckType,
        post: SinkState,
        outcome: Outcome,
    ) -> bool {
        let id = pre.next_id();
        let note = pre.info.next_key() + 1;
        let tx = post.queue.at(id - 1).0;
        let info_tx = post.info.at(note - 1).0;
        let last = post.sent.last();
        &&& pre.is_open()
        &&& pre.in_flight() < pre.cap
        &&& if id > u16::MAX {
            &&& outcome == Outcome::NotAvailable
            &&& post == (SinkState { queue: pre.queue.touched(), ..pre })
        } else {
            &&& note <= usize::MAX
            &&& tx.origin() == pre.pool.queue
            &&& info_tx.origin() == pre.pool.info
            &&& recorded(pre.sent, post.sent, pre.sink->0, (last.message.0, note as usize))
            &&& post == (SinkState {
                queue: pre.queue.inserted((tx, tp)),
                order: pre.order.push(id as usize),
                info: pre.info.inserted((info_tx, id as usize)),
                sent: post.sent,
                ..pre
            })
            &&& match outcome {
                Outcome::Sent { info, ack } => {
                    &&& last.accepted
                    &&& info_tx.peer() == info
                    &&& tx.peer() == ack
                },
                Outcome::Disconnected => !last.accepted,
                Outcome::NotAvailable => false,
            }
        }
    }

    /// As `request_step`, where `step` tells the outcome: the request fails
    /// with `not_available` where there is no identifier for it, and with
    /// `disconnected` where the encoder is gone.
    pub open spec fn request_returns<B, E>(
        pre: SinkState,
        tp: AckType,
        post: SinkState,
        step: Step<B, E>,
        not_available: E,
        disconnected: E,
    ) -> bool {
        &&& !(step is Wait)
        &&& step matches Step::Failed(e) ==> e == not_available || e == disconnected
        &&& SinkState::request_step(pre, tp, post, step.outcome(not_available))
    }

    /// The packet that was handed to the encoder last.
    pub open spec fn last_packet(self) -> Packet {
        self.sent.last().message.0
    }
}

} // verus!
