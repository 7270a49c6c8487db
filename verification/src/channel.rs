//! Channels, and a record of what was handed to them.
//!
//! A one-shot channel is opened from a pool. Its sending end is kept in a
//! `Tx`, which remembers for the contracts the pool that it was opened from
//! and the receiver at its other end. The way to the encoder is kept in a
//! `Wire`. Neither gives away the sender inside, so whatever is sent goes
//! through `notify` or `post`, and each of them enters it in a `Journal`.
//!
//! A journal exists for the contracts only and holds nothing when the program
//! runs. No other function adds to it, so an entry stands for a call that was
//! made. And journals come only with the wire that `attach` makes of a sender,
//! one of each kind: who holds the wire has no other journal to send by, so a
//! call that was made stands in the journals that came with it.
use ntex::channel::{mpsc, pool};
use vstd::prelude::*;

use crate::ack::{Ack, Info};
use crate::state::Item;

verus! {

/// The sending end of a one-shot channel.
#[verifier::reject_recursive_types(T)]
pub struct Tx<T> {
    inner: pool::Sender<T>,
    origin: Ghost<pool::Pool<T>>,
    peer: Ghost<pool::Receiver<T>>,
}

impl<T> Tx<T> {
    /// The pool that the channel was opened from.
    pub closed spec fn origin(self) -> pool::Pool<T> {
        self.origin@
    }

    /// The receiver that the channel was opened with.
    pub closed spec fn peer(self) -> pool::Receiver<T> {
        self.peer@
    }
}

/// Creates a pool with `ntex::channel::pool::new`.
///
/// Nothing is claimed of the result, a pool with no channel open.
#[verifier::external_body]
pub(crate) fn new_pool<T>() -> pool::Pool<T> {
    pool::new()
}

/// Opens a one-shot channel with `ntex::channel::pool::Pool::channel`.
///
/// Claims that the call was made on this pool, and that the receiver is the
/// other end of the sender: the two share one slot of the pool. Which slot that
/// is depends on the channels that are open, and is left open.
#[verifier::external_body]
pub(crate) fn open<T>(origin: &pool::Pool<T>) -> (r: (Tx<T>, pool::Receiver<T>))
    ensures
        r.0.origin() == *origin,
        r.0.peer() == r.1,
{
    let (inner, rx) = origin.channel();
    (Tx { inner, origin: Ghost(*origin), peer: Ghost(rx) }, rx)
}

/// One message that was handed to a channel.
pub struct Entry<S, M> {
    /// The sending end.
    pub to: S,
    /// The message.
    pub message: M,
    /// The channel took the message: its receiver was still there.
    pub accepted: bool,
}

/// The entry for `message`, handed to `to`.
pub open spec fn entry<S, M>(to: S, message: M, accepted: bool) -> Entry<S, M> {
    Entry { to, message, accepted }
}

/// The messages that were handed to channels of one kind, oldest first.
pub struct Journal<S, M> {
    entries: Ghost<Seq<Entry<S, M>>>,
}

impl<S, M> Journal<S, M> {
    /// The entries, oldest first.
    pub closed spec fn view(&self) -> Seq<Entry<S, M>> {
        self.entries@
    }

    /// A journal with no entry. Only `attach` may make one.
    fn new() -> (r: Journal<S, M>)
        ensures
            r@ == Seq::<Entry<S, M>>::empty(),
    {
        Journal { entries: Ghost(Seq::empty()) }
    }
}

/// The sending end of the way to the encoder.
#[verifier::reject_recursive_types(T)]
pub struct Wire<T> {
    inner: mpsc::Sender<T>,
}

impl<T> Wire<T> {
    /// The sender inside.
    pub closed spec fn sender(self) -> mpsc::Sender<T> {
        self.inner
    }
}

/// A way to the encoder, with the journals for all that is sent by whoever
/// holds it.
pub(crate) struct Link {
    /// The way to the encoder.
    pub wire: Wire<Item>,
    /// What is handed to the encoder.
    pub sent: Journal<mpsc::Sender<Item>, Item>,
    /// The reports of the encoder that are passed on.
    pub told: Journal<Tx<Info>, Info>,
    /// The acknowledgements that are passed on.
    pub acked: Journal<Tx<Ack>, Ack>,
    /// The requests that are told of credit.
    pub woken: Journal<Tx<()>, ()>,
}

/// Keeps a sender, and starts the journals.
pub(crate) fn attach(sink: mpsc::Sender<Item>) -> (r: Link)
    ensures
        r.wire.sender() == sink,
        r.sent@ == Seq::<Entry<mpsc::Sender<Item>, Item>>::empty(),
        r.told@ == Seq::<Entry<Tx<Info>, Info>>::empty(),
        r.acked@ == Seq::<Entry<Tx<Ack>, Ack>>::empty(),
        r.woken@ == Seq::<Entry<Tx<()>, ()>>::empty(),
{
    Link {
        wire: Wire { inner: sink },
        sent: Journal::new(),
        told: Journal::new(),
        acked: Journal::new(),
        woken: Journal::new(),
    }
}

/// Sends `message` with `ntex::channel::pool::Sender::send`.
///
/// Claims that the call handed this message to this sending end, which the
/// journal records, and that the result is true exactly where the call
/// returned `Ok`. Whether it does depends on the receiver being there still,
/// and is left open.
#[verifier::external_body]
pub(crate) fn notify<T>(tx: Tx<T>, message: T, journal: &mut Journal<Tx<T>, T>) -> (accepted: bool)
    ensures
        final(journal)@ == old(journal)@.push(entry(tx, message, accepted)),
{
    tx.inner.send(message).is_ok()
}

/// Sends `item` with `ntex::channel::mpsc::Sender::send`.
///
/// Claims that the call handed this item to this sender, which the journal
/// records, and that the result is true exactly where the call returned `Ok`.
/// Whether it does depends on the receiver being there still, and is left
/// open.
#[verifier::external_body]
pub(crate) fn post<T>(
    tx: &Wire<T>,
    item: T,
    journal: &mut Journal<mpsc::Sender<T>, T>,
) -> (accepted: bool)
    ensures
        final(journal)@ == old(journal)@.push(entry(tx.sender(), item, accepted)),
{
    tx.inner.send(item).is_ok()
}

} // verus!
