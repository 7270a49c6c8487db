//! Types of other crates that this library stores and hands on.
//!
//! All but `Either` are opaque: nothing is known of what is inside a value.
use vstd::prelude::*;

verus! {

/// `bytes::Bytes`, the payload of a publish packet.
#[verifier::external_type_specification]
#[verifier::external_body]
pub struct ExBytes(bytes::Bytes);

/// `slab::Slab`, storage that chooses the key of each stored value.
#[verifier::external_type_specification]
#[verifier::external_body]
#[verifier::reject_recursive_types(T)]
pub struct ExSlab<T>(slab::Slab<T>);

/// `ntex::channel::pool::Pool`, a factory of one-shot channels.
#[verifier::external_type_specification]
#[verifier::external_body]
#[verifier::reject_recursive_types(T)]
pub struct ExPool<T>(ntex::channel::pool::Pool<T>);

/// `ntex::channel::pool::Sender`, the sending end of a one-shot channel.
#[verifier::external_type_specification]
#[verifier::external_body]
#[verifier::reject_recursive_types(T)]
pub struct ExPoolSender<T>(ntex::channel::pool::Sender<T>);

/// `ntex::channel::pool::Receiver`, the receiving end of a one-shot channel.
#[verifier::external_type_specification]
#[verifier::external_body]
#[verifier::reject_recursive_types(T)]
pub struct ExPoolReceiver<T>(ntex::channel::pool::Receiver<T>);

/// `ntex::channel::Canceled`, what a receiver yields when its sender is gone.
#[verifier::external_type_specification]
#[verifier::external_body]
pub struct ExCanceled(ntex::channel::Canceled);

/// `ntex::channel::mpsc::Sender`, the way to the connection's encoder.
#[verifier::external_type_specification]
#[verifier::external_body]
#[verifier::reject_recursive_types(T)]
pub struct ExMpscSender<T>(ntex::channel::mpsc::Sender<T>);

/// `ntex::connect::ConnectError`, why a connection could not be opened.
#[verifier::external_type_specification]
#[verifier::external_body]
pub struct ExConnectError(ntex::connect::ConnectError);

/// `std::io::Error`.
#[verifier::external_type_specification]
#[verifier::external_body]
pub struct ExIoError(std::io::Error);

/// `either::Either`, with its two public variants.
#[verifier::external_type_specification]
pub struct ExEither<L, R>(either::Either<L, R>);

} // verus!
