//! The pieces of the tokio runtime that the library builds on.
//!
//! Nothing here is proved. Each item states what the library relies on; the
//! rest of the crate is verified against these statements.

use vstd::prelude::*;
use std::sync::Arc;
use tokio::sync::mpsc::{Receiver, Sender};
use tokio::sync::RwLock;
use tokio::task::{JoinError, JoinHandle};
use crate::event::{Event, Mode};

verus! {

/// `tokio::sync::mpsc::Sender`: the sending end of a bounded channel.
#[verifier::external_type_specification]
#[verifier::external_body]
#[verifier::reject_recursive_types(T)]
pub struct ExSender<T>(Sender<T>);

/// `tokio::sync::mpsc::Receiver`: the receiving end of a bounded channel.
#[verifier::external_type_specification]
#[verifier::external_body]
#[verifier::reject_recursive_types(T)]
pub struct ExReceiver<T>(Receiver<T>);

/// `tokio::task::JoinHandle`: the handle by which a spawned task is awaited.
#[verifier::external_type_specification]
#[verifier::external_body]
#[verifier::reject_recursive_types(T)]
pub struct ExJoinHandle<T>(JoinHandle<T>);

/// `tokio::task::JoinError`: why a spawned task did not finish.
#[verifier::external_type_specification]
#[verifier::external_body]
pub struct ExJoinError(JoinError);

/// `tokio::sync::RwLock`: the lock behind which the shared mode lives.
#[verifier::external_type_specification]
#[verifier::external_body]
#[verifier::reject_recursive_types(T)]
pub struct ExRwLock<T: ?Sized>(RwLock<T>);

/// Calls `tokio::sync::mpsc::channel`, which panics on a capacity of zero and
/// on one above `usize::MAX >> 3`; both are excluded here. Nothing is claimed
/// of the two ends it returns.
#[verifier::external_body]
pub(crate) fn event_channel(capacity: usize) -> (ends: (Sender<Event>, Receiver<Event>))
    requires
        0 < capacity <= usize::MAX / 8,
{
    tokio::sync::mpsc::channel(capacity)
}

/// Calls `Clone::clone` of `tokio::sync::mpsc::Sender`. A sender is one
/// shared pointer to its channel, and the clone holds that same pointer: the
/// two are the same sending end, and what either sends arrives at the one
/// receiver.
#[verifier::external_body]
pub(crate) fn clone_sender(sender: &Sender<Event>) -> (copy: Sender<Event>)
    ensures
        copy == *sender,
{
    sender.clone()
}

/// Calls `tokio::sync::RwLock::new`. Nothing is claimed of the lock: what it
/// holds may change whenever another task writes to it.
#[verifier::external_body]
pub(crate) fn mode_lock(initial: Mode) -> (lock: RwLock<Mode>) {
    RwLock::new(initial)
}

/// Calls `Clone::clone` of `std::sync::Arc`, which returns another pointer to
/// the same allocation: the two point to the same lock.
#[verifier::external_body]
pub(crate) fn share_mode(mode: &Arc<RwLock<Mode>>) -> (copy: Arc<RwLock<Mode>>)
    ensures
        copy == *mode,
{
    Arc::clone(mode)
}

} // verus!
