use std::sync::mpsc::{Receiver, Sender, TryRecvError};
use vstd::prelude::*;

use crate::messenger::{Package, Polled};

verus! {

#[verifier::external_type_specification]
#[verifier::external_body]
#[verifier::reject_recursive_types(T)]
pub struct ExSender<T>(Sender<T>);

#[verifier::external_type_specification]
#[verifier::external_body]
#[verifier::reject_recursive_types(T)]
pub struct ExReceiver<T>(Receiver<T>);

/// Relies on `mpsc::Sender::send`: it hands the item to the channel, and
/// fails only when the receiving side is gone. Which of the two happens
/// depends on another thread, so nothing is promised about the outcome.
#[verifier::external_body]
pub(crate) fn send_item<T>(endpoint: &Sender<T>, item: T) -> (delivered: bool) {
    endpoint.send(item).is_ok()
}

/// Relies on `mpsc::Receiver::try_iter`: it takes every package that is
/// already queued, without blocking. How many there are depends on other
/// threads.
#[verifier::external_body]
pub(crate) fn take_queued(endpoint: &Receiver<Package>) -> (queued: Vec<Package>) {
    endpoint.try_iter().collect()
}

/// Relies on `mpsc::Receiver::try_recv`: one package, or word that none is
/// queued, or that every sending side is gone.
#[verifier::external_body]
pub(crate) fn poll_package(endpoint: &Receiver<Package>) -> (polled: Polled) {
    match endpoint.try_recv() {
        Ok(package) => Polled::Ready(package),
        Err(TryRecvError::Empty) => Polled::Empty,
        Err(TryRecvError::Disconnected) => Polled::Closed,
    }
}

/// Relies on `mpsc::Receiver::recv`: blocks until a package arrives, or
/// returns `None` once every sending side is gone.
#[verifier::external_body]
pub(crate) fn wait_package(endpoint: &Receiver<Package>) -> (received: Option<Package>) {
    endpoint.recv().ok()
}

} // verus!
