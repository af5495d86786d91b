//! The broadcast hub: events are fanned out to every session through a
//! bounded multi-consumer channel. Publishing is fire-and-forget; a
//! publish with no subscribers is not an error.

use vstd::prelude::*;
use crate::messages::ServerMessage;

verus! {

/// Backlog capacity of the hub: how many outstanding events a slow
/// subscriber may lag behind before it forfeits the oldest ones.
pub const BROADCAST_CAPACITY: usize = 1024;

#[verifier::external_type_specification]
#[verifier::external_body]
#[verifier::reject_recursive_types(T)]
pub struct ExSender<T>(tokio::sync::broadcast::Sender<T>);

/// Relies on tokio's broadcast `Sender::send`: it is non-blocking and
/// delivers the event to the backlog of every current subscriber. Its
/// only error — no subscriber at this moment — is discarded on purpose:
/// delivery is fire-and-forget and must never fail the publisher.
#[verifier::external_body]
pub(crate) fn publish(tx: &tokio::sync::broadcast::Sender<ServerMessage>, event: ServerMessage) {
    let _ = tx.send(event);
}

} // verus!
