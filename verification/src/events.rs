//! Events that reach the app from other threads.

use std::sync::atomic::AtomicBool;
use std::sync::Arc;

use tokio::sync::mpsc::error::TrySendError;
use vstd::prelude::*;

use crate::remote_agents::host::{
    attempt_to_take, RemoteAgentUpdate, RemoteAgentUpdateKind, RemoteHostKey,
};

verus! {

/// An event for the app.
#[derive(Debug)]
pub enum AppEvent {
    RemoteAgentsUpdated(Box<RemoteAgentUpdate>),
}

/// The sending half of a bounded tokio channel.
#[verifier::external_type_specification]
#[verifier::external_body]
#[verifier::reject_recursive_types(T)]
pub struct ExSender<T>(tokio::sync::mpsc::Sender<T>);

/// What became of an update that was offered to the app.
#[derive(Debug, PartialEq, Eq)]
pub enum Delivery {
    /// Another update for the host was still pending, and this one was not sent.
    Held,
    /// It was put in the channel.
    Sent,
    /// The channel was full.
    Full,
    /// The app is gone.
    Closed,
}

/// Puts an event in the channel of the app with `Sender::try_send`, which does not wait. Whether
/// there is room, and whether the receiving half is still there, depends on the other threads, so
/// nothing is claimed of which of the three outcomes comes back, nor of when the app takes an event
/// out of the channel.
#[verifier::external_body]
fn try_send(event_tx: &tokio::sync::mpsc::Sender<AppEvent>, event: AppEvent) -> (delivery: Delivery)
    ensures
        !(delivery is Held),
{
    match event_tx.try_send(event) {
        Ok(()) => Delivery::Sent,
        Err(TrySendError::Full(_)) => Delivery::Full,
        Err(TrySendError::Closed(_)) => Delivery::Closed,
    }
}

/// What can become of an update that is offered to the app. Its pending mark is claimed first. It is
/// held back where that fails; otherwise the claimed update is put in the channel, and what comes
/// back of that is what became of it.
pub closed spec fn can_become(
    host: RemoteHostKey,
    generation: u64,
    kind: RemoteAgentUpdateKind,
    pending: Arc<AtomicBool>,
    event_tx: tokio::sync::mpsc::Sender<AppEvent>,
    delivery: Delivery,
) -> bool {
    exists|update: Option<RemoteAgentUpdate>|
        {
            &&& #[trigger] call_ensures(
                RemoteAgentUpdate::claim,
                (host, generation, kind, &pending),
                update,
            )
            &&& match update {
                Some(update) => call_ensures(
                    try_send,
                    (&event_tx, AppEvent::RemoteAgentsUpdated(Box::new(update))),
                    delivery,
                ),
                None => delivery is Held,
            }
        }
}

/// An update is held back if and only if its pending mark could not be taken.
pub proof fn held_updates_are_those_not_claimed(
    host: RemoteHostKey,
    generation: u64,
    kind: RemoteAgentUpdateKind,
    pending: Arc<AtomicBool>,
    event_tx: tokio::sync::mpsc::Sender<AppEvent>,
    delivery: Delivery,
)
    requires
        can_become(host, generation, kind, pending, event_tx, delivery),
    ensures
        exists|outcome: Result<bool, bool>| #[trigger]
            attempt_to_take(pending, outcome) && (delivery is Held <==> outcome is Err),
{
}

/// Sends an update to the app, unless another one for its host is still pending there.
pub(crate) fn offer_update(
    host: &RemoteHostKey,
    generation: u64,
    kind: RemoteAgentUpdateKind,
    pending: &Arc<AtomicBool>,
    event_tx: &tokio::sync::mpsc::Sender<AppEvent>,
) -> (delivery: Delivery)
    ensures
        can_become(*host, generation, kind, *pending, *event_tx, delivery),
{
    match RemoteAgentUpdate::claim(host.clone(), generation, kind, pending) {
        Some(update) => try_send(event_tx, AppEvent::RemoteAgentsUpdated(Box::new(update))),
        None => Delivery::Held,
    }
}

} // verus!
