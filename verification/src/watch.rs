//! The watch channel that publishes aggregate readiness.
//!
//! The items here call `tokio::sync::watch`; their contracts are taken on trust.
use tokio::sync::watch;
use vstd::prelude::*;

use crate::readiness::SupervisorReadiness;

verus! {

/// The sending half of `tokio`'s watch channel.
#[verifier::external_type_specification]
#[verifier::external_body]
#[verifier::reject_recursive_types(T)]
pub struct ExWatchSender<T>(watch::Sender<T>);

/// The receiving half of `tokio`'s watch channel.
#[verifier::external_type_specification]
#[verifier::external_body]
#[verifier::reject_recursive_types(T)]
pub struct ExWatchReceiver<T>(watch::Receiver<T>);

/// The value a watch channel holds, seen from its only sender.
pub uninterp spec fn published(sender: watch::Sender<SupervisorReadiness>) -> SupervisorReadiness;

/// The latest value sent on a watch channel was dropped, because no receiver
/// existed.
pub uninterp spec fn send_failed(sender: watch::Sender<SupervisorReadiness>) -> bool;

/// The value a receiver reads from the channel when it is created.
pub uninterp spec fn first_seen(
    receiver: watch::Receiver<SupervisorReadiness>,
) -> SupervisorReadiness;

/// How many values were delivered on a watch channel since it was opened. Each of them
/// notifies every receiver once.
pub uninterp spec fn deliveries(sender: watch::Sender<SupervisorReadiness>) -> nat;

/// The channel that a sender sends on.
pub uninterp spec fn channel(sender: watch::Sender<SupervisorReadiness>) -> int;

/// The channel that a receiver listens to.
pub uninterp spec fn heard(receiver: watch::Receiver<SupervisorReadiness>) -> int;

/// Calls `tokio::sync::watch::channel` and keeps the sender.
///
/// Claimed: the new channel holds the initial value, nothing was delivered on it yet,
/// and no send on it has failed.
#[verifier::external_body]
pub(crate) fn open_channel(initial: SupervisorReadiness) -> (sender: watch::Sender<
    SupervisorReadiness,
>)
    ensures
        published(sender) == initial,
        deliveries(sender) == 0,
        !send_failed(sender),
{
    watch::channel(initial).0
}

/// Calls `tokio::sync::watch::Sender::send`.
///
/// Claimed: the sender stays on its channel. When the call succeeds the channel holds
/// the new value, which counts as one delivery; when it fails, which happens when no
/// receiver exists, the channel keeps the value it had and nothing is delivered.
/// Whether a receiver exists is up to the subscribers, so nothing is claimed about
/// which of the two happens.
#[verifier::external_body]
pub(crate) fn publish(
    sender: &mut watch::Sender<SupervisorReadiness>,
    value: SupervisorReadiness,
) -> (delivered: bool)
    ensures
        channel(*final(sender)) == channel(*old(sender)),
        send_failed(*final(sender)) == !delivered,
        deliveries(*final(sender)) == deliveries(*old(sender)) + if delivered {
            1nat
        } else {
            0nat
        },
        published(*final(sender)) == if delivered {
            value
        } else {
            published(*old(sender))
        },
{
    sender.send(value).is_ok()
}

/// Calls `tokio::sync::watch::Sender::subscribe`.
///
/// Claimed: the new receiver listens to the channel of this sender, and starts at the
/// value the channel holds.
#[verifier::external_body]
pub(crate) fn subscribe(sender: &watch::Sender<SupervisorReadiness>) -> (receiver: watch::Receiver<
    SupervisorReadiness,
>)
    ensures
        heard(receiver) == channel(*sender),
        first_seen(receiver) == published(*sender),
{
    sender.subscribe()
}

} // verus!
