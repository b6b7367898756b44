//! Bounded channels between a bridge and its worker.

use vstd::prelude::*;

use crossbeam_channel::{bounded, Receiver, Sender, TrySendError};

use super::{Command, CommandView};
use crate::error::{Error, ErrorView, Result};
use crate::types::{BridgeEvent, BridgeEventView};

verus! {

/// The sending end of a `crossbeam_channel` channel.
#[verifier::external_type_specification]
#[verifier::external_body]
#[verifier::reject_recursive_types(T)]
pub struct ExSender<T>(Sender<T>);

/// The receiving end of a `crossbeam_channel` channel.
#[verifier::external_type_specification]
#[verifier::external_body]
#[verifier::reject_recursive_types(T)]
pub struct ExReceiver<T>(Receiver<T>);

/// Largest channel made here.
pub const MAX_CAPACITY: usize = 0xffff;

/// What became of an offered message.
#[derive(Debug)]
pub enum Delivery<T> {
    /// It was queued.
    Accepted,
    /// The queue is full; the message is handed back.
    Full(T),
    /// No receiver is left; the message is handed back.
    Closed(T),
}

/// The commands that a channel has accepted from this sending end through
/// [`offer`], oldest first. What is sent through a shared reference or a clone
/// of the end is not in this record.
pub uninterp spec fn sent(sender: Sender<Command>) -> Seq<CommandView>;

/// The events that this receiving end has taken out of its channel through
/// [`take`], oldest first. What is taken through a shared reference or a clone
/// of the end is not in this record.
pub uninterp spec fn taken(receiver: Receiver<BridgeEvent>) -> Seq<BridgeEventView>;

/// The wake-ups that were offered to a channel from this sending end through
/// [`wake`]. What is sent through a shared reference or a clone of the end is
/// not in this record.
pub uninterp spec fn wakes(sender: Sender<()>) -> Seq<()>;

/// How many commands can wait in the channel of this sending end.
pub uninterp spec fn command_limit(sender: Sender<Command>) -> nat;

/// How many events can wait in the channel of this receiving end.
pub uninterp spec fn event_limit(receiver: Receiver<BridgeEvent>) -> nat;

/// How many wake-ups can wait in the channel of this sending end.
pub uninterp spec fn wake_limit(sender: Sender<()>) -> nat;

/// Whether two ends are of one channel of commands.
pub uninterp spec fn commands_joined(sender: Sender<Command>, receiver: Receiver<Command>) -> bool;

/// Whether two ends are of one channel of events.
pub uninterp spec fn events_joined(
    sender: Sender<BridgeEvent>,
    receiver: Receiver<BridgeEvent>,
) -> bool;

/// Whether two ends are of one channel of wake-ups.
pub uninterp spec fn wakes_joined(sender: Sender<()>, receiver: Receiver<()>) -> bool;

/// The ends that commands come out of.
pub open spec fn command_exits(sender: Sender<Command>) -> Set<Receiver<Command>> {
    Set::new(|exit: Receiver<Command>| commands_joined(sender, exit))
}

/// The ends that events are sent into.
pub open spec fn event_entries(receiver: Receiver<BridgeEvent>) -> Set<Sender<BridgeEvent>> {
    Set::new(|entry: Sender<BridgeEvent>| events_joined(entry, receiver))
}

/// The ends that wake-ups come out of.
pub open spec fn wake_exits(sender: Sender<()>) -> Set<Receiver<()>> {
    Set::new(|exit: Receiver<()>| wakes_joined(sender, exit))
}

/// The two ends of the three channels between a bridge and its worker.
pub(crate) struct Ends {
    /// Where commands are offered.
    pub commands: Sender<Command>,
    /// Where commands come out.
    pub command_exit: Receiver<Command>,
    /// Where events come out.
    pub events: Receiver<BridgeEvent>,
    /// Where events are sent.
    pub event_entry: Sender<BridgeEvent>,
    /// Where wake-ups are offered.
    pub nudge: Sender<()>,
    /// Where wake-ups come out.
    pub nudge_exit: Receiver<()>,
}

/// Makes the channels of a bridge with `crossbeam_channel::bounded`.
///
/// Trusted: capacities this small never panic; each call makes the two ends of
/// one channel, which can hold as many messages as asked for; and nothing has
/// passed through them yet.
#[verifier::external_body]
pub(crate) fn channels(commands: usize, events: usize, wake_ups: usize) -> (ends: Ends)
    requires
        commands <= MAX_CAPACITY,
        events <= MAX_CAPACITY,
        wake_ups <= MAX_CAPACITY,
    ensures
        sent(ends.commands) == Seq::<CommandView>::empty(),
        taken(ends.events) == Seq::<BridgeEventView>::empty(),
        wakes(ends.nudge) == Seq::<()>::empty(),
        command_limit(ends.commands) == commands,
        event_limit(ends.events) == events,
        wake_limit(ends.nudge) == wake_ups,
        commands_joined(ends.commands, ends.command_exit),
        events_joined(ends.event_entry, ends.events),
        wakes_joined(ends.nudge, ends.nudge_exit),
{
    let (commands, command_exit) = bounded(commands);
    let (event_entry, events) = bounded(events);
    let (nudge, nudge_exit) = bounded(wake_ups);
    Ends { commands, command_exit, events, event_entry, nudge, nudge_exit }
}

/// Offers a command with `crossbeam_channel::Sender::try_send`.
///
/// Trusted: an accepted command is this one, after all that the channel has
/// accepted from this end before; one that was not accepted is handed back
/// unchanged, and the channel has taken nothing. Which of the three happens
/// depends on the other end. The end stays an end of the same channel.
#[verifier::external_body]
pub(crate) fn offer(sender: &mut Sender<Command>, command: Command) -> (delivery: Delivery<Command>)
    ensures
        match delivery {
            Delivery::Accepted => sent(*final(sender)) == sent(*old(sender)).push(command@),
            Delivery::Full(back) => back == command && sent(*final(sender)) == sent(*old(sender)),
            Delivery::Closed(back) => back == command && sent(*final(sender)) == sent(
                *old(sender),
            ),
        },
        command_limit(*final(sender)) == command_limit(*old(sender)),
        forall|exit: Receiver<Command>| #[trigger]
            commands_joined(*final(sender), exit) == commands_joined(*old(sender), exit),
{
    match sender.try_send(command) {
        Ok(()) => Delivery::Accepted,
        Err(TrySendError::Full(back)) => Delivery::Full(back),
        Err(TrySendError::Disconnected(back)) => Delivery::Closed(back),
    }
}

/// Offers a wake-up with `crossbeam_channel::Sender::try_send`.
///
/// Trusted: one wake-up more has been offered. Whether there is room for it
/// depends on the other end; a full channel already holds one. The end stays an
/// end of the same channel.
#[verifier::external_body]
pub(crate) fn wake(sender: &mut Sender<()>)
    ensures
        wakes(*final(sender)) == wakes(*old(sender)).push(()),
        wake_limit(*final(sender)) == wake_limit(*old(sender)),
        forall|exit: Receiver<()>| #[trigger]
            wakes_joined(*final(sender), exit) == wakes_joined(*old(sender), exit),
{
    let _ = sender.try_send(());
}

/// Takes an event with `crossbeam_channel::Receiver::try_recv`.
///
/// Trusted: an event handed out has left the channel through this end, and
/// without one nothing has. Which event it is, and whether there is one,
/// depends on the other end. The end stays an end of the same channel.
#[verifier::external_body]
pub(crate) fn take(receiver: &mut Receiver<BridgeEvent>) -> (event: Option<BridgeEvent>)
    ensures
        match event {
            Some(given) => taken(*final(receiver)) == taken(*old(receiver)).push(given@),
            None => taken(*final(receiver)) == taken(*old(receiver)),
        },
        event_limit(*final(receiver)) == event_limit(*old(receiver)),
        forall|entry: Sender<BridgeEvent>| #[trigger]
            events_joined(entry, *final(receiver)) == events_joined(entry, *old(receiver)),
{
    receiver.try_recv().ok()
}

/// What the outcome of offering a command means.
pub open spec fn queue_problem<T>(delivery: Delivery<T>) -> Option<ErrorView> {
    match delivery {
        Delivery::Accepted => None,
        Delivery::Full(_) => Some(ErrorView::InvalidConfig("bridge command queue is full"@)),
        Delivery::Closed(_) => Some(ErrorView::WorkerStopped),
    }
}

/// Turns the outcome of offering a command into a result.
pub fn queued<T>(delivery: Delivery<T>) -> (result: Result<()>)
    ensures
        match queue_problem(delivery) {
            Some(expected) => result matches Err(error) && error@ == expected,
            None => result is Ok,
        },
{
    match delivery {
        Delivery::Accepted => Ok(()),
        Delivery::Full(_) => Err(Error::InvalidConfig("bridge command queue is full".to_owned())),
        Delivery::Closed(_) => Err(Error::WorkerStopped),
    }
}

} // verus!
