//! Relaying a connection's late messages onto its socket after the first reply.
use vstd::prelude::*;

verus! {

/// Where the relay stands.
#[derive(Debug, Clone, Copy, PartialEq, Eq, Structural)]
pub enum RelayState {
    /// Waiting for the next late message.
    Receiving,
    /// A message is being written.
    Writing,
    /// A written message is being flushed.
    Flushing,
    /// The relay has ended; the socket is shut down or the stream closed.
    Closed,
}

/// What happened since the last action.
pub enum RelayEvent {
    /// A late message arrived.
    Message(String),
    Written,
    WriteFailed,
    Flushed,
    FlushFailed,
    /// Every producer of late messages is gone.
    ChannelClosed,
}

/// What the relay asks for next.
pub enum RelayAction {
    Write(String),
    Flush,
    Receive,
    /// Shut the socket down and stop.
    Shutdown,
    Stop,
}

pub enum EventModel {
    Message(Seq<char>),
    Written,
    WriteFailed,
    Flushed,
    FlushFailed,
    ChannelClosed,
}

pub enum ActionModel {
    Write(Seq<char>),
    Flush,
    Receive,
    Shutdown,
    Stop,
}

impl View for RelayEvent {
    type V = EventModel;

    open spec fn view(&self) -> EventModel {
        match self {
            RelayEvent::Message(m) => EventModel::Message(m@),
            RelayEvent::Written => EventModel::Written,
            RelayEvent::WriteFailed => EventModel::WriteFailed,
            RelayEvent::Flushed => EventModel::Flushed,
            RelayEvent::FlushFailed => EventModel::FlushFailed,
            RelayEvent::ChannelClosed => EventModel::ChannelClosed,
        }
    }
}

impl View for RelayAction {
    type V = ActionModel;

    open spec fn view(&self) -> ActionModel {
        match self {
            RelayAction::Write(m) => ActionModel::Write(m@),
            RelayAction::Flush => ActionModel::Flush,
            RelayAction::Receive => ActionModel::Receive,
            RelayAction::Shutdown => ActionModel::Shutdown,
            RelayAction::Stop => ActionModel::Stop,
        }
    }
}

/// The relay's transitions: each message is written, then flushed; a failed
/// write or flush, or an event that the state does not wait for, shuts the
/// socket down; the end of the stream stops the relay; nothing follows the end.
pub open spec fn relay(state: RelayState, event: EventModel) -> (RelayState, ActionModel) {
    match (state, event) {
        (RelayState::Closed, _) => (RelayState::Closed, ActionModel::Stop),
        (RelayState::Receiving, EventModel::Message(m)) => (RelayState::Writing, ActionModel::Write(m)),
        (RelayState::Receiving, EventModel::ChannelClosed) => (RelayState::Closed, ActionModel::Stop),
        (RelayState::Writing, EventModel::Written) => (RelayState::Flushing, ActionModel::Flush),
        (RelayState::Flushing, EventModel::Flushed) => (RelayState::Receiving, ActionModel::Receive),
        _ => (RelayState::Closed, ActionModel::Shutdown),
    }
}

/// One step of the relay.
pub fn relay_step(state: RelayState, event: RelayEvent) -> (r: (RelayState, RelayAction))
    ensures
        (r.0, r.1@) == relay(state, event@),
{
    match (state, event) {
        (RelayState::Closed, _) => (RelayState::Closed, RelayAction::Stop),
        (RelayState::Receiving, RelayEvent::Message(m)) => (RelayState::Writing, RelayAction::Write(m)),
        (RelayState::Receiving, RelayEvent::ChannelClosed) => (RelayState::Closed, RelayAction::Stop),
        (RelayState::Writing, RelayEvent::Written) => (RelayState::Flushing, RelayAction::Flush),
        (RelayState::Flushing, RelayEvent::Flushed) => (RelayState::Receiving, RelayAction::Receive),
        _ => (RelayState::Closed, RelayAction::Shutdown),
    }
}

/// The actions of the relay over a sequence of events, and its final state.
pub open spec fn relay_run(state: RelayState, events: Seq<EventModel>) -> (RelayState, Seq<ActionModel>)
    decreases events.len(),
{
    if events.len() == 0 {
        (state, Seq::empty())
    } else {
        let (next, a) = relay(state, events[0]);
        let (last, rest) = relay_run(next, events.drop_first());
        (last, seq![a] + rest)
    }
}

/// The late messages among `events`, in order.
pub open spec fn received(events: Seq<EventModel>) -> Seq<Seq<char>>
    decreases events.len(),
{
    if events.len() == 0 {
        Seq::empty()
    } else {
        match events[0] {
            EventModel::Message(m) => seq![m] + received(events.drop_first()),
            _ => received(events.drop_first()),
        }
    }
}

/// The messages written by `actions`, in order.
pub open spec fn written(actions: Seq<ActionModel>) -> Seq<Seq<char>>
    decreases actions.len(),
{
    if actions.len() == 0 {
        Seq::empty()
    } else {
        match actions[0] {
            ActionModel::Write(m) => seq![m] + written(actions.drop_first()),
            _ => written(actions.drop_first()),
        }
    }
}

proof fn lemma_written_prepend(a: ActionModel, rest: Seq<ActionModel>)
    ensures
        written(seq![a] + rest) == match a {
            ActionModel::Write(m) => seq![m] + written(rest),
            _ => written(rest),
        },
{
    assert((seq![a] + rest).drop_first() =~= rest);
}

/// Late messages reach the socket in the order they were sent: whatever
/// happens, the messages written are the first of those received, in order.
pub proof fn lemma_relay_keeps_order(state: RelayState, events: Seq<EventModel>)
    ensures
        ({
            let w = written(relay_run(state, events).1);
            let r = received(events);
            w.len() <= r.len() && w == r.subrange(0, w.len() as int)
        }),
    decreases events.len(),
{
    if events.len() > 0 {
        let (next, a) = relay(state, events[0]);
        lemma_relay_keeps_order(next, events.drop_first());
        lemma_written_prepend(a, relay_run(next, events.drop_first()).1);
        let w = written(relay_run(next, events.drop_first()).1);
        let r = received(events.drop_first());
        match events[0] {
            EventModel::Message(m) => {
                assert(received(events) == seq![m] + r);
                if state == RelayState::Receiving {
                    assert((seq![m] + w) =~= (seq![m] + r).subrange(0, (w.len() + 1) as int));
                } else {
                    assert(next == RelayState::Closed);
                    lemma_closed_writes_nothing(events.drop_first());
                    assert((seq![m] + r).subrange(0, 0) =~= Seq::<Seq<char>>::empty());
                }
            },
            _ => {
                assert(received(events) == r);
            },
        }
    }
}

/// Once the relay has ended it writes nothing more.
pub proof fn lemma_closed_writes_nothing(events: Seq<EventModel>)
    ensures
        relay_run(RelayState::Closed, events).0 == RelayState::Closed,
        written(relay_run(RelayState::Closed, events).1) == Seq::<Seq<char>>::empty(),
    decreases events.len(),
{
    if events.len() > 0 {
        lemma_closed_writes_nothing(events.drop_first());
        lemma_written_prepend(ActionModel::Stop, relay_run(RelayState::Closed, events.drop_first()).1);
    }
}

/// A failed write or flush shuts the socket down at once, with no retry:
/// nothing more is written on the connection.
pub proof fn lemma_failure_ends_relay(state: RelayState, events: Seq<EventModel>)
    requires
        state != RelayState::Closed,
        events.len() > 0,
        events[0] is WriteFailed || events[0] is FlushFailed,
    ensures
        relay_run(state, events).1[0] == ActionModel::Shutdown,
        relay_run(state, events).0 == RelayState::Closed,
        written(relay_run(state, events).1) == Seq::<Seq<char>>::empty(),
{
    lemma_closed_writes_nothing(events.drop_first());
    lemma_written_prepend(ActionModel::Shutdown, relay_run(RelayState::Closed, events.drop_first()).1);
}

} // verus!
