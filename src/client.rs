//! Decisions of the subscription client: a state machine that the I/O loop drives.
//!
//! The loop performs each action it is handed (connect, wait, subscribe, forward a decoded
//! block to the aggregator's queue) and reports what happened as the next event. A block
//! that fails to decode is fatal to the connection: the client reconnects.

use vstd::prelude::*;

use crate::topic::Topic;

verus! {

/// Seconds to wait after a refused connection before trying again.
pub const RECONNECT_DELAY_SECS: u64 = 5;

/// Where the client stands.
#[derive(Clone, Copy, Debug, PartialEq, Eq, Structural)]
pub enum ClientState {
    /// Not started.
    Disconnected,
    /// A connection attempt is under way.
    Connecting,
    /// The last attempt was refused; the fixed delay is running.
    WaitingToReconnect,
    /// Connected; the subscription request is under way.
    Subscribing,
    /// Subscribed; notifications are flowing.
    Streaming,
}

/// What the I/O loop reports.
#[derive(Clone, Copy, Debug, PartialEq, Eq, Structural)]
pub enum ClientEvent {
    Start,
    Connected,
    ConnectRefused,
    DelayElapsed,
    Subscribed,
    /// A notification decoded into a block event.
    BlockDecoded,
    /// A notification that does not decode into a block event.
    DecodeFailed,
    /// Any read, write or framing failure of the open channel.
    ChannelClosed,
}

/// What the I/O loop is to do next.
#[derive(Clone, Copy, Debug, PartialEq, Eq, Structural)]
pub enum ClientAction {
    /// Drop any channel and open a new connection.
    Connect,
    /// Sleep this many seconds, then report `DelayElapsed`.
    Wait(u64),
    /// Send a subscribe request for the topic.
    Subscribe(Topic),
    /// Push the decoded block to the aggregator's queue, blocking while it is full.
    Forward,
    /// Keep waiting for the next event.
    Idle,
}

/// The transition table.
pub open spec fn transition(state: ClientState, event: ClientEvent) -> (ClientState, ClientAction) {
    match (state, event) {
        (ClientState::Subscribing, ClientEvent::ChannelClosed) | (
            ClientState::Streaming,
            ClientEvent::ChannelClosed,
        ) => (ClientState::Connecting, ClientAction::Connect),
        (ClientState::Disconnected, ClientEvent::Start) => (
            ClientState::Connecting,
            ClientAction::Connect,
        ),
        (ClientState::Connecting, ClientEvent::Connected) => (
            ClientState::Subscribing,
            ClientAction::Subscribe(Topic::NewTipBlock),
        ),
        (ClientState::Connecting, ClientEvent::ConnectRefused) => (
            ClientState::WaitingToReconnect,
            ClientAction::Wait(RECONNECT_DELAY_SECS),
        ),
        (ClientState::WaitingToReconnect, ClientEvent::DelayElapsed) => (
            ClientState::Connecting,
            ClientAction::Connect,
        ),
        (ClientState::Subscribing, ClientEvent::Subscribed) => (
            ClientState::Streaming,
            ClientAction::Idle,
        ),
        (ClientState::Streaming, ClientEvent::BlockDecoded) => (
            ClientState::Streaming,
            ClientAction::Forward,
        ),
        (ClientState::Streaming, ClientEvent::DecodeFailed) => (
            ClientState::Connecting,
            ClientAction::Connect,
        ),
        (s, _) => (s, ClientAction::Idle),
    }
}

/// The next state and the action to perform once `event` is seen in `state`.
pub fn next(state: ClientState, event: ClientEvent) -> (r: (ClientState, ClientAction))
    ensures
        r == transition(state, event),
{
    match (state, event) {
        (ClientState::Subscribing, ClientEvent::ChannelClosed) | (
            ClientState::Streaming,
            ClientEvent::ChannelClosed,
        ) => (ClientState::Connecting, ClientAction::Connect),
        (ClientState::Disconnected, ClientEvent::Start) => (
            ClientState::Connecting,
            ClientAction::Connect,
        ),
        (ClientState::Connecting, ClientEvent::Connected) => (
            ClientState::Subscribing,
            ClientAction::Subscribe(Topic::NewTipBlock),
        ),
        (ClientState::Connecting, ClientEvent::ConnectRefused) => (
            ClientState::WaitingToReconnect,
            ClientAction::Wait(RECONNECT_DELAY_SECS),
        ),
        (ClientState::WaitingToReconnect, ClientEvent::DelayElapsed) => (
            ClientState::Connecting,
            ClientAction::Connect,
        ),
        (ClientState::Subscribing, ClientEvent::Subscribed) => (
            ClientState::Streaming,
            ClientAction::Idle,
        ),
        (ClientState::Streaming, ClientEvent::BlockDecoded) => (
            ClientState::Streaming,
            ClientAction::Forward,
        ),
        (ClientState::Streaming, ClientEvent::DecodeFailed) => (
            ClientState::Connecting,
            ClientAction::Connect,
        ),
        (s, _) => (s, ClientAction::Idle),
    }
}

/// The state after feeding `events`, in order, to a client that has not started.
pub open spec fn run_client(events: Seq<ClientEvent>) -> ClientState
    decreases events.len(),
{
    if events.len() == 0 {
        ClientState::Disconnected
    } else {
        transition(run_client(events.drop_last()), events.last()).0
    }
}

/// How many connection attempts were refused over `events`.
pub open spec fn refusals(events: Seq<ClientEvent>) -> nat
    decreases events.len(),
{
    if events.len() == 0 {
        0
    } else {
        refusals(events.drop_last()) + if run_client(events.drop_last())
            == ClientState::Connecting && events.last() == ClientEvent::ConnectRefused {
            1nat
        } else {
            0nat
        }
    }
}

/// How many reconnect delays ran to their end over `events`.
pub open spec fn waits_done(events: Seq<ClientEvent>) -> nat
    decreases events.len(),
{
    if events.len() == 0 {
        0
    } else {
        waits_done(events.drop_last()) + if run_client(events.drop_last())
            == ClientState::WaitingToReconnect && events.last() == ClientEvent::DelayElapsed {
            1nat
        } else {
            0nat
        }
    }
}

/// Every refused connection is followed by a full delay before anything else: whatever
/// the events, the client is waiting exactly when one refusal has no finished delay yet,
/// so it subscribes or streams only once every delay has ended.
pub proof fn lemma_no_subscription_before_delays(events: Seq<ClientEvent>)
    ensures
        run_client(events) == ClientState::WaitingToReconnect ==> refusals(events) == waits_done(
            events,
        ) + 1,
        run_client(events) != ClientState::WaitingToReconnect ==> refusals(events)
            == waits_done(events),
        (run_client(events) == ClientState::Subscribing || run_client(events)
            == ClientState::Streaming) ==> refusals(events) == waits_done(events),
    decreases events.len(),
{
    if events.len() > 0 {
        lemma_no_subscription_before_delays(events.drop_last());
    }
}

/// A refused connection always leads to a wait of `RECONNECT_DELAY_SECS`, and the waiting
/// client moves on only when that delay has elapsed.
pub proof fn lemma_refusal_waits(state: ClientState, event: ClientEvent)
    ensures
        state == ClientState::Connecting && event == ClientEvent::ConnectRefused ==> transition(
            state,
            event,
        ) == (ClientState::WaitingToReconnect, ClientAction::Wait(RECONNECT_DELAY_SECS)),
        state == ClientState::WaitingToReconnect && event != ClientEvent::DelayElapsed
            ==> transition(state, event).0 == ClientState::WaitingToReconnect,
{
}

} // verus!
