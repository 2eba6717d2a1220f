//! The WebSocket forwarder: its settings, and the decisions it takes for each
//! message that arrives on one side of a relayed connection.
//!
//! The forwarder relays in both directions at once; each direction reads a
//! message, decides with [`relay_next`], performs the action and feeds the
//! outcome back. When either direction stops, the whole connection ends.

use vstd::prelude::*;

verus! {

/// Forwards WebSocket messages between a client and one upstream endpoint.
pub struct WsForwarder {
    /// The upstream WebSocket endpoint, such as `wss://api.openai.com/v1/realtime`.
    pub upstream_url: String,
}

impl WsForwarder {
    /// A forwarder to `upstream_url`.
    pub fn new(upstream_url: String) -> (f: Self)
        ensures
            f.upstream_url@ == upstream_url@,
    {
        WsForwarder { upstream_url }
    }
}

/// A close frame: its status code and reason.
#[derive(Debug, Clone, PartialEq, Eq)]
pub struct WsCloseFrame {
    pub code: u16,
    pub reason: String,
}

/// A WebSocket message, as either side delivers it.
#[derive(Debug, Clone, PartialEq, Eq)]
pub enum WsMessage {
    Text(String),
    Binary(Vec<u8>),
    Ping(Vec<u8>),
    Pong(Vec<u8>),
    /// A close message, with its frame when the peer sent one.
    Close(Option<WsCloseFrame>),
    /// A raw frame, which the protocol layer handles itself.
    Frame,
}

/// Whether one direction of the relay still runs.
#[derive(Debug, Clone, Copy, PartialEq, Eq)]
pub enum RelayState {
    Open,
    Stopped,
}

/// What happened on one direction since the last decision.
#[derive(Debug, Clone, PartialEq, Eq)]
pub enum RelayEvent {
    /// A message arrived from the reading side.
    Received(WsMessage),
    /// Reading failed.
    ReceiveFailed,
    /// The reading side has no more messages.
    Ended,
    /// Writing the last forwarded message to the other side failed.
    SendFailed,
}

/// What the forwarder does next on one direction.
#[derive(Debug, Clone, PartialEq, Eq)]
pub enum RelayAction {
    /// Send this message to the other side, then read on.
    Forward(WsMessage),
    /// Send this close frame to the other side, whatever comes of it, and stop.
    CloseWith(WsCloseFrame),
    /// Read the next message.
    Skip,
    /// Stop relaying.
    Stop,
}

/// The decision for one event: data and pings pass through unchanged, pongs
/// and raw frames are left to the protocol layer, a close is passed on (with
/// its frame) and ends the relay, and any failure or the end of the stream
/// ends it too. A stopped relay stays stopped.
pub open spec fn relay_spec(state: RelayState, event: RelayEvent) -> (RelayState, RelayAction) {
    match state {
        RelayState::Stopped => (RelayState::Stopped, RelayAction::Stop),
        RelayState::Open => match event {
            RelayEvent::Received(m) => match m {
                WsMessage::Text(_) => (RelayState::Open, RelayAction::Forward(m)),
                WsMessage::Binary(_) => (RelayState::Open, RelayAction::Forward(m)),
                WsMessage::Ping(_) => (RelayState::Open, RelayAction::Forward(m)),
                WsMessage::Pong(_) => (RelayState::Open, RelayAction::Skip),
                WsMessage::Frame => (RelayState::Open, RelayAction::Skip),
                WsMessage::Close(Some(f)) => (RelayState::Stopped, RelayAction::CloseWith(f)),
                WsMessage::Close(None) => (RelayState::Stopped, RelayAction::Stop),
            },
            RelayEvent::ReceiveFailed => (RelayState::Stopped, RelayAction::Stop),
            RelayEvent::Ended => (RelayState::Stopped, RelayAction::Stop),
            RelayEvent::SendFailed => (RelayState::Stopped, RelayAction::Stop),
        },
    }
}

/// Decides what one direction of the relay does after `event`.
pub fn relay_next(state: RelayState, event: RelayEvent) -> (r: (RelayState, RelayAction))
    ensures
        r == relay_spec(state, event),
{
    match state {
        RelayState::Stopped => (RelayState::Stopped, RelayAction::Stop),
        RelayState::Open => match event {
            RelayEvent::Received(m) => match m {
                WsMessage::Text(t) => (RelayState::Open, RelayAction::Forward(WsMessage::Text(t))),
                WsMessage::Binary(b) => (
                    RelayState::Open,
                    RelayAction::Forward(WsMessage::Binary(b)),
                ),
                WsMessage::Ping(b) => (RelayState::Open, RelayAction::Forward(WsMessage::Ping(b))),
                WsMessage::Pong(_) => (RelayState::Open, RelayAction::Skip),
                WsMessage::Frame => (RelayState::Open, RelayAction::Skip),
                WsMessage::Close(Some(f)) => (RelayState::Stopped, RelayAction::CloseWith(f)),
                WsMessage::Close(None) => (RelayState::Stopped, RelayAction::Stop),
            },
            RelayEvent::ReceiveFailed => (RelayState::Stopped, RelayAction::Stop),
            RelayEvent::Ended => (RelayState::Stopped, RelayAction::Stop),
            RelayEvent::SendFailed => (RelayState::Stopped, RelayAction::Stop),
        },
    }
}

/// Once a direction has stopped, it never forwards anything again, and it
/// stops exactly when told to stop or to close; a direction that reads on
/// is still open.
pub proof fn lemma_relay_stops_for_good(state: RelayState, event: RelayEvent)
    ensures
        state == RelayState::Stopped ==> relay_spec(state, event) == (
            RelayState::Stopped,
            RelayAction::Stop,
        ),
        (relay_spec(state, event).1 is Forward || relay_spec(state, event).1 is Skip)
            <==> relay_spec(state, event).0 == RelayState::Open,
{
}

} // verus!
