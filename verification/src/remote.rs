//! Decisions of the connector that mirrors a remote instance into a
//! Remote Source: when to connect, what status to show, how long to
//! wait before the next attempt, when a session ends and why, and what
//! to do with each message the remote sends.  The caller performs the
//! I/O and reports each outcome back as an event.

use vstd::prelude::*;
use crate::supervision::{Backoff, doubled_delay, INITIAL_BACKOFF_MS};
use crate::sources::ConnectionStatus;
use crate::text::{owned, concat_str, str_eq};

verus! {

/// What happened since the connector's last step.
#[derive(Debug, Clone, PartialEq, Eq)]
pub enum ConnectorEvent {
    /// The connector task has just started.
    Started,
    /// The WebSocket handshake succeeded.
    Connected,
    /// The connection attempt failed with this error text.
    ConnectFailed { error: String },
    /// A live session ended for this reason.
    SessionEnded { reason: String },
    /// The wait before the next attempt is over.
    Slept,
}

/// What the connector does next.
#[derive(Debug, Clone, Copy, PartialEq, Eq, Structural)]
pub enum ConnectorAction {
    /// Open the WebSocket to the remote.
    Connect,
    /// Read and apply messages until the session ends.
    RunSession,
    /// Wait this many milliseconds, then report `Slept`.
    Sleep { millis: u64 },
    /// Leave the loop: the daemon is stopping or the source is gone.
    Stop,
}

/// One step's outcome: the status to show (if it changes) and the
/// next action.
#[derive(Debug, Clone, PartialEq, Eq)]
pub struct ConnectorStep {
    pub status: Option<ConnectionStatus>,
    pub action: ConnectorAction,
}

/// The connector's state: the delay before the next attempt.
#[derive(Debug, Clone, Copy, PartialEq, Eq, Structural)]
pub struct Connector {
    pub backoff: Backoff,
}

/// The status and action that follow `event`, given whether the
/// daemon runs and the source still exists, and the current delay.
pub open spec fn connector_step_spec(
    running: bool,
    alive: bool,
    event: ConnectorEvent,
    delay: u64,
) -> (Option<ConnectionStatus>, ConnectorAction) {
    match event {
        ConnectorEvent::Started | ConnectorEvent::Slept => {
            if running && alive {
                (Some(ConnectionStatus::Connecting), ConnectorAction::Connect)
            } else {
                (None, ConnectorAction::Stop)
            }
        },
        ConnectorEvent::Connected => (Some(ConnectionStatus::Connected), ConnectorAction::RunSession),
        ConnectorEvent::ConnectFailed { error } => (
            Some(ConnectionStatus::Disconnected { error: Some(error) }),
            if running && alive {
                ConnectorAction::Sleep { millis: delay }
            } else {
                ConnectorAction::Stop
            },
        ),
        ConnectorEvent::SessionEnded { reason } => (
            Some(ConnectionStatus::Disconnected { error: Some(reason) }),
            if running && alive {
                ConnectorAction::Sleep { millis: delay }
            } else {
                ConnectorAction::Stop
            },
        ),
    }
}

/// The delay after `event`: back to the initial delay on a successful
/// connection, doubled (up to the cap) each time a wait is scheduled.
pub open spec fn next_delay_spec(running: bool, alive: bool, event: ConnectorEvent, delay: u64) -> u64 {
    match event {
        ConnectorEvent::Connected => INITIAL_BACKOFF_MS,
        ConnectorEvent::ConnectFailed { .. } | ConnectorEvent::SessionEnded { .. } => {
            if running && alive {
                doubled_delay(delay)
            } else {
                delay
            }
        },
        _ => delay,
    }
}

impl Connector {
    /// The delay stays between the initial delay and the cap.
    pub open spec fn wf(self) -> bool {
        self.backoff.wf()
    }

    /// A connector that has not tried yet.
    pub fn new() -> (r: Connector)
        ensures
            r.wf(),
            r.backoff.delay_ms == INITIAL_BACKOFF_MS,
    {
        Connector { backoff: Backoff::initial() }
    }

    /// Advance on `event`.  `running` tells whether the daemon still
    /// runs, `alive` whether the source is still registered.
    pub fn step(&mut self, running: bool, alive: bool, event: ConnectorEvent) -> (r: ConnectorStep)
        requires
            old(self).wf(),
        ensures
            final(self).wf(),
            (r.status, r.action) == connector_step_spec(running, alive, event, old(self).backoff.delay_ms),
            final(self).backoff.delay_ms == next_delay_spec(running, alive, event, old(self).backoff.delay_ms),
    {
        match event {
            ConnectorEvent::Started | ConnectorEvent::Slept => {
                if running && alive {
                    ConnectorStep { status: Some(ConnectionStatus::Connecting), action: ConnectorAction::Connect }
                } else {
                    ConnectorStep { status: None, action: ConnectorAction::Stop }
                }
            },
            ConnectorEvent::Connected => {
                self.backoff.reset();
                ConnectorStep { status: Some(ConnectionStatus::Connected), action: ConnectorAction::RunSession }
            },
            ConnectorEvent::ConnectFailed { error: text } | ConnectorEvent::SessionEnded { reason: text } => {
                let status = Some(ConnectionStatus::Disconnected { error: Some(text) });
                if running && alive {
                    let millis = self.backoff.delay_ms;
                    self.backoff.advance();
                    ConnectorStep { status, action: ConnectorAction::Sleep { millis } }
                } else {
                    ConnectorStep { status, action: ConnectorAction::Stop }
                }
            },
        }
    }
}

/// A frame read from the remote's WebSocket.
#[derive(Debug, Clone, PartialEq, Eq)]
pub enum Frame {
    Text,
    Close,
    /// Binary, ping or pong frames: not part of this protocol.
    Other,
    /// Reading failed with this error text.
    ReadError { error: String },
}

/// What a session does with the next read.
#[derive(Debug, Clone, PartialEq, Eq)]
pub enum SessionStep {
    /// Parse and apply the text frame.
    HandleText,
    /// Read on.
    Continue,
    /// End the session for this reason.
    Disconnect { reason: String },
}

/// A session step as a mathematical value.
pub enum SessionOutcome {
    HandleText,
    Continue,
    Disconnect(Seq<char>),
}

/// The mathematical value of a session step.
pub open spec fn outcome_of(s: SessionStep) -> SessionOutcome {
    match s {
        SessionStep::HandleText => SessionOutcome::HandleText,
        SessionStep::Continue => SessionOutcome::Continue,
        SessionStep::Disconnect { reason } => SessionOutcome::Disconnect(reason@),
    }
}

/// The session's reaction to `frame` (`None`: the stream ended).
pub open spec fn session_step_spec(running: bool, alive: bool, frame: Option<Frame>) -> SessionOutcome {
    match frame {
        None => SessionOutcome::Disconnect("stream ended"@),
        Some(f) => {
            if !running {
                SessionOutcome::Disconnect("shutdown"@)
            } else if !alive {
                SessionOutcome::Disconnect("source removed"@)
            } else {
                match f {
                    Frame::Text => SessionOutcome::HandleText,
                    Frame::Close => SessionOutcome::Disconnect("remote closed"@),
                    Frame::Other => SessionOutcome::Continue,
                    Frame::ReadError { error } => SessionOutcome::Disconnect("read error: "@ + error@),
                }
            }
        },
    }
}

/// Decide what a live session does with the next read.  A frame is only
/// acted on while the daemon runs and the source still exists.
pub fn session_step(running: bool, alive: bool, frame: Option<Frame>) -> (r: SessionStep)
    ensures
        outcome_of(r) == session_step_spec(running, alive, frame),
{
    match frame {
        None => SessionStep::Disconnect { reason: owned("stream ended") },
        Some(f) => {
            if !running {
                SessionStep::Disconnect { reason: owned("shutdown") }
            } else if !alive {
                SessionStep::Disconnect { reason: owned("source removed") }
            } else {
                match f {
                    Frame::Text => SessionStep::HandleText,
                    Frame::Close => SessionStep::Disconnect { reason: owned("remote closed") },
                    Frame::Other => SessionStep::Continue,
                    Frame::ReadError { error } => SessionStep::Disconnect {
                        reason: concat_str("read error: ", error.as_str()),
                    },
                }
            }
        },
    }
}

/// The disconnect reason when applying a text frame failed with `error`.
pub fn handling_failure_reason(error: &str) -> (r: String)
    ensures
        r@ == "message-handling error: "@ + error@,
{
    concat_str("message-handling error: ", error)
}

/// How the mirror treats a message from the remote.
#[derive(Debug, Clone, Copy, PartialEq, Eq, Structural)]
pub enum RemoteMessage {
    /// A full `state` snapshot: replaces the mirror.
    StateSnapshot,
    /// A `metric_changed` update of one heartbeat's metric.
    MetricChanged,
    /// Anything else: ask the remote for a fresh snapshot.
    RequestFreshState,
}

/// The treatment of a message whose `type` field is `msg_type`.
pub open spec fn remote_message_of(msg_type: Seq<char>) -> RemoteMessage {
    if msg_type == "state"@ {
        RemoteMessage::StateSnapshot
    } else if msg_type == "metric_changed"@ {
        RemoteMessage::MetricChanged
    } else {
        RemoteMessage::RequestFreshState
    }
}

/// Classify a message from the remote by its `type` field; a message
/// without one is an error that ends the session.
pub fn classify_remote_message(msg_type: Option<&str>) -> (r: Result<RemoteMessage, String>)
    ensures
        match msg_type {
            Some(t) => r == Ok::<RemoteMessage, String>(remote_message_of(t@)),
            None => r is Err && r->Err_0@ == "message missing `type` field"@,
        },
{
    match msg_type {
        None => Err(owned("message missing `type` field")),
        Some(t) => {
            if str_eq(t, "state") {
                Ok(RemoteMessage::StateSnapshot)
            } else if str_eq(t, "metric_changed") {
                Ok(RemoteMessage::MetricChanged)
            } else {
                Ok(RemoteMessage::RequestFreshState)
            }
        },
    }
}

/// How a snapshot's metrics reach the mirror's heartbeats.
#[derive(Debug, Clone, Copy, PartialEq, Eq, Structural)]
pub enum MetricPlan {
    /// Same number of heartbeats: write each value into the existing
    /// handle, so handles held by render threads see it.
    UpdateInPlace,
    /// A different number: build the heartbeat list anew.
    Rebuild,
}

/// Choose how to apply `incoming` metrics to `current` heartbeats.
pub fn metric_plan(current: usize, incoming: usize) -> (r: MetricPlan)
    ensures
        (r is UpdateInPlace) == (current == incoming),
{
    if current == incoming {
        MetricPlan::UpdateInPlace
    } else {
        MetricPlan::Rebuild
    }
}

/// The heartbeat a `metric_changed` update for `idx` applies to, among
/// `len` heartbeats; an index out of range is ignored.
pub fn metric_target(len: usize, idx: usize) -> (r: Option<usize>)
    ensures
        r == (if idx < len {
            Some(idx)
        } else {
            None::<usize>
        }),
{
    if idx < len {
        Some(idx)
    } else {
        None
    }
}

} // verus!
