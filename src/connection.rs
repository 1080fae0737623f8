use crate::fixed::Heading;
use vstd::prelude::*;

verus! {

/// A message that a client sends, once decoded.
#[derive(Clone, Copy, Debug, PartialEq, Eq, Structural)]
pub enum ClientMessage {
    /// The first message: the player's identifier.
    Join { uuid: u128 },
    /// A new angle for the player's paddle.
    MovePaddle { paddle_position: Heading },
}

/// Where a connection stands.
#[derive(Clone, Copy, Debug, PartialEq, Eq, Structural)]
pub enum ConnectionPhase {
    /// Waiting for the client's first message, which must be a join.
    Joining,
    /// Registered as the player with this identifier.
    Active(u128),
    /// Done: nothing more is sent or accepted.
    Closed,
}

/// What happened on a connection.
#[derive(Clone, Copy, Debug, PartialEq, Eq, Structural)]
pub enum ConnectionEvent {
    /// The client sent a message that decoded.
    Message(ClientMessage),
    /// The client sent something that is not a message of the protocol.
    Undecodable,
    /// The client's stream ended or failed.
    StreamEnded,
    /// A new snapshot of the game arrived from the subscription.
    Snapshot,
    /// The subscription fell behind and snapshots were dropped for it.
    Lagged,
    /// The subscription can deliver nothing more: the engine is gone. The driver
    /// stops waiting on it.
    BroadcastEnded,
}

/// What the connection's driver is to do next.
#[derive(Clone, Copy, Debug, PartialEq, Eq, Structural)]
pub enum ConnectionAction {
    /// Add the player to the game and subscribe to snapshots.
    Register(u128),
    /// Close the connection without registering anything.
    Reject,
    /// Turn the player's paddle.
    MovePaddle(u128, Heading),
    /// Send the snapshot that arrived to the client.
    SendSnapshot,
    /// Skip to the newest snapshot that can be had and send that.
    CatchUp,
    /// Nothing to do.
    Ignore,
    /// Remove the player from the game; the connection is over.
    Unregister(u128),
}

/// The next phase of a connection and what to do, given what happened.
///
/// A joining connection becomes active on a join and is rejected on anything
/// else. An active one turns its paddle on a move, ignores a repeated join and
/// any undecodable message, forwards snapshots, catches up after a lag, ignores
/// the end of the subscription, and ends (unregistering its player) only when the
/// client's stream ends or fails. A closed connection stays closed and does nothing.
pub open spec fn transition(phase: ConnectionPhase, event: ConnectionEvent) -> (ConnectionPhase, ConnectionAction) {
    match phase {
        ConnectionPhase::Joining => match event {
            ConnectionEvent::Message(ClientMessage::Join { uuid }) => (
                ConnectionPhase::Active(uuid),
                ConnectionAction::Register(uuid),
            ),
            _ => (ConnectionPhase::Closed, ConnectionAction::Reject),
        },
        ConnectionPhase::Active(id) => match event {
            ConnectionEvent::Message(ClientMessage::MovePaddle { paddle_position }) => (
                phase,
                ConnectionAction::MovePaddle(id, paddle_position),
            ),
            ConnectionEvent::Message(ClientMessage::Join { .. }) => (phase, ConnectionAction::Ignore),
            ConnectionEvent::Undecodable => (phase, ConnectionAction::Ignore),
            ConnectionEvent::Snapshot => (phase, ConnectionAction::SendSnapshot),
            ConnectionEvent::Lagged => (phase, ConnectionAction::CatchUp),
            ConnectionEvent::StreamEnded => (ConnectionPhase::Closed, ConnectionAction::Unregister(id)),
            ConnectionEvent::BroadcastEnded => (phase, ConnectionAction::Ignore),
        },
        ConnectionPhase::Closed => (ConnectionPhase::Closed, ConnectionAction::Ignore),
    }
}

/// Decides the next phase of a connection and what to do, given what happened.
pub fn step(phase: ConnectionPhase, event: ConnectionEvent) -> (r: (ConnectionPhase, ConnectionAction))
    ensures
        r == transition(phase, event),
{
    match phase {
        ConnectionPhase::Joining => match event {
            ConnectionEvent::Message(ClientMessage::Join { uuid }) => (
                ConnectionPhase::Active(uuid),
                ConnectionAction::Register(uuid),
            ),
            _ => (ConnectionPhase::Closed, ConnectionAction::Reject),
        },
        ConnectionPhase::Active(id) => match event {
            ConnectionEvent::Message(ClientMessage::MovePaddle { paddle_position }) => (
                phase,
                ConnectionAction::MovePaddle(id, paddle_position),
            ),
            ConnectionEvent::Message(ClientMessage::Join { .. }) => (phase, ConnectionAction::Ignore),
            ConnectionEvent::Undecodable => (phase, ConnectionAction::Ignore),
            ConnectionEvent::Snapshot => (phase, ConnectionAction::SendSnapshot),
            ConnectionEvent::Lagged => (phase, ConnectionAction::CatchUp),
            ConnectionEvent::StreamEnded => (ConnectionPhase::Closed, ConnectionAction::Unregister(id)),
            ConnectionEvent::BroadcastEnded => (phase, ConnectionAction::Ignore),
        },
        ConnectionPhase::Closed => (ConnectionPhase::Closed, ConnectionAction::Ignore),
    }
}

/// The phase after the events `es`, in order, starting from `phase`.
pub open spec fn phase_after(phase: ConnectionPhase, es: Seq<ConnectionEvent>) -> ConnectionPhase
    decreases es.len(),
{
    if es.len() == 0 {
        phase
    } else {
        phase_after(transition(phase, es[0]).0, es.drop_first())
    }
}

/// The actions decided along the events `es`, starting from `phase`.
pub open spec fn actions_along(phase: ConnectionPhase, es: Seq<ConnectionEvent>) -> Seq<ConnectionAction>
    decreases es.len(),
{
    if es.len() == 0 {
        Seq::empty()
    } else {
        seq![transition(phase, es[0]).1] + actions_along(transition(phase, es[0]).0, es.drop_first())
    }
}

/// Registrations of `id` minus unregistrations of it among `actions`.
pub open spec fn net_registrations(actions: Seq<ConnectionAction>, id: u128) -> int
    decreases actions.len(),
{
    if actions.len() == 0 {
        0
    } else {
        let here = match actions[0] {
            ConnectionAction::Register(x) => if x == id { 1int } else { 0int },
            ConnectionAction::Unregister(x) => if x == id { -1int } else { 0int },
            _ => 0int,
        };
        here + net_registrations(actions.drop_first(), id)
    }
}

pub open spec fn active_as(phase: ConnectionPhase, id: u128) -> int {
    if phase == ConnectionPhase::Active(id) { 1 } else { 0 }
}

/// Along any run of events, a connection registers and unregisters its player in
/// step with entering and leaving the active phase: from a joining connection,
/// `id` is registered once more than unregistered exactly when the connection
/// ends active as `id`, and otherwise as often registered as unregistered.
pub proof fn lemma_registration_balanced(phase: ConnectionPhase, es: Seq<ConnectionEvent>, id: u128)
    ensures
        net_registrations(actions_along(phase, es), id) == active_as(phase_after(phase, es), id)
            - active_as(phase, id),
    decreases es.len(),
{
    if es.len() > 0 {
        let (next, a) = transition(phase, es[0]);
        let rest = actions_along(next, es.drop_first());
        lemma_registration_balanced(next, es.drop_first(), id);
        assert((seq![a] + rest).drop_first() =~= rest);
        assert((seq![a] + rest)[0] == a);
    }
}

} // verus!
