//! Core value types of the bridge: discrete commands, queued events,
//! per-connection gesture state, and decoded action requests.
//!
//! Pressure readings and the shared threshold are integer sensor units;
//! timestamps are server-assigned milliseconds.

use vstd::prelude::*;

verus! {

/// The sequence of mathematical images of a sequence of values.
pub open spec fn models_of<T: View>(s: Seq<T>) -> Seq<T::V> {
    s.map_values(|x: T| x@)
}

/// A discrete command a controller can ask for.
#[derive(Clone, Copy, Debug, PartialEq, Eq, Structural, Hash)]
pub enum GameAction {
    MoveLeft,
    MoveRight,
    Shoot,
    Idle,
}

/// The tag of one decoded inbound request.
#[derive(Clone, Copy, Debug, PartialEq, Eq, Structural)]
pub enum RequestKind {
    PeakLeft,
    PeakRight,
    PeakShoot,
    Stop,
    StopMovement,
    StopShooting,
    /// A well-formed request whose tag is none of the recognized ones;
    /// it is treated as a no-op.
    Other,
}

/// One decoded inbound request: a tag and the pressure reading that came
/// with it (zero when the payload carried none).
#[derive(Clone, Copy, Debug, PartialEq, Eq, Structural)]
pub struct ActionRequest {
    pub kind: RequestKind,
    pub pressure: u64,
}

/// Live gesture state of one connection.
#[derive(Clone, Copy, Debug, PartialEq, Eq, Structural)]
pub struct ConnectionState {
    pub current_movement: Option<GameAction>,
    pub is_shooting: bool,
    pub movement_pressure: u64,
    pub shoot_pressure: u64,
}

impl ConnectionState {
    /// The all-absent/zero state every connection starts in.
    pub open spec fn spec_default() -> ConnectionState {
        ConnectionState {
            current_movement: None,
            is_shooting: false,
            movement_pressure: 0,
            shoot_pressure: 0,
        }
    }
}

impl Default for ConnectionState {
    fn default() -> (r: ConnectionState)
        ensures
            r == ConnectionState::spec_default(),
    {
        ConnectionState {
            current_movement: None,
            is_shooting: false,
            movement_pressure: 0,
            shoot_pressure: 0,
        }
    }
}

/// One discrete, queued command.
#[derive(Clone, Debug)]
pub struct ActionEvent {
    pub connection_id: String,
    pub action: GameAction,
    pub pressure: u64,
    pub timestamp: u64,
}

/// Mathematical image of an [`ActionEvent`].
pub ghost struct ActionEventModel {
    pub connection_id: Seq<char>,
    pub action: GameAction,
    pub pressure: u64,
    pub timestamp: u64,
}

impl View for ActionEvent {
    type V = ActionEventModel;

    open spec fn view(&self) -> ActionEventModel {
        ActionEventModel {
            connection_id: self.connection_id@,
            action: self.action,
            pressure: self.pressure,
            timestamp: self.timestamp,
        }
    }
}

/// A snapshot of one connection's full gesture state at a point in time.
#[derive(Clone, Debug)]
pub struct SimultaneousActions {
    pub connection_id: String,
    pub movement: Option<GameAction>,
    pub shooting: bool,
    pub movement_pressure: u64,
    pub shoot_pressure: u64,
    pub timestamp: u64,
}

/// Mathematical image of a [`SimultaneousActions`] snapshot.
pub ghost struct SimultaneousActionsModel {
    pub connection_id: Seq<char>,
    pub movement: Option<GameAction>,
    pub shooting: bool,
    pub movement_pressure: u64,
    pub shoot_pressure: u64,
    pub timestamp: u64,
}

impl View for SimultaneousActions {
    type V = SimultaneousActionsModel;

    open spec fn view(&self) -> SimultaneousActionsModel {
        SimultaneousActionsModel {
            connection_id: self.connection_id@,
            movement: self.movement,
            shooting: self.shooting,
            movement_pressure: self.movement_pressure,
            shoot_pressure: self.shoot_pressure,
            timestamp: self.timestamp,
        }
    }
}

/// What one state transition yields: the post-mutation snapshot of the
/// connection's state, the commanded action, and whether a discrete
/// [`ActionEvent`] is owed.
pub ghost struct TransitionOutcome {
    pub state: ConnectionState,
    pub action: GameAction,
    pub send_discrete: bool,
}

/// The single state-transition rule of the bridge.
///
/// A movement or shoot request is honored only when `pressure > threshold`
/// (equal-to-threshold does not trigger); the stop family bypasses the
/// threshold. `None` means the message is fully discarded: no state change
/// and no emission of either kind.
pub open spec fn spec_apply(
    st: ConnectionState,
    req: ActionRequest,
    threshold: u64,
) -> Option<TransitionOutcome> {
    match req.kind {
        RequestKind::PeakLeft => if req.pressure > threshold {
            Some(TransitionOutcome {
                state: ConnectionState {
                    current_movement: Some(GameAction::MoveLeft),
                    movement_pressure: req.pressure,
                    ..st
                },
                action: GameAction::MoveLeft,
                send_discrete: true,
            })
        } else {
            None
        },
        RequestKind::PeakRight => if req.pressure > threshold {
            Some(TransitionOutcome {
                state: ConnectionState {
                    current_movement: Some(GameAction::MoveRight),
                    movement_pressure: req.pressure,
                    ..st
                },
                action: GameAction::MoveRight,
                send_discrete: true,
            })
        } else {
            None
        },
        RequestKind::PeakShoot => if req.pressure > threshold {
            Some(TransitionOutcome {
                state: ConnectionState { is_shooting: true, shoot_pressure: req.pressure, ..st },
                action: GameAction::Shoot,
                send_discrete: true,
            })
        } else {
            None
        },
        RequestKind::Stop => Some(TransitionOutcome {
            state: ConnectionState::spec_default(),
            action: GameAction::Idle,
            send_discrete: true,
        }),
        RequestKind::StopMovement => Some(TransitionOutcome {
            state: ConnectionState { current_movement: None, movement_pressure: 0, ..st },
            action: GameAction::Idle,
            send_discrete: true,
        }),
        RequestKind::StopShooting => Some(TransitionOutcome {
            state: ConnectionState { is_shooting: false, shoot_pressure: 0, ..st },
            action: GameAction::Idle,
            send_discrete: false,
        }),
        RequestKind::Other => None,
    }
}

/// A `stop` request resets the connection to the default state, whatever
/// state it was in, and always yields one discrete `Idle` event.
pub proof fn lemma_stop_resets(st: ConnectionState, pressure: u64, threshold: u64)
    ensures
        spec_apply(st, ActionRequest { kind: RequestKind::Stop, pressure }, threshold)
            == Some(TransitionOutcome {
                state: ConnectionState::spec_default(),
                action: GameAction::Idle,
                send_discrete: true,
            }),
{
}

/// A gated request whose pressure does not exceed the threshold leaves the
/// state unchanged and produces neither a discrete event nor a snapshot.
pub proof fn lemma_gated_below_threshold(
    st: ConnectionState,
    kind: RequestKind,
    pressure: u64,
    threshold: u64,
)
    requires
        pressure <= threshold,
        kind == RequestKind::PeakLeft || kind == RequestKind::PeakRight || kind
            == RequestKind::PeakShoot,
    ensures
        spec_apply(st, ActionRequest { kind, pressure }, threshold) is None,
{
}

/// A `peakleft` whose pressure exceeds the threshold sets the movement to
/// `MoveLeft`, records the pressure, and yields exactly one discrete
/// `MoveLeft` event; the shooting half of the state is untouched.
pub proof fn lemma_peakleft_above_threshold(st: ConnectionState, pressure: u64, threshold: u64)
    requires
        pressure > threshold,
    ensures
        spec_apply(st, ActionRequest { kind: RequestKind::PeakLeft, pressure }, threshold)
            == Some(TransitionOutcome {
                state: ConnectionState {
                    current_movement: Some(GameAction::MoveLeft),
                    is_shooting: st.is_shooting,
                    movement_pressure: pressure,
                    shoot_pressure: st.shoot_pressure,
                },
                action: GameAction::MoveLeft,
                send_discrete: true,
            }),
{
}

} // verus!
