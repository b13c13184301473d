//! The bridge core: the shared threshold gate, the connection state
//! store, and the two bounded output queues, driven one inbound frame at
//! a time and drained once per game tick.
//!
//! This type holds no transport: an unverified shell accepts the network
//! connections, owns the locking discipline, and calls
//! [`ArduinoServer::accept_connection`] and [`ArduinoServer::handle_frame`]
//! for each connection, and the consumer-facing getters and drains once
//! per tick.

use vstd::prelude::*;
use vstd::string::StringExecFns;
use crate::actions::{
    ActionEvent, ActionEventModel, ConnectionState, GameAction, RequestKind, SimultaneousActions,
    SimultaneousActionsModel, models_of, spec_apply,
};
use crate::decode::{decode_request, spec_decode};
use crate::queue::{BoundedQueue, push_evict};
use crate::store::ConnectionStore;

verus! {

/// How many entries each output queue holds before it evicts its oldest.
pub const QUEUE_CAPACITY: usize = 50;

/// The pressure threshold the bridge starts with.
pub const DEFAULT_PRESSURE_THRESHOLD: u64 = 500;

/// Mathematical image of the whole bridge: the threshold, the state of
/// every live connection, and the contents of both output queues.
#[verifier::ext_equal]
pub ghost struct ServerModel {
    pub threshold: u64,
    pub states: Map<Seq<char>, ConnectionState>,
    pub actions: Seq<ActionEventModel>,
    pub simultaneous: Seq<SimultaneousActionsModel>,
}

/// What processing one inbound text payload does to the bridge, per
/// section-by-section: decode ([`spec_decode`]), gate and transition
/// ([`spec_apply`]), then emit. A malformed payload changes nothing; a
/// discarded request only registers the connection; an honored request
/// rewrites the connection's state, always queues one snapshot of the
/// post-mutation state, and queues one discrete event exactly when the
/// transition owes one.
pub open spec fn spec_process_message(
    m: ServerModel,
    id: Seq<char>,
    payload: Seq<char>,
    now: u64,
) -> ServerModel {
    match spec_decode(payload) {
        None => m,
        Some(req) => {
            let st0 = if m.states.dom().contains(id) {
                m.states[id]
            } else {
                ConnectionState::spec_default()
            };
            match spec_apply(st0, req, m.threshold) {
                None => ServerModel { states: m.states.insert(id, st0), ..m },
                Some(out) => ServerModel {
                    threshold: m.threshold,
                    states: m.states.insert(id, out.state),
                    simultaneous: push_evict(
                        m.simultaneous,
                        SimultaneousActionsModel {
                            connection_id: id,
                            movement: out.state.current_movement,
                            shooting: out.state.is_shooting,
                            movement_pressure: out.state.movement_pressure,
                            shoot_pressure: out.state.shoot_pressure,
                            timestamp: now,
                        },
                        QUEUE_CAPACITY as nat,
                    ),
                    actions: if out.send_discrete {
                        push_evict(
                            m.actions,
                            ActionEventModel {
                                connection_id: id,
                                action: out.action,
                                pressure: req.pressure,
                                timestamp: now,
                            },
                            QUEUE_CAPACITY as nat,
                        )
                    } else {
                        m.actions
                    },
                },
            }
        },
    }
}

/// A payload carrying a gated tag whose pressure does not exceed the
/// threshold is fully discarded: no discrete event, no snapshot, no
/// threshold change, and no state change beyond registering the
/// connection with its existing (or default) state.
pub proof fn lemma_gated_message_discarded(
    m: ServerModel,
    id: Seq<char>,
    payload: Seq<char>,
    now: u64,
)
    requires
        ({
            match spec_decode(payload) {
                Some(req) => {
                    &&& (req.kind == RequestKind::PeakLeft || req.kind == RequestKind::PeakRight
                        || req.kind == RequestKind::PeakShoot)
                    &&& req.pressure <= m.threshold
                },
                None => false,
            }
        }),
    ensures
        ({
            let r = spec_process_message(m, id, payload, now);
            let st0 = if m.states.dom().contains(id) {
                m.states[id]
            } else {
                ConnectionState::spec_default()
            };
            &&& r.actions == m.actions
            &&& r.simultaneous == m.simultaneous
            &&& r.threshold == m.threshold
            &&& r.states == m.states.insert(id, st0)
            &&& m.states.dom().contains(id) ==> r.states =~= m.states
        }),
{
    let req = spec_decode(payload)->Some_0;
    let st0 = if m.states.dom().contains(id) {
        m.states[id]
    } else {
        ConnectionState::spec_default()
    };
    crate::actions::lemma_gated_below_threshold(st0, req.kind, req.pressure, m.threshold);
}

/// A `peakleft` payload whose pressure exceeds the threshold sets the
/// connection's movement to `MoveLeft` with that pressure, queues exactly
/// one discrete `MoveLeft` event carrying the pressure and timestamp, and
/// queues exactly one snapshot of the post-mutation state.
pub proof fn lemma_peakleft_message_emits(
    m: ServerModel,
    id: Seq<char>,
    payload: Seq<char>,
    now: u64,
)
    requires
        ({
            match spec_decode(payload) {
                Some(req) => req.kind == RequestKind::PeakLeft && req.pressure > m.threshold,
                None => false,
            }
        }),
    ensures
        ({
            let r = spec_process_message(m, id, payload, now);
            let req = spec_decode(payload)->Some_0;
            let st0 = if m.states.dom().contains(id) {
                m.states[id]
            } else {
                ConnectionState::spec_default()
            };
            let st1 = ConnectionState {
                current_movement: Some(GameAction::MoveLeft),
                movement_pressure: req.pressure,
                ..st0
            };
            &&& r.threshold == m.threshold
            &&& r.states == m.states.insert(id, st1)
            &&& r.actions == push_evict(
                m.actions,
                ActionEventModel {
                    connection_id: id,
                    action: GameAction::MoveLeft,
                    pressure: req.pressure,
                    timestamp: now,
                },
                QUEUE_CAPACITY as nat,
            )
            &&& r.simultaneous == push_evict(
                m.simultaneous,
                SimultaneousActionsModel {
                    connection_id: id,
                    movement: Some(GameAction::MoveLeft),
                    shooting: st0.is_shooting,
                    movement_pressure: req.pressure,
                    shoot_pressure: st0.shoot_pressure,
                    timestamp: now,
                },
                QUEUE_CAPACITY as nat,
            )
        }),
{
    let req = spec_decode(payload)->Some_0;
    let st0 = if m.states.dom().contains(id) {
        m.states[id]
    } else {
        ConnectionState::spec_default()
    };
    crate::actions::lemma_peakleft_above_threshold(st0, req.pressure, m.threshold);
}

/// The acknowledgment frame sent once when a connection opens.
pub open spec fn spec_ack_frame(id: Seq<char>) -> Seq<char> {
    "{\"type\":\"connected\",\"connection_id\":\""@ + id + "\"}"@
}

/// Where a connection stands in its life: accepted but not yet
/// registered, registered and reading frames, or done. `Closed` is
/// terminal.
#[derive(Clone, Copy, Debug, PartialEq, Eq, Structural)]
pub enum ConnectionPhase {
    Connecting,
    Open,
    Closed,
}

/// One open connection as the transport shell sees it: its assigned
/// identity and where it stands.
#[derive(Debug)]
pub struct ConnectionSession {
    pub id: String,
    pub phase: ConnectionPhase,
}

/// One inbound transport event, reduced to plain values.
#[derive(Debug)]
pub enum FrameEvent {
    /// A text frame carrying a payload for the request decoder.
    Text(String),
    /// A liveness probe; its payload is echoed back.
    Ping(Vec<u8>),
    /// The peer closed the connection.
    Close,
    /// The transport failed; the connection is over.
    TransportError,
    /// Any other frame; ignored.
    Other,
}

proof fn lemma_model_push_evict<T: View>(s: Seq<T>, e: T, cap: nat)
    requires
        cap >= 1,
    ensures
        models_of(push_evict(s, e, cap)) =~= push_evict(models_of(s), e@, cap),
{
    let f = |x: T| x@;
    let lhs = models_of(push_evict(s, e, cap));
    let rhs = push_evict(models_of(s), e@, cap);
    assert(lhs.len() == rhs.len());
    assert forall|i: int| 0 <= i < lhs.len() implies lhs[i] == rhs[i] by {
        if s.len() < cap {
            if i < s.len() {
                assert(lhs[i] == f(s[i]));
                assert(rhs[i] == f(s[i]));
            }
        } else {
            if i + 1 < s.len() {
                assert(lhs[i] == f(s.drop_first()[i]));
                assert(s.drop_first()[i] == s[i + 1]);
                assert(rhs[i] == models_of(s).drop_first()[i]);
                assert(models_of(s).drop_first()[i] == f(s[i + 1]));
            }
        }
    }
    assert(lhs =~= rhs);
}

/// The sensor-to-action bridge: accepts decoded controller telemetry and
/// exposes the two output queues and the threshold gate to the consumer.
#[derive(Debug)]
pub struct ArduinoServer {
    pub pressure_threshold: u64,
    pub connection_states: ConnectionStore,
    pub action_queue: BoundedQueue<ActionEvent>,
    pub simultaneous_queue: BoundedQueue<SimultaneousActions>,
}

impl ArduinoServer {
    /// The store keeps unique keys and both queues keep their fixed
    /// capacity.
    pub open spec fn wf(&self) -> bool {
        &&& self.connection_states.wf()
        &&& self.action_queue.wf()
        &&& self.action_queue.spec_capacity() == QUEUE_CAPACITY as nat
        &&& self.simultaneous_queue.wf()
        &&& self.simultaneous_queue.spec_capacity() == QUEUE_CAPACITY as nat
    }

    /// The bridge as a mathematical value.
    pub open spec fn model(&self) -> ServerModel {
        ServerModel {
            threshold: self.pressure_threshold,
            states: self.connection_states@,
            actions: models_of(self.action_queue@),
            simultaneous: models_of(self.simultaneous_queue@),
        }
    }

    /// A bridge with no connections, empty queues, and the default
    /// threshold.
    pub fn new() -> (s: ArduinoServer)
        ensures
            s.wf(),
            s.pressure_threshold == DEFAULT_PRESSURE_THRESHOLD,
            s.model().states == Map::<Seq<char>, ConnectionState>::empty(),
            s.model().actions == Seq::<ActionEventModel>::empty(),
            s.model().simultaneous == Seq::<SimultaneousActionsModel>::empty(),
    {
        let s = ArduinoServer {
            pressure_threshold: DEFAULT_PRESSURE_THRESHOLD,
            connection_states: ConnectionStore::new(),
            action_queue: BoundedQueue::new(QUEUE_CAPACITY),
            simultaneous_queue: BoundedQueue::new(QUEUE_CAPACITY),
        };
        proof {
            assert(s.model().actions =~= Seq::<ActionEventModel>::empty());
            assert(s.model().simultaneous =~= Seq::<SimultaneousActionsModel>::empty());
        }
        s
    }

    /// Sets the shared pressure threshold; every later gating decision
    /// reads the new value.
    pub fn set_pressure_threshold(&mut self, threshold: u64)
        ensures
            final(self).pressure_threshold == threshold,
            final(self).connection_states == old(self).connection_states,
            final(self).action_queue == old(self).action_queue,
            final(self).simultaneous_queue == old(self).simultaneous_queue,
            final(self).wf() == old(self).wf(),
    {
        self.pressure_threshold = threshold;
    }

    /// Reads the shared pressure threshold.
    pub fn get_pressure_threshold(&self) -> (r: u64)
        ensures
            r == self.pressure_threshold,
    {
        self.pressure_threshold
    }

    /// Registers a freshly accepted connection: assigns it a new
    /// identity, records the default gesture state for it (keeping
    /// whatever state an identity already present had), and returns the
    /// open session together with the acknowledgment frame to send.
    ///
    /// Identities come from a random 128-bit draw, so a returning one is
    /// never expected; nothing here relies on it.
    pub fn accept_connection(&mut self) -> (r: (ConnectionSession, String))
        requires
            old(self).wf(),
        ensures
            final(self).wf(),
            r.0.phase == ConnectionPhase::Open,
            r.1@ == spec_ack_frame(r.0.id@),
            final(self).model().states == if old(self).model().states.dom().contains(r.0.id@) {
                old(self).model().states
            } else {
                old(self).model().states.insert(r.0.id@, ConnectionState::spec_default())
            },
            final(self).model().threshold == old(self).model().threshold,
            final(self).model().actions == old(self).model().actions,
            final(self).model().simultaneous == old(self).model().simultaneous,
    {
        let id = fresh_connection_id();
        self.connection_states.upsert_default(id.as_str());
        let ack = build_ack_frame(id.as_str());
        (ConnectionSession { id, phase: ConnectionPhase::Open }, ack)
    }

    /// Processes one inbound text payload from `connection_id`, stamping
    /// whatever it emits with `now`: the whole step is
    /// [`spec_process_message`] on the bridge's model.
    pub fn process_message(&mut self, connection_id: &str, payload: &str, now: u64)
        requires
            old(self).wf(),
        ensures
            final(self).wf(),
            final(self).model() == spec_process_message(
                old(self).model(),
                connection_id@,
                payload@,
                now,
            ),
    {
        let threshold = self.pressure_threshold;
        match decode_request(payload) {
            None => {},
            Some(req) => {
                match self.connection_states.apply(connection_id, req, threshold) {
                    None => {},
                    Some((st1, act, disc)) => {
                        let snap = SimultaneousActions {
                            connection_id: connection_id.to_owned(),
                            movement: st1.current_movement,
                            shooting: st1.is_shooting,
                            movement_pressure: st1.movement_pressure,
                            shoot_pressure: st1.shoot_pressure,
                            timestamp: now,
                        };
                        proof {
                            lemma_model_push_evict(
                                self.simultaneous_queue@,
                                snap,
                                QUEUE_CAPACITY as nat,
                            );
                        }
                        self.simultaneous_queue.push(snap);
                        if disc {
                            let ev = ActionEvent {
                                connection_id: connection_id.to_owned(),
                                action: act,
                                pressure: req.pressure,
                                timestamp: now,
                            };
                            proof {
                                lemma_model_push_evict(
                                    self.action_queue@,
                                    ev,
                                    QUEUE_CAPACITY as nat,
                                );
                            }
                            self.action_queue.push(ev);
                        }
                    },
                }
            },
        }
        proof {
            assert(self.model() =~~= spec_process_message(
                old(self).model(),
                connection_id@,
                payload@,
                now,
            ));
        }
    }

    /// Drives one transport event for an open session: a text frame goes
    /// through [`Self::process_message`], a ping asks for its payload to
    /// be echoed, and a close or a transport error removes the
    /// connection's state and ends the session. A failing transport ends
    /// only this session; the rest of the bridge is untouched.
    pub fn handle_frame(&mut self, session: &mut ConnectionSession, event: FrameEvent, now: u64)
        -> (reply: Option<Vec<u8>>)
        requires
            old(self).wf(),
            old(session).phase == ConnectionPhase::Open,
        ensures
            final(self).wf(),
            final(session).id == old(session).id,
            final(self).model().threshold == old(self).model().threshold,
            match event {
                FrameEvent::Text(text) => {
                    &&& final(self).model() == spec_process_message(
                        old(self).model(),
                        old(session).id@,
                        text@,
                        now,
                    )
                    &&& final(session).phase == ConnectionPhase::Open
                    &&& reply is None
                },
                FrameEvent::Ping(p) => {
                    &&& final(self).model() == old(self).model()
                    &&& final(session).phase == ConnectionPhase::Open
                    &&& reply == Some(p)
                },
                FrameEvent::Close | FrameEvent::TransportError => {
                    &&& final(self).model() == (ServerModel {
                        states: old(self).model().states.remove(old(session).id@),
                        ..old(self).model()
                    })
                    &&& final(session).phase == ConnectionPhase::Closed
                    &&& reply is None
                },
                FrameEvent::Other => {
                    &&& final(self).model() == old(self).model()
                    &&& final(session).phase == ConnectionPhase::Open
                    &&& reply is None
                },
            },
    {
        match event {
            FrameEvent::Text(text) => {
                self.process_message(session.id.as_str(), text.as_str(), now);
                None
            },
            FrameEvent::Ping(p) => Some(p),
            FrameEvent::Close => {
                self.connection_states.remove(session.id.as_str());
                session.phase = ConnectionPhase::Closed;
                None
            },
            FrameEvent::TransportError => {
                self.connection_states.remove(session.id.as_str());
                session.phase = ConnectionPhase::Closed;
                None
            },
            FrameEvent::Other => None,
        }
    }

    /// Removes and returns every queued discrete event, in insertion
    /// order, leaving the queue empty; a second drain with no pushes in
    /// between returns nothing.
    pub fn drain_actions(&mut self) -> (r: Vec<ActionEvent>)
        requires
            old(self).wf(),
        ensures
            final(self).wf(),
            r@ == old(self).action_queue@,
            models_of(r@) == old(self).model().actions,
            final(self).model() == (ServerModel {
                actions: Seq::<ActionEventModel>::empty(),
                ..old(self).model()
            }),
    {
        let r = self.action_queue.drain();
        proof {
            assert(self.model().actions =~= Seq::<ActionEventModel>::empty());
            assert(self.model() =~~= (ServerModel {
                actions: Seq::<ActionEventModel>::empty(),
                ..old(self).model()
            }));
        }
        r
    }

    /// Removes and returns every queued gesture snapshot, in insertion
    /// order, leaving the queue empty.
    pub fn get_simultaneous_actions(&mut self) -> (r: Vec<SimultaneousActions>)
        requires
            old(self).wf(),
        ensures
            final(self).wf(),
            r@ == old(self).simultaneous_queue@,
            models_of(r@) == old(self).model().simultaneous,
            final(self).model() == (ServerModel {
                simultaneous: Seq::<SimultaneousActionsModel>::empty(),
                ..old(self).model()
            }),
    {
        let r = self.simultaneous_queue.drain();
        proof {
            assert(self.model().simultaneous =~= Seq::<SimultaneousActionsModel>::empty());
            assert(self.model() =~~= (ServerModel {
                simultaneous: Seq::<SimultaneousActionsModel>::empty(),
                ..old(self).model()
            }));
        }
        r
    }
}

/// Relies on `uuid::Uuid::new_v4` and its simple format: a fresh random
/// identity rendered as 32 lowercase hexadecimal digits, here behind an
/// `arduino-` prefix.
#[verifier::external_body]
fn fresh_connection_id() -> (r: String)
    ensures
        r@.len() == 40,
{
    let id = uuid::Uuid::new_v4();
    format!("arduino-{}", id.simple())
}

fn build_ack_frame(id: &str) -> (r: String)
    ensures
        r@ == spec_ack_frame(id@),
{
    let mut r = String::from_str("{\"type\":\"connected\",\"connection_id\":\"");
    r.append(id);
    r.append("\"}");
    r
}

} // verus!
