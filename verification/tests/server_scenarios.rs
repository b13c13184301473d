use sensor_bridge::actions::{ConnectionState, GameAction};
use sensor_bridge::server::{ArduinoServer, ConnectionPhase, FrameEvent, QUEUE_CAPACITY};

fn default_state() -> ConnectionState {
    ConnectionState {
        current_movement: None,
        is_shooting: false,
        movement_pressure: 0,
        shoot_pressure: 0,
    }
}

#[test]
fn new_server_is_empty_with_default_threshold() {
    let mut server = ArduinoServer::new();
    assert_eq!(server.get_pressure_threshold(), 500);
    assert!(server.drain_actions().is_empty());
    assert!(server.get_simultaneous_actions().is_empty());
}

#[test]
fn threshold_set_then_get() {
    let mut server = ArduinoServer::new();
    server.set_pressure_threshold(750);
    assert_eq!(server.get_pressure_threshold(), 750);
}

#[test]
fn peakleft_above_threshold_emits_event_and_snapshot() {
    let mut server = ArduinoServer::new();
    server.set_pressure_threshold(500);
    server.process_message("C1", "{\"action\":\"peakleft\",\"pressure\":600}", 7);

    let state = server.connection_states.get("C1").unwrap();
    assert_eq!(state.current_movement, Some(GameAction::MoveLeft));
    assert_eq!(state.movement_pressure, 600);
    assert!(!state.is_shooting);
    assert_eq!(state.shoot_pressure, 0);

    let events = server.drain_actions();
    assert_eq!(events.len(), 1);
    assert_eq!(events[0].connection_id, "C1");
    assert_eq!(events[0].action, GameAction::MoveLeft);
    assert_eq!(events[0].pressure, 600);
    assert_eq!(events[0].timestamp, 7);

    let snaps = server.get_simultaneous_actions();
    assert_eq!(snaps.len(), 1);
    assert_eq!(snaps[0].connection_id, "C1");
    assert_eq!(snaps[0].movement, Some(GameAction::MoveLeft));
    assert!(!snaps[0].shooting);
    assert_eq!(snaps[0].movement_pressure, 600);
    assert_eq!(snaps[0].shoot_pressure, 0);
    assert_eq!(snaps[0].timestamp, 7);
}

#[test]
fn gated_request_below_threshold_is_fully_discarded() {
    let mut server = ArduinoServer::new();
    server.set_pressure_threshold(500);
    server.process_message("C1", "{\"action\":\"peakleft\",\"pressure\":600}", 7);
    let _ = server.drain_actions();
    let _ = server.get_simultaneous_actions();
    let before = server.connection_states.get("C1").unwrap();

    server.process_message("C1", "{\"action\":\"peakshoot\",\"pressure\":300}", 8);

    let after = server.connection_states.get("C1").unwrap();
    assert_eq!(after, before);
    assert!(server.drain_actions().is_empty());
    assert!(server.get_simultaneous_actions().is_empty());
}

#[test]
fn equal_to_threshold_does_not_trigger() {
    let mut server = ArduinoServer::new();
    server.set_pressure_threshold(500);
    server.process_message("C1", "{\"action\":\"peakright\",\"pressure\":500}", 1);
    assert!(server.drain_actions().is_empty());
    assert!(server.get_simultaneous_actions().is_empty());
    assert_eq!(server.connection_states.get("C1").unwrap(), default_state());
}

#[test]
fn stop_resets_state_regardless_of_prior_state() {
    let mut server = ArduinoServer::new();
    server.set_pressure_threshold(500);
    server.process_message("C1", "{\"action\":\"peakleft\",\"pressure\":900}", 1);
    server.process_message("C1", "{\"action\":\"peakshoot\",\"pressure\":800}", 2);
    server.process_message("C1", "{\"action\":\"stop\"}", 3);

    assert_eq!(server.connection_states.get("C1").unwrap(), default_state());
    let events = server.drain_actions();
    assert_eq!(events.len(), 3);
    assert_eq!(events[2].action, GameAction::Idle);
    assert_eq!(events[2].pressure, 0);
}

#[test]
fn stopmovement_clears_movement_and_emits_idle() {
    let mut server = ArduinoServer::new();
    server.process_message("C1", "{\"action\":\"peakleft\",\"pressure\":900}", 1);
    server.process_message("C1", "{\"action\":\"peakshoot\",\"pressure\":800}", 2);
    server.process_message("C1", "{\"action\":\"stopmovement\"}", 3);

    let state = server.connection_states.get("C1").unwrap();
    assert_eq!(state.current_movement, None);
    assert_eq!(state.movement_pressure, 0);
    assert!(state.is_shooting);
    assert_eq!(state.shoot_pressure, 800);
    let events = server.drain_actions();
    assert_eq!(events.len(), 3);
    assert_eq!(events[2].action, GameAction::Idle);
}

#[test]
fn stopshooting_clears_shooting_without_discrete_event() {
    let mut server = ArduinoServer::new();
    server.process_message("C1", "{\"action\":\"peakshoot\",\"pressure\":800}", 1);
    let _ = server.drain_actions();
    let _ = server.get_simultaneous_actions();

    server.process_message("C1", "{\"action\":\"stopshooting\"}", 2);

    let state = server.connection_states.get("C1").unwrap();
    assert!(!state.is_shooting);
    assert_eq!(state.shoot_pressure, 0);
    assert!(server.drain_actions().is_empty());
    let snaps = server.get_simultaneous_actions();
    assert_eq!(snaps.len(), 1);
    assert!(!snaps[0].shooting);
}

#[test]
fn unknown_tag_is_a_no_op() {
    let mut server = ArduinoServer::new();
    server.process_message("C1", "{\"action\":\"dance\",\"pressure\":900}", 1);
    assert!(server.drain_actions().is_empty());
    assert!(server.get_simultaneous_actions().is_empty());
    assert_eq!(server.connection_states.get("C1").unwrap(), default_state());
}

#[test]
fn malformed_payload_changes_nothing() {
    let mut server = ArduinoServer::new();
    server.process_message("C1", "not json at all", 1);
    server.process_message("C1", "{\"pressure\":900}", 2);
    assert!(server.drain_actions().is_empty());
    assert!(server.get_simultaneous_actions().is_empty());
    assert!(server.connection_states.get("C1").is_none());
}

#[test]
fn drain_actions_twice_returns_empty_second_time() {
    let mut server = ArduinoServer::new();
    server.process_message("C1", "{\"action\":\"peakleft\",\"pressure\":600}", 1);
    let first = server.drain_actions();
    assert!(!first.is_empty());
    let second = server.drain_actions();
    assert!(second.is_empty());
}

#[test]
fn per_connection_order_is_kept_in_the_queues() {
    let mut server = ArduinoServer::new();
    server.process_message("C1", "{\"action\":\"peakleft\",\"pressure\":600}", 1);
    server.process_message("C1", "{\"action\":\"peakright\",\"pressure\":700}", 2);
    server.process_message("C1", "{\"action\":\"peakshoot\",\"pressure\":800}", 3);
    let events = server.drain_actions();
    assert_eq!(events.len(), 3);
    assert_eq!(events[0].action, GameAction::MoveLeft);
    assert_eq!(events[1].action, GameAction::MoveRight);
    assert_eq!(events[2].action, GameAction::Shoot);
    assert!(events[0].timestamp <= events[1].timestamp);
    assert!(events[1].timestamp <= events[2].timestamp);
}

#[test]
fn queue_overflow_keeps_the_newest_fifty() {
    let mut server = ArduinoServer::new();
    for i in 0..(QUEUE_CAPACITY as u64 + 1) {
        let payload = format!("{{\"action\":\"peakleft\",\"pressure\":{}}}", 600 + i);
        server.process_message("C1", &payload, i);
    }
    let events = server.drain_actions();
    assert_eq!(events.len(), QUEUE_CAPACITY);
    assert_eq!(events[0].pressure, 601);
    assert_eq!(events[QUEUE_CAPACITY - 1].pressure, 600 + QUEUE_CAPACITY as u64);
}

#[test]
fn accept_connection_sends_ack_and_registers_default_state() {
    let mut server = ArduinoServer::new();
    let (session, ack) = server.accept_connection();
    assert_eq!(session.phase, ConnectionPhase::Open);
    assert_eq!(session.id.len(), 40);
    assert!(session.id.starts_with("arduino-"));
    assert_eq!(
        ack,
        format!("{{\"type\":\"connected\",\"connection_id\":\"{}\"}}", session.id)
    );
    assert_eq!(
        server.connection_states.get(session.id.as_str()).unwrap(),
        default_state()
    );

    let (session2, _) = server.accept_connection();
    assert_ne!(session.id, session2.id);
}

#[test]
fn handle_frame_drives_the_session() {
    let mut server = ArduinoServer::new();
    let (mut session, _) = server.accept_connection();
    let id = session.id.clone();

    let reply = server.handle_frame(
        &mut session,
        FrameEvent::Text("{\"action\":\"peakleft\",\"pressure\":600}".to_string()),
        5,
    );
    assert!(reply.is_none());
    assert_eq!(session.phase, ConnectionPhase::Open);
    assert_eq!(server.drain_actions().len(), 1);

    let reply = server.handle_frame(&mut session, FrameEvent::Ping(vec![1, 2, 3]), 6);
    assert_eq!(reply, Some(vec![1, 2, 3]));
    assert_eq!(session.phase, ConnectionPhase::Open);

    let reply = server.handle_frame(&mut session, FrameEvent::Other, 7);
    assert!(reply.is_none());
    assert_eq!(session.phase, ConnectionPhase::Open);

    let reply = server.handle_frame(&mut session, FrameEvent::Close, 8);
    assert!(reply.is_none());
    assert_eq!(session.phase, ConnectionPhase::Closed);
    assert!(server.connection_states.get(id.as_str()).is_none());
}

#[test]
fn transport_error_ends_only_that_connection() {
    let mut server = ArduinoServer::new();
    let (mut s1, _) = server.accept_connection();
    let (s2, _) = server.accept_connection();

    let _ = server.handle_frame(&mut s1, FrameEvent::TransportError, 1);
    assert_eq!(s1.phase, ConnectionPhase::Closed);
    assert!(server.connection_states.get(s1.id.as_str()).is_none());
    assert!(server.connection_states.get(s2.id.as_str()).is_some());
}
