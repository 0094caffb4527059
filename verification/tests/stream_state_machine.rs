use scred_http::h2::stream_state_machine::{StreamState, StreamStateMachine};

#[test]
fn test_state_can_send() {
    assert!(!StreamState::Idle.can_send());
    assert!(StreamState::Open.can_send());
    assert!(StreamState::HalfClosedRemote.can_send());
    assert!(!StreamState::HalfClosedLocal.can_send());
    assert!(!StreamState::Closed.can_send());
}

#[test]
fn test_state_can_receive() {
    assert!(!StreamState::Idle.can_receive());
    assert!(StreamState::Open.can_receive());
    assert!(StreamState::HalfClosedLocal.can_receive());
    assert!(!StreamState::HalfClosedRemote.can_receive());
    assert!(!StreamState::Closed.can_receive());
}

#[test]
fn test_state_is_active() {
    assert!(!StreamState::Idle.is_active());
    assert!(StreamState::Open.is_active());
    assert!(!StreamState::Closed.is_active());
}

#[test]
fn test_state_name() {
    assert_eq!(StreamState::Open.name(), "OPEN");
    assert_eq!(StreamState::HalfClosedLocal.name(), "HALF_CLOSED_LOCAL");
    assert_eq!(StreamState::Closed.name(), "CLOSED");
}

#[test]
fn test_normal_request_response_cycle() {
    let mut sm = StreamStateMachine::new(1);

    // Client sends headers
    assert!(sm.send_headers().is_ok());
    assert_eq!(sm.state(), StreamState::Open);

    // Server sends data with END_STREAM (response)
    assert!(sm.receive_data(true).is_ok());
    assert_eq!(sm.state(), StreamState::HalfClosedRemote);

    // Client sends data with END_STREAM (request body)
    assert!(sm.send_data(true).is_ok());
    assert_eq!(sm.state(), StreamState::Closed);
}

#[test]
fn test_send_headers_not_idle() {
    let mut sm = StreamStateMachine::new(1);
    let _ = sm.send_headers();

    // Can't send headers again
    let result = sm.send_headers();
    assert!(result.is_err());
}

#[test]
fn test_send_data_before_headers() {
    let mut sm = StreamStateMachine::new(1);

    // Can't send data on idle stream
    let result = sm.send_data(false);
    assert!(result.is_err());
}

#[test]
fn test_receive_data_before_headers() {
    let mut sm = StreamStateMachine::new(1);

    // Can't receive data on idle stream
    let result = sm.receive_data(false);
    assert!(result.is_err());
}

#[test]
fn stream_state_machine_test_reset_stream() {
    let mut sm = StreamStateMachine::new(1);
    let _ = sm.send_headers();

    // Can reset open stream
    assert!(sm.reset().is_ok());
    assert_eq!(sm.state(), StreamState::Closed);
}

#[test]
fn test_reset_idle_stream() {
    let mut sm = StreamStateMachine::new(1);

    // Can't reset idle stream
    let result = sm.reset();
    assert!(result.is_err());
}

#[test]
fn test_push_promise_valid() {
    let mut sm = StreamStateMachine::new(1);
    let _ = sm.send_headers();

    // Can send PUSH_PROMISE on open stream
    assert!(sm.push_promise().is_ok());
}

#[test]
fn test_push_promise_half_closed_remote() {
    let mut sm = StreamStateMachine::new(1);
    let _ = sm.send_headers();
    let _ = sm.receive_data(true); // Half-closed remote

    // Can send PUSH_PROMISE on half-closed remote stream
    assert!(sm.push_promise().is_ok());
}

#[test]
fn test_push_promise_invalid() {
    let mut sm = StreamStateMachine::new(1);

    // Can't send PUSH_PROMISE on idle stream
    let result = sm.push_promise();
    assert!(result.is_err());
}

#[test]
fn test_reserve_local() {
    let mut sm = StreamStateMachine::new(3); // Even = server-initiated

    // Can reserve local on idle stream
    assert!(sm.reserve_local().is_ok());
    assert_eq!(sm.state(), StreamState::ReservedLocal);
}

#[test]
fn test_reserve_remote() {
    let mut sm = StreamStateMachine::new(4); // Even = server-initiated

    // Can reserve remote on idle stream
    assert!(sm.reserve_remote().is_ok());
    assert_eq!(sm.state(), StreamState::ReservedRemote);
}

#[test]
fn test_reserved_remote_to_half_closed_local() {
    let mut sm = StreamStateMachine::new(2);
    let _ = sm.reserve_remote();

    // Receive headers on reserved remote
    assert!(sm.receive_headers().is_ok());
    assert_eq!(sm.state(), StreamState::HalfClosedLocal);
}

#[test]
fn test_priority_on_open_stream() {
    let mut sm = StreamStateMachine::new(1);
    let _ = sm.send_headers();

    // Can receive PRIORITY on open stream
    assert!(sm.can_receive_priority());
}

#[test]
fn test_priority_on_closed_stream() {
    let mut sm = StreamStateMachine::new(1);
    let _ = sm.send_headers();
    let _ = sm.send_data(true);
    let _ = sm.receive_data(true);

    // Can't receive PRIORITY on closed stream
    assert!(!sm.can_receive_priority());
}

#[test]
fn test_window_update_on_open_stream() {
    let mut sm = StreamStateMachine::new(1);
    let _ = sm.send_headers();

    // Can receive WINDOW_UPDATE on open stream
    assert!(sm.can_receive_window_update());
}

#[test]
fn test_window_update_on_closed_stream() {
    let mut sm = StreamStateMachine::new(1);
    let _ = sm.send_headers();
    let _ = sm.send_data(true);
    let _ = sm.receive_data(true);

    // Can't receive WINDOW_UPDATE on closed stream
    assert!(!sm.can_receive_window_update());
}

#[test]
fn test_half_closed_local_no_send() {
    let mut sm = StreamStateMachine::new(1);
    let _ = sm.send_headers();
    let _ = sm.send_data(true);

    assert_eq!(sm.state(), StreamState::HalfClosedLocal);

    // Can't send more data
    let result = sm.send_data(false);
    assert!(result.is_err());
}

#[test]
fn test_half_closed_remote_no_receive() {
    let mut sm = StreamStateMachine::new(1);
    let _ = sm.send_headers();
    let _ = sm.receive_data(true);

    assert_eq!(sm.state(), StreamState::HalfClosedRemote);

    // Can't receive more data
    let result = sm.receive_data(false);
    assert!(result.is_err());
}

#[test]
fn test_receive_reset_from_open() {
    let mut sm = StreamStateMachine::new(1);
    let _ = sm.send_headers();

    // Receive RST_STREAM
    assert!(sm.receive_reset().is_ok());
    assert_eq!(sm.state(), StreamState::Closed);
}

#[test]
fn test_send_and_receive_end_stream_order() {
    let mut sm = StreamStateMachine::new(1);
    let _ = sm.send_headers();

    // Send END_STREAM first
    let _ = sm.send_data(true);
    assert_eq!(sm.state(), StreamState::HalfClosedLocal);

    // Then receive END_STREAM
    let _ = sm.receive_data(true);
    assert_eq!(sm.state(), StreamState::Closed);
}
