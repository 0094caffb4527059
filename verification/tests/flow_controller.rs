use scred_http::h2::flow_controller::{FlowController, FlowWindow};

#[test]
fn test_flow_window_creation() {
    let window = FlowWindow::new(65535);
    assert_eq!(window.available(), 65535);
    assert_eq!(window.total_consumed(), 0);
}

#[test]
fn test_flow_window_consume() {
    let mut window = FlowWindow::new(65535);
    
    window.consume(1000).unwrap();
    assert_eq!(window.available(), 64535);
    assert_eq!(window.total_consumed(), 1000);
}

#[test]
fn test_flow_window_exhaust() {
    let mut window = FlowWindow::new(1000);
    
    let result = window.consume(2000);
    assert!(result.is_err());
    assert_eq!(window.available(), 1000); // Unchanged
}

#[test]
fn test_flow_window_update() {
    let mut window = FlowWindow::new(1000);
    window.consume(500).unwrap();
    
    window.update(500).unwrap();
    assert_eq!(window.available(), 1000);
}

#[test]
fn test_flow_controller_creation() {
    let controller = FlowController::new();
    assert_eq!(controller.connection_window_available(), 65535);
}

#[test]
fn test_flow_controller_stream_creation() {
    let mut controller = FlowController::new();
    
    controller.create_stream(1).unwrap();
    assert_eq!(controller.stream_window_available(1), Some(65535));
}

#[test]
fn test_flow_controller_consume() {
    let mut controller = FlowController::new();
    controller.create_stream(1).unwrap();
    
    controller.consume_data(1, 1000).unwrap();
    assert_eq!(controller.connection_window_available(), 64535);
    assert_eq!(controller.stream_window_available(1), Some(64535));
}

#[test]
fn test_flow_controller_update_threshold() {
    let mut controller = FlowController::new();
    controller.create_stream(1).unwrap();
    
    // Consume 50% of window (32767 bytes)
    let half_window = 32767u32;
    controller.consume_data(1, half_window).unwrap();
    
    assert!(controller.should_update_connection());
    assert!(controller.should_update_stream(1));
    
    let update = controller.get_connection_update();
    assert_eq!(update, Some(half_window));
}

#[test]
fn test_flow_controller_close_stream() {
    let mut controller = FlowController::new();
    controller.create_stream(1).unwrap();
    
    controller.close_stream(1);
    assert_eq!(controller.stream_window_available(1), None);
}

#[test]
fn test_flow_controller_stats() {
    let mut controller = FlowController::new();
    controller.create_stream(1).unwrap();
    
    controller.consume_data(1, 1000).unwrap();
    
    let stats = controller.stats();
    assert_eq!(stats.stream_count, 1);
    assert_eq!(stats.connection_window_consumed, 1000);
}

#[test]
fn test_flow_controller_window_update() {
    let mut controller = FlowController::new();
    
    controller.handle_window_update(0, 5000).unwrap();
    assert_eq!(controller.connection_window_available(), 65535 + 5000);
}


#[test]
fn controller_refuses_unknown_and_duplicate_streams() {
    let mut c = FlowController::new();
    c.create_stream(3).unwrap();
    assert_eq!(c.create_stream(3).unwrap_err(), "Stream 3 window already exists");
    assert_eq!(c.consume_data(5, 10).unwrap_err(), "Stream 5 window not found");
    assert_eq!(c.connection_window_available(), 65525);
    assert_eq!(c.handle_window_update(7, 1).unwrap_err(), "Stream 7 window not found");
    assert_eq!(c.consume_data(3, 70000).unwrap_err(), "Flow control window exhausted: need 70000, have 65525");
}

#[test]
fn controller_stream_update_and_backpressure() {
    let mut c = FlowController::new();
    c.create_stream(1).unwrap();
    c.consume_data(1, 32766).unwrap();
    assert!(!c.should_update_stream(1));
    assert_eq!(c.get_stream_update(1), None);
    c.consume_data(1, 32769).unwrap();
    assert_eq!(c.connection_window_available(), 0);
    assert_eq!(c.stats().backpressure_events, 1);
    assert_eq!(c.get_stream_update(1), Some(65535));
    assert!(!c.should_update_stream(1));
    assert_eq!(c.stats().updates_sent, 1);
    assert_eq!(c.stats().to_string(), "FlowControl: 0 bytes available, 65535 consumed, 1 streams, 1 updates, 1 backpressure");
    assert!(c.handle_window_update(1, i32::MAX as u32 + 1).is_err());
    assert!(c.handle_window_update(1, i32::MAX as u32).is_ok());
}
