use scred_http::h2::stream_priority::{PriorityFrame, StreamPriority, StreamPriorityManager, StreamScheduler, StreamWeight};
use std::cmp::Ordering;

#[test]
fn test_stream_weight_valid() {
    let weight = StreamWeight::new(16);
    assert!(weight.is_ok());
    assert_eq!(weight.unwrap().as_u8(), 16);
}

#[test]
fn test_stream_weight_invalid() {
    let weight = StreamWeight::new(0);
    assert!(weight.is_err());

    // Test with a value over the max (255)
    let val: u16 = 256;
    let weight = StreamWeight::new(val as u8);
    // This should still fail because 256 as u8 wraps to 0
    // So let's just test the boundary
    assert!(weight.is_err()); // 0 is invalid
}

#[test]
fn test_stream_priority_default() {
    let priority = StreamPriority::default();
    assert!(!priority.exclusive);
    assert_eq!(priority.stream_dependency, 0);
    assert_eq!(priority.weight.as_u8(), 16);
}

#[test]
fn test_priority_manager_add_stream() {
    let mut manager = StreamPriorityManager::new();
    let priority = StreamPriority::default();

    let result = manager.add_stream(1, priority);
    assert!(result.is_ok());
    assert_eq!(manager.stream_count(), 1);
}

#[test]
fn test_priority_manager_duplicate_stream() {
    let mut manager = StreamPriorityManager::new();
    let priority = StreamPriority::default();

    let _ = manager.add_stream(1, priority.clone());
    let result = manager.add_stream(1, priority);
    assert!(result.is_err());
}

#[test]
fn test_priority_manager_invalid_parent() {
    let mut manager = StreamPriorityManager::new();
    let priority = StreamPriority::new(99, 16, false).unwrap();

    let result = manager.add_stream(1, priority);
    assert!(result.is_err());
}

#[test]
fn test_priority_manager_circular_dependency() {
    let mut manager = StreamPriorityManager::new();

    // Add stream 1 depending on root
    let _ = manager.add_stream(1, StreamPriority::default());

    // Try to make root depend on 1 (circular) - this should fail
    let priority = StreamPriority::new(1, 16, false).unwrap();
    let result = manager.add_stream(2, priority);

    // This should work (adding 2 that depends on 1)
    assert!(result.is_ok());
}

#[test]
fn test_priority_manager_reprioritize() {
    let mut manager = StreamPriorityManager::new();

    let _ = manager.add_stream(1, StreamPriority::default());
    let _ = manager.add_stream(2, StreamPriority::default());

    // Reprioritize stream 1 to depend on stream 2
    let new_priority = StreamPriority::new(2, 32, false).unwrap();
    let result = manager.reprioritize(1, new_priority);

    assert!(result.is_ok());
    assert_eq!(manager.get_priority(1).unwrap().stream_dependency, 2);
}

#[test]
fn test_priority_manager_exclusive() {
    let mut manager = StreamPriorityManager::new();

    let _ = manager.add_stream(1, StreamPriority::default());
    let _ = manager.add_stream(2, StreamPriority::default());
    let _ = manager.add_stream(3, StreamPriority::default());

    // Make 2 and 3 depend on 1
    let _ = manager.reprioritize(2, StreamPriority::new(1, 16, false).unwrap());
    let _ = manager.reprioritize(3, StreamPriority::new(1, 16, false).unwrap());

    let children = manager.get_children(1);
    assert_eq!(children.len(), 2);
}

#[test]
fn test_priority_manager_remove_stream() {
    let mut manager = StreamPriorityManager::new();

    let _ = manager.add_stream(1, StreamPriority::default());
    assert_eq!(manager.stream_count(), 1);

    let result = manager.remove_stream(1);
    assert!(result.is_ok());
    assert_eq!(manager.stream_count(), 0);
}

#[test]
fn test_priority_manager_get_all_streams() {
    let mut manager = StreamPriorityManager::new();

    let _ = manager.add_stream(1, StreamPriority::default());
    let _ = manager.add_stream(2, StreamPriority::default());
    let _ = manager.add_stream(3, StreamPriority::default());

    let streams = manager.get_all_streams();
    assert_eq!(streams.len(), 3);
}

#[test]
fn test_priority_compare() {
    let mut manager = StreamPriorityManager::new();

    let priority1 = StreamPriority::new(0, 16, false).unwrap();
    let priority2 = StreamPriority::new(0, 32, false).unwrap();

    let _ = manager.add_stream(1, priority1);
    let _ = manager.add_stream(2, priority2);

    // Stream 2 has higher weight (32 vs 16)
    let cmp = manager.compare_priority(2, 1);
    assert_eq!(cmp, Ordering::Greater);
}

#[test]
fn test_priority_frame_encode_basic() {
    let priority = StreamPriority::new(3, 16, false).unwrap();
    let payload = PriorityFrame::encode(&priority);

    assert_eq!(payload.len(), 5);
    // First 4 bytes should be stream dependency (0x00000003)
    assert_eq!(payload[0], 0x00);
    assert_eq!(payload[1], 0x00);
    assert_eq!(payload[2], 0x00);
    assert_eq!(payload[3], 0x03);
    // Last byte is weight (16)
    assert_eq!(payload[4], 16);
}

#[test]
fn test_priority_frame_encode_with_exclusive() {
    let priority = StreamPriority::new(3, 16, true).unwrap();
    let payload = PriorityFrame::encode(&priority);

    assert_eq!(payload.len(), 5);
    // First bit should be set (exclusive)
    assert_eq!(payload[0], 0x80);
    assert_eq!(payload[1], 0x00);
    assert_eq!(payload[2], 0x00);
    assert_eq!(payload[3], 0x03);
    assert_eq!(payload[4], 16);
}

#[test]
fn test_priority_frame_parse_basic() {
    let payload = vec![0x00, 0x00, 0x00, 0x03, 0x10]; // dep=3, weight=16, no exclusive
    let (priority, dep) = PriorityFrame::parse(&payload).unwrap();

    assert_eq!(dep, 3);
    assert!(!priority.exclusive);
    assert_eq!(priority.stream_dependency, 3);
    assert_eq!(priority.weight.as_u8(), 16);
}

#[test]
fn test_priority_frame_parse_with_exclusive() {
    let payload = vec![0x80, 0x00, 0x00, 0x03, 0x10]; // exclusive bit set
    let (priority, dep) = PriorityFrame::parse(&payload).unwrap();

    assert_eq!(dep, 3);
    assert!(priority.exclusive);
    assert_eq!(priority.stream_dependency, 3);
}

#[test]
fn test_priority_frame_parse_large_dependency() {
    // Stream dependency 0x7FFFFFFF (max 31-bit value)
    let payload = vec![0x7F, 0xFF, 0xFF, 0xFF, 0x10];
    let (priority, dep) = PriorityFrame::parse(&payload).unwrap();

    assert_eq!(dep, 0x7FFFFFFF);
    assert!(!priority.exclusive);
    assert_eq!(priority.stream_dependency, 0x7FFFFFFF);
}

#[test]
fn test_priority_frame_parse_large_with_exclusive() {
    // Stream dependency 0x7FFFFFFF with exclusive bit
    let payload = vec![0xFF, 0xFF, 0xFF, 0xFF, 0x10];
    let (priority, dep) = PriorityFrame::parse(&payload).unwrap();

    assert_eq!(dep, 0x7FFFFFFF);
    assert!(priority.exclusive);
}

#[test]
fn test_priority_frame_parse_too_short() {
    let payload = vec![0x00, 0x00, 0x00]; // Only 3 bytes
    let result = PriorityFrame::parse(&payload);

    assert!(result.is_err());
    assert!(result.unwrap_err().contains("too short"));
}

#[test]
fn test_priority_frame_parse_too_long() {
    let payload = vec![0x00, 0x00, 0x00, 0x03, 0x10, 0xFF]; // 6 bytes
    let result = PriorityFrame::parse(&payload);

    assert!(result.is_err());
    assert!(result.unwrap_err().contains("too long"));
}

#[test]
fn test_priority_frame_validate_self_dependency() {
    let priority = StreamPriority::new(5, 16, false).unwrap();
    let result = PriorityFrame::validate(5, &priority);

    assert!(result.is_err());
}

#[test]
fn test_priority_frame_validate_stream_zero() {
    let priority = StreamPriority::new(3, 16, false).unwrap();
    let result = PriorityFrame::validate(0, &priority);

    assert!(result.is_err());
}

#[test]
fn test_priority_frame_validate_valid() {
    let priority = StreamPriority::new(3, 16, false).unwrap();
    let result = PriorityFrame::validate(5, &priority);

    assert!(result.is_ok());
}

#[test]
fn test_priority_frame_encode_decode_roundtrip() {
    let original = StreamPriority::new(42, 128, true).unwrap();
    let payload = PriorityFrame::encode(&original);
    let (decoded, _) = PriorityFrame::parse(&payload).unwrap();

    assert_eq!(decoded.exclusive, original.exclusive);
    assert_eq!(decoded.stream_dependency, original.stream_dependency);
    assert_eq!(decoded.weight.as_u8(), original.weight.as_u8());
}

#[test]
fn test_priority_frame_weight_boundaries() {
    // Test weight at boundaries
    let priority_min = StreamPriority::new(3, 1, false).unwrap();
    let payload_min = PriorityFrame::encode(&priority_min);
    assert_eq!(payload_min[4], 1);

    let priority_max = StreamPriority::new(3, 255, false).unwrap();
    let payload_max = PriorityFrame::encode(&priority_max);
    assert_eq!(payload_max[4], 255);
}

#[test]
fn test_priority_frame_zero_stream_dependency() {
    // Stream 1 depends on root (stream 0)
    let priority = StreamPriority::new(0, 16, false).unwrap();
    let payload = PriorityFrame::encode(&priority);

    assert_eq!(payload[0], 0x00);
    assert_eq!(payload[1], 0x00);
    assert_eq!(payload[2], 0x00);
    assert_eq!(payload[3], 0x00);

    // Parse it back
    let (decoded, dep) = PriorityFrame::parse(&payload).unwrap();
    assert_eq!(dep, 0);
    assert_eq!(decoded.stream_dependency, 0);
}

#[test]
fn test_scheduler_add_stream() {
    let mut scheduler = StreamScheduler::new();
    let priority = StreamPriority::default();

    let result = scheduler.add_stream(1, priority);
    assert!(result.is_ok());
    assert_eq!(scheduler.stream_count(), 1);
}

#[test]
fn test_scheduler_remove_stream() {
    let mut scheduler = StreamScheduler::new();
    let priority = StreamPriority::default();

    let _ = scheduler.add_stream(1, priority);
    assert_eq!(scheduler.stream_count(), 1);

    let result = scheduler.remove_stream(1);
    assert!(result.is_ok());
    assert_eq!(scheduler.stream_count(), 0);
}

#[test]
fn test_scheduler_next_stream() {
    let mut scheduler = StreamScheduler::new();

    let _ = scheduler.add_stream(1, StreamPriority::default());
    let _ = scheduler.add_stream(3, StreamPriority::default());
    let _ = scheduler.add_stream(5, StreamPriority::default());

    // Should return one of the streams
    let next = scheduler.next_stream();
    assert!(next.is_some());
    assert!(next.unwrap() == 1 || next.unwrap() == 3 || next.unwrap() == 5);
}

#[test]
fn test_scheduler_next_stream_empty() {
    let mut scheduler = StreamScheduler::new();
    let next = scheduler.next_stream();
    assert!(next.is_none());
}

#[test]
fn test_scheduler_get_schedule_order() {
    let mut scheduler = StreamScheduler::new();

    let _ = scheduler.add_stream(1, StreamPriority::new(0, 16, false).unwrap());
    let _ = scheduler.add_stream(3, StreamPriority::new(0, 32, false).unwrap());
    let _ = scheduler.add_stream(5, StreamPriority::new(0, 64, false).unwrap());

    let order = scheduler.get_schedule_order();
    assert_eq!(order.len(), 3);
    // Stream 5 (weight 64) should be first, then 3 (32), then 1 (16)
    assert_eq!(order[0], 5);
    assert_eq!(order[1], 3);
    assert_eq!(order[2], 1);
}

#[test]
fn test_scheduler_reprioritize() {
    let mut scheduler = StreamScheduler::new();

    let _ = scheduler.add_stream(1, StreamPriority::default());

    let new_priority = StreamPriority::new(0, 128, false).unwrap();
    let result = scheduler.reprioritize(1, new_priority);

    assert!(result.is_ok());
    assert_eq!(scheduler.get_priority(1).unwrap().weight.as_u8(), 128);
}

#[test]
fn test_scheduler_has_stream() {
    let mut scheduler = StreamScheduler::new();

    assert!(!scheduler.has_stream(1));

    let _ = scheduler.add_stream(1, StreamPriority::default());
    assert!(scheduler.has_stream(1));

    let _ = scheduler.remove_stream(1);
    assert!(!scheduler.has_stream(1));
}

#[test]
fn test_scheduler_weighted_scheduling() {
    let mut scheduler = StreamScheduler::new();

    // Stream 1 has weight 1 (low priority)
    // Stream 3 has weight 255 (high priority)
    let _ = scheduler.add_stream(1, StreamPriority::new(0, 1, false).unwrap());
    let _ = scheduler.add_stream(3, StreamPriority::new(0, 255, false).unwrap());

    // Over many iterations, stream 3 should be selected much more often
    let mut counts = std::collections::HashMap::new();
    for _ in 0..100 {
        if let Some(stream) = scheduler.next_stream() {
            *counts.entry(stream).or_insert(0) += 1;
        }
    }

    // Stream 3 should have been selected more times than stream 1
    let count_3 = counts.get(&3).unwrap_or(&0);
    let count_1 = counts.get(&1).unwrap_or(&0);
    assert!(count_3 > count_1);
}

#[test]
fn test_scheduler_stream_not_found() {
    let mut scheduler = StreamScheduler::new();

    let priority = StreamPriority::new(999, 16, false);
    let result = scheduler.add_stream(1, priority.unwrap());
    // Should fail because parent 999 doesn't exist
    assert!(result.is_err());
}

#[test]
fn test_scheduler_multiple_dependency_levels() {
    let mut scheduler = StreamScheduler::new();

    // Root stream
    let _ = scheduler.add_stream(1, StreamPriority::default());
    // Stream depends on 1
    let _ = scheduler.add_stream(3, StreamPriority::new(1, 16, false).unwrap());
    // Another root stream
    let _ = scheduler.add_stream(5, StreamPriority::default());

    let order = scheduler.get_schedule_order();
    assert_eq!(order.len(), 3);
}

#[test]
fn test_scheduler_roundrobin_consistency() {
    let mut scheduler = StreamScheduler::new();

    // Give different weights to ensure distinct scheduling
    let _ = scheduler.add_stream(1, StreamPriority::new(0, 10, false).unwrap());
    let _ = scheduler.add_stream(3, StreamPriority::new(0, 20, false).unwrap());
    let _ = scheduler.add_stream(5, StreamPriority::new(0, 30, false).unwrap());

    let first = scheduler.next_stream();
    let second = scheduler.next_stream();

    // With different weights, we should get some advancement
    // (Not guaranteed to be different on each call, but over multiple calls should vary)
    assert!(first.is_some());
    assert!(second.is_some());
}

#[test]
fn test_scheduler_get_priority() {
    let mut scheduler = StreamScheduler::new();

    let priority = StreamPriority::new(0, 128, true).unwrap();
    let _ = scheduler.add_stream(1, priority.clone());

    let retrieved = scheduler.get_priority(1).unwrap();
    assert_eq!(retrieved.weight.as_u8(), 128);
    assert!(retrieved.exclusive);
}

#[test]
fn manager_error_messages() {
    let mut manager = StreamPriorityManager::new();
    assert_eq!(manager.add_stream(0, StreamPriority::default()).unwrap_err(), "Stream 0 already exists");
    assert_eq!(
        manager.add_stream(1, StreamPriority::new(7, 16, false).unwrap()).unwrap_err(),
        "Parent stream 7 does not exist"
    );
    manager.add_stream(1, StreamPriority::default()).unwrap();
    assert_eq!(manager.add_stream(1, StreamPriority::default()).unwrap_err(), "Stream 1 already exists");
    assert_eq!(manager.reprioritize(0, StreamPriority::default()).unwrap_err(), "Cannot reprioritize stream 0");
    assert_eq!(manager.reprioritize(9, StreamPriority::default()).unwrap_err(), "Stream 9 not found");
    assert_eq!(
        manager.reprioritize(1, StreamPriority::new(1, 16, false).unwrap()).unwrap_err(),
        "Stream cannot depend on itself"
    );
    assert_eq!(manager.remove_stream(0).unwrap_err(), "Cannot remove stream 0");
    assert_eq!(manager.remove_stream(9).unwrap_err(), "Stream 9 not found");
}

#[test]
fn reprioritize_refuses_cycle() {
    let mut manager = StreamPriorityManager::new();
    manager.add_stream(1, StreamPriority::default()).unwrap();
    manager.add_stream(3, StreamPriority::new(1, 16, false).unwrap()).unwrap();
    manager.add_stream(5, StreamPriority::new(3, 16, false).unwrap()).unwrap();
    let err = manager.reprioritize(1, StreamPriority::new(5, 16, false).unwrap()).unwrap_err();
    assert_eq!(err, "Reprioritization would create a circular dependency");
    assert_eq!(manager.get_priority(1).unwrap().stream_dependency, 0);
}

#[test]
fn remove_moves_children_to_parent() {
    let mut manager = StreamPriorityManager::new();
    manager.add_stream(1, StreamPriority::default()).unwrap();
    manager.add_stream(3, StreamPriority::new(1, 16, false).unwrap()).unwrap();
    manager.add_stream(5, StreamPriority::new(1, 16, false).unwrap()).unwrap();
    manager.remove_stream(1).unwrap();
    assert_eq!(manager.get_children(0), vec![3, 5]);
    assert_eq!(manager.get_priority(3).unwrap().stream_dependency, 0);
    assert_eq!(manager.get_priority(5).unwrap().stream_dependency, 0);
    assert_eq!(manager.stream_count(), 2);
    assert!(manager.get_priority(1).is_none());
    assert!(manager.get_children(1).is_empty());
}

#[test]
fn all_streams_are_breadth_first() {
    let mut manager = StreamPriorityManager::new();
    manager.add_stream(1, StreamPriority::default()).unwrap();
    manager.add_stream(3, StreamPriority::default()).unwrap();
    manager.add_stream(5, StreamPriority::new(1, 16, false).unwrap()).unwrap();
    manager.add_stream(7, StreamPriority::new(5, 16, false).unwrap()).unwrap();
    assert_eq!(manager.get_all_streams(), vec![1, 3, 5, 7]);
}

#[test]
fn exclusive_reprioritize_makes_sole_child() {
    let mut manager = StreamPriorityManager::new();
    manager.add_stream(1, StreamPriority::default()).unwrap();
    manager.add_stream(3, StreamPriority::default()).unwrap();
    manager.add_stream(5, StreamPriority::default()).unwrap();
    manager.add_stream(7, StreamPriority::new(5, 16, false).unwrap()).unwrap();
    manager.reprioritize(5, StreamPriority::new(0, 16, true).unwrap()).unwrap();
    assert_eq!(manager.get_children(0), vec![5]);
    assert_eq!(manager.get_children(5), vec![7, 1, 3]);
    assert_eq!(manager.get_priority(1).unwrap().stream_dependency, 5);
    assert_eq!(manager.get_priority(3).unwrap().stream_dependency, 5);
    manager.reprioritize(1, StreamPriority::new(0, 16, false).unwrap()).unwrap();
    assert_eq!(manager.get_children(0), vec![5, 1]);
    assert_eq!(manager.get_children(5), vec![7, 3]);
    assert_eq!(manager.get_all_streams(), vec![5, 1, 7, 3]);
}

#[test]
fn exclusive_reprioritize_takes_siblings_along() {
    let mut m = StreamPriorityManager::new();
    m.add_stream(1, StreamPriority::default()).unwrap();
    m.add_stream(2, StreamPriority::default()).unwrap();
    m.add_stream(3, StreamPriority::default()).unwrap();
    assert_eq!(m.reprioritize(3, StreamPriority::new(0, 16, true).unwrap()), Ok(()));
    assert_eq!(m.get_children(0), vec![3]);
    let kids = m.get_children(3);
    assert!(kids.contains(&1) && kids.contains(&2));
    assert_eq!(m.get_priority(1).unwrap().stream_dependency, 3);
}

#[test]
fn compare_priority_equal_and_missing() {
    let mut manager = StreamPriorityManager::new();
    manager.add_stream(1, StreamPriority::new(0, 8, false).unwrap()).unwrap();
    manager.add_stream(3, StreamPriority::new(0, 8, false).unwrap()).unwrap();
    assert_eq!(manager.compare_priority(1, 3), Ordering::Equal);
    assert_eq!(manager.compare_priority(1, 99), Ordering::Equal);
    manager.reprioritize(3, StreamPriority::new(0, 9, false).unwrap()).unwrap();
    assert_eq!(manager.compare_priority(1, 3), Ordering::Less);
}

#[test]
fn weight_error_message() {
    assert_eq!(StreamWeight::new(0).unwrap_err(), "Invalid weight: 0 (must be 1-255)");
    assert_eq!(StreamPriority::new(1, 0, false).unwrap_err(), "Invalid weight: 0 (must be 1-255)");
    assert_eq!(StreamWeight::default().as_u8(), 16);
    assert!(StreamPriority::default().is_root_dependent());
    assert!(!StreamPriority::new(3, 1, false).unwrap().is_root_dependent());
}

#[test]
fn priority_frame_messages() {
    assert_eq!(
        PriorityFrame::parse(&[0, 0, 0]).unwrap_err(),
        "PRIORITY frame payload too short: 3 bytes (min: 5)"
    );
    assert_eq!(
        PriorityFrame::parse(&[0, 0, 0, 0, 1, 2]).unwrap_err(),
        "PRIORITY frame payload too long: 6 bytes (max: 5)"
    );
    assert_eq!(PriorityFrame::parse(&[0, 0, 0, 1, 0]).unwrap_err(), "Invalid weight: 0 (must be 1-255)");
    assert_eq!(
        PriorityFrame::validate(0, &StreamPriority::new(3, 16, false).unwrap()).unwrap_err(),
        "Stream 0 (connection) cannot have PRIORITY frame"
    );
}

#[test]
fn priority_roundtrip_law_example() {
    for &(dep, weight, exclusive) in &[(0u32, 1u8, false), (0x7fff_ffff, 255, true), (12345, 77, true)] {
        let p = StreamPriority::new(dep, weight, exclusive).unwrap();
        let (q, d) = PriorityFrame::parse(&PriorityFrame::encode(&p)).unwrap();
        assert_eq!(q, p);
        assert_eq!(d, dep);
    }
}

#[test]
fn scheduler_round_robin_sequence() {
    let mut scheduler = StreamScheduler::new();
    scheduler.add_stream(1, StreamPriority::new(0, 1, false).unwrap()).unwrap();
    scheduler.add_stream(3, StreamPriority::new(0, 1, false).unwrap()).unwrap();
    scheduler.add_stream(5, StreamPriority::new(0, 1, false).unwrap()).unwrap();
    let picks: Vec<u32> = (0..4).map(|_| scheduler.next_stream().unwrap()).collect();
    assert_eq!(picks, vec![1, 3, 5, 1]);
}

#[test]
fn schedule_order_is_stable_for_equal_weights() {
    let mut scheduler = StreamScheduler::new();
    scheduler.add_stream(1, StreamPriority::new(0, 16, false).unwrap()).unwrap();
    scheduler.add_stream(3, StreamPriority::new(0, 32, false).unwrap()).unwrap();
    scheduler.add_stream(5, StreamPriority::new(0, 16, false).unwrap()).unwrap();
    scheduler.add_stream(7, StreamPriority::new(1, 32, false).unwrap()).unwrap();
    assert_eq!(scheduler.get_schedule_order(), vec![7, 3, 1, 5]);
}

#[test]
fn scheduler_takes_turns_between_equal_weights() {
    let mut scheduler = StreamScheduler::new();
    scheduler.add_stream(1, StreamPriority::default()).unwrap();
    scheduler.add_stream(3, StreamPriority::default()).unwrap();
    scheduler.add_stream(5, StreamPriority::default()).unwrap();
    let picks: Vec<u32> = (0..6).map(|_| scheduler.next_stream().unwrap()).collect();
    assert_eq!(picks, vec![1, 3, 5, 1, 3, 5]);
}

#[test]
fn all_streams_lists_shallower_streams_first() {
    let mut m = StreamPriorityManager::new();
    m.add_stream(1, StreamPriority::default()).unwrap();
    m.add_stream(2, StreamPriority::default()).unwrap();
    m.add_stream(3, StreamPriority::new(1, 16, false).unwrap()).unwrap();
    assert_eq!(m.get_all_streams(), vec![1, 2, 3]);
}
