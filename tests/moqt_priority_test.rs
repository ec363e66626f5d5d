use moqt::priority::{
    kMoqtControlStreamSendOrder, send_order_for_stream, update_send_order_for_subscriber_priority,
    MoqtDeliveryOrder,
};

#[test]
fn test_track_priorities() {
    assert!(
        send_order_for_stream(0x10, 0x80, 0, None, MoqtDeliveryOrder::kAscending)
            > send_order_for_stream(0x80, 0x80, 0, None, MoqtDeliveryOrder::kAscending)
    );
    assert!(
        send_order_for_stream(0x80, 0x10, 0, None, MoqtDeliveryOrder::kAscending)
            > send_order_for_stream(0x80, 0x80, 0, None, MoqtDeliveryOrder::kAscending)
    );
    assert!(
        send_order_for_stream(0x10, 0x80, 0, None, MoqtDeliveryOrder::kAscending)
            > send_order_for_stream(0x80, 0x10, 0, None, MoqtDeliveryOrder::kAscending)
    );
    assert!(
        send_order_for_stream(0x00, 0x80, 0, None, MoqtDeliveryOrder::kAscending)
            > send_order_for_stream(0xff, 0x80, 0, None, MoqtDeliveryOrder::kAscending)
    );
    assert!(
        send_order_for_stream(0x80, 0x00, 0, None, MoqtDeliveryOrder::kAscending)
            > send_order_for_stream(0x80, 0xff, 0, None, MoqtDeliveryOrder::kAscending)
    );
}

#[test]
fn test_control_stream() {
    assert!(
        kMoqtControlStreamSendOrder
            > send_order_for_stream(0x00, 0x00, 0, None, MoqtDeliveryOrder::kAscending),
    );
}

#[test]
fn test_stream_per_group() {
    assert!(
        send_order_for_stream(0x80, 0x80, 0, None, MoqtDeliveryOrder::kAscending)
            > send_order_for_stream(0x80, 0x80, 1, None, MoqtDeliveryOrder::kAscending),
    );
    assert!(
        send_order_for_stream(0x80, 0x80, 1, None, MoqtDeliveryOrder::kDescending)
            > send_order_for_stream(0x80, 0x80, 0, None, MoqtDeliveryOrder::kDescending),
    );
}

#[test]
fn test_stream_per_object() {
    assert!(
        send_order_for_stream(0x80, 0x80, 0, Some(0), MoqtDeliveryOrder::kAscending)
            > send_order_for_stream(0x80, 0x80, 0, Some(1), MoqtDeliveryOrder::kAscending),
    );
    assert!(
        send_order_for_stream(0x80, 0x80, 0, Some(0), MoqtDeliveryOrder::kDescending)
            > send_order_for_stream(0x80, 0x80, 0, Some(1), MoqtDeliveryOrder::kDescending),
    );
    assert!(
        send_order_for_stream(0x80, 0x80, 0, Some(1), MoqtDeliveryOrder::kAscending)
            > send_order_for_stream(0x80, 0x80, 1, Some(0), MoqtDeliveryOrder::kAscending),
    );
    assert!(
        send_order_for_stream(0x80, 0x80, 1, Some(1), MoqtDeliveryOrder::kDescending)
            > send_order_for_stream(0x80, 0x80, 0, Some(0), MoqtDeliveryOrder::kDescending),
    );
}

#[test]
fn test_update_send_order_for_subscriber_priority() {
    assert_eq!(
        update_send_order_for_subscriber_priority(
            send_order_for_stream(0x80, 0x80, 0, None, MoqtDeliveryOrder::kAscending),
            0x10
        ),
        send_order_for_stream(0x10, 0x80, 0, None, MoqtDeliveryOrder::kAscending)
    );
}

#[test]
fn send_order_exact_values() {
    // Highest priorities, group 0 ascending: all priority bits set, group part full.
    assert_eq!(
        send_order_for_stream(0, 0, 0, None, MoqtDeliveryOrder::kAscending),
        (255i64 << 54) + (255i64 << 46) + ((1i64 << 46) - 1)
    );
    assert_eq!(
        send_order_for_stream(255, 255, 5, None, MoqtDeliveryOrder::kDescending),
        5
    );
    assert_eq!(
        send_order_for_stream(255, 255, 2, Some(3), MoqtDeliveryOrder::kDescending),
        (2i64 << 20) + 0xfffff - 3
    );
    assert_eq!(
        update_send_order_for_subscriber_priority(
            send_order_for_stream(0x80, 0x10, 7, Some(1), MoqtDeliveryOrder::kAscending),
            0x20
        ),
        send_order_for_stream(0x20, 0x10, 7, Some(1), MoqtDeliveryOrder::kAscending)
    );
}
