use shuidui_backend::grain::{classify_grain, GrainKind};
use shuidui_backend::stream::{error_payload, on_channel_event, on_send_result, ChannelEvent, StreamStep};
use shuidui_backend::timestamp::{reading_time_millis, EARLIEST_MILLIS, LATEST_MILLIS};

#[test]
fn alert_frames() {
    assert_eq!(
        on_channel_event(ChannelEvent::Alert(Ok("{\"id\":\"a1\"}".to_string()))),
        StreamStep::Send("{\"id\":\"a1\"}".to_string())
    );
    assert_eq!(
        on_channel_event(ChannelEvent::Alert(Err("key must be a string".to_string()))),
        StreamStep::Send("{\"error\":\"key must be a string\"}".to_string())
    );
    assert_eq!(on_channel_event(ChannelEvent::Lagged(3)), StreamStep::Continue);
    assert_eq!(on_channel_event(ChannelEvent::Closed), StreamStep::Stop);
    assert_eq!(on_send_result(true), StreamStep::Continue);
    assert_eq!(on_send_result(false), StreamStep::Stop);
}

#[test]
fn error_frame_is_not_escaped() {
    assert_eq!(error_payload("a\"b"), "{\"error\":\"a\"b\"}");
    assert_eq!(error_payload(""), "{\"error\":\"\"}");
}

#[test]
fn grain_names() {
    assert_eq!(classify_grain("rice"), GrainKind::Rice);
    assert_eq!(classify_grain("millet"), GrainKind::Millet);
    assert_eq!(classify_grain("wheat"), GrainKind::Wheat);
    assert_eq!(classify_grain("Rice"), GrainKind::Other);
    assert_eq!(classify_grain(" rice"), GrainKind::Other);
    assert_eq!(classify_grain("barley"), GrainKind::Other);
    assert_eq!(classify_grain(""), GrainKind::Other);
}

#[test]
fn reading_time_bounds_match_chrono() {
    for ms in [EARLIEST_MILLIS, LATEST_MILLIS, 0, 947638923004] {
        assert!(chrono::DateTime::from_timestamp_millis(ms).is_some());
        assert_eq!(reading_time_millis(ms, 42), ms);
    }
    for ms in [EARLIEST_MILLIS - 1, LATEST_MILLIS + 1, i64::MIN, i64::MAX] {
        assert!(chrono::DateTime::from_timestamp_millis(ms).is_none());
        assert_eq!(reading_time_millis(ms, 42), 42);
    }
    assert_eq!(
        chrono::DateTime::<chrono::Utc>::MIN_UTC.timestamp_millis(),
        EARLIEST_MILLIS
    );
    assert_eq!(
        chrono::DateTime::<chrono::Utc>::MAX_UTC.timestamp_millis(),
        LATEST_MILLIS
    );
}
