use shuidui_backend::responses::{
    alert_query, device_response, health_response, query_response, record_query,
    require_device, success_response, QueryParams, CAM_PROFILE_POINTS, DEFAULT_ALERT_LIMIT,
    DEFAULT_RECORD_LIMIT,
};

#[test]
fn health_answers_ok() {
    let r = health_response();
    assert!(r.success);
    assert!(r.data.is_none());
    assert_eq!(r.message.as_deref(), Some("OK"));
}

#[test]
fn query_success_and_failure() {
    let ok = query_response::<Vec<u32>>(Ok(vec![1, 2]));
    assert!(ok.success);
    assert_eq!(ok.data, Some(vec![1, 2]));
    assert!(ok.message.is_none());

    let err = query_response::<Vec<u32>>(Err("connection refused".to_string()));
    assert!(!err.success);
    assert!(err.data.is_none());
    assert_eq!(err.message.as_deref(), Some("connection refused"));
}

#[test]
fn device_lookup_outcomes() {
    let found = device_response(Ok(Some("dev")));
    assert!(found.success);
    assert_eq!(found.data, Some("dev"));
    assert!(found.message.is_none());

    let missing = device_response::<&str>(Ok(None));
    assert!(!missing.success);
    assert!(missing.data.is_none());
    assert_eq!(missing.message.as_deref(), Some("Device not found"));

    let failed = device_response::<&str>(Err("timeout".to_string()));
    assert!(!failed.success);
    assert!(failed.data.is_none());
    assert_eq!(failed.message.as_deref(), Some("timeout"));
}

#[test]
fn required_device_or_failure_answer() {
    let d: Result<u8, _> = require_device::<u8, String>(Ok(Some(7)));
    assert_eq!(d.unwrap(), 7);

    let missing = require_device::<u8, String>(Ok(None)).unwrap_err();
    assert!(!missing.success && missing.data.is_none());
    assert_eq!(missing.message.as_deref(), Some("Device not found"));

    let failed = require_device::<u8, String>(Err("db down".to_string())).unwrap_err();
    assert!(!failed.success && failed.data.is_none());
    assert_eq!(failed.message.as_deref(), Some("db down"));

    let s = success_response(3u8);
    assert!(s.success && s.data == Some(3) && s.message.is_none());
}

#[test]
fn listing_defaults() {
    let (device, limit) = record_query(QueryParams { device_id: None, limit: None });
    assert_eq!(device, "shuidui-001");
    assert_eq!(limit, 100);
    assert_eq!(DEFAULT_RECORD_LIMIT, 100);

    let (device, limit) =
        record_query(QueryParams { device_id: Some("x".to_string()), limit: Some(5) });
    assert_eq!(device, "x");
    assert_eq!(limit, 5);

    let (device, limit) = alert_query(QueryParams { device_id: None, limit: None });
    assert_eq!(device, None);
    assert_eq!(limit, 50);
    assert_eq!(DEFAULT_ALERT_LIMIT, 50);

    let (device, limit) =
        alert_query(QueryParams { device_id: Some("y".to_string()), limit: Some(0) });
    assert_eq!(device.as_deref(), Some("y"));
    assert_eq!(limit, 0);

    assert_eq!(CAM_PROFILE_POINTS, 360);
}
