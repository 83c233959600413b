use shuidui_backend::routing::{route_request, Route, RouteDecision};

fn matched(r: Route) -> RouteDecision {
    RouteDecision::Matched(r)
}

#[test]
fn routes_every_endpoint() {
    assert_eq!(route_request("GET", "/health"), matched(Route::Health));
    assert_eq!(route_request("GET", "/api/devices"), matched(Route::Devices));
    assert_eq!(route_request("GET", "/api/sensor-data"), matched(Route::SensorData));
    assert_eq!(route_request("GET", "/api/dynamics"), matched(Route::Dynamics));
    assert_eq!(route_request("GET", "/api/alerts"), matched(Route::Alerts));
    assert_eq!(
        route_request("GET", "/api/device/shuidui-001"),
        matched(Route::DeviceInfo("shuidui-001".to_string()))
    );
    assert_eq!(route_request("POST", "/api/optimize"), matched(Route::Optimize));
    assert_eq!(
        route_request("GET", "/api/cam-profile/shuidui-002"),
        matched(Route::CamProfile("shuidui-002".to_string()))
    );
    assert_eq!(route_request("POST", "/api/simulate"), matched(Route::Simulate));
    assert_eq!(route_request("GET", "/ws/alerts"), matched(Route::AlertStream));
}

#[test]
fn one_trailing_slash_is_accepted() {
    assert_eq!(route_request("GET", "/health/"), matched(Route::Health));
    assert_eq!(route_request("POST", "/api/simulate/"), matched(Route::Simulate));
    assert_eq!(
        route_request("GET", "/api/device/abc/"),
        matched(Route::DeviceInfo("abc".to_string()))
    );
    assert_eq!(route_request("GET", "/health//"), RouteDecision::NotFound);
    assert_eq!(route_request("GET", "/api/device/abc//"), RouteDecision::NotFound);
}

#[test]
fn wrong_method_is_not_allowed() {
    assert_eq!(route_request("POST", "/health"), RouteDecision::MethodNotAllowed);
    assert_eq!(route_request("GET", "/api/optimize"), RouteDecision::MethodNotAllowed);
    assert_eq!(route_request("get", "/api/devices"), RouteDecision::MethodNotAllowed);
    assert_eq!(route_request("DELETE", "/api/device/x"), RouteDecision::MethodNotAllowed);
    assert_eq!(route_request("POST", "/ws/alerts"), RouteDecision::MethodNotAllowed);
}

#[test]
fn unknown_paths_are_not_found() {
    assert_eq!(route_request("GET", "/"), RouteDecision::NotFound);
    assert_eq!(route_request("GET", ""), RouteDecision::NotFound);
    assert_eq!(route_request("GET", "/api"), RouteDecision::NotFound);
    assert_eq!(route_request("GET", "/api/device"), RouteDecision::NotFound);
    assert_eq!(route_request("GET", "/api/device/"), RouteDecision::NotFound);
    assert_eq!(route_request("GET", "/api/device/a/b"), RouteDecision::NotFound);
    assert_eq!(route_request("GET", "//health"), RouteDecision::NotFound);
    assert_eq!(route_request("GET", "/api//devices"), RouteDecision::NotFound);
    assert_eq!(route_request("GET", "/HEALTH"), RouteDecision::NotFound);
    assert_eq!(route_request("POST", "/nowhere"), RouteDecision::NotFound);
}

#[test]
fn path_without_leading_slash_matches() {
    assert_eq!(route_request("GET", "health"), matched(Route::Health));
    assert_eq!(route_request("GET", "api/alerts"), matched(Route::Alerts));
}

#[test]
fn parameter_is_taken_verbatim() {
    assert_eq!(
        route_request("GET", "/api/cam-profile/a%20b"),
        matched(Route::CamProfile("a%20b".to_string()))
    );
    assert_eq!(
        route_request("GET", "/api/device/水碓-1"),
        matched(Route::DeviceInfo("水碓-1".to_string()))
    );
    assert_eq!(
        route_request("GET", "/api/device/s"),
        matched(Route::DeviceInfo("s".to_string()))
    );
}

#[test]
fn route_paths_round_trip() {
    let cases = vec![
        ("GET", "/health", Route::Health),
        ("GET", "/api/devices", Route::Devices),
        ("GET", "/api/sensor-data", Route::SensorData),
        ("GET", "/api/dynamics", Route::Dynamics),
        ("GET", "/api/alerts", Route::Alerts),
        ("GET", "/api/device/d7", Route::DeviceInfo("d7".to_string())),
        ("POST", "/api/optimize", Route::Optimize),
        ("GET", "/api/cam-profile/d7", Route::CamProfile("d7".to_string())),
        ("POST", "/api/simulate", Route::Simulate),
        ("GET", "/ws/alerts", Route::AlertStream),
    ];
    for (method, path, route) in cases {
        assert_eq!(route_request(method, path), RouteDecision::Matched(route));
        let slashed = format!("{}/", path);
        assert_eq!(route_request(method, path), route_request(method, &slashed));
    }
}
