//! The JSON envelope in which every HTTP handler answers, and the defaults
//! that the query-driven handlers apply.

use vstd::prelude::*;

verus! {

/// The envelope of every API answer: whether the request succeeded, the
/// data on success, and a message (an error text, or a status note).
#[derive(Debug)]
pub struct ApiResponse<T> {
    pub success: bool,
    pub data: Option<T>,
    pub message: Option<String>,
}

/// The message given when a looked-up device does not exist.
pub open spec fn device_not_found_text() -> Seq<char> {
    "Device not found"@
}

/// An envelope carries data exactly when it reports success.
pub open spec fn envelope_consistent<T>(r: ApiResponse<T>) -> bool {
    r.success == r.data is Some
}

/// The envelope of a successful answer.
pub fn success_response<T>(data: T) -> (r: ApiResponse<T>)
    ensures
        r.success,
        r.data == Some(data),
        r.message is None,
        envelope_consistent(r),
{
    ApiResponse { success: true, data: Some(data), message: None }
}

/// The envelope of a failed answer, with `message` as its text.
pub fn failure_response<T>(message: String) -> (r: ApiResponse<T>)
    ensures
        !r.success,
        r.data is None,
        r.message == Some(message),
        envelope_consistent(r),
{
    ApiResponse { success: false, data: None, message: Some(message) }
}

/// The answer of the health check: success, no data, the note `OK`.
pub fn health_response() -> (r: ApiResponse<()>)
    ensures
        r.success,
        r.data is None,
        r.message matches Some(m) && m@ == "OK"@,
{
    ApiResponse { success: true, data: None, message: Some("OK".to_owned()) }
}

/// The answer to a query whose storage read gave `outcome` (its error
/// already rendered as text): the data on success, the error text otherwise.
pub fn query_response<T>(outcome: Result<T, String>) -> (r: ApiResponse<T>)
    ensures
        envelope_consistent(r),
        match outcome {
            Ok(d) => r.success && r.data == Some(d) && r.message is None,
            Err(e) => !r.success && r.data is None && r.message == Some(e),
        },
{
    match outcome {
        Ok(d) => success_response(d),
        Err(e) => failure_response(e),
    }
}

/// The failed answer for a device lookup that found nothing.
pub fn device_not_found<T>() -> (r: ApiResponse<T>)
    ensures
        !r.success,
        r.data is None,
        r.message matches Some(m) && m@ == device_not_found_text(),
        envelope_consistent(r),
{
    failure_response("Device not found".to_owned())
}

/// Whether `r` is the failed answer owed to a device lookup with outcome
/// `outcome` that found no device: "Device not found" when the device does
/// not exist, the error text when the lookup failed. Every handler that
/// looks a device up answers such an outcome so, whatever its data type.
pub open spec fn failed_lookup_answer<D, T>(outcome: Result<Option<D>, String>, r: ApiResponse<T>) -> bool {
    &&& !r.success
    &&& r.data is None
    &&& match outcome {
        Ok(Some(_)) => false,
        Ok(None) => r.message matches Some(m) && m@ == device_not_found_text(),
        Err(e) => r.message == Some(e),
    }
}

/// The answer to a device lookup: the device when it exists, "Device not
/// found" when it does not, the error text when the lookup failed.
pub fn device_response<T>(outcome: Result<Option<T>, String>) -> (r: ApiResponse<T>)
    ensures
        envelope_consistent(r),
        match outcome {
            Ok(Some(d)) => r.success && r.data == Some(d) && r.message is None,
            _ => failed_lookup_answer(outcome, r),
        },
{
    match outcome {
        Ok(Some(d)) => success_response(d),
        Ok(None) => device_not_found(),
        Err(e) => failure_response(e),
    }
}

/// The device that a handler works on, or the failed answer (of the
/// handler's own data type) that ends it.
pub fn require_device<D, T>(outcome: Result<Option<D>, String>) -> (r: Result<D, ApiResponse<T>>)
    ensures
        match outcome {
            Ok(Some(d)) => r == Ok::<D, ApiResponse<T>>(d),
            _ => r matches Err(answer) && failed_lookup_answer(outcome, answer)
                && envelope_consistent(answer),
        },
{
    match outcome {
        Ok(Some(d)) => Ok(d),
        Ok(None) => Err(device_not_found()),
        Err(e) => Err(failure_response(e)),
    }
}

/// The query parameters of the listing endpoints.
#[derive(Debug)]
pub struct QueryParams {
    pub device_id: Option<String>,
    pub limit: Option<u64>,
}

/// The device that sensor and dynamics listings read when none is named.
pub open spec fn default_device_id() -> Seq<char> {
    "shuidui-001"@
}

/// The number of rows that sensor and dynamics listings return by default.
pub const DEFAULT_RECORD_LIMIT: u64 = 100;

/// The number of alerts that the alert listing returns by default.
pub const DEFAULT_ALERT_LIMIT: u64 = 50;

/// The number of points in a cam profile served over HTTP (one a degree).
pub const CAM_PROFILE_POINTS: usize = 360;

/// The device and row limit of a sensor-data or dynamics listing: those
/// named in the query, else the default device and 100 rows.
pub fn record_query(params: QueryParams) -> (r: (String, u64))
    ensures
        r.0@ == match params.device_id {
            Some(d) => d@,
            None => default_device_id(),
        },
        r.1 == match params.limit {
            Some(l) => l,
            None => DEFAULT_RECORD_LIMIT,
        },
{
    let device = match params.device_id {
        Some(d) => d,
        None => "shuidui-001".to_owned(),
    };
    let limit = match params.limit {
        Some(l) => l,
        None => DEFAULT_RECORD_LIMIT,
    };
    (device, limit)
}

/// The device filter and row limit of an alert listing: the device named
/// in the query (all devices when none is), and the limit named, else 50.
pub fn alert_query(params: QueryParams) -> (r: (Option<String>, u64))
    ensures
        r.0 == params.device_id,
        r.1 == match params.limit {
            Some(l) => l,
            None => DEFAULT_ALERT_LIMIT,
        },
{
    let limit = match params.limit {
        Some(l) => l,
        None => DEFAULT_ALERT_LIMIT,
    };
    (params.device_id, limit)
}

} // verus!
