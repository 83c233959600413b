//! The HTTP route table of the backend: which handler a request reaches,
//! judged on its method and its path as the server's path filters match them.
//!
//! A path is matched segment by segment after one leading `/` is dropped;
//! a literal segment must equal the request's segment, a parameter segment
//! takes any non-empty segment verbatim, and after the last segment the path
//! may end, or end in one `/`. A request whose path matches a route but
//! whose method does not is answered "method not allowed"; a request whose
//! path matches no route is answered "not found".

use vstd::prelude::*;
use vstd::string::*;
use crate::text::{chars_of, slice_equals};

verus! {

/// The handlers that the server offers.
#[derive(Debug, PartialEq, Eq)]
pub enum Route {
    /// `GET /health`
    Health,
    /// `GET /api/devices`
    Devices,
    /// `GET /api/sensor-data`
    SensorData,
    /// `GET /api/dynamics`
    Dynamics,
    /// `GET /api/alerts`
    Alerts,
    /// `GET /api/device/{device_id}`
    DeviceInfo(String),
    /// `POST /api/optimize`
    Optimize,
    /// `GET /api/cam-profile/{device_id}`
    CamProfile(String),
    /// `POST /api/simulate`
    Simulate,
    /// `GET /ws/alerts`, upgraded to a websocket
    AlertStream,
}

/// The outcome of routing one request.
#[derive(Debug, PartialEq, Eq)]
pub enum RouteDecision {
    Matched(Route),
    MethodNotAllowed,
    NotFound,
}

/// `Route` with its path parameter taken as a character sequence.
pub enum RouteSpec {
    Health,
    Devices,
    SensorData,
    Dynamics,
    Alerts,
    DeviceInfo(Seq<char>),
    Optimize,
    CamProfile(Seq<char>),
    Simulate,
    AlertStream,
}

/// `RouteDecision` with its route taken as a `RouteSpec`.
pub enum RouteDecisionSpec {
    Matched(RouteSpec),
    MethodNotAllowed,
    NotFound,
}

impl View for Route {
    type V = RouteSpec;

    open spec fn view(&self) -> RouteSpec {
        match self {
            Route::Health => RouteSpec::Health,
            Route::Devices => RouteSpec::Devices,
            Route::SensorData => RouteSpec::SensorData,
            Route::Dynamics => RouteSpec::Dynamics,
            Route::Alerts => RouteSpec::Alerts,
            Route::DeviceInfo(id) => RouteSpec::DeviceInfo(id@),
            Route::Optimize => RouteSpec::Optimize,
            Route::CamProfile(id) => RouteSpec::CamProfile(id@),
            Route::Simulate => RouteSpec::Simulate,
            Route::AlertStream => RouteSpec::AlertStream,
        }
    }
}

impl View for RouteDecision {
    type V = RouteDecisionSpec;

    open spec fn view(&self) -> RouteDecisionSpec {
        match self {
            RouteDecision::Matched(r) => RouteDecisionSpec::Matched(r@),
            RouteDecision::MethodNotAllowed => RouteDecisionSpec::MethodNotAllowed,
            RouteDecision::NotFound => RouteDecisionSpec::NotFound,
        }
    }
}

/// The path with one leading `/` removed, where it has one.
pub open spec fn strip_root(path: Seq<char>) -> Seq<char> {
    if path.len() > 0 && path[0] == '/' {
        path.drop_first()
    } else {
        path
    }
}

/// Whether `s` holds no `/`.
pub open spec fn slash_free(s: Seq<char>) -> bool {
    forall|i: int| 0 <= i < s.len() ==> s[i] != '/'
}

/// Whether the path (root stripped) spells out the literal segments
/// `pattern` (joined by `/`), optionally followed by one `/`.
pub open spec fn fixed_match(rest: Seq<char>, pattern: Seq<char>) -> bool {
    rest == pattern || rest == pattern.push('/')
}

/// The parameter taken from what follows a route's literal prefix: a
/// non-empty segment without `/`, optionally followed by one `/`.
pub open spec fn param_segment(tail: Seq<char>) -> Option<Seq<char>> {
    if tail.len() > 0 && slash_free(tail) {
        Some(tail)
    } else if tail.len() > 1 && tail.last() == '/' && slash_free(tail.drop_last()) {
        Some(tail.drop_last())
    } else {
        None
    }
}

/// The parameter of a route whose literal segments, each followed by `/`,
/// are `prefix`, where the path matches it.
pub open spec fn param_match(rest: Seq<char>, prefix: Seq<char>) -> Option<Seq<char>> {
    if prefix.len() <= rest.len() && rest.subrange(0, prefix.len() as int) == prefix {
        param_segment(rest.skip(prefix.len() as int))
    } else {
        None
    }
}

/// The route whose path pattern the request path matches, tried in the
/// order in which the server lists them.
pub open spec fn route_for_path(path: Seq<char>) -> Option<RouteSpec> {
    let rest = strip_root(path);
    if fixed_match(rest, "health"@) {
        Some(RouteSpec::Health)
    } else if fixed_match(rest, "api/devices"@) {
        Some(RouteSpec::Devices)
    } else if fixed_match(rest, "api/sensor-data"@) {
        Some(RouteSpec::SensorData)
    } else if fixed_match(rest, "api/dynamics"@) {
        Some(RouteSpec::Dynamics)
    } else if fixed_match(rest, "api/alerts"@) {
        Some(RouteSpec::Alerts)
    } else if param_match(rest, "api/device/"@) is Some {
        Some(RouteSpec::DeviceInfo(param_match(rest, "api/device/"@)->0))
    } else if fixed_match(rest, "api/optimize"@) {
        Some(RouteSpec::Optimize)
    } else if param_match(rest, "api/cam-profile/"@) is Some {
        Some(RouteSpec::CamProfile(param_match(rest, "api/cam-profile/"@)->0))
    } else if fixed_match(rest, "api/simulate"@) {
        Some(RouteSpec::Simulate)
    } else if fixed_match(rest, "ws/alerts"@) {
        Some(RouteSpec::AlertStream)
    } else {
        None
    }
}

/// Whether a route is reached by `POST` (otherwise by `GET`).
pub open spec fn is_post_route(r: RouteSpec) -> bool {
    r is Optimize || r is Simulate
}

/// The method that a route answers.
pub open spec fn route_method(r: RouteSpec) -> Seq<char> {
    if is_post_route(r) {
        "POST"@
    } else {
        "GET"@
    }
}

/// The routing decision for a request.
pub open spec fn decide_route(method: Seq<char>, path: Seq<char>) -> RouteDecisionSpec {
    match route_for_path(path) {
        Some(r) => if method == route_method(r) {
            RouteDecisionSpec::Matched(r)
        } else {
            RouteDecisionSpec::MethodNotAllowed
        },
        None => RouteDecisionSpec::NotFound,
    }
}

/// Whether `v[start..]` matches the literal segments `pattern`.
fn fixed_at(v: &Vec<char>, start: usize, pattern: &str) -> (r: bool)
    requires
        start <= v@.len(),
    ensures
        r == fixed_match(v@.skip(start as int), pattern@),
{
    let n = v.len();
    let m = pattern.unicode_len();
    let ghost rest = v@.skip(start as int);
    if n - start == m {
        let r = slice_equals(v, start, n, pattern);
        assert(v@.subrange(start as int, n as int) =~= rest);
        proof {
            if rest == pattern@.push('/') {
                assert(rest.len() == m + 1);
            }
        }
        r
    } else if n - start >= 1 && n - start - 1 == m && v[n - 1] == '/' {
        let r = slice_equals(v, start, n - 1, pattern);
        proof {
            assert(rest =~= v@.subrange(start as int, n - 1).push('/'));
            if rest == pattern@.push('/') {
                assert(v@.subrange(start as int, n - 1) =~= rest.drop_last());
                assert(pattern@ =~= pattern@.push('/').drop_last());
            }
        }
        r
    } else {
        proof {
            if rest == pattern@.push('/') {
                assert(rest.len() == m + 1);
                assert(rest.last() == '/');
                assert(v@[n - 1] == rest[rest.len() - 1]);
            }
        }
        false
    }
}

/// Whether `v[from..to]` holds no `/`.
fn slash_free_range(v: &Vec<char>, from: usize, to: usize) -> (r: bool)
    requires
        from <= to <= v@.len(),
    ensures
        r == slash_free(v@.subrange(from as int, to as int)),
{
    let mut i: usize = from;
    while i < to
        invariant
            from <= i <= to <= v@.len(),
            forall|k: int| from <= k < i ==> v@[k] != '/',
        decreases to - i,
    {
        if v[i] == '/' {
            assert(v@.subrange(from as int, to as int)[i - from] == '/');
            return false;
        }
        i = i + 1;
    }
    true
}

/// The parameter of the route whose literal prefix is `prefix`, matched
/// against `v[start..]`; `path` is the string whose characters `v` holds.
fn param_at(path: &str, v: &Vec<char>, start: usize, prefix: &str) -> (r: Option<String>)
    requires
        v@ == path@,
        start <= v@.len(),
    ensures
        match r {
            Some(id) => param_match(v@.skip(start as int), prefix@) == Some(id@),
            None => param_match(v@.skip(start as int), prefix@) is None,
        },
{
    let n = v.len();
    let m = prefix.unicode_len();
    let ghost rest = v@.skip(start as int);
    if n - start < m {
        return None;
    }
    let has_prefix = slice_equals(v, start, start + m, prefix);
    assert(rest.subrange(0, m as int) =~= v@.subrange(start as int, start + m));
    if !has_prefix {
        return None;
    }
    let t = start + m;
    let ghost tail = rest.skip(m as int);
    assert(tail =~= v@.subrange(t as int, n as int));
    if t < n && slash_free_range(v, t, n) {
        let id = path.substring_char(t, n).to_owned();
        return Some(id);
    }
    if n - t > 1 && v[n - 1] == '/' && slash_free_range(v, t, n - 1) {
        assert(tail.drop_last() =~= v@.subrange(t as int, n - 1));
        let id = path.substring_char(t, n - 1).to_owned();
        return Some(id);
    }
    proof {
        if tail.len() > 1 && tail.last() == '/' {
            assert(tail.drop_last() =~= v@.subrange(t as int, n - 1));
        }
    }
    None
}

/// Routes a request given its method (as the HTTP layer spells it, such as
/// `GET`) and its path (without the query).
pub fn route_request(method: &str, path: &str) -> (d: RouteDecision)
    ensures
        d@ == decide_route(method@, path@),
{
    let v = chars_of(path);
    let start: usize = if v.len() > 0 && v[0] == '/' { 1 } else { 0 };
    assert(v@.skip(start as int) =~= strip_root(path@));
    let route: Option<Route> = if fixed_at(&v, start, "health") {
        Some(Route::Health)
    } else if fixed_at(&v, start, "api/devices") {
        Some(Route::Devices)
    } else if fixed_at(&v, start, "api/sensor-data") {
        Some(Route::SensorData)
    } else if fixed_at(&v, start, "api/dynamics") {
        Some(Route::Dynamics)
    } else if fixed_at(&v, start, "api/alerts") {
        Some(Route::Alerts)
    } else {
        match param_at(path, &v, start, "api/device/") {
            Some(id) => Some(Route::DeviceInfo(id)),
            None => if fixed_at(&v, start, "api/optimize") {
                Some(Route::Optimize)
            } else {
                match param_at(path, &v, start, "api/cam-profile/") {
                    Some(id) => Some(Route::CamProfile(id)),
                    None => if fixed_at(&v, start, "api/simulate") {
                        Some(Route::Simulate)
                    } else if fixed_at(&v, start, "ws/alerts") {
                        Some(Route::AlertStream)
                    } else {
                        None
                    },
                }
            },
        }
    };
    match route {
        Some(r) => {
            let post = match &r {
                Route::Optimize => true,
                Route::Simulate => true,
                _ => false,
            };
            let allowed = if post {
                crate::text::str_equals(method, "POST")
            } else {
                crate::text::str_equals(method, "GET")
            };
            if allowed {
                RouteDecision::Matched(r)
            } else {
                RouteDecision::MethodNotAllowed
            }
        },
        None => RouteDecision::NotFound,
    }
}

/// A path whose `i`-th character differs from that of the literal
/// segments `pat` does not match them.
proof fn lemma_fixed_mismatch(rest: Seq<char>, pat: Seq<char>, i: int)
    requires
        0 <= i < pat.len(),
        i < rest.len(),
        rest[i] != pat[i],
    ensures
        !fixed_match(rest, pat),
{
    assert(pat.push('/')[i] == pat[i]);
}

/// A path whose `i`-th character differs from that of a route's literal
/// prefix `pre` has no parameter for that route.
proof fn lemma_prefix_mismatch(rest: Seq<char>, pre: Seq<char>, i: int)
    requires
        0 <= i < pre.len(),
        i < rest.len(),
        rest[i] != pre[i],
    ensures
        param_match(rest, pre) is None,
{
    if pre.len() <= rest.len() {
        assert(rest.subrange(0, pre.len() as int)[i] == rest[i]);
    }
}

/// The path at which a route is served (with a leading `/`).
pub open spec fn route_path(r: RouteSpec) -> Seq<char> {
    seq!['/'] + match r {
        RouteSpec::Health => "health"@,
        RouteSpec::Devices => "api/devices"@,
        RouteSpec::SensorData => "api/sensor-data"@,
        RouteSpec::Dynamics => "api/dynamics"@,
        RouteSpec::Alerts => "api/alerts"@,
        RouteSpec::DeviceInfo(id) => "api/device/"@ + id,
        RouteSpec::Optimize => "api/optimize"@,
        RouteSpec::CamProfile(id) => "api/cam-profile/"@ + id,
        RouteSpec::Simulate => "api/simulate"@,
        RouteSpec::AlertStream => "ws/alerts"@,
    }
}

/// Whether a route's path parameter, if it has one, can stand in a path:
/// non-empty and without `/`.
pub open spec fn route_param_valid(r: RouteSpec) -> bool {
    match r {
        RouteSpec::DeviceInfo(id) => id.len() > 0 && slash_free(id),
        RouteSpec::CamProfile(id) => id.len() > 0 && slash_free(id),
        _ => true,
    }
}

/// The path of a route matches that route's pattern and no earlier one.
proof fn lemma_route_for_own_path(r: RouteSpec)
    requires
        route_param_valid(r),
    ensures
        route_for_path(route_path(r)) == Some(r),
{
    reveal_strlit("health");
    reveal_strlit("api/devices");
    reveal_strlit("api/sensor-data");
    reveal_strlit("api/dynamics");
    reveal_strlit("api/alerts");
    reveal_strlit("api/device/");
    reveal_strlit("api/optimize");
    reveal_strlit("api/cam-profile/");
    reveal_strlit("api/simulate");
    reveal_strlit("ws/alerts");
    let p = route_path(r);
    match r {
        RouteSpec::Health => {
            let rest = "health"@;
            assert(strip_root(p) =~= rest);
        },
        RouteSpec::Devices => {
            let rest = "api/devices"@;
            assert(strip_root(p) =~= rest);
            lemma_fixed_mismatch(rest, "health"@, 0);
        },
        RouteSpec::SensorData => {
            let rest = "api/sensor-data"@;
            assert(strip_root(p) =~= rest);
            lemma_fixed_mismatch(rest, "health"@, 0);
            lemma_fixed_mismatch(rest, "api/devices"@, 4);
        },
        RouteSpec::Dynamics => {
            let rest = "api/dynamics"@;
            assert(strip_root(p) =~= rest);
            lemma_fixed_mismatch(rest, "health"@, 0);
            lemma_fixed_mismatch(rest, "api/devices"@, 5);
            lemma_fixed_mismatch(rest, "api/sensor-data"@, 4);
        },
        RouteSpec::Alerts => {
            let rest = "api/alerts"@;
            assert(strip_root(p) =~= rest);
            lemma_fixed_mismatch(rest, "health"@, 0);
            lemma_fixed_mismatch(rest, "api/devices"@, 4);
            lemma_fixed_mismatch(rest, "api/sensor-data"@, 4);
            lemma_fixed_mismatch(rest, "api/dynamics"@, 4);
        },
        RouteSpec::DeviceInfo(id) => {
            let rest = "api/device/"@ + id;
            assert(strip_root(p) =~= rest);
            assert(rest.subrange(0, 11) =~= "api/device/"@);
            assert(rest.skip(11) =~= id);
            lemma_fixed_mismatch(rest, "health"@, 0);
            lemma_fixed_mismatch(rest, "api/devices"@, 10);
            lemma_fixed_mismatch(rest, "api/sensor-data"@, 4);
            lemma_fixed_mismatch(rest, "api/dynamics"@, 5);
            lemma_fixed_mismatch(rest, "api/alerts"@, 4);
        },
        RouteSpec::Optimize => {
            let rest = "api/optimize"@;
            assert(strip_root(p) =~= rest);
            lemma_fixed_mismatch(rest, "health"@, 0);
            lemma_fixed_mismatch(rest, "api/devices"@, 4);
            lemma_fixed_mismatch(rest, "api/sensor-data"@, 4);
            lemma_fixed_mismatch(rest, "api/dynamics"@, 4);
            lemma_fixed_mismatch(rest, "api/alerts"@, 4);
            lemma_prefix_mismatch(rest, "api/device/"@, 4);
        },
        RouteSpec::CamProfile(id) => {
            let rest = "api/cam-profile/"@ + id;
            assert(strip_root(p) =~= rest);
            assert(rest.subrange(0, 16) =~= "api/cam-profile/"@);
            assert(rest.skip(16) =~= id);
            lemma_fixed_mismatch(rest, "health"@, 0);
            lemma_fixed_mismatch(rest, "api/devices"@, 4);
            lemma_fixed_mismatch(rest, "api/sensor-data"@, 4);
            lemma_fixed_mismatch(rest, "api/dynamics"@, 4);
            lemma_fixed_mismatch(rest, "api/alerts"@, 4);
            lemma_prefix_mismatch(rest, "api/device/"@, 4);
            lemma_fixed_mismatch(rest, "api/optimize"@, 4);
        },
        RouteSpec::Simulate => {
            let rest = "api/simulate"@;
            assert(strip_root(p) =~= rest);
            lemma_fixed_mismatch(rest, "health"@, 0);
            lemma_fixed_mismatch(rest, "api/devices"@, 4);
            lemma_fixed_mismatch(rest, "api/sensor-data"@, 5);
            lemma_fixed_mismatch(rest, "api/dynamics"@, 4);
            lemma_fixed_mismatch(rest, "api/alerts"@, 4);
            lemma_prefix_mismatch(rest, "api/device/"@, 4);
            lemma_fixed_mismatch(rest, "api/optimize"@, 4);
            lemma_prefix_mismatch(rest, "api/cam-profile/"@, 4);
        },
        RouteSpec::AlertStream => {
            let rest = "ws/alerts"@;
            assert(strip_root(p) =~= rest);
            lemma_fixed_mismatch(rest, "health"@, 0);
            lemma_fixed_mismatch(rest, "api/devices"@, 0);
            lemma_fixed_mismatch(rest, "api/sensor-data"@, 0);
            lemma_fixed_mismatch(rest, "api/dynamics"@, 0);
            lemma_fixed_mismatch(rest, "api/alerts"@, 0);
            lemma_prefix_mismatch(rest, "api/device/"@, 0);
            lemma_fixed_mismatch(rest, "api/optimize"@, 0);
            lemma_prefix_mismatch(rest, "api/cam-profile/"@, 0);
            lemma_fixed_mismatch(rest, "api/simulate"@, 0);
        },
    }
}

/// Appending `/` to a path that does not end in `/` does not change whether
/// it matches a literal pattern that does not end in `/`.
proof fn lemma_fixed_slash(rest: Seq<char>, pat: Seq<char>)
    requires
        rest.len() > 0,
        rest.last() != '/',
        pat.len() > 0,
        pat.last() != '/',
    ensures
        fixed_match(rest.push('/'), pat) == fixed_match(rest, pat),
{
    if rest.push('/') == pat {
        assert(pat.last() == rest.push('/').last());
    }
    if rest == pat.push('/') {
        assert(rest.last() == pat.push('/').last());
    }
    if rest.push('/') == pat.push('/') {
        assert(rest =~= rest.push('/').drop_last());
        assert(pat =~= pat.push('/').drop_last());
    }
}

/// Appending `/` to a path that does not end in `/` does not change the
/// parameter that it gives a route whose literal prefix is `pre`.
proof fn lemma_param_slash(rest: Seq<char>, pre: Seq<char>)
    requires
        rest.len() > 0,
        rest.last() != '/',
        pre.len() > 0,
    ensures
        param_match(rest.push('/'), pre) == param_match(rest, pre),
{
    let r2 = rest.push('/');
    let n = pre.len() as int;
    if n <= rest.len() {
        assert(r2.subrange(0, n) =~= rest.subrange(0, n));
        let tail = rest.skip(n);
        let t2 = r2.skip(n);
        assert(t2 =~= tail.push('/'));
        if tail.len() > 0 {
            assert(tail.last() == rest.last());
            assert(t2.drop_last() =~= tail);
            if !slash_free(tail) {
                let k = choose|k: int| 0 <= k < tail.len() && tail[k] == '/';
                assert(t2[k] == '/');
            }
            assert(t2[t2.len() - 1] == '/');
        } else {
            assert(t2[0] == '/');
        }
        assert(param_segment(t2) == param_segment(tail));
    } else if n == r2.len() {
        assert(r2.skip(n).len() == 0);
    }
}

/// A path that does not end in `/` and the same path followed by one `/`
/// are routed alike.
pub proof fn lemma_trailing_slash(method: Seq<char>, path: Seq<char>)
    requires
        path.len() == 0 || path.last() != '/',
    ensures
        decide_route(method, path.push('/')) == decide_route(method, path),
{
    reveal_strlit("health");
    reveal_strlit("api/devices");
    reveal_strlit("api/sensor-data");
    reveal_strlit("api/dynamics");
    reveal_strlit("api/alerts");
    reveal_strlit("api/optimize");
    reveal_strlit("api/simulate");
    reveal_strlit("ws/alerts");
    reveal_strlit("api/device/");
    reveal_strlit("api/cam-profile/");
    let p2 = path.push('/');
    if path.len() == 0 {
        assert(strip_root(p2) =~= strip_root(path));
    } else {
        let rest = strip_root(path);
        assert(strip_root(p2) =~= rest.push('/'));
        assert(rest.len() > 0 && rest.last() == path.last());
        lemma_fixed_slash(rest, "health"@);
        lemma_fixed_slash(rest, "api/devices"@);
        lemma_fixed_slash(rest, "api/sensor-data"@);
        lemma_fixed_slash(rest, "api/dynamics"@);
        lemma_fixed_slash(rest, "api/alerts"@);
        lemma_fixed_slash(rest, "api/optimize"@);
        lemma_fixed_slash(rest, "api/simulate"@);
        lemma_fixed_slash(rest, "ws/alerts"@);
        lemma_param_slash(rest, "api/device/"@);
        lemma_param_slash(rest, "api/cam-profile/"@);
    }
}

/// Whether a path matches no route does not depend on the method.
pub proof fn lemma_not_found_ignores_method(m1: Seq<char>, m2: Seq<char>, path: Seq<char>)
    ensures
        (decide_route(m1, path) is NotFound) == (decide_route(m2, path) is NotFound),
{
}

/// A request reaches a route only with that route's method, and a path
/// parameter handed to a handler is a non-empty segment without `/`.
pub proof fn lemma_matched_route_shape(method: Seq<char>, path: Seq<char>)
    ensures
        decide_route(method, path) matches RouteDecisionSpec::Matched(r) ==> {
            &&& method == route_method(r)
            &&& route_param_valid(r)
        },
{
    let rest = strip_root(path);
    let d = param_match(rest, "api/device/"@);
    let c = param_match(rest, "api/cam-profile/"@);
    if d is Some {
        let tail = rest.skip("api/device/"@.len() as int);
        if !(tail.len() > 0 && slash_free(tail)) {
            assert(tail.drop_last().len() > 0);
        }
    }
    if c is Some {
        let tail = rest.skip("api/cam-profile/"@.len() as int);
        if !(tail.len() > 0 && slash_free(tail)) {
            assert(tail.drop_last().len() > 0);
        }
    }
}

/// Every route is reached again by its own method and path: requesting
/// `route_path(r)` with `route_method(r)` is routed to `r`.
pub proof fn lemma_route_path_round_trip(r: RouteSpec)
    requires
        route_param_valid(r),
    ensures
        decide_route(route_method(r), route_path(r)) == RouteDecisionSpec::Matched(r),
{
    lemma_route_for_own_path(r);
}

/// The path of a route never ends in `/`.
proof fn lemma_route_path_last(r: RouteSpec)
    requires
        route_param_valid(r),
    ensures
        route_path(r).len() > 1,
        route_path(r).last() != '/',
{
    reveal_strlit("health");
    reveal_strlit("api/devices");
    reveal_strlit("api/sensor-data");
    reveal_strlit("api/dynamics");
    reveal_strlit("api/alerts");
    reveal_strlit("api/device/");
    reveal_strlit("api/optimize");
    reveal_strlit("api/cam-profile/");
    reveal_strlit("api/simulate");
    reveal_strlit("ws/alerts");
    let p = route_path(r);
    match r {
        RouteSpec::DeviceInfo(id) => {
            assert(p.last() == id.last());
        },
        RouteSpec::CamProfile(id) => {
            assert(p.last() == id.last());
        },
        _ => {},
    }
}

/// A route's path requested with any method other than that route's own
/// (`POST` for optimisation and simulation, `GET` for every other route),
/// with or without one trailing `/`, is answered "method not allowed": it
/// reaches no handler at all.
pub proof fn lemma_wrong_method_not_allowed(r: RouteSpec, method: Seq<char>)
    requires
        route_param_valid(r),
        method != (if r is Optimize || r is Simulate { "POST"@ } else { "GET"@ }),
    ensures
        decide_route(method, route_path(r)) == RouteDecisionSpec::MethodNotAllowed,
        decide_route(method, route_path(r).push('/')) == RouteDecisionSpec::MethodNotAllowed,
{
    lemma_route_for_own_path(r);
    lemma_route_path_last(r);
    lemma_trailing_slash(method, route_path(r));
}

/// The characters before a route parameter and the parameter itself make
/// up the matched path, up to one trailing `/`.
proof fn lemma_param_shape(rest: Seq<char>, pre: Seq<char>)
    requires
        param_match(rest, pre) is Some,
    ensures
        ({
            let id = param_match(rest, pre)->0;
            &&& id.len() > 0
            &&& slash_free(id)
            &&& (rest == pre + id || rest == (pre + id).push('/'))
        }),
{
    let n = pre.len() as int;
    let tail = rest.skip(n);
    assert(rest =~= rest.subrange(0, n) + tail);
    if tail.len() > 0 && slash_free(tail) {
    } else {
        assert(tail =~= tail.drop_last().push('/'));
        assert((pre + tail.drop_last()).push('/') =~= pre + tail.drop_last().push('/'));
    }
}

/// A request is handed to a route only when its path is that route's own
/// path: `route_path(r)`, possibly without its leading `/`, possibly
/// followed by one `/`. The route a handler gets is the one the path names,
/// whatever the method.
pub proof fn lemma_matched_path_is_route_path(method: Seq<char>, path: Seq<char>)
    ensures
        decide_route(method, path) matches RouteDecisionSpec::Matched(r) ==> {
            let rp = route_path(r);
            ||| path == rp
            ||| path == rp.push('/')
            ||| path == rp.drop_first()
            ||| path == rp.drop_first().push('/')
        },
{
    let rest = strip_root(path);
    assert(path == rest || path =~= seq!['/'] + rest);
    if let Some(r) = route_for_path(path) {
        let rp = route_path(r);
        assert(rp.drop_first() =~= rp.subrange(1, rp.len() as int));
        assert((seq!['/'] + rest).push('/') =~= seq!['/'] + rest.push('/'));
        match r {
            RouteSpec::DeviceInfo(id) => {
                lemma_param_shape(rest, "api/device/"@);
                assert(rp.drop_first() =~= "api/device/"@ + id);
                assert(rp =~= seq!['/'] + ("api/device/"@ + id));
            },
            RouteSpec::CamProfile(id) => {
                lemma_param_shape(rest, "api/cam-profile/"@);
                assert(rp.drop_first() =~= "api/cam-profile/"@ + id);
                assert(rp =~= seq!['/'] + ("api/cam-profile/"@ + id));
            },
            _ => {
                assert(rp =~= seq!['/'] + rp.drop_first());
            },
        }
    }
}

/// The route table as served: each route's method and path.
pub proof fn lemma_route_table(r: RouteSpec)
    ensures
        route_method(r) == (if r is Optimize || r is Simulate { "POST"@ } else { "GET"@ }),
        route_path(r) == match r {
            RouteSpec::Health => "/health"@,
            RouteSpec::Devices => "/api/devices"@,
            RouteSpec::SensorData => "/api/sensor-data"@,
            RouteSpec::Dynamics => "/api/dynamics"@,
            RouteSpec::Alerts => "/api/alerts"@,
            RouteSpec::DeviceInfo(id) => "/api/device/"@ + id,
            RouteSpec::Optimize => "/api/optimize"@,
            RouteSpec::CamProfile(id) => "/api/cam-profile/"@ + id,
            RouteSpec::Simulate => "/api/simulate"@,
            RouteSpec::AlertStream => "/ws/alerts"@,
        },
{
    reveal_strlit("health");
    reveal_strlit("api/devices");
    reveal_strlit("api/sensor-data");
    reveal_strlit("api/dynamics");
    reveal_strlit("api/alerts");
    reveal_strlit("api/device/");
    reveal_strlit("api/optimize");
    reveal_strlit("api/cam-profile/");
    reveal_strlit("api/simulate");
    reveal_strlit("ws/alerts");
    reveal_strlit("/health");
    reveal_strlit("/api/devices");
    reveal_strlit("/api/sensor-data");
    reveal_strlit("/api/dynamics");
    reveal_strlit("/api/alerts");
    reveal_strlit("/api/device/");
    reveal_strlit("/api/optimize");
    reveal_strlit("/api/cam-profile/");
    reveal_strlit("/api/simulate");
    reveal_strlit("/ws/alerts");
    match r {
        RouteSpec::Health => assert(route_path(r) =~= "/health"@),
        RouteSpec::Devices => assert(route_path(r) =~= "/api/devices"@),
        RouteSpec::SensorData => assert(route_path(r) =~= "/api/sensor-data"@),
        RouteSpec::Dynamics => assert(route_path(r) =~= "/api/dynamics"@),
        RouteSpec::Alerts => assert(route_path(r) =~= "/api/alerts"@),
        RouteSpec::DeviceInfo(id) => assert(route_path(r) =~= "/api/device/"@ + id),
        RouteSpec::Optimize => assert(route_path(r) =~= "/api/optimize"@),
        RouteSpec::CamProfile(id) => assert(route_path(r) =~= "/api/cam-profile/"@ + id),
        RouteSpec::Simulate => assert(route_path(r) =~= "/api/simulate"@),
        RouteSpec::AlertStream => assert(route_path(r) =~= "/ws/alerts"@),
    }
}

} // verus!
