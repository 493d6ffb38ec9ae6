use lambda_nodes::api::{
    parse_http_method, parse_log_level, HttpMethod, LNBoolean, ListHistoriesQuery, ListLogsQuery,
    ListNodesQuery, ListPipelinesQuery, LogLevel, PaginationQuery, RouteUpdateRequest,
    UpdateHistoryStatusRequest,
};

#[test]
fn log_levels_round_trip_through_wire_names() {
    for (level, name) in [
        (LogLevel::Info, "info"),
        (LogLevel::Warn, "warn"),
        (LogLevel::Error, "error"),
    ] {
        assert_eq!(level.as_str(), name);
        assert_eq!(parse_log_level(name).unwrap().as_str(), name);
    }
    assert!(parse_log_level("fatal").is_none());
    assert!(parse_log_level("").is_none());
}

#[test]
fn http_methods_round_trip_through_wire_names() {
    for (method, name) in [
        (HttpMethod::GET, "GET"),
        (HttpMethod::POST, "POST"),
        (HttpMethod::PUT, "PUT"),
        (HttpMethod::DELETE, "DELETE"),
        (HttpMethod::PATCH, "PATCH"),
    ] {
        assert_eq!(method.as_str(), name);
        assert_eq!(parse_http_method(name).unwrap().as_str(), name);
    }
    assert!(parse_http_method("OPTIONS").is_none());
    assert!(parse_http_method("get").is_none());
}

#[test]
fn listing_queries_fall_back_to_their_defaults() {
    let hq = ListHistoriesQuery { limit: None, offset: None };
    assert_eq!(hq.effective_limit(), 10);
    assert_eq!(hq.effective_offset(), 0);

    let lq = ListLogsQuery { limit: None, offset: None };
    assert_eq!(lq.effective_limit(), 30);
    assert_eq!(lq.effective_offset(), 0);

    let nq = ListNodesQuery { limit: Some(3), offset: Some(9) };
    assert_eq!(nq.effective_limit(), 3);
    assert_eq!(nq.effective_offset(), 9);

    let pq = ListPipelinesQuery { limit: None, offset: Some(5) };
    assert_eq!(pq.effective_limit(), 10);
    assert_eq!(pq.effective_offset(), 5);

    let rq = PaginationQuery { limit: None, offset: None };
    assert_eq!(rq.effective_limit(), 20);
    assert_eq!(rq.effective_offset(), 0);
}

#[test]
fn request_shapes_carry_their_fields() {
    let b = LNBoolean { value: true };
    assert!(b.value);
    let u = UpdateHistoryStatusRequest { status: "running".to_string() };
    assert_eq!(u.status, "running");
    let r = RouteUpdateRequest { path: "/orders".to_string(), method: "POST".to_string() };
    assert_eq!(r.path, "/orders");
    assert_eq!(r.method, "POST");
}
