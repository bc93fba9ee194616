use http::header::{HeaderMap, HeaderName, HeaderValue, X_FRAME_OPTIONS};
use http::{Response, StatusCode};
use tower_default_headers::header_map::INSERT_LIMIT;
use tower_default_headers::{apply_defaults, complete, merge_defaults, DefaultHeadersLayer};

fn frame_defaults() -> HeaderMap {
    let mut default_headers = HeaderMap::new();
    default_headers.insert(X_FRAME_OPTIONS, HeaderValue::from_static("deny"));
    default_headers
}

fn hello() -> Response<&'static str> {
    Response::builder().status(StatusCode::OK).body("hello, world!").unwrap()
}

/// Runs one request through a stage built by the layer, with `handler_result` standing for
/// what the inner stage eventually produced.
fn run<E>(
    layer: &DefaultHeadersLayer,
    handler_result: Result<Response<&'static str>, E>,
) -> Result<Response<&'static str>, E> {
    let stage = layer.layer(());
    let (defaults, pending) = stage.respond(handler_result).into_parts();
    complete(&defaults, pending)
}

fn entries(h: &HeaderMap) -> Vec<(String, Vec<u8>)> {
    h.iter().map(|(n, v)| (n.as_str().to_string(), v.as_bytes().to_vec())).collect()
}

#[test]
fn test_headers_when_missing() {
    let layer = DefaultHeadersLayer::new(frame_defaults());
    let response = run::<()>(&layer, Ok(hello())).unwrap();

    assert_eq!(response.status(), StatusCode::OK);
    let headers = response.headers();
    assert_eq!(headers["x-frame-options"], "deny");
    assert_eq!(response.into_body().as_bytes(), b"hello, world!");
}

#[test]
fn test_headers_when_already_set_by_handler() {
    let layer = DefaultHeadersLayer::new(frame_defaults());
    let mut handler = hello();
    handler.headers_mut().insert("x-frame-options", HeaderValue::from_static("sameorigin"));
    let response = run::<()>(&layer, Ok(handler)).unwrap();

    assert_eq!(response.status(), StatusCode::OK);
    let headers = response.headers();
    assert_eq!(headers["x-frame-options"], "sameorigin");
    assert_eq!(response.into_body().as_bytes(), b"hello, world!");
}

#[test]
fn empty_defaults_leave_headers_alone() {
    let layer = DefaultHeadersLayer::new(HeaderMap::new());
    let mut handler = hello();
    handler.headers_mut().insert("content-type", HeaderValue::from_static("text/plain"));
    handler.headers_mut().append("set-cookie", HeaderValue::from_static("a=1"));
    handler.headers_mut().append("set-cookie", HeaderValue::from_static("b=2"));
    let before = entries(handler.headers());
    let response = run::<()>(&layer, Ok(handler)).unwrap();
    assert_eq!(entries(response.headers()), before);
}

#[test]
fn error_passes_through_unchanged() {
    let layer = DefaultHeadersLayer::new(frame_defaults());
    let result = run(&layer, Err::<Response<&'static str>, _>("inner failed"));
    assert_eq!(result.unwrap_err(), "inner failed");
}

#[test]
fn first_of_duplicate_defaults_wins() {
    let mut defaults = HeaderMap::new();
    defaults.append(X_FRAME_OPTIONS, HeaderValue::from_static("deny"));
    defaults.append(X_FRAME_OPTIONS, HeaderValue::from_static("sameorigin"));
    let mut headers = HeaderMap::new();
    merge_defaults(&mut headers, &defaults);
    assert_eq!(entries(&headers), vec![("x-frame-options".to_string(), b"deny".to_vec())]);
}

#[test]
fn merging_twice_equals_merging_once() {
    let mut defaults = frame_defaults();
    defaults.insert("x-content-type-options", HeaderValue::from_static("nosniff"));
    let mut once = HeaderMap::new();
    once.insert("content-type", HeaderValue::from_static("text/plain"));
    merge_defaults(&mut once, &defaults);
    let mut twice = once.clone();
    merge_defaults(&mut twice, &defaults);
    assert_eq!(entries(&twice), entries(&once));
    assert_eq!(
        entries(&once),
        vec![
            ("content-type".to_string(), b"text/plain".to_vec()),
            ("x-frame-options".to_string(), b"deny".to_vec()),
            ("x-content-type-options".to_string(), b"nosniff".to_vec()),
        ]
    );
}

#[test]
fn present_name_keeps_all_its_values() {
    let mut defaults = HeaderMap::new();
    defaults.insert("cache-control", HeaderValue::from_static("no-store"));
    defaults.insert("x-frame-options", HeaderValue::from_static("deny"));
    let mut headers = HeaderMap::new();
    headers.append("cache-control", HeaderValue::from_static("private"));
    headers.append("cache-control", HeaderValue::from_static("max-age=0"));
    merge_defaults(&mut headers, &defaults);
    let values: Vec<&[u8]> = headers.get_all("cache-control").iter().map(|v| v.as_bytes()).collect();
    assert_eq!(values, vec![&b"private"[..], &b"max-age=0"[..]]);
    assert_eq!(headers["x-frame-options"], "deny");
    assert_eq!(headers.len(), 3);
}

#[test]
fn names_match_regardless_of_case() {
    let defaults = frame_defaults();
    let mut headers = HeaderMap::new();
    headers.insert(HeaderName::from_bytes(b"X-Frame-Options").unwrap(), HeaderValue::from_static("sameorigin"));
    assert!(apply_defaults(&mut headers, &defaults));
    assert_eq!(headers.len(), 1);
    assert_eq!(headers["x-frame-options"], "sameorigin");
}

#[test]
fn oversized_headers_are_left_alone() {
    let defaults = frame_defaults();
    let mut headers = HeaderMap::new();
    for i in 0..INSERT_LIMIT {
        let name = HeaderName::from_bytes(format!("x-h{}", i).as_bytes()).unwrap();
        headers.append(name, HeaderValue::from_static("1"));
    }
    assert!(!apply_defaults(&mut headers, &defaults));
    assert_eq!(headers.len(), INSERT_LIMIT);
    assert!(!headers.contains_key(X_FRAME_OPTIONS));
}

#[test]
fn layer_copies_defaults_into_each_stage() {
    let layer = DefaultHeadersLayer::new(frame_defaults());
    let first = layer.layer(1u8);
    let second = layer.clone().layer(2u8);
    assert_eq!(*first.get_ref(), 1);
    assert_eq!(*second.get_ref(), 2);
    let mut third = layer.layer(3u8);
    *third.get_mut() = 4;
    assert_eq!(*third.get_ref(), 4);
    assert_eq!(entries(first.default_headers()), entries(layer.default_headers()));
    assert_eq!(entries(second.clone().default_headers()), entries(&frame_defaults()));
}

#[test]
fn many_values_of_one_name_still_get_defaults() {
    let defaults = frame_defaults();
    let mut headers = HeaderMap::new();
    for _ in 0..5000 {
        headers.append("set-cookie", HeaderValue::from_static("a=1"));
    }
    assert!(apply_defaults(&mut headers, &defaults));
    assert_eq!(headers.len(), 5001);
    assert_eq!(headers["x-frame-options"], "deny");
}

#[test]
fn cloned_layer_and_stage_keep_defaults() {
    let mut defaults = frame_defaults();
    defaults.insert("x-content-type-options", HeaderValue::from_static("nosniff"));
    let layer = DefaultHeadersLayer::new(defaults.clone());
    let copy = layer.clone();
    assert_eq!(entries(copy.default_headers()), entries(&defaults));
    let stage = copy.layer(7u8).clone();
    assert_eq!(entries(stage.default_headers()), entries(&defaults));
    assert_eq!(*stage.get_ref(), 7);
}
