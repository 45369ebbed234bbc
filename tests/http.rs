use a2a_client::http::{HttpRequest, HttpResponse, Method};

#[test]
fn test_http_request_get() {
    let req = HttpRequest::get("https://example.com");
    assert_eq!(req.method, Method::Get);
    assert_eq!(req.url, "https://example.com");
    assert!(req.body.is_none());
}

#[test]
fn test_http_request_post() {
    let req = HttpRequest::post("https://example.com", b"hello".as_slice());
    assert_eq!(req.method, Method::Post);
    assert!(req.body.is_some());
}

#[test]
fn test_http_request_with_header() {
    let req =
        HttpRequest::get("https://example.com").with_header("Content-Type", "application/json");
    assert_eq!(req.headers.len(), 1);
    assert_eq!(
        req.headers[0],
        ("Content-Type".to_string(), "application/json".to_string())
    );
}

#[test]
fn test_http_response_header_lookup() {
    let resp = HttpResponse::ok(b"test".as_slice())
        .with_header("Content-Type", "application/json")
        .with_header("X-Custom", "value");

    assert_eq!(resp.header("content-type"), Some("application/json"));
    assert_eq!(resp.header("Content-Type"), Some("application/json"));
    assert_eq!(resp.header("x-custom"), Some("value"));
    assert_eq!(resp.header("missing"), None);
}

#[test]
fn test_method_as_str() {
    assert_eq!(Method::Get.as_str(), "GET");
    assert_eq!(Method::Post.as_str(), "POST");
    assert_eq!(Method::Put.as_str(), "PUT");
    assert_eq!(Method::Delete.as_str(), "DELETE");
}

#[test]
fn response_builders_keep_fields() {
    let resp = HttpResponse::ok(b"x".as_slice()).with_status(404).with_header("A", "1");
    assert_eq!(resp.status, 404);
    assert_eq!(resp.body, b"x".to_vec());
    assert_eq!(resp.header("a"), Some("1"));
    assert_eq!(resp.header("A1"), None);
}

#[test]
fn header_lookup_returns_first_match() {
    let resp = HttpResponse::ok(b"".as_slice())
        .with_header("ETag", "one")
        .with_header("etag", "two");
    assert_eq!(resp.header("ETAG"), Some("one"));
}
