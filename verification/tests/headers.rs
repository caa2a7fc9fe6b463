use http::HeaderValue;
use pitwall::github::headers::{read_etag, read_rate, request_headers};
use pitwall::github::types::RateLimit;
use pitwall::time::Timestamp;

#[test]
fn the_stored_etag_goes_out() {
    let headers = request_headers(Some("W/\"abc\""));
    assert_eq!(headers.len(), 1);
    assert_eq!(headers.get("if-none-match").unwrap(), "W/\"abc\"");
    assert!(request_headers(None).is_empty());
    assert!(request_headers(Some("bad\nvalue")).is_empty());
    let tabbed = request_headers(Some("a\tb é"));
    assert_eq!(tabbed.get("if-none-match").unwrap().as_bytes(), "a\tb é".as_bytes());
}

#[test]
fn the_etag_is_read_where_it_is_text() {
    let mut headers = http::HeaderMap::new();
    assert_eq!(read_etag(&headers), None);
    headers.insert("ETag", HeaderValue::from_static("\"xyz\""));
    assert_eq!(read_etag(&headers), Some("\"xyz\"".to_owned()));
    headers.append("etag", HeaderValue::from_static("\"second\""));
    assert_eq!(read_etag(&headers), Some("\"xyz\"".to_owned()));
    headers.insert("etag", HeaderValue::from_bytes(&[0xe9]).unwrap());
    assert_eq!(read_etag(&headers), None);
}

#[test]
fn an_etag_read_goes_back_unchanged() {
    let mut headers = http::HeaderMap::new();
    headers.insert("etag", HeaderValue::from_static("W/\"1\t2\""));
    let tag = read_etag(&headers).unwrap();
    assert_eq!(request_headers(Some(&tag)).get("if-none-match"), headers.get("etag"));
}

#[test]
fn the_budget_is_read_from_the_headers() {
    let mut headers = http::HeaderMap::new();
    assert_eq!(read_rate(&headers), None);
    headers.insert("x-ratelimit-remaining", HeaderValue::from_static("4999"));
    assert_eq!(read_rate(&headers), None);
    headers.insert("x-ratelimit-limit", HeaderValue::from_static("+5000"));
    assert_eq!(
        read_rate(&headers),
        Some(RateLimit { remaining: 4999, limit: 5000, reset: None })
    );
    headers.insert("x-ratelimit-reset", HeaderValue::from_static("1753000000"));
    assert_eq!(
        read_rate(&headers).unwrap().reset,
        Some(Timestamp { secs: 1_753_000_000, nanos: 0 })
    );
    headers.insert("x-ratelimit-reset", HeaderValue::from_static("soon"));
    assert_eq!(read_rate(&headers).unwrap().reset, None);
    headers.insert("x-ratelimit-limit", HeaderValue::from_static("-1"));
    assert_eq!(read_rate(&headers), None);
    headers.insert("x-ratelimit-limit", HeaderValue::from_static("18446744073709551616"));
    assert_eq!(read_rate(&headers), None);
}
