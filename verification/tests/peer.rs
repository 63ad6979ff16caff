use axum::http::{HeaderMap, HeaderValue};
use websockproxy_relay::peer::{first_listed, forwarded_for};

fn headers(value: &[u8]) -> HeaderMap {
    let mut headers = HeaderMap::new();
    headers.insert(
        "X-Forwarded-For",
        HeaderValue::from_bytes(value).expect("header value"),
    );
    headers
}

#[test]
fn no_header_names_no_client() {
    assert_eq!(forwarded_for(&HeaderMap::new()), None);

    let mut other = HeaderMap::new();
    other.insert("x-real-ip", HeaderValue::from_static("10.0.0.1"));
    assert_eq!(forwarded_for(&other), None);
}

#[test]
fn the_first_name_counts() {
    assert_eq!(
        forwarded_for(&headers(b"203.0.113.7, 10.0.0.1")),
        Some("203.0.113.7".to_string())
    );
    assert_eq!(
        forwarded_for(&headers(b"203.0.113.7")),
        Some("203.0.113.7".to_string())
    );
}

#[test]
fn blanks_around_the_name_are_dropped() {
    assert_eq!(
        forwarded_for(&headers(b" \t 203.0.113.7\t , x")),
        Some("203.0.113.7".to_string())
    );
    assert_eq!(
        forwarded_for(&headers(b"two words ,x")),
        Some("two words".to_string())
    );
}

#[test]
fn an_empty_first_name_is_none() {
    assert_eq!(forwarded_for(&headers(b"")), None);
    assert_eq!(forwarded_for(&headers(b", 10.0.0.1")), None);
    assert_eq!(forwarded_for(&headers(b"  ,10.0.0.1")), None);
}

#[test]
fn a_value_that_is_no_visible_text_is_none() {
    assert_eq!(forwarded_for(&headers(b"caf\xc3\xa9")), None);
}

#[test]
fn the_first_of_two_headers_counts() {
    let mut two = headers(b"first");
    two.append("x-forwarded-for", HeaderValue::from_static("second"));

    assert_eq!(forwarded_for(&two), Some("first".to_string()));
}

#[test]
fn a_list_is_split_at_its_first_comma() {
    assert_eq!(first_listed(" a b ,c"), Some("a b".to_string()));
    assert_eq!(first_listed("abc"), Some("abc".to_string()));
    assert_eq!(first_listed(""), None);
    assert_eq!(first_listed("\t"), None);
    assert_eq!(first_listed(","), None);
}
