//! Tests for cookie parsing and the cookie jar.

use bazzounquester::cookies::{Cookie, CookieJar};

#[test]
fn test_cookie_new() {
    let cookie = Cookie::new("session".to_string(), "abc123".to_string());
    assert_eq!(cookie.name, "session");
    assert_eq!(cookie.value, "abc123");
    assert!(cookie.domain.is_none());
    assert!(!cookie.http_only);
}

#[test]
fn test_cookie_from_header() {
    let cookie = Cookie::from_header("session=abc123; Domain=example.com; Path=/; HttpOnly; Secure")
        .unwrap();
    assert_eq!(cookie.name, "session");
    assert_eq!(cookie.value, "abc123");
    assert_eq!(cookie.domain, Some("example.com".to_string()));
    assert_eq!(cookie.path, Some("/".to_string()));
    assert!(cookie.http_only);
    assert!(cookie.secure);
}

#[test]
fn test_cookie_from_header_same_site() {
    let cookie = Cookie::from_header("id=1; SameSite=Strict").unwrap();
    assert_eq!(cookie.same_site, Some("Strict".to_string()));
}

#[test]
fn test_cookie_from_header_trims_and_ignores_case() {
    let cookie = Cookie::from_header("  token = xyz ;  DOMAIN = a.example.com ").unwrap();
    assert_eq!(cookie.name, "token");
    assert_eq!(cookie.value, "xyz");
    assert_eq!(cookie.domain, Some("a.example.com".to_string()));
}

#[test]
fn test_cookie_from_header_rejects_malformed() {
    assert!(Cookie::from_header("no-equals-sign").is_none());
    assert!(Cookie::from_header("too=many=signs").is_none());
}

#[test]
fn test_cookie_to_header() {
    let cookie = Cookie::new("a".to_string(), "b".to_string());
    assert_eq!(cookie.to_header(), "a=b");
}

#[test]
fn test_cookie_expiry() {
    let cookie = Cookie::new("a".to_string(), "b".to_string()).with_expires(1000);
    assert!(!cookie.is_expired(1000));
    assert!(cookie.is_expired(1001));

    let forever = Cookie::new("c".to_string(), "d".to_string());
    assert!(!forever.is_expired(i64::MAX));
}

#[test]
fn test_jar_add_get_remove() {
    let mut jar = CookieJar::new();
    jar.add(Cookie::new("a".to_string(), "1".to_string()));
    jar.add(Cookie::new("b".to_string(), "2".to_string()));

    assert_eq!(jar.get("a").unwrap().value, "1");
    assert!(jar.get("missing").is_none());

    jar.add(Cookie::new("a".to_string(), "replaced".to_string()));
    assert_eq!(jar.get("a").unwrap().value, "replaced");

    assert!(jar.remove("b").is_some());
    assert!(jar.get("b").is_none());
}

#[test]
fn test_jar_remove_expired() {
    let mut jar = CookieJar::new();
    jar.add(Cookie::new("old".to_string(), "1".to_string()).with_expires(10));
    jar.add(Cookie::new("fresh".to_string(), "2".to_string()).with_expires(1000));
    jar.add(Cookie::new("forever".to_string(), "3".to_string()));

    jar.remove_expired(500);

    assert!(jar.get("old").is_none());
    assert!(jar.get("fresh").is_some());
    assert!(jar.get("forever").is_some());
}

#[test]
fn test_jar_for_domain() {
    let mut jar = CookieJar::new();
    jar.add(Cookie::new("a".to_string(), "1".to_string()).with_domain("example.com".to_string()));
    jar.add(Cookie::new("b".to_string(), "2".to_string()).with_domain("other.org".to_string()));
    jar.add(Cookie::new("c".to_string(), "3".to_string()));

    let matching = jar.for_domain("api.example.com");
    let names: Vec<&str> = matching.iter().map(|c| c.name.as_str()).collect();
    assert_eq!(names, vec!["a", "c"]);
}

#[test]
fn test_jar_cookie_header() {
    let mut jar = CookieJar::new();
    assert!(jar.cookie_header("example.com").is_none());

    jar.add(Cookie::new("a".to_string(), "1".to_string()));
    jar.add(Cookie::new("b".to_string(), "2".to_string()));
    assert_eq!(jar.cookie_header("example.com"), Some("a=1; b=2".to_string()));
}

#[test]
fn test_jar_add_from_headers() {
    let mut jar = CookieJar::new();
    let headers = vec![
        ("Content-Type".to_string(), "text/html".to_string()),
        ("Set-Cookie".to_string(), "session=s1; HttpOnly".to_string()),
        ("SET-COOKIE".to_string(), "theme=dark".to_string()),
        ("Set-Cookie".to_string(), "broken".to_string()),
    ];

    jar.add_from_headers(&headers);

    assert_eq!(jar.get("session").unwrap().value, "s1");
    assert!(jar.get("session").unwrap().http_only);
    assert_eq!(jar.get("theme").unwrap().value, "dark");
    assert!(jar.get("broken").is_none());
}
