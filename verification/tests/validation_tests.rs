use feedy::validation::{decide_parsed_url, validate_feed_url, ParsedUrl, UrlError};

#[test]
fn accepts_http_and_https() {
    assert!(validate_feed_url("https://example.com/feed.xml").is_ok());
    assert!(validate_feed_url("http://example.com/feed.xml").is_ok());
}

#[test]
fn rejects_non_http_scheme() {
    let err = validate_feed_url("ftp://example.com/feed.xml").expect_err("must fail");
    assert!(err.message().contains("http or https"));
}

#[test]
fn validated_url_is_the_parsers_form() {
    assert_eq!(validate_feed_url("  https://Example.COM  ").unwrap(), "https://example.com/");
    assert_eq!(validate_feed_url("http://example.com/a/../feed").unwrap(), "http://example.com/feed");
}

#[test]
fn empty_url_is_refused() {
    let err = validate_feed_url("   ").unwrap_err();
    assert_eq!(err, UrlError::Empty);
    assert_eq!(err.message(), "feed URL cannot be empty");
}

#[test]
fn unparsable_url_is_refused() {
    let err = validate_feed_url("not a url").unwrap_err();
    assert!(matches!(err, UrlError::Invalid { .. }));
    assert_eq!(err.message(), "invalid URL: not a url");
}

#[test]
fn other_schemes_are_refused() {
    let err = validate_feed_url("mailto:someone@example.com").unwrap_err();
    assert_eq!(err, UrlError::NotHttp);
    assert_eq!(err.message(), "feed URL must use http or https");
    assert_eq!(validate_feed_url("file:///tmp/feed.xml").unwrap_err(), UrlError::NotHttp);
}

#[test]
fn no_host_message() {
    assert_eq!(UrlError::NoHost.message(), "feed URL must include a host");
}

fn parts(scheme: &str, has_host: bool, serialization: &str) -> ParsedUrl {
    ParsedUrl { scheme: scheme.to_string(), has_host, serialization: serialization.to_string() }
}

#[test]
fn decide_gives_the_serialization() {
    let r = decide_parsed_url("https://a.example".to_string(), Ok(parts("https", true, "https://a.example/")));
    assert_eq!(r, Ok("https://a.example/".to_string()));
    let r = decide_parsed_url("http://a.example".to_string(), Ok(parts("http", true, "http://a.example/")));
    assert_eq!(r, Ok("http://a.example/".to_string()));
}

#[test]
fn decide_refuses_other_schemes_and_missing_hosts() {
    let r = decide_parsed_url("ftp://a.example".to_string(), Ok(parts("ftp", true, "ftp://a.example/")));
    assert_eq!(r, Err(UrlError::NotHttp));
    // The scheme is checked before the host.
    let r = decide_parsed_url("mailto:x@y".to_string(), Ok(parts("mailto", false, "mailto:x@y")));
    assert_eq!(r, Err(UrlError::NotHttp));
    let r = decide_parsed_url("http:".to_string(), Ok(parts("http", false, "http:")));
    assert_eq!(r, Err(UrlError::NoHost));
}

#[test]
fn decide_reports_the_parse_error() {
    let r = decide_parsed_url("not a url".to_string(), Err("relative URL without a base".to_string()));
    assert_eq!(
        r,
        Err(UrlError::Invalid { input: "not a url".to_string(), reason: "relative URL without a base".to_string() })
    );
}
