use ferrous::fetcher::AttemptError;
use ferrous::text::{decimal_string, strip_slashes, trim_whitespace};
use ferrous::zyte::{after_attempt, extract_body, request_body, status_failure, status_text, AttemptVerdict, ZyteResponse};
use ferrous::{Collector, FetchError, Stats, ZyteMode};

#[test]
fn trims_unicode_whitespace_like_std() {
    for s in ["  a b  ", "\u{2003}x\u{2029}", "", "   ", "\t\nq\r", "\u{85}z\u{1680}"] {
        assert_eq!(trim_whitespace(s), s.trim());
    }
    assert_eq!(strip_slashes("a/b//"), "a/b");
}

#[test]
fn decimal_text_matches_to_string() {
    for n in [0u64, 7, 10, 99, 404, 65535, u64::MAX] {
        assert_eq!(decimal_string(n), n.to_string());
    }
}

#[test]
fn request_body_per_mode() {
    assert_eq!(
        request_body("https://books.toscrape.com/", ZyteMode::Http),
        r#"{"httpResponseBody":true,"url":"https://books.toscrape.com/"}"#
    );
    assert_eq!(
        request_body("https://x.com/a\"b\\c\n\u{1}é", ZyteMode::Browser),
        "{\"browserHtml\":true,\"url\":\"https://x.com/a\\\"b\\\\c\\n\\u0001é\"}"
    );
}

#[test]
fn request_body_matches_serde_json_object() {
    let url = "https://x.com/?q=\"x\"&t=\t\u{7f}";
    let mut map = serde_json::Map::new();
    map.insert("url".to_string(), serde_json::Value::String(url.to_string()));
    map.insert("httpResponseBody".to_string(), serde_json::Value::Bool(true));
    let expected = serde_json::Value::Object(map).to_string();
    assert_eq!(request_body(url, ZyteMode::Http), expected);
}

#[test]
fn status_text_uses_reason_phrase() {
    assert_eq!(status_text(404), "404 Not Found");
    assert_eq!(status_text(503), "503 Service Unavailable");
    assert_eq!(status_text(599), "599 <unknown status code>");
}

fn status_message(r: Option<AttemptError>) -> Option<(u16, String)> {
    match r {
        Some(AttemptError::Status { code, message }) => Some((code, message)),
        Some(_) => panic!("expected a status failure"),
        None => None,
    }
}

fn parse_message(r: Result<String, AttemptError>) -> Result<String, String> {
    match r {
        Ok(t) => Ok(t),
        Err(AttemptError::Parse { message }) => Err(message),
        Err(_) => panic!("expected a parse failure"),
    }
}

#[test]
fn status_failure_messages() {
    assert_eq!(status_message(status_failure(200, "https://a.com", "Zyte API")), None);
    assert_eq!(status_message(status_failure(204, "https://a.com", "Zyte API")), None);
    assert_eq!(
        status_message(status_failure(503, "https://a.com", "Zyte API")),
        Some((503, "5xx from Zyte API: 503 Service Unavailable for https://a.com".to_string()))
    );
    assert_eq!(
        status_message(status_failure(500, "https://a.com", "server")),
        Some((500, "5xx from server: 500 Internal Server Error for https://a.com".to_string()))
    );
    assert_eq!(
        status_message(status_failure(404, "https://a.com", "Zyte API")),
        Some((404, "non-retryable HTTP 404 Not Found for https://a.com".to_string()))
    );
    assert_eq!(
        status_message(status_failure(301, "u", "Zyte API")),
        Some((301, "non-retryable HTTP 301 Moved Permanently for u".to_string()))
    );
}

#[test]
fn extract_body_decodes_http_body() {
    let resp = ZyteResponse { http_response_body: Some("aGVsbG8=".to_string()), browser_html: Some("ignored".to_string()) };
    assert_eq!(parse_message(extract_body(&resp)), Ok("hello".to_string()));
}

#[test]
fn extract_body_replaces_invalid_utf8() {
    // bytes 0x68 0xff 0x69
    let resp = ZyteResponse { http_response_body: Some("aP9p".to_string()), browser_html: None };
    assert_eq!(parse_message(extract_body(&resp)), Ok("h\u{fffd}i".to_string()));
}

#[test]
fn extract_body_reports_bad_base64() {
    let resp = ZyteResponse { http_response_body: Some("a$==".to_string()), browser_html: None };
    assert_eq!(parse_message(extract_body(&resp)), Err("Invalid symbol 36, offset 1.".to_string()));
    let short = ZyteResponse { http_response_body: Some("a".to_string()), browser_html: None };
    assert!(parse_message(extract_body(&short)).is_err());
}

#[test]
fn extract_body_uses_browser_html_or_fails() {
    let resp = ZyteResponse { http_response_body: None, browser_html: Some("<html></html>".to_string()) };
    assert_eq!(parse_message(extract_body(&resp)), Ok("<html></html>".to_string()));
    let none = ZyteResponse { http_response_body: None, browser_html: None };
    assert_eq!(parse_message(extract_body(&none)), Err("empty response body from Zyte API".to_string()));
}

fn is_retry(v: AttemptVerdict) -> Option<u64> {
    match v {
        AttemptVerdict::RetryAfterSecs(s) => Some(s),
        AttemptVerdict::Done(_) => None,
    }
}

#[test]
fn retry_only_first_attempt_on_5xx_status() {
    let e503 = || status_failure(503, "u", "Zyte API").unwrap();
    assert_eq!(is_retry(after_attempt(0, Err(e503()))), Some(2));
    assert_eq!(is_retry(after_attempt(1, Err(e503()))), None);
    assert_eq!(is_retry(after_attempt(0, Ok("body".to_string()))), None);
    let e404 = status_failure(404, "https://a.com/5xx", "Zyte API").unwrap();
    assert_eq!(is_retry(after_attempt(0, Err(e404))), None);
    let net = AttemptError::Network { message: "timeout for https://a.com/5xx".to_string() };
    assert_eq!(is_retry(after_attempt(0, Err(net))), None);
    match after_attempt(1, Err(e503())) {
        AttemptVerdict::Done(Err(AttemptError::Status { code, .. })) => assert_eq!(code, 503),
        _ => panic!("second failure is final"),
    }
    match after_attempt(0, Ok("body".to_string())) {
        AttemptVerdict::Done(Ok(b)) => assert_eq!(b, "body"),
        _ => panic!("success is final"),
    }
}

#[test]
fn fetch_errors_from_attempts() {
    let e = FetchError::from_attempt("https://a.com", status_failure(404, "https://a.com", "Zyte API").unwrap());
    assert_eq!(e.message(), "HTTP 404 for https://a.com");
    let e = FetchError::from_attempt("u", AttemptError::Network { message: "timeout".to_string() });
    assert_eq!(e.message(), "network error for u: timeout");
    let e = FetchError::from_attempt("u", AttemptError::Parse { message: "bad".to_string() });
    assert_eq!(e.message(), "parse error for u: bad");
    assert_eq!(AttemptError::Parse { message: "bad".to_string() }.message(), "bad");
}

#[test]
fn fetch_error_messages() {
    let e = FetchError::HttpError { status: 404, url: "https://a.com".to_string() };
    assert_eq!(e.message(), "HTTP 404 for https://a.com");
    let e = FetchError::NetworkError { error: "timeout".to_string(), url: "u".to_string() };
    assert_eq!(e.message(), "network error for u: timeout");
    let e = FetchError::ParseError { error: "bad utf8".to_string(), url: "u".to_string() };
    assert_eq!(e.message(), "parse error for u: bad utf8");
}

#[test]
fn stats_tally_status_codes_in_order() {
    let mut s = Stats::new();
    s.record_status(404);
    s.record_status(200);
    s.record_status(200);
    s.record_status(503);
    s.record_status(200);
    assert_eq!(s.status_count(200), 3);
    assert_eq!(s.status_count(404), 1);
    assert_eq!(s.status_count(500), 0);
    assert_eq!(s.status_counts, vec![(200, 3), (404, 1), (503, 1)]);
}

#[test]
fn summary_without_errors_or_statuses() {
    let mut s = Stats::new();
    s.pages_fetched = 50;
    s.items_written = 1000;
    assert_eq!(
        s.print_summary("14.3"),
        vec![
            "scrape complete".to_string(),
            "  duration:       14.3s".to_string(),
            "  pages fetched:  50".to_string(),
            "  items written:  1000".to_string(),
        ]
    );
}

#[test]
fn summary_with_statuses_and_errors() {
    let mut s = Stats::new();
    s.pages_fetched = 52;
    s.items_written = 1000;
    s.write_errors = 1;
    s.record_status(404);
    s.record_status(200);
    s.record_status(200);
    assert_eq!(
        s.print_summary("0.5"),
        vec![
            "scrape complete".to_string(),
            "  duration:       0.5s".to_string(),
            "  pages fetched:  52".to_string(),
            "  items written:  1000".to_string(),
            "  http status codes:".to_string(),
            "    200:  2".to_string(),
            "    404:  1".to_string(),
            "  errors:".to_string(),
            "    fetch errors:  0".to_string(),
            "    write errors:  1".to_string(),
        ]
    );
}

#[test]
fn collector_builder_defaults_and_settings() {
    let c: Collector<u8> = Collector::new();
    assert_eq!(c.api_key, None);
    assert_eq!(c.concurrency, 4);
    assert_eq!(c.output_path, "output.jsonl");
    assert_eq!(c.mode, ZyteMode::Http);
    let c = c
        .zyte_api_key("KEY")
        .concurrency(2)
        .output("/tmp/books.jsonl")
        .visit("https://books.toscrape.com/catalogue/page-1.html")
        .visit("https://books.toscrape.com/")
        .zyte_mode(ZyteMode::Browser)
        .on_html("article.product_pod", 7u8);
    assert_eq!(c.api_key, Some("KEY".to_string()));
    assert_eq!(c.concurrency, 2);
    assert_eq!(c.output_path, "/tmp/books.jsonl");
    assert_eq!(c.start_urls.len(), 2);
    assert_eq!(c.mode, ZyteMode::Browser);
    assert_eq!(c.callbacks.len(), 1);
    assert_eq!(c.callbacks[0].callback, 7u8);
    assert_eq!(c.callbacks[0].selector, "article.product_pod");
    let d: Collector<u8> = Collector::default();
    assert_eq!(d.concurrency, 4);
}

#[test]
fn try_on_html_rejects_invalid_selector() {
    let c: Collector<u8> = Collector::new();
    let (c, ok) = c.try_on_html("li.next a", 1);
    assert!(ok);
    let (c, ok) = c.try_on_html("[[[", 2);
    assert!(!ok);
    assert_eq!(c.callbacks.len(), 1);
}

#[test]
fn summary_right_aligns_status_counts() {
    let mut s = Stats::new();
    s.pages_fetched = 50;
    s.items_written = 1000;
    for _ in 0..50 {
        s.record_status(200);
    }
    s.record_status(404);
    s.record_status(404);
    assert_eq!(
        s.print_summary("14.3"),
        vec![
            "scrape complete".to_string(),
            "  duration:       14.3s".to_string(),
            "  pages fetched:  50".to_string(),
            "  items written:  1000".to_string(),
            "  http status codes:".to_string(),
            "    200:  50".to_string(),
            "    404:   2".to_string(),
        ]
    );
}

#[test]
fn tally_does_not_depend_on_order() {
    let codes = [200u16, 404, 200, 503, 200, 404];
    let mut a = Stats::new();
    for c in codes {
        a.record_status(c);
    }
    let mut b = Stats::new();
    for c in codes.iter().rev() {
        b.record_status(*c);
    }
    assert_eq!(a.status_counts, b.status_counts);
    assert_eq!(a.status_count(200), 3);
}
