use replit_db::{Config, Database, ErrorKind, Exchange, ListExchange, Method, NONE};

fn db_at(base: &str) -> Database {
    Database::new(Config::from_trusted_url(base))
}

#[test]
fn set_request_wires_post_with_form_body() {
    let db = db_at("http://example.test/db");
    let r = db.set_request("Hello", "World");
    assert_eq!(r.method, Method::Post);
    assert_eq!(r.url, "http://example.test/db");
    assert_eq!(r.body.as_deref(), Some("Hello=World"));
    assert!(r.form_urlencoded);
}

#[test]
fn get_request_appends_encoded_key() {
    let db = db_at("http://example.test/db");
    let r = db.get_request("Hello");
    assert_eq!(r.method, Method::Get);
    assert_eq!(r.url, "http://example.test/db/Hello");
    assert!(r.body.is_none());
    assert!(!r.form_urlencoded);
}

#[test]
fn get_response_success_returns_body() {
    let r = Database::get_response(Exchange::Completed {
        success: true,
        body: "World".to_string(),
    });
    assert_eq!(r.unwrap(), "World");
}

#[test]
fn get_response_non_success_is_not_found() {
    let r = Database::get_response(Exchange::Completed {
        success: false,
        body: String::new(),
    });
    let e = r.unwrap_err();
    assert_eq!(e.kind, ErrorKind::NoItemFoundError);
    assert_eq!(e.message, "No items were found on the database.");
}

#[test]
fn get_response_transport_failure_is_http_error() {
    let r = Database::get_response(Exchange::Failed {
        message: "connection refused".to_string(),
    });
    let e = r.unwrap_err();
    assert_eq!(e.kind, ErrorKind::HttpError);
    assert_eq!(e.message, "connection refused");
}

#[test]
fn delete_request_uses_delete_method() {
    let db = db_at("http://example.test/db");
    let r = db.delete_request("Hello");
    assert_eq!(r.method, Method::Delete);
    assert_eq!(r.url, "http://example.test/db/Hello");
    assert!(r.body.is_none());
}

#[test]
fn delete_response_non_success_is_not_found() {
    let r = Database::delete_response(Exchange::Completed {
        success: false,
        body: String::new(),
    });
    let e = r.unwrap_err();
    assert_eq!(e.kind, ErrorKind::NoItemFoundError);
    assert_eq!(e.message, "No item with that name were found.");
}

#[test]
fn delete_response_success_is_ok() {
    let r = Database::delete_response(Exchange::Completed {
        success: true,
        body: String::new(),
    });
    assert!(r.is_ok());
}

#[test]
fn set_response_transport_failure_is_http_error() {
    let r = Database::set_response(Exchange::Failed {
        message: "timed out".to_string(),
    });
    let e = r.unwrap_err();
    assert_eq!(e.kind, ErrorKind::HttpError);
    assert_eq!(e.message, "timed out");
}

#[test]
fn set_response_ignores_status() {
    // A set succeeds once any response arrived, even a non-2xx one.
    let r = Database::set_response(Exchange::Completed {
        success: false,
        body: String::new(),
    });
    assert!(r.is_ok());
}

#[test]
fn list_request_with_prefix() {
    let db = db_at("http://example.test/db");
    let r = db.list_request(Some("H"));
    assert_eq!(r.method, Method::Get);
    assert_eq!(r.url, "http://example.test/db?prefix=H");
    assert!(r.body.is_none());
}

#[test]
fn list_request_without_prefix_equals_empty_prefix() {
    let db = db_at("http://example.test/db");
    let none = db.list_request(NONE);
    let empty = db.list_request(Some(""));
    assert_eq!(none.url, empty.url);
    assert_eq!(none.url, "http://example.test/db?prefix=");
    assert_eq!(none.method, empty.method);
}

#[test]
fn list_response_splits_lines() {
    let r = Database::list_response(ListExchange::Body {
        text: "Hello\nHi".to_string(),
    });
    assert_eq!(r.unwrap(), vec!["Hello".to_string(), "Hi".to_string()]);
}

#[test]
fn list_response_empty_body_is_empty_listing() {
    let r = Database::list_response(ListExchange::Body { text: String::new() });
    assert_eq!(r.unwrap(), Vec::<String>::new());
}

#[test]
fn list_response_trailing_newline_adds_no_empty_line() {
    let r = Database::list_response(ListExchange::Body {
        text: "a\nb\n".to_string(),
    });
    assert_eq!(r.unwrap(), vec!["a".to_string(), "b".to_string()]);
}

#[test]
fn list_response_reads_crlf_endings() {
    let r = Database::list_response(ListExchange::Body {
        text: "a\r\nb".to_string(),
    });
    assert_eq!(r.unwrap(), vec!["a".to_string(), "b".to_string()]);
}

#[test]
fn list_response_keeps_inner_empty_lines() {
    let r = Database::list_response(ListExchange::Body {
        text: "\nx".to_string(),
    });
    assert_eq!(r.unwrap(), vec![String::new(), "x".to_string()]);
}

#[test]
fn list_response_undecodable_is_decode_error() {
    let r = Database::list_response(ListExchange::Undecodable {
        message: "invalid utf-8".to_string(),
    });
    let e = r.unwrap_err();
    assert_eq!(e.kind, ErrorKind::DecodeError);
    assert_eq!(e.message, "invalid utf-8");
}

#[test]
fn list_response_transport_failure_is_http_error() {
    let r = Database::list_response(ListExchange::Failed {
        message: "no route to host".to_string(),
    });
    assert_eq!(r.unwrap_err().kind, ErrorKind::HttpError);
}

#[test]
fn error_display_string_names_kind_and_message() {
    let e = Database::get_response(Exchange::Completed {
        success: false,
        body: String::new(),
    })
    .unwrap_err();
    assert_eq!(
        e.to_display_string(),
        "NoItemFoundError: No items were found on the database."
    );
}

#[test]
fn checked_custom_url_rejects_missing_host_marker() {
    assert!(Config::checked_custom_url("http://example.test/db").is_none());
    assert!(Config::checked_custom_url("").is_none());
}

#[test]
fn checked_custom_url_accepts_host_marker() {
    let c = Config::checked_custom_url("https://kv.replit.com/v0/abc").unwrap();
    assert_eq!(c.base_url(), "https://kv.replit.com/v0/abc");
}

#[test]
fn new_custom_url_keeps_the_url() {
    let c = Config::new_custom_url("https://kv.replit.com/v0/abc");
    assert_eq!(c.base_url(), "https://kv.replit.com/v0/abc");
}

#[test]
fn trusted_url_is_taken_as_is() {
    let c = Config::from_trusted_url("http://example.test/db");
    assert_eq!(c.base_url(), "http://example.test/db");
}
