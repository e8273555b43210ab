use replit_db::{Config, Database};

fn db_at(base: &str) -> Database {
    Database::new(Config::from_trusted_url(base))
}

#[test]
fn reserved_characters_are_escaped() {
    let db = db_at("http://example.test/db");
    let r = db.set_request("a b&c=d/", "v");
    assert_eq!(r.body.as_deref(), Some("a%20b%26c%3Dd%2F=v"));
}

#[test]
fn unreserved_characters_pass_unchanged() {
    let db = db_at("http://example.test/db");
    let r = db.get_request("AZaz09-._~");
    assert_eq!(r.url, "http://example.test/db/AZaz09-._~");
}

#[test]
fn unicode_is_escaped_bytewise() {
    let db = db_at("http://example.test/db");
    let r = db.get_request("é");
    assert_eq!(r.url, "http://example.test/db/%C3%A9");
}

#[test]
fn prefix_is_escaped_in_the_query() {
    let db = db_at("http://example.test/db");
    let r = db.list_request(Some("a b"));
    assert_eq!(r.url, "http://example.test/db?prefix=a%20b");
}

#[test]
fn set_body_decodes_back_to_the_pair() {
    // The far end splits the form body at `=` and percent-decodes both
    // halves; that reproduces the key and the value exactly.
    let db = db_at("http://example.test/db");
    let key = "Grüße & co = 100%/day";
    let value = "Wert älter\tmit = und &";
    let body = db.set_request(key, value).body.unwrap();
    let eq = body.find('=').unwrap();
    let decoded_key = urlencoding::decode(&body[..eq]).unwrap();
    let decoded_value = urlencoding::decode(&body[eq + 1..]).unwrap();
    assert_eq!(decoded_key, key);
    assert_eq!(decoded_value, value);
}
