//! Configuration, error taxonomy, and the four operations of the store.
//!
//! Each operation is one HTTP exchange. Its pure halves live here,
//! verified: building the [`Request`] from the base URL and the
//! percent-encoded arguments, and reading the transport's outcome
//! ([`Exchange`] or [`ListExchange`]) back into the operation's result.
//! The contracts equate both halves with spec-level functions
//! (`spec_set_request`, `spec_get_result`, ...), so a caller knows the
//! exact request wired and the exact result of every outcome.

use vstd::prelude::*;

verus! {

use crate::encoding::percent_encode;
use crate::encoding::percent_encoded;
use crate::lines::split_lines;
use crate::lines::split_lines_of;
use vstd::string::StrSliceExecFns;
use vstd::string::StringExecFns;

/// Shorthand for listing without a prefix.
pub const NONE: Option<&'static str> = None;

/// How an operation failed.
#[derive(Debug, Clone, Copy, PartialEq, Eq)]
pub enum ErrorKind {
    /// The HTTP exchange itself could not be completed.
    HttpError,
    /// The store answered, but holds no item of that name.
    NoItemFoundError,
    /// The response body could not be decoded as text.
    DecodeError,
}

/// What went wrong, and a message fit for display.
#[derive(Debug, Clone)]
pub struct Error {
    /// The classification of the failure.
    pub kind: ErrorKind,
    /// A human-readable description.
    pub message: String,
}

/// The mathematical content of an [`Error`].
#[verifier::ext_equal]
pub ghost struct ErrV {
    pub kind: ErrorKind,
    pub message: Seq<char>,
}

impl View for Error {
    type V = ErrV;

    open spec fn view(&self) -> ErrV {
        ErrV { kind: self.kind, message: self.message@ }
    }
}

/// The label under which each kind is displayed.
pub open spec fn kind_label(k: ErrorKind) -> Seq<char> {
    match k {
        ErrorKind::HttpError => "HttpError"@,
        ErrorKind::NoItemFoundError => "NoItemFoundError"@,
        ErrorKind::DecodeError => "DecodeError"@,
    }
}

impl Error {
    /// The error as one displayable line: the kind's label, a colon,
    /// and the message.
    pub fn to_display_string(&self) -> (r: String)
        ensures
            r@ == kind_label(self.kind) + ": "@ + self.message@,
    {
        let mut r = match self.kind {
            ErrorKind::HttpError => String::from_str("HttpError"),
            ErrorKind::NoItemFoundError => String::from_str("NoItemFoundError"),
            ErrorKind::DecodeError => String::from_str("DecodeError"),
        };
        r.append(": ");
        r.append(self.message.as_str());
        r
    }
}

/// The domain that a caller-supplied base URL must name: the marker of
/// the expected host.
pub open spec fn host_marker() -> Seq<char> {
    "kv.replit.com"@
}

/// True when `needle` occurs in `hay` as a contiguous run.
pub open spec fn contains_seq(hay: Seq<char>, needle: Seq<char>) -> bool {
    exists|k: int|
        0 <= k && k + needle.len() <= hay.len() && #[trigger] hay.subrange(k, k + needle.len())
            == needle
}

/// True when `needle@` starts at position `k` of `hay@`.
fn match_at(hay: &str, needle: &str, k: usize) -> (b: bool)
    requires
        k + needle@.len() <= hay@.len() <= usize::MAX,
    ensures
        b == (hay@.subrange(k as int, k as int + needle@.len() as int) == needle@),
{
    let m = needle.unicode_len();
    let mut j: usize = 0;
    while j < m
        invariant
            j <= m,
            m == needle@.len(),
            k + m <= hay@.len() <= usize::MAX,
            forall|y: int| 0 <= y < j ==> hay@[k + y] == needle@[y],
        decreases m - j,
    {
        if hay.get_char(k + j) != needle.get_char(j) {
            proof {
                assert(hay@.subrange(k as int, k as int + m as int)[j as int] == hay@[k + j]);
            }
            return false;
        }
        j = j + 1;
    }
    proof {
        assert(hay@.subrange(k as int, k as int + m as int) =~= needle@);
    }
    true
}

/// True when `needle@` occurs anywhere in `hay@`.
fn str_contains(hay: &str, needle: &str) -> (b: bool)
    ensures
        b == contains_seq(hay@, needle@),
{
    let h = hay.unicode_len();
    let m = needle.unicode_len();
    if m > h {
        return false;
    }
    if m == 0 {
        proof {
            assert(hay@.subrange(0, 0 + needle@.len() as int) =~= needle@);
            assert(contains_seq(hay@, needle@));
        }
        return true;
    }
    let mut k: usize = 0;
    while k <= h - m
        invariant
            0 < m <= h,
            h == hay@.len(),
            m == needle@.len(),
            k <= h - m + 1,
            forall|x: int| 0 <= x < k ==> #[trigger] hay@.subrange(x, x + m) != needle@,
        decreases h - m + 1 - k,
    {
        if match_at(hay, needle, k) {
            return true;
        }
        k = k + 1;
    }
    false
}

/// Configuration of a store: its base URL.
pub struct Config {
    url: String,
}

impl View for Config {
    type V = Seq<char>;

    closed spec fn view(&self) -> Seq<char> {
        self.url@
    }
}

impl Config {
    /// A configuration from a base URL handed down by a trusted source,
    /// such as the hosting platform's own environment: taken as it is,
    /// assumed to point at the expected host.
    pub fn from_trusted_url(url: &str) -> (c: Config)
        ensures
            c@ == url@,
    {
        Config { url: url.to_owned() }
    }

    /// A configuration from a caller-supplied base URL. A URL that does
    /// not name the expected host is a caller error, not a runtime
    /// condition: the precondition makes construction with such a URL
    /// impossible. Callers that cannot guarantee the marker go through
    /// [`Config::checked_custom_url`] instead.
    pub fn new_custom_url(url: &str) -> (c: Config)
        requires
            contains_seq(url@, host_marker()),
        ensures
            c@ == url@,
    {
        Config { url: url.to_owned() }
    }

    /// A configuration from a caller-supplied base URL, after checking
    /// it: `Some` exactly when the URL names the expected host.
    pub fn checked_custom_url(url: &str) -> (c: Option<Config>)
        ensures
            c is Some <==> contains_seq(url@, host_marker()),
            c matches Some(cfg) ==> cfg@ == url@,
    {
        if str_contains(url, "kv.replit.com") {
            Some(Config::new_custom_url(url))
        } else {
            None
        }
    }

    /// The base URL held.
    pub fn base_url(&self) -> (r: &str)
        ensures
            r@ == self@,
    {
        self.url.as_str()
    }
}

/// The HTTP method of a [`Request`].
#[derive(Debug, Clone, Copy, PartialEq, Eq)]
pub enum Method {
    Get,
    Post,
    Delete,
}

/// One HTTP request, ready for a transport to send: everything the
/// four operations ever put on the wire.
pub struct Request {
    /// The method to send with.
    pub method: Method,
    /// The full URL, query string included.
    pub url: String,
    /// The request body, for the one operation that has one.
    pub body: Option<String>,
    /// Whether the body is declared as a form:
    /// `Content-Type: application/x-www-form-urlencoded`.
    pub form_urlencoded: bool,
}

/// The mathematical content of a [`Request`].
#[verifier::ext_equal]
pub ghost struct ReqV {
    pub method: Method,
    pub url: Seq<char>,
    pub body: Option<Seq<char>>,
    pub form_urlencoded: bool,
}

impl View for Request {
    type V = ReqV;

    open spec fn view(&self) -> ReqV {
        ReqV {
            method: self.method,
            url: self.url@,
            body: match self.body {
                Some(b) => Some(b@),
                None => None,
            },
            form_urlencoded: self.form_urlencoded,
        }
    }
}

/// The view of an optional borrowed string.
pub open spec fn opt_str_view(o: Option<&str>) -> Option<Seq<char>> {
    match o {
        Some(s) => Some(s@),
        None => None,
    }
}

/// The listing prefix actually wired: the given one, or empty.
pub open spec fn prefix_or_empty(p: Option<Seq<char>>) -> Seq<char> {
    match p {
        Some(s) => s,
        None => Seq::empty(),
    }
}

/// The request that stores `value` under `key`: POST to the base URL,
/// with the encoded pair as a form body.
pub open spec fn spec_set_request(base: Seq<char>, key: Seq<char>, value: Seq<char>) -> ReqV {
    ReqV {
        method: Method::Post,
        url: base,
        body: Some(percent_encoded(key) + seq!['='] + percent_encoded(value)),
        form_urlencoded: true,
    }
}

/// The request that reads `key`: GET of the base URL extended by a
/// slash and the encoded key.
pub open spec fn spec_get_request(base: Seq<char>, key: Seq<char>) -> ReqV {
    ReqV {
        method: Method::Get,
        url: base + seq!['/'] + percent_encoded(key),
        body: None,
        form_urlencoded: false,
    }
}

/// The request that removes `key`: DELETE of the base URL extended by
/// a slash and the encoded key.
pub open spec fn spec_delete_request(base: Seq<char>, key: Seq<char>) -> ReqV {
    ReqV {
        method: Method::Delete,
        url: base + seq!['/'] + percent_encoded(key),
        body: None,
        form_urlencoded: false,
    }
}

/// The request that lists keys: GET of the base URL with the encoded
/// prefix (empty when none was given) as its `prefix` query parameter.
pub open spec fn spec_list_request(base: Seq<char>, prefix: Option<Seq<char>>) -> ReqV {
    ReqV {
        method: Method::Get,
        url: base + "?prefix="@ + percent_encoded(prefix_or_empty(prefix)),
        body: None,
        form_urlencoded: false,
    }
}

/// What a transport hands back for an exchange whose response status is
/// read before the body: either the exchange failed outright, or a
/// response arrived, with its success flag (status in the 2xx range)
/// and its body text.
pub enum Exchange {
    /// The HTTP exchange could not be completed; the transport's
    /// description of why.
    Failed { message: String },
    /// A response arrived.
    Completed { success: bool, body: String },
}

/// The mathematical content of an [`Exchange`].
#[verifier::ext_equal]
pub ghost enum ExchangeV {
    Failed { message: Seq<char> },
    Completed { success: bool, body: Seq<char> },
}

impl View for Exchange {
    type V = ExchangeV;

    open spec fn view(&self) -> ExchangeV {
        match self {
            Exchange::Failed { message } => ExchangeV::Failed { message: message@ },
            Exchange::Completed { success, body } => ExchangeV::Completed {
                success: *success,
                body: body@,
            },
        }
    }
}

/// What a transport hands back for a listing exchange, where the body
/// is read without consulting the status: the exchange failed, the body
/// would not decode as text, or the body text itself.
pub enum ListExchange {
    /// The HTTP exchange could not be completed.
    Failed { message: String },
    /// A response arrived but its body was not decodable text.
    Undecodable { message: String },
    /// The response body, as text.
    Body { text: String },
}

/// The mathematical content of a [`ListExchange`].
#[verifier::ext_equal]
pub ghost enum ListExchangeV {
    Failed { message: Seq<char> },
    Undecodable { message: Seq<char> },
    Body { text: Seq<char> },
}

impl View for ListExchange {
    type V = ListExchangeV;

    open spec fn view(&self) -> ListExchangeV {
        match self {
            ListExchange::Failed { message } => ListExchangeV::Failed { message: message@ },
            ListExchange::Undecodable { message } => ListExchangeV::Undecodable {
                message: message@,
            },
            ListExchange::Body { text } => ListExchangeV::Body { text: text@ },
        }
    }
}

/// The message reported when a get finds nothing.
pub open spec fn get_missing_message() -> Seq<char> {
    "No items were found on the database."@
}

/// The message reported when a delete finds nothing.
pub open spec fn delete_missing_message() -> Seq<char> {
    "No item with that name were found."@
}

/// The result of a set for each outcome: a transport failure is an
/// `HttpError`; any response at all, whatever its status, is success.
pub open spec fn spec_set_result(ex: ExchangeV) -> Result<(), ErrV> {
    match ex {
        ExchangeV::Failed { message } => Err(ErrV { kind: ErrorKind::HttpError, message }),
        ExchangeV::Completed { .. } => Ok(()),
    }
}

/// The result of a get for each outcome: a transport failure is an
/// `HttpError`; a non-success status is `NoItemFoundError` with its
/// fixed message; a success is the body text.
pub open spec fn spec_get_result(ex: ExchangeV) -> Result<Seq<char>, ErrV> {
    match ex {
        ExchangeV::Failed { message } => Err(ErrV { kind: ErrorKind::HttpError, message }),
        ExchangeV::Completed { success, body } => if success {
            Ok(body)
        } else {
            Err(ErrV { kind: ErrorKind::NoItemFoundError, message: get_missing_message() })
        },
    }
}

/// The result of a delete for each outcome: as a get, but success
/// carries no payload and the missing-item message differs.
pub open spec fn spec_delete_result(ex: ExchangeV) -> Result<(), ErrV> {
    match ex {
        ExchangeV::Failed { message } => Err(ErrV { kind: ErrorKind::HttpError, message }),
        ExchangeV::Completed { success, .. } => if success {
            Ok(())
        } else {
            Err(ErrV { kind: ErrorKind::NoItemFoundError, message: delete_missing_message() })
        },
    }
}

/// The result of a list for each outcome: a transport failure is an
/// `HttpError`, an undecodable body a `DecodeError`, and a body is
/// split into lines — the status is never consulted.
pub open spec fn spec_list_result(ex: ListExchangeV) -> Result<Seq<Seq<char>>, ErrV> {
    match ex {
        ListExchangeV::Failed { message } => Err(ErrV { kind: ErrorKind::HttpError, message }),
        ListExchangeV::Undecodable { message } => Err(
            ErrV { kind: ErrorKind::DecodeError, message },
        ),
        ListExchangeV::Body { text } => Ok(split_lines_of(text)),
    }
}

/// The view of a unit-valued operation result.
pub open spec fn unit_result_view(r: Result<(), Error>) -> Result<(), ErrV> {
    match r {
        Ok(_) => Ok(()),
        Err(e) => Err(e@),
    }
}

/// The view of a text-valued operation result.
pub open spec fn text_result_view(r: Result<String, Error>) -> Result<Seq<char>, ErrV> {
    match r {
        Ok(s) => Ok(s@),
        Err(e) => Err(e@),
    }
}

/// The view of a listing-valued operation result.
pub open spec fn list_result_view(r: Result<Vec<String>, Error>) -> Result<Seq<Seq<char>>, ErrV> {
    match r {
        Ok(v) => Ok(v.deep_view()),
        Err(e) => Err(e@),
    }
}

/// A handle on the store: a [`Config`], and the four operations'
/// request builders and response readers.
pub struct Database {
    config: Config,
}

impl View for Database {
    type V = Seq<char>;

    closed spec fn view(&self) -> Seq<char> {
        self.config@
    }
}

impl Database {
    /// A database handle over the given configuration.
    pub fn new(config: Config) -> (db: Database)
        ensures
            db@ == config@,
    {
        Database { config }
    }

    /// The request that stores `value` under `key`.
    pub fn set_request(&self, key: &str, value: &str) -> (r: Request)
        ensures
            r@ == spec_set_request(self@, key@, value@),
    {
        let mut body = percent_encode(key);
        body.append("=");
        let encoded_value = percent_encode(value);
        body.append(encoded_value.as_str());
        let r = Request {
            method: Method::Post,
            url: self.config.url.clone(),
            body: Some(body),
            form_urlencoded: true,
        };
        proof {
            reveal_strlit("=");
            assert("="@ =~= seq!['=']);
            assert(r@ =~~= spec_set_request(self@, key@, value@));
        }
        r
    }

    /// The request that reads `key`.
    pub fn get_request(&self, key: &str) -> (r: Request)
        ensures
            r@ == spec_get_request(self@, key@),
    {
        let encoded_key = percent_encode(key);
        let url = self.config.url.clone().concat("/").concat(encoded_key.as_str());
        let r = Request { method: Method::Get, url, body: None, form_urlencoded: false };
        proof {
            reveal_strlit("/");
            assert("/"@ =~= seq!['/']);
            assert(r@ =~~= spec_get_request(self@, key@));
        }
        r
    }

    /// The request that removes `key`.
    pub fn delete_request(&self, key: &str) -> (r: Request)
        ensures
            r@ == spec_delete_request(self@, key@),
    {
        let encoded_key = percent_encode(key);
        let url = self.config.url.clone().concat("/").concat(encoded_key.as_str());
        let r = Request { method: Method::Delete, url, body: None, form_urlencoded: false };
        proof {
            reveal_strlit("/");
            assert("/"@ =~= seq!['/']);
            assert(r@ =~~= spec_delete_request(self@, key@));
        }
        r
    }

    /// The request that lists the keys under `prefix`, or all keys when
    /// no prefix is given.
    pub fn list_request(&self, prefix: Option<&str>) -> (r: Request)
        ensures
            r@ == spec_list_request(self@, opt_str_view(prefix)),
    {
        let p: &str = match prefix {
            Some(s) => s,
            None => "",
        };
        let encoded_prefix = percent_encode(p);
        let url = self.config.url.clone().concat("?prefix=").concat(encoded_prefix.as_str());
        let r = Request { method: Method::Get, url, body: None, form_urlencoded: false };
        proof {
            reveal_strlit("");
            assert(p@ =~= prefix_or_empty(opt_str_view(prefix)));
            assert(r@ =~~= spec_list_request(self@, opt_str_view(prefix)));
        }
        r
    }

    /// The result of a set whose transport reported `ex`.
    pub fn set_response(ex: Exchange) -> (r: Result<(), Error>)
        ensures
            unit_result_view(r) == spec_set_result(ex@),
    {
        match ex {
            Exchange::Failed { message } => Err(Error { kind: ErrorKind::HttpError, message }),
            Exchange::Completed { .. } => Ok(()),
        }
    }

    /// The result of a get whose transport reported `ex`.
    pub fn get_response(ex: Exchange) -> (r: Result<String, Error>)
        ensures
            text_result_view(r) == spec_get_result(ex@),
    {
        match ex {
            Exchange::Failed { message } => Err(Error { kind: ErrorKind::HttpError, message }),
            Exchange::Completed { success, body } => {
                if success {
                    Ok(body)
                } else {
                    let e = Error {
                        kind: ErrorKind::NoItemFoundError,
                        message: String::from_str("No items were found on the database."),
                    };
                    proof {
                        assert(e@ =~= ErrV {
                            kind: ErrorKind::NoItemFoundError,
                            message: get_missing_message(),
                        });
                    }
                    Err(e)
                }
            },
        }
    }

    /// The result of a delete whose transport reported `ex`.
    pub fn delete_response(ex: Exchange) -> (r: Result<(), Error>)
        ensures
            unit_result_view(r) == spec_delete_result(ex@),
    {
        match ex {
            Exchange::Failed { message } => Err(Error { kind: ErrorKind::HttpError, message }),
            Exchange::Completed { success, .. } => {
                if success {
                    Ok(())
                } else {
                    let e = Error {
                        kind: ErrorKind::NoItemFoundError,
                        message: String::from_str("No item with that name were found."),
                    };
                    proof {
                        assert(e@ =~= ErrV {
                            kind: ErrorKind::NoItemFoundError,
                            message: delete_missing_message(),
                        });
                    }
                    Err(e)
                }
            },
        }
    }

    /// The result of a list whose transport reported `ex`.
    pub fn list_response(ex: ListExchange) -> (r: Result<Vec<String>, Error>)
        ensures
            list_result_view(r) == spec_list_result(ex@),
    {
        match ex {
            ListExchange::Failed { message } => Err(Error { kind: ErrorKind::HttpError, message }),
            ListExchange::Undecodable { message } => Err(
                Error { kind: ErrorKind::DecodeError, message },
            ),
            ListExchange::Body { text } => Ok(split_lines(text.as_str())),
        }
    }
}

} // verus!
