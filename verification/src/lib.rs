//! Client-side core of a remote key-value store spoken to over HTTP.
//!
//! The store lives on a remote server behind one base URL. The four
//! operations — set, get, delete and list — each amount to one HTTP
//! exchange: a request built from the base URL and percent-encoded
//! arguments, and a uniform reading of whatever came back. This crate
//! holds that logic in verified form:
//!
//! - [`Config`] carries the base URL, either taken from a trusted
//!   source or validated to name the expected host;
//! - [`Database`] builds the [`Request`] of each operation and turns
//!   the transport's outcome ([`Exchange`], [`ListExchange`]) into the
//!   operation's result, classifying failures as an [`ErrorKind`];
//! - the [`encoding`] module states exactly what the percent encoding
//!   of an argument is, and proves that distinct arguments never
//!   collide on the wire;
//! - the [`laws`] module proves, against a model of a faithfully
//!   behaving store, how the operations relate: set then get returns
//!   the value unchanged, get and delete of an absent key report that
//!   nothing was found, and list returns the store's keys in the
//!   store's own order.
//!
//! The transport itself — sending a [`Request`] and reading the
//! response into an [`Exchange`] — is ordinary I/O and stays outside
//! this crate, blocking or non-blocking as the caller prefers.

pub mod client;
pub mod encoding;
pub mod laws;
pub mod lines;

pub use client::Config;
pub use client::Database;
pub use client::Error;
pub use client::ErrorKind;
pub use client::Exchange;
pub use client::ListExchange;
pub use client::Method;
pub use client::Request;
pub use client::NONE;
