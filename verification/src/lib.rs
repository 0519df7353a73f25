//! A minimal verified Matrix-style client core for exercising a homeserver
//! during development: session authentication, room membership tracking, and
//! incremental long-poll synchronization with an opaque cursor.
//!
//! The library itself never performs I/O. Every operation is split into a
//! *request builder* (a pure function producing an [`http::HttpRequest`]) and
//! a *response decider* (a pure function from the status code and body text to
//! a typed outcome). A thin driver owns the actual transport, hands each
//! response back, and loops.

pub mod commands;
pub mod errors;
pub mod http;
pub mod jsontext;
pub mod jsonval;
pub mod register;
pub mod rooms;
pub mod session;
pub mod sync;
pub mod textutil;
pub mod urlcheck;
