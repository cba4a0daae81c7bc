//! A client of a cookie-authenticated cloud note service, as a library of
//! decisions: everything that is computed, and nothing that is sent.
//!
//! The heart is the life of the session credential. `codec` merges and
//! normalises cookie strings, `sts` is the three-request handshake that
//! exchanges the account cookie for a session cookie, `store` holds the
//! account credential with the session cookie that is current, and
//! `executor` decides what to do after each attempt to send a request.
//! Round them stand the requests of the service and the meaning of its
//! answers (`api`, `models`), the search through the notes (`search`), and
//! the decisions of the desktop shell (`capture`, `config`, `launcher`).
//!
//! The library sends nothing, waits for nothing and reads no clock. Its
//! caller performs what the library decides and reports what happened.

pub mod api;
pub mod auth;
pub mod capture;
pub mod codec;
pub mod config;
pub mod error;
pub mod executor;
pub mod jar;
pub mod json;
pub mod launcher;
pub mod models;
pub mod pairs;
pub mod roundtrip;
pub mod search;
pub mod store;
pub mod sts;
pub mod text;
