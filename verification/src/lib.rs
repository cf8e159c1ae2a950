//! Device Bound Session Credentials: the server side of the handshake.
//!
//! A session is bound to a key that stays on the device. The server invites a registration
//! ([`start`]), opens a session when the challenge that it offered comes back in a proof
//! ([`register`]), and renews the short-lived cookie of the session when the device proves again
//! that it holds the key ([`refresh`]). [`access`] tells whether the cookie came along with a
//! request, and [`logout`] ends the session. [`answers`] states what every request is owed, and
//! [`handshake`] and [`identifiers`] what holds over several requests.

pub mod access;
pub mod answers;
pub mod base64url;
pub mod clock;
pub mod config;
pub mod cookies;
pub mod es256;
pub mod handshake;
pub mod headers;
pub mod identifiers;
pub mod json;
pub mod jwt;
pub mod log;
pub mod logout;
pub mod page;
pub mod refresh;
pub mod register;
pub mod reply;
pub mod session;
pub mod start;
pub mod state;
pub mod store;
pub mod text;
