//! Protocol engine of a gateway between Postfix's lookup and policy
//! protocols and a REST backend.
//!
//! The engine does no I/O. Its caller owns the sockets and the HTTP
//! client; the engine says what each request asks of the backend and what
//! goes back to the peer:
//!
//! - [`percent`], [`netstring`] and [`text`] are the codecs;
//! - [`tcp_lookup`], [`socketmap`] and [`policy`] are the three protocols:
//!   their request grammars and their responses;
//! - [`backend`] reduces an HTTP answer to the outcome of a lookup;
//! - [`plan`] turns a request into the HTTP call that answers it;
//! - [`connection`] is the state machine of one connection;
//! - [`config`] describes the endpoints.

pub mod backend;
pub mod config;
pub mod connection;
pub mod netstring;
pub mod percent;
pub mod plan;
pub mod policy;
pub mod socketmap;
pub mod tcp_lookup;
pub mod text;
