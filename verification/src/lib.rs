//! A gateway between HTTP and a FastCGI backend: the translation of an inbound
//! request into FastCGI parameters, the reading of the backend's answer into
//! status, headers and body, and the decisions of the worker's supervisor.
//!
//! Everything here works on plain values and on the types of the `http` and
//! `fastcgi_client` crates; sockets, processes and signals are the caller's.
//!
//! - `request`: from method and headers to the parameters of the backend;
//!   `request_laws`: what holds of them.
//! - `response`: from the backend's bytes to status, headers and body;
//!   `response_laws` and `round_trip`: what holds of them.
//! - `gateway` and `transport`: what the client is answered, and how a
//!   failed exchange is named.
//! - `supervisor` and `config`: how the backend is started and taken down.
//! - `headers` and `params`: the outside types, with the contracts that are
//!   taken on trust.
//! - `search` and `ascii`: byte patterns, digits and numerals.

pub mod ascii;
pub mod config;
pub mod error;
pub mod gateway;
pub mod headers;
pub mod params;
pub mod request;
pub mod request_laws;
pub mod response;
pub mod response_laws;
pub mod round_trip;
pub mod search;
pub mod supervisor;
pub mod transport;
