//! Korea Investment & Securities (KIS) venue: the request shapes, answer
//! classification and response parsing. The HTTP and WebSocket transport is
//! the application's.

pub mod auth;
pub mod chart;
pub mod rest;
pub mod screener;
pub mod ws;
