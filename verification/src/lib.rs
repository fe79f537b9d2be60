//! The core of a small HTTP/1.1 server: framing requests off a byte stream,
//! routing them, encoding responses, and keeping a connection alive from one
//! request to the next. Sockets, files and threads are the caller's.

pub mod config;
pub mod connection;
pub mod frame;
pub mod gzip;
pub mod headers;
pub mod number;
pub mod request;
pub mod response;
pub mod router;
pub mod store;
pub mod text;
