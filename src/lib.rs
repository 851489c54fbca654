//! A minimal HTTP/1.1 server core: a request parser over raw bytes, a
//! fixed router that decides what to answer (and which file operation to
//! perform), and a byte-exact response serializer.
pub mod bytes;
pub mod http;
pub mod literals;
pub mod parser;
pub mod router;
