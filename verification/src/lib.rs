//! A small HTTP/1.x server core: reading a request, routing it through the
//! callbacks of an application, and writing the response out.
//!
//! The route table ([`server`]) holds the entries of an application. For
//! each connection, the raw text of the request ([`reader`]) becomes a
//! context ([`context`], [`request`], [`response`]), whose request line,
//! headers and query string are read by [`parse`]. The dispatch
//! ([`handler`]) says which callback or tail runs next, matching paths
//! against patterns with [`matcher`], and [`payload`] renders the response.
//! Key/value lists are kept in [`pairs`]; [`text`] holds the operations on
//! characters that the rest is built from.
//!
//! The library does no input or output and runs no callback itself: the
//! program around it does, as the dispatch tells it to.

pub mod context;
pub mod cpus;
pub mod handler;
pub mod matcher;
pub mod pairs;
pub mod parse;
pub mod payload;
pub mod reader;
pub mod request;
pub mod response;
pub mod server;
pub mod status;
pub mod text;
pub mod version;

pub use context::Context;
pub use request::Request;
pub use response::Response;
pub use server::Server;
