//! A minimal single-connection HTTP request handler: request parsing,
//! session resolution, method routing and response serialization, with
//! the socket work left to the caller.

pub mod connection;
pub mod json;
pub mod parser;
pub mod request;
pub mod router;
pub mod response;
pub mod scan;
pub mod search;
pub mod session;
pub mod text;
pub mod wire;
