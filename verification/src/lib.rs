//! A small HTTP reverse proxy for local development.
//!
//! The library holds the proxy's verified core: the route DSL parser, the
//! route table with its last-declared-wins resolution, the request
//! transformations a proxy must perform (hop-by-hop header stripping,
//! forwarded-for chaining, host and path rewriting), and the configuration
//! model. Listening, TLS termination and the HTTP wire engine live outside
//! the library and consume these functions.

pub mod cli;
pub mod error;
pub mod headers;
pub mod map;
pub mod parse;
pub mod proxy;
pub mod server;
pub mod settings;
pub mod text;

