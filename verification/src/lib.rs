//! A declarative HTTP client generator.
//!
//! An interface is described as data: a named list of operations, each with
//! its attributes and formal parameters. The generation pass turns such a
//! description into a client definition, or rejects it as a whole. A client
//! built from a definition and a base address prepares, for each call, the
//! request that a transport then sends.

pub mod text;
pub mod method;
pub mod description;
pub mod binding;
pub mod generate;
pub mod client;
pub mod response;

pub use crate::generate::http_client;
