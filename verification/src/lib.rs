//! A declarative HTTP client core.
//!
//! An annotated function or method declaration — an HTTP verb, a URL
//! expression with optional `path` suffix, `key = value` configuration
//! entries, and a parameter list in which every parameter carries a wire
//! role — is turned into a fully resolved request plan: the final URL,
//! the header, path, query and config collections, the chosen body-send
//! variant and the chosen response-decode variant.  All of that is plain
//! data in, plain data out; the network transport and the body codecs sit
//! behind the plan and are not part of this crate's verified core.

pub mod args;
pub mod error;
pub mod group;
pub mod http;
pub mod lexicon;
pub mod maps;
pub mod meta;
pub mod plan;
pub mod strutil;
pub mod util;
