//! Read-only export of files held in a pool-scoped object store: path
//! resolution against a dataset catalog, single byte-range parsing, chunked
//! assembly of object bytes and the response that serves them.

pub mod backend;
pub mod cli;
pub mod export;
pub mod fault;
pub mod hex;
pub mod limits;
pub mod query;
pub mod range;
pub mod reader;
pub mod resolve;
pub mod text;
