//! Extraction of Sysmon event records from search-index documents.
//!
//! A document's free-text message is decomposed into key/value pairs, the
//! pairs are mapped onto the columns of an event schema, and the resulting
//! records are encoded as tab-delimited text.

pub mod decompose;
pub mod encode;
pub mod error;
pub mod pipeline;
pub mod read;
pub mod record;
pub mod registry;
pub mod request;
pub mod schema;
pub mod source;
pub mod store;
pub mod text;
