//! Batch indexing of product records into a positional term index and a
//! sorted store of the field values as written, together with the access
//! check of the HTTP boundary.

pub mod acl;
pub mod error;
pub mod normalize;
pub mod common_words;
pub mod bytes;
pub mod posting;
pub mod request;
pub mod field_key;
pub mod entries;
pub mod field_buffer;
pub mod value_store;
pub mod run;
pub mod record;
pub mod corpus;
pub mod json_lines;
pub mod laws;
