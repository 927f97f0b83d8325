//! Embedded static assets with verified HTTP conditional-caching semantics.
//!
//! The heart of the crate is [`resolve`](conditional::resolve): given an
//! embedded file record and the client's conditional-request headers, it
//! decides between a full `200 OK` response and a `304 Not Modified`
//! signal, and builds the caching headers (`ETag`, `Last-Modified`,
//! `Cache-Control`, `Vary`) for either outcome.

pub mod asset;
pub mod conditional;
pub mod file;
pub mod http_date;

pub use asset::Asset;
pub use conditional::{
    ConditionalRequest, IfNoneMatchValue, ResolvedResponse, ResponseHeaders, ResponseStatus,
    resolve, respond,
};
pub use file::{EmbeddedFile, EmbeddedFileMetadata, FileInfo};
pub use http_date::{HTTP_DATE_LIMIT, format_http_date};
