//! A URL-shortening and redirection service's core: the table of
//! short-URL mappings with its management operations, the validation of
//! create requests, the normalization and confinement of request paths
//! for static serving, the fallback dispatcher's precedence between
//! static files and stored redirects, and the schema-migration plan.
//!
//! Everything here is pure decision logic over plain values; the HTTP
//! transport, the file system and the persistence engine stay outside and
//! hand their findings in as arguments.

pub mod api;
pub mod assets;
pub mod dispatch;
pub mod links;
pub mod migrate;
pub mod store;
pub mod text;
pub mod validate;
