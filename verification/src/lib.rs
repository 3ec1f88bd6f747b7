//! Building OpenAPI (v2) operation documents from descriptions of the
//! extractors and responders of actix-web handlers.
pub mod models;
pub mod strmap;
pub mod text;
pub mod actix;
pub mod laws;
