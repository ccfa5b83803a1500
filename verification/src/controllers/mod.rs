//! The decisions of the request handlers, free of transport and storage.
pub mod api;
