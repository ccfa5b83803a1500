//! Partial-update field diffing and the content-and-asset lifecycle of a small
//! content-management backend, with every decision stated as a contract.
pub mod controllers;
pub mod services;
pub mod utils;
