//! The blog's rows and statements.
use vstd::prelude::*;

pub mod articles;
pub mod categories;

verus! {

/// A blog category as the store records it.
#[derive(Debug, Clone, PartialEq)]
pub struct Category {
    pub id: i16,
    pub name: String,
    pub description: Option<String>,
    pub is_visible: Option<bool>,
    pub is_seo: Option<bool>,
}

} // verus!
