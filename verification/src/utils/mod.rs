//! Building blocks shared by every entity: text handling, the tri-state patch
//! value with its field map, and the derivative pipeline.
pub mod html;
pub mod image;
pub mod patch;
pub mod text;
