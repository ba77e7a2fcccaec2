//! Maintenance logic for a lint registry: lint records, the text rendered
//! from them, and the replacement of marked regions in text.

pub mod gather;
pub mod lint;
pub mod order;
pub mod plan;
pub mod region;
pub mod render;
pub mod text;
