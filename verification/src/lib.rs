//! Extraction engine for a "trending" HTML listing page: locates repository
//! and developer record containers in a parsed document and turns their text
//! fragments into typed records.

pub mod dom;
pub mod extract;
pub mod html;
pub mod laws;
pub mod text;
