//! Structural metadata scanner for WebAssembly binaries.
//!
//! A scan walks the top-level framing of a module or component and reports
//! its header, imports and exports as a flat list of records, rendered as a
//! JSON array for a browser-side consumer.

pub mod events;
pub mod frames;
pub mod json;
pub mod kinds;
pub mod laws;
pub mod limits;
pub mod parser;
pub mod parts;
pub mod records;
