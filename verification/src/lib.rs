pub mod array;
pub mod atom;
pub mod base;
pub mod bindings;
pub mod components;
pub mod conversions;
pub mod errors;
pub mod expansion;
pub mod float;
pub mod graph;
pub mod index;
pub mod inference;
pub mod laws;
pub mod messages;
pub mod privacy;
pub mod proto;
pub mod report;
pub mod runtime;
pub mod utilities;
