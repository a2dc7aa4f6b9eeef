//! A codec and in-memory data model for the JSON netlist interchange format
//! emitted by logic-synthesis tools.
//!
//! A netlist document is a JSON object holding named modules; each module
//! holds ports, cells, memories and named nets, all referencing signal bits.
//! The codec decodes such a document from a generic JSON tree ([`json::Json`])
//! into typed entities and re-encodes them, preserving the order of every
//! named mapping and carrying unrecognized fields through verbatim.

pub mod decode;
pub mod encode;
pub mod error;
pub mod json;
pub mod laws;
pub mod model;
pub mod wire;
