//! Resolution of the external and embedded resources a parsed scene
//! document references, into concrete byte buffers and decoded images.
//!
//! The pipeline classifies each reference, plans what is already in hand
//! and what must be fetched, hands the pending paths to an external batch
//! loader, validates and pads buffer bytes, decodes image bytes, and
//! assembles a single immutable model — or reports the first failure in
//! document order.

pub mod buffers;
pub mod codec;
pub mod document;
pub mod error;
pub mod fetch;
pub mod images;
pub mod import;
pub mod scheme;
pub mod text;
