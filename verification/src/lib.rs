//! Batch receipt generation: a record extractor for the fixed-schema
//! delimited input, and a layout engine that places eight receipts per
//! page as a sequence of drawing commands for an opaque rendering
//! surface.

pub mod extract;
pub mod layout;
