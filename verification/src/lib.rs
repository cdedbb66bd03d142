//! Verified core of a PipeWire volume control: the bookkeeping of PipeWire
//! objects, the decoding and encoding of mixer volume state, list models that
//! filter routes and hold nodes, and the decisions the user interface takes.
pub mod text;
pub mod mixer;
pub mod properties;
pub mod state;
pub mod ordset;
pub mod vector;
pub mod routes;
pub mod lists;
pub mod props;
pub mod meter;
pub mod device;
pub mod ui;
pub mod metadata;
pub mod format;
