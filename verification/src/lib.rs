//! A sequential binary channel for exchanging scalars and arrays of mixed
//! primitive widths through one fixed-capacity byte buffer.
//!
//! A [`writer::Writer`] encodes values little-endian at width-aligned offsets,
//! advancing a single cursor; a [`reader::Reader`] decodes them back by
//! issuing the mirror sequence of operations over the same bytes. The format
//! carries no type tags: both sides must agree on the operation sequence out
//! of band.

pub mod align;
pub mod channel;
pub mod interop;
pub mod laws;
pub mod model;
pub mod reader;
pub mod wire;
pub mod writer;
