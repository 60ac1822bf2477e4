//! Converter core for a cadastral XML exchange dialect: resolves
//! point/curve/surface reference graphs into polygons, reprojects them
//! into a single global system, assembles parcel records, and drives a
//! columnar binary writer.
pub mod crs;
pub mod error;
pub mod geom;
pub mod numbits;
pub mod outline;
pub mod parse;
pub mod pipeline;
pub mod reader;
pub mod text;
pub mod writer;
pub mod xml;
