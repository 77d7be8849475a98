//! Scans a collection of geotagged records for those satisfying a
//! conjunction of filter criteria — attribute equality, attribute pattern
//! matches, geographic proximity — with exact match and visit counts and a
//! capped display.

pub mod cli;
pub mod element;
pub mod engines;
pub mod floatlit;
pub mod matcher;
pub mod numfmt;
pub mod render;
pub mod scan;
pub mod text;
