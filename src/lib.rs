//! Airport records of a fixed-width aviation data format, and the combinatorial
//! core of an ant colony search for a short closed tour over them: a symmetric
//! pairwise relation stored as a flattened triangle, one ant's walk through the
//! nodes, weighted choice over integer weights, and the elitist selection of tours.

pub mod ant;
pub mod colony;
pub mod field;
pub mod file;
pub mod graph;
pub mod record;
pub mod section_code;
pub mod types;
pub mod util;
pub mod weighted;
