//! Topology resolution for a small molecular-dynamics engine: molecule
//! templates, their replication into a flat atom arena, and the registry of
//! bonded interactions with global atom indices.
use vstd::prelude::*;

pub mod ffield;
pub mod linalg;
pub mod reader;
pub mod text;
pub mod topology;
pub mod trajectory;

verus! {

/// Number of spatial dimensions.
pub const DIM: usize = 3;

} // verus!
