//! The image-backed sources that a chunk can take its instances from.
use vstd::prelude::*;

verus! {

/// A density map: the image asset whose brightness says where instances grow, and the
/// density (instances per unit along each side, in thousandths) it is dithered at.
#[derive(PartialEq, Eq, Structural, Clone, Copy, Debug)]
pub struct DensityMap {
    pub density_map: u64,
    pub density: i32,
}

impl DensityMap {
    /// A density map over the image asset `density_map`.
    pub fn new(density_map: u64, density: i32) -> (r: DensityMap)
        ensures
            r.density_map == density_map,
            r.density == density,
    {
        DensityMap { density_map, density }
    }
}

/// A density map over an image asset alone is dithered at density 1.
impl From<u64> for DensityMap {
    fn from(value: u64) -> (r: DensityMap)
        ensures
            r == (DensityMap { density_map: value, density: 1000 }),
    {
        DensityMap { density_map: value, density: 1000 }
    }
}

impl vstd::std_specs::convert::FromSpecImpl<u64> for DensityMap {
    open spec fn obeys_from_spec() -> bool {
        true
    }

    open spec fn from_spec(v: u64) -> DensityMap {
        DensityMap { density_map: v, density: 1000 }
    }
}

/// An elevation map: the image asset whose brightness gives the ground height under
/// each instance.
#[derive(PartialEq, Eq, Structural, Clone, Copy, Debug)]
pub struct HeightMap {
    pub height_map: u64,
}

impl From<u64> for HeightMap {
    fn from(value: u64) -> (r: HeightMap)
        ensures
            r == (HeightMap { height_map: value }),
    {
        HeightMap { height_map: value }
    }
}

impl vstd::std_specs::convert::FromSpecImpl<u64> for HeightMap {
    open spec fn obeys_from_spec() -> bool {
        true
    }

    open spec fn from_spec(v: u64) -> HeightMap {
        HeightMap { height_map: v }
    }
}

} // verus!
