//! Maps of the world of a narrative: regions found by coordinates.
use vstd::prelude::*;

verus! {

/// A map: its regions, and the region at a coordinate.
pub trait MapTy {
    type RegionType;

    type CoordinateType;

    fn get_regions(&self) -> &[Self::RegionType];

    fn get_region_at(&self, coord: Self::CoordinateType) -> Option<&Self::RegionType>;
}

/// A point of a flat map.
#[derive(Clone, Copy, Debug, PartialEq, Eq, Structural)]
pub struct CoordinateCartesian2D {
    x: u32,
    y: u32,
}

impl CoordinateCartesian2D {
    pub closed spec fn spec_x(self) -> u32 {
        self.x
    }

    pub closed spec fn spec_y(self) -> u32 {
        self.y
    }

    pub fn new(x: u32, y: u32) -> (r: Self)
        ensures
            r.spec_x() == x,
            r.spec_y() == y,
    {
        CoordinateCartesian2D { x, y }
    }

    pub fn get_x(&self) -> (r: u32)
        ensures
            r == self.spec_x(),
    {
        self.x
    }

    pub fn get_y(&self) -> (r: u32)
        ensures
            r == self.spec_y(),
    {
        self.y
    }
}

/// A path on a flat map.
pub struct Path2D {
    pub path: Vec<CoordinateCartesian2D>,
}

/// A named region of a flat map, bounded by a path.
pub struct ProceduralRegion2D {
    pub name: String,
    pub boundary: Path2D,
}

/// A flat map made procedurally, of a given size.
pub struct MapProcedural2D {
    pub height: u32,
    pub width: u32,
}

} // verus!
