use vstd::prelude::*;

verus! {

/// A region's position on the world's region grid.
pub type RegionId = (i32, i32);

/// A region of the simulated world.
#[derive(Debug)]
pub struct Region {
    id: RegionId,
}

impl Region {
    /// The region at `id`.
    pub fn new(id: RegionId) -> (r: Region)
        ensures
            r@ == id,
    {
        Region { id }
    }
}

impl View for Region {
    type V = RegionId;

    /// Where the region lies.
    closed spec fn view(&self) -> RegionId {
        self.id
    }
}

/// The blocks that rasterising `region` yields: none, as a region holds no
/// terrain layers yet.
pub fn rasterize(region: &Region) -> (r: Vec<u64>)
    ensures
        r@ == Seq::<u64>::empty(),
{
    let res: Vec<u64> = Vec::new();
    res
}

/// The trees that planting in `region` yields: none yet.
pub fn plant_trees(region: &Region) -> (r: Vec<u64>)
    ensures
        r@ == Seq::<u64>::empty(),
{
    let res: Vec<u64> = Vec::new();
    res
}

/// The blocks that corrosion changes in `region`: none yet.
pub fn corrosion(region: &Region) -> (r: Vec<u64>)
    ensures
        r@ == Seq::<u64>::empty(),
{
    let res: Vec<u64> = Vec::new();
    res
}

} // verus!
