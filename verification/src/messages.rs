use vstd::prelude::*;

verus! {

/// A request for a renderer thread to render the block that comes at
/// position `block_order` in front-to-back order.
pub struct RenderTask {
    pub block_order: usize,
}

impl RenderTask {
    pub fn new(block_order: usize) -> (res: Self)
        ensures
            res.block_order == block_order,
    {
        Self { block_order }
    }
}

/// A request from renderer `from_id` to the compositor for the opacities
/// accumulated in front of the block at position `order` (ordered by
/// distance from the camera).
pub struct OpacityRequest {
    /// Id of the renderer that asks.
    pub from_id: usize,
    /// Order of the block by distance from the camera.
    pub order: usize,
}

impl OpacityRequest {
    pub fn new(from_id: usize, order: usize) -> (res: Self)
        ensures
            res.from_id == from_id,
            res.order == order,
    {
        Self { from_id, order }
    }
}

} // verus!
