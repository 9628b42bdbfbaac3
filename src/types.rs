use vstd::prelude::*;

verus! {

/// Width and height of a window or surface, in pixels.
#[derive(Debug, Copy, Clone, PartialEq, Eq, Structural)]
pub struct Size {
    pub width: u32,
    pub height: u32,
}

/// Number of distinct frame ids before they wrap around.
pub const FRAME_ID_MAX: u32 = 10000;

/// A frame counter that wraps at `FRAME_ID_MAX`.
#[derive(Debug, Copy, Clone, PartialEq, Eq, Structural)]
pub struct FrameId(pub u32);

impl FrameId {
    /// Advances to the next frame id, wrapping around at `FRAME_ID_MAX`.
    pub fn incr(&mut self)
        requires
            old(self).0 < FRAME_ID_MAX,
        ensures
            final(self).0 == (old(self).0 + 1) % (FRAME_ID_MAX as int),
            final(self).0 < FRAME_ID_MAX,
    {
        self.0 = (self.0 + 1) % FRAME_ID_MAX;
    }
}

/// The kind of device queue a command pool submits to.
#[derive(Debug, Copy, Clone, PartialEq, Eq, Structural)]
pub enum QueueType {
    GRAPHICS,
    COMPUTE,
}

/// Queue family indices chosen on the physical device.
#[derive(Debug, Copy, Clone, PartialEq, Eq, Structural)]
pub struct QueueFamilyIndices {
    pub graphics_family: u32,
    pub compute_family: u32,
    pub present_family: u32,
}

} // verus!
