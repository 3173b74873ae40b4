//! State of the VR desktop mirror's staging texture: its extent, whether one exists, and
//! whether it holds a valid eye image.

use vstd::prelude::*;

verus! {

/// OpenXR `PRIMARY_STEREO` layer index used for the desktop mirror (left eye).
pub const VR_MIRROR_EYE_LAYER: u32 = 0;

/// What `ensure_staging` asks of the caller.
#[derive(Clone, Copy, Debug, PartialEq, Eq, Structural)]
pub enum StagingPlan {
    /// The existing staging texture already has the requested extent.
    Keep,
    /// Create a staging texture of `width` x `height`; `clamped` when the request exceeded the
    /// device's maximum 2D texture dimension.
    Create { width: u32, height: u32, clamped: bool },
}

/// Staging texture bookkeeping of the VR mirror.
#[derive(Clone, Copy, Debug, PartialEq, Eq)]
pub struct VrMirrorStaging {
    has_texture: bool,
    extent: (u32, u32),
    valid: bool,
}

/// The smaller of two values.
pub open spec fn min_u32(a: u32, b: u32) -> u32 {
    if a < b {
        a
    } else {
        b
    }
}

/// The larger of `v` and one.
pub open spec fn at_least_one(v: u32) -> u32 {
    if v < 1 {
        1
    } else {
        v
    }
}

/// The staging extent created for a requested extent: each side at least one texel and at
/// most the device limit.
pub open spec fn staging_extent_for(extent: (u32, u32), max_dim: u32) -> (u32, u32) {
    (min_u32(at_least_one(extent.0), max_dim), min_u32(at_least_one(extent.1), max_dim))
}

impl VrMirrorStaging {
    /// Whether a staging texture exists.
    pub closed spec fn texture_exists(&self) -> bool {
        self.has_texture
    }

    /// Extent of the staging texture, `(0, 0)` before the first one.
    pub closed spec fn current_extent(&self) -> (u32, u32) {
        self.extent
    }

    /// Whether the staging texture holds a valid eye image.
    pub closed spec fn is_valid(&self) -> bool {
        self.valid
    }

    /// No staging texture yet.
    pub fn new() -> (r: Self)
        ensures
            !r.texture_exists(),
            r.current_extent() == (0u32, 0u32),
            !r.is_valid(),
    {
        VrMirrorStaging { has_texture: false, extent: (0, 0), valid: false }
    }

    /// Whether the staging texture holds a valid eye image.
    pub fn staging_valid(&self) -> (r: bool)
        ensures
            r == self.is_valid(),
    {
        self.valid
    }

    /// Records that the staging texture now holds a valid eye image.
    pub fn mark_staging_valid(&mut self)
        ensures
            final(self).is_valid(),
            final(self).texture_exists() == old(self).texture_exists(),
            final(self).current_extent() == old(self).current_extent(),
    {
        self.valid = true;
    }

    /// Extent of the staging texture.
    pub fn staging_extent(&self) -> (r: (u32, u32))
        ensures
            r == self.current_extent(),
    {
        self.extent
    }

    /// Decides whether a new staging texture is needed for `extent` and records its extent;
    /// the caller creates the texture when asked to.
    pub fn ensure_staging(&mut self, extent: (u32, u32), max_dim: u32) -> (r: StagingPlan)
        ensures
            old(self).texture_exists() && old(self).current_extent() == extent ==> r
                == StagingPlan::Keep && *final(self) == *old(self),
            !(old(self).texture_exists() && old(self).current_extent() == extent) ==> r == (
            StagingPlan::Create {
                width: staging_extent_for(extent, max_dim).0,
                height: staging_extent_for(extent, max_dim).1,
                clamped: staging_extent_for(extent, max_dim) != (
                    at_least_one(extent.0),
                    at_least_one(extent.1),
                ),
            }) && final(self).texture_exists() && final(self).current_extent()
                == staging_extent_for(extent, max_dim) && final(self).is_valid()
                == old(self).is_valid(),
    {
        if self.has_texture && self.extent.0 == extent.0 && self.extent.1 == extent.1 {
            return StagingPlan::Keep;
        }
        let req_w = if extent.0 < 1 { 1 } else { extent.0 };
        let req_h = if extent.1 < 1 { 1 } else { extent.1 };
        let w = if req_w < max_dim { req_w } else { max_dim };
        let h = if req_h < max_dim { req_h } else { max_dim };
        self.has_texture = true;
        self.extent = (w, h);
        StagingPlan::Create { width: w, height: h, clamped: w != req_w || h != req_h }
    }
}

} // verus!
