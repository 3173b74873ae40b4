//! Cubemap faces in layer order and the compute pipeline slots of the image-based-lighting
//! bake.

use vstd::prelude::*;

verus! {

/// Cubemap face in the renderer's canonical layer order.
#[derive(Clone, Copy, Debug, PartialEq, Eq, Structural)]
pub enum CubeFace {
    PosX,
    NegX,
    PosY,
    NegY,
    PosZ,
    NegZ,
}

impl CubeFace {
    /// Array layer offset of a face.
    pub open spec fn layer(self) -> u32 {
        match self {
            CubeFace::PosX => 0,
            CubeFace::NegX => 1,
            CubeFace::PosY => 2,
            CubeFace::NegY => 3,
            CubeFace::PosZ => 4,
            CubeFace::NegZ => 5,
        }
    }

    /// Face at a layer offset; offsets past the last face select the last face.
    pub open spec fn at_layer(index: u32) -> CubeFace {
        if index == 0 {
            CubeFace::PosX
        } else if index == 1 {
            CubeFace::NegX
        } else if index == 2 {
            CubeFace::PosY
        } else if index == 3 {
            CubeFace::NegY
        } else if index == 4 {
            CubeFace::PosZ
        } else {
            CubeFace::NegZ
        }
    }

    /// Returns the numeric cubemap array layer offset for this face.
    pub fn index(self) -> (r: u32)
        ensures
            r == self.layer(),
    {
        match self {
            CubeFace::PosX => 0,
            CubeFace::NegX => 1,
            CubeFace::PosY => 2,
            CubeFace::NegY => 3,
            CubeFace::PosZ => 4,
            CubeFace::NegZ => 5,
        }
    }

    /// Returns the face for a numeric cubemap array layer offset.
    pub fn from_index(index: u32) -> (r: CubeFace)
        ensures
            r == CubeFace::at_layer(index),
    {
        if index == 0 {
            CubeFace::PosX
        } else if index == 1 {
            CubeFace::NegX
        } else if index == 2 {
            CubeFace::PosY
        } else if index == 3 {
            CubeFace::NegY
        } else if index == 4 {
            CubeFace::PosZ
        } else {
            CubeFace::NegZ
        }
    }
}

/// A face survives the trip through its layer offset, and the six offsets `0..6` name six
/// distinct faces.
pub proof fn lemma_cube_face_round_trip(face: CubeFace, index: u32)
    ensures
        CubeFace::at_layer(face.layer()) == face,
        face.layer() < 6,
        index < 6 ==> CubeFace::at_layer(index).layer() == index,
{
}

/// Compute pipeline slot of the IBL bake.
#[derive(Clone, Copy, Debug, PartialEq, Eq, Structural)]
pub enum PipelineSlot {
    Analytic,
    Cube,
    Downsample,
    Stitch,
    Convolve,
}

impl PipelineSlot {
    /// Shader stem that builds a slot's pipeline.
    pub open spec fn stem(self) -> Seq<char> {
        match self {
            PipelineSlot::Analytic => "skybox_bake_params"@,
            PipelineSlot::Cube => "skybox_mip0_cube_params"@,
            PipelineSlot::Downsample => "skybox_ibl_downsample"@,
            PipelineSlot::Stitch => "skybox_ibl_stitch"@,
            PipelineSlot::Convolve => "skybox_ibl_convolve_params"@,
        }
    }

    /// Shader stem for this slot.
    pub fn shader_stem(self) -> (r: &'static str)
        ensures
            r@ == self.stem(),
    {
        match self {
            PipelineSlot::Analytic => "skybox_bake_params",
            PipelineSlot::Cube => "skybox_mip0_cube_params",
            PipelineSlot::Downsample => "skybox_ibl_downsample",
            PipelineSlot::Stitch => "skybox_ibl_stitch",
            PipelineSlot::Convolve => "skybox_ibl_convolve_params",
        }
    }
}

/// Error of the IBL bake's pipeline store.
#[derive(Clone, Copy, Debug, PartialEq, Eq)]
pub enum SkyboxIblBakeError {
    /// The pipeline of the slot with this shader stem was never built.
    MissingShader(&'static str),
}

/// Lazily built pipelines of the IBL bake, one per slot.
pub struct PipelineStore<P> {
    analytic: Option<P>,
    cube: Option<P>,
    downsample: Option<P>,
    stitch: Option<P>,
    convolve: Option<P>,
}

impl<P> PipelineStore<P> {
    /// The pipeline held for a slot.
    pub closed spec fn slot(&self, slot: PipelineSlot) -> Option<P> {
        match slot {
            PipelineSlot::Analytic => self.analytic,
            PipelineSlot::Cube => self.cube,
            PipelineSlot::Downsample => self.downsample,
            PipelineSlot::Stitch => self.stitch,
            PipelineSlot::Convolve => self.convolve,
        }
    }

    /// An empty store.
    pub fn new() -> (r: Self)
        ensures
            forall|s: PipelineSlot| #[trigger] r.slot(s) is None,
    {
        PipelineStore { analytic: None, cube: None, downsample: None, stitch: None, convolve: None }
    }

    /// Whether the slot's pipeline was built.
    pub fn is_built(&self, slot: PipelineSlot) -> (r: bool)
        ensures
            r == self.slot(slot) is Some,
    {
        match slot {
            PipelineSlot::Analytic => self.analytic.is_some(),
            PipelineSlot::Cube => self.cube.is_some(),
            PipelineSlot::Downsample => self.downsample.is_some(),
            PipelineSlot::Stitch => self.stitch.is_some(),
            PipelineSlot::Convolve => self.convolve.is_some(),
        }
    }

    /// Stores a built pipeline in a slot, leaving the other slots as they were.
    pub fn install(&mut self, slot: PipelineSlot, pipeline: P)
        ensures
            final(self).slot(slot) == Some(pipeline),
            forall|s: PipelineSlot| s != slot ==> #[trigger] final(self).slot(s) == old(self).slot(s),
    {
        match slot {
            PipelineSlot::Analytic => self.analytic = Some(pipeline),
            PipelineSlot::Cube => self.cube = Some(pipeline),
            PipelineSlot::Downsample => self.downsample = Some(pipeline),
            PipelineSlot::Stitch => self.stitch = Some(pipeline),
            PipelineSlot::Convolve => self.convolve = Some(pipeline),
        }
    }

    /// The slot's pipeline, or the slot's missing shader stem.
    pub fn get(&self, slot: PipelineSlot) -> (r: Result<&P, SkyboxIblBakeError>)
        ensures
            match self.slot(slot) {
                Some(p) => r matches Ok(q) && *q == p,
                None => r matches Err(SkyboxIblBakeError::MissingShader(stem)) && stem@ == slot.stem(),
            },
    {
        let stem = slot.shader_stem();
        let slot_ref = match slot {
            PipelineSlot::Analytic => self.analytic.as_ref(),
            PipelineSlot::Cube => self.cube.as_ref(),
            PipelineSlot::Downsample => self.downsample.as_ref(),
            PipelineSlot::Stitch => self.stitch.as_ref(),
            PipelineSlot::Convolve => self.convolve.as_ref(),
        };
        match slot_ref {
            Some(p) => Ok(p),
            None => Err(SkyboxIblBakeError::MissingShader(stem)),
        }
    }
}

/// The slots in the order the bake builds them.
pub fn all_pipeline_slots() -> (r: Vec<PipelineSlot>)
    ensures
        r@ == seq![
            PipelineSlot::Analytic,
            PipelineSlot::Cube,
            PipelineSlot::Downsample,
            PipelineSlot::Stitch,
            PipelineSlot::Convolve,
        ],
{
    let r = vec![
        PipelineSlot::Analytic,
        PipelineSlot::Cube,
        PipelineSlot::Downsample,
        PipelineSlot::Stitch,
        PipelineSlot::Convolve,
    ];
    assert(r@ =~= seq![
        PipelineSlot::Analytic,
        PipelineSlot::Cube,
        PipelineSlot::Downsample,
        PipelineSlot::Stitch,
        PipelineSlot::Convolve,
    ]);
    r
}

} // verus!
