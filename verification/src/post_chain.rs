//! The default post-processing chain and the motion-blur pipeline kinds.

use vstd::prelude::*;

verus! {

/// One effect of the post-processing chain with what it is built from: settings snapshots
/// (`G` for ambient occlusion, `B` for bloom), graph texture handles `H`, and the shared state
/// caches of auto-exposure (`A`) and motion blur (`M`).
#[derive(Clone, Copy, Debug, PartialEq, Eq)]
pub enum PostProcessEffect<G, B, H, A, M> {
    /// Ground-truth ambient occlusion over the scene depth and view normals.
    Gtao { settings: G, depth: H, view_normals: H, frame_uniforms: H, multiview_stereo: bool },
    /// Auto-exposure metering and scaling.
    AutoExposure { state_cache: A },
    /// Bloom.
    Bloom { settings: B },
    /// Camera-velocity motion blur over the scene depth.
    MotionBlur { depth: H, state_cache: M },
    /// ACES tonemap curve.
    AcesTonemap,
    /// AgX tonemap curve.
    AgxTonemap,
}

/// The default chain in execution order; GTAO leads only when the graph created the view-normal
/// texture it reads.
pub open spec fn default_chain<G, B, H, A, M>(
    gtao_settings: G,
    bloom_settings: B,
    depth: H,
    frame_uniforms: H,
    multiview_stereo: bool,
    auto_exposure_state_cache: A,
    motion_blur_state_cache: M,
    gtao_view_normals: Option<H>,
) -> Seq<PostProcessEffect<G, B, H, A, M>> {
    let rest = seq![
        PostProcessEffect::AutoExposure { state_cache: auto_exposure_state_cache },
        PostProcessEffect::Bloom { settings: bloom_settings },
        PostProcessEffect::MotionBlur { depth, state_cache: motion_blur_state_cache },
        PostProcessEffect::AcesTonemap,
        PostProcessEffect::AgxTonemap,
    ];
    match gtao_view_normals {
        Some(view_normals) => seq![
            PostProcessEffect::Gtao {
                settings: gtao_settings,
                depth,
                view_normals,
                frame_uniforms,
                multiview_stereo,
            },
        ] + rest,
        None => rest,
    }
}

/// Builds the canonical post-processing chain: GTAO (when the view-normal texture exists), then
/// auto-exposure, bloom, motion blur and the two tonemap curves, each built from the given
/// settings snapshots, handles and state caches.
pub fn build_default_post_processing_chain<G, B, H: Copy, A, M>(
    gtao_settings: G,
    bloom_settings: B,
    depth: H,
    frame_uniforms: H,
    multiview_stereo: bool,
    auto_exposure_state_cache: A,
    motion_blur_state_cache: M,
    gtao_view_normals: Option<H>,
) -> (r: Vec<PostProcessEffect<G, B, H, A, M>>)
    ensures
        r@ == default_chain(
            gtao_settings,
            bloom_settings,
            depth,
            frame_uniforms,
            multiview_stereo,
            auto_exposure_state_cache,
            motion_blur_state_cache,
            gtao_view_normals,
        ),
{
    let mut chain: Vec<PostProcessEffect<G, B, H, A, M>> = Vec::new();
    match gtao_view_normals {
        Some(view_normals) => {
            chain.push(
                PostProcessEffect::Gtao {
                    settings: gtao_settings,
                    depth,
                    view_normals,
                    frame_uniforms,
                    multiview_stereo,
                },
            );
        },
        None => {},
    }
    chain.push(PostProcessEffect::AutoExposure { state_cache: auto_exposure_state_cache });
    chain.push(PostProcessEffect::Bloom { settings: bloom_settings });
    chain.push(PostProcessEffect::MotionBlur { depth, state_cache: motion_blur_state_cache });
    chain.push(PostProcessEffect::AcesTonemap);
    chain.push(PostProcessEffect::AgxTonemap);
    assert(chain@ =~= default_chain(
        gtao_settings,
        bloom_settings,
        depth,
        frame_uniforms,
        multiview_stereo,
        auto_exposure_state_cache,
        motion_blur_state_cache,
        gtao_view_normals,
    ));
    chain
}

/// In the default chain, exposure is metered before bloom, bloom runs before motion blur, and
/// the tonemap curves come last; ambient occlusion, when present, runs first.
pub proof fn lemma_default_chain_order<G, B, H, A, M>(
    gtao_settings: G,
    bloom_settings: B,
    depth: H,
    frame_uniforms: H,
    multiview_stereo: bool,
    auto_exposure_state_cache: A,
    motion_blur_state_cache: M,
    gtao_view_normals: Option<H>,
)
    ensures
        ({
            let c = default_chain(
                gtao_settings,
                bloom_settings,
                depth,
                frame_uniforms,
                multiview_stereo,
                auto_exposure_state_cache,
                motion_blur_state_cache,
                gtao_view_normals,
            );
            let o: int = if gtao_view_normals is Some {
                1
            } else {
                0
            };
            &&& c.len() == 5 + o
            &&& gtao_view_normals is Some ==> c[0] is Gtao
            &&& c[o] is AutoExposure
            &&& c[o + 1] is Bloom
            &&& c[o + 2] is MotionBlur
            &&& c[o + 3] is AcesTonemap
            &&& c[o + 4] is AgxTonemap
        }),
{
}

/// Motion blur render pipeline kind.
#[derive(Clone, Copy, Debug, PartialEq, Eq, Hash, Structural)]
pub enum MotionBlurPipelineKind {
    /// Camera-depth velocity generation.
    MotionVectors,
    /// HDR scene-color blur resolve.
    BlurResolve,
}

impl MotionBlurPipelineKind {
    /// Name of the fragment entry point of a pipeline kind.
    pub open spec fn entry_name(self) -> Seq<char> {
        match self {
            MotionBlurPipelineKind::MotionVectors => "fs_motion_vectors"@,
            MotionBlurPipelineKind::BlurResolve => "fs_motion_blur"@,
        }
    }

    /// Fragment entry point for this pipeline kind.
    pub fn entry_point(self) -> (r: &'static str)
        ensures
            r@ == self.entry_name(),
    {
        match self {
            MotionBlurPipelineKind::MotionVectors => "fs_motion_vectors",
            MotionBlurPipelineKind::BlurResolve => "fs_motion_blur",
        }
    }
}

} // verus!
