//! World-mesh render phases and the classification of a material batch into the phase that
//! records it.

use vstd::prelude::*;

use crate::pipeline_kind::RasterPipelineKind;

verus! {

/// Unity render queue of alpha-tested geometry.
pub const UNITY_RENDER_QUEUE_ALPHA_TEST: i32 = 2450;

/// Unity render queue of transparent geometry.
pub const UNITY_RENDER_QUEUE_TRANSPARENT: i32 = 3000;

/// Last Unity render queue that still sorts as opaque geometry.
pub const UNITY_RENDER_QUEUE_GEOMETRY_LAST: i32 = 2500;

/// Whether a Unity render queue sorts as transparent geometry.
pub open spec fn is_transparent_queue(render_queue: i32) -> bool {
    render_queue > UNITY_RENDER_QUEUE_GEOMETRY_LAST
}

/// Whether a Unity render queue sorts as transparent geometry (queues after the opaque range).
pub fn render_queue_is_transparent(render_queue: i32) -> (r: bool)
    ensures
        r == is_transparent_queue(render_queue),
{
    render_queue > UNITY_RENDER_QUEUE_GEOMETRY_LAST
}

/// Render phase of the world-mesh forward path.
#[derive(Clone, Copy, Debug, PartialEq, Eq, Hash)]
pub enum WorldMeshPhase {
    /// Opaque forward draws.
    ForwardOpaque,
    /// Alpha-tested forward draws.
    ForwardAlphaTest,
    /// Draws that need the depth-intersection subpass.
    Intersection,
    /// Transparent draws after the skybox.
    Transparent,
    /// Transparent draws that sample a scene-color snapshot.
    TransparentGrab,
    /// Depth-only prepass draws.
    DepthOnly,
    /// View-normal prepass draws.
    ViewNormals,
}

/// Material and pipeline state shared by all draws of one batch.
#[derive(Clone, Debug, PartialEq, Eq)]
pub struct MaterialDrawBatchKey {
    /// Pipeline family snapshot taken when the draw was collected.
    pub pipeline: RasterPipelineKind,
    /// Host shader asset id.
    pub shader_asset_id: i32,
    /// Host material asset id.
    pub material_asset_id: i32,
    /// Effective Unity render queue.
    pub render_queue: i32,
    /// Whether the material blends with the color behind it.
    pub alpha_blended: bool,
    /// Depth-write override from the material render state, when one is set.
    pub depth_write: Option<bool>,
    /// Whether the embedded shader needs the depth-intersection subpass.
    pub embedded_requires_intersection_pass: bool,
    /// Whether the embedded shader samples a scene-color snapshot.
    pub embedded_uses_scene_color_snapshot: bool,
}

/// Phase classification for one material batch key.
#[derive(Clone, Copy, Debug, PartialEq, Eq)]
pub struct WorldMeshBatchPhase {
    /// Primary render phase that records this material batch.
    pub phase: WorldMeshPhase,
    /// Whether regular forward draws for this batch record after the skybox.
    pub post_skybox: bool,
    /// Whether this batch needs a scene-color snapshot immediately before drawing.
    pub grab_pass: bool,
}

/// Whether a regular forward draw must render after the skybox.
pub open spec fn records_after_skybox(key: MaterialDrawBatchKey) -> bool {
    key.alpha_blended || is_transparent_queue(key.render_queue) || key.depth_write == Some(false)
}

/// The phase of a batch from its subpass needs and its post-skybox flag.
pub open spec fn window_phase(
    key: MaterialDrawBatchKey,
    intersect: bool,
    grab_pass: bool,
    post_skybox: bool,
) -> WorldMeshPhase {
    if intersect {
        WorldMeshPhase::Intersection
    } else if grab_pass {
        WorldMeshPhase::TransparentGrab
    } else if post_skybox {
        WorldMeshPhase::Transparent
    } else if key.render_queue >= UNITY_RENDER_QUEUE_ALPHA_TEST {
        WorldMeshPhase::ForwardAlphaTest
    } else {
        WorldMeshPhase::ForwardOpaque
    }
}

/// Whether a regular forward draw must render after the skybox/background draw.
pub fn regular_window_records_after_skybox(key: &MaterialDrawBatchKey) -> (r: bool)
    ensures
        r == records_after_skybox(*key),
{
    let depth_write_off = match key.depth_write {
        Some(w) => !w,
        None => false,
    };
    key.alpha_blended || render_queue_is_transparent(key.render_queue) || depth_write_off
}

/// Selects the primary phase for one same-batch-key window.
pub fn phase_for_window(
    key: &MaterialDrawBatchKey,
    intersect: bool,
    grab_pass: bool,
    post_skybox: bool,
) -> (r: WorldMeshPhase)
    ensures
        r == window_phase(*key, intersect, grab_pass, post_skybox),
{
    if intersect {
        WorldMeshPhase::Intersection
    } else if grab_pass {
        WorldMeshPhase::TransparentGrab
    } else if post_skybox {
        WorldMeshPhase::Transparent
    } else if key.render_queue >= UNITY_RENDER_QUEUE_ALPHA_TEST {
        WorldMeshPhase::ForwardAlphaTest
    } else {
        WorldMeshPhase::ForwardOpaque
    }
}

/// The classification of a batch key.
pub open spec fn batch_phase(key: MaterialDrawBatchKey) -> WorldMeshBatchPhase {
    let intersect = key.embedded_requires_intersection_pass;
    let grab_pass = key.embedded_uses_scene_color_snapshot;
    let post_skybox = !intersect && !grab_pass && records_after_skybox(key);
    WorldMeshBatchPhase {
        phase: window_phase(key, intersect, grab_pass, post_skybox),
        post_skybox,
        grab_pass,
    }
}

/// Classifies one material batch key into the world-mesh phase that records it.
pub fn classify_world_mesh_batch(key: &MaterialDrawBatchKey) -> (r: WorldMeshBatchPhase)
    ensures
        r == batch_phase(*key),
{
    let intersect = key.embedded_requires_intersection_pass;
    let grab_pass = key.embedded_uses_scene_color_snapshot;
    let post_skybox = !intersect && !grab_pass && regular_window_records_after_skybox(key);
    let phase = phase_for_window(key, intersect, grab_pass, post_skybox);
    WorldMeshBatchPhase { phase, post_skybox, grab_pass }
}

/// Transparent and grab-pass phases need strict back-to-front ordering; an intersection
/// batch never records after the skybox; only a batch that samples scene color is a grab pass.
pub proof fn lemma_batch_phase_consistency(key: MaterialDrawBatchKey)
    ensures
        (batch_phase(key).phase == WorldMeshPhase::Transparent) == batch_phase(key).post_skybox,
        batch_phase(key).grab_pass == key.embedded_uses_scene_color_snapshot,
        key.embedded_requires_intersection_pass ==> batch_phase(key).phase
            == WorldMeshPhase::Intersection && !batch_phase(key).post_skybox,
        batch_phase(key).phase == WorldMeshPhase::TransparentGrab ==> batch_phase(key).grab_pass,
        batch_phase(key).phase != WorldMeshPhase::DepthOnly,
        batch_phase(key).phase != WorldMeshPhase::ViewNormals,
        batch_phase(key).phase == WorldMeshPhase::ForwardOpaque ==> key.render_queue
            < UNITY_RENDER_QUEUE_ALPHA_TEST && !records_after_skybox(key),
{
}

/// Which phase records a batch, read off the key: an intersection subpass wins, then a
/// scene-color snapshot; otherwise a batch that blends with what is behind it, sits in a
/// transparent render queue or turns depth writes off records after the skybox in the
/// transparent tail; any other batch records before the skybox, alpha-tested from the
/// alpha-test queue on and opaque below it.
pub proof fn lemma_batch_phase_by_key(key: MaterialDrawBatchKey)
    ensures
        key.embedded_requires_intersection_pass ==> batch_phase(key).phase
            == WorldMeshPhase::Intersection && !batch_phase(key).post_skybox,
        !key.embedded_requires_intersection_pass && key.embedded_uses_scene_color_snapshot
            ==> batch_phase(key).phase == WorldMeshPhase::TransparentGrab && !batch_phase(
            key,
        ).post_skybox && batch_phase(key).grab_pass,
        !key.embedded_requires_intersection_pass && !key.embedded_uses_scene_color_snapshot && (
        key.alpha_blended || key.render_queue > UNITY_RENDER_QUEUE_GEOMETRY_LAST || key.depth_write
            == Some(false)) ==> batch_phase(key).phase == WorldMeshPhase::Transparent
            && batch_phase(key).post_skybox && !batch_phase(key).grab_pass,
        !key.embedded_requires_intersection_pass && !key.embedded_uses_scene_color_snapshot
            && !key.alpha_blended && key.render_queue <= UNITY_RENDER_QUEUE_GEOMETRY_LAST
            && key.depth_write != Some(false) ==> !batch_phase(key).post_skybox && batch_phase(
            key,
        ).phase == (if key.render_queue >= UNITY_RENDER_QUEUE_ALPHA_TEST {
            WorldMeshPhase::ForwardAlphaTest
        } else {
            WorldMeshPhase::ForwardOpaque
        }),
{
}

} // verus!
