//! Material batch packets for world-mesh forward draws: the contiguous runs of sorted draws
//! that share a batch key, and the per-run choices of pipeline family, front-face winding,
//! embedded bind-group lookup and pipeline set.

use vstd::prelude::*;

use crate::arrange::WorldMeshDrawItem;
use crate::pipeline_kind::RasterPipelineKind;
use crate::registry::MaterialRegistry;
use crate::world_mesh::MaterialDrawBatchKey;

verus! {

/// Inclusive `(first_draw_idx, last_draw_idx)` span over the sorted draw list identifying one
/// contiguous material batch run.
pub type MaterialBatchBoundary = (usize, usize);

/// Selects the pipeline family that is safe for the resolved material bind-group state: an
/// embedded pipeline only when its `@group(1)` bind group was resolved, else the null pipeline.
pub fn pipeline_kind_for_material_packet(
    batch_pipeline: &RasterPipelineKind,
    embedded_bind_group_resolved: bool,
) -> (r: RasterPipelineKind)
    ensures
        r@ == (if embedded_bind_group_resolved {
            batch_pipeline@
        } else {
            None
        }),
{
    match batch_pipeline {
        RasterPipelineKind::EmbeddedStem(stem) => {
            if embedded_bind_group_resolved {
                RasterPipelineKind::EmbeddedStem(stem.clone())
            } else {
                RasterPipelineKind::Null
            }
        },
        RasterPipelineKind::Null => RasterPipelineKind::Null,
    }
}

/// Both keys describe the same material batch.
pub open spec fn same_batch_key(a: MaterialDrawBatchKey, b: MaterialDrawBatchKey) -> bool {
    &&& a.pipeline@ == b.pipeline@
    &&& a.shader_asset_id == b.shader_asset_id
    &&& a.material_asset_id == b.material_asset_id
    &&& a.render_queue == b.render_queue
    &&& a.alpha_blended == b.alpha_blended
    &&& a.depth_write == b.depth_write
    &&& a.embedded_requires_intersection_pass == b.embedded_requires_intersection_pass
    &&& a.embedded_uses_scene_color_snapshot == b.embedded_uses_scene_color_snapshot
}

/// Whether two batch keys describe the same material batch.
pub fn batch_keys_equal(a: &MaterialDrawBatchKey, b: &MaterialDrawBatchKey) -> (r: bool)
    ensures
        r == same_batch_key(*a, *b),
{
    a.pipeline.same_as(&b.pipeline) && a.shader_asset_id == b.shader_asset_id
        && a.material_asset_id == b.material_asset_id && a.render_queue == b.render_queue
        && a.alpha_blended == b.alpha_blended && a.depth_write == b.depth_write
        && a.embedded_requires_intersection_pass == b.embedded_requires_intersection_pass
        && a.embedded_uses_scene_color_snapshot == b.embedded_uses_scene_color_snapshot
}

/// `runs` splits the draws `0..n` into maximal contiguous runs of the same batch key, in order.
pub open spec fn is_batch_run_partition(
    draws: Seq<WorldMeshDrawItem>,
    runs: Seq<MaterialBatchBoundary>,
) -> bool {
    &&& runs.len() > 0
    &&& runs[0].0 == 0
    &&& runs.last().1 == draws.len() - 1
    &&& forall|k: int| 0 <= k < runs.len() ==> (#[trigger] runs[k]).0 <= runs[k].1
    &&& forall|k: int| 0 <= k < runs.len() - 1 ==> #[trigger] runs[k + 1].0 == runs[k].1 + 1
    &&& forall|k: int, i: int|
        0 <= k < runs.len() && runs[k].0 <= i <= runs[k].1 ==> same_batch_key(
            #[trigger] draws[i].batch_key,
            draws[(#[trigger] runs[k]).0 as int].batch_key,
        )
    &&& forall|k: int|
        0 <= k < runs.len() - 1 ==> !same_batch_key(
            draws[(#[trigger] runs[k + 1]).0 as int].batch_key,
            draws[runs[k].0 as int].batch_key,
        )
}

/// Walks `draws` once and writes the `(first_idx, last_idx)` runs of identical material batch
/// keys into `out`, which is cleared first.
pub fn collect_material_batch_boundaries_into(
    draws: &[WorldMeshDrawItem],
    out: &mut Vec<MaterialBatchBoundary>,
)
    requires
        draws@.len() > 0,
    ensures
        is_batch_run_partition(draws@, final(out)@),
{
    out.clear();
    let mut current_start: usize = 0;
    let mut idx: usize = 1;
    while idx < draws.len()
        invariant
            1 <= idx <= draws.len(),
            current_start < idx,
            out@.len() == 0 ==> current_start == 0,
            out@.len() > 0 ==> out@[0].0 == 0 && out@.last().1 + 1 == current_start,
            forall|k: int| 0 <= k < out@.len() ==> (#[trigger] out@[k]).0 <= out@[k].1,
            forall|k: int| 0 <= k < out@.len() - 1 ==> #[trigger] out@[k + 1].0 == out@[k].1 + 1,
            forall|k: int, i: int|
                0 <= k < out@.len() && out@[k].0 <= i <= out@[k].1 ==> same_batch_key(
                    #[trigger] draws@[i].batch_key,
                    draws@[(#[trigger] out@[k]).0 as int].batch_key,
                ),
            forall|k: int|
                0 <= k < out@.len() - 1 ==> !same_batch_key(
                    draws@[(#[trigger] out@[k + 1]).0 as int].batch_key,
                    draws@[out@[k].0 as int].batch_key,
                ),
            out@.len() > 0 ==> !same_batch_key(
                draws@[current_start as int].batch_key,
                draws@[out@.last().0 as int].batch_key,
            ),
            forall|i: int|
                current_start <= i < idx ==> same_batch_key(
                    #[trigger] draws@[i].batch_key,
                    draws@[current_start as int].batch_key,
                ),
        decreases draws.len() - idx,
    {
        if !batch_keys_equal(&draws[idx].batch_key, &draws[current_start].batch_key) {
            let ghost old_out = out@;
            out.push((current_start, idx - 1));
            proof {
                assert forall|k: int| 0 <= k < out@.len() - 1 implies !same_batch_key(
                    draws@[(#[trigger] out@[k + 1]).0 as int].batch_key,
                    draws@[out@[k].0 as int].batch_key,
                ) by {
                    if k < old_out.len() - 1 {
                        assert(out@[k + 1] == old_out[k + 1]);
                    }
                }
            }
            current_start = idx;
        }
        idx = idx + 1;
    }
    let ghost old_out = out@;
    out.push((current_start, draws.len() - 1));
    proof {
        assert forall|k: int| 0 <= k < out@.len() - 1 implies !same_batch_key(
            draws@[(#[trigger] out@[k + 1]).0 as int].batch_key,
            draws@[out@[k].0 as int].batch_key,
        ) by {
            if k < old_out.len() - 1 {
                assert(out@[k + 1] == old_out[k + 1]);
            }
        }
    }
}

/// Triangle winding that counts as front-facing.
#[derive(Clone, Copy, Debug, PartialEq, Eq, Hash, Structural)]
pub enum RasterFrontFace {
    Clockwise,
    CounterClockwise,
}

impl RasterFrontFace {
    /// The opposite winding.
    pub open spec fn opposite(self) -> RasterFrontFace {
        match self {
            RasterFrontFace::Clockwise => RasterFrontFace::CounterClockwise,
            RasterFrontFace::CounterClockwise => RasterFrontFace::Clockwise,
        }
    }

    /// The opposite winding, for views whose projection mirrors triangles.
    pub fn flipped(self) -> (r: RasterFrontFace)
        ensures
            r == self.opposite(),
    {
        match self {
            RasterFrontFace::Clockwise => RasterFrontFace::CounterClockwise,
            RasterFrontFace::CounterClockwise => RasterFrontFace::Clockwise,
        }
    }
}

/// Flipping the winding twice gives it back, and a flip always changes it.
pub proof fn lemma_flip_involution(f: RasterFrontFace)
    ensures
        f.opposite().opposite() == f,
        f.opposite() != f,
{
}

/// Front face a packet records with: views that write an offscreen render texture flip their
/// clip-space Y, which mirrors winding, so they use the opposite front face.
pub fn packet_front_face(
    front_face: RasterFrontFace,
    offscreen_write_render_texture_asset_id: Option<i32>,
) -> (r: RasterFrontFace)
    ensures
        r == (if offscreen_write_render_texture_asset_id is Some {
            front_face.opposite()
        } else {
            front_face
        }),
{
    if offscreen_write_render_texture_asset_id.is_some() {
        front_face.flipped()
    } else {
        front_face
    }
}

/// What a batch needs for its `@group(1)` material bind group.
#[derive(Debug)]
pub enum EmbeddedBindRequest {
    /// The batch uses the null pipeline, which binds the empty material group.
    NotEmbedded,
    /// Embedded bind resources are unavailable; the batch falls back to the null pipeline.
    ResourcesUnavailable,
    /// Look up the embedded bind group of this stem with the shader's variant bits.
    Lookup { stem: String, shader_variant_bits: Option<u32> },
}

/// Variant bits the registry holds for a shader, if any.
pub open spec fn registry_variant_bits(registry: Option<&MaterialRegistry>, shader_asset_id: i32) -> Option<
    u32,
> {
    match registry {
        Some(reg) => if reg.route_map().dom().contains(shader_asset_id) {
            reg.route_map()[shader_asset_id].2
        } else {
            None
        },
        None => None,
    }
}

/// Decides how the embedded material bind group of a batch is resolved. The variant bits come
/// from the registry's route for the batch's shader, when a registry is present.
pub fn plan_embedded_bind_group(
    batch_key: &MaterialDrawBatchKey,
    has_bind_resources: bool,
    registry: Option<&MaterialRegistry>,
) -> (r: EmbeddedBindRequest)
    ensures
        batch_key.pipeline@ is None ==> r is NotEmbedded,
        batch_key.pipeline@ is Some && !has_bind_resources ==> r is ResourcesUnavailable,
        batch_key.pipeline@ is Some && has_bind_resources ==> (r matches EmbeddedBindRequest::Lookup {
            stem,
            shader_variant_bits,
        } && Some(stem@) == batch_key.pipeline@ && shader_variant_bits == registry_variant_bits(
            registry,
            batch_key.shader_asset_id,
        )),
{
    match &batch_key.pipeline {
        RasterPipelineKind::Null => EmbeddedBindRequest::NotEmbedded,
        RasterPipelineKind::EmbeddedStem(stem) => {
            if !has_bind_resources {
                return EmbeddedBindRequest::ResourcesUnavailable;
            }
            let shader_variant_bits = match registry {
                Some(reg) => reg.variant_bits_for_shader_asset(batch_key.shader_asset_id),
                None => None,
            };
            EmbeddedBindRequest::Lookup { stem: stem.clone(), shader_variant_bits }
        },
    }
}

/// The bind group and uniform offset a batch records with, from the embedded lookup's result:
/// a failed lookup leaves the batch without a bind group, which selects the null pipeline.
pub fn embedded_bind_outcome<G, E>(lookup: Result<(G, Option<u32>), E>) -> (r: (Option<G>, Option<u32>))
    ensures
        r == (match lookup {
            Ok((g, offset)) => (Some(g), offset),
            Err(_) => (None, None),
        }),
{
    match lookup {
        Ok((g, offset)) => (Some(g), offset),
        Err(_) => (None, None),
    }
}

/// The pipeline set a batch records with: none without a registry, and none when the
/// registry's lookup found nothing or an empty set (the batch is skipped).
pub fn packet_pipelines<P>(lookup: Option<P>, lookup_is_empty: bool) -> (r: Option<P>)
    ensures
        r == (match lookup {
            Some(p) => if lookup_is_empty {
                None
            } else {
                Some(p)
            },
            None => None,
        }),
{
    match lookup {
        Some(p) => {
            if lookup_is_empty {
                None
            } else {
                Some(p)
            }
        },
        None => None,
    }
}

} // verus!
