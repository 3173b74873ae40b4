//! Material registry: shader routing plus the decisions that turn pipeline-cache lookups into
//! a usable pipeline, falling back to the null pipeline when a routed build is not ready.

use vstd::prelude::*;

use crate::pipeline_kind::{opt_string_view, RasterPipelineKind};
use crate::router::{HudRoute, MaterialRouter, RouteView, hud_row_view, next_generation};

verus! {

/// Pipeline set paired with the concrete raster kind that produced it.
pub struct MaterialPipelineResolution<P> {
    /// Raster pipeline kind whose layout matches `pipelines`.
    pub kind: RasterPipelineKind,
    /// Pipeline set for the resolved raster kind.
    pub pipelines: P,
}

impl<P> MaterialPipelineResolution<P> {
    /// Builds a resolved pipeline value from a concrete kind and a ready pipeline set.
    pub fn new(kind: RasterPipelineKind, pipelines: P) -> (r: Self)
        ensures
            r.kind == kind,
            r.pipelines == pipelines,
    {
        Self { kind, pipelines }
    }
}

/// Result of one pipeline-cache lookup.
pub enum MaterialPipelineLookup<P> {
    /// The pipeline set is built.
    Ready(P),
    /// The build is queued or running.
    Pending,
    /// The build failed with the given message.
    Failed(String),
}

/// What to do after looking up the pipeline for the requested kind.
pub enum PipelineLookupStep<P> {
    /// The requested kind's pipelines are usable.
    Resolved(MaterialPipelineResolution<P>),
    /// Look up the null pipeline for the same variant and use it.
    UseNullFallback,
    /// No pipeline is available for this draw.
    Unavailable,
}

/// Decides what a pipeline lookup for `kind` yields: ready pipelines are used; a pending or
/// failed routed pipeline falls back to the null pipeline; a pending or failed null pipeline
/// leaves the draw without a pipeline.
pub fn try_pipeline_with_fallback<P>(kind: &RasterPipelineKind, lookup: MaterialPipelineLookup<
    P,
>) -> (r: PipelineLookupStep<P>)
    ensures
        (match (lookup, r) {
            (MaterialPipelineLookup::Ready(p), PipelineLookupStep::Resolved(res)) => res.kind@
                == kind@ && res.pipelines == p,
            (MaterialPipelineLookup::Ready(_), _) => false,
            (_, PipelineLookupStep::UseNullFallback) => kind@ is Some,
            (_, PipelineLookupStep::Unavailable) => kind@ is None,
            _ => false,
        }),
{
    match lookup {
        MaterialPipelineLookup::Ready(p) => PipelineLookupStep::Resolved(
            MaterialPipelineResolution::new(kind.duplicate(), p),
        ),
        MaterialPipelineLookup::Pending => {
            if kind.is_null() {
                PipelineLookupStep::Unavailable
            } else {
                PipelineLookupStep::UseNullFallback
            }
        },
        MaterialPipelineLookup::Failed(_) => {
            if kind.is_null() {
                PipelineLookupStep::Unavailable
            } else {
                PipelineLookupStep::UseNullFallback
            }
        },
    }
}

/// Turns the lookup of the null pipeline into the fallback resolution: ready pipelines are
/// used under the null kind; pending or failed builds leave the draw without a pipeline.
pub fn null_pipeline_fallback<P>(lookup: MaterialPipelineLookup<P>) -> (r: Option<
    MaterialPipelineResolution<P>,
>)
    ensures
        (match (lookup, r) {
            (MaterialPipelineLookup::Ready(p), Some(res)) => res.kind@ is None && res.pipelines
                == p,
            (MaterialPipelineLookup::Ready(_), None) => false,
            (_, Some(_)) => false,
            (_, None) => true,
        }),
{
    match lookup {
        MaterialPipelineLookup::Ready(p) => Some(
            MaterialPipelineResolution::new(RasterPipelineKind::Null, p),
        ),
        MaterialPipelineLookup::Pending => None,
        MaterialPipelineLookup::Failed(_) => None,
    }
}

/// Owning table of material routing.
pub struct MaterialRegistry {
    router: MaterialRouter,
}

impl MaterialRegistry {
    /// Routes by shader asset id.
    pub closed spec fn route_map(&self) -> Map<i32, RouteView> {
        self.router.route_map()
    }

    /// Composed stems by shader asset id.
    pub closed spec fn stem_map(&self) -> Map<i32, Seq<char>> {
        self.router.stem_map()
    }

    /// The router's fallback kind.
    pub closed spec fn fallback_kind(&self) -> Option<Seq<char>> {
        self.router.fallback_kind()
    }

    /// The router's generation counter.
    pub closed spec fn generation_count(&self) -> u64 {
        self.router.generation_count()
    }

    /// Every recorded stem belongs to a routed shader and is the stem of its embedded pipeline.
    #[verifier::type_invariant]
    spec fn stems_follow_routes(&self) -> bool {
        forall|id: i32|
            #[trigger] self.router.stem_map().dom().contains(id)
                ==> self.router.route_map().dom().contains(id) && self.router.route_map()[id].0
                == Some(self.router.stem_map()[id])
    }

    /// Builds a registry whose router falls back to the null pipeline for unknown shader assets.
    pub fn with_default_families() -> (r: Self)
        ensures
            r.route_map().dom() == Set::<i32>::empty(),
            r.stem_map().dom() == Set::<i32>::empty(),
            r.fallback_kind() is None,
            r.generation_count() == 0,
    {
        MaterialRegistry { router: MaterialRouter::new(RasterPipelineKind::Null) }
    }

    /// The shader router used by draw preparation.
    pub fn router(&self) -> (r: &MaterialRouter)
        ensures
            r.route_map() == self.route_map(),
            r.stem_map() == self.stem_map(),
            r.fallback_kind() == self.fallback_kind(),
            r.generation_count() == self.generation_count(),
    {
        &self.router
    }

    /// Inserts a host shader id -> pipeline mapping with optional shader asset name and
    /// variant bits, and records the composed stem of an embedded pipeline (a null pipeline
    /// clears any stem recorded for the id). The old stem is cleared first, then the route is
    /// set, then the new stem recorded; each change that happens bumps the generation.
    pub fn map_shader_route(
        &mut self,
        shader_asset_id: i32,
        pipeline: RasterPipelineKind,
        shader_asset_name: Option<String>,
        shader_variant_bits: Option<u32>,
    )
        ensures
            final(self).route_map() == old(self).route_map().insert(
                shader_asset_id,
                (pipeline@, opt_string_view(shader_asset_name), shader_variant_bits),
            ),
            final(self).stem_map() == (match pipeline@ {
                Some(stem) => old(self).stem_map().insert(shader_asset_id, stem),
                None => old(self).stem_map().remove(shader_asset_id),
            }),
            final(self).fallback_kind() == old(self).fallback_kind(),
            final(self).generation_count() == ({
                let cleared = if old(self).stem_map().dom().contains(shader_asset_id) {
                    next_generation(old(self).generation_count())
                } else {
                    old(self).generation_count()
                };
                let routed = next_generation(cleared);
                if pipeline@ is Some {
                    next_generation(routed)
                } else {
                    routed
                }
            }),
    {
        let stem = match &pipeline {
            RasterPipelineKind::EmbeddedStem(s) => Some(s.clone()),
            RasterPipelineKind::Null => None,
        };
        let mut router = self.take_router();
        router.remove_shader_stem(shader_asset_id);
        router.set_shader_route(shader_asset_id, pipeline, shader_asset_name, shader_variant_bits);
        match stem {
            Some(s) => router.set_shader_stem(shader_asset_id, s),
            None => {},
        }
        self.router = router;
    }

    /// Removes routing (and the composed stem) for a host shader id.
    pub fn unmap_shader(&mut self, shader_asset_id: i32)
        ensures
            final(self).route_map() == old(self).route_map().remove(shader_asset_id),
            final(self).stem_map() == old(self).stem_map().remove(shader_asset_id),
            final(self).fallback_kind() == old(self).fallback_kind(),
            final(self).generation_count() == if old(self).route_map().dom().contains(
                shader_asset_id,
            ) || old(self).stem_map().dom().contains(shader_asset_id) {
                next_generation(old(self).generation_count())
            } else {
                old(self).generation_count()
            },
    {
        let mut router = self.take_router();
        router.remove_shader_route(shader_asset_id);
        self.router = router;
    }

    /// Moves the router out, leaving an empty one with no routes and no stems in its place.
    fn take_router(&mut self) -> (r: MaterialRouter)
        ensures
            r.route_map() == old(self).route_map(),
            r.stem_map() == old(self).stem_map(),
            r.fallback_kind() == old(self).fallback_kind(),
            r.generation_count() == old(self).generation_count(),
            forall|id: i32|
                #[trigger] r.stem_map().dom().contains(id) ==> r.route_map().dom().contains(id)
                    && r.route_map()[id].0 == Some(r.stem_map()[id]),
    {
        proof {
            use_type_invariant(&*self);
        }
        let mut router = MaterialRouter::new(RasterPipelineKind::Null);
        std::mem::swap(&mut router, &mut self.router);
        router
    }

    /// Shader routes for the debug HUD, sorted by shader asset id.
    pub fn shader_routes_for_hud(&self) -> (r: Vec<HudRoute>)
        ensures
            r.len() == self.route_map().dom().len(),
            forall|a: int, b: int| 0 <= a < b < r.len() ==> r[a].0 < r[b].0,
            forall|k: int|
                0 <= k < r.len() ==> self.route_map().dom().contains(#[trigger] r[k].0)
                    && self.route_map()[r[k].0] == hud_row_view(r[k]),
            forall|id: i32|
                self.route_map().dom().contains(id) ==> exists|k: int|
                    0 <= k < r.len() && #[trigger] r[k].0 == id,
    {
        self.router.routes_sorted_for_hud()
    }

    /// Composed WGSL stem for a host shader id, when one was recorded.
    pub fn stem_for_shader_asset(&self, shader_asset_id: i32) -> (r: Option<&str>)
        ensures
            r is Some <==> self.stem_map().dom().contains(shader_asset_id),
            r matches Some(s) ==> s@ == self.stem_map()[shader_asset_id],
            !self.route_map().dom().contains(shader_asset_id) ==> r is None,
            r matches Some(s) ==> self.route_map()[shader_asset_id].0 == Some(s@),
    {
        proof {
            use_type_invariant(self);
        }
        self.router.stem_for_shader_asset(shader_asset_id)
    }

    /// Shader variant bitmask for a host shader id, when one was parsed.
    pub fn variant_bits_for_shader_asset(&self, shader_asset_id: i32) -> (r: Option<u32>)
        ensures
            r == (if self.route_map().dom().contains(shader_asset_id) {
                self.route_map()[shader_asset_id].2
            } else {
                None
            }),
    {
        self.router.variant_bits_for_shader_asset(shader_asset_id)
    }
}

} // verus!
