//! Maps host shader asset ids to raster pipeline kinds, composed WGSL stems, and variant bits.
//!
//! Unknown ids use the router's fallback pipeline kind. Every mutation that changes a route, a
//! stem, or the fallback bumps a generation counter that resolved-material caches compare against.

use vstd::prelude::*;

use crate::pipeline_kind::{duplicate_opt_string, opt_string_view, RasterPipelineKind};

verus! {

/// Host shader route: raster pipeline kind plus optional AssetBundle shader metadata.
#[derive(Clone, Debug, Eq, PartialEq)]
pub struct ShaderRouteEntry {
    /// Pipeline kind for this host shader asset id.
    pub pipeline: RasterPipelineKind,
    /// Shader asset filename or stem from the AssetBundle container entry.
    pub shader_asset_name: Option<String>,
    /// Shader variant bitmask parsed from the serialized shader name suffix.
    pub shader_variant_bits: Option<u32>,
}

/// A route as plain values: pipeline kind, shader asset name, variant bits.
pub type RouteView = (Option<Seq<char>>, Option<Seq<char>>, Option<u32>);

impl View for ShaderRouteEntry {
    type V = RouteView;

    open spec fn view(&self) -> RouteView {
        (self.pipeline@, opt_string_view(self.shader_asset_name), self.shader_variant_bits)
    }
}

impl ShaderRouteEntry {
    /// A copy of this route.
    pub fn duplicate(&self) -> (r: Self)
        ensures
            r@ == self@,
    {
        ShaderRouteEntry {
            pipeline: self.pipeline.duplicate(),
            shader_asset_name: duplicate_opt_string(&self.shader_asset_name),
            shader_variant_bits: self.shader_variant_bits,
        }
    }
}

/// Hash map from host shader asset id to route, held in a `hashbrown::HashMap` that Verus does
/// not see into; its contents are named by [`route_table_contents`], and the methods below are
/// trusted to behave on them as the map's `new`, `insert`, `remove`, `get` and `keys` do.
#[verifier::external_body]
pub struct RouteTable {
    map: hashbrown::HashMap<i32, ShaderRouteEntry>,
}

/// The routes a [`RouteTable`] holds, by shader asset id.
pub uninterp spec fn route_table_contents(table: RouteTable) -> Map<i32, RouteView>;

impl RouteTable {
    /// Empty table (`hashbrown::HashMap::new`).
    #[verifier::external_body]
    fn new() -> (table: RouteTable)
        ensures
            route_table_contents(table).dom() == Set::<i32>::empty(),
    {
        RouteTable { map: hashbrown::HashMap::new() }
    }

    /// Inserts or replaces the route for `id` (`hashbrown::HashMap::insert`), returning the
    /// previous route.
    #[verifier::external_body]
    fn insert(&mut self, id: i32, entry: ShaderRouteEntry) -> (prev: Option<ShaderRouteEntry>)
        ensures
            route_table_contents(*final(self)) == route_table_contents(*old(self)).insert(
                id,
                entry@,
            ),
            prev is Some <==> route_table_contents(*old(self)).dom().contains(id),
            prev matches Some(p) ==> p@ == route_table_contents(*old(self))[id],
    {
        self.map.insert(id, entry)
    }

    /// Removes the route for `id` (`hashbrown::HashMap::remove`), returning it.
    #[verifier::external_body]
    fn remove(&mut self, id: i32) -> (prev: Option<ShaderRouteEntry>)
        ensures
            route_table_contents(*final(self)) == route_table_contents(*old(self)).remove(id),
            prev is Some <==> route_table_contents(*old(self)).dom().contains(id),
            prev matches Some(p) ==> p@ == route_table_contents(*old(self))[id],
    {
        self.map.remove(&id)
    }

    /// The route for `id` (`hashbrown::HashMap::get`).
    #[verifier::external_body]
    fn get(&self, id: i32) -> (r: Option<&ShaderRouteEntry>)
        ensures
            r is Some <==> route_table_contents(*self).dom().contains(id),
            r matches Some(e) ==> e@ == route_table_contents(*self)[id],
    {
        self.map.get(&id)
    }

    /// Every shader asset id in the table, in the map's iteration order
    /// (`hashbrown::HashMap::keys`).
    #[verifier::external_body]
    fn ids(&self) -> (r: Vec<i32>)
        ensures
            r@.to_set() == route_table_contents(*self).dom(),
            r@.no_duplicates(),
            r.len() == route_table_contents(*self).dom().len(),
    {
        self.map.keys().copied().collect()
    }
}

/// Hash map from host shader asset id to composed WGSL stem, held in a `hashbrown::HashMap`
/// that Verus does not see into; its contents are named by [`stem_table_contents`], and the
/// methods below are trusted to behave on them as the map's `new`, `insert`, `remove` and `get`
/// do.
#[verifier::external_body]
pub struct StemTable {
    map: hashbrown::HashMap<i32, String>,
}

/// The stems a [`StemTable`] holds, by shader asset id.
pub uninterp spec fn stem_table_contents(table: StemTable) -> Map<i32, Seq<char>>;

impl StemTable {
    /// Empty table (`hashbrown::HashMap::new`).
    #[verifier::external_body]
    fn new() -> (table: StemTable)
        ensures
            stem_table_contents(table).dom() == Set::<i32>::empty(),
    {
        StemTable { map: hashbrown::HashMap::new() }
    }

    /// Inserts or replaces the stem for `id` (`hashbrown::HashMap::insert`).
    #[verifier::external_body]
    fn insert(&mut self, id: i32, stem: String) -> (prev: Option<String>)
        ensures
            stem_table_contents(*final(self)) == stem_table_contents(*old(self)).insert(id, stem@),
            prev is Some <==> stem_table_contents(*old(self)).dom().contains(id),
            prev matches Some(p) ==> p@ == stem_table_contents(*old(self))[id],
    {
        self.map.insert(id, stem)
    }

    /// Removes the stem for `id` (`hashbrown::HashMap::remove`), returning it.
    #[verifier::external_body]
    fn remove(&mut self, id: i32) -> (prev: Option<String>)
        ensures
            stem_table_contents(*final(self)) == stem_table_contents(*old(self)).remove(id),
            prev is Some <==> stem_table_contents(*old(self)).dom().contains(id),
            prev matches Some(p) ==> p@ == stem_table_contents(*old(self))[id],
    {
        self.map.remove(&id)
    }

    /// The stem for `id` (`hashbrown::HashMap::get`).
    #[verifier::external_body]
    fn get(&self, id: i32) -> (r: Option<&String>)
        ensures
            r is Some <==> stem_table_contents(*self).dom().contains(id),
            r matches Some(s) ==> s@ == stem_table_contents(*self)[id],
    {
        self.map.get(&id)
    }
}

/// The generation after one bump: one more, wrapping at `u64::MAX`.
pub open spec fn next_generation(g: u64) -> u64 {
    if g == u64::MAX {
        0
    } else {
        (g + 1) as u64
    }
}

/// Shader asset id -> route; unknown ids use the fallback pipeline.
pub struct MaterialRouter {
    routes: RouteTable,
    /// Composed WGSL stem when an embedded `{key}_default` target exists.
    shader_stem: StemTable,
    /// Default when `routes` has no entry.
    fallback: RasterPipelineKind,
    /// Counter bumped on every mutation.
    generation: u64,
}

impl MaterialRouter {
    /// Routes by shader asset id.
    pub closed spec fn route_map(&self) -> Map<i32, RouteView> {
        route_table_contents(self.routes)
    }

    /// Composed stems by shader asset id.
    pub closed spec fn stem_map(&self) -> Map<i32, Seq<char>> {
        stem_table_contents(self.shader_stem)
    }

    /// The fallback pipeline kind.
    pub closed spec fn fallback_kind(&self) -> Option<Seq<char>> {
        self.fallback@
    }

    /// The generation counter.
    pub closed spec fn generation_count(&self) -> u64 {
        self.generation
    }

    /// Pipeline kind that the router resolves for a shader asset id.
    pub open spec fn resolved_kind(&self, id: i32) -> Option<Seq<char>> {
        if self.route_map().dom().contains(id) {
            self.route_map()[id].0
        } else {
            self.fallback_kind()
        }
    }

    /// Builds a router with only a fallback pipeline kind.
    pub fn new(fallback: RasterPipelineKind) -> (r: Self)
        ensures
            r.route_map().dom() == Set::<i32>::empty(),
            r.stem_map().dom() == Set::<i32>::empty(),
            r.fallback_kind() == fallback@,
            r.generation_count() == 0,
    {
        MaterialRouter {
            routes: RouteTable::new(),
            shader_stem: StemTable::new(),
            fallback,
            generation: 0,
        }
    }

    fn bump(&mut self)
        ensures
            final(self).generation_count() == next_generation(old(self).generation_count()),
            final(self).route_map() == old(self).route_map(),
            final(self).stem_map() == old(self).stem_map(),
            final(self).fallback_kind() == old(self).fallback_kind(),
    {
        self.generation = self.generation.wrapping_add(1);
    }

    /// Bumps the generation for shader-source changes that keep the same host route.
    pub fn bump_generation_for_shader_dependency(&mut self)
        ensures
            final(self).generation_count() == next_generation(old(self).generation_count()),
            final(self).route_map() == old(self).route_map(),
            final(self).stem_map() == old(self).stem_map(),
            final(self).fallback_kind() == old(self).fallback_kind(),
    {
        self.bump();
    }

    /// Generation counter bumped on any route, stem, or fallback mutation.
    pub fn generation(&self) -> (r: u64)
        ensures
            r == self.generation_count(),
    {
        self.generation
    }

    /// Replaces the fallback pipeline kind used when no route is registered for a shader id.
    pub fn set_fallback(&mut self, fallback: RasterPipelineKind)
        ensures
            final(self).fallback_kind() == fallback@,
            final(self).route_map() == old(self).route_map(),
            final(self).stem_map() == old(self).stem_map(),
            final(self).generation_count() == next_generation(old(self).generation_count()),
    {
        self.fallback = fallback;
        self.bump();
    }

    /// Inserts or replaces a host shader route (pipeline kind, shader asset name, variant bits).
    pub fn set_shader_route(
        &mut self,
        shader_asset_id: i32,
        pipeline: RasterPipelineKind,
        shader_asset_name: Option<String>,
        shader_variant_bits: Option<u32>,
    )
        ensures
            final(self).route_map() == old(self).route_map().insert(
                shader_asset_id,
                (pipeline@, opt_string_view(shader_asset_name), shader_variant_bits),
            ),
            final(self).stem_map() == old(self).stem_map(),
            final(self).fallback_kind() == old(self).fallback_kind(),
            final(self).generation_count() == next_generation(old(self).generation_count()),
    {
        let _ = self.routes.insert(
            shader_asset_id,
            ShaderRouteEntry { pipeline, shader_asset_name, shader_variant_bits },
        );
        self.bump();
    }

    /// Inserts a host shader -> pipeline mapping with no shader asset name or variant bits.
    pub fn set_shader_pipeline(&mut self, shader_asset_id: i32, pipeline: RasterPipelineKind)
        ensures
            final(self).route_map() == old(self).route_map().insert(
                shader_asset_id,
                (pipeline@, None, None),
            ),
            final(self).stem_map() == old(self).stem_map(),
            final(self).fallback_kind() == old(self).fallback_kind(),
            final(self).generation_count() == next_generation(old(self).generation_count()),
    {
        self.set_shader_route(shader_asset_id, pipeline, None, None);
    }

    /// Resolves the pipeline kind for a host shader asset id: its route, else the fallback.
    pub fn pipeline_for_shader_asset(&self, shader_asset_id: i32) -> (r: RasterPipelineKind)
        ensures
            r@ == self.resolved_kind(shader_asset_id),
    {
        match self.routes.get(shader_asset_id) {
            Some(e) => e.pipeline.duplicate(),
            None => self.fallback.duplicate(),
        }
    }

    /// Records a target WGSL stem for `shader_asset_id`.
    pub fn set_shader_stem(&mut self, shader_asset_id: i32, stem: String)
        ensures
            final(self).stem_map() == old(self).stem_map().insert(shader_asset_id, stem@),
            final(self).route_map() == old(self).route_map(),
            final(self).fallback_kind() == old(self).fallback_kind(),
            final(self).generation_count() == next_generation(old(self).generation_count()),
    {
        let _ = self.shader_stem.insert(shader_asset_id, stem);
        self.bump();
    }

    /// Clears the stem for `shader_asset_id`; bumps the generation only when one was recorded.
    pub fn remove_shader_stem(&mut self, shader_asset_id: i32)
        ensures
            final(self).stem_map() == old(self).stem_map().remove(shader_asset_id),
            final(self).route_map() == old(self).route_map(),
            final(self).fallback_kind() == old(self).fallback_kind(),
            final(self).generation_count() == if old(self).stem_map().dom().contains(
                shader_asset_id,
            ) {
                next_generation(old(self).generation_count())
            } else {
                old(self).generation_count()
            },
    {
        if self.shader_stem.remove(shader_asset_id).is_some() {
            self.bump();
        }
    }

    /// Composed material stem when the host shader name matched an embedded target.
    pub fn stem_for_shader_asset(&self, shader_asset_id: i32) -> (r: Option<&str>)
        ensures
            r is Some <==> self.stem_map().dom().contains(shader_asset_id),
            r matches Some(s) ==> s@ == self.stem_map()[shader_asset_id],
    {
        match self.shader_stem.get(shader_asset_id) {
            Some(s) => Some(s.as_str()),
            None => None,
        }
    }

    /// Shader variant bitmask for a host shader id, when one was parsed.
    pub fn variant_bits_for_shader_asset(&self, shader_asset_id: i32) -> (r: Option<u32>)
        ensures
            r == (if self.route_map().dom().contains(shader_asset_id) {
                self.route_map()[shader_asset_id].2
            } else {
                None
            }),
    {
        match self.routes.get(shader_asset_id) {
            Some(e) => e.shader_variant_bits,
            None => None,
        }
    }

    /// Drops a host shader id mapping and its stem; bumps the generation only when either
    /// existed.
    pub fn remove_shader_route(&mut self, shader_asset_id: i32)
        ensures
            final(self).route_map() == old(self).route_map().remove(shader_asset_id),
            final(self).stem_map() == old(self).stem_map().remove(shader_asset_id),
            final(self).fallback_kind() == old(self).fallback_kind(),
            final(self).generation_count() == if old(self).route_map().dom().contains(
                shader_asset_id,
            ) || old(self).stem_map().dom().contains(shader_asset_id) {
                next_generation(old(self).generation_count())
            } else {
                old(self).generation_count()
            },
    {
        let had_route = self.routes.remove(shader_asset_id).is_some();
        let had_stem = self.shader_stem.remove(shader_asset_id).is_some();
        if had_route || had_stem {
            self.bump();
        }
    }

    /// The mapped pipeline kind when the host id was registered by [`Self::set_shader_route`].
    pub fn get_shader_pipeline(&self, shader_asset_id: i32) -> (r: Option<RasterPipelineKind>)
        ensures
            r is Some <==> self.route_map().dom().contains(shader_asset_id),
            r matches Some(k) ==> k@ == self.route_map()[shader_asset_id].0,
    {
        match self.routes.get(shader_asset_id) {
            Some(e) => Some(e.pipeline.duplicate()),
            None => None,
        }
    }
}

/// One debug HUD row: shader asset id, pipeline kind, shader asset name, variant bits.
pub type HudRoute = (i32, RasterPipelineKind, Option<String>, Option<u32>);

/// The route that a HUD row shows.
pub open spec fn hud_row_view(row: HudRoute) -> RouteView {
    (row.1@, opt_string_view(row.2), row.3)
}

/// Sorts distinct ids ascending.
fn sort_distinct_ids(ids: Vec<i32>) -> (out: Vec<i32>)
    requires
        ids@.no_duplicates(),
    ensures
        out.len() == ids.len(),
        forall|a: int, b: int| 0 <= a < b < out.len() ==> out[a] < out[b],
        forall|k: int| 0 <= k < out.len() ==> ids@.contains(#[trigger] out[k]),
        forall|k: int| 0 <= k < ids.len() ==> out@.contains(#[trigger] ids[k]),
{
    let mut out: Vec<i32> = Vec::new();
    let mut i: usize = 0;
    while i < ids.len()
        invariant
            i <= ids.len(),
            out.len() == i,
            ids@.no_duplicates(),
            forall|a: int, b: int| 0 <= a < b < out.len() ==> out[a] < out[b],
            forall|k: int|
                0 <= k < out.len() ==> exists|j: int| 0 <= j < i && ids[j] == #[trigger] out[k],
            forall|k: int| 0 <= k < i ==> out@.contains(#[trigger] ids[k]),
        decreases ids.len() - i,
    {
        let x = ids[i];
        let mut p: usize = 0;
        while p < out.len() && out[p] < x
            invariant
                p <= out.len(),
                forall|q: int| 0 <= q < p ==> out[q] < x,
            decreases out.len() - p,
        {
            p = p + 1;
        }
        proof {
            if p < out.len() {
                let j = choose|j: int| 0 <= j < i && ids[j] == out[p as int];
                assert(ids[j] != ids[i as int]);
            }
        }
        let ghost prev = out@;
        out.insert(p, x);
        proof {
            assert(out@ == prev.insert(p as int, x));
            assert forall|k: int| 0 <= k < out.len() implies exists|j: int|
                0 <= j < i + 1 && ids[j] == #[trigger] out[k] by {
                if k < p {
                    assert(out[k] == prev[k]);
                } else if k == p {
                    assert(ids[i as int] == out[k]);
                } else {
                    assert(out[k] == prev[k - 1]);
                }
            }
            assert forall|k: int| 0 <= k < i + 1 implies out@.contains(#[trigger] ids[k]) by {
                if k < i {
                    let m = choose|m: int| 0 <= m < prev.len() && prev[m] == ids[k];
                    if m < p {
                        assert(out[m] == ids[k]);
                    } else {
                        assert(out[m + 1] == ids[k]);
                    }
                } else {
                    assert(out[p as int] == ids[k]);
                }
            }
        }
        i = i + 1;
    }
    proof {
        assert forall|k: int| 0 <= k < out.len() implies ids@.contains(#[trigger] out[k]) by {
            let j = choose|j: int| 0 <= j < i && ids[j] == out[k];
        }
    }
    out
}

impl MaterialRouter {
    /// Host shader asset ids with their pipeline kinds and shader metadata, sorted by id.
    pub fn routes_sorted_for_hud(&self) -> (r: Vec<HudRoute>)
        ensures
            r.len() == self.route_map().dom().len(),
            forall|a: int, b: int| 0 <= a < b < r.len() ==> r[a].0 < r[b].0,
            forall|k: int|
                0 <= k < r.len() ==> self.route_map().dom().contains(#[trigger] r[k].0)
                    && self.route_map()[r[k].0] == hud_row_view(r[k]),
            forall|id: i32|
                self.route_map().dom().contains(id) ==> exists|k: int|
                    0 <= k < r.len() && #[trigger] r[k].0 == id,
    {
        let raw = self.routes.ids();
        let ghost raw_ids = raw@;
        let ids = sort_distinct_ids(raw);
        let ghost dom = self.route_map().dom();
        proof {
            assert forall|k: int| 0 <= k < ids.len() implies dom.contains(#[trigger] ids[k]) by {
                assert(raw_ids.contains(ids[k]));
                assert(raw_ids.to_set().contains(ids[k]));
            }
        }
        let mut r: Vec<HudRoute> = Vec::new();
        let mut i: usize = 0;
        while i < ids.len()
            invariant
                i <= ids.len(),
                r.len() == i,
                dom == self.route_map().dom(),
                forall|k: int| 0 <= k < ids.len() ==> dom.contains(#[trigger] ids[k]),
                forall|k: int| 0 <= k < i ==> #[trigger] r[k].0 == ids[k],
                forall|k: int|
                    0 <= k < i ==> self.route_map()[#[trigger] r[k].0] == hud_row_view(r[k]),
            decreases ids.len() - i,
        {
            let id = ids[i];
            match self.routes.get(id) {
                Some(e) => {
                    r.push(
                        (
                            id,
                            e.pipeline.duplicate(),
                            duplicate_opt_string(&e.shader_asset_name),
                            e.shader_variant_bits,
                        ),
                    );
                },
                None => {
                    proof {
                        assert(dom.contains(ids[i as int]));
                    }
                },
            }
            i = i + 1;
        }
        proof {
            assert forall|id: i32| dom.contains(id) implies exists|k: int|
                0 <= k < r.len() && #[trigger] r[k].0 == id by {
                assert(raw_ids.to_set().contains(id));
                assert(raw_ids.contains(id));
                let j = choose|j: int| 0 <= j < raw_ids.len() && raw_ids[j] == id;
                assert(ids@.contains(raw_ids[j]));
                let m = choose|m: int| 0 <= m < ids.len() && ids[m] == id;
                assert(r[m].0 == id);
            }
        }
        r
    }
}

/// Every bump yields a generation different from the one before, so a cache that stored the
/// old value always notices a mutation (also across the wrap at `u64::MAX`).
pub proof fn lemma_bump_changes_generation(g: u64)
    ensures
        next_generation(g) != g,
{
}

/// A route that was just set is what the router resolves for its id, and the resolution of
/// every other id is unchanged.
pub proof fn lemma_set_route_then_resolve(
    before: MaterialRouter,
    after: MaterialRouter,
    id: i32,
    route: RouteView,
    other: i32,
)
    requires
        after.route_map() == before.route_map().insert(id, route),
        after.fallback_kind() == before.fallback_kind(),
        other != id,
    ensures
        after.resolved_kind(id) == route.0,
        after.resolved_kind(other) == before.resolved_kind(other),
{
}

/// Once a route is removed its id resolves to the fallback again, its stem is gone, and the
/// resolution of every other id is unchanged.
pub proof fn lemma_remove_route_then_resolve(
    before: MaterialRouter,
    after: MaterialRouter,
    id: i32,
    other: i32,
)
    requires
        after.route_map() == before.route_map().remove(id),
        after.stem_map() == before.stem_map().remove(id),
        after.fallback_kind() == before.fallback_kind(),
        other != id,
    ensures
        after.resolved_kind(id) == after.fallback_kind(),
        !after.stem_map().dom().contains(id),
        after.resolved_kind(other) == before.resolved_kind(other),
{
}

/// Resolves the raster pipeline kind used for mesh rasterization for a host shader asset id.
pub fn resolve_raster_pipeline(shader_asset_id: i32, router: &MaterialRouter) -> (r:
    RasterPipelineKind)
    ensures
        r@ == router.resolved_kind(shader_asset_id),
{
    router.pipeline_for_shader_asset(shader_asset_id)
}

} // verus!
