//! Phase-binned arrangement of collected world-mesh draws: nontransparent draws are grouped
//! into bins of identical material, mesh range and pass state, ordered by pass order and
//! material, and the transparent tail keeps strict back-to-front order.

use vstd::prelude::*;
use vstd::utf8::encode_utf8;

use crate::ordering::{
    count_key_runs, is_stable_sort, key_set, keyed_view, lemma_lex_lt_order,
    lemma_stable_sort_groups_equal_keys, lemma_stable_sort_runs_count_keys, lex_less, lex_lt, reversed,
    stable_sort_by_key,
    stable_sort_witness, strip_keys, values_of,
};
use crate::pipeline_kind::RasterPipelineKind;
use crate::world_mesh::{batch_phase, classify_world_mesh_batch, MaterialDrawBatchKey, WorldMeshPhase};

verus! {

/// What arrangement reads of one collected world-mesh draw.
#[derive(Debug)]
pub struct WorldMeshDrawItem {
    /// Material and pipeline state of the draw's batch.
    pub batch_key: MaterialDrawBatchKey,
    /// Cached hash of the batch key, compared before the key itself.
    pub batch_key_hash: u64,
    /// Overlay-layer draws sort after main-layer draws.
    pub is_overlay: bool,
    /// Resident mesh asset id.
    pub mesh_asset_id: i32,
    /// First index of the submesh range.
    pub first_index: u32,
    /// Number of indices in the submesh range.
    pub index_count: u32,
    /// Scene node that issued the draw.
    pub node_id: i32,
    /// Position of the draw in collection order.
    pub collect_order: usize,
    /// Squared camera distance as its IEEE-754 bit pattern; for the non-negative distances
    /// this orders as the numbers do.
    pub camera_distance_sq_bits: u32,
}

/// Counts reported by one arrangement.
#[derive(Clone, Copy, Debug, PartialEq, Eq)]
pub struct WorldMeshDrawArrangementStats {
    /// Number of nontransparent bins.
    pub nontransparent_bins: usize,
    /// Number of draws placed in nontransparent bins.
    pub nontransparent_binned_draws: usize,
    /// Number of draws in the strictly ordered transparent tail.
    pub strict_sorted_draws: usize,
}

impl Default for WorldMeshDrawArrangementStats {
    fn default() -> (r: Self)
        ensures
            r.nontransparent_bins == 0,
            r.nontransparent_binned_draws == 0,
            r.strict_sorted_draws == 0,
    {
        WorldMeshDrawArrangementStats {
            nontransparent_bins: 0,
            nontransparent_binned_draws: 0,
            strict_sorted_draws: 0,
        }
    }
}

/// Draws of transparent phases must keep strict back-to-front ordering.
pub open spec fn requires_strict_order(phase: WorldMeshPhase) -> bool {
    phase == WorldMeshPhase::Transparent || phase == WorldMeshPhase::TransparentGrab
}

/// Returns whether draws in `phase` must retain strict transparent/grab ordering.
pub fn phase_requires_strict_order(phase: WorldMeshPhase) -> (r: bool)
    ensures
        r == requires_strict_order(phase),
{
    match phase {
        WorldMeshPhase::Transparent | WorldMeshPhase::TransparentGrab => true,
        _ => false,
    }
}

/// Pass order of a phase when nontransparent bins are flattened.
pub open spec fn flatten_rank(phase: WorldMeshPhase) -> u8 {
    match phase {
        WorldMeshPhase::ForwardOpaque => 0,
        WorldMeshPhase::ForwardAlphaTest => 1,
        WorldMeshPhase::Intersection => 2,
        WorldMeshPhase::Transparent => 3,
        WorldMeshPhase::TransparentGrab => 4,
        WorldMeshPhase::DepthOnly => 5,
        WorldMeshPhase::ViewNormals => 6,
    }
}

/// Stable rank used to flatten nontransparent phases in pass order.
pub fn phase_flatten_rank(phase: WorldMeshPhase) -> (r: u8)
    ensures
        r == flatten_rank(phase),
{
    match phase {
        WorldMeshPhase::ForwardOpaque => 0,
        WorldMeshPhase::ForwardAlphaTest => 1,
        WorldMeshPhase::Intersection => 2,
        WorldMeshPhase::Transparent => 3,
        WorldMeshPhase::TransparentGrab => 4,
        WorldMeshPhase::DepthOnly => 5,
        WorldMeshPhase::ViewNormals => 6,
    }
}

/// Key for one nontransparent bin.
#[derive(Debug)]
pub struct NonTransparentBinKey {
    /// Main-layer draws sort before overlay draws.
    pub is_overlay: bool,
    /// Primary render phase for the bin.
    pub phase: WorldMeshPhase,
    /// Effective Unity render queue.
    pub render_queue: i32,
    /// Cached hash of the batch key for cheap bin ordering.
    pub batch_key_hash: u64,
    /// Material and pipeline state shared by all draws in the bin.
    pub batch_key: MaterialDrawBatchKey,
    /// Resident mesh asset id.
    pub mesh_asset_id: i32,
    /// First index in the submesh range.
    pub first_index: u32,
    /// Number of indices in the submesh range.
    pub index_count: u32,
}

/// A copy of a batch key.
pub fn duplicate_batch_key(k: &MaterialDrawBatchKey) -> (r: MaterialDrawBatchKey)
    ensures
        r.pipeline@ == k.pipeline@,
        r.shader_asset_id == k.shader_asset_id,
        r.material_asset_id == k.material_asset_id,
        r.render_queue == k.render_queue,
        r.alpha_blended == k.alpha_blended,
        r.depth_write == k.depth_write,
        r.embedded_requires_intersection_pass == k.embedded_requires_intersection_pass,
        r.embedded_uses_scene_color_snapshot == k.embedded_uses_scene_color_snapshot,
{
    MaterialDrawBatchKey {
        pipeline: k.pipeline.duplicate(),
        shader_asset_id: k.shader_asset_id,
        material_asset_id: k.material_asset_id,
        render_queue: k.render_queue,
        alpha_blended: k.alpha_blended,
        depth_write: k.depth_write,
        embedded_requires_intersection_pass: k.embedded_requires_intersection_pass,
        embedded_uses_scene_color_snapshot: k.embedded_uses_scene_color_snapshot,
    }
}

impl NonTransparentBinKey {
    /// Builds the bin key for one draw and its pre-classified render phase.
    pub fn from_draw(item: &WorldMeshDrawItem, phase: WorldMeshPhase) -> (r: Self)
        ensures
            r.is_overlay == item.is_overlay,
            r.phase == phase,
            r.render_queue == item.batch_key.render_queue,
            r.batch_key_hash == item.batch_key_hash,
            batch_key_code(r.batch_key) == batch_key_code(item.batch_key),
            r.mesh_asset_id == item.mesh_asset_id,
            r.first_index == item.first_index,
            r.index_count == item.index_count,
    {
        NonTransparentBinKey {
            is_overlay: item.is_overlay,
            phase,
            render_queue: item.batch_key.render_queue,
            batch_key_hash: item.batch_key_hash,
            batch_key: duplicate_batch_key(&item.batch_key),
            mesh_asset_id: item.mesh_asset_id,
            first_index: item.first_index,
            index_count: item.index_count,
        }
    }
}

/// `0` or `1`.
pub open spec fn bool_code(b: bool) -> i128 {
    if b {
        1
    } else {
        0
    }
}

/// `None`, `Some(false)`, `Some(true)` as `0`, `1`, `2`.
pub open spec fn opt_bool_code(b: Option<bool>) -> i128 {
    match b {
        None => 0,
        Some(false) => 1,
        Some(true) => 2,
    }
}

/// Order code of a pipeline family: embedded stems first, compared byte-wise (each byte
/// shifted up by one and the stem closed by `0`, so a shorter prefix sorts first), then the
/// null pipeline.
pub open spec fn pipeline_code(p: RasterPipelineKind) -> Seq<i128> {
    match p@ {
        Some(stem) => seq![0i128] + encode_utf8(stem).map_values(|b: u8| (b + 1) as i128) + seq![
            0i128,
        ],
        None => seq![1i128],
    }
}

/// Order code of a batch key: its fields in declaration order.
pub open spec fn batch_key_code(k: MaterialDrawBatchKey) -> Seq<i128> {
    pipeline_code(k.pipeline) + seq![
        k.shader_asset_id as i128,
        k.material_asset_id as i128,
        k.render_queue as i128,
        bool_code(k.alpha_blended),
        opt_bool_code(k.depth_write),
        bool_code(k.embedded_requires_intersection_pass),
        bool_code(k.embedded_uses_scene_color_snapshot),
    ]
}

/// Order code of a bin key: overlay flag, phase pass order, render queue, batch-key hash,
/// batch key, mesh, first index, index count; `lex_lt` on codes compares them in that order.
pub open spec fn bin_key_code(k: NonTransparentBinKey) -> Seq<i128> {
    seq![
        bool_code(k.is_overlay),
        flatten_rank(k.phase) as i128,
        k.render_queue as i128,
        k.batch_key_hash as i128,
    ] + batch_key_code(k.batch_key) + seq![
        k.mesh_asset_id as i128,
        k.first_index as i128,
        k.index_count as i128,
    ]
}

/// Pushes the order code of a pipeline family.
fn push_pipeline_code(out: &mut Vec<i128>, p: &RasterPipelineKind)
    ensures
        final(out)@ == old(out)@ + pipeline_code(*p),
{
    let ghost start = out@;
    match p {
        RasterPipelineKind::EmbeddedStem(stem) => {
            out.push(0);
            let bytes = stem.as_str().as_bytes();
            let mut i: usize = 0;
            while i < bytes.len()
                invariant
                    i <= bytes.len(),
                    bytes@ == encode_utf8(stem@),
                    out@ == start + seq![0i128] + bytes@.take(i as int).map_values(
                        |b: u8| (b + 1) as i128,
                    ),
                decreases bytes.len() - i,
            {
                out.push(bytes[i] as i128 + 1);
                assert(bytes@.take(i + 1).map_values(|b: u8| (b + 1) as i128) =~= bytes@.take(
                    i as int,
                ).map_values(|b: u8| (b + 1) as i128).push((bytes[i as int] + 1) as i128));
                i = i + 1;
            }
            assert(bytes@.take(bytes.len() as int) =~= bytes@);
            out.push(0);
            assert(out@ =~= start + pipeline_code(*p));
        },
        RasterPipelineKind::Null => {
            out.push(1);
            assert(out@ =~= start + pipeline_code(*p));
        },
    }
}

/// Pushes the order code of a batch key.
#[verifier::spinoff_prover]
#[verifier::rlimit(30)]
fn push_batch_key_code(out: &mut Vec<i128>, k: &MaterialDrawBatchKey)
    ensures
        final(out)@ == old(out)@ + batch_key_code(*k),
{
    let ghost start = out@;
    push_pipeline_code(out, &k.pipeline);
    let ghost mid = out@;
    out.push(k.shader_asset_id as i128);
    out.push(k.material_asset_id as i128);
    out.push(k.render_queue as i128);
    out.push(if k.alpha_blended { 1 } else { 0 });
    out.push(
        match k.depth_write {
            None => 0,
            Some(false) => 1,
            Some(true) => 2,
        },
    );
    out.push(if k.embedded_requires_intersection_pass { 1 } else { 0 });
    out.push(if k.embedded_uses_scene_color_snapshot { 1 } else { 0 });
    assert(out@ =~= mid + seq![
        k.shader_asset_id as i128,
        k.material_asset_id as i128,
        k.render_queue as i128,
        bool_code(k.alpha_blended),
        opt_bool_code(k.depth_write),
        bool_code(k.embedded_requires_intersection_pass),
        bool_code(k.embedded_uses_scene_color_snapshot),
    ]);
    assert(out@ =~= start + batch_key_code(*k));
}

/// The order code of a bin key.
pub fn bin_sort_key(k: &NonTransparentBinKey) -> (r: Vec<i128>)
    ensures
        r@ == bin_key_code(*k),
{
    let mut r: Vec<i128> = Vec::new();
    r.push(if k.is_overlay { 1 } else { 0 });
    r.push(phase_flatten_rank(k.phase) as i128);
    r.push(k.render_queue as i128);
    r.push(k.batch_key_hash as i128);
    push_batch_key_code(&mut r, &k.batch_key);
    r.push(k.mesh_asset_id as i128);
    r.push(k.first_index as i128);
    r.push(k.index_count as i128);
    assert(r@ =~= bin_key_code(*k));
    r
}

/// Result of comparing two keys.
#[derive(Clone, Copy, Debug, PartialEq, Eq, Structural)]
pub enum KeyOrder {
    Less,
    Equal,
    Greater,
}

/// Orders nontransparent bins so same material packet keys stay contiguous while preserving
/// high-level pass order.
pub fn cmp_nontransparent_bin_keys(a: &NonTransparentBinKey, b: &NonTransparentBinKey) -> (r: KeyOrder)
    ensures
        r == KeyOrder::Less <==> lex_lt(bin_key_code(*a), bin_key_code(*b)),
        r == KeyOrder::Greater <==> lex_lt(bin_key_code(*b), bin_key_code(*a)),
        r == KeyOrder::Equal <==> bin_key_code(*a) == bin_key_code(*b),
{
    let ka = bin_sort_key(a);
    let kb = bin_sort_key(b);
    proof {
        lemma_lex_lt_order(ka@, kb@, ka@);
        lemma_lex_lt_order(kb@, ka@, kb@);
    }
    if lex_less(&ka, &kb) {
        KeyOrder::Less
    } else if lex_less(&kb, &ka) {
        KeyOrder::Greater
    } else {
        KeyOrder::Equal
    }
}

/// The phase that records a draw.
pub open spec fn draw_phase(item: WorldMeshDrawItem) -> WorldMeshPhase {
    batch_phase(item.batch_key).phase
}

/// The draw belongs to the strictly ordered transparent tail.
pub open spec fn is_strict_draw(item: WorldMeshDrawItem) -> bool {
    requires_strict_order(draw_phase(item))
}

/// Order code of the bin a nontransparent draw falls into.
pub open spec fn draw_bin_code(item: WorldMeshDrawItem) -> Seq<i128> {
    seq![
        bool_code(item.is_overlay),
        flatten_rank(draw_phase(item)) as i128,
        item.batch_key.render_queue as i128,
        item.batch_key_hash as i128,
    ] + batch_key_code(item.batch_key) + seq![
        item.mesh_asset_id as i128,
        item.first_index as i128,
        item.index_count as i128,
    ]
}

/// Order code of a tail draw: farther draws first.
pub open spec fn tail_code(item: WorldMeshDrawItem) -> Seq<i128> {
    seq![(-(item.camera_distance_sq_bits as int)) as i128]
}

/// The nontransparent draws of `s`, in order, with their bin codes.
pub open spec fn binned_input(s: Seq<WorldMeshDrawItem>) -> Seq<(Seq<i128>, WorldMeshDrawItem)>
    decreases s.len(),
{
    if s.len() == 0 {
        Seq::empty()
    } else if is_strict_draw(s.last()) {
        binned_input(s.drop_last())
    } else {
        binned_input(s.drop_last()).push((draw_bin_code(s.last()), s.last()))
    }
}

/// The strictly ordered draws of `s`, in order, with their tail codes.
pub open spec fn strict_input(s: Seq<WorldMeshDrawItem>) -> Seq<(Seq<i128>, WorldMeshDrawItem)>
    decreases s.len(),
{
    if s.len() == 0 {
        Seq::empty()
    } else if is_strict_draw(s.last()) {
        strict_input(s.drop_last()).push((tail_code(s.last()), s.last()))
    } else {
        strict_input(s.drop_last())
    }
}

/// Arranges collected draws with bins for nontransparent phases and strict back-to-front
/// ordering for the transparent tail.
///
/// The result is the nontransparent draws stably sorted by bin (so each bin is contiguous and
/// keeps collection order, and bins follow pass order and material), followed by the
/// transparent and grab-pass draws stably sorted from far to near.
pub fn arrange_draws_by_phase_bins(items: &mut Vec<WorldMeshDrawItem>) -> (stats:
    WorldMeshDrawArrangementStats)
    ensures
        stats.nontransparent_bins == key_set(binned_input(old(items)@)).len(),
        is_phase_binned_arrangement(old(items)@, final(items)@),
        stats.nontransparent_binned_draws == binned_input(old(items)@).len(),
        stats.strict_sorted_draws == strict_input(old(items)@).len(),
{
    let ghost orig = items@;
    let mut taken: Vec<WorldMeshDrawItem> = Vec::new();
    std::mem::swap(&mut taken, items);
    let n: usize = taken.len();
    let mut input = reversed(taken);
    let mut binned: Vec<(Vec<i128>, WorldMeshDrawItem)> = Vec::new();
    let mut strict: Vec<(Vec<i128>, WorldMeshDrawItem)> = Vec::new();
    let ghost mut k: int = 0;
    assert(orig.take(0) =~= Seq::<WorldMeshDrawItem>::empty());
    while input.len() > 0
        invariant
            n == orig.len(),
            orig.len() == k + input.len(),
            0 <= k <= orig.len(),
            forall|i: int| 0 <= i < input.len() ==> #[trigger] input@[i] == orig[n - 1 - i],
            keyed_view(binned@) == binned_input(orig.take(k)),
            keyed_view(strict@) == strict_input(orig.take(k)),
            items@.len() == 0,
        decreases input.len(),
    {
        let ghost old_input = input@;
        let item = input.pop().unwrap();
        proof {
            assert(item == old_input[old_input.len() - 1]);
            assert(item == orig[k]);
            assert forall|i: int| 0 <= i < input.len() implies #[trigger] input@[i] == orig[n - 1
                - i] by {
                assert(input@[i] == old_input[i]);
            }
            assert(orig.take(k + 1).drop_last() =~= orig.take(k));
            assert(orig.take(k + 1).last() == item);
        }
        let phase = classify_world_mesh_batch(&item.batch_key).phase;
        if phase_requires_strict_order(phase) {
            let mut key: Vec<i128> = Vec::new();
            key.push(-(item.camera_distance_sq_bits as i128));
            assert(key@ =~= tail_code(item));
            strict.push((key, item));
            proof {
                assert(keyed_view(strict@) =~= strict_input(orig.take(k)).push((tail_code(item), item)));
            }
        } else {
            let bin = NonTransparentBinKey::from_draw(&item, phase);
            let key = bin_sort_key(&bin);
            assert(key@ =~= draw_bin_code(item));
            binned.push((key, item));
            proof {
                assert(keyed_view(binned@) =~= binned_input(orig.take(k)).push(
                    (draw_bin_code(item), item),
                ));
            }
        }
        proof {
            k = k + 1;
        }
    }
    proof {
        assert(orig.take(k) =~= orig);
    }
    let binned = stable_sort_by_key(binned);
    let strict = stable_sort_by_key(strict);
    let nontransparent_bins = count_key_runs(&binned);
    let nontransparent_binned_draws = binned.len();
    let strict_sorted_draws = strict.len();
    let ghost b = keyed_view(binned@);
    let ghost t = keyed_view(strict@);
    let mut flat = strip_keys(binned);
    let mut tail = strip_keys(strict);
    items.append(&mut flat);
    items.append(&mut tail);
    proof {
        assert(items@ =~= values_of(b) + values_of(t));
        assert(is_stable_sort(binned_input(orig), b));
        assert(is_stable_sort(strict_input(orig), t));
        assert(is_phase_binned_arrangement(orig, items@));
        lemma_stable_sort_runs_count_keys(binned_input(orig), b);
    }
    WorldMeshDrawArrangementStats { nontransparent_bins, nontransparent_binned_draws, strict_sorted_draws }
}

/// `out` is a phase-binned arrangement of `inp`: the nontransparent draws stably sorted by bin,
/// then the strict tail stably sorted from far to near.
pub open spec fn is_phase_binned_arrangement(
    inp: Seq<WorldMeshDrawItem>,
    out: Seq<WorldMeshDrawItem>,
) -> bool {
    exists|b: Seq<(Seq<i128>, WorldMeshDrawItem)>, t: Seq<(Seq<i128>, WorldMeshDrawItem)>|
        #![trigger is_stable_sort(binned_input(inp), b), is_stable_sort(strict_input(inp), t)]
        is_stable_sort(binned_input(inp), b) && is_stable_sort(strict_input(inp), t) && out
            == values_of(b) + values_of(t)
}

/// Every binned entry is a nontransparent draw keyed by its bin code.
proof fn lemma_binned_input_entries(s: Seq<WorldMeshDrawItem>)
    ensures
        forall|k: int|
            0 <= k < binned_input(s).len() ==> !is_strict_draw((#[trigger] binned_input(s)[k]).1)
                && binned_input(s)[k].0 == draw_bin_code(binned_input(s)[k].1),
    decreases s.len(),
{
    if s.len() > 0 {
        let prev = binned_input(s.drop_last());
        lemma_binned_input_entries(s.drop_last());
        assert forall|k: int| 0 <= k < binned_input(s).len() implies !is_strict_draw(
            (#[trigger] binned_input(s)[k]).1,
        ) && binned_input(s)[k].0 == draw_bin_code(binned_input(s)[k].1) by {
            if k < prev.len() {
                assert(binned_input(s)[k] == prev[k]);
            }
        }
    }
}

/// Every tail entry is a strictly ordered draw.
proof fn lemma_strict_input_entries(s: Seq<WorldMeshDrawItem>)
    ensures
        forall|k: int| 0 <= k < strict_input(s).len() ==> is_strict_draw((#[trigger] strict_input(s)[k]).1),
    decreases s.len(),
{
    if s.len() > 0 {
        let prev = strict_input(s.drop_last());
        lemma_strict_input_entries(s.drop_last());
        assert forall|k: int| 0 <= k < strict_input(s).len() implies is_strict_draw(
            (#[trigger] strict_input(s)[k]).1,
        ) by {
            if k < prev.len() {
                assert(strict_input(s)[k] == prev[k]);
            }
        }
    }
}

/// In an arrangement, the nontransparent draws come first and the strict tail last: after a
/// strictly ordered draw, every draw is strictly ordered.
pub proof fn lemma_transparent_tail_last(
    inp: Seq<WorldMeshDrawItem>,
    out: Seq<WorldMeshDrawItem>,
    i: int,
    j: int,
)
    requires
        is_phase_binned_arrangement(inp, out),
        0 <= i < j < out.len(),
        is_strict_draw(out[i]),
    ensures
        is_strict_draw(out[j]),
{
    let (b, t) = choose|b: Seq<(Seq<i128>, WorldMeshDrawItem)>, t: Seq<(Seq<i128>, WorldMeshDrawItem)>|
        #![trigger is_stable_sort(binned_input(inp), b), is_stable_sort(strict_input(inp), t)]
        is_stable_sort(binned_input(inp), b) && is_stable_sort(strict_input(inp), t) && out
            == values_of(b) + values_of(t);
    lemma_binned_input_entries(inp);
    lemma_strict_input_entries(inp);
    let pb = choose|p: Seq<int>| #[trigger] stable_sort_witness(binned_input(inp), b, p);
    let pt = choose|p: Seq<int>| #[trigger] stable_sort_witness(strict_input(inp), t, p);
    if i < b.len() {
        assert(out[i] == b[i].1);
        assert(b[i] == binned_input(inp)[pb[i]]);
        assert(false);
    }
    assert(out[j] == t[j - b.len()].1);
    assert(t[j - b.len()] == strict_input(inp)[pt[j - b.len()]]);
}

/// In an arrangement, the draws of one bin are contiguous: between two nontransparent draws of
/// the same bin there are only draws of that bin.
pub proof fn lemma_bins_contiguous(
    inp: Seq<WorldMeshDrawItem>,
    out: Seq<WorldMeshDrawItem>,
    i: int,
    j: int,
    m: int,
)
    requires
        is_phase_binned_arrangement(inp, out),
        0 <= i < j < m < out.len(),
        !is_strict_draw(out[i]),
        !is_strict_draw(out[m]),
        draw_bin_code(out[i]) == draw_bin_code(out[m]),
    ensures
        !is_strict_draw(out[j]),
        draw_bin_code(out[j]) == draw_bin_code(out[i]),
{
    let (b, t) = choose|b: Seq<(Seq<i128>, WorldMeshDrawItem)>, t: Seq<(Seq<i128>, WorldMeshDrawItem)>|
        #![trigger is_stable_sort(binned_input(inp), b), is_stable_sort(strict_input(inp), t)]
        is_stable_sort(binned_input(inp), b) && is_stable_sort(strict_input(inp), t) && out
            == values_of(b) + values_of(t);
    lemma_binned_input_entries(inp);
    lemma_strict_input_entries(inp);
    let pb = choose|p: Seq<int>| #[trigger] stable_sort_witness(binned_input(inp), b, p);
    let pt = choose|p: Seq<int>| #[trigger] stable_sort_witness(strict_input(inp), t, p);
    if m >= b.len() {
        assert(out[m] == t[m - b.len()].1);
        assert(t[m - b.len()] == strict_input(inp)[pt[m - b.len()]]);
        assert(false);
    }
    assert(out[i] == b[i].1 && out[j] == b[j].1 && out[m] == b[m].1);
    assert(b[i] == binned_input(inp)[pb[i]]);
    assert(b[j] == binned_input(inp)[pb[j]]);
    assert(b[m] == binned_input(inp)[pb[m]]);
    lemma_stable_sort_groups_equal_keys(binned_input(inp), b, i, j, m);
}

/// A sequence no later than another in the lexicographic order has no larger first element,
/// and with equal first elements the rests are in the same order.
proof fn lemma_lex_le_head(a: Seq<i128>, b: Seq<i128>)
    requires
        lex_lt(a, b) || a == b,
        a.len() > 0,
        b.len() > 0,
    ensures
        a[0] <= b[0],
        a[0] == b[0] ==> lex_lt(a.drop_first(), b.drop_first()) || a.drop_first() == b.drop_first(),
{
}

/// In an arrangement, the nontransparent draws come in bin order: main-layer draws before
/// overlay draws; within a layer, in the pass order of their phases; within a phase, by render
/// queue; within a render queue, by batch-key hash.
pub proof fn lemma_bins_follow_pass_order(
    inp: Seq<WorldMeshDrawItem>,
    out: Seq<WorldMeshDrawItem>,
    i: int,
    j: int,
)
    requires
        is_phase_binned_arrangement(inp, out),
        0 <= i < j < out.len(),
        !is_strict_draw(out[j]),
    ensures
        !is_strict_draw(out[i]),
        out[i].is_overlay ==> out[j].is_overlay,
        out[i].is_overlay == out[j].is_overlay ==> flatten_rank(draw_phase(out[i])) <= flatten_rank(
            draw_phase(out[j]),
        ),
        out[i].is_overlay == out[j].is_overlay && draw_phase(out[i]) == draw_phase(out[j])
            ==> out[i].batch_key.render_queue <= out[j].batch_key.render_queue,
        out[i].is_overlay == out[j].is_overlay && draw_phase(out[i]) == draw_phase(out[j])
            && out[i].batch_key.render_queue == out[j].batch_key.render_queue
            ==> out[i].batch_key_hash <= out[j].batch_key_hash,
{
    if is_strict_draw(out[i]) {
        lemma_transparent_tail_last(inp, out, i, j);
    }
    let (b, t) = choose|b: Seq<(Seq<i128>, WorldMeshDrawItem)>, t: Seq<(Seq<i128>, WorldMeshDrawItem)>|
        #![trigger is_stable_sort(binned_input(inp), b), is_stable_sort(strict_input(inp), t)]
        is_stable_sort(binned_input(inp), b) && is_stable_sort(strict_input(inp), t) && out
            == values_of(b) + values_of(t);
    lemma_binned_input_entries(inp);
    lemma_strict_input_entries(inp);
    let pb = choose|p: Seq<int>| #[trigger] stable_sort_witness(binned_input(inp), b, p);
    let pt = choose|p: Seq<int>| #[trigger] stable_sort_witness(strict_input(inp), t, p);
    if j >= b.len() {
        assert(out[j] == t[j - b.len()].1);
        assert(t[j - b.len()] == strict_input(inp)[pt[j - b.len()]]);
        assert(false);
    }
    assert(out[i] == b[i].1 && out[j] == b[j].1);
    assert(b[i] == binned_input(inp)[pb[i]]);
    assert(b[j] == binned_input(inp)[pb[j]]);
    let x = out[i];
    let y = out[j];
    let c0 = draw_bin_code(x);
    let d0 = draw_bin_code(y);
    assert(b[i].0 == c0 && b[j].0 == d0);
    assert(lex_lt(c0, d0) || c0 == d0);
    let c1 = c0.drop_first();
    let d1 = d0.drop_first();
    let c2 = c1.drop_first();
    let d2 = d1.drop_first();
    let c3 = c2.drop_first();
    let d3 = d2.drop_first();
    assert(c0[0] == bool_code(x.is_overlay) && d0[0] == bool_code(y.is_overlay));
    assert(c1[0] == flatten_rank(draw_phase(x)) as i128 && d1[0] == flatten_rank(draw_phase(y)) as i128);
    assert(c2[0] == x.batch_key.render_queue as i128 && d2[0] == y.batch_key.render_queue as i128);
    assert(c3[0] == x.batch_key_hash as i128 && d3[0] == y.batch_key_hash as i128);
    lemma_lex_le_head(c0, d0);
    if c0[0] == d0[0] {
        lemma_lex_le_head(c1, d1);
        if c1[0] == d1[0] {
            lemma_lex_le_head(c2, d2);
            if c2[0] == d2[0] {
                lemma_lex_le_head(c3, d3);
            }
        }
    }
}

/// In an arrangement, the strictly ordered tail runs back to front: a tail draw is never nearer
/// to the camera than a tail draw after it.
pub proof fn lemma_tail_back_to_front(
    inp: Seq<WorldMeshDrawItem>,
    out: Seq<WorldMeshDrawItem>,
    i: int,
    j: int,
)
    requires
        is_phase_binned_arrangement(inp, out),
        0 <= i < j < out.len(),
        is_strict_draw(out[i]),
    ensures
        is_strict_draw(out[j]),
        out[i].camera_distance_sq_bits >= out[j].camera_distance_sq_bits,
{
    lemma_transparent_tail_last(inp, out, i, j);
    let (b, t) = choose|b: Seq<(Seq<i128>, WorldMeshDrawItem)>, t: Seq<(Seq<i128>, WorldMeshDrawItem)>|
        #![trigger is_stable_sort(binned_input(inp), b), is_stable_sort(strict_input(inp), t)]
        is_stable_sort(binned_input(inp), b) && is_stable_sort(strict_input(inp), t) && out
            == values_of(b) + values_of(t);
    lemma_binned_input_entries(inp);
    lemma_strict_input_entries(inp);
    lemma_strict_input_codes(inp);
    let pb = choose|p: Seq<int>| #[trigger] stable_sort_witness(binned_input(inp), b, p);
    let pt = choose|p: Seq<int>| #[trigger] stable_sort_witness(strict_input(inp), t, p);
    if i < b.len() {
        assert(out[i] == b[i].1);
        assert(b[i] == binned_input(inp)[pb[i]]);
        assert(false);
    }
    let ti = i - b.len();
    let tj = j - b.len();
    assert(out[i] == t[ti].1 && out[j] == t[tj].1);
    assert(t[ti] == strict_input(inp)[pt[ti]]);
    assert(t[tj] == strict_input(inp)[pt[tj]]);
    let c = tail_code(out[i]);
    let d = tail_code(out[j]);
    assert(t[ti].0 == c && t[tj].0 == d);
    assert(lex_lt(c, d) || c == d);
    lemma_lex_le_head(c, d);
}

/// Every tail entry is keyed by its tail code.
proof fn lemma_strict_input_codes(s: Seq<WorldMeshDrawItem>)
    ensures
        forall|k: int|
            0 <= k < strict_input(s).len() ==> (#[trigger] strict_input(s)[k]).0 == tail_code(
                strict_input(s)[k].1,
            ),
    decreases s.len(),
{
    if s.len() > 0 {
        let prev = strict_input(s.drop_last());
        lemma_strict_input_codes(s.drop_last());
        assert forall|k: int| 0 <= k < strict_input(s).len() implies (
        #[trigger] strict_input(s)[k]).0 == tail_code(strict_input(s)[k].1) by {
            if k < prev.len() {
                assert(strict_input(s)[k] == prev[k]);
            }
        }
    }
}

/// Two bin keys agree in every compared field (pipelines by their views).
pub open spec fn same_bin_key(a: NonTransparentBinKey, b: NonTransparentBinKey) -> bool {
    &&& a.is_overlay == b.is_overlay
    &&& a.phase == b.phase
    &&& a.render_queue == b.render_queue
    &&& a.batch_key_hash == b.batch_key_hash
    &&& a.batch_key.pipeline@ == b.batch_key.pipeline@
    &&& a.batch_key.shader_asset_id == b.batch_key.shader_asset_id
    &&& a.batch_key.material_asset_id == b.batch_key.material_asset_id
    &&& a.batch_key.render_queue == b.batch_key.render_queue
    &&& a.batch_key.alpha_blended == b.batch_key.alpha_blended
    &&& a.batch_key.depth_write == b.batch_key.depth_write
    &&& a.batch_key.embedded_requires_intersection_pass
        == b.batch_key.embedded_requires_intersection_pass
    &&& a.batch_key.embedded_uses_scene_color_snapshot
        == b.batch_key.embedded_uses_scene_color_snapshot
    &&& a.mesh_asset_id == b.mesh_asset_id
    &&& a.first_index == b.first_index
    &&& a.index_count == b.index_count
}

/// Equal pipeline codes come from the same pipeline family and stem.
proof fn lemma_pipeline_code_injective(a: RasterPipelineKind, b: RasterPipelineKind)
    requires
        pipeline_code(a) == pipeline_code(b),
    ensures
        a@ == b@,
{
    let ca = pipeline_code(a);
    let cb = pipeline_code(b);
    assert(ca[0] == cb[0]);
    match (a@, b@) {
        (Some(sa), Some(sb)) => {
            let ba = encode_utf8(sa);
            let bb = encode_utf8(sb);
            let ma = ba.map_values(|x: u8| (x + 1) as i128);
            let mb = bb.map_values(|x: u8| (x + 1) as i128);
            assert(ca =~= seq![0i128] + ma + seq![0i128]);
            assert(cb =~= seq![0i128] + mb + seq![0i128]);
            assert(ma.len() == mb.len());
            assert forall|i: int| 0 <= i < ba.len() implies ba[i] == bb[i] by {
                assert(ca[i + 1] == ma[i]);
                assert(cb[i + 1] == mb[i]);
            }
            assert(ba =~= bb);
            vstd::utf8::encode_utf8_decode_utf8(sa);
            vstd::utf8::encode_utf8_decode_utf8(sb);
        },
        (Some(sa), None) => {
            assert(ca[0] == 0i128);
            assert(cb[0] == 1i128);
        },
        (None, Some(sb)) => {
            assert(ca[0] == 1i128);
            assert(cb[0] == 0i128);
        },
        (None, None) => {},
    }
}

/// Two bin keys have the same order code exactly when they agree in every compared field, so
/// [`cmp_nontransparent_bin_keys`] answers `Equal` exactly for keys of one bin.
pub proof fn lemma_bin_key_code_injective(a: NonTransparentBinKey, b: NonTransparentBinKey)
    ensures
        bin_key_code(a) == bin_key_code(b) <==> same_bin_key(a, b),
{
    if same_bin_key(a, b) {
        assert(pipeline_code(a.batch_key.pipeline) == pipeline_code(b.batch_key.pipeline));
        assert(bin_key_code(a) =~= bin_key_code(b));
    }
    if bin_key_code(a) == bin_key_code(b) {
        let ca = bin_key_code(a);
        let cb = bin_key_code(b);
        let pa = pipeline_code(a.batch_key.pipeline);
        let pb = pipeline_code(b.batch_key.pipeline);
        assert(ca.len() == 4 + pa.len() + 10);
        assert(cb.len() == 4 + pb.len() + 10);
        assert(pa.len() == pb.len());
        assert(ca[0] == cb[0] && ca[1] == cb[1] && ca[2] == cb[2] && ca[3] == cb[3]);
        assert(pa =~= ca.subrange(4, 4 + pa.len() as int));
        assert(pb =~= cb.subrange(4, 4 + pb.len() as int));
        lemma_pipeline_code_injective(a.batch_key.pipeline, b.batch_key.pipeline);
        let n: int = 4 + pa.len() as int;
        assert(ca[n] == a.batch_key.shader_asset_id as i128);
        assert(ca[n + 1] == a.batch_key.material_asset_id as i128);
        assert(ca[n + 2] == a.batch_key.render_queue as i128);
        assert(ca[n + 3] == bool_code(a.batch_key.alpha_blended));
        assert(ca[n + 4] == opt_bool_code(a.batch_key.depth_write));
        assert(ca[n + 5] == bool_code(a.batch_key.embedded_requires_intersection_pass));
        assert(ca[n + 6] == bool_code(a.batch_key.embedded_uses_scene_color_snapshot));
        assert(ca[n + 7] == a.mesh_asset_id as i128);
        assert(ca[n + 8] == a.first_index as i128);
        assert(ca[n + 9] == a.index_count as i128);
        assert(cb[n] == b.batch_key.shader_asset_id as i128);
        assert(cb[n + 1] == b.batch_key.material_asset_id as i128);
        assert(cb[n + 2] == b.batch_key.render_queue as i128);
        assert(cb[n + 3] == bool_code(b.batch_key.alpha_blended));
        assert(cb[n + 4] == opt_bool_code(b.batch_key.depth_write));
        assert(cb[n + 5] == bool_code(b.batch_key.embedded_requires_intersection_pass));
        assert(cb[n + 6] == bool_code(b.batch_key.embedded_uses_scene_color_snapshot));
        assert(cb[n + 7] == b.mesh_asset_id as i128);
        assert(cb[n + 8] == b.first_index as i128);
        assert(cb[n + 9] == b.index_count as i128);
    }
}

/// The bin order is a strict total order on bins: exactly one of "before", "same bin" and
/// "after" holds, comparing the other way round gives the reverse answer, and main-layer bins
/// sort before overlay bins.
pub proof fn lemma_bin_key_order(a: NonTransparentBinKey, b: NonTransparentBinKey)
    ensures
        lex_lt(bin_key_code(a), bin_key_code(b)) ==> !lex_lt(bin_key_code(b), bin_key_code(a))
            && !same_bin_key(a, b),
        lex_lt(bin_key_code(a), bin_key_code(b)) || lex_lt(bin_key_code(b), bin_key_code(a))
            || same_bin_key(a, b),
        same_bin_key(a, b) ==> !lex_lt(bin_key_code(a), bin_key_code(b)),
        !a.is_overlay && b.is_overlay ==> lex_lt(bin_key_code(a), bin_key_code(b)),
{
    lemma_bin_key_code_injective(a, b);
    lemma_lex_lt_order(bin_key_code(a), bin_key_code(b), bin_key_code(a));
    lemma_lex_lt_order(bin_key_code(b), bin_key_code(a), bin_key_code(b));
    if !a.is_overlay && b.is_overlay {
        assert(bin_key_code(a)[0] == 0i128 && bin_key_code(b)[0] == 1i128);
    }
}

} // verus!
