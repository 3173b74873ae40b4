use renderide::arrange::{
    arrange_draws_by_phase_bins, cmp_nontransparent_bin_keys, phase_flatten_rank,
    phase_requires_strict_order, KeyOrder, NonTransparentBinKey, WorldMeshDrawItem,
};
use renderide::pipeline_kind::RasterPipelineKind;
use renderide::world_mesh::{
    classify_world_mesh_batch, phase_for_window, regular_window_records_after_skybox,
    render_queue_is_transparent, MaterialDrawBatchKey, WorldMeshPhase,
    UNITY_RENDER_QUEUE_ALPHA_TEST, UNITY_RENDER_QUEUE_TRANSPARENT,
};

/// Geometry render queue used by fixture draws.
const GEOMETRY_QUEUE: i32 = 2000;

fn key(alpha_blended: bool) -> MaterialDrawBatchKey {
    MaterialDrawBatchKey {
        pipeline: RasterPipelineKind::Null,
        shader_asset_id: 0,
        material_asset_id: 1,
        render_queue: if alpha_blended {
            UNITY_RENDER_QUEUE_TRANSPARENT
        } else {
            GEOMETRY_QUEUE
        },
        alpha_blended,
        depth_write: None,
        embedded_requires_intersection_pass: false,
        embedded_uses_scene_color_snapshot: false,
    }
}

fn draw(mesh: i32, material: i32, collect_order: usize, alpha_blended: bool) -> WorldMeshDrawItem {
    let mut batch_key = key(alpha_blended);
    batch_key.material_asset_id = material;
    WorldMeshDrawItem {
        batch_key,
        batch_key_hash: material as u64,
        is_overlay: false,
        mesh_asset_id: mesh,
        first_index: 0,
        index_count: 36,
        node_id: collect_order as i32,
        collect_order,
        camera_distance_sq_bits: 0.0f32.to_bits(),
    }
}

/// Builds an opaque draw item.
fn opaque(mesh: i32, material: i32, collect_order: usize) -> WorldMeshDrawItem {
    draw(mesh, material, collect_order, false)
}

fn set_camera_distance(item: &mut WorldMeshDrawItem, distance_sq: f32) {
    item.camera_distance_sq_bits = distance_sq.to_bits();
}

fn clone_item(item: &WorldMeshDrawItem) -> WorldMeshDrawItem {
    WorldMeshDrawItem {
        batch_key: item.batch_key.clone(),
        batch_key_hash: item.batch_key_hash,
        is_overlay: item.is_overlay,
        mesh_asset_id: item.mesh_asset_id,
        first_index: item.first_index,
        index_count: item.index_count,
        node_id: item.node_id,
        collect_order: item.collect_order,
        camera_distance_sq_bits: item.camera_distance_sq_bits,
    }
}

#[test]
fn classifies_regular_opaque_and_alpha_test_phases() {
    let opaque = key(false);
    assert_eq!(
        classify_world_mesh_batch(&opaque).phase,
        WorldMeshPhase::ForwardOpaque
    );

    let mut alpha_test = key(false);
    alpha_test.render_queue = UNITY_RENDER_QUEUE_ALPHA_TEST;
    assert_eq!(
        classify_world_mesh_batch(&alpha_test).phase,
        WorldMeshPhase::ForwardAlphaTest
    );
}

#[test]
fn classifies_special_tail_and_snapshot_phases() {
    let mut transparent = key(false);
    transparent.render_queue = UNITY_RENDER_QUEUE_TRANSPARENT;
    assert_eq!(
        classify_world_mesh_batch(&transparent).phase,
        WorldMeshPhase::Transparent
    );

    let mut grab = key(false);
    grab.embedded_uses_scene_color_snapshot = true;
    assert_eq!(
        classify_world_mesh_batch(&grab).phase,
        WorldMeshPhase::TransparentGrab
    );

    let mut intersect = key(false);
    intersect.embedded_requires_intersection_pass = true;
    assert_eq!(
        classify_world_mesh_batch(&intersect).phase,
        WorldMeshPhase::Intersection
    );
}

#[test]
fn depth_write_off_records_after_skybox() {
    let mut k = key(false);
    k.depth_write = Some(false);
    assert!(regular_window_records_after_skybox(&k));
    let c = classify_world_mesh_batch(&k);
    assert_eq!(c.phase, WorldMeshPhase::Transparent);
    assert!(c.post_skybox);
    assert!(!c.grab_pass);
    k.depth_write = Some(true);
    assert!(!regular_window_records_after_skybox(&k));
}

#[test]
fn transparent_queue_boundary() {
    assert!(!render_queue_is_transparent(2500));
    assert!(render_queue_is_transparent(2501));
    assert!(render_queue_is_transparent(UNITY_RENDER_QUEUE_TRANSPARENT));
    assert!(!render_queue_is_transparent(UNITY_RENDER_QUEUE_ALPHA_TEST));
}

#[test]
fn phase_for_window_prefers_intersection_then_grab() {
    let k = key(false);
    assert_eq!(phase_for_window(&k, true, true, true), WorldMeshPhase::Intersection);
    assert_eq!(phase_for_window(&k, false, true, true), WorldMeshPhase::TransparentGrab);
    assert_eq!(phase_for_window(&k, false, false, true), WorldMeshPhase::Transparent);
    assert_eq!(phase_for_window(&k, false, false, false), WorldMeshPhase::ForwardOpaque);
}

#[test]
fn opaque_bins_keep_same_material_contiguous_without_full_item_sort() {
    let mut repeated_mesh = opaque(10, 1, 0);
    repeated_mesh.node_id = 100;
    let mut draws = vec![
        repeated_mesh,
        opaque(20, 2, 1),
        opaque(11, 1, 2),
        opaque(10, 1, 3),
    ];

    let stats = arrange_draws_by_phase_bins(&mut draws);

    assert_eq!(stats.nontransparent_binned_draws, 4);
    assert_eq!(stats.strict_sorted_draws, 0);
    let material_runs: Vec<_> = draws
        .iter()
        .map(|draw| draw.batch_key.material_asset_id)
        .fold(Vec::<i32>::new(), |mut runs, material| {
            if runs.last().copied() != Some(material) {
                runs.push(material);
            }
            runs
        });
    assert_eq!(material_runs.len(), 2);
    let material_one: Vec<_> = draws
        .iter()
        .filter(|draw| draw.batch_key.material_asset_id == 1)
        .map(|draw| draw.mesh_asset_id)
        .collect();
    assert_eq!(material_one, vec![10, 10, 11]);
}

#[test]
fn alpha_test_and_intersection_bins_flatten_before_transparent_tail() {
    let mut alpha_test = opaque(1, 1, 0);
    alpha_test.batch_key.render_queue = UNITY_RENDER_QUEUE_ALPHA_TEST;
    let mut intersect = opaque(1, 2, 1);
    intersect.batch_key.embedded_requires_intersection_pass = true;
    let mut transparent = opaque(1, 3, 2);
    transparent.batch_key.render_queue = UNITY_RENDER_QUEUE_TRANSPARENT;

    let mut draws = vec![transparent, intersect, alpha_test];
    let stats = arrange_draws_by_phase_bins(&mut draws);

    assert_eq!(stats.nontransparent_binned_draws, 2);
    assert_eq!(stats.strict_sorted_draws, 1);
    assert_eq!(
        draws[0].batch_key.render_queue,
        UNITY_RENDER_QUEUE_ALPHA_TEST
    );
    assert!(draws[1].batch_key.embedded_requires_intersection_pass);
    assert!(render_queue_is_transparent(draws[2].batch_key.render_queue));
}

#[test]
fn transparent_tail_keeps_back_to_front_order() {
    let mut near = draw(1, 1, 0, true);
    near.node_id = 1;
    set_camera_distance(&mut near, 1.0);
    let mut far = clone_item(&near);
    far.node_id = 2;
    far.collect_order = 1;
    set_camera_distance(&mut far, 64.0);

    let mut draws = vec![near, far];
    arrange_draws_by_phase_bins(&mut draws);

    assert_eq!(draws[0].node_id, 2);
    assert_eq!(draws[1].node_id, 1);
}

#[test]
fn grab_and_regular_transparent_share_one_strict_tail_order() {
    let mut grab = draw(1, 1, 0, true);
    grab.node_id = 1;
    grab.batch_key.embedded_uses_scene_color_snapshot = true;
    set_camera_distance(&mut grab, 100.0);
    let mut regular = clone_item(&grab);
    regular.node_id = 2;
    regular.collect_order = 1;
    regular.batch_key.embedded_uses_scene_color_snapshot = false;
    set_camera_distance(&mut regular, 4.0);

    let mut draws = vec![regular, grab];
    arrange_draws_by_phase_bins(&mut draws);

    assert!(draws[0].batch_key.embedded_uses_scene_color_snapshot);
    assert!(!draws[1].batch_key.embedded_uses_scene_color_snapshot);
}

#[test]
fn empty_draw_list_reports_no_bins() {
    let mut draws: Vec<WorldMeshDrawItem> = Vec::new();
    let stats = arrange_draws_by_phase_bins(&mut draws);
    assert!(draws.is_empty());
    assert_eq!(stats.nontransparent_bins, 0);
    assert_eq!(stats.nontransparent_binned_draws, 0);
    assert_eq!(stats.strict_sorted_draws, 0);
}

#[test]
fn bins_count_distinct_mesh_material_pairs_and_keep_collection_order() {
    let mut draws = vec![
        opaque(10, 1, 0),
        opaque(10, 1, 1),
        opaque(11, 1, 2),
        opaque(10, 2, 3),
        opaque(10, 1, 4),
    ];
    let stats = arrange_draws_by_phase_bins(&mut draws);
    assert_eq!(stats.nontransparent_bins, 3);
    let order: Vec<usize> = draws.iter().map(|d| d.collect_order).collect();
    assert_eq!(order, vec![0, 1, 4, 2, 3]);
}

#[test]
fn overlay_draws_flatten_after_main_layer() {
    let mut overlay = opaque(1, 1, 0);
    overlay.is_overlay = true;
    let main = opaque(2, 9, 1);
    let mut draws = vec![overlay, main];
    arrange_draws_by_phase_bins(&mut draws);
    assert!(!draws[0].is_overlay);
    assert!(draws[1].is_overlay);
}

#[test]
fn equal_distance_tail_keeps_collection_order() {
    let mut a = draw(1, 1, 0, true);
    set_camera_distance(&mut a, 9.0);
    let mut b = draw(2, 1, 1, true);
    set_camera_distance(&mut b, 9.0);
    let mut draws = vec![a, b];
    arrange_draws_by_phase_bins(&mut draws);
    assert_eq!(draws[0].collect_order, 0);
    assert_eq!(draws[1].collect_order, 1);
}

#[test]
fn strict_phases_and_flatten_ranks() {
    assert!(phase_requires_strict_order(WorldMeshPhase::Transparent));
    assert!(phase_requires_strict_order(WorldMeshPhase::TransparentGrab));
    assert!(!phase_requires_strict_order(WorldMeshPhase::ForwardOpaque));
    assert!(!phase_requires_strict_order(WorldMeshPhase::Intersection));
    assert_eq!(phase_flatten_rank(WorldMeshPhase::ForwardOpaque), 0);
    assert_eq!(phase_flatten_rank(WorldMeshPhase::ForwardAlphaTest), 1);
    assert_eq!(phase_flatten_rank(WorldMeshPhase::Intersection), 2);
    assert_eq!(phase_flatten_rank(WorldMeshPhase::ViewNormals), 6);
}

#[test]
fn bin_keys_compare_by_pass_order_then_material() {
    let a = opaque(1, 1, 0);
    let b = opaque(1, 2, 1);
    let ka = NonTransparentBinKey::from_draw(&a, WorldMeshPhase::ForwardOpaque);
    let kb = NonTransparentBinKey::from_draw(&b, WorldMeshPhase::ForwardOpaque);
    let ka_alpha = NonTransparentBinKey::from_draw(&b, WorldMeshPhase::ForwardAlphaTest);
    assert_eq!(cmp_nontransparent_bin_keys(&ka, &kb), KeyOrder::Less);
    assert_eq!(cmp_nontransparent_bin_keys(&kb, &ka), KeyOrder::Greater);
    assert_eq!(cmp_nontransparent_bin_keys(&ka, &ka), KeyOrder::Equal);
    assert_eq!(cmp_nontransparent_bin_keys(&ka_alpha, &ka), KeyOrder::Greater);
}

#[test]
fn bin_keys_order_embedded_stems_bytewise_before_null() {
    let mut a = opaque(1, 1, 0);
    a.batch_key.pipeline = RasterPipelineKind::EmbeddedStem("ab".to_string());
    let mut b = opaque(1, 1, 1);
    b.batch_key.pipeline = RasterPipelineKind::EmbeddedStem("abc".to_string());
    let c = opaque(1, 1, 2);
    let ka = NonTransparentBinKey::from_draw(&a, WorldMeshPhase::ForwardOpaque);
    let kb = NonTransparentBinKey::from_draw(&b, WorldMeshPhase::ForwardOpaque);
    let kc = NonTransparentBinKey::from_draw(&c, WorldMeshPhase::ForwardOpaque);
    assert_eq!(cmp_nontransparent_bin_keys(&ka, &kb), KeyOrder::Less);
    assert_eq!(cmp_nontransparent_bin_keys(&kb, &kc), KeyOrder::Less);
}
