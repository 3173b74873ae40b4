use renderide::arrange::WorldMeshDrawItem;
use renderide::material_batch::{
    collect_material_batch_boundaries_into, embedded_bind_outcome, packet_front_face,
    packet_pipelines, pipeline_kind_for_material_packet, plan_embedded_bind_group,
    EmbeddedBindRequest, RasterFrontFace,
};
use renderide::pipeline_kind::RasterPipelineKind;
use renderide::registry::MaterialRegistry;
use renderide::world_mesh::MaterialDrawBatchKey;

/// Builds an embedded pipeline kind for packet-selection tests.
fn embedded_pipeline(stem: &'static str) -> RasterPipelineKind {
    RasterPipelineKind::EmbeddedStem(stem.to_string())
}

/// Embedded packets keep their embedded pipeline only when group 1 was resolved.
#[test]
fn material_packet_keeps_embedded_pipeline_with_resolved_bind_group() {
    let pipeline = embedded_pipeline("xstoon2.0_default");

    assert_eq!(
        pipeline_kind_for_material_packet(&pipeline, true),
        embedded_pipeline("xstoon2.0_default")
    );
}

/// Embedded packets use the null pipeline when group 1 cannot match the embedded layout.
#[test]
fn material_packet_falls_back_to_null_when_embedded_bind_group_is_missing() {
    let pipeline = embedded_pipeline("xstoon2.0_default");

    assert_eq!(
        pipeline_kind_for_material_packet(&pipeline, false),
        RasterPipelineKind::Null
    );
}

/// Null packets can safely keep using the empty material bind group.
#[test]
fn material_packet_keeps_null_pipeline_with_empty_material_group() {
    assert_eq!(
        pipeline_kind_for_material_packet(&RasterPipelineKind::Null, false),
        RasterPipelineKind::Null
    );
}

/// Packet selection honors the draw batch snapshot instead of a later router route.
#[test]
fn material_packet_uses_draw_batch_pipeline_snapshot() {
    let current_router_route = embedded_pipeline("xstoon2.0_default");
    let stale_draw_batch_pipeline = RasterPipelineKind::Null;

    assert_eq!(
        pipeline_kind_for_material_packet(&stale_draw_batch_pipeline, true),
        RasterPipelineKind::Null
    );
    assert_ne!(stale_draw_batch_pipeline, current_router_route);
}

fn batch_key(material: i32, pipeline: RasterPipelineKind) -> MaterialDrawBatchKey {
    MaterialDrawBatchKey {
        pipeline,
        shader_asset_id: 9,
        material_asset_id: material,
        render_queue: 2000,
        alpha_blended: false,
        depth_write: None,
        embedded_requires_intersection_pass: false,
        embedded_uses_scene_color_snapshot: false,
    }
}

fn item(material: i32) -> WorldMeshDrawItem {
    WorldMeshDrawItem {
        batch_key: batch_key(material, RasterPipelineKind::Null),
        batch_key_hash: 0,
        is_overlay: false,
        mesh_asset_id: 1,
        first_index: 0,
        index_count: 3,
        node_id: 0,
        collect_order: 0,
        camera_distance_sq_bits: 0,
    }
}

#[test]
fn boundaries_cover_runs_of_equal_keys() {
    let draws = vec![item(1), item(1), item(2), item(1), item(1), item(1)];
    let mut out = vec![(99, 99)];
    collect_material_batch_boundaries_into(&draws, &mut out);
    assert_eq!(out, vec![(0, 1), (2, 2), (3, 5)]);
    let single = vec![item(4)];
    collect_material_batch_boundaries_into(&single, &mut out);
    assert_eq!(out, vec![(0, 0)]);
}

#[test]
fn offscreen_views_flip_front_face() {
    assert_eq!(
        packet_front_face(RasterFrontFace::CounterClockwise, Some(5)),
        RasterFrontFace::Clockwise
    );
    assert_eq!(
        packet_front_face(RasterFrontFace::CounterClockwise, None),
        RasterFrontFace::CounterClockwise
    );
    assert_eq!(RasterFrontFace::Clockwise.flipped().flipped(), RasterFrontFace::Clockwise);
}

#[test]
fn embedded_bind_plan_reads_registry_variant_bits() {
    let mut reg = MaterialRegistry::with_default_families();
    reg.map_shader_route(9, embedded_pipeline("toon_default"), None, Some(6));
    let key = batch_key(1, embedded_pipeline("toon_default"));
    match plan_embedded_bind_group(&key, true, Some(&reg)) {
        EmbeddedBindRequest::Lookup { stem, shader_variant_bits } => {
            assert_eq!(stem, "toon_default");
            assert_eq!(shader_variant_bits, Some(6));
        }
        other => panic!("unexpected plan {other:?}"),
    }
    assert!(matches!(
        plan_embedded_bind_group(&key, false, Some(&reg)),
        EmbeddedBindRequest::ResourcesUnavailable
    ));
    assert!(matches!(
        plan_embedded_bind_group(&batch_key(1, RasterPipelineKind::Null), true, None),
        EmbeddedBindRequest::NotEmbedded
    ));
    match plan_embedded_bind_group(&key, true, None) {
        EmbeddedBindRequest::Lookup { shader_variant_bits, .. } => {
            assert_eq!(shader_variant_bits, None)
        }
        other => panic!("unexpected plan {other:?}"),
    }
}

#[test]
fn bind_outcome_and_pipeline_selection() {
    assert_eq!(embedded_bind_outcome::<u8, ()>(Ok((7, Some(256)))), (Some(7), Some(256)));
    assert_eq!(embedded_bind_outcome::<u8, &str>(Err("layout mismatch")), (None, None));
    assert_eq!(packet_pipelines(Some(3), false), Some(3));
    assert_eq!(packet_pipelines(Some(3), true), None);
    assert_eq!(packet_pipelines::<u8>(None, false), None);
}
