use renderide::pipeline_kind::RasterPipelineKind;
use renderide::registry::{
    null_pipeline_fallback, try_pipeline_with_fallback, MaterialPipelineLookup, MaterialRegistry,
    PipelineLookupStep,
};
use renderide::router::{resolve_raster_pipeline, MaterialRouter};

/// Arbitrary embedded stem for router tests.
fn test_route_pipeline() -> RasterPipelineKind {
    RasterPipelineKind::EmbeddedStem("test_route_default".to_string())
}

#[test]
fn resolve_raster_pipeline_unknown_shader_uses_router_fallback() {
    let r = MaterialRouter::new(RasterPipelineKind::Null);
    assert_eq!(resolve_raster_pipeline(999, &r), RasterPipelineKind::Null);
}

#[test]
fn resolve_raster_pipeline_registered_shader_uses_route_pipeline() {
    let mut r = MaterialRouter::new(RasterPipelineKind::Null);
    let route = RasterPipelineKind::EmbeddedStem("test_embedded_default".to_string());
    r.set_shader_pipeline(7, route.clone());
    assert_eq!(resolve_raster_pipeline(7, &r), route);
}

#[test]
fn remove_shader_route_clears_entry() {
    let mut r = MaterialRouter::new(RasterPipelineKind::Null);
    r.set_shader_pipeline(7, test_route_pipeline());
    assert_eq!(r.get_shader_pipeline(7), Some(test_route_pipeline()));
    r.remove_shader_route(7);
    assert_eq!(r.get_shader_pipeline(7), None);
    assert_eq!(r.pipeline_for_shader_asset(7), RasterPipelineKind::Null);
}

#[test]
fn remove_shader_route_clears_stem() {
    let mut r = MaterialRouter::new(RasterPipelineKind::Null);
    r.set_shader_route(1, test_route_pipeline(), Some("x".to_string()), None);
    r.set_shader_stem(1, "null_default".to_string());
    assert_eq!(r.stem_for_shader_asset(1), Some("null_default"));
    r.remove_shader_route(1);
    assert_eq!(r.stem_for_shader_asset(1), None);
}

#[test]
fn set_shader_route_stores_shader_asset_name_for_hud() {
    let mut r = MaterialRouter::new(RasterPipelineKind::Null);
    r.set_shader_route(
        3,
        test_route_pipeline(),
        Some("ExampleShader".to_string()),
        Some(0x22),
    );
    assert_eq!(
        r.routes_sorted_for_hud(),
        vec![(
            3,
            test_route_pipeline(),
            Some("ExampleShader".to_string()),
            Some(0x22)
        )]
    );
    assert_eq!(r.get_shader_pipeline(3), Some(test_route_pipeline()));
    assert_eq!(r.variant_bits_for_shader_asset(3), Some(0x22));
}

#[test]
fn routes_sorted_for_hud_sorted_by_id() {
    let mut r = MaterialRouter::new(RasterPipelineKind::Null);
    r.set_shader_route(10, test_route_pipeline(), None, None);
    r.set_shader_route(2, test_route_pipeline(), Some("a".to_string()), Some(7));
    assert_eq!(
        r.routes_sorted_for_hud()
            .into_iter()
            .map(|(id, _, _, _)| id)
            .collect::<Vec<_>>(),
        vec![2, 10]
    );
}

#[test]
fn generation_bumps_on_mutations() {
    let mut r = MaterialRouter::new(RasterPipelineKind::Null);
    let g0 = r.generation();
    r.set_shader_pipeline(1, test_route_pipeline());
    let g1 = r.generation();
    assert_ne!(g0, g1);
    // Reads don't bump.
    let _ = r.pipeline_for_shader_asset(1);
    assert_eq!(r.generation(), g1);
    r.set_shader_stem(1, "foo_default".to_string());
    let g2 = r.generation();
    assert_ne!(g1, g2);
    r.remove_shader_route(1);
    let g3 = r.generation();
    assert_ne!(g2, g3);
    r.set_fallback(RasterPipelineKind::Null);
    assert_ne!(r.generation(), g3);
}

#[test]
fn remove_without_effect_does_not_bump() {
    let mut r = MaterialRouter::new(RasterPipelineKind::Null);
    r.set_shader_pipeline(1, test_route_pipeline());
    let g = r.generation();
    r.remove_shader_stem(999);
    r.remove_shader_route(999);
    assert_eq!(r.generation(), g);
}

#[test]
fn fallback_change_applies_to_unrouted_shaders_only() {
    let mut r = MaterialRouter::new(RasterPipelineKind::Null);
    r.set_shader_pipeline(5, test_route_pipeline());
    r.set_fallback(RasterPipelineKind::EmbeddedStem("fallback_default".to_string()));
    assert_eq!(
        r.pipeline_for_shader_asset(6),
        RasterPipelineKind::EmbeddedStem("fallback_default".to_string())
    );
    assert_eq!(r.pipeline_for_shader_asset(5), test_route_pipeline());
}

#[test]
fn dependency_bump_changes_generation() {
    let mut r = MaterialRouter::new(RasterPipelineKind::Null);
    let g = r.generation();
    r.bump_generation_for_shader_dependency();
    assert_ne!(r.generation(), g);
}

#[test]
fn registry_maps_and_unmaps_routes() {
    let mut reg = MaterialRegistry::with_default_families();
    reg.map_shader_route(4, test_route_pipeline(), Some("Toon".to_string()), Some(3));
    assert_eq!(reg.variant_bits_for_shader_asset(4), Some(3));
    assert_eq!(reg.stem_for_shader_asset(4), Some("test_route_default"));
    assert_eq!(
        reg.shader_routes_for_hud(),
        vec![(4, test_route_pipeline(), Some("Toon".to_string()), Some(3))]
    );
    reg.unmap_shader(4);
    assert_eq!(reg.variant_bits_for_shader_asset(4), None);
    assert!(reg.shader_routes_for_hud().is_empty());
    assert_eq!(reg.stem_for_shader_asset(4), None);
}

#[test]
fn ready_pipelines_resolve_under_requested_kind() {
    match try_pipeline_with_fallback(&test_route_pipeline(), MaterialPipelineLookup::Ready(5u32)) {
        PipelineLookupStep::Resolved(res) => {
            assert_eq!(res.kind, test_route_pipeline());
            assert_eq!(res.pipelines, 5);
        }
        _ => panic!("ready pipelines must resolve"),
    }
}

#[test]
fn pending_or_failed_routed_pipeline_falls_back_to_null() {
    assert!(matches!(
        try_pipeline_with_fallback::<u32>(&test_route_pipeline(), MaterialPipelineLookup::Pending),
        PipelineLookupStep::UseNullFallback
    ));
    assert!(matches!(
        try_pipeline_with_fallback::<u32>(
            &test_route_pipeline(),
            MaterialPipelineLookup::Failed("compile error".to_string())
        ),
        PipelineLookupStep::UseNullFallback
    ));
    assert!(matches!(
        try_pipeline_with_fallback::<u32>(&RasterPipelineKind::Null, MaterialPipelineLookup::Pending),
        PipelineLookupStep::Unavailable
    ));
}

#[test]
fn null_fallback_uses_ready_null_pipelines_only() {
    let res = null_pipeline_fallback(MaterialPipelineLookup::Ready(9u32)).expect("ready");
    assert_eq!(res.kind, RasterPipelineKind::Null);
    assert_eq!(res.pipelines, 9);
    assert!(null_pipeline_fallback::<u32>(MaterialPipelineLookup::Pending).is_none());
    assert!(null_pipeline_fallback::<u32>(MaterialPipelineLookup::Failed("x".to_string())).is_none());
}

#[test]
fn mapping_a_null_route_clears_the_stem() {
    let mut reg = MaterialRegistry::with_default_families();
    reg.map_shader_route(8, test_route_pipeline(), None, None);
    assert_eq!(reg.stem_for_shader_asset(8), Some("test_route_default"));
    reg.map_shader_route(8, RasterPipelineKind::Null, None, None);
    assert_eq!(reg.stem_for_shader_asset(8), None);
    assert_eq!(reg.stem_for_shader_asset(99), None);
}
