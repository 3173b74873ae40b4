use renderide::frame_gpu::{
    check_lights_storage_size, lights_upload_count, FrameBindVersions, FrameGpuInitError,
};
use renderide::ibl_slots::{all_pipeline_slots, CubeFace, PipelineSlot, PipelineStore, SkyboxIblBakeError};
use renderide::post_chain::{build_default_post_processing_chain, MotionBlurPipelineKind, PostProcessEffect};
use renderide::vr_mirror::{StagingPlan, VrMirrorStaging};

#[test]
fn lights_storage_must_fit_both_limits() {
    assert_eq!(check_lights_storage_size(1024, 1024, 4096), Ok(()));
    assert_eq!(
        check_lights_storage_size(2048, 1024, 4096),
        Err(FrameGpuInitError::LightsStorageExceedsLimits { size: 2048 })
    );
    assert_eq!(
        check_lights_storage_size(2048, 4096, 1024),
        Err(FrameGpuInitError::LightsStorageExceedsLimits { size: 2048 })
    );
}

#[test]
fn cluster_sync_rebuilds_once_per_version() {
    let mut v = FrameBindVersions::new(3);
    assert_eq!(v.sync_cluster_viewport(false, 9, true), None);
    assert_eq!(v.cluster_bind_version, 3);
    assert_eq!(v.sync_cluster_viewport(true, 3, true), Some(false));
    assert_eq!(v.sync_cluster_viewport(true, 4, true), Some(true));
    assert_eq!(v.sync_cluster_viewport(true, 4, true), Some(false));
    assert_eq!(v.cluster_bind_version, 4);
}

#[test]
fn cluster_sync_without_buffers_retries_later() {
    let mut v = FrameBindVersions::new(3);
    assert_eq!(v.sync_cluster_viewport(true, 5, false), Some(false));
    assert_eq!(v.cluster_bind_version, 3);
    assert_eq!(v.sync_cluster_viewport(true, 5, true), Some(true));
    assert_eq!(v.cluster_bind_version, 5);
}

#[test]
fn probe_sync_rebuilds_on_new_version() {
    let mut v = FrameBindVersions::new(0);
    assert_eq!(v.skybox_specular_version(), 0);
    assert!(!v.sync_reflection_probe_specular_resources(None));
    assert!(!v.sync_reflection_probe_specular_resources(Some(0)));
    assert!(v.sync_reflection_probe_specular_resources(Some(2)));
    assert!(!v.sync_reflection_probe_specular_resources(Some(2)));
    assert_eq!(v.skybox_specular_version(), 2);
}

#[test]
fn lights_upload_is_capped() {
    assert_eq!(lights_upload_count(3, 8), 3);
    assert_eq!(lights_upload_count(20, 8), 8);
    assert_eq!(lights_upload_count(0, 8), 0);
}

#[test]
fn default_chain_order() {
    // Settings snapshots, texture handles and state caches stand in as plain values.
    let chain = build_default_post_processing_chain("gtao", "bloom", 1u32, 2u32, true, 'a', 'm', Some(3u32));
    assert_eq!(
        chain,
        vec![
            PostProcessEffect::Gtao {
                settings: "gtao",
                depth: 1,
                view_normals: 3,
                frame_uniforms: 2,
                multiview_stereo: true,
            },
            PostProcessEffect::AutoExposure { state_cache: 'a' },
            PostProcessEffect::Bloom { settings: "bloom" },
            PostProcessEffect::MotionBlur { depth: 1, state_cache: 'm' },
            PostProcessEffect::AcesTonemap,
            PostProcessEffect::AgxTonemap,
        ]
    );
    let without = build_default_post_processing_chain("gtao", "bloom", 1u32, 2u32, false, 'a', 'm', None);
    assert_eq!(without.len(), 5);
    assert_eq!(without[0], PostProcessEffect::AutoExposure { state_cache: 'a' });
}

#[test]
fn motion_blur_entry_points() {
    assert_eq!(MotionBlurPipelineKind::MotionVectors.entry_point(), "fs_motion_vectors");
    assert_eq!(MotionBlurPipelineKind::BlurResolve.entry_point(), "fs_motion_blur");
}

#[test]
fn cube_faces_round_trip_through_layers() {
    for i in 0..6u32 {
        assert_eq!(CubeFace::from_index(i).index(), i);
    }
    assert_eq!(CubeFace::from_index(0), CubeFace::PosX);
    assert_eq!(CubeFace::from_index(5), CubeFace::NegZ);
    assert_eq!(CubeFace::from_index(17), CubeFace::NegZ);
    assert_eq!(CubeFace::PosY.index(), 2);
}

#[test]
fn pipeline_store_reports_missing_stems() {
    let mut store: PipelineStore<u32> = PipelineStore::new();
    assert_eq!(
        store.get(PipelineSlot::Convolve),
        Err(SkyboxIblBakeError::MissingShader("skybox_ibl_convolve_params"))
    );
    store.install(PipelineSlot::Convolve, 7);
    assert_eq!(store.get(PipelineSlot::Convolve), Ok(&7));
    assert!(store.is_built(PipelineSlot::Convolve));
    assert!(!store.is_built(PipelineSlot::Stitch));
    assert_eq!(PipelineSlot::Analytic.shader_stem(), "skybox_bake_params");
    assert_eq!(all_pipeline_slots().len(), 5);
}

#[test]
fn vr_mirror_staging_is_created_clamped_and_kept() {
    let mut s = VrMirrorStaging::new();
    assert!(!s.staging_valid());
    assert_eq!(s.staging_extent(), (0, 0));
    assert_eq!(
        s.ensure_staging((0, 100), 8192),
        StagingPlan::Create { width: 1, height: 100, clamped: false }
    );
    assert_eq!(s.staging_extent(), (1, 100));
    assert_eq!(
        s.ensure_staging((10000, 20), 8192),
        StagingPlan::Create { width: 8192, height: 20, clamped: true }
    );
    assert_eq!(s.ensure_staging((8192, 20), 8192), StagingPlan::Keep);
    s.mark_staging_valid();
    assert!(s.staging_valid());
}
