//! Renderer support logic: panic and crash report text, material shader routing and pipeline
//! fallback, world-mesh phase classification and phase-binned draw arrangement, material batch
//! packets, shader contract checks and shader job assembly, the OpenXR frame-wait state
//! machine, and small decision procedures of the GPU frame resources, post-processing chain,
//! image-based-lighting bake and VR mirror.

pub mod text;
pub mod panic_log;
pub mod memory_pack_error;
pub mod settings;
pub mod pipeline_kind;
pub mod router;
pub mod registry;
pub mod world_mesh;
pub mod ordering;
pub mod arrange;
pub mod material_batch;
pub mod build_error;
pub mod shader_names;
pub mod shader_validation;
pub mod shader_compose;
pub mod module_model;
pub mod xr_frame_loop;
pub mod frame_gpu;
pub mod post_chain;
pub mod ibl_slots;
pub mod vr_mirror;
pub mod render_scale;
