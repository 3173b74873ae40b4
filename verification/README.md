# renderide

Verified support logic of a VR-capable renderer, written in Verus.

- `src/` is the verified library. Each public function states in its contract what it returns
  or changes; laws that relate several calls are public proof functions. Modules:
  - `panic_log`, `text`, `memory_pack_error`, `settings`: panic/crash report text and the
    single-line log-directory footer, packer errors, experimental settings.
  - `pipeline_kind`, `router`, `registry`: shader routes, fallback pipeline, generation counter,
    pipeline lookup fallback.
  - `world_mesh`, `ordering`, `arrange`, `material_batch`: phase classification, stable
    phase-binned draw arrangement, material batch runs and per-batch choices.
  - `build_error`, `shader_names`, `shader_validation`, `module_model`, `shader_compose`: shader
    contract checks (entry points, vertex/fragment interfaces, material uniforms), the module
    interface derived from a plain model of a naga module, and shader job assembly.
  - `xr_frame_loop`: the OpenXR frame-wait state machine.
  - `frame_gpu`, `post_chain`, `ibl_slots`, `vr_mirror`, `render_scale`: small decision
    procedures of GPU frame resources, the post-processing chain, the IBL bake, the VR mirror
    and render-transform scale handling.
- `app/` is ordinary Rust around the library: serde/thiserror copies of library types, panic
  hooks and log files, copying naga modules into the library's model, the shader job driver,
  floating-point scene math, and drivers that perform the actions the library's state
  machines request.
- `tests/` exercises the library through its public API.
