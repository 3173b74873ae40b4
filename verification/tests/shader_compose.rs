use renderide::shader_compose::{
    assemble_targets, check_pass_directives_present, compile_shader_job, module_to_wgsl,
    flatten_outcome, str_contains, unwritable_module_error, validate_view_index_contract, variant_label_of,
    ComposedVariant, NagaFlattenFailure,
    ShaderValidationOptions, ShaderVariant,
};
use renderide::shader_validation::{
    BuildPassDirective, EntryPointInfo, GlobalVariableInfo, ModuleInterface, ShaderStage,
    StructInfo,
};

const SIMPLE_WGSL: &str = r#"
@vertex
fn vs_main(@builtin(vertex_index) i: u32) -> @builtin(position) vec4<f32> {
    return vec4<f32>(f32(i), 0.0, 0.0, 1.0);
}

@fragment
fn fs_main() -> @location(0) vec4<f32> {
    return vec4<f32>(1.0, 0.0, 0.0, 1.0);
}
"#;

fn interface() -> ModuleInterface {
    ModuleInterface {
        entry_points: vec![
            EntryPointInfo {
                stage: ShaderStage::Vertex,
                name: "vs_main".to_string(),
                inputs: vec![],
                outputs: vec![],
            },
            EntryPointInfo {
                stage: ShaderStage::Fragment,
                name: "fs_main".to_string(),
                inputs: vec![],
                outputs: vec![],
            },
        ],
        global_variables: vec![],
    }
}

fn composed() -> ComposedVariant {
    ComposedVariant {
        module: naga::front::wgsl::parse_str(SIMPLE_WGSL).expect("test WGSL parses"),
        interface: interface(),
    }
}

fn options(require_pass_directive: bool) -> ShaderValidationOptions {
    ShaderValidationOptions { require_pass_directive, validate_view_index: true }
}

#[test]
fn variant_names_and_stems() {
    assert_eq!(ShaderVariant::Default.label(), "default");
    assert_eq!(ShaderVariant::Multiview.label(), "multiview");
    assert_eq!(ShaderVariant::Default.target_stem("pbs"), "pbs_default");
    assert_eq!(ShaderVariant::Multiview.target_stem("pbs"), "pbs_multiview");
    assert!(ShaderVariant::Multiview.expects_view_index());
    assert!(!ShaderVariant::Default.expects_view_index());
    assert_eq!(variant_label_of("pbs", ShaderVariant::Multiview), "pbs (multiview)");
}

#[test]
fn substring_search() {
    assert!(str_contains("a @builtin(view_index) b", "@builtin(view_index)"));
    assert!(!str_contains("@builtin(view_idx)", "@builtin(view_index)"));
    assert!(str_contains("abc", ""));
    assert!(!str_contains("", "a"));
    assert!(str_contains("aab", "ab"));
}

#[test]
fn view_index_contract_per_variant() {
    assert!(validate_view_index_contract("s_default", "fn f() {}", ShaderVariant::Default).is_ok());
    let err = validate_view_index_contract("s_multiview", "fn f() {}", ShaderVariant::Multiview)
        .expect_err("multiview must read view_index");
    assert_eq!(
        err.to_string(),
        "s_multiview: expected @builtin(view_index) present in output (multiview shader_defs contract)"
    );
    let err = validate_view_index_contract(
        "s_default",
        "@builtin(view_index) v: u32",
        ShaderVariant::Default,
    )
    .expect_err("default must not read view_index");
    assert!(err.to_string().contains("absent"));
}

#[test]
fn identical_variants_share_one_target() {
    let targets = assemble_targets("s", "same".to_string(), "same".to_string(), true).expect("ok");
    assert_eq!(targets.len(), 1);
    assert_eq!(targets[0].target_stem, "s");
    assert_eq!(targets[0].wgsl, "same");
}

#[test]
fn distinct_variants_get_one_target_each() {
    let targets = assemble_targets(
        "s",
        "plain".to_string(),
        "uses @builtin(view_index)".to_string(),
        true,
    )
    .expect("ok");
    assert_eq!(targets.len(), 2);
    assert_eq!(targets[0].target_stem, "s_default");
    assert_eq!(targets[1].target_stem, "s_multiview");
    assert_eq!(targets[1].wgsl, "uses @builtin(view_index)");
    let err = assemble_targets("s", "a".to_string(), "b".to_string(), true).expect_err("contract");
    assert!(err.to_string().starts_with("s_multiview: "));
    assert!(assemble_targets("s", "a".to_string(), "b".to_string(), false).is_ok());
}

#[test]
fn pass_directive_requirement() {
    let err = check_pass_directives_present("mat.wgsl", options(true), &[]).expect_err("required");
    assert_eq!(
        err.to_string(),
        "mat.wgsl: material WGSL must declare at least one //#pass directive (e.g. //#pass forward)"
    );
    assert!(check_pass_directives_present("mat.wgsl", options(false), &[]).is_ok());
}

#[test]
fn module_to_wgsl_flattens_valid_module() {
    let module = naga::front::wgsl::parse_str(SIMPLE_WGSL).expect("parses");
    let wgsl = module_to_wgsl(&module, "s (default)").expect("valid");
    assert!(wgsl.contains("vs_main"));
    assert!(wgsl.contains("fs_main"));
}

#[test]
fn compile_job_emits_one_target_for_identical_variants() {
    let passes = vec![BuildPassDirective {
        name: "forward".to_string(),
        pass_type: "Forward".to_string(),
        vertex_entry: "vs_main".to_string(),
        fragment_entry: "fs_main".to_string(),
    }];
    let compiled = compile_shader_job(
        "mat.wgsl",
        "mat",
        options(true),
        3usize,
        "material",
        vec![("_MainTex", "white")],
        passes,
        Ok(composed()),
        Ok(composed()),
    )
    .expect("compiles");
    assert_eq!(compiled.pass_directives.len(), 1);
    assert_eq!(compiled.targets.len(), 1);
    assert_eq!(compiled.targets[0].target_stem, "mat");
    assert_eq!(compiled.compile_order, 3);
    assert_eq!(compiled.source_class, "material");
    assert_eq!(compiled.texture_defaults, vec![("_MainTex", "white")]);
    assert_eq!(
        compiled.targets[0].wgsl,
        module_to_wgsl(&composed().module, "mat (default)").expect("valid")
    );
}

#[test]
fn compile_job_reports_checks_in_order() {
    let err = compile_shader_job("mat.wgsl", "mat", options(true), 0usize, (), (), vec![], Ok(composed()), Ok(composed()))
        .expect_err("needs pass");
    assert!(err.to_string().starts_with("mat.wgsl: material WGSL must declare"));

    let mut bad = composed();
    bad.interface.global_variables.push(GlobalVariableInfo {
        binding: Some((1, 0)),
        is_uniform: true,
        struct_type: Some(StructInfo {
            name: Some("Mat".to_string()),
            member_names: vec![Some("_ZWrite".to_string())],
        }),
    });
    let err = compile_shader_job("mat.wgsl", "mat", options(false), 0usize, (), (), vec![], Ok(composed()), Ok(bad))
        .expect_err("uniform check");
    assert!(err.to_string().starts_with("mat (multiview): material uniform struct `Mat`"));

    let composition_error = renderide::build_error::BuildError::Message("compose mat.wgsl: boom".to_string());
    let err = compile_shader_job(
        "mat.wgsl",
        "mat",
        options(false),
        0usize,
        (),
        (),
        vec![],
        Err(composition_error),
        Ok(composed()),
    )
    .expect_err("composition");
    assert_eq!(err.to_string(), "compose mat.wgsl: boom");
}

#[test]
fn naga_outcomes_are_framed_with_the_label() {
    assert_eq!(
        flatten_outcome("s (default)", Err(NagaFlattenFailure::Validation("bad type".to_string())))
            .expect_err("failed")
            .to_string(),
        "validate s (default): bad type"
    );
    assert_eq!(
        flatten_outcome("s (default)", Ok("fn f() {}".to_string())).expect("written"),
        "fn f() {}"
    );
    assert_eq!(
        flatten_outcome("s (multiview)", Err(NagaFlattenFailure::Writing("oops".to_string())))
            .expect_err("failed")
            .to_string(),
        "wgsl out s (multiview): oops"
    );
}

#[test]
fn module_to_wgsl_keeps_helper_functions() {
    let module = naga::front::wgsl::parse_str(
        "fn f() -> f32 { return 1.0; }\n@fragment fn fs() -> @location(0) vec4<f32> { return vec4<f32>(f(), 0.0, 0.0, 1.0); }",
    )
    .expect("parses");
    let wgsl = module_to_wgsl(&module, "s").expect("valid");
    assert!(wgsl.contains("fn fs"));
}

const RAY_QUERY_WGSL: &str = r#"
enable wgpu_ray_query;

@group(0) @binding(0) var acc: acceleration_structure;

@compute @workgroup_size(1)
fn main() {
    var rq: ray_query;
    rayQueryInitialize(&rq, acc, RayDesc(0u, 255u, 0.1, 100.0, vec3<f32>(0.0), vec3<f32>(0.0, 0.0, 1.0)));
    let more = rayQueryProceed(&rq);
}
"#;

#[test]
fn module_to_wgsl_refuses_ray_queries() {
    let module = naga::front::wgsl::parse_str(RAY_QUERY_WGSL).expect("parses");
    let err = module_to_wgsl(&module, "rq (default)").expect_err("unsupported");
    assert_eq!(
        err.to_string(),
        "wgsl out rq (default): module uses mesh shading, ray-tracing pipelines or ray queries, which the WGSL writer does not support"
    );
}

#[test]
fn module_to_wgsl_reports_validation_errors() {
    let module = naga::front::wgsl::parse_str(
        "@group(0) @binding(0) var<uniform> a: array<vec4<f32>>;\n@fragment fn fs() -> @location(0) vec4<f32> { return a[0]; }",
    )
    .expect("parses");
    let err = module_to_wgsl(&module, "s (default)").expect_err("invalid");
    assert!(err.to_string().starts_with("validate s (default): "));
}

#[test]
fn unwritable_module_errors_name_the_cause() {
    assert_eq!(
        unwritable_module_error("s (default)", Some("bad binding".to_string())).to_string(),
        "validate s (default): bad binding"
    );
    assert_eq!(
        unwritable_module_error("s (multiview)", None).to_string(),
        "wgsl out s (multiview): module uses mesh shading, ray-tracing pipelines or ray queries, which the WGSL writer does not support"
    );
}
