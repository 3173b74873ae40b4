use renderide::shader_names::{
    confusing_material_control_property_name, edit_distance_at_most_one,
    eq_ignore_ascii_case, is_material_control_property_name, material_control_property_names,
};
use renderide::shader_validation::{
    check_duplicate_locations, io_slot_label, validate_entry_points,
    validate_no_pipeline_state_uniform_fields, validate_pass_interface_pair,
    validate_pass_interfaces, BuildPassDirective, EntryPointInfo, GlobalVariableInfo,
    Interpolation, IoBinding, IoSlot, ModuleInterface, Sampling, ShaderStage, StructInfo,
};

/// A module whose `@group(1) @binding(0)` uniform is `struct TestMaterial { <field>: f32 }`.
fn module_with_material_field(field: &str) -> ModuleInterface {
    ModuleInterface {
        entry_points: Vec::new(),
        global_variables: vec![GlobalVariableInfo {
            binding: Some((1, 0)),
            is_uniform: true,
            struct_type: Some(StructInfo {
                name: Some("TestMaterial".to_string()),
                member_names: vec![Some(field.to_string())],
            }),
        }],
    }
}

fn validation_error_for_field(field: &str) -> String {
    let module = module_with_material_field(field);
    validate_no_pipeline_state_uniform_fields(&module, "test_shader")
        .expect_err("field should be rejected")
        .to_string()
}

#[test]
fn rejects_exact_material_control_uniform_fields() {
    for field in ["_Culling", "_RenderQueue"] {
        let err = validation_error_for_field(field);
        assert!(err.contains(field), "{field} error should name field: {err}");
        assert!(
            err.contains("material-control"),
            "{field} error should identify material-control state: {err}"
        );
    }
}

#[test]
fn rejects_likely_material_control_uniform_typos() {
    let zwrite = validation_error_for_field("_Zwrite");
    assert!(
        zwrite.contains("_ZWrite"),
        "case typo error should name canonical field: {zwrite}"
    );

    let cull = validation_error_for_field("_Cul");
    assert!(
        cull.contains("_Cull"),
        "edit-distance typo error should name canonical field: {cull}"
    );
}

#[test]
fn accepts_similar_shader_data_field_names() {
    let module = module_with_material_field("_ColorMask_ST");
    validate_no_pipeline_state_uniform_fields(&module, "test_shader")
        .expect("texture transform field is shader data, not pipeline state");
}

#[test]
fn exact_control_field_message_is_complete() {
    assert_eq!(
        validation_error_for_field("_ZTest"),
        "test_shader: material uniform struct `TestMaterial` declares material-control field \
         `_ZTest` at @group(1) @binding(0). Material-control properties flow through \
         MaterialBlendMode + MaterialRenderState or draw ordering; remove the field from the WGSL \
         struct."
    );
}

#[test]
fn typo_field_message_names_first_canonical_match() {
    assert_eq!(
        validation_error_for_field("_cull"),
        "test_shader: material uniform struct `TestMaterial` declares field `_cull` at \
         @group(1) @binding(0), which looks like material-control property `_Cull`. \
         Material-control properties flow through MaterialBlendMode + MaterialRenderState or \
         draw ordering; fix the typo or remove the field from the WGSL struct."
    );
}

#[test]
fn only_material_uniform_binding_is_checked() {
    let mut module = module_with_material_field("_ZWrite");
    module.global_variables[0].binding = Some((0, 0));
    assert!(validate_no_pipeline_state_uniform_fields(&module, "s").is_ok());
    let mut module = module_with_material_field("_ZWrite");
    module.global_variables[0].is_uniform = false;
    assert!(validate_no_pipeline_state_uniform_fields(&module, "s").is_ok());
    let mut module = module_with_material_field("_ZWrite");
    module.global_variables[0].struct_type.as_mut().unwrap().name = None;
    let err = validate_no_pipeline_state_uniform_fields(&module, "s")
        .expect_err("unnamed struct still checked")
        .to_string();
    assert!(err.contains("`<unnamed>`"), "{err}");
}

#[test]
fn edit_distance_and_case_helpers() {
    assert!(edit_distance_at_most_one("_Cull", "_Cul"));
    assert!(edit_distance_at_most_one("_Cul", "_Cull"));
    assert!(edit_distance_at_most_one("_Cull", "_Cell"));
    assert!(edit_distance_at_most_one("", "a"));
    assert!(!edit_distance_at_most_one("_Cull", "_Ce"));
    assert!(!edit_distance_at_most_one("abcd", "abdc"));
    assert!(eq_ignore_ascii_case(b"_ZWRITE", b"_zwrite"));
    assert!(!eq_ignore_ascii_case(b"_ZWrite", b"_ZWrit"));
    assert!(is_material_control_property_name("_StencilOp"));
    assert!(!is_material_control_property_name("_stencilop"));
    assert_eq!(confusing_material_control_property_name("_stencilop"), Some("_StencilOp"));
    assert_eq!(confusing_material_control_property_name("_MainTex"), None);
    assert_eq!(material_control_property_names().len(), 21);
}

fn slot(location: u32, type_key: u64) -> IoSlot {
    IoSlot {
        location,
        type_key,
        type_label: format!("T{type_key}"),
        interpolation: Some(Interpolation::Perspective),
        sampling: Some(Sampling::Center),
        blend_src: None,
        per_primitive: false,
    }
}

fn entry(stage: ShaderStage, name: &str, inputs: Vec<IoBinding>, outputs: Vec<IoBinding>) -> EntryPointInfo {
    EntryPointInfo { stage, name: name.to_string(), inputs, outputs }
}

fn forward_pass() -> BuildPassDirective {
    BuildPassDirective {
        name: "forward".to_string(),
        pass_type: "Forward".to_string(),
        vertex_entry: "vs_main".to_string(),
        fragment_entry: "fs_main".to_string(),
    }
}

#[test]
fn entry_points_without_passes_need_vs_main_and_a_fragment() {
    let module = ModuleInterface {
        entry_points: vec![entry(ShaderStage::Vertex, "vs_main", vec![], vec![])],
        global_variables: vec![],
    };
    let err = validate_entry_points(&module, "s (default)", &[]).expect_err("no fragment");
    assert_eq!(
        err.to_string(),
        "s (default): expected a vs_main vertex entry point and at least one @fragment entry \
         point (vertex=true fragment=false)"
    );
    let compute = ModuleInterface {
        entry_points: vec![entry(ShaderStage::Compute, "cs_main", vec![], vec![])],
        global_variables: vec![],
    };
    assert!(validate_entry_points(&compute, "s", &[]).is_ok());
}

#[test]
fn entry_points_with_passes_need_both_named_entries() {
    let module = ModuleInterface {
        entry_points: vec![
            entry(ShaderStage::Vertex, "vs_main", vec![], vec![]),
            entry(ShaderStage::Fragment, "fs_other", vec![], vec![]),
        ],
        global_variables: vec![],
    };
    let err = validate_entry_points(&module, "s", &[forward_pass()]).expect_err("missing fs_main");
    assert_eq!(
        err.to_string(),
        "s: pass `forward` (Forward) expected entry points vs_main and fs_main (vertex=true \
         fragment=false)"
    );
    let err = validate_pass_interfaces(&module, "s", &[forward_pass()]).expect_err("missing");
    assert_eq!(err.to_string(), "s: pass `forward` (Forward) missing fragment entry point fs_main");
}

#[test]
fn pass_interface_reports_lowest_failing_location() {
    let vertex = entry(
        ShaderStage::Vertex,
        "vs_main",
        vec![],
        vec![IoBinding::BuiltIn, IoBinding::Location(slot(0, 1)), IoBinding::Location(slot(2, 1))],
    );
    let fragment = entry(
        ShaderStage::Fragment,
        "fs_main",
        vec![IoBinding::Location(slot(3, 1)), IoBinding::Location(slot(2, 5))],
        vec![],
    );
    let err = validate_pass_interface_pair("s", &forward_pass(), &vertex, &fragment)
        .expect_err("mismatch");
    assert_eq!(
        err.to_string(),
        "s: pass `forward` (Forward) @location(2) type mismatch between vertex vs_main (T1) and \
         fragment fs_main (T5)"
    );
    let fragment = entry(
        ShaderStage::Fragment,
        "fs_main",
        vec![IoBinding::Location(slot(3, 1))],
        vec![],
    );
    let err = validate_pass_interface_pair("s", &forward_pass(), &vertex, &fragment)
        .expect_err("unwritten");
    assert_eq!(
        err.to_string(),
        "s: pass `forward` (Forward) fragment entry fs_main reads @location(3), but vertex entry \
         vs_main does not write it"
    );
}

#[test]
fn pass_interface_checks_interpolation() {
    let vertex = entry(ShaderStage::Vertex, "vs_main", vec![], vec![IoBinding::Location(slot(0, 1))]);
    let mut flat = slot(0, 1);
    flat.interpolation = Some(Interpolation::Flat);
    flat.sampling = None;
    let fragment = entry(ShaderStage::Fragment, "fs_main", vec![IoBinding::Location(flat)], vec![]);
    let err = validate_pass_interface_pair("s", &forward_pass(), &vertex, &fragment)
        .expect_err("interpolation");
    assert_eq!(
        err.to_string(),
        "s: pass `forward` (Forward) @location(0) interpolation mismatch between vertex vs_main \
         (interpolation=Some(Perspective) sampling=Some(Center) blend_src=None per_primitive=false) \
         and fragment fs_main (interpolation=Some(Flat) sampling=None blend_src=None \
         per_primitive=false)"
    );
    let matching = entry(
        ShaderStage::Fragment,
        "fs_main",
        vec![IoBinding::BuiltIn, IoBinding::Location(slot(0, 1))],
        vec![],
    );
    assert!(validate_pass_interface_pair("s", &forward_pass(), &vertex, &matching).is_ok());
    let module = ModuleInterface { entry_points: vec![vertex, matching], global_variables: vec![] };
    assert!(validate_pass_interfaces(&module, "s", &[forward_pass()]).is_ok());
    assert!(validate_entry_points(&module, "s", &[forward_pass()]).is_ok());
}

#[test]
fn duplicate_locations_are_rejected() {
    let bindings = vec![
        IoBinding::Location(slot(1, 1)),
        IoBinding::BuiltIn,
        IoBinding::Location(slot(4, 1)),
        IoBinding::Location(slot(1, 2)),
    ];
    let err = check_duplicate_locations(&bindings, "s: vertex entry vs_main output")
        .expect_err("duplicate");
    assert_eq!(err.to_string(), "s: vertex entry vs_main output declares duplicate @location(1)");
    assert!(check_duplicate_locations(&bindings[..3].to_vec(), "o").is_ok());
}

#[test]
fn io_slot_label_lists_all_interpolation_fields() {
    let mut s = slot(0, 1);
    s.blend_src = Some(1);
    s.per_primitive = true;
    assert_eq!(
        io_slot_label(&s),
        "interpolation=Some(Perspective) sampling=Some(Center) blend_src=Some(1) per_primitive=true"
    );
}
