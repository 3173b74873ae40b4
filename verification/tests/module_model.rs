use renderide::module_model::{
    model_is_indexed, module_interface, BindingModel, EntryPointModel, GlobalModel, IoModel,
    MemberModel, ModuleModel, TypeModel,
};
use renderide::shader_validation::{Interpolation, IoBinding, Sampling, ShaderStage};

fn location(location: u32) -> Option<BindingModel> {
    Some(BindingModel::Location {
        location,
        interpolation: Some(Interpolation::Perspective),
        sampling: Some(Sampling::Center),
        blend_src: None,
        per_primitive: false,
    })
}

fn plain(name: Option<&str>, shape: &str) -> TypeModel {
    TypeModel { name: name.map(|n| n.to_string()), shape: shape.to_string(), members: None }
}

fn sample_model() -> ModuleModel {
    let inner = TypeModel {
        name: Some("Inner".to_string()),
        shape: "Struct Inner".to_string(),
        members: Some(vec![MemberModel { name: Some("uv".to_string()), ty: 1, binding: location(2) }]),
    };
    let varyings = TypeModel {
        name: Some("Varyings".to_string()),
        shape: "Struct Varyings".to_string(),
        members: Some(vec![
            MemberModel { name: Some("pos".to_string()), ty: 0, binding: Some(BindingModel::BuiltIn) },
            MemberModel { name: Some("color".to_string()), ty: 0, binding: location(0) },
            MemberModel { name: Some("inner".to_string()), ty: 3, binding: None },
        ]),
    };
    let material = TypeModel {
        name: Some("Mat".to_string()),
        shape: "Struct Mat".to_string(),
        members: Some(vec![
            MemberModel { name: Some("_Color".to_string()), ty: 0, binding: None },
            MemberModel { name: None, ty: 1, binding: None },
        ]),
    };
    ModuleModel {
        types: vec![
            plain(None, "Vector { size: Quad, scalar: F32 }"),
            plain(None, "Vector { size: Bi, scalar: F32 }"),
            plain(Some("Color"), "Vector { size: Quad, scalar: F32 }"),
            inner,
            varyings,
            material,
        ],
        entry_points: vec![
            EntryPointModel {
                stage: ShaderStage::Vertex,
                name: "vs_main".to_string(),
                arguments: vec![IoModel { ty: 0, binding: location(0) }],
                result: Some(IoModel { ty: 4, binding: None }),
            },
            EntryPointModel {
                stage: ShaderStage::Fragment,
                name: "fs_main".to_string(),
                arguments: vec![
                    IoModel { ty: 4, binding: None },
                    IoModel { ty: 2, binding: location(5) },
                ],
                result: Some(IoModel { ty: 0, binding: location(0) }),
            },
        ],
        global_variables: vec![
            GlobalModel { binding: Some((1, 0)), is_uniform: true, ty: 5 },
            GlobalModel { binding: None, is_uniform: false, ty: 0 },
        ],
    }
}

fn slot(b: &IoBinding) -> (u32, u64, String) {
    match b {
        IoBinding::Location(s) => (s.location, s.type_key, s.type_label.clone()),
        IoBinding::BuiltIn => panic!("expected a location binding"),
    }
}

#[test]
fn struct_results_are_flattened_through_unbound_members() {
    let model = sample_model();
    assert!(model_is_indexed(&model));
    let interface = module_interface(&model);
    assert_eq!(interface.entry_points.len(), 2);
    let vs = &interface.entry_points[0];
    assert_eq!(vs.name, "vs_main");
    assert_eq!(vs.stage, ShaderStage::Vertex);
    assert_eq!(vs.inputs.len(), 1);
    assert_eq!(vs.outputs.len(), 3);
    assert!(matches!(vs.outputs[0], IoBinding::BuiltIn));
    assert_eq!(slot(&vs.outputs[1]), (0, 0, "Vector { size: Quad, scalar: F32 }".to_string()));
    assert_eq!(slot(&vs.outputs[2]), (2, 1, "Vector { size: Bi, scalar: F32 }".to_string()));
}

#[test]
fn types_of_equal_shape_share_a_key_and_keep_their_names() {
    let interface = module_interface(&sample_model());
    let fs = &interface.entry_points[1];
    assert_eq!(fs.inputs.len(), 4);
    assert_eq!(slot(&fs.inputs[3]), (5, 0, "Color".to_string()));
    assert_eq!(fs.outputs.len(), 1);
    assert_eq!(slot(&fs.outputs[0]), (0, 0, "Vector { size: Quad, scalar: F32 }".to_string()));
}

#[test]
fn globals_report_their_struct_members() {
    let interface = module_interface(&sample_model());
    assert_eq!(interface.global_variables.len(), 2);
    let uniform = &interface.global_variables[0];
    assert_eq!(uniform.binding, Some((1, 0)));
    assert!(uniform.is_uniform);
    let st = uniform.struct_type.as_ref().expect("struct");
    assert_eq!(st.name.as_deref(), Some("Mat"));
    assert_eq!(st.member_names, vec![Some("_Color".to_string()), None]);
    assert!(interface.global_variables[1].struct_type.is_none());
}

#[test]
fn out_of_arena_indices_are_detected() {
    let mut model = sample_model();
    model.global_variables[1].ty = 6;
    assert!(!model_is_indexed(&model));
    let mut model = sample_model();
    model.entry_points[0].arguments[0].ty = 9;
    assert!(!model_is_indexed(&model));
}

#[test]
fn self_containing_structs_stop_flattening() {
    let model = ModuleModel {
        types: vec![TypeModel {
            name: Some("Loop".to_string()),
            shape: "Struct Loop".to_string(),
            members: Some(vec![MemberModel { name: None, ty: 0, binding: None }]),
        }],
        entry_points: vec![EntryPointModel {
            stage: ShaderStage::Fragment,
            name: "fs".to_string(),
            arguments: vec![IoModel { ty: 0, binding: None }],
            result: None,
        }],
        global_variables: vec![],
    };
    assert!(model_is_indexed(&model));
    let interface = module_interface(&model);
    assert!(interface.entry_points[0].inputs.is_empty());
    assert!(interface.entry_points[0].outputs.is_empty());
}
