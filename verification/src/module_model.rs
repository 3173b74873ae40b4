//! A shader module's type arena, entry points and global variables as plain values, and the
//! derivation of the [`ModuleInterface`] that the contract checks read: argument and result
//! bindings flattened through struct members, slot types keyed by shape and labelled by name.

use vstd::prelude::*;

use crate::pipeline_kind::{duplicate_opt_string, opt_string_view};
use crate::shader_names::eq_str;
use crate::shader_validation::{
    EntryPointInfo, GlobalVariableInfo, Interpolation, IoBinding, IoSlot, ModuleInterface,
    Sampling, ShaderStage, StructInfo,
};

verus! {

/// A binding on an argument, a result or a struct member.
#[derive(Clone, Copy, Debug, PartialEq, Eq)]
pub enum BindingModel {
    /// A `@builtin` value.
    BuiltIn,
    /// A `@location` value with its interpolation qualifiers.
    Location {
        location: u32,
        interpolation: Option<Interpolation>,
        sampling: Option<Sampling>,
        blend_src: Option<u32>,
        per_primitive: bool,
    },
}

/// A struct member: its name, the index of its type and its binding.
#[derive(Clone, Debug)]
pub struct MemberModel {
    pub name: Option<String>,
    pub ty: usize,
    pub binding: Option<BindingModel>,
}

/// An entry of the type arena.
#[derive(Clone, Debug)]
pub struct TypeModel {
    pub name: Option<String>,
    /// The type's shape written out; two types have equal shapes exactly when they are the
    /// same type apart from the name.
    pub shape: String,
    /// The members, when the type is a struct.
    pub members: Option<Vec<MemberModel>>,
}

/// An entry point argument or result: the index of its type and its binding.
#[derive(Clone, Copy, Debug)]
pub struct IoModel {
    pub ty: usize,
    pub binding: Option<BindingModel>,
}

/// An entry point.
#[derive(Clone, Debug)]
pub struct EntryPointModel {
    pub stage: ShaderStage,
    pub name: String,
    pub arguments: Vec<IoModel>,
    pub result: Option<IoModel>,
}

/// A module-scope variable.
#[derive(Clone, Copy, Debug)]
pub struct GlobalModel {
    /// `(group, binding)` of its resource binding, if any.
    pub binding: Option<(u32, u32)>,
    /// Whether it lives in the uniform address space.
    pub is_uniform: bool,
    pub ty: usize,
}

/// A shader module as plain values.
#[derive(Clone, Debug)]
pub struct ModuleModel {
    pub types: Vec<TypeModel>,
    pub entry_points: Vec<EntryPointModel>,
    pub global_variables: Vec<GlobalModel>,
}

/// Position of the first type from `k` on whose shape is `shape`, or the arena's length.
pub open spec fn first_shape_from(types: Seq<TypeModel>, shape: Seq<char>, k: int) -> int
    decreases types.len() - k,
{
    if k < 0 || k >= types.len() {
        types.len() as int
    } else if types[k].shape@ == shape {
        k
    } else {
        first_shape_from(types, shape, k + 1)
    }
}

/// Key of type `ty`: the position of the first type with the same shape, so that two types
/// have equal keys exactly when their shapes are equal.
pub open spec fn shape_key(types: Seq<TypeModel>, ty: int) -> int {
    first_shape_from(types, types[ty].shape@, 0)
}

/// Searching from `k` for a shape that type `ty` (at or after `k`) has finds a type with that
/// shape, no later than `ty`.
proof fn lemma_first_shape_found(types: Seq<TypeModel>, shape: Seq<char>, k: int, ty: int)
    requires
        0 <= k <= ty < types.len(),
        types[ty].shape@ == shape,
    ensures
        k <= first_shape_from(types, shape, k) <= ty,
        types[first_shape_from(types, shape, k)].shape@ == shape,
    decreases ty - k,
{
    if types[k].shape@ != shape {
        lemma_first_shape_found(types, shape, k + 1, ty);
    }
}

/// Two types of the arena have equal shape keys exactly when their shapes are equal.
pub proof fn lemma_shape_key_iff_same_shape(types: Seq<TypeModel>, a: int, b: int)
    requires
        0 <= a < types.len(),
        0 <= b < types.len(),
    ensures
        shape_key(types, a) == shape_key(types, b) <==> types[a].shape@ == types[b].shape@,
{
    lemma_first_shape_found(types, types[a].shape@, 0, a);
    lemma_first_shape_found(types, types[b].shape@, 0, b);
}

/// Label of type `ty` in diagnostics: its name, or its shape when it has none.
pub open spec fn type_label(types: Seq<TypeModel>, ty: int) -> Seq<char> {
    match types[ty].name {
        Some(n) => n@,
        None => types[ty].shape@,
    }
}

/// The bound values under a binding, as (type, binding) pairs: the binding itself when there
/// is one, else the flattened members of a struct type. `fuel` bounds the nesting; the arena's
/// length is enough for any arena whose structs do not contain themselves.
pub open spec fn flat_io(
    types: Seq<TypeModel>,
    ty: int,
    binding: Option<BindingModel>,
    fuel: nat,
) -> Seq<(int, BindingModel)>
    decreases fuel, 0nat,
{
    match binding {
        Some(b) => seq![(ty, b)],
        None => if fuel == 0 || ty < 0 || ty >= types.len() {
            Seq::empty()
        } else {
            match types[ty].members {
                Some(ms) => flat_members(types, ms@, (fuel - 1) as nat, ms@.len()),
                None => Seq::empty(),
            }
        },
    }
}

/// The flattened bindings of the first `n` members.
pub open spec fn flat_members(
    types: Seq<TypeModel>,
    ms: Seq<MemberModel>,
    fuel: nat,
    n: nat,
) -> Seq<(int, BindingModel)>
    decreases fuel, n + 1,
{
    if n == 0 || n > ms.len() {
        Seq::empty()
    } else {
        flat_members(types, ms, fuel, (n - 1) as nat) + flat_io(
            types,
            ms[n - 1].ty as int,
            ms[n - 1].binding,
            fuel,
        )
    }
}

/// `out` is the interface binding for the bound value `d`.
pub open spec fn io_matches(types: Seq<TypeModel>, d: (int, BindingModel), out: IoBinding) -> bool {
    match (d.1, out) {
        (BindingModel::BuiltIn, IoBinding::BuiltIn) => true,
        (
            BindingModel::Location { location, interpolation, sampling, blend_src, per_primitive },
            IoBinding::Location(s),
        ) => s.location == location && s.type_key as int == shape_key(types, d.0)
            && s.type_label@ == type_label(types, d.0) && s.interpolation == interpolation
            && s.sampling == sampling && s.blend_src == blend_src && s.per_primitive
            == per_primitive,
        _ => false,
    }
}

/// Every type index in the arena's struct members is within the arena.
pub open spec fn types_indexed(types: Seq<TypeModel>) -> bool {
    forall|t: int, i: int|
        0 <= t < types.len() && types[t].members is Some && 0 <= i
            < types[t].members->Some_0@.len() ==> (#[trigger] types[t].members->Some_0@[i]).ty
            < types.len()
}

/// Computes the shape key of type `ty`.
fn shape_key_of(types: &Vec<TypeModel>, ty: usize) -> (r: u64)
    requires
        ty < types.len(),
    ensures
        r as int == shape_key(types@, ty as int),
{
    let shape = types[ty].shape.as_str();
    let mut k: usize = 0;
    while k < ty
        invariant
            k <= ty < types.len(),
            shape@ == types@[ty as int].shape@,
            first_shape_from(types@, shape@, 0) == first_shape_from(types@, shape@, k as int),
        decreases ty - k,
    {
        if eq_str(types[k].shape.as_str(), shape) {
            return k as u64;
        }
        k = k + 1;
    }
    ty as u64
}

/// The interface binding for a bound value of type `ty`.
fn io_binding_of(types: &Vec<TypeModel>, ty: usize, b: BindingModel) -> (r: IoBinding)
    requires
        ty < types.len(),
    ensures
        io_matches(types@, (ty as int, b), r),
{
    match b {
        BindingModel::BuiltIn => IoBinding::BuiltIn,
        BindingModel::Location { location, interpolation, sampling, blend_src, per_primitive } => {
            let type_key = shape_key_of(types, ty);
            let type_label = match &types[ty].name {
                Some(n) => n.clone(),
                None => types[ty].shape.clone(),
            };
            IoBinding::Location(
                IoSlot {
                    location,
                    type_key,
                    type_label,
                    interpolation,
                    sampling,
                    blend_src,
                    per_primitive,
                },
            )
        },
    }
}

/// `out` extends `before` with one interface binding for each bound value of `flat`.
pub open spec fn extends_with(
    types: Seq<TypeModel>,
    before: Seq<IoBinding>,
    flat: Seq<(int, BindingModel)>,
    out: Seq<IoBinding>,
) -> bool {
    &&& out.len() == before.len() + flat.len()
    &&& forall|k: int| 0 <= k < before.len() ==> #[trigger] out[k] == before[k]
    &&& forall|k: int|
        0 <= k < flat.len() ==> io_matches(types, #[trigger] flat[k], out[before.len() + k])
}

/// Appends the interface bindings of a value of type `ty` under `binding`.
fn push_flat_io(
    types: &Vec<TypeModel>,
    ty: usize,
    binding: Option<BindingModel>,
    fuel: usize,
    out: &mut Vec<IoBinding>,
)
    requires
        ty < types.len(),
        types_indexed(types@),
    ensures
        extends_with(types@, old(out)@, flat_io(types@, ty as int, binding, fuel as nat), final(out)@),
    decreases fuel,
{
    let ghost before = out@;
    match binding {
        Some(b) => {
            let e = io_binding_of(types, ty, b);
            out.push(e);
            proof {
                let flat = flat_io(types@, ty as int, binding, fuel as nat);
                assert(flat =~= seq![(ty as int, b)]);
                assert(out@[before.len() as int] == e);
            }
        },
        None => {
            if fuel > 0 {
                match &types[ty].members {
                    Some(ms) => {
                        let mut i: usize = 0;
                        proof {
                            assert(flat_members(types@, ms@, (fuel - 1) as nat, 0) =~= Seq::empty());
                        }
                        while i < ms.len()
                            invariant
                                i <= ms.len(),
                                fuel > 0,
                                ty < types.len(),
                                types_indexed(types@),
                                types@[ty as int].members == Some(*ms),
                                extends_with(
                                    types@,
                                    before,
                                    flat_members(types@, ms@, (fuel - 1) as nat, i as nat),
                                    out@,
                                ),
                            decreases ms.len() - i,
                        {
                            let ghost mid = out@;
                            let ghost f0 = flat_members(types@, ms@, (fuel - 1) as nat, i as nat);
                            assert(types@[ty as int].members->Some_0@[i as int].ty < types.len());
                            push_flat_io(types, ms[i].ty, ms[i].binding, fuel - 1, out);
                            proof {
                                let f1 = flat_io(types@, ms@[i as int].ty as int, ms@[i as int].binding, (fuel - 1) as nat);
                                let f = flat_members(types@, ms@, (fuel - 1) as nat, (i + 1) as nat);
                                assert(f =~= f0 + f1);
                                assert forall|k: int| 0 <= k < f.len() implies io_matches(types@, #[trigger] f[k], out@[before.len() + k]) by {
                                    if k < f0.len() {
                                        assert(f[k] == f0[k]);
                                        assert(out@[before.len() + k] == mid[before.len() + k]);
                                    } else {
                                        assert(f[k] == f1[k - f0.len()]);
                                    }
                                }
                                assert forall|k: int| 0 <= k < before.len() implies #[trigger] out@[k] == before[k] by {
                                    assert(out@[k] == mid[k]);
                                }
                            }
                            i = i + 1;
                        }
                    },
                    None => {
                        proof {
                            assert(flat_io(types@, ty as int, binding, fuel as nat) =~= Seq::empty());
                        }
                    },
                }
            } else {
                proof {
                    assert(flat_io(types@, ty as int, binding, fuel as nat) =~= Seq::empty());
                }
            }
        },
    }
}

/// The flattened bindings of the first `n` arguments.
pub open spec fn flat_args(types: Seq<TypeModel>, args: Seq<IoModel>, fuel: nat, n: nat) -> Seq<
    (int, BindingModel),
>
    decreases n,
{
    if n == 0 || n > args.len() {
        Seq::empty()
    } else {
        flat_args(types, args, fuel, (n - 1) as nat) + flat_io(
            types,
            args[n - 1].ty as int,
            args[n - 1].binding,
            fuel,
        )
    }
}

/// The flattened bindings of an entry point's result.
pub open spec fn flat_result(types: Seq<TypeModel>, result: Option<IoModel>, fuel: nat) -> Seq<
    (int, BindingModel),
> {
    match result {
        Some(r) => flat_io(types, r.ty as int, r.binding, fuel),
        None => Seq::empty(),
    }
}

/// `out` is the interface of entry point `e`: its stage and name, its arguments' bindings
/// flattened as inputs and its result's bindings flattened as outputs.
pub open spec fn entry_matches(types: Seq<TypeModel>, e: EntryPointModel, out: EntryPointInfo) -> bool {
    let fuel = types.len() as nat;
    &&& out.stage == e.stage
    &&& out.name@ == e.name@
    &&& extends_with(
        types,
        Seq::empty(),
        flat_args(types, e.arguments@, fuel, e.arguments@.len()),
        out.inputs@,
    )
    &&& extends_with(types, Seq::empty(), flat_result(types, e.result, fuel), out.outputs@)
}

/// `out` describes global variable `g`: its binding, whether it is uniform, and, when its type
/// is a struct, the struct's name and member names.
pub open spec fn global_matches(types: Seq<TypeModel>, g: GlobalModel, out: GlobalVariableInfo) -> bool {
    let t = types[g.ty as int];
    &&& out.binding == g.binding
    &&& out.is_uniform == g.is_uniform
    &&& (t.members is Some <==> out.struct_type is Some)
    &&& t.members is Some ==> {
        let st = out.struct_type->Some_0;
        let ms = t.members->Some_0@;
        &&& opt_string_view(st.name) == opt_string_view(t.name)
        &&& st.member_names@.len() == ms.len()
        &&& forall|i: int|
            0 <= i < ms.len() ==> opt_string_view(#[trigger] st.member_names@[i])
                == opt_string_view(ms[i].name)
    }
}

/// Every type index in the model is within the arena.
pub open spec fn model_indexed(m: ModuleModel) -> bool {
    let n = m.types@.len();
    &&& types_indexed(m.types@)
    &&& forall|e: int, a: int|
        0 <= e < m.entry_points@.len() && 0 <= a < m.entry_points@[e].arguments@.len()
            ==> (#[trigger] m.entry_points@[e].arguments@[a]).ty < n
    &&& forall|e: int|
        0 <= e < m.entry_points@.len() && (#[trigger] m.entry_points@[e]).result is Some
            ==> m.entry_points@[e].result->Some_0.ty < n
    &&& forall|g: int| 0 <= g < m.global_variables@.len() ==> (#[trigger] m.global_variables@[g]).ty < n
}

/// `r` is the interface of model `m`, entry point by entry point and variable by variable.
pub open spec fn interface_of(m: ModuleModel, r: ModuleInterface) -> bool {
    &&& r.entry_points@.len() == m.entry_points@.len()
    &&& forall|e: int|
        0 <= e < m.entry_points@.len() ==> entry_matches(
            m.types@,
            m.entry_points@[e],
            #[trigger] r.entry_points@[e],
        )
    &&& r.global_variables@.len() == m.global_variables@.len()
    &&& forall|g: int|
        0 <= g < m.global_variables@.len() ==> global_matches(
            m.types@,
            m.global_variables@[g],
            #[trigger] r.global_variables@[g],
        )
}

/// The interface of one entry point.
fn entry_interface(types: &Vec<TypeModel>, e: &EntryPointModel) -> (r: EntryPointInfo)
    requires
        types_indexed(types@),
        forall|a: int| 0 <= a < e.arguments@.len() ==> (#[trigger] e.arguments@[a]).ty < types.len(),
        e.result matches Some(res) ==> res.ty < types.len(),
    ensures
        entry_matches(types@, *e, r),
{
    let fuel = types.len();
    let mut inputs: Vec<IoBinding> = Vec::new();
    let mut a: usize = 0;
    proof {
        assert(flat_args(types@, e.arguments@, fuel as nat, 0) =~= Seq::empty());
    }
    while a < e.arguments.len()
        invariant
            a <= e.arguments.len(),
            fuel == types.len(),
            types_indexed(types@),
            forall|x: int| 0 <= x < e.arguments@.len() ==> (#[trigger] e.arguments@[x]).ty < types.len(),
            extends_with(types@, Seq::empty(), flat_args(types@, e.arguments@, fuel as nat, a as nat), inputs@),
        decreases e.arguments.len() - a,
    {
        let ghost mid = inputs@;
        let ghost f0 = flat_args(types@, e.arguments@, fuel as nat, a as nat);
        let arg = e.arguments[a];
        assert(arg.ty < types.len());
        push_flat_io(types, arg.ty, arg.binding, fuel, &mut inputs);
        proof {
            let f1 = flat_io(types@, arg.ty as int, arg.binding, fuel as nat);
            let f = flat_args(types@, e.arguments@, fuel as nat, (a + 1) as nat);
            assert(f =~= f0 + f1);
            assert forall|k: int| 0 <= k < f.len() implies io_matches(types@, #[trigger] f[k], inputs@[0 + k]) by {
                if k < f0.len() {
                    assert(f[k] == f0[k]);
                    assert(inputs@[k] == mid[k]);
                } else {
                    assert(f[k] == f1[k - f0.len()]);
                }
            }
        }
        a = a + 1;
    }
    let mut outputs: Vec<IoBinding> = Vec::new();
    match e.result {
        Some(res) => push_flat_io(types, res.ty, res.binding, fuel, &mut outputs),
        None => {},
    }
    EntryPointInfo { stage: e.stage, name: e.name.clone(), inputs, outputs }
}

/// The description of one global variable.
fn global_interface(types: &Vec<TypeModel>, g: &GlobalModel) -> (r: GlobalVariableInfo)
    requires
        g.ty < types.len(),
    ensures
        global_matches(types@, *g, r),
{
    let t = &types[g.ty];
    let struct_type = match &t.members {
        Some(ms) => {
            let mut member_names: Vec<Option<String>> = Vec::new();
            let mut i: usize = 0;
            while i < ms.len()
                invariant
                    i <= ms.len(),
                    member_names@.len() == i,
                    forall|k: int| 0 <= k < i ==> opt_string_view(#[trigger] member_names@[k])
                        == opt_string_view(ms@[k].name),
                decreases ms.len() - i,
            {
                member_names.push(duplicate_opt_string(&ms[i].name));
                i = i + 1;
            }
            Some(StructInfo { name: duplicate_opt_string(&t.name), member_names })
        },
        None => None,
    };
    GlobalVariableInfo { binding: g.binding, is_uniform: g.is_uniform, struct_type }
}

/// Derives what the contract checks read of a module: each entry point with its argument and
/// result bindings flattened through struct members that carry no binding of their own, and
/// each global variable with its struct type's name and member names.
pub fn module_interface(model: &ModuleModel) -> (r: ModuleInterface)
    requires
        model_indexed(*model),
    ensures
        interface_of(*model, r),
{
    let types = &model.types;
    let mut entry_points: Vec<EntryPointInfo> = Vec::new();
    let mut e: usize = 0;
    while e < model.entry_points.len()
        invariant
            e <= model.entry_points.len(),
            types == &model.types,
            model_indexed(*model),
            entry_points@.len() == e,
            forall|x: int| 0 <= x < e ==> entry_matches(types@, model.entry_points@[x], #[trigger] entry_points@[x]),
        decreases model.entry_points.len() - e,
    {
        let entry = &model.entry_points[e];
        assert forall|a: int| 0 <= a < entry.arguments@.len() implies (#[trigger] entry.arguments@[a]).ty < types.len() by {
            assert(model.entry_points@[e as int].arguments@[a].ty < types.len());
        }
        assert(entry.result matches Some(res) ==> res.ty < types.len()) by {
            assert(model.entry_points@[e as int] == *entry);
        }
        let info = entry_interface(types, entry);
        entry_points.push(info);
        e = e + 1;
    }
    let mut global_variables: Vec<GlobalVariableInfo> = Vec::new();
    let mut g: usize = 0;
    while g < model.global_variables.len()
        invariant
            g <= model.global_variables.len(),
            types == &model.types,
            model_indexed(*model),
            global_variables@.len() == g,
            forall|x: int| 0 <= x < g ==> global_matches(types@, model.global_variables@[x], #[trigger] global_variables@[x]),
        decreases model.global_variables.len() - g,
    {
        let gv = &model.global_variables[g];
        assert(model.global_variables@[g as int].ty < types.len());
        let info = global_interface(types, gv);
        global_variables.push(info);
        g = g + 1;
    }
    ModuleInterface { entry_points, global_variables }
}

/// Whether every type index in the model is within the arena.
pub fn model_is_indexed(model: &ModuleModel) -> (r: bool)
    ensures
        r == model_indexed(*model),
{
    let n = model.types.len();
    let mut t: usize = 0;
    while t < n
        invariant
            t <= n == model.types@.len(),
            forall|x: int, i: int|
                0 <= x < t && model.types@[x].members is Some && 0 <= i
                    < model.types@[x].members->Some_0@.len()
                    ==> (#[trigger] model.types@[x].members->Some_0@[i]).ty < n,
        decreases n - t,
    {
        match &model.types[t].members {
            Some(ms) => {
                let mut i: usize = 0;
                while i < ms.len()
                    invariant
                        t < n == model.types@.len(),
                        i <= ms.len(),
                        model.types@[t as int].members == Some(*ms),
                        forall|k: int| 0 <= k < i ==> (#[trigger] ms@[k]).ty < n,
                    decreases ms.len() - i,
                {
                    if ms[i].ty >= n {
                        assert(model.types@[t as int].members->Some_0@[i as int].ty >= n);
                        return false;
                    }
                    i = i + 1;
                }
                assert forall|x: int, k: int|
                    0 <= x <= t && model.types@[x].members is Some && 0 <= k
                        < model.types@[x].members->Some_0@.len() implies (
                    #[trigger] model.types@[x].members->Some_0@[k]).ty < n by {
                    if x == t {
                        assert(model.types@[x].members->Some_0@[k] == ms@[k]);
                    }
                }
            },
            None => {},
        }
        t = t + 1;
    }
    let mut e: usize = 0;
    while e < model.entry_points.len()
        invariant
            e <= model.entry_points.len(),
            n == model.types@.len(),
            types_indexed(model.types@),
            forall|x: int, a: int|
                0 <= x < e && 0 <= a < model.entry_points@[x].arguments@.len()
                    ==> (#[trigger] model.entry_points@[x].arguments@[a]).ty < n,
            forall|x: int|
                0 <= x < e && (#[trigger] model.entry_points@[x]).result is Some
                    ==> model.entry_points@[x].result->Some_0.ty < n,
        decreases model.entry_points.len() - e,
    {
        let entry = &model.entry_points[e];
        let mut a: usize = 0;
        while a < entry.arguments.len()
            invariant
                e < model.entry_points.len(),
                n == model.types@.len(),
                *entry == model.entry_points@[e as int],
                a <= entry.arguments.len(),
                forall|k: int| 0 <= k < a ==> (#[trigger] entry.arguments@[k]).ty < n,
            decreases entry.arguments.len() - a,
        {
            if entry.arguments[a].ty >= n {
                assert(model.entry_points@[e as int].arguments@[a as int].ty >= n);
                return false;
            }
            a = a + 1;
        }
        match entry.result {
            Some(res) => {
                if res.ty >= n {
                    assert(model.entry_points@[e as int].result is Some
                        && model.entry_points@[e as int].result->Some_0.ty >= n);
                    return false;
                }
            },
            None => {},
        }
        assert forall|x: int, k: int|
            0 <= x <= e && 0 <= k < model.entry_points@[x].arguments@.len()
                implies (#[trigger] model.entry_points@[x].arguments@[k]).ty < n by {
            if x == e {
                assert(model.entry_points@[x].arguments@[k] == entry.arguments@[k]);
            }
        }
        e = e + 1;
    }
    let mut g: usize = 0;
    while g < model.global_variables.len()
        invariant
            g <= model.global_variables.len(),
            n == model.types@.len(),
            types_indexed(model.types@),
            forall|x: int, a: int|
                0 <= x < model.entry_points@.len() && 0 <= a < model.entry_points@[x].arguments@.len()
                    ==> (#[trigger] model.entry_points@[x].arguments@[a]).ty < n,
            forall|x: int|
                0 <= x < model.entry_points@.len() && (#[trigger] model.entry_points@[x]).result is Some
                    ==> model.entry_points@[x].result->Some_0.ty < n,
            forall|x: int| 0 <= x < g ==> (#[trigger] model.global_variables@[x]).ty < n,
        decreases model.global_variables.len() - g,
    {
        if model.global_variables[g].ty >= n {
            return false;
        }
        g = g + 1;
    }
    true
}

} // verus!
