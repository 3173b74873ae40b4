//! Shader contract checks run on each composed shader module: the entry points that the pass
//! directives name, matching vertex outputs and fragment inputs, and material uniforms that must
//! not carry material-control state.
//!
//! A module is described by [`ModuleInterface`]: its entry points with their flattened
//! input/output bindings, and its global variables.

use vstd::prelude::*;

use crate::build_error::{outcome, BuildError};
use crate::shader_names::{
    confusable, confusing_material_control_property_name, control_names, eq_str,
    is_control_name, is_material_control_property_name,
};
use crate::text::{bool_text, decimal, option_text, push_bool, push_decimal};

verus! {

/// Stage of the programmable pipeline an entry point belongs to.
#[derive(Clone, Copy, Debug, PartialEq, Eq, Structural)]
pub enum ShaderStage {
    Vertex,
    Task,
    Mesh,
    Fragment,
    Compute,
    RayGeneration,
    Miss,
    AnyHit,
    ClosestHit,
}

/// How a value is interpolated between vertex and fragment stage.
#[derive(Clone, Copy, Debug, PartialEq, Eq, Structural)]
pub enum Interpolation {
    Perspective,
    Linear,
    Flat,
    PerVertex,
}

/// Where within a pixel an interpolated value is sampled.
#[derive(Clone, Copy, Debug, PartialEq, Eq, Structural)]
pub enum Sampling {
    Center,
    Centroid,
    Sample,
    First,
    Either,
}

/// One user-defined `@location` input or output of an entry point.
#[derive(Clone, Debug)]
pub struct IoSlot {
    /// The `@location` index.
    pub location: u32,
    /// Stands for the slot's type: two slots have equal keys exactly when their types have the
    /// same shape.
    pub type_key: u64,
    /// The type's name, or its shape written out when it has none.
    pub type_label: String,
    pub interpolation: Option<Interpolation>,
    pub sampling: Option<Sampling>,
    pub blend_src: Option<u32>,
    pub per_primitive: bool,
}

/// One binding of an entry point's arguments or result, in declaration order with struct
/// members flattened.
#[derive(Clone, Debug)]
pub enum IoBinding {
    /// A `@builtin` value, which the interface checks ignore.
    BuiltIn,
    /// A `@location` value.
    Location(IoSlot),
}

/// One entry point of a module.
#[derive(Clone, Debug)]
pub struct EntryPointInfo {
    pub stage: ShaderStage,
    pub name: String,
    /// Bindings of the arguments.
    pub inputs: Vec<IoBinding>,
    /// Bindings of the result.
    pub outputs: Vec<IoBinding>,
}

/// A `//#pass` directive: a named pass with its vertex and fragment entry points.
#[derive(Clone, Debug)]
pub struct BuildPassDirective {
    pub name: String,
    /// The pass type, as diagnostics name it.
    pub pass_type: String,
    pub vertex_entry: String,
    pub fragment_entry: String,
}

/// A struct type as far as the uniform check reads it.
#[derive(Clone, Debug)]
pub struct StructInfo {
    pub name: Option<String>,
    /// Member names in declaration order.
    pub member_names: Vec<Option<String>>,
}

/// A module-scope variable as far as the uniform check reads it.
#[derive(Clone, Debug)]
pub struct GlobalVariableInfo {
    /// `(group, binding)` of its resource binding, if any.
    pub binding: Option<(u32, u32)>,
    /// Whether it lives in the uniform address space.
    pub is_uniform: bool,
    /// Its type, when that is a struct.
    pub struct_type: Option<StructInfo>,
}

/// What the contract checks read of a shader module.
#[derive(Clone, Debug)]
pub struct ModuleInterface {
    pub entry_points: Vec<EntryPointInfo>,
    pub global_variables: Vec<GlobalVariableInfo>,
}

/// `e` is an entry point of `stage` called `name`.
pub open spec fn is_entry(e: EntryPointInfo, stage: ShaderStage, name: Seq<char>) -> bool {
    e.stage == stage && e.name@ == name
}

/// Some entry point is of `stage` and called `name`.
pub open spec fn has_entry(entries: Seq<EntryPointInfo>, stage: ShaderStage, name: Seq<char>) -> bool {
    exists|i: int| 0 <= i < entries.len() && #[trigger] is_entry(entries[i], stage, name)
}

/// Some entry point is of `stage`.
pub open spec fn has_stage(entries: Seq<EntryPointInfo>, stage: ShaderStage) -> bool {
    exists|i: int| 0 <= i < entries.len() && #[trigger] entries[i].stage == stage
}

/// Whether an entry point of `stage` called `name` exists.
fn has_entry_point(entries: &Vec<EntryPointInfo>, stage: ShaderStage, name: &str) -> (r: bool)
    ensures
        r == has_entry(entries@, stage, name@),
{
    let mut i: usize = 0;
    while i < entries.len()
        invariant
            i <= entries.len(),
            forall|k: int| 0 <= k < i ==> !#[trigger] is_entry(entries@[k], stage, name@),
        decreases entries.len() - i,
    {
        if entries[i].stage == stage && eq_str(entries[i].name.as_str(), name) {
            assert(is_entry(entries@[i as int], stage, name@));
            return true;
        }
        i = i + 1;
    }
    false
}

/// Whether some entry point of `stage` exists.
fn has_stage_entry(entries: &Vec<EntryPointInfo>, stage: ShaderStage) -> (r: bool)
    ensures
        r == has_stage(entries@, stage),
{
    let mut i: usize = 0;
    while i < entries.len()
        invariant
            i <= entries.len(),
            forall|k: int| 0 <= k < i ==> #[trigger] entries@[k].stage != stage,
        decreases entries.len() - i,
    {
        if entries[i].stage == stage {
            return true;
        }
        i = i + 1;
    }
    false
}

/// Diagnostic for a module without pass directives that lacks `vs_main` or a fragment entry.
pub open spec fn default_entry_message(label: Seq<char>, has_vs: bool, has_fs: bool) -> Seq<char> {
    label + ": expected a vs_main vertex entry point and at least one @fragment entry point (vertex="@
        + bool_text(has_vs) + " fragment="@ + bool_text(has_fs) + ")"@
}

/// Start of every diagnostic about one pass: label, pass name and pass type.
pub open spec fn pass_prefix(label: Seq<char>, pass: BuildPassDirective) -> Seq<char> {
    label + ": pass `"@ + pass.name@ + "` ("@ + pass.pass_type@ + ") "@
}

/// Diagnostic for a pass whose vertex or fragment entry point is missing.
pub open spec fn pass_entry_message(
    label: Seq<char>,
    pass: BuildPassDirective,
    has_vs: bool,
    has_fs: bool,
) -> Seq<char> {
    pass_prefix(label, pass) + "expected entry points "@ + pass.vertex_entry@ + " and "@
        + pass.fragment_entry@ + " (vertex="@ + bool_text(has_vs) + " fragment="@ + bool_text(
        has_fs,
    ) + ")"@
}

/// Whether the module has both entry points that `pass` names.
pub open spec fn pass_has_entries(entries: Seq<EntryPointInfo>, pass: BuildPassDirective) -> bool {
    has_entry(entries, ShaderStage::Vertex, pass.vertex_entry@) && has_entry(
        entries,
        ShaderStage::Fragment,
        pass.fragment_entry@,
    )
}

/// The diagnostic for the first pass, in order, whose entry points are missing.
pub open spec fn passes_entry_error(
    entries: Seq<EntryPointInfo>,
    label: Seq<char>,
    passes: Seq<BuildPassDirective>,
) -> Option<Seq<char>>
    decreases passes.len(),
{
    if passes.len() == 0 {
        None
    } else if !pass_has_entries(entries, passes[0]) {
        Some(
            pass_entry_message(
                label,
                passes[0],
                has_entry(entries, ShaderStage::Vertex, passes[0].vertex_entry@),
                has_entry(entries, ShaderStage::Fragment, passes[0].fragment_entry@),
            ),
        )
    } else {
        passes_entry_error(entries, label, passes.drop_first())
    }
}

/// What [`validate_entry_points`] reports: without passes, a compute entry or `vs_main` plus a
/// fragment entry suffice; with passes, each pass needs its two named entry points.
pub open spec fn entry_points_error(
    entries: Seq<EntryPointInfo>,
    label: Seq<char>,
    passes: Seq<BuildPassDirective>,
) -> Option<Seq<char>> {
    if passes.len() == 0 {
        let has_vs = has_entry(entries, ShaderStage::Vertex, "vs_main"@);
        let has_fs = has_stage(entries, ShaderStage::Fragment);
        if has_stage(entries, ShaderStage::Compute) || (has_vs && has_fs) {
            None
        } else {
            Some(default_entry_message(label, has_vs, has_fs))
        }
    } else {
        passes_entry_error(entries, label, passes)
    }
}

/// Checks that `module` declares the entry points required by `passes`.
pub fn validate_entry_points(
    module: &ModuleInterface,
    label: &str,
    passes: &[BuildPassDirective],
) -> (r: Result<(), BuildError>)
    ensures
        outcome(r) == entry_points_error(module.entry_points@, label@, passes@),
{
    let entries = &module.entry_points;
    if passes.len() == 0 {
        if has_stage_entry(entries, ShaderStage::Compute) {
            return Ok(());
        }
        let has_vs = has_entry_point(entries, ShaderStage::Vertex, "vs_main");
        let has_fs = has_stage_entry(entries, ShaderStage::Fragment);
        if !has_vs || !has_fs {
            let mut m = label.to_owned();
            m.append(
                ": expected a vs_main vertex entry point and at least one @fragment entry point (vertex=",
            );
            push_bool(&mut m, has_vs);
            m.append(" fragment=");
            push_bool(&mut m, has_fs);
            m.append(")");
            proof {
                assert(m@ =~= default_entry_message(label@, has_vs, has_fs));
            }
            return Err(BuildError::Message(m));
        }
        return Ok(());
    }
    let mut i: usize = 0;
    assert(passes@.skip(0) =~= passes@);
    while i < passes.len()
        invariant
            i <= passes.len(),
            passes@.len() > 0,
            entries@ == module.entry_points@,
            passes_entry_error(entries@, label@, passes@) == passes_entry_error(
                entries@,
                label@,
                passes@.skip(i as int),
            ),
        decreases passes.len() - i,
    {
        let pass = &passes[i];
        proof {
            assert(passes@.skip(i as int)[0] == passes@[i as int]);
            assert(passes@.skip(i as int).drop_first() =~= passes@.skip(i + 1));
        }
        let has_vs = has_entry_point(entries, ShaderStage::Vertex, pass.vertex_entry.as_str());
        let has_fs = has_entry_point(entries, ShaderStage::Fragment, pass.fragment_entry.as_str());
        if !has_vs || !has_fs {
            let mut m = label.to_owned();
            m.append(": pass `");
            m.append(pass.name.as_str());
            m.append("` (");
            m.append(pass.pass_type.as_str());
            m.append(") ");
            m.append("expected entry points ");
            m.append(pass.vertex_entry.as_str());
            m.append(" and ");
            m.append(pass.fragment_entry.as_str());
            m.append(" (vertex=");
            push_bool(&mut m, has_vs);
            m.append(" fragment=");
            push_bool(&mut m, has_fs);
            m.append(")");
            proof {
                assert(m@ =~= pass_entry_message(label@, *pass, has_vs, has_fs));
            }
            return Err(BuildError::Message(m));
        }
        i = i + 1;
    }
    proof {
        assert(passes@.skip(passes.len() as int) =~= Seq::<BuildPassDirective>::empty());
    }
    Ok(())
}

/// The slot of a `@location` binding.
pub open spec fn slot_at(b: Seq<IoBinding>, i: int) -> IoSlot {
    b[i]->Location_0
}

/// Whether binding `i` is a `@location` binding.
pub open spec fn is_location(b: Seq<IoBinding>, i: int) -> bool {
    0 <= i < b.len() && b[i] is Location
}

/// Binding `j` is a `@location` that an earlier binding already declared.
pub open spec fn repeats_earlier(b: Seq<IoBinding>, j: int) -> bool {
    is_location(b, j) && exists|i: int|
        0 <= i < j && #[trigger] is_location(b, i) && slot_at(b, i).location == slot_at(b, j).location
}

/// The location of the first binding, in order, that repeats an earlier `@location`.
pub open spec fn first_duplicate(b: Seq<IoBinding>) -> Option<u32>
    decreases b.len(),
{
    if b.len() == 0 {
        None
    } else {
        match first_duplicate(b.drop_last()) {
            Some(l) => Some(l),
            None => if repeats_earlier(b, b.len() - 1) {
                Some(slot_at(b, b.len() - 1).location)
            } else {
                None
            },
        }
    }
}

/// No two `@location` bindings share a location.
pub open spec fn distinct_locations(b: Seq<IoBinding>) -> bool {
    forall|i: int, j: int|
        #![trigger is_location(b, i), is_location(b, j)]
        is_location(b, i) && is_location(b, j) && i != j ==> slot_at(b, i).location != slot_at(
            b,
            j,
        ).location
}

/// Diagnostic for a repeated `@location`.
pub open spec fn duplicate_message(owner: Seq<char>, location: u32) -> Seq<char> {
    owner + " declares duplicate @location("@ + decimal(location as nat) + ")"@
}

/// What [`check_duplicate_locations`] reports.
pub open spec fn duplicate_error(owner: Seq<char>, b: Seq<IoBinding>) -> Option<Seq<char>> {
    match first_duplicate(b) {
        Some(l) => Some(duplicate_message(owner, l)),
        None => None,
    }
}

/// Without a repeated location, all `@location` bindings have distinct locations.
pub proof fn lemma_no_duplicate_distinct(b: Seq<IoBinding>)
    requires
        first_duplicate(b) is None,
    ensures
        distinct_locations(b),
    decreases b.len(),
{
    if b.len() > 0 {
        let p = b.drop_last();
        lemma_no_duplicate_distinct(p);
        assert forall|i: int, j: int|
            #![trigger is_location(b, i), is_location(b, j)]
            is_location(b, i) && is_location(b, j) && i != j implies slot_at(b, i).location
            != slot_at(b, j).location by {
            let n = b.len() - 1;
            if i < n && j < n {
                assert(is_location(p, i) && is_location(p, j));
            } else if j == n {
                assert(!repeats_earlier(b, n));
            } else {
                assert(!repeats_earlier(b, n));
                assert(is_location(b, j));
            }
        }
    }
}

/// Checks that no two `@location` bindings of `bindings` share a location; `owner` names the
/// entry point side in the diagnostic.
pub fn check_duplicate_locations(bindings: &Vec<IoBinding>, owner: &str) -> (r: Result<
    (),
    BuildError,
>)
    ensures
        outcome(r) == duplicate_error(owner@, bindings@),
{
    let ghost b = bindings@;
    let mut j: usize = 0;
    while j < bindings.len()
        invariant
            j <= b.len(),
            b == bindings@,
            first_duplicate(b.take(j as int)) is None,
        decreases b.len() - j,
    {
        proof {
            assert(b.take(j + 1).drop_last() =~= b.take(j as int));
        }
        if let IoBinding::Location(slot) = &bindings[j] {
            let mut i: usize = 0;
            while i < j
                invariant
                    i <= j < b.len(),
                    b == bindings@,
                    b[j as int] is Location,
                    *slot == slot_at(b, j as int),
                    first_duplicate(b.take(j as int)) is None,
                    forall|k: int|
                        0 <= k < i ==> !(#[trigger] is_location(b, k) && slot_at(b, k).location
                            == slot.location),
                decreases j - i,
            {
                if let IoBinding::Location(other) = &bindings[i] {
                    if other.location == slot.location {
                        let mut m = owner.to_owned();
                        m.append(" declares duplicate @location(");
                        push_decimal(&mut m, slot.location as usize);
                        m.append(")");
                        proof {
                            let t = b.take(j + 1);
                            assert(t.drop_last() =~= b.take(j as int));
                            assert(is_location(t, i as int));
                            assert(repeats_earlier(t, j as int));
                            assert(first_duplicate(t) == Some(slot.location));
                            lemma_prefix_duplicate(b, (j + 1) as int);
                            assert(m@ =~= duplicate_message(owner@, slot.location));
                        }
                        return Err(BuildError::Message(m));
                    }
                }
                i = i + 1;
            }
            proof {
                let t = b.take(j + 1);
                assert forall|k: int| 0 <= k < j implies !(#[trigger] is_location(t, k) && slot_at(
                    t,
                    k,
                ).location == slot_at(t, j as int).location) by {
                    assert(!(is_location(b, k) && slot_at(b, k).location == slot.location));
                }
                assert(!repeats_earlier(t, j as int));
            }
        } else {
            proof {
                assert(!repeats_earlier(b.take(j + 1), j as int));
            }
        }
        j = j + 1;
    }
    proof {
        assert(b.take(b.len() as int) =~= b);
    }
    Ok(())
}

/// The first duplicate of a prefix is the first duplicate of the whole sequence.
pub proof fn lemma_prefix_duplicate(b: Seq<IoBinding>, n: int)
    requires
        0 <= n <= b.len(),
        first_duplicate(b.take(n)) is Some,
    ensures
        first_duplicate(b) == first_duplicate(b.take(n)),
    decreases b.len() - n,
{
    if n < b.len() {
        assert(b.take(n + 1).drop_last() =~= b.take(n));
        lemma_prefix_duplicate(b, n + 1);
    } else {
        assert(b.take(n) =~= b);
    }
}

/// Name of an interpolation mode, as `Debug` writes it.
pub open spec fn interpolation_name(i: Interpolation) -> Seq<char> {
    match i {
        Interpolation::Perspective => "Perspective"@,
        Interpolation::Linear => "Linear"@,
        Interpolation::Flat => "Flat"@,
        Interpolation::PerVertex => "PerVertex"@,
    }
}

/// Name of a sampling mode, as `Debug` writes it.
pub open spec fn sampling_name(s: Sampling) -> Seq<char> {
    match s {
        Sampling::Center => "Center"@,
        Sampling::Centroid => "Centroid"@,
        Sampling::Sample => "Sample"@,
        Sampling::First => "First"@,
        Sampling::Either => "Either"@,
    }
}

/// `Debug` text of an optional interpolation mode.
pub open spec fn interpolation_text(i: Option<Interpolation>) -> Seq<char> {
    option_text(
        match i {
            Some(v) => Some(interpolation_name(v)),
            None => None,
        },
    )
}

/// `Debug` text of an optional sampling mode.
pub open spec fn sampling_text(s: Option<Sampling>) -> Seq<char> {
    option_text(
        match s {
            Some(v) => Some(sampling_name(v)),
            None => None,
        },
    )
}

/// `Debug` text of an optional blend source index.
pub open spec fn blend_src_text(b: Option<u32>) -> Seq<char> {
    option_text(
        match b {
            Some(v) => Some(decimal(v as nat)),
            None => None,
        },
    )
}

/// How a slot is interpolated, as the interface diagnostics describe it.
pub open spec fn io_slot_text(s: IoSlot) -> Seq<char> {
    "interpolation="@ + interpolation_text(s.interpolation) + " sampling="@ + sampling_text(
        s.sampling,
    ) + " blend_src="@ + blend_src_text(s.blend_src) + " per_primitive="@ + bool_text(
        s.per_primitive,
    )
}

fn push_interpolation(out: &mut String, i: Option<Interpolation>)
    ensures
        final(out)@ == old(out)@ + interpolation_text(i),
{
    match i {
        Some(v) => {
            out.append("Some(");
            match v {
                Interpolation::Perspective => out.append("Perspective"),
                Interpolation::Linear => out.append("Linear"),
                Interpolation::Flat => out.append("Flat"),
                Interpolation::PerVertex => out.append("PerVertex"),
            }
            out.append(")");
        },
        None => out.append("None"),
    }
}

fn push_sampling(out: &mut String, s: Option<Sampling>)
    ensures
        final(out)@ == old(out)@ + sampling_text(s),
{
    match s {
        Some(v) => {
            out.append("Some(");
            match v {
                Sampling::Center => out.append("Center"),
                Sampling::Centroid => out.append("Centroid"),
                Sampling::Sample => out.append("Sample"),
                Sampling::First => out.append("First"),
                Sampling::Either => out.append("Either"),
            }
            out.append(")");
        },
        None => out.append("None"),
    }
}

fn push_blend_src(out: &mut String, b: Option<u32>)
    ensures
        final(out)@ == old(out)@ + blend_src_text(b),
{
    match b {
        Some(v) => {
            out.append("Some(");
            push_decimal(out, v as usize);
            out.append(")");
        },
        None => out.append("None"),
    }
}

/// Describes how a slot is interpolated, for interface diagnostics.
pub fn io_slot_label(slot: &IoSlot) -> (r: String)
    ensures
        r@ == io_slot_text(*slot),
{
    let mut r = "interpolation=".to_owned();
    push_interpolation(&mut r, slot.interpolation);
    r.append(" sampling=");
    push_sampling(&mut r, slot.sampling);
    r.append(" blend_src=");
    push_blend_src(&mut r, slot.blend_src);
    r.append(" per_primitive=");
    push_bool(&mut r, slot.per_primitive);
    r
}

/// Some `@location` output of `outs` is at `l`.
pub open spec fn writes_location(outs: Seq<IoBinding>, l: u32) -> bool {
    exists|i: int| #[trigger] is_location(outs, i) && slot_at(outs, i).location == l
}

/// The output slot at location `l`.
pub open spec fn written_slot(outs: Seq<IoBinding>, l: u32) -> IoSlot {
    slot_at(outs, choose|i: int| #[trigger] is_location(outs, i) && slot_at(outs, i).location == l)
}

/// Both slots are interpolated and sampled alike.
pub open spec fn same_interpolation(a: IoSlot, b: IoSlot) -> bool {
    a.interpolation == b.interpolation && a.sampling == b.sampling && a.blend_src == b.blend_src
        && a.per_primitive == b.per_primitive
}

/// The fragment input `f` is not matched by a vertex output of the same type and
/// interpolation.
pub open spec fn input_fails(outs: Seq<IoBinding>, f: IoSlot) -> bool {
    !writes_location(outs, f.location) || written_slot(outs, f.location).type_key != f.type_key
        || !same_interpolation(written_slot(outs, f.location), f)
}

/// Diagnostic for the fragment input `f` that fails; `prefix` names label and pass.
pub open spec fn input_message(
    prefix: Seq<char>,
    vname: Seq<char>,
    fname: Seq<char>,
    outs: Seq<IoBinding>,
    f: IoSlot,
) -> Seq<char> {
    let loc = decimal(f.location as nat);
    let v = written_slot(outs, f.location);
    if !writes_location(outs, f.location) {
        prefix + "fragment entry "@ + fname + " reads @location("@ + loc
            + "), but vertex entry "@ + vname + " does not write it"@
    } else if v.type_key != f.type_key {
        prefix + "@location("@ + loc + ") type mismatch between vertex "@ + vname + " ("@
            + v.type_label@ + ") and fragment "@ + fname + " ("@ + f.type_label@ + ")"@
    } else {
        prefix + "@location("@ + loc + ") interpolation mismatch between vertex "@ + vname
            + " ("@ + io_slot_text(v) + ") and fragment "@ + fname + " ("@ + io_slot_text(f)
            + ")"@
    }
}

/// Binding `i` of `ins` is a fragment input that fails.
pub open spec fn failing_input(outs: Seq<IoBinding>, ins: Seq<IoBinding>, i: int) -> bool {
    is_location(ins, i) && input_fails(outs, slot_at(ins, i))
}

/// The failing fragment input with the lowest location.
pub open spec fn first_failing_input(outs: Seq<IoBinding>, ins: Seq<IoBinding>) -> int {
    choose|j: int|
        #[trigger] failing_input(outs, ins, j) && forall|k: int|
            #[trigger] failing_input(outs, ins, k) ==> slot_at(ins, j).location <= slot_at(
                ins,
                k,
            ).location
}

/// What the interface comparison reports: the failing fragment input with the lowest location,
/// if any.
pub open spec fn interface_error(
    prefix: Seq<char>,
    vname: Seq<char>,
    fname: Seq<char>,
    outs: Seq<IoBinding>,
    ins: Seq<IoBinding>,
) -> Option<Seq<char>> {
    if exists|j: int| #[trigger] failing_input(outs, ins, j) {
        Some(input_message(prefix, vname, fname, outs, slot_at(ins, first_failing_input(outs, ins))))
    } else {
        None
    }
}

/// Owner named in duplicate-output diagnostics.
pub open spec fn output_owner(label: Seq<char>, vertex: EntryPointInfo) -> Seq<char> {
    label + ": vertex entry "@ + vertex.name@ + " output"@
}

/// Owner named in duplicate-input diagnostics.
pub open spec fn input_owner(label: Seq<char>, fragment: EntryPointInfo) -> Seq<char> {
    label + ": fragment entry "@ + fragment.name@ + " input"@
}

/// What [`validate_pass_interface_pair`] reports: a repeated output location, else a repeated
/// input location, else the first mismatching fragment input by location.
pub open spec fn pass_interface_error(
    label: Seq<char>,
    pass: BuildPassDirective,
    vertex: EntryPointInfo,
    fragment: EntryPointInfo,
) -> Option<Seq<char>> {
    match duplicate_error(output_owner(label, vertex), vertex.outputs@) {
        Some(e) => Some(e),
        None => match duplicate_error(input_owner(label, fragment), fragment.inputs@) {
            Some(e) => Some(e),
            None => interface_error(
                pass_prefix(label, pass),
                vertex.name@,
                fragment.name@,
                vertex.outputs@,
                fragment.inputs@,
            ),
        },
    }
}

/// With distinct locations, the output at `l` is the one found at position `i`.
proof fn lemma_written_slot_unique(outs: Seq<IoBinding>, l: u32, i: int)
    requires
        distinct_locations(outs),
        is_location(outs, i),
        slot_at(outs, i).location == l,
    ensures
        writes_location(outs, l),
        written_slot(outs, l) == slot_at(outs, i),
{
    let c = choose|c: int| #[trigger] is_location(outs, c) && slot_at(outs, c).location == l;
    assert(is_location(outs, c) && slot_at(outs, c).location == l);
    if c != i {
        assert(slot_at(outs, c).location != slot_at(outs, i).location);
    }
}

/// Position of the `@location(l)` binding of `outs`, if any.
fn find_location(outs: &Vec<IoBinding>, l: u32) -> (r: Option<usize>)
    ensures
        r is None <==> !writes_location(outs@, l),
        r matches Some(i) ==> is_location(outs@, i as int) && slot_at(outs@, i as int).location
            == l,
{
    let mut i: usize = 0;
    while i < outs.len()
        invariant
            i <= outs.len(),
            forall|k: int| 0 <= k < i ==> !(#[trigger] is_location(outs@, k) && slot_at(outs@, k).location == l),
        decreases outs.len() - i,
    {
        if let IoBinding::Location(s) = &outs[i] {
            if s.location == l {
                assert(is_location(outs@, i as int) && slot_at(outs@, i as int).location == l);
                return Some(i);
            }
        }
        i = i + 1;
    }
    None
}

fn same_interpolation_exec(a: &IoSlot, b: &IoSlot) -> (r: bool)
    ensures
        r == same_interpolation(*a, *b),
{
    let i = match (a.interpolation, b.interpolation) {
        (None, None) => true,
        (Some(x), Some(y)) => x == y,
        _ => false,
    };
    let s = match (a.sampling, b.sampling) {
        (None, None) => true,
        (Some(x), Some(y)) => x == y,
        _ => false,
    };
    let bl = match (a.blend_src, b.blend_src) {
        (None, None) => true,
        (Some(x), Some(y)) => x == y,
        _ => false,
    };
    i && s && bl && a.per_primitive == b.per_primitive
}

/// Whether the fragment input `f` fails against `outs`.
fn input_fails_exec(outs: &Vec<IoBinding>, f: &IoSlot) -> (r: bool)
    requires
        distinct_locations(outs@),
    ensures
        r == input_fails(outs@, *f),
{
    match find_location(outs, f.location) {
        None => true,
        Some(vi) => {
            proof {
                lemma_written_slot_unique(outs@, f.location, vi as int);
            }
            if let IoBinding::Location(v) = &outs[vi] {
                v.type_key != f.type_key || !same_interpolation_exec(v, f)
            } else {
                true
            }
        },
    }
}

/// Builds the diagnostic for a failing fragment input.
fn input_failure_message(
    label: &str,
    pass: &BuildPassDirective,
    vname: &str,
    fname: &str,
    outs: &Vec<IoBinding>,
    f: &IoSlot,
) -> (r: String)
    requires
        distinct_locations(outs@),
    ensures
        r@ == input_message(pass_prefix(label@, *pass), vname@, fname@, outs@, *f),
{
    let mut m = label.to_owned();
    m.append(": pass `");
    m.append(pass.name.as_str());
    m.append("` (");
    m.append(pass.pass_type.as_str());
    m.append(") ");
    let ghost prefix = m@;
    assert(prefix =~= pass_prefix(label@, *pass));
    match find_location(outs, f.location) {
        None => {
            m.append("fragment entry ");
            m.append(fname);
            m.append(" reads @location(");
            push_decimal(&mut m, f.location as usize);
            m.append("), but vertex entry ");
            m.append(vname);
            m.append(" does not write it");
            assert(m@ =~= input_message(prefix, vname@, fname@, outs@, *f));
        },
        Some(vi) => {
            proof {
                lemma_written_slot_unique(outs@, f.location, vi as int);
            }
            if let IoBinding::Location(v) = &outs[vi] {
                if v.type_key != f.type_key {
                    m.append("@location(");
                    push_decimal(&mut m, f.location as usize);
                    m.append(") type mismatch between vertex ");
                    m.append(vname);
                    m.append(" (");
                    m.append(v.type_label.as_str());
                    m.append(") and fragment ");
                    m.append(fname);
                    m.append(" (");
                    m.append(f.type_label.as_str());
                    m.append(")");
                    assert(m@ =~= input_message(prefix, vname@, fname@, outs@, *f));
                } else {
                    let vl = io_slot_label(v);
                    let fl = io_slot_label(f);
                    m.append("@location(");
                    push_decimal(&mut m, f.location as usize);
                    m.append(") interpolation mismatch between vertex ");
                    m.append(vname);
                    m.append(" (");
                    m.append(vl.as_str());
                    m.append(") and fragment ");
                    m.append(fname);
                    m.append(" (");
                    m.append(fl.as_str());
                    m.append(")");
                    assert(m@ =~= input_message(prefix, vname@, fname@, outs@, *f));
                }
            }
        },
    }
    m
}

/// Checks that the fragment entry of `pass` reads only vertex outputs of the same location,
/// type and interpolation, after checking that neither side repeats a location.
pub fn validate_pass_interface_pair(
    label: &str,
    pass: &BuildPassDirective,
    vertex: &EntryPointInfo,
    fragment: &EntryPointInfo,
) -> (r: Result<(), BuildError>)
    ensures
        outcome(r) == pass_interface_error(label@, *pass, *vertex, *fragment),
{
    let mut vo = label.to_owned();
    vo.append(": vertex entry ");
    vo.append(vertex.name.as_str());
    vo.append(" output");
    assert(vo@ =~= output_owner(label@, *vertex));
    match check_duplicate_locations(&vertex.outputs, vo.as_str()) {
        Err(e) => return Err(e),
        Ok(()) => {},
    }
    let mut fo = label.to_owned();
    fo.append(": fragment entry ");
    fo.append(fragment.name.as_str());
    fo.append(" input");
    assert(fo@ =~= input_owner(label@, *fragment));
    match check_duplicate_locations(&fragment.inputs, fo.as_str()) {
        Err(e) => return Err(e),
        Ok(()) => {},
    }
    let outs = &vertex.outputs;
    let ins = &fragment.inputs;
    proof {
        lemma_no_duplicate_distinct(outs@);
        lemma_no_duplicate_distinct(ins@);
    }
    let mut best: Option<usize> = None;
    let mut i: usize = 0;
    while i < ins.len()
        invariant
            i <= ins.len(),
            outs@ == vertex.outputs@,
            ins@ == fragment.inputs@,
            distinct_locations(outs@),
            distinct_locations(ins@),
            best matches Some(b) ==> b < i && failing_input(outs@, ins@, b as int) && forall|k: int|
                0 <= k < i && #[trigger] failing_input(outs@, ins@, k) ==> slot_at(ins@, b as int).location
                    <= slot_at(ins@, k).location,
            best is None ==> forall|k: int| 0 <= k < i ==> !#[trigger] failing_input(outs@, ins@, k),
        decreases ins.len() - i,
    {
        if let IoBinding::Location(f) = &ins[i] {
            if input_fails_exec(outs, f) {
                match best {
                    None => {
                        best = Some(i);
                    },
                    Some(b) => {
                        if let IoBinding::Location(bs) = &ins[b] {
                            if f.location < bs.location {
                                best = Some(i);
                            }
                        }
                    },
                }
            }
        }
        i = i + 1;
    }
    match best {
        None => Ok(()),
        Some(b) => {
            if let IoBinding::Location(f) = &ins[b] {
                let m = input_failure_message(
                    label,
                    pass,
                    vertex.name.as_str(),
                    fragment.name.as_str(),
                    outs,
                    f,
                );
                proof {
                    let c = first_failing_input(outs@, ins@);
                    assert(failing_input(outs@, ins@, b as int));
                    assert(failing_input(outs@, ins@, c) && forall|k: int|
                        #[trigger] failing_input(outs@, ins@, k) ==> slot_at(ins@, c).location
                            <= slot_at(ins@, k).location);
                    if c != b as int {
                        assert(slot_at(ins@, c).location <= slot_at(ins@, b as int).location);
                        assert(slot_at(ins@, b as int).location <= slot_at(ins@, c).location);
                        assert(is_location(ins@, c) && is_location(ins@, b as int));
                    }
                }
                Err(BuildError::Message(m))
            } else {
                Ok(())
            }
        },
    }
}

/// Position of the first entry point of `stage` called `name`.
pub open spec fn first_entry(entries: Seq<EntryPointInfo>, stage: ShaderStage, name: Seq<char>) -> int {
    choose|i: int|
        0 <= i < entries.len() && #[trigger] is_entry(entries[i], stage, name) && forall|k: int|
            0 <= k < i ==> !#[trigger] is_entry(entries[k], stage, name)
}

/// What [`validate_pass_interfaces`] reports: for the first pass, in order, that fails, a
/// missing vertex or fragment entry point or the interface diagnostic of its pair.
pub open spec fn pass_interfaces_error(
    entries: Seq<EntryPointInfo>,
    label: Seq<char>,
    passes: Seq<BuildPassDirective>,
) -> Option<Seq<char>>
    decreases passes.len(),
{
    if passes.len() == 0 {
        None
    } else {
        let p = passes[0];
        if !has_entry(entries, ShaderStage::Vertex, p.vertex_entry@) {
            Some(pass_prefix(label, p) + "missing vertex entry point "@ + p.vertex_entry@)
        } else if !has_entry(entries, ShaderStage::Fragment, p.fragment_entry@) {
            Some(pass_prefix(label, p) + "missing fragment entry point "@ + p.fragment_entry@)
        } else {
            match pass_interface_error(
                label,
                p,
                entries[first_entry(entries, ShaderStage::Vertex, p.vertex_entry@)],
                entries[first_entry(entries, ShaderStage::Fragment, p.fragment_entry@)],
            ) {
                Some(e) => Some(e),
                None => pass_interfaces_error(entries, label, passes.drop_first()),
            }
        }
    }
}

/// Position of the first entry point of `stage` called `name`, if any.
fn find_entry_point(entries: &Vec<EntryPointInfo>, stage: ShaderStage, name: &str) -> (r: Option<
    usize,
>)
    ensures
        r is None <==> !has_entry(entries@, stage, name@),
        r matches Some(i) ==> i == first_entry(entries@, stage, name@) && i < entries@.len(),
{
    let mut i: usize = 0;
    while i < entries.len()
        invariant
            i <= entries.len(),
            forall|k: int| 0 <= k < i ==> !#[trigger] is_entry(entries@[k], stage, name@),
        decreases entries.len() - i,
    {
        if entries[i].stage == stage && eq_str(entries[i].name.as_str(), name) {
            proof {
                let c = first_entry(entries@, stage, name@);
                assert(is_entry(entries@[i as int], stage, name@));
                if c != i as int {
                    if c < i {
                        assert(!is_entry(entries@[c], stage, name@));
                    } else {
                        assert(!is_entry(entries@[i as int], stage, name@));
                    }
                }
            }
            return Some(i);
        }
        i = i + 1;
    }
    None
}

/// Checks that every declared pass has compatible vertex output and fragment input locations.
pub fn validate_pass_interfaces(
    module: &ModuleInterface,
    label: &str,
    passes: &[BuildPassDirective],
) -> (r: Result<(), BuildError>)
    ensures
        outcome(r) == pass_interfaces_error(module.entry_points@, label@, passes@),
{
    let entries = &module.entry_points;
    let mut i: usize = 0;
    assert(passes@.skip(0) =~= passes@);
    while i < passes.len()
        invariant
            i <= passes.len(),
            entries@ == module.entry_points@,
            pass_interfaces_error(entries@, label@, passes@) == pass_interfaces_error(
                entries@,
                label@,
                passes@.skip(i as int),
            ),
        decreases passes.len() - i,
    {
        let pass = &passes[i];
        proof {
            assert(passes@.skip(i as int)[0] == passes@[i as int]);
            assert(passes@.skip(i as int).drop_first() =~= passes@.skip(i + 1));
        }
        let vi = match find_entry_point(entries, ShaderStage::Vertex, pass.vertex_entry.as_str()) {
            Some(vi) => vi,
            None => {
                let mut m = label.to_owned();
                m.append(": pass `");
                m.append(pass.name.as_str());
                m.append("` (");
                m.append(pass.pass_type.as_str());
                m.append(") ");
                m.append("missing vertex entry point ");
                m.append(pass.vertex_entry.as_str());
                assert(m@ =~= pass_prefix(label@, *pass) + "missing vertex entry point "@
                    + pass.vertex_entry@);
                return Err(BuildError::Message(m));
            },
        };
        let fi = match find_entry_point(
            entries,
            ShaderStage::Fragment,
            pass.fragment_entry.as_str(),
        ) {
            Some(fi) => fi,
            None => {
                let mut m = label.to_owned();
                m.append(": pass `");
                m.append(pass.name.as_str());
                m.append("` (");
                m.append(pass.pass_type.as_str());
                m.append(") ");
                m.append("missing fragment entry point ");
                m.append(pass.fragment_entry.as_str());
                assert(m@ =~= pass_prefix(label@, *pass) + "missing fragment entry point "@
                    + pass.fragment_entry@);
                return Err(BuildError::Message(m));
            },
        };
        match validate_pass_interface_pair(label, pass, &entries[vi], &entries[fi]) {
            Err(e) => return Err(e),
            Ok(()) => {},
        }
        i = i + 1;
    }
    proof {
        assert(passes@.skip(passes.len() as int) =~= Seq::<BuildPassDirective>::empty());
    }
    Ok(())
}

/// Position of the first canonical material-control name that `name` looks like.
pub open spec fn first_confusable(name: Seq<char>) -> int {
    choose|i: int|
        0 <= i < control_names().len() && #[trigger] confusable(name, control_names()[i])
            && forall|j: int| 0 <= j < i ==> !#[trigger] confusable(name, control_names()[j])
}

/// `name` looks like some canonical material-control name.
pub open spec fn looks_like_control_name(name: Seq<char>) -> bool {
    exists|i: int| 0 <= i < control_names().len() && #[trigger] confusable(name, control_names()[i])
}

/// Shared tail of both uniform diagnostics.
pub open spec fn uniform_advice() -> Seq<char> {
    ". Material-control properties flow through MaterialBlendMode + MaterialRenderState or draw ordering; "@
}

/// Diagnostic for a uniform field that is a material-control property.
pub open spec fn control_field_message(label: Seq<char>, sname: Seq<char>, name: Seq<char>) -> Seq<
    char,
> {
    label + ": material uniform struct `"@ + sname + "` declares material-control field `"@ + name
        + "` at @group(1) @binding(0)"@ + uniform_advice()
        + "remove the field from the WGSL struct."@
}

/// Diagnostic for a uniform field that looks like the material-control property `canonical`.
pub open spec fn typo_field_message(
    label: Seq<char>,
    sname: Seq<char>,
    name: Seq<char>,
    canonical: Seq<char>,
) -> Seq<char> {
    label + ": material uniform struct `"@ + sname + "` declares field `"@ + name
        + "` at @group(1) @binding(0), which looks like material-control property `"@ + canonical
        + "`"@ + uniform_advice() + "fix the typo or remove the field from the WGSL struct."@
}

/// What the uniform check reports for one named field of struct `sname`.
pub open spec fn field_error(label: Seq<char>, sname: Seq<char>, name: Seq<char>) -> Option<
    Seq<char>,
> {
    if is_control_name(name) {
        Some(control_field_message(label, sname, name))
    } else if looks_like_control_name(name) {
        Some(typo_field_message(label, sname, name, control_names()[first_confusable(name)]))
    } else {
        None
    }
}

/// The diagnostic for the first named member, in order, that the check rejects.
pub open spec fn members_error(label: Seq<char>, sname: Seq<char>, members: Seq<Option<String>>) -> Option<
    Seq<char>,
>
    decreases members.len(),
{
    if members.len() == 0 {
        None
    } else {
        match members[0] {
            Some(n) => match field_error(label, sname, n@) {
                Some(e) => Some(e),
                None => members_error(label, sname, members.drop_first()),
            },
            None => members_error(label, sname, members.drop_first()),
        }
    }
}

/// The variable is the material uniform: a uniform struct at `@group(1) @binding(0)`.
pub open spec fn is_material_uniform(g: GlobalVariableInfo) -> bool {
    g.binding == Some((1u32, 0u32)) && g.is_uniform && g.struct_type is Some
}

/// Struct name as the diagnostics print it.
pub open spec fn struct_display_name(st: StructInfo) -> Seq<char> {
    match st.name {
        Some(n) => n@,
        None => "<unnamed>"@,
    }
}

/// What [`validate_no_pipeline_state_uniform_fields`] reports: the first rejected field of the
/// first material uniform, in declaration order.
pub open spec fn uniform_fields_error(label: Seq<char>, globals: Seq<GlobalVariableInfo>) -> Option<
    Seq<char>,
>
    decreases globals.len(),
{
    if globals.len() == 0 {
        None
    } else if !is_material_uniform(globals[0]) {
        uniform_fields_error(label, globals.drop_first())
    } else {
        let st = globals[0].struct_type->0;
        match members_error(label, struct_display_name(st), st.member_names@) {
            Some(e) => Some(e),
            None => uniform_fields_error(label, globals.drop_first()),
        }
    }
}

/// The diagnostic for one named uniform field, if the check rejects it.
fn check_uniform_field(label: &str, sname: &str, name: &str) -> (r: Option<String>)
    ensures
        r matches Some(m) ==> field_error(label@, sname@, name@) == Some(m@),
        r is None ==> field_error(label@, sname@, name@) is None,
{
    if is_material_control_property_name(name) {
        let mut m = label.to_owned();
        m.append(": material uniform struct `");
        m.append(sname);
        m.append("` declares material-control field `");
        m.append(name);
        m.append("` at @group(1) @binding(0)");
        m.append(
            ". Material-control properties flow through MaterialBlendMode + MaterialRenderState or draw ordering; ",
        );
        m.append("remove the field from the WGSL struct.");
        assert(m@ =~= control_field_message(label@, sname@, name@));
        return Some(m);
    }
    match confusing_material_control_property_name(name) {
        Some(canonical) => {
            let mut m = label.to_owned();
            m.append(": material uniform struct `");
            m.append(sname);
            m.append("` declares field `");
            m.append(name);
            m.append("` at @group(1) @binding(0), which looks like material-control property `");
            m.append(canonical);
            m.append("`");
            m.append(
                ". Material-control properties flow through MaterialBlendMode + MaterialRenderState or draw ordering; ",
            );
            m.append("fix the typo or remove the field from the WGSL struct.");
            proof {
                let i = choose|i: int|
                    0 <= i < control_names().len() && control_names()[i] == canonical@
                        && confusable(name@, control_names()[i]) && forall|j: int|
                        0 <= j < i ==> !confusable(name@, #[trigger] control_names()[j]);
                let c = first_confusable(name@);
                assert(confusable(name@, control_names()[i]));
                assert(looks_like_control_name(name@));
                if c != i {
                    if c < i {
                        assert(!confusable(name@, control_names()[c]));
                    } else {
                        assert(!confusable(name@, control_names()[i]));
                    }
                }
                assert(m@ =~= typo_field_message(label@, sname@, name@, canonical@));
            }
            Some(m)
        },
        None => None,
    }
}

/// The diagnostic for the first rejected named member of struct `sname`, if any.
fn check_struct_members(label: &str, sname: &str, members: &Vec<Option<String>>) -> (r: Option<
    String,
>)
    ensures
        r matches Some(m) ==> members_error(label@, sname@, members@) == Some(m@),
        r is None ==> members_error(label@, sname@, members@) is None,
{
    let mut mi: usize = 0;
    assert(members@.skip(0) =~= members@);
    while mi < members.len()
        invariant
            mi <= members.len(),
            members_error(label@, sname@, members@) == members_error(
                label@,
                sname@,
                members@.skip(mi as int),
            ),
        decreases members.len() - mi,
    {
        proof {
            assert(members@.skip(mi as int)[0] == members@[mi as int]);
            assert(members@.skip(mi as int).drop_first() =~= members@.skip(mi + 1));
        }
        if let Some(name) = &members[mi] {
            match check_uniform_field(label, sname, name.as_str()) {
                Some(m) => {
                    return Some(m);
                },
                None => {},
            }
        }
        mi = mi + 1;
    }
    proof {
        assert(members@.skip(members.len() as int) =~= Seq::<Option<String>>::empty());
    }
    None
}

/// Rejects any material whose `@group(1) @binding(0)` uniform contains material-control fields
/// or likely misspellings of them.
pub fn validate_no_pipeline_state_uniform_fields(module: &ModuleInterface, label: &str) -> (r: Result<
    (),
    BuildError,
>)
    ensures
        outcome(r) == uniform_fields_error(label@, module.global_variables@),
{
    let globals = &module.global_variables;
    let mut gi: usize = 0;
    assert(globals@.skip(0) =~= globals@);
    while gi < globals.len()
        invariant
            gi <= globals.len(),
            globals@ == module.global_variables@,
            uniform_fields_error(label@, globals@) == uniform_fields_error(
                label@,
                globals@.skip(gi as int),
            ),
        decreases globals.len() - gi,
    {
        let var = &globals[gi];
        proof {
            assert(globals@.skip(gi as int)[0] == globals@[gi as int]);
            assert(globals@.skip(gi as int).drop_first() =~= globals@.skip(gi + 1));
        }
        let bound = match var.binding {
            Some((g, b)) => g == 1 && b == 0,
            None => false,
        };
        if bound && var.is_uniform {
            if let Some(st) = &var.struct_type {
                let sname: &str = match &st.name {
                    Some(n) => n.as_str(),
                    None => "<unnamed>",
                };
                assert(sname@ == struct_display_name(*st));
                match check_struct_members(label, sname, &st.member_names) {
                    Some(m) => {
                        return Err(BuildError::Message(m));
                    },
                    None => {},
                }
            }
        }
        gi = gi + 1;
    }
    proof {
        assert(globals@.skip(globals.len() as int) =~= Seq::<GlobalVariableInfo>::empty());
    }
    Ok(())
}

/// Without pass directives and without a compute entry point, a module passes the entry-point
/// check exactly when it has a vertex entry point named `vs_main` and some fragment entry point.
pub proof fn lemma_default_entry_points_need_vs_main(entries: Seq<EntryPointInfo>, label: Seq<char>)
    requires
        forall|i: int| 0 <= i < entries.len() ==> (#[trigger] entries[i]).stage != ShaderStage::Compute,
    ensures
        entry_points_error(entries, label, Seq::empty()) is None <==> (exists|i: int|
            0 <= i < entries.len() && (#[trigger] entries[i]).stage == ShaderStage::Vertex
                && entries[i].name@ == "vs_main"@) && (exists|j: int|
            0 <= j < entries.len() && (#[trigger] entries[j]).stage == ShaderStage::Fragment),
{
    if has_stage(entries, ShaderStage::Compute) {
        let c = choose|c: int| 0 <= c < entries.len() && #[trigger] entries[c].stage == ShaderStage::Compute;
        assert(entries[c].stage != ShaderStage::Compute);
    }
    if exists|i: int|
        0 <= i < entries.len() && (#[trigger] entries[i]).stage == ShaderStage::Vertex
            && entries[i].name@ == "vs_main"@ {
        let i = choose|i: int|
            0 <= i < entries.len() && (#[trigger] entries[i]).stage == ShaderStage::Vertex
                && entries[i].name@ == "vs_main"@;
        assert(is_entry(entries[i], ShaderStage::Vertex, "vs_main"@));
    }
    if exists|j: int| 0 <= j < entries.len() && (#[trigger] entries[j]).stage == ShaderStage::Fragment {
        let j = choose|j: int| 0 <= j < entries.len() && (#[trigger] entries[j]).stage == ShaderStage::Fragment;
        assert(entries[j].stage == ShaderStage::Fragment);
    }
}

/// With pass directives, a module passes the entry-point check only if every pass finds a
/// vertex entry point and a fragment entry point with the names it declares.
pub proof fn lemma_pass_entry_points_present(
    entries: Seq<EntryPointInfo>,
    label: Seq<char>,
    passes: Seq<BuildPassDirective>,
    p: int,
)
    requires
        passes.len() > 0,
        entry_points_error(entries, label, passes) is None,
        0 <= p < passes.len(),
    ensures
        exists|i: int|
            0 <= i < entries.len() && (#[trigger] entries[i]).stage == ShaderStage::Vertex
                && entries[i].name@ == passes[p].vertex_entry@,
        exists|j: int|
            0 <= j < entries.len() && (#[trigger] entries[j]).stage == ShaderStage::Fragment
                && entries[j].name@ == passes[p].fragment_entry@,
    decreases p,
{
    if p == 0 {
        assert(pass_has_entries(entries, passes[0]));
        let i = choose|i: int| 0 <= i < entries.len() && #[trigger] is_entry(entries[i], ShaderStage::Vertex, passes[0].vertex_entry@);
        let j = choose|j: int| 0 <= j < entries.len() && #[trigger] is_entry(entries[j], ShaderStage::Fragment, passes[0].fragment_entry@);
        assert(entries[i].stage == ShaderStage::Vertex);
        assert(entries[j].stage == ShaderStage::Fragment);
    } else {
        assert(pass_has_entries(entries, passes[0]));
        if passes.len() == 1 {
            assert(false);
        }
        assert(passes.drop_first()[p - 1] == passes[p]);
        lemma_pass_entry_points_present(entries, label, passes.drop_first(), p - 1);
    }
}

/// A pass passes the interface check only if every fragment `@location` input is written by a
/// vertex output at the same location with the same type key, interpolation, sampling, blend
/// source and per-primitive flag.
pub proof fn lemma_pass_interface_ok_matches_inputs(
    label: Seq<char>,
    pass: BuildPassDirective,
    vertex: EntryPointInfo,
    fragment: EntryPointInfo,
    k: int,
)
    requires
        pass_interface_error(label, pass, vertex, fragment) is None,
        0 <= k < fragment.inputs@.len(),
        fragment.inputs@[k] is Location,
    ensures
        exists|v: int|
            0 <= v < vertex.outputs@.len() && (#[trigger] vertex.outputs@[v]) is Location && ({
                let o = vertex.outputs@[v]->Location_0;
                let f = fragment.inputs@[k]->Location_0;
                &&& o.location == f.location
                &&& o.type_key == f.type_key
                &&& o.interpolation == f.interpolation
                &&& o.sampling == f.sampling
                &&& o.blend_src == f.blend_src
                &&& o.per_primitive == f.per_primitive
            }),
{
    let outs = vertex.outputs@;
    let ins = fragment.inputs@;
    assert(interface_error(pass_prefix(label, pass), vertex.name@, fragment.name@, outs, ins) is None);
    assert(!failing_input(outs, ins, k));
    let f = slot_at(ins, k);
    assert(writes_location(outs, f.location));
    let c = choose|c: int| #[trigger] is_location(outs, c) && slot_at(outs, c).location == f.location;
    assert(is_location(outs, c) && slot_at(outs, c).location == f.location);
    assert(written_slot(outs, f.location) == slot_at(outs, c));
    assert(outs[c] is Location);
}

} // verus!
