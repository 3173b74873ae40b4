//! Assembly of one shader job: the pass-directive requirement, the contract checks on both
//! composed variants, flattening to WGSL, and the per-variant output targets with their
//! `@builtin(view_index)` contract.

use vstd::prelude::*;
use vstd::utf8::encode_utf8;

use crate::build_error::{outcome, BuildError};
use crate::shader_names::eq_str;
use crate::shader_validation::{
    entry_points_error, pass_interfaces_error, uniform_fields_error, validate_entry_points,
    validate_no_pipeline_state_uniform_fields, validate_pass_interfaces, BuildPassDirective,
    ModuleInterface,
};

verus! {

/// `needle` occurs in `hay` as a contiguous run.
pub open spec fn contains_bytes(hay: Seq<u8>, needle: Seq<u8>) -> bool {
    exists|i: int| 0 <= i <= hay.len() - needle.len() && #[trigger] hay.subrange(i, i + needle.len()) == needle
}

/// Whether `needle` occurs in `hay` (`str::contains` with a string pattern).
pub fn str_contains(hay: &str, needle: &str) -> (r: bool)
    ensures
        r == contains_bytes(encode_utf8(hay@), encode_utf8(needle@)),
{
    let h = hay.as_bytes();
    let n = needle.as_bytes();
    if n.len() > h.len() {
        return false;
    }
    let last = h.len() - n.len();
    let mut i: usize = 0;
    while i <= last
        invariant
            h@ == encode_utf8(hay@),
            n@ == encode_utf8(needle@),
            last == h.len() - n.len(),
            i <= last + 1,
            forall|k: int| 0 <= k < i ==> #[trigger] h@.subrange(k, k + n@.len()) != n@,
        decreases last + 1 - i,
    {
        let mut j: usize = 0;
        while j < n.len() && h[i + j] == n[j]
            invariant
                i <= last,
                last == h.len() - n.len(),
                j <= n.len(),
                forall|k: int| 0 <= k < j ==> h@[i + k] == n@[k],
            decreases n.len() - j,
        {
            j = j + 1;
        }
        if j == n.len() {
            assert(h@.subrange(i as int, i + n@.len()) =~= n@);
            return true;
        }
        assert(h@.subrange(i as int, i + n@.len())[j as int] != n@[j as int]);
        i = i + 1;
    }
    false
}

/// The two compositions of every shader source.
#[derive(Clone, Copy, Debug, PartialEq, Eq, Structural)]
pub enum ShaderVariant {
    /// Single-view rendering.
    Default,
    /// Multiview (stereo) rendering, which reads `@builtin(view_index)`.
    Multiview,
}

impl ShaderVariant {
    /// Name of the variant in labels and target stems.
    pub open spec fn name(self) -> Seq<char> {
        match self {
            ShaderVariant::Default => "default"@,
            ShaderVariant::Multiview => "multiview"@,
        }
    }

    /// Name of the variant in diagnostics labels.
    pub fn label(&self) -> (r: &'static str)
        ensures
            r@ == self.name(),
    {
        match self {
            ShaderVariant::Default => "default",
            ShaderVariant::Multiview => "multiview",
        }
    }

    /// Whether the flattened output of this variant must read `@builtin(view_index)`.
    pub fn expects_view_index(&self) -> (r: bool)
        ensures
            r == (*self == ShaderVariant::Multiview),
    {
        match self {
            ShaderVariant::Default => false,
            ShaderVariant::Multiview => true,
        }
    }

    /// Output stem of this variant for the source stem `stem`: `<stem>_<variant>`.
    pub fn target_stem(&self, stem: &str) -> (r: String)
        ensures
            r@ == stem@ + "_"@ + self.name(),
    {
        let mut r = stem.to_owned();
        r.append("_");
        r.append(self.label());
        r
    }
}

/// The text that marks a multiview shader.
pub open spec fn view_index_marker() -> Seq<char> {
    "@builtin(view_index)"@
}

/// Whether `wgsl` reads `@builtin(view_index)`.
pub open spec fn reads_view_index(wgsl: Seq<char>) -> bool {
    contains_bytes(encode_utf8(wgsl), encode_utf8(view_index_marker()))
}

/// Diagnostic for a target whose `@builtin(view_index)` use contradicts its variant.
pub open spec fn view_index_message(target_stem: Seq<char>, expected: bool) -> Seq<char> {
    target_stem + ": expected @builtin(view_index) "@ + (if expected {
        "present"@
    } else {
        "absent"@
    }) + " in output (multiview shader_defs contract)"@
}

/// What [`validate_view_index_contract`] reports.
pub open spec fn view_index_error(target_stem: Seq<char>, wgsl: Seq<char>, variant: ShaderVariant) -> Option<
    Seq<char>,
> {
    let expected = variant == ShaderVariant::Multiview;
    if expected == reads_view_index(wgsl) {
        None
    } else {
        Some(view_index_message(target_stem, expected))
    }
}

/// Checks the `@builtin(view_index)` contract for variant-sensitive outputs: the multiview
/// output reads it and the default output does not.
pub fn validate_view_index_contract(target_stem: &str, wgsl: &str, variant: ShaderVariant) -> (r: Result<
    (),
    BuildError,
>)
    ensures
        outcome(r) == view_index_error(target_stem@, wgsl@, variant),
{
    let has = str_contains(wgsl, "@builtin(view_index)");
    let expected = variant.expects_view_index();
    if expected != has {
        let mut m = target_stem.to_owned();
        m.append(": expected @builtin(view_index) ");
        if expected {
            m.append("present");
        } else {
            m.append("absent");
        }
        m.append(" in output (multiview shader_defs contract)");
        assert(m@ =~= view_index_message(target_stem@, expected));
        return Err(BuildError::Message(m));
    }
    Ok(())
}

/// What one shader job asks of its checks.
#[derive(Clone, Copy, Debug)]
pub struct ShaderValidationOptions {
    /// The source must declare at least one `//#pass` directive.
    pub require_pass_directive: bool,
    /// Each variant output is held to its `@builtin(view_index)` contract.
    pub validate_view_index: bool,
}

/// Diagnostic for a material source without pass directives.
pub open spec fn missing_pass_message(file_path: Seq<char>) -> Seq<char> {
    file_path + ": material WGSL must declare at least one //#pass directive (e.g. //#pass forward)"@
}

/// Rejects a source that declares no pass directive when the job requires one.
pub fn check_pass_directives_present(
    file_path: &str,
    options: ShaderValidationOptions,
    passes: &[BuildPassDirective],
) -> (r: Result<(), BuildError>)
    ensures
        outcome(r) == (if options.require_pass_directive && passes@.len() == 0 {
            Some(missing_pass_message(file_path@))
        } else {
            None
        }),
{
    if options.require_pass_directive && passes.len() == 0 {
        let mut m = file_path.to_owned();
        m.append(
            ": material WGSL must declare at least one //#pass directive (e.g. //#pass forward)",
        );
        return Err(BuildError::Message(m));
    }
    Ok(())
}

/// One flattened WGSL output.
#[derive(Clone, Debug)]
pub struct CompiledShaderTarget {
    pub target_stem: String,
    pub wgsl: String,
}

/// Stem and WGSL text of a target.
pub open spec fn target_view(t: CompiledShaderTarget) -> (Seq<char>, Seq<char>) {
    (t.target_stem@, t.wgsl@)
}

/// The targets of a source whose two variants flatten to `default_wgsl` and `multiview_wgsl`:
/// one target under the bare stem when they are equal, else one per variant, each held to the
/// view-index contract when `validate` is set (the default variant first).
pub open spec fn targets_outcome(
    stem: Seq<char>,
    default_wgsl: Seq<char>,
    multiview_wgsl: Seq<char>,
    validate: bool,
) -> Result<Seq<(Seq<char>, Seq<char>)>, Seq<char>> {
    let dstem = stem + "_"@ + ShaderVariant::Default.name();
    let mstem = stem + "_"@ + ShaderVariant::Multiview.name();
    if default_wgsl == multiview_wgsl {
        Ok(seq![(stem, default_wgsl)])
    } else if validate && view_index_error(dstem, default_wgsl, ShaderVariant::Default) is Some {
        Err(view_index_error(dstem, default_wgsl, ShaderVariant::Default)->0)
    } else if validate && view_index_error(mstem, multiview_wgsl, ShaderVariant::Multiview) is Some {
        Err(view_index_error(mstem, multiview_wgsl, ShaderVariant::Multiview)->0)
    } else {
        Ok(seq![(dstem, default_wgsl), (mstem, multiview_wgsl)])
    }
}

/// Views of a result of target assembly.
pub open spec fn targets_result_view(r: Result<Vec<CompiledShaderTarget>, BuildError>) -> Result<
    Seq<(Seq<char>, Seq<char>)>,
    Seq<char>,
> {
    match r {
        Ok(v) => Ok(v@.map_values(|t: CompiledShaderTarget| target_view(t))),
        Err(e) => Err(e.text()),
    }
}

/// Turns the flattened WGSL of both variants into output targets.
pub fn assemble_targets(
    stem: &str,
    default_wgsl: String,
    multiview_wgsl: String,
    validate_view_index: bool,
) -> (r: Result<Vec<CompiledShaderTarget>, BuildError>)
    ensures
        targets_result_view(r) == targets_outcome(
            stem@,
            default_wgsl@,
            multiview_wgsl@,
            validate_view_index,
        ),
{
    if eq_str(default_wgsl.as_str(), multiview_wgsl.as_str()) {
        let mut v: Vec<CompiledShaderTarget> = Vec::new();
        v.push(CompiledShaderTarget { target_stem: stem.to_owned(), wgsl: default_wgsl });
        assert(v@.map_values(|t: CompiledShaderTarget| target_view(t)) =~= seq![
            (stem@, default_wgsl@),
        ]);
        return Ok(v);
    }
    let dstem = ShaderVariant::Default.target_stem(stem);
    let mstem = ShaderVariant::Multiview.target_stem(stem);
    if validate_view_index {
        match validate_view_index_contract(dstem.as_str(), default_wgsl.as_str(), ShaderVariant::Default) {
            Err(e) => return Err(e),
            Ok(()) => {},
        }
        match validate_view_index_contract(
            mstem.as_str(),
            multiview_wgsl.as_str(),
            ShaderVariant::Multiview,
        ) {
            Err(e) => return Err(e),
            Ok(()) => {},
        }
    }
    let ghost dw = default_wgsl@;
    let ghost mw = multiview_wgsl@;
    let mut v: Vec<CompiledShaderTarget> = Vec::new();
    v.push(CompiledShaderTarget { target_stem: dstem, wgsl: default_wgsl });
    v.push(CompiledShaderTarget { target_stem: mstem, wgsl: multiview_wgsl });
    assert(v@.map_values(|t: CompiledShaderTarget| target_view(t)) =~= seq![
        (stem@ + "_"@ + ShaderVariant::Default.name(), dw),
        (stem@ + "_"@ + ShaderVariant::Multiview.name(), mw),
    ]);
    Ok(v)
}

/// A composed naga shader module.
#[verifier::external_type_specification]
#[verifier::external_body]
pub struct ExNagaModule(naga::Module);

/// Why naga could not flatten a module back to WGSL, with the error's display text.
#[derive(Clone, Debug)]
pub enum NagaFlattenFailure {
    /// naga's validator rejected the module.
    Validation(String),
    /// naga's WGSL writer failed on the validated module.
    Writing(String),
}

/// What naga gives for a module: the WGSL text of the validated module, or which step failed
/// (`true` for validation, `false` for writing) with the error's display text.
pub uninterp spec fn naga_flattened(module: naga::Module) -> Result<Seq<char>, (bool, Seq<char>)>;

/// A flattening outcome as plain values.
pub open spec fn flatten_view(r: Result<String, NagaFlattenFailure>) -> Result<
    Seq<char>,
    (bool, Seq<char>),
> {
    match r {
        Ok(s) => Ok(s@),
        Err(NagaFlattenFailure::Validation(d)) => Err((true, d@)),
        Err(NagaFlattenFailure::Writing(d)) => Err((false, d@)),
    }
}

/// What naga's validator reports for a module: `None` when it passes, else the error's display
/// text. It validates with every validation flag and every capability, or, with
/// `with_extensions` false, every capability but mesh shading, ray-tracing pipelines and ray
/// queries.
pub uninterp spec fn naga_validation(module: naga::Module, with_extensions: bool) -> Option<Seq<char>>;

/// An optional text as plain values.
pub open spec fn opt_text(r: Option<String>) -> Option<Seq<char>> {
    match r {
        Some(s) => Some(s@),
        None => None,
    }
}

/// Validates a module with naga's `Validator::validate` under every validation flag and every
/// capability, or every capability but `MESH_SHADER`, `RAY_TRACING_PIPELINE` and `RAY_QUERY`
/// when `with_extensions` is false; returns the error's display text. Trusted to give the result
/// named [`naga_validation`]: validation depends on the module and the capabilities alone. Which
/// modules pass is naga's own and is not stated further.
#[verifier::external_body]
fn naga_validation_error(module: &naga::Module, with_extensions: bool) -> (r: Option<String>)
    ensures
        opt_text(r) == naga_validation(*module, with_extensions),
{
    let extensions = naga::valid::Capabilities::MESH_SHADER
        | naga::valid::Capabilities::RAY_TRACING_PIPELINE
        | naga::valid::Capabilities::RAY_QUERY;
    let capabilities = match with_extensions {
        true => naga::valid::Capabilities::all(),
        false => naga::valid::Capabilities::all().difference(extensions),
    };
    let mut validator = naga::valid::Validator::new(naga::valid::ValidationFlags::all(), capabilities);
    validator.validate(module).err().map(|e| e.to_string())
}

/// Validates a module with naga's `Validator` (every validation flag and capability) and, when
/// it passes, writes it out with `back::wgsl::write_string` (explicit types), handing the writer
/// only the module info that validating this very module produced. Trusted to give the result
/// named [`naga_flattened`] for the module: both steps depend on the module alone. Which
/// modules pass and what text is written are naga's own and are not stated further.
/// The writer is only handed modules that validate without mesh shading, ray-tracing pipelines
/// and ray queries (`requires`): it panics on ray-query statements and expressions and on
/// mesh, task and ray-tracing entry points, and its other unreachable arms stand for what
/// validation rejects.
#[verifier::external_body]
fn flatten_naga_module(module: &naga::Module) -> (r: Result<String, NagaFlattenFailure>)
    requires
        naga_validation(*module, false) is None,
    ensures
        flatten_view(r) == naga_flattened(*module),
{
    let mut validator = naga::valid::Validator::new(
        naga::valid::ValidationFlags::all(),
        naga::valid::Capabilities::all(),
    );
    let info = match validator.validate(module) {
        Ok(info) => info,
        Err(e) => return Err(NagaFlattenFailure::Validation(e.to_string())),
    };
    naga::back::wgsl::write_string(module, &info, naga::back::wgsl::WriterFlags::EXPLICIT_TYPES)
        .map_err(|e| NagaFlattenFailure::Writing(e.to_string()))
}

/// Diagnostic for a module that naga's validator rejects with `detail`.
pub open spec fn validate_failure_message(label: Seq<char>, detail: Seq<char>) -> Seq<char> {
    "validate "@ + label + ": "@ + detail
}

/// Diagnostic for a module that naga's WGSL writer fails on with `detail`.
pub open spec fn write_failure_message(label: Seq<char>, detail: Seq<char>) -> Seq<char> {
    "wgsl out "@ + label + ": "@ + detail
}

/// The text of a flattening outcome: the WGSL, or the failure named with its step and `label`.
pub open spec fn flattened_text(
    outcome: Result<Seq<char>, (bool, Seq<char>)>,
    label: Seq<char>,
) -> Result<Seq<char>, Seq<char>> {
    match outcome {
        Ok(w) => Ok(w),
        Err((validation, detail)) => if validation {
            Err(validate_failure_message(label, detail))
        } else {
            Err(write_failure_message(label, detail))
        },
    }
}

/// A flattened-WGSL result as plain values.
pub open spec fn wgsl_result_view(r: Result<String, BuildError>) -> Result<Seq<char>, Seq<char>> {
    match r {
        Ok(s) => Ok(s@),
        Err(e) => Err(e.text()),
    }
}

/// Diagnostic for a valid module that uses mesh shading, ray-tracing pipelines or ray queries,
/// which the WGSL writer cannot write.
pub open spec fn unsupported_features_message(label: Seq<char>) -> Seq<char> {
    "wgsl out "@ + label + ": module uses mesh shading, ray-tracing pipelines or ray queries, which the WGSL writer does not support"@
}

/// What flattening a module gives: a module that validates without the writer's unsupported
/// features is flattened by naga; any other module fails, with naga's full validation error
/// when it has one, else as using unsupported features.
pub open spec fn module_wgsl(module: naga::Module, label: Seq<char>) -> Result<Seq<char>, Seq<char>> {
    match naga_validation(module, false) {
        None => flattened_text(naga_flattened(module), label),
        Some(_) => match naga_validation(module, true) {
            Some(detail) => Err(validate_failure_message(label, detail)),
            None => Err(unsupported_features_message(label)),
        },
    }
}

/// Validates a naga module and flattens it back to WGSL; a failure names the step and
/// `label`. A module that only validates with mesh shading, ray-tracing pipelines or ray
/// queries is refused before the writer sees it.
pub fn module_to_wgsl(module: &naga::Module, label: &str) -> (r: Result<String, BuildError>)
    ensures
        wgsl_result_view(r) == module_wgsl(*module, label@),
{
    match naga_validation_error(module, false) {
        None => flatten_outcome(label, flatten_naga_module(module)),
        Some(_) => Err(unwritable_module_error(label, naga_validation_error(module, true))),
    }
}

/// The error for a module that fails validation without the writer's unsupported features,
/// once naga's validation with every capability returned `full_validation`: that validation's
/// error, or the unsupported-features diagnostic when it passed.
pub fn unwritable_module_error(label: &str, full_validation: Option<String>) -> (r: BuildError)
    ensures
        r.text() == (match opt_text(full_validation) {
            Some(detail) => validate_failure_message(label@, detail),
            None => unsupported_features_message(label@),
        }),
{
    match full_validation {
        Some(detail) => {
            let mut m = "validate ".to_owned();
            m.append(label);
            m.append(": ");
            m.append(detail.as_str());
            assert(m@ =~= validate_failure_message(label@, detail@));
            BuildError::Message(m)
        },
        None => {
            let mut m = "wgsl out ".to_owned();
            m.append(label);
            m.append(": module uses mesh shading, ray-tracing pipelines or ray queries, which the WGSL writer does not support");
            assert(m@ =~= unsupported_features_message(label@));
            BuildError::Message(m)
        },
    }
}

/// What flattening reports once naga returned `flattened`: the written text itself, or the
/// failing step's error named with `label`.
pub fn flatten_outcome(label: &str, flattened: Result<String, NagaFlattenFailure>) -> (r: Result<
    String,
    BuildError,
>)
    ensures
        wgsl_result_view(r) == flattened_text(flatten_view(flattened), label@),
{
    match flattened {
        Ok(wgsl) => Ok(wgsl),
        Err(NagaFlattenFailure::Validation(detail)) => {
            let mut m = "validate ".to_owned();
            m.append(label);
            m.append(": ");
            m.append(detail.as_str());
            assert(m@ =~= validate_failure_message(label@, detail@));
            Err(BuildError::Message(m))
        },
        Err(NagaFlattenFailure::Writing(detail)) => {
            let mut m = "wgsl out ".to_owned();
            m.append(label);
            m.append(": ");
            m.append(detail.as_str());
            assert(m@ =~= write_failure_message(label@, detail@));
            Err(BuildError::Message(m))
        },
    }
}

/// Label of one variant of the source `stem` in diagnostics: `<stem> (<variant>)`.
pub open spec fn variant_label(stem: Seq<char>, variant: ShaderVariant) -> Seq<char> {
    stem + " ("@ + variant.name() + ")"@
}

/// Builds the diagnostics label of one variant.
pub fn variant_label_of(stem: &str, variant: ShaderVariant) -> (r: String)
    ensures
        r@ == variant_label(stem@, variant),
{
    let mut r = stem.to_owned();
    r.append(" (");
    r.append(variant.label());
    r.append(")");
    r
}

/// The first contract failure of a job, in the order the checks run: entry points and pass
/// interfaces of the default and then the multiview module, then the material uniforms of
/// both.
pub open spec fn module_checks_error(
    stem: Seq<char>,
    passes: Seq<BuildPassDirective>,
    default_module: ModuleInterface,
    multiview_module: ModuleInterface,
) -> Option<Seq<char>> {
    let dl = variant_label(stem, ShaderVariant::Default);
    let ml = variant_label(stem, ShaderVariant::Multiview);
    if entry_points_error(default_module.entry_points@, dl, passes) is Some {
        entry_points_error(default_module.entry_points@, dl, passes)
    } else if pass_interfaces_error(default_module.entry_points@, dl, passes) is Some {
        pass_interfaces_error(default_module.entry_points@, dl, passes)
    } else if entry_points_error(multiview_module.entry_points@, ml, passes) is Some {
        entry_points_error(multiview_module.entry_points@, ml, passes)
    } else if pass_interfaces_error(multiview_module.entry_points@, ml, passes) is Some {
        pass_interfaces_error(multiview_module.entry_points@, ml, passes)
    } else if uniform_fields_error(dl, default_module.global_variables@) is Some {
        uniform_fields_error(dl, default_module.global_variables@)
    } else {
        uniform_fields_error(ml, multiview_module.global_variables@)
    }
}

/// Runs the contract checks on both composed variants of a source, in order.
pub fn check_variant_modules(
    stem: &str,
    passes: &[BuildPassDirective],
    default_module: &ModuleInterface,
    multiview_module: &ModuleInterface,
) -> (r: Result<(), BuildError>)
    ensures
        outcome(r) == module_checks_error(stem@, passes@, *default_module, *multiview_module),
{
    let dl = variant_label_of(stem, ShaderVariant::Default);
    let ml = variant_label_of(stem, ShaderVariant::Multiview);
    validate_entry_points(default_module, dl.as_str(), passes)?;
    validate_pass_interfaces(default_module, dl.as_str(), passes)?;
    validate_entry_points(multiview_module, ml.as_str(), passes)?;
    validate_pass_interfaces(multiview_module, ml.as_str(), passes)?;
    validate_no_pipeline_state_uniform_fields(default_module, dl.as_str())?;
    validate_no_pipeline_state_uniform_fields(multiview_module, ml.as_str())?;
    Ok(())
}

/// One composed variant of a source: the naga module and what the contract checks read of it,
/// as [`crate::module_model::module_interface`] derives it from the module's plain model.
pub struct ComposedVariant {
    pub module: naga::Module,
    pub interface: ModuleInterface,
}

/// A compiled source: the job's compile order and source class, its pass directives, the
/// texture defaults read from its source, and its flattened output targets.
#[derive(Debug)]
pub struct CompiledShader<C, S, T> {
    pub compile_order: C,
    pub source_class: S,
    pub pass_directives: Vec<BuildPassDirective>,
    pub texture_defaults: T,
    pub targets: Vec<CompiledShaderTarget>,
}

/// Targets or diagnostic of a compile result, as plain values.
pub open spec fn compile_result_view<C, S, T>(r: Result<CompiledShader<C, S, T>, BuildError>) -> Result<
    Seq<(Seq<char>, Seq<char>)>,
    Seq<char>,
> {
    match r {
        Ok(c) => Ok(c.targets@.map_values(|t: CompiledShaderTarget| target_view(t))),
        Err(e) => Err(e.text()),
    }
}

/// The failure reported before any WGSL is written: a missing pass directive, a failed
/// composition (default variant first), or a contract check.
pub open spec fn compile_precheck_error(
    file_path: Seq<char>,
    stem: Seq<char>,
    options: ShaderValidationOptions,
    passes: Seq<BuildPassDirective>,
    default_variant: Result<ComposedVariant, BuildError>,
    multiview_variant: Result<ComposedVariant, BuildError>,
) -> Option<Seq<char>> {
    if options.require_pass_directive && passes.len() == 0 {
        Some(missing_pass_message(file_path))
    } else {
        match default_variant {
            Err(e) => Some(e.text()),
            Ok(d) => match multiview_variant {
                Err(e) => Some(e.text()),
                Ok(m) => module_checks_error(stem, passes, d.interface, m.interface),
            },
        }
    }
}

/// What compiling a job gives: the first failure before flattening, else naga's flattening of
/// the default and then the multiview module, else the targets of the two flattened texts.
pub open spec fn compile_expected(
    file_path: Seq<char>,
    stem: Seq<char>,
    options: ShaderValidationOptions,
    passes: Seq<BuildPassDirective>,
    default_variant: Result<ComposedVariant, BuildError>,
    multiview_variant: Result<ComposedVariant, BuildError>,
) -> Result<Seq<(Seq<char>, Seq<char>)>, Seq<char>> {
    match compile_precheck_error(
        file_path,
        stem,
        options,
        passes,
        default_variant,
        multiview_variant,
    ) {
        Some(e) => Err(e),
        None => match (default_variant, multiview_variant) {
            (Ok(d), Ok(m)) => match module_wgsl(
                d.module,
                variant_label(stem, ShaderVariant::Default),
            ) {
                Err(e) => Err(e),
                Ok(dw) => match module_wgsl(
                    m.module,
                    variant_label(stem, ShaderVariant::Multiview),
                ) {
                    Err(e) => Err(e),
                    Ok(mw) => targets_outcome(stem, dw, mw, options.validate_view_index),
                },
            },
            _ => Err(Seq::empty()),
        },
    }
}

/// Compiles one source from its two composed variants into one or two flattened WGSL
/// targets: checks both variants, flattens them, and emits one target when the two outputs are
/// identical, else one per variant. The job's compile order, source class and texture defaults
/// are carried into the result.
#[verifier::rlimit(40)]
pub fn compile_shader_job<C, S, T>(
    file_path: &str,
    stem: &str,
    options: ShaderValidationOptions,
    compile_order: C,
    source_class: S,
    texture_defaults: T,
    pass_directives: Vec<BuildPassDirective>,
    default_variant: Result<ComposedVariant, BuildError>,
    multiview_variant: Result<ComposedVariant, BuildError>,
) -> (r: Result<CompiledShader<C, S, T>, BuildError>)
    ensures
        compile_result_view(r) == compile_expected(
            file_path@,
            stem@,
            options,
            pass_directives@,
            default_variant,
            multiview_variant,
        ),
        r matches Ok(c) ==> c.pass_directives@ == pass_directives@ && c.compile_order
            == compile_order && c.source_class == source_class && c.texture_defaults
            == texture_defaults,
{
    check_pass_directives_present(file_path, options, pass_directives.as_slice())?;
    let d = default_variant?;
    let m = multiview_variant?;
    check_variant_modules(stem, pass_directives.as_slice(), &d.interface, &m.interface)?;
    let dl = variant_label_of(stem, ShaderVariant::Default);
    let ml = variant_label_of(stem, ShaderVariant::Multiview);
    let default_wgsl = module_to_wgsl(&d.module, dl.as_str())?;
    let multiview_wgsl = module_to_wgsl(&m.module, ml.as_str())?;
    let assembled = assemble_targets(stem, default_wgsl, multiview_wgsl, options.validate_view_index);
    match assembled {
        Ok(targets) => Ok(
            CompiledShader { compile_order, source_class, pass_directives, texture_defaults, targets },
        ),
        Err(e) => Err(e),
    }
}

} // verus!
