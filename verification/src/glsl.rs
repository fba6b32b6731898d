//! GLSL to WGSL compilation through naga (for sources that pass the size check
//! of `crate::layout_bound`), and the messages that report its failures.
use vstd::prelude::*;

use crate::layout_bound::{sizes_are_bounded, sizes_bounded};

verus! {

/// Pipeline stage a shader is written for.
#[derive(Debug, Clone, Copy, PartialEq, Eq, Structural)]
pub enum ShaderStage {
    Vertex,
    Fragment,
    Compute,
}

/// How a stage is named in error messages.
pub open spec fn stage_name(stage: ShaderStage) -> Seq<char> {
    match stage {
        ShaderStage::Vertex => "VERTEX"@,
        ShaderStage::Fragment => "FRAGMENT"@,
        ShaderStage::Compute => "COMPUTE"@,
    }
}

/// The lines of `lines` joined by newlines.
pub open spec fn join_lines(lines: Seq<Seq<char>>) -> Seq<char>
    decreases lines.len(),
{
    if lines.len() == 0 {
        Seq::empty()
    } else if lines.len() == 1 {
        lines[0]
    } else {
        join_lines(lines.drop_last()) + "\n"@ + lines.last()
    }
}

/// The message for GLSL that does not parse: the stage's name, then every
/// parse error on a line of its own.
pub open spec fn parse_error_message(stage: ShaderStage, errors: Seq<Seq<char>>) -> Seq<char> {
    stage_name(stage) + " GLSL parse error:\n"@ + join_lines(errors)
}

/// The message for a module that fails naga's validation.
pub open spec fn validation_error_message(detail: Seq<char>) -> Seq<char> {
    "naga validation error: "@ + detail
}

/// The message for a source that the size check refuses (see
/// `crate::layout_bound`): naga is not called on it.
pub open spec fn unbounded_message(stage: ShaderStage) -> Seq<char> {
    stage_name(stage) + " GLSL not accepted: brackets must hold decimal literals, and struct is not supported"@
}

/// The message for a module that the WGSL writer rejects.
pub open spec fn write_error_message(detail: Seq<char>) -> Seq<char> {
    "WGSL write error: "@ + detail
}

#[verifier::external_type_specification]
#[verifier::external_body]
pub struct ExModule(naga::Module);

#[verifier::external_type_specification]
#[verifier::external_body]
pub struct ExModuleInfo(naga::valid::ModuleInfo);

/// What naga's GLSL front end makes of `source` as a shader of `stage`: the
/// module, or the messages of the errors it reports, in order.
pub uninterp spec fn glsl_parse(source: Seq<char>, stage: ShaderStage) -> Result<naga::Module, Seq<Seq<char>>>;

/// What naga's validator (all flags, all capabilities) makes of `module`:
/// the module's info, or the error's message.
pub uninterp spec fn module_validation(module: naga::Module) -> Result<naga::valid::ModuleInfo, Seq<char>>;

/// What naga's WGSL writer (no flags) makes of a validated module: the WGSL
/// text, or the error's message.
pub uninterp spec fn wgsl_output(module: naga::Module, info: naga::valid::ModuleInfo) -> Result<Seq<char>, Seq<char>>;

/// `module` is what naga's front end made of a source that passed the size
/// check.
pub open spec fn parsed_from_bounded(module: naga::Module) -> bool {
    exists|src: Seq<char>, st: ShaderStage|
        sizes_bounded(src) && (#[trigger] glsl_parse(src, st) matches Ok(m) && m == module)
}

/// The result of compiling `source` as a shader of `stage`: the size check's
/// refusal, the WGSL text, or the message of the first step that fails
/// (parse, validation, writing).
pub open spec fn glsl_to_wgsl(source: Seq<char>, stage: ShaderStage) -> Result<Seq<char>, Seq<char>> {
    if !sizes_bounded(source) {
        Err(unbounded_message(stage))
    } else {
        parsed_to_wgsl(source, stage)
    }
}

/// Parse, validate and write a source that passed the size check.
pub open spec fn parsed_to_wgsl(source: Seq<char>, stage: ShaderStage) -> Result<Seq<char>, Seq<char>> {
    match glsl_parse(source, stage) {
        Err(errs) => Err(parse_error_message(stage, errs)),
        Ok(module) => match module_validation(module) {
            Err(d) => Err(validation_error_message(d)),
            Ok(info) => match wgsl_output(module, info) {
                Err(d) => Err(write_error_message(d)),
                Ok(w) => Ok(w),
            },
        },
    }
}

/// A parse result with the error messages read as their views.
pub open spec fn parse_view(r: Result<naga::Module, Vec<String>>) -> Result<naga::Module, Seq<Seq<char>>> {
    match r {
        Ok(m) => Ok(m),
        Err(errs) => Err(errs@.map_values(|s: String| s@)),
    }
}

/// A validation result with the error message read as its view.
pub open spec fn validation_view(r: Result<naga::valid::ModuleInfo, String>) -> Result<naga::valid::ModuleInfo, Seq<char>> {
    match r {
        Ok(i) => Ok(i),
        Err(d) => Err(d@),
    }
}

/// Calls `naga::front::glsl::Frontend::parse` on `source` with no
/// preprocessor definitions. Claimed: the module or the errors' messages
/// (each error's `Display`) are those `glsl_parse` names; a failure reports
/// at least one error (the front end pushes one before it fails).
/// The front end computes type layouts with `u32` arithmetic, which panics
/// (with overflow checks) on a type larger than `u32::MAX` bytes; the source
/// is required to pass the size check, which rules such types out.
#[verifier::external_body]
fn parse_glsl(source: &str, stage: ShaderStage) -> (r: Result<naga::Module, Vec<String>>)
    requires
        sizes_bounded(source@),
    ensures
        parse_view(r) == glsl_parse(source@, stage),
        r matches Err(errs) ==> errs@.len() >= 1,
{
    let naga_stage = match stage {
        ShaderStage::Vertex => naga::ShaderStage::Vertex,
        ShaderStage::Fragment => naga::ShaderStage::Fragment,
        ShaderStage::Compute => naga::ShaderStage::Compute,
    };
    let options = naga::front::glsl::Options { stage: naga_stage, defines: Default::default() };
    naga::front::glsl::Frontend::default().parse(&options, source).map_err(
        |errs| errs.errors.iter().map(|e| format!("{e}")).collect(),
    )
}

/// Calls `naga::valid::Validator::validate` (all validation flags, all
/// capabilities) on `module`; an error is returned as its `Display` text.
/// Claimed: the outcome is the one `module_validation` names. Like the
/// front end, the validator computes layouts with `u32` arithmetic; the
/// module is required to come from a source that passed the size check, so
/// its types are those bounded there.
#[verifier::external_body]
fn validate_module(module: &naga::Module) -> (r: Result<naga::valid::ModuleInfo, String>)
    requires
        parsed_from_bounded(*module),
    ensures
        validation_view(r) == module_validation(*module),
{
    let mut validator = naga::valid::Validator::new(
        naga::valid::ValidationFlags::all(),
        naga::valid::Capabilities::all(),
    );
    validator.validate(module).map_err(|e| format!("{e}"))
}

/// Calls `naga::back::wgsl::write_string` (no writer flags) on a validated
/// module; an error is returned as its `Display` text. Claimed: the outcome
/// is the one `wgsl_output` names. The module is required to come from the
/// GLSL front end, which never builds the constructs the writer does not
/// handle, and `info` to be its validation result.
#[verifier::external_body]
fn write_wgsl(module: &naga::Module, info: &naga::valid::ModuleInfo) -> (r: Result<String, String>)
    requires
        parsed_from_bounded(*module),
        module_validation(*module) matches Ok(i) && i == *info,
    ensures
        result_view(r) == wgsl_output(*module, *info),
{
    naga::back::wgsl::write_string(module, info, naga::back::wgsl::WriterFlags::empty()).map_err(
        |e| format!("{e}"),
    )
}

/// How far a compilation got.
pub enum CompileOutcome {
    /// The source failed the size check; naga was not called.
    SizesUnbounded,
    /// The GLSL did not parse; the parse errors' messages.
    ParseFailed(Vec<String>),
    /// The module failed validation; the validator's message.
    ValidationFailed(String),
    /// The WGSL writer failed; its message.
    WriteFailed(String),
    /// The WGSL text.
    Compiled(String),
}

/// The result that a compilation outcome is reported as.
pub open spec fn outcome_message(stage: ShaderStage, outcome: CompileOutcome) -> Result<Seq<char>, Seq<char>> {
    match outcome {
        CompileOutcome::SizesUnbounded => Err(unbounded_message(stage)),
        CompileOutcome::ParseFailed(errs) => Err(parse_error_message(stage, errs@.map_values(|s: String| s@))),
        CompileOutcome::ValidationFailed(d) => Err(validation_error_message(d@)),
        CompileOutcome::WriteFailed(d) => Err(write_error_message(d@)),
        CompileOutcome::Compiled(w) => Ok(w@),
    }
}

/// A result of two strings, read as their views.
pub open spec fn result_view(r: Result<String, String>) -> Result<Seq<char>, Seq<char>> {
    match r {
        Ok(s) => Ok(s@),
        Err(e) => Err(e@),
    }
}

/// The lines joined by newlines.
fn join_with_newlines(lines: &Vec<String>) -> (s: String)
    ensures
        s@ == join_lines(lines@.map_values(|l: String| l@)),
{
    let ghost views = lines@.map_values(|l: String| l@);
    let mut s = String::new();
    let n = lines.len();
    let mut i: usize = 0;
    proof {
        reveal_strlit("\n");
    }
    while i < n
        invariant
            n == lines@.len(),
            views == lines@.map_values(|l: String| l@),
            i <= n,
            s@ == join_lines(views.subrange(0, i as int)),
        decreases n - i,
    {
        proof {
            assert(views.subrange(0, i + 1).drop_last() =~= views.subrange(0, i as int));
        }
        if i > 0 {
            s.append("\n");
        } else {
            assert(s@ =~= Seq::<char>::empty());
        }
        s.append(lines[i].as_str());
        proof {
            if i == 0 {
                assert(s@ =~= views.subrange(0, 1)[0]);
            }
        }
        i = i + 1;
    }
    proof {
        assert(views.subrange(0, n as int) =~= views);
    }
    s
}

/// Report a compilation outcome: the WGSL text, or the error message that
/// names what failed.
pub fn compile_result(stage: ShaderStage, outcome: CompileOutcome) -> (r: Result<String, String>)
    ensures
        result_view(r) == outcome_message(stage, outcome),
{
    match outcome {
        CompileOutcome::SizesUnbounded => {
            let mut m = match stage {
                ShaderStage::Vertex => String::from_str("VERTEX"),
                ShaderStage::Fragment => String::from_str("FRAGMENT"),
                ShaderStage::Compute => String::from_str("COMPUTE"),
            };
            m.append(" GLSL not accepted: brackets must hold decimal literals, and struct is not supported");
            Err(m)
        },
        CompileOutcome::ParseFailed(errs) => {
            let mut m = match stage {
                ShaderStage::Vertex => String::from_str("VERTEX"),
                ShaderStage::Fragment => String::from_str("FRAGMENT"),
                ShaderStage::Compute => String::from_str("COMPUTE"),
            };
            m.append(" GLSL parse error:\n");
            let joined = join_with_newlines(&errs);
            m.append(joined.as_str());
            Err(m)
        },
        CompileOutcome::ValidationFailed(d) => {
            let mut m = String::from_str("naga validation error: ");
            m.append(d.as_str());
            Err(m)
        },
        CompileOutcome::WriteFailed(d) => {
            let mut m = String::from_str("WGSL write error: ");
            m.append(d.as_str());
            Err(m)
        },
        CompileOutcome::Compiled(w) => Ok(w),
    }
}

/// Compile GLSL source to WGSL with naga: parse, validate, write. The result
/// is the WGSL text, or the message of the first step that fails: the parse
/// errors under the stage's name, the validation error, or the writer error.
/// Sources that fail the size check of `crate::layout_bound` are refused
/// with `unbounded_message` before naga sees them.
pub fn compile_glsl_to_wgsl(source: &str, stage: ShaderStage) -> (r: Result<String, String>)
    ensures
        result_view(r) == glsl_to_wgsl(source@, stage),
{
    if !sizes_are_bounded(source) {
        return compile_result(stage, CompileOutcome::SizesUnbounded);
    }
    let outcome = match parse_glsl(source, stage) {
        Err(errs) => CompileOutcome::ParseFailed(errs),
        Ok(module) => {
            proof {
                assert(glsl_parse(source@, stage) matches Ok(m) && m == module);
                assert(parsed_from_bounded(module));
            }
            match validate_module(&module) {
                Err(d) => CompileOutcome::ValidationFailed(d),
                Ok(info) => match write_wgsl(&module, &info) {
                    Err(d) => CompileOutcome::WriteFailed(d),
                    Ok(w) => CompileOutcome::Compiled(w),
                },
            }
        },
    };
    compile_result(stage, outcome)
}

} // verus!
