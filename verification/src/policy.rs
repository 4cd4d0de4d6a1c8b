//! Driver-facing policy mappings: optimization settings, relocation and
//! code models in the target's vocabulary, pass placement, and the shape
//! of a fatal diagnostic.
//!
//! These are pure translations of externally supplied configuration; the
//! pipeline that consumes them is an external collaborator.

use vstd::prelude::*;

verus! {

/// The requested optimization level.
#[derive(Clone, Copy, PartialEq, Eq, Structural, Debug)]
pub enum OptLevel {
    No,
    Less,
    Default,
    Aggressive,
    Size,
    SizeMin,
}

/// The target's code generation optimization level.
#[derive(Clone, Copy, PartialEq, Eq, Structural, Debug)]
pub enum CodeGenOptLevel {
    Off,
    Less,
    Default,
    Aggressive,
}

/// The target's size-optimization level.
#[derive(Clone, Copy, PartialEq, Eq, Structural, Debug)]
pub enum CodeGenOptSize {
    Off,
    Default,
    Aggressive,
}

/// What the pair of target settings is for each requested level: the
/// size-oriented levels trade the default speed setting for a size one.
pub open spec fn opt_settings(cfg: OptLevel) -> (CodeGenOptLevel, CodeGenOptSize) {
    match cfg {
        OptLevel::No => (CodeGenOptLevel::Off, CodeGenOptSize::Off),
        OptLevel::Less => (CodeGenOptLevel::Less, CodeGenOptSize::Off),
        OptLevel::Default => (CodeGenOptLevel::Default, CodeGenOptSize::Off),
        OptLevel::Aggressive => (CodeGenOptLevel::Aggressive, CodeGenOptSize::Off),
        OptLevel::Size => (CodeGenOptLevel::Default, CodeGenOptSize::Default),
        OptLevel::SizeMin => (CodeGenOptLevel::Default, CodeGenOptSize::Aggressive),
    }
}

/// Maps a requested optimization level to the target's settings.
pub fn to_llvm_opt_settings(cfg: OptLevel) -> (r: (CodeGenOptLevel, CodeGenOptSize))
    ensures
        r == opt_settings(cfg),
{
    match cfg {
        OptLevel::No => (CodeGenOptLevel::Off, CodeGenOptSize::Off),
        OptLevel::Less => (CodeGenOptLevel::Less, CodeGenOptSize::Off),
        OptLevel::Default => (CodeGenOptLevel::Default, CodeGenOptSize::Off),
        OptLevel::Aggressive => (CodeGenOptLevel::Aggressive, CodeGenOptSize::Off),
        OptLevel::Size => (CodeGenOptLevel::Default, CodeGenOptSize::Default),
        OptLevel::SizeMin => (CodeGenOptLevel::Default, CodeGenOptSize::Aggressive),
    }
}

/// The requested relocation model.
#[derive(Clone, Copy, PartialEq, Eq, Structural, Debug)]
pub enum RelocModel {
    Static,
    Pic,
    DynamicNoPic,
    Ropi,
    Rwpi,
    RopiRwpi,
    Pie,
}

/// The target's relocation mode.
#[derive(Clone, Copy, PartialEq, Eq, Structural, Debug)]
pub enum RelocMode {
    Static,
    Pic,
    DynamicNoPic,
    Ropi,
    Rwpi,
    RopiRwpi,
}

/// The target's mode for each supported relocation model;
/// position-independent executables are not a thing this target makes.
pub open spec fn reloc_mode(m: RelocModel) -> RelocMode
    recommends
        !(m is Pie),
{
    match m {
        RelocModel::Static => RelocMode::Static,
        RelocModel::Pic => RelocMode::Pic,
        RelocModel::DynamicNoPic => RelocMode::DynamicNoPic,
        RelocModel::Ropi => RelocMode::Ropi,
        RelocModel::Rwpi => RelocMode::Rwpi,
        RelocModel::RopiRwpi => RelocMode::RopiRwpi,
        RelocModel::Pie => RelocMode::Static,
    }
}

/// Maps a relocation model to the target's mode.
pub fn to_llvm_relocation_model(relocation_model: RelocModel) -> (r: RelocMode)
    requires
        !(relocation_model is Pie),
    ensures
        r == reloc_mode(relocation_model),
{
    match relocation_model {
        RelocModel::Static => RelocMode::Static,
        RelocModel::Pic => RelocMode::Pic,
        RelocModel::DynamicNoPic => RelocMode::DynamicNoPic,
        RelocModel::Ropi => RelocMode::Ropi,
        RelocModel::Rwpi => RelocMode::Rwpi,
        RelocModel::RopiRwpi => RelocMode::RopiRwpi,
        RelocModel::Pie => RelocMode::Static,
    }
}

/// The requested code model.
#[derive(Clone, Copy, PartialEq, Eq, Structural, Debug)]
pub enum CodeModel {
    Tiny,
    Small,
    Kernel,
    Medium,
    Large,
}

/// The target's code model, with one value for "unspecified".
#[derive(Clone, Copy, PartialEq, Eq, Structural, Debug)]
pub enum LlCodeModel {
    Small,
    Kernel,
    Medium,
    Large,
    Unset,
}

/// The target's model for each requested one: the tiny model collapses
/// into the small one, and no request passes through unset.
pub open spec fn code_model_lowered(m: Option<CodeModel>) -> LlCodeModel {
    match m {
        Some(CodeModel::Tiny) => LlCodeModel::Small,
        Some(CodeModel::Small) => LlCodeModel::Small,
        Some(CodeModel::Kernel) => LlCodeModel::Kernel,
        Some(CodeModel::Medium) => LlCodeModel::Medium,
        Some(CodeModel::Large) => LlCodeModel::Large,
        None => LlCodeModel::Unset,
    }
}

/// Maps an optional code model request to the target's model.
pub fn to_llvm_code_model(code_model: Option<CodeModel>) -> (r: LlCodeModel)
    ensures
        r == code_model_lowered(code_model),
{
    match code_model {
        Some(CodeModel::Tiny) => LlCodeModel::Small,
        Some(CodeModel::Small) => LlCodeModel::Small,
        Some(CodeModel::Kernel) => LlCodeModel::Kernel,
        Some(CodeModel::Medium) => LlCodeModel::Medium,
        Some(CodeModel::Large) => LlCodeModel::Large,
        None => LlCodeModel::Unset,
    }
}

/// A fatal diagnostic: the message, with the backend's last error
/// appended when there is one.
#[derive(PartialEq, Eq, Debug)]
pub enum FatalDiag {
    /// The message alone.
    Plain { msg: String },
    /// The message and the backend's own account.
    WithDetail { msg: String, detail: String },
}

/// Builds the fatal diagnostic for a message: the backend's last error,
/// when one is pending, is carried along.
pub fn llvm_err(last_error: Option<String>, msg: String) -> (r: FatalDiag)
    ensures
        match last_error {
            Some(detail) => r == (FatalDiag::WithDetail { msg, detail }),
            None => r == (FatalDiag::Plain { msg }),
        },
{
    match last_error {
        Some(detail) => FatalDiag::WithDetail { msg, detail },
        None => FatalDiag::Plain { msg },
    }
}

/// What kind of pass manager a found pass belongs to.
#[derive(Clone, Copy, PartialEq, Eq, Structural, Debug)]
pub enum PassKind {
    Function,
    Module,
    Other,
}

/// What to do with one requested optimizer pass.
#[derive(Clone, Copy, PartialEq, Eq, Structural, Debug)]
pub enum PassAction {
    /// Add it to the function pass manager.
    AddToFunctionPasses,
    /// Add it to the module pass manager.
    AddToModulePasses,
    /// A pass kind this pipeline cannot drive: report an error.
    ReportUnhandledKind,
    /// An unknown pass name is a policy-level soft failure: warn and
    /// skip it, since correctness is unaffected.
    WarnUnknownAndSkip,
}

/// Where a requested pass goes, if anywhere.
pub open spec fn pass_placed(found: Option<PassKind>) -> PassAction {
    match found {
        None => PassAction::WarnUnknownAndSkip,
        Some(PassKind::Function) => PassAction::AddToFunctionPasses,
        Some(PassKind::Module) => PassAction::AddToModulePasses,
        Some(PassKind::Other) => PassAction::ReportUnhandledKind,
    }
}

/// Decides what to do with one requested optimizer pass, given whether
/// the backend knows it and of what kind it is.
pub fn pass_disposition(found: Option<PassKind>) -> (r: PassAction)
    ensures
        r == pass_placed(found),
{
    match found {
        None => PassAction::WarnUnknownAndSkip,
        Some(PassKind::Function) => PassAction::AddToFunctionPasses,
        Some(PassKind::Module) => PassAction::AddToModulePasses,
        Some(PassKind::Other) => PassAction::ReportUnhandledKind,
    }
}

} // verus!
