//! The errors that Raptor reports.
use vstd::prelude::*;

use crate::dsl::{InstMount, MountType, Origin};

verus! {

/// Everything that can go wrong in Raptor. Errors that come from the
/// operating system or from outside services carry their message or code.
#[derive(Debug)]
pub enum RaptorError {
    IoError(String),
    /// An error of the template engine, and whether it is a failure to
    /// load an included file.
    MinijinjaError { err: minijinja::Error, bad_include: bool },
    ParseError(String),
    VarError(String),
    Errno(i32),
    MpscTimeout,
    SendError,
    DockerError(String),
    FalconError(String),
    UndefinedVarError(String, Origin),
    CacheIoError(String, String),
    ScriptError(String, Origin),
    SandboxRequestError(i32),
    SandboxRunError(i32),
    MountMissing(InstMount),
    RootRequired,
    LayerCacheParseError,
    ParseIntError,
    BadPathNoParent(String),
    PackageNotFound(String, Origin),
    MissingLink(String),
    SingleMountOnly(MountType),
    NoCommandSpecified,
    UnknownJob(String),
    LayerBuildError,
}

/// Whether a template error is a failure to load an included file
/// (`minijinja::Error::kind` is `ErrorKind::BadInclude`). Nothing is
/// claimed of it here: the kind is not visible to the proofs.
#[verifier::external_body]
fn is_bad_include(e: &minijinja::Error) -> bool {
    e.kind() == minijinja::ErrorKind::BadInclude
}

/// A template error `e`, recorded with whether it is a failed include.
pub fn template_error_with(e: minijinja::Error, bad_include: bool) -> (r: RaptorError)
    ensures
        r == (RaptorError::MinijinjaError { err: e, bad_include }),
{
    RaptorError::MinijinjaError { err: e, bad_include }
}

/// A template error, recording whether it is a failed include: asks the
/// error for its kind (`is_bad_include`), then records both with
/// `template_error_with`. What the kind is, is not stated: it is not
/// visible to the proofs.
pub fn template_error(e: minijinja::Error) -> (r: RaptorError)
    ensures
        r matches RaptorError::MinijinjaError { err, .. } && err == e,
{
    let bad_include = is_bad_include(&e);
    template_error_with(e, bad_include)
}

/// A result that fails with a `RaptorError`.
pub type RaptorResult<T> = Result<T, RaptorError>;

/// The heading under which each kind of error is reported.
pub open spec fn spec_category(e: RaptorError) -> Seq<char> {
    match e {
        RaptorError::IoError(_) => "IO Error"@,
        RaptorError::MinijinjaError { .. } => "Template error"@,
        RaptorError::ParseError(_) => "Parser error"@,
        RaptorError::VarError(_) => "Environment error"@,
        RaptorError::Errno(_) => "Errno"@,
        RaptorError::CacheIoError(_, _) => "Cache io error"@,
        RaptorError::ScriptError(_, _) => "Script error"@,
        RaptorError::SandboxRequestError(_) => "Sandbox request error"@,
        RaptorError::SandboxRunError(_) => "Sandbox run error"@,
        RaptorError::MpscTimeout => "Channel error"@,
        RaptorError::SendError => "Send error"@,
        RaptorError::DockerError(_) => "Docker error"@,
        RaptorError::FalconError(_) => "Falcon error"@,
        RaptorError::MountMissing(_) => "Missing mount error"@,
        RaptorError::RootRequired => "Root required"@,
        RaptorError::UndefinedVarError(_, _) => "Undefined var error"@,
        RaptorError::LayerCacheParseError => "Layer cache parse error"@,
        RaptorError::ParseIntError => "Parse int error"@,
        RaptorError::BadPathNoParent(_) => "Bad path error"@,
        RaptorError::PackageNotFound(_, _) => "Package not found"@,
        RaptorError::MissingLink(_) => "Missing link error"@,
        RaptorError::SingleMountOnly(_) => "Mount error"@,
        RaptorError::NoCommandSpecified => "No command specified"@,
        RaptorError::UnknownJob(_) => "Unknown job"@,
        RaptorError::LayerBuildError => "Layer build error"@,
    }
}

impl RaptorError {
    /// The heading under which this error is reported.
    pub fn category(&self) -> (r: &'static str)
        ensures
            r@ == spec_category(*self),
    {
        match self {
            RaptorError::IoError(_) => "IO Error",
            RaptorError::MinijinjaError { .. } => "Template error",
            RaptorError::ParseError(_) => "Parser error",
            RaptorError::VarError(_) => "Environment error",
            RaptorError::Errno(_) => "Errno",
            RaptorError::CacheIoError(_, _) => "Cache io error",
            RaptorError::ScriptError(_, _) => "Script error",
            RaptorError::SandboxRequestError(_) => "Sandbox request error",
            RaptorError::SandboxRunError(_) => "Sandbox run error",
            RaptorError::MpscTimeout => "Channel error",
            RaptorError::SendError => "Send error",
            RaptorError::DockerError(_) => "Docker error",
            RaptorError::FalconError(_) => "Falcon error",
            RaptorError::MountMissing(_) => "Missing mount error",
            RaptorError::RootRequired => "Root required",
            RaptorError::UndefinedVarError(_, _) => "Undefined var error",
            RaptorError::LayerCacheParseError => "Layer cache parse error",
            RaptorError::ParseIntError => "Parse int error",
            RaptorError::BadPathNoParent(_) => "Bad path error",
            RaptorError::PackageNotFound(_, _) => "Package not found",
            RaptorError::MissingLink(_) => "Missing link error",
            RaptorError::SingleMountOnly(_) => "Mount error",
            RaptorError::NoCommandSpecified => "No command specified",
            RaptorError::UnknownJob(_) => "Unknown job",
            RaptorError::LayerBuildError => "Layer build error",
        }
    }
}

} // verus!
