//! The error taxonomy of the build pipeline and the dispatcher.
use crate::dispatch::ElementType;
use vstd::prelude::*;

verus! {

/// A rejected architecture selection, each cause reported apart.
#[derive(Debug)]
pub enum ConfigIssue {
    /// The environment override was not an unsigned decimal integer.
    BadOverride { raw: String },
    /// The toolchain reported no supported architecture at all.
    EmptySupportedSet,
    /// The architecture exceeds the toolchain's maximum supported one.
    ExceedsMax { requested: usize, max: usize },
    /// The architecture is not among the toolchain's supported ones.
    NotSupported { requested: usize },
}

/// Unexpected shape of the driver query tool's output.
#[derive(Debug)]
pub enum ParseIssue {
    /// The output held no header line.
    MissingHeaderLine,
    /// The first line was not the expected header token.
    HeaderMismatch,
    /// The output held no data line after the header.
    MissingDataLine,
    /// The data line, separator stripped, was not an unsigned integer.
    MalformedData { raw: String },
}

/// A compiler or archiver run that exited with a non-zero status,
/// kept whole for diagnosis.
#[derive(Debug)]
pub struct BuildFailure {
    /// The program and arguments that were invoked.
    pub command: Vec<String>,
    /// Captured standard output of the failed run.
    pub stdout: String,
    /// Captured standard error of the failed run.
    pub stderr: String,
}

/// Every failure the pipeline and the dispatcher can report.
#[derive(Debug)]
pub enum Error {
    /// Bad or inconsistent architecture selection.
    Config(ConfigIssue),
    /// A required external tool is missing or unreachable.
    Toolchain { tool: String },
    /// External tool output of an unexpected shape.
    Parse(ParseIssue),
    /// Compiler or archiver non-zero exit.
    Build(BuildFailure),
    /// An element type with no numeric tag.
    UnsupportedType(ElementType),
}

} // verus!
