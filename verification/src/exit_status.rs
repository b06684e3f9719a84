//! How a failed command ends: the process exit code of each kind of failure.
use vstd::prelude::*;

verus! {

/// The kinds of failure that a command can end with.
#[derive(Debug, Clone, Copy, PartialEq, Eq, Structural)]
pub enum FailureKind {
    /// The TypeScript did not compile.
    Compile,
    /// The JavaScript runtime could not start, threw, ran out of time or memory.
    RuntimeFailure,
    /// The entry did not call `build()` exactly once, or built something that
    /// is not plain JSON.
    RuntimeOutput,
    /// The output could not be written as YAML.
    Emit,
    /// The output failed validation.
    Validation,
    /// Type declarations could not be generated.
    Dts,
    /// OpenAPI specs could not be fetched or read.
    OpenApi,
    /// A chart schema could not be resolved.
    Chart,
    /// `husako.toml` is missing a piece, or does not parse or validate.
    Config,
    /// Reading or writing files, or another I/O step of `generate`, failed.
    Io,
}

/// The exit code of a failure of the given kind.
pub open spec fn spec_exit_code(kind: FailureKind) -> u8 {
    match kind {
        FailureKind::Compile => 3,
        FailureKind::RuntimeFailure => 4,
        FailureKind::RuntimeOutput => 7,
        FailureKind::Emit => 7,
        FailureKind::Validation => 7,
        FailureKind::Dts => 5,
        FailureKind::OpenApi => 6,
        FailureKind::Chart => 6,
        FailureKind::Config => 2,
        FailureKind::Io => 1,
    }
}

/// The exit code of a failure: 1 for I/O, 2 for configuration, 3 for
/// compilation, 4 for runtime failures, 5 for type generation, 6 for
/// fetching specs or charts, 7 for output that is not valid.
pub fn exit_code(kind: FailureKind) -> (r: u8)
    ensures
        r == spec_exit_code(kind),
        1 <= r <= 7,
{
    match kind {
        FailureKind::Compile => 3,
        FailureKind::RuntimeFailure => 4,
        FailureKind::RuntimeOutput => 7,
        FailureKind::Emit => 7,
        FailureKind::Validation => 7,
        FailureKind::Dts => 5,
        FailureKind::OpenApi => 6,
        FailureKind::Chart => 6,
        FailureKind::Config => 2,
        FailureKind::Io => 1,
    }
}

} // verus!
