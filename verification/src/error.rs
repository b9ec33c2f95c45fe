//! What can end a run, and the status that the process then exits with.

use vstd::prelude::*;

verus! {

/// What ended a run of the program.
#[derive(Clone, Copy, Debug, PartialEq, Eq, Structural)]
pub enum Error {
    /// The configuration could not be opened, read or made sense of.
    Config,
    /// The asynchronous runtime could not be started.
    InitializeTokioRuntime,
    /// The asynchronous runtime did not shut down in order.
    ShutdownTokioRuntime,
}

/// An error that decides the status of the process.
pub trait CommandError {
    fn exit_code(&self) -> i32;
}

/// The conventional status for a fault in the configuration.
pub open spec fn config_status() -> i32 {
    78
}

/// The conventional status for a fault of input or output.
pub open spec fn io_status() -> i32 {
    74
}

/// The status that the process exits with after `error`.
pub open spec fn exit_code_spec(error: Error) -> i32 {
    match error {
        Error::Config => config_status(),
        Error::InitializeTokioRuntime => io_status(),
        Error::ShutdownTokioRuntime => io_status(),
    }
}

/// Trusted: reads the constant `exitcode::CONFIG`, which is 78.
#[verifier::external_body]
fn config_code() -> (code: i32)
    ensures
        code == config_status(),
{
    exitcode::CONFIG
}

/// Trusted: reads the constant `exitcode::IOERR`, which is 74.
#[verifier::external_body]
fn io_code() -> (code: i32)
    ensures
        code == io_status(),
{
    exitcode::IOERR
}

impl CommandError for Error {
    fn exit_code(&self) -> (code: i32)
        ensures
            code == exit_code_spec(*self),
    {
        match self {
            Error::Config => config_code(),
            Error::InitializeTokioRuntime => io_code(),
            Error::ShutdownTokioRuntime => io_code(),
        }
    }
}

} // verus!
