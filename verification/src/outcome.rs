use vstd::prelude::*;

verus! {

/// Why one transfer unit failed. Each failure is non-fatal for the batch:
/// it is recorded against its link and the remaining units go on.
#[derive(Debug, Clone, Copy, PartialEq, Eq, Structural)]
pub enum TransferError {
    /// The request could not be sent or answered.
    Request,
    /// The response body broke off while streaming.
    Stream,
    /// The destination file could not be created.
    CreateFile,
    /// A write to the destination file failed.
    Write,
}

/// The one recorded outcome of one transfer unit.
#[derive(Debug, Clone, Copy, PartialEq, Eq, Structural)]
pub enum TransferOutcome {
    Success,
    Failed(TransferError),
}

/// A fatal setup failure: these abort the whole run before any transfer
/// unit starts.
#[derive(Debug, Clone, Copy, PartialEq, Eq, Structural)]
pub enum SetupError {
    /// The listing page could not be fetched.
    ListingFetch,
    /// A link selector could not be parsed.
    SelectorParse,
    /// The output directory could not be created.
    CreateDir,
}

/// The process exit code a run is owed: zero exactly when setup succeeded.
/// Individual transfer failures are reported per link and never change it.
pub fn setup_exit_code(setup: &Result<(), SetupError>) -> (c: i32)
    ensures
        (c == 0) <==> setup is Ok,
{
    match setup {
        Ok(_) => 0,
        Err(_) => 1,
    }
}

} // verus!
