//! The per-entry error taxonomy and rename outcomes, and the rules that turn
//! one into the other at the walker boundary.

use vstd::prelude::*;

use crate::fields::FieldName;

verus! {

/// Everything that can go wrong while processing one path. Only
/// `PathNotFound` (the path given by the user does not exist) is fatal to a
/// run; every other error concerns a single entry and never stops a
/// traversal.
#[derive(Debug)]
pub enum ProcessError {
    PathNotFound,
    UnsupportedFormat,
    CorruptOrUnreadable,
    MissingField(FieldName),
    RenameIoFailure(String),
}

/// The result of attempting to process one filesystem entry.
pub enum RenameOutcome {
    Success { old_name: String, new_name: String },
    Skipped { reason: String },
    Failed { old_name: String, error: ProcessError },
}

/// Convert a per-entry error into its outcome: a file of an unrecognized
/// format is skipped, every other error is a failure that carries the entry's
/// name.
pub fn outcome_of_error(old_name: String, error: ProcessError) -> (r: RenameOutcome)
    ensures
        error is UnsupportedFormat ==> (r matches RenameOutcome::Skipped { reason } && reason@
            == "not a music file"@),
        !(error is UnsupportedFormat) ==> r == (RenameOutcome::Failed { old_name, error }),
{
    match error {
        ProcessError::UnsupportedFormat => RenameOutcome::Skipped {
            reason: "not a music file".to_owned(),
        },
        other => RenameOutcome::Failed { old_name, error: other },
    }
}

/// Convert the result of the filesystem rename itself into the entry's
/// outcome: success, or a failure that carries the underlying cause.
pub fn outcome_of_rename(old_name: String, new_name: String, io_error: Option<String>) -> (r:
    RenameOutcome)
    ensures
        io_error is None ==> r == (RenameOutcome::Success { old_name, new_name }),
        io_error matches Some(msg) ==> r == (RenameOutcome::Failed {
            old_name,
            error: ProcessError::RenameIoFailure(msg),
        }),
{
    match io_error {
        None => RenameOutcome::Success { old_name, new_name },
        Some(msg) => RenameOutcome::Failed {
            old_name,
            error: ProcessError::RenameIoFailure(msg),
        },
    }
}

/// Whether an outcome is surfaced to the user: a skipped entry is silent
/// inside a directory scan but reported when the path was given directly.
pub fn should_report(outcome: &RenameOutcome, top_level: bool) -> (r: bool)
    ensures
        r == (top_level || !(outcome is Skipped)),
{
    match outcome {
        RenameOutcome::Skipped { .. } => top_level,
        _ => true,
    }
}

} // verus!
