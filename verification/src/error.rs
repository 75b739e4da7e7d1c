//! The ways a command of the engine can fail.

use vstd::prelude::*;

verus! {

/// Why a command could not do its work.
///
/// A failed build or a failed test run is not among these: it is the
/// ordinary negative outcome of a verification.
#[derive(Clone, Copy, Debug, PartialEq, Eq, Structural)]
pub enum Error {
    /// The manifest is missing or does not describe a catalog.
    CatalogUnreadable,
    /// No descriptor carries the identifier, or its source is absent.
    ExerciseNotFound,
    /// The toolchain could not be started at all.
    ToolchainInvocationFailed,
    /// The progress record could not be written.
    ProgressPersistenceFailed,
}

impl Error {
    /// Whether the learner is told of the failure, and the command that met
    /// it ends with an exit status that is not zero.
    ///
    /// Only a failed write of the progress record is passed over in silence:
    /// the command goes on with the record that it holds.
    pub open spec fn spec_is_reported(self) -> bool {
        self != Error::ProgressPersistenceFailed
    }

    /// Whether the learner is told of the failure, and the command that met
    /// it ends with an exit status that is not zero.
    #[verifier::when_used_as_spec(spec_is_reported)]
    pub fn is_reported(self) -> (r: bool)
        ensures
            r == self.spec_is_reported(),
    {
        match self {
            Error::ProgressPersistenceFailed => false,
            _ => true,
        }
    }

    /// What the learner is told.
    pub open spec fn spec_message(self) -> Seq<char> {
        match self {
            Error::CatalogUnreadable => "the manifest of exercises is missing or malformed"@,
            Error::ExerciseNotFound => "the exercise was not found"@,
            Error::ToolchainInvocationFailed => "the toolchain could not be started"@,
            Error::ProgressPersistenceFailed => "the progress could not be saved"@,
        }
    }

    /// What the learner is told.
    pub fn message(self) -> (r: &'static str)
        ensures
            r@ == self.spec_message(),
    {
        match self {
            Error::CatalogUnreadable => "the manifest of exercises is missing or malformed",
            Error::ExerciseNotFound => "the exercise was not found",
            Error::ToolchainInvocationFailed => "the toolchain could not be started",
            Error::ProgressPersistenceFailed => "the progress could not be saved",
        }
    }
}

} // verus!
