//! Exercise descriptors: the immutable records a catalog is made of.

use vstd::prelude::*;

verus! {

/// How an exercise is checked.
#[derive(Copy, Debug, PartialEq, Eq, Structural)]
pub enum Mode {
    /// The exercise passes as soon as it builds.
    Compile,
    /// The exercise must build and its tests must pass.
    Test,
}

impl Clone for Mode {
    fn clone(&self) -> (r: Self)
        ensures
            r == *self,
    {
        *self
    }
}

impl Mode {
    /// Whether a successful build is followed by a test run.
    pub open spec fn spec_runs_tests(self) -> bool {
        self == Mode::Test
    }

    /// Whether a successful build is followed by a test run.
    #[verifier::when_used_as_spec(spec_runs_tests)]
    pub fn runs_tests(self) -> (r: bool)
        ensures
            r == (self == Mode::Test),
    {
        match self {
            Mode::Compile => false,
            Mode::Test => true,
        }
    }
}

/// One unit of practice: where its source lives and how it is checked.
///
/// A descriptor is loaded once with its catalog and never changed afterwards.
#[derive(Debug)]
pub struct Exercise {
    /// The identifier, unique within a catalog.
    pub id: String,
    /// The name shown to the learner.
    pub name: String,
    /// Where the exercise's source lives.
    pub path: String,
    /// How the exercise is checked.
    pub mode: Mode,
    /// The help text shown on request.
    pub hint: String,
}

/// The mathematical value of an [`Exercise`].
pub struct ExerciseView {
    pub id: Seq<char>,
    pub name: Seq<char>,
    pub path: Seq<char>,
    pub mode: Mode,
    pub hint: Seq<char>,
}

impl View for Exercise {
    type V = ExerciseView;

    open spec fn view(&self) -> ExerciseView {
        ExerciseView {
            id: self.id@,
            name: self.name@,
            path: self.path@,
            mode: self.mode,
            hint: self.hint@,
        }
    }
}

impl DeepView for Exercise {
    type V = ExerciseView;

    open spec fn deep_view(&self) -> ExerciseView {
        self@
    }
}

impl Clone for Exercise {
    fn clone(&self) -> (r: Self)
        ensures
            r == *self,
    {
        Exercise {
            id: self.id.clone(),
            name: self.name.clone(),
            path: self.path.clone(),
            mode: self.mode,
            hint: self.hint.clone(),
        }
    }
}

impl Exercise {
    /// Builds a descriptor from its five parts.
    pub fn new(id: &str, name: &str, path: &str, mode: Mode, hint: &str) -> (r: Exercise)
        ensures
            r@ == (ExerciseView { id: id@, name: name@, path: path@, mode, hint: hint@ }),
    {
        Exercise {
            id: id.to_owned(),
            name: name.to_owned(),
            path: path.to_owned(),
            mode,
            hint: hint.to_owned(),
        }
    }
}

} // verus!
