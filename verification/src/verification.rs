//! Verification of one exercise: the source is looked for, the attempt is
//! counted, the toolchain builds and, where the exercise asks for it, tests,
//! and the outcome is classified.
//!
//! Looking for a file and running the toolchain are not done here. A
//! [`Verification`] says what is to be done next and takes what came of it.

use vstd::prelude::*;

use crate::error::Error;
use crate::exercise::{Exercise, ExerciseView, Mode};
use crate::progress::{ProgressStore, StoreView};

verus! {

/// What one run of the toolchain left behind.
#[derive(Debug)]
pub struct ExitOutcome {
    /// The exit status, or `None` where the run ended without one.
    pub code: Option<i32>,
    /// What the run printed, as captured.
    pub diagnostics: String,
}

/// The mathematical value of an [`ExitOutcome`].
pub struct ExitOutcomeView {
    pub code: Option<i32>,
    pub diagnostics: Seq<char>,
}

impl ExitOutcomeView {
    /// Whether the run succeeded: it ended with the exit status zero.
    pub open spec fn succeeded(self) -> bool {
        self.code == Some(0i32)
    }
}

impl View for ExitOutcome {
    type V = ExitOutcomeView;

    open spec fn view(&self) -> ExitOutcomeView {
        ExitOutcomeView { code: self.code, diagnostics: self.diagnostics@ }
    }
}

impl ExitOutcome {
    /// Whether the run succeeded: it ended with the exit status zero.
    pub fn succeeded(&self) -> (r: bool)
        ensures
            r == self@.succeeded(),
    {
        match self.code {
            Some(code) => code == 0,
            None => false,
        }
    }
}

/// What came of asking the toolchain for a build or a test run.
#[derive(Debug)]
pub enum ToolchainReply {
    /// The toolchain ran and ended.
    Exited(ExitOutcome),
    /// The toolchain could not be started.
    Unavailable,
}

/// The mathematical value of a [`ToolchainReply`].
pub enum ToolchainReplyView {
    Exited(ExitOutcomeView),
    Unavailable,
}

impl View for ToolchainReply {
    type V = ToolchainReplyView;

    open spec fn view(&self) -> ToolchainReplyView {
        match self {
            ToolchainReply::Exited(outcome) => ToolchainReplyView::Exited(outcome@),
            ToolchainReply::Unavailable => ToolchainReplyView::Unavailable,
        }
    }
}

/// How one verification of an exercise ended.
#[derive(Debug)]
pub enum VerificationOutcome {
    /// The build failed; the tests were not run.
    CompileFailed { diagnostics: String },
    /// The build succeeded and the tests failed.
    TestsFailed { diagnostics: String },
    /// Everything that the exercise asks for succeeded.
    Success,
}

/// The mathematical value of a [`VerificationOutcome`].
pub enum OutcomeView {
    CompileFailed { diagnostics: Seq<char> },
    TestsFailed { diagnostics: Seq<char> },
    Success,
}

impl View for VerificationOutcome {
    type V = OutcomeView;

    open spec fn view(&self) -> OutcomeView {
        match self {
            VerificationOutcome::CompileFailed { diagnostics } => OutcomeView::CompileFailed {
                diagnostics: diagnostics@,
            },
            VerificationOutcome::TestsFailed { diagnostics } => OutcomeView::TestsFailed {
                diagnostics: diagnostics@,
            },
            VerificationOutcome::Success => OutcomeView::Success,
        }
    }
}

impl VerificationOutcome {
    /// Whether the exercise passed.
    pub fn is_success(&self) -> (r: bool)
        ensures
            r == (self@ == OutcomeView::Success),
    {
        match self {
            VerificationOutcome::Success => true,
            _ => false,
        }
    }
}

/// The mathematical value of what a verification ends with.
pub open spec fn verdict_view(verdict: Result<VerificationOutcome, Error>) -> Result<
    OutcomeView,
    Error,
> {
    match verdict {
        Ok(outcome) => Ok(outcome@),
        Err(e) => Err(e),
    }
}

/// The exit status of a command that verified an exercise: zero when the
/// exercise passed, and not zero when it failed or was not found.
pub open spec fn exit_status_of(verdict: Result<OutcomeView, Error>) -> i32 {
    if verdict == Ok::<OutcomeView, Error>(OutcomeView::Success) {
        0
    } else {
        1
    }
}

/// The exit status of a command that verified an exercise: zero when the
/// exercise passed, and not zero when it failed or was not found.
pub fn exit_status(verdict: &Result<VerificationOutcome, Error>) -> (r: i32)
    ensures
        r == exit_status_of(verdict_view(*verdict)),
{
    match verdict {
        Ok(VerificationOutcome::Success) => 0,
        _ => 1,
    }
}

/// Whether the learner is pointed to the hint: after a failed build and
/// after failed tests.
pub open spec fn suggests_hint(verdict: Result<OutcomeView, Error>) -> bool {
    verdict matches Ok(outcome) && outcome != OutcomeView::Success
}

/// Whether the learner is pointed to the hint: after a failed build and
/// after failed tests.
pub fn offers_hint(verdict: &Result<VerificationOutcome, Error>) -> (r: bool)
    ensures
        r == suggests_hint(verdict_view(*verdict)),
{
    match verdict {
        Ok(VerificationOutcome::CompileFailed { .. }) => true,
        Ok(VerificationOutcome::TestsFailed { .. }) => true,
        _ => false,
    }
}

/// What a verification waits for.
#[derive(Clone, Copy, Debug, PartialEq, Eq, Structural)]
pub enum Stage {
    /// Whether the source of the exercise exists.
    AwaitingSource,
    /// The end of the build.
    Building,
    /// The end of the test run.
    Testing,
    /// Nothing: the verification has ended.
    Finished,
}

/// What is to be done next for a verification.
#[derive(Clone, Copy, Debug, PartialEq, Eq, Structural)]
pub enum Request {
    /// See whether the source of the exercise exists.
    CheckSource,
    /// Run the build step of the toolchain on the exercise.
    Build,
    /// Run the test step of the toolchain on the exercise.
    Test,
}

/// What happened for a verification.
#[derive(Debug)]
pub enum Event {
    /// The source of the exercise was looked for.
    SourceChecked { found: bool },
    /// The toolchain was asked for the step that was requested.
    Toolchain(ToolchainReply),
}

/// The mathematical value of an [`Event`].
pub enum EventView {
    SourceChecked { found: bool },
    Toolchain(ToolchainReplyView),
}

impl View for Event {
    type V = EventView;

    open spec fn view(&self) -> EventView {
        match self {
            Event::SourceChecked { found } => EventView::SourceChecked { found: *found },
            Event::Toolchain(reply) => EventView::Toolchain(reply@),
        }
    }
}

/// What a verification makes of an event.
#[derive(Debug)]
pub enum Step {
    /// The verification goes on: this is to be done next.
    Continue(Request),
    /// The verification has ended, with this verdict.
    Finished(Result<VerificationOutcome, Error>),
    /// The event is not what the verification waits for; nothing changed.
    Ignored,
}

/// The mathematical value of a [`Step`].
pub enum StepView {
    Continue(Request),
    Finished(Result<OutcomeView, Error>),
    Ignored,
}

impl View for Step {
    type V = StepView;

    open spec fn view(&self) -> StepView {
        match self {
            Step::Continue(request) => StepView::Continue(*request),
            Step::Finished(verdict) => StepView::Finished(verdict_view(*verdict)),
            Step::Ignored => StepView::Ignored,
        }
    }
}

/// The mathematical value of a [`Verification`].
pub struct VerificationView {
    /// The exercise that is verified.
    pub exercise: ExerciseView,
    /// What the verification waits for.
    pub stage: Stage,
}

/// A verification with the progress store it writes to, and what it made
/// of the last event.
pub struct Situation {
    pub verification: VerificationView,
    pub store: StoreView,
    pub step: StepView,
}

impl VerificationView {
    /// A verification of `exercise` that has not begun.
    pub open spec fn begin(exercise: ExerciseView) -> VerificationView {
        VerificationView { exercise, stage: Stage::AwaitingSource }
    }

    /// What is to be done next, if the verification has not ended.
    pub open spec fn pending(self) -> Option<Request> {
        match self.stage {
            Stage::AwaitingSource => Some(Request::CheckSource),
            Stage::Building => Some(Request::Build),
            Stage::Testing => Some(Request::Test),
            Stage::Finished => None,
        }
    }

    /// The verification at another stage.
    pub open spec fn at(self, stage: Stage) -> VerificationView {
        VerificationView { exercise: self.exercise, stage }
    }

    /// The verification ended, with `verdict` and the store as it is.
    pub open spec fn ended(self, store: StoreView, verdict: Result<OutcomeView, Error>) -> Situation {
        Situation {
            verification: self.at(Stage::Finished),
            store,
            step: StepView::Finished(verdict),
        }
    }

    /// The verification ended with success, which the store records.
    pub open spec fn passed(self, store: StoreView) -> Situation {
        self.ended(
            store.record_completion(self.exercise.id),
            Ok(OutcomeView::Success),
        )
    }

    /// What the verification makes of `event`, with the progress in `store`.
    ///
    /// - A missing source ends it with `ExerciseNotFound`, and no attempt is
    ///   counted. A source that is there counts as an attempt, whatever
    ///   follows, and the build is next.
    /// - A toolchain that cannot be started ends it with
    ///   `ToolchainInvocationFailed`.
    /// - A failed build ends it with `CompileFailed`. After a build that
    ///   succeeded, the tests are next where the exercise has any; where it
    ///   has none, the exercise is completed.
    /// - Failed tests end it with `TestsFailed`; after tests that succeeded
    ///   the exercise is completed.
    /// - An event that the verification does not wait for changes nothing.
    pub open spec fn advance(self, event: EventView, store: StoreView) -> Situation {
        match (self.stage, event) {
            (Stage::AwaitingSource, EventView::SourceChecked { found }) => {
                if found {
                    Situation {
                        verification: self.at(Stage::Building),
                        store: store.record_attempt(self.exercise.id),
                        step: StepView::Continue(Request::Build),
                    }
                } else {
                    self.ended(store, Err(Error::ExerciseNotFound))
                }
            },
            (Stage::Building, EventView::Toolchain(ToolchainReplyView::Unavailable)) => self.ended(
                store,
                Err(Error::ToolchainInvocationFailed),
            ),
            (Stage::Building, EventView::Toolchain(ToolchainReplyView::Exited(outcome))) => {
                if !outcome.succeeded() {
                    self.ended(
                        store,
                        Ok(OutcomeView::CompileFailed { diagnostics: outcome.diagnostics }),
                    )
                } else if self.exercise.mode == Mode::Test {
                    Situation {
                        verification: self.at(Stage::Testing),
                        store,
                        step: StepView::Continue(Request::Test),
                    }
                } else {
                    self.passed(store)
                }
            },
            (Stage::Testing, EventView::Toolchain(ToolchainReplyView::Unavailable)) => self.ended(
                store,
                Err(Error::ToolchainInvocationFailed),
            ),
            (Stage::Testing, EventView::Toolchain(ToolchainReplyView::Exited(outcome))) => {
                if !outcome.succeeded() {
                    self.ended(
                        store,
                        Ok(OutcomeView::TestsFailed { diagnostics: outcome.diagnostics }),
                    )
                } else {
                    self.passed(store)
                }
            },
            _ => Situation { verification: self, store, step: StepView::Ignored },
        }
    }
}

/// One verification of one exercise, from the look for its source to its
/// verdict.
#[derive(Debug)]
pub struct Verification {
    exercise: Exercise,
    stage: Stage,
}

impl View for Verification {
    type V = VerificationView;

    closed spec fn view(&self) -> VerificationView {
        VerificationView { exercise: self.exercise@, stage: self.stage }
    }
}

impl Verification {
    /// A verification of `exercise` that has not begun: the look for the
    /// source is next.
    pub fn begin(exercise: &Exercise) -> (r: Verification)
        ensures
            r@ == VerificationView::begin(exercise@),
    {
        Verification { exercise: exercise.clone(), stage: Stage::AwaitingSource }
    }

    /// The exercise that is verified.
    pub fn exercise(&self) -> (r: &Exercise)
        ensures
            r@ == self@.exercise,
    {
        &self.exercise
    }

    /// What is to be done next, if the verification has not ended.
    pub fn pending(&self) -> (r: Option<Request>)
        ensures
            r == self@.pending(),
    {
        match self.stage {
            Stage::AwaitingSource => Some(Request::CheckSource),
            Stage::Building => Some(Request::Build),
            Stage::Testing => Some(Request::Test),
            Stage::Finished => None,
        }
    }

    /// Takes what happened and says how the verification goes on. The
    /// attempt and the completion are recorded in `store`.
    pub fn advance(&mut self, event: Event, store: &mut ProgressStore) -> (step: Step)
        ensures
            old(self)@.advance(event@, old(store)@) == (Situation {
                verification: final(self)@,
                store: final(store)@,
                step: step@,
            }),
    {
        match (self.stage, event) {
            (Stage::AwaitingSource, Event::SourceChecked { found }) => {
                if found {
                    store.record_attempt(self.exercise.id.as_str());
                    self.stage = Stage::Building;
                    Step::Continue(Request::Build)
                } else {
                    self.stage = Stage::Finished;
                    Step::Finished(Err(Error::ExerciseNotFound))
                }
            },
            (Stage::Building, Event::Toolchain(ToolchainReply::Unavailable)) => {
                self.stage = Stage::Finished;
                Step::Finished(Err(Error::ToolchainInvocationFailed))
            },
            (Stage::Building, Event::Toolchain(ToolchainReply::Exited(outcome))) => {
                if !outcome.succeeded() {
                    self.stage = Stage::Finished;
                    Step::Finished(
                        Ok(VerificationOutcome::CompileFailed { diagnostics: outcome.diagnostics }),
                    )
                } else if self.exercise.mode.runs_tests() {
                    self.stage = Stage::Testing;
                    Step::Continue(Request::Test)
                } else {
                    store.record_completion(self.exercise.id.as_str());
                    self.stage = Stage::Finished;
                    Step::Finished(Ok(VerificationOutcome::Success))
                }
            },
            (Stage::Testing, Event::Toolchain(ToolchainReply::Unavailable)) => {
                self.stage = Stage::Finished;
                Step::Finished(Err(Error::ToolchainInvocationFailed))
            },
            (Stage::Testing, Event::Toolchain(ToolchainReply::Exited(outcome))) => {
                if !outcome.succeeded() {
                    self.stage = Stage::Finished;
                    Step::Finished(
                        Ok(VerificationOutcome::TestsFailed { diagnostics: outcome.diagnostics }),
                    )
                } else {
                    store.record_completion(self.exercise.id.as_str());
                    self.stage = Stage::Finished;
                    Step::Finished(Ok(VerificationOutcome::Success))
                }
            },
            _ => Step::Ignored,
        }
    }
}

/// What a verification comes to, told at once: of an exercise checked in
/// the way `mode`, whose source was `found` or not, with what the build and
/// the test run would answer.
///
/// The build is asked only where the source was found, and the test run
/// only after a build that succeeded, for an exercise that has tests.
pub open spec fn verdict_of(
    mode: Mode,
    found: bool,
    build: ToolchainReplyView,
    test: ToolchainReplyView,
) -> Result<OutcomeView, Error> {
    if !found {
        Err(Error::ExerciseNotFound)
    } else {
        match build {
            ToolchainReplyView::Unavailable => Err(Error::ToolchainInvocationFailed),
            ToolchainReplyView::Exited(built) => {
                if !built.succeeded() {
                    Ok(OutcomeView::CompileFailed { diagnostics: built.diagnostics })
                } else if mode != Mode::Test {
                    Ok(OutcomeView::Success)
                } else {
                    match test {
                        ToolchainReplyView::Unavailable => Err(Error::ToolchainInvocationFailed),
                        ToolchainReplyView::Exited(tested) => {
                            if !tested.succeeded() {
                                Ok(OutcomeView::TestsFailed { diagnostics: tested.diagnostics })
                            } else {
                                Ok(OutcomeView::Success)
                            }
                        },
                    }
                }
            },
        }
    }
}

/// Whether a verification asks for the test run: the source was found, the
/// build succeeded, and the exercise has tests.
pub open spec fn asks_for_tests(mode: Mode, found: bool, build: ToolchainReplyView) -> bool {
    found && mode == Mode::Test && (build matches ToolchainReplyView::Exited(built)
        && built.succeeded())
}

/// The store after a verification of the exercise `id` that came to
/// `verdict`: one more attempt is counted unless the source was missing, and
/// the exercise is completed if it passed.
pub open spec fn recorded(
    store: StoreView,
    id: Seq<char>,
    verdict: Result<OutcomeView, Error>,
) -> StoreView {
    if verdict == Err::<OutcomeView, Error>(Error::ExerciseNotFound) {
        store
    } else if verdict == Ok::<OutcomeView, Error>(OutcomeView::Success) {
        store.record_attempt(id).record_completion(id)
    } else {
        store.record_attempt(id)
    }
}

/// A verification carried through: every request is answered with what
/// `found`, `build` and `test` say, until the verification has ended.
pub open spec fn carried_through(
    exercise: ExerciseView,
    store: StoreView,
    found: bool,
    build: ToolchainReplyView,
    test: ToolchainReplyView,
) -> Situation {
    let sourced = VerificationView::begin(exercise).advance(
        EventView::SourceChecked { found },
        store,
    );
    if sourced.step != StepView::Continue(Request::Build) {
        sourced
    } else {
        let built = sourced.verification.advance(EventView::Toolchain(build), sourced.store);
        if built.step != StepView::Continue(Request::Test) {
            built
        } else {
            built.verification.advance(EventView::Toolchain(test), built.store)
        }
    }
}

/// A verification that is carried through ends with the verdict that
/// [`verdict_of`] tells, and leaves the store as [`recorded`] tells. The
/// build is requested exactly where the source was found, and the test run
/// exactly where [`asks_for_tests`] says.
pub proof fn lemma_carried_through(
    exercise: ExerciseView,
    store: StoreView,
    found: bool,
    build: ToolchainReplyView,
    test: ToolchainReplyView,
)
    ensures
        ({
            let end = carried_through(exercise, store, found, build, test);
            let verdict = verdict_of(exercise.mode, found, build, test);
            &&& end.step == StepView::Finished(verdict)
            &&& end.verification.stage == Stage::Finished
            &&& end.verification.pending().is_none()
            &&& end.store == recorded(store, exercise.id, verdict)
        }),
        ({
            let sourced = VerificationView::begin(exercise).advance(
                EventView::SourceChecked { found },
                store,
            );
            let built = sourced.verification.advance(EventView::Toolchain(build), sourced.store);
            &&& found <==> sourced.step == StepView::Continue(Request::Build)
            &&& asks_for_tests(exercise.mode, found, build) <==> found && built.step
                == StepView::Continue(Request::Test)
        }),
{
}

/// What a verification does to the progress of a learner:
/// - where the source is missing, nothing;
/// - otherwise the exercise has at least one attempt afterwards, and is the
///   one worked on last;
/// - it is completed afterwards if it passed, and no other exercise is
///   completed that was not so before: completed exercises that were among
///   those of a catalog stay so when the verified one is of that catalog.
pub proof fn lemma_recorded(
    store: StoreView,
    id: Seq<char>,
    verdict: Result<OutcomeView, Error>,
    known: Set<Seq<char>>,
)
    ensures
        verdict == Err::<OutcomeView, Error>(Error::ExerciseNotFound) ==> recorded(
            store,
            id,
            verdict,
        ) == store,
        verdict != Err::<OutcomeView, Error>(Error::ExerciseNotFound) ==> {
            &&& recorded(store, id, verdict).load().attempts_of(id) >= 1
            &&& recorded(store, id, verdict).load().attempts_of(id) == crate::progress::one_more(
                store.load().attempts_of(id),
            )
            &&& recorded(store, id, verdict).load().last_worked_on == Some(id)
        },
        verdict == Ok::<OutcomeView, Error>(OutcomeView::Success) ==> recorded(
            store,
            id,
            verdict,
        ).load().completed == store.load().completed.insert(id),
        verdict != Ok::<OutcomeView, Error>(OutcomeView::Success) ==> recorded(
            store,
            id,
            verdict,
        ).load().completed == store.load().completed,
        store.load().completed.subset_of(known) && known.contains(id) ==> recorded(
            store,
            id,
            verdict,
        ).load().completed.subset_of(known),
{
}

/// Verifies `exercise` with the outside work handed in: `source_exists`
/// looks for the source, `build` and `test` run the two steps of the
/// toolchain. The attempt and the completion are recorded in `store`.
///
/// Each of the three is called at most once and only when its answer is
/// needed: `build` where the source was found, `test` after a build that
/// succeeded, for an exercise that has tests.
pub fn verify_exercise<S, B, T>(
    exercise: &Exercise,
    store: &mut ProgressStore,
    source_exists: S,
    build: B,
    test: T,
) -> (verdict: Result<VerificationOutcome, Error>) where
    S: FnOnce(&Exercise) -> bool,
    B: FnOnce(&Exercise) -> ToolchainReply,
    T: FnOnce(&Exercise) -> ToolchainReply,

    requires
        call_requires(source_exists, (exercise,)),
        call_requires(build, (exercise,)),
        call_requires(test, (exercise,)),
    ensures
        exists|found: bool, built: ToolchainReply, tested: ToolchainReply|
            {
                &&& call_ensures(source_exists, (exercise,), found)
                &&& found ==> call_ensures(build, (exercise,), built)
                &&& asks_for_tests(exercise@.mode, found, built@) ==> call_ensures(
                    test,
                    (exercise,),
                    tested,
                )
                &&& verdict_view(verdict) == #[trigger] verdict_of(
                    exercise@.mode,
                    found,
                    built@,
                    tested@,
                )
            },
        final(store)@ == recorded(old(store)@, exercise@.id, verdict_view(verdict)),
{
    let ghost none = ToolchainReply::Unavailable;
    let found = source_exists(exercise);
    if !found {
        assert(verdict_of(exercise@.mode, found, none@, none@) == Err::<OutcomeView, Error>(
            Error::ExerciseNotFound,
        ));
        return Err(Error::ExerciseNotFound);
    }
    store.record_attempt(exercise.id.as_str());
    let built = build(exercise);
    let ghost built_reply = built;
    match built {
        ToolchainReply::Unavailable => {
            assert(verdict_of(exercise@.mode, found, built_reply@, none@) == Err::<
                OutcomeView,
                Error,
            >(Error::ToolchainInvocationFailed));
            Err(Error::ToolchainInvocationFailed)
        },
        ToolchainReply::Exited(outcome) => {
            if !outcome.succeeded() {
                let verdict = Ok(
                    VerificationOutcome::CompileFailed { diagnostics: outcome.diagnostics },
                );
                assert(verdict_of(exercise@.mode, found, built_reply@, none@) == verdict_view(
                    verdict,
                ));
                verdict
            } else if !exercise.mode.runs_tests() {
                store.record_completion(exercise.id.as_str());
                assert(verdict_of(exercise@.mode, found, built_reply@, none@) == Ok::<
                    OutcomeView,
                    Error,
                >(OutcomeView::Success));
                Ok(VerificationOutcome::Success)
            } else {
                let tested = test(exercise);
                let ghost tested_reply = tested;
                let verdict = match tested {
                    ToolchainReply::Unavailable => Err(Error::ToolchainInvocationFailed),
                    ToolchainReply::Exited(outcome) => {
                        if !outcome.succeeded() {
                            Ok(
                                VerificationOutcome::TestsFailed {
                                    diagnostics: outcome.diagnostics,
                                },
                            )
                        } else {
                            store.record_completion(exercise.id.as_str());
                            Ok(VerificationOutcome::Success)
                        }
                    },
                };
                assert(verdict_of(exercise@.mode, found, built_reply@, tested_reply@)
                    == verdict_view(verdict));
                verdict
            }
        },
    }
}

} // verus!
