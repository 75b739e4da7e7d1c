use inklings::catalog::Catalog;
use inklings::error::Error;
use inklings::exercise::{Exercise, Mode};
use inklings::progress::ProgressStore;
use inklings::suggest::suggest_next;
use inklings::verification::{
    exit_status, offers_hint, verify_exercise, Event, ExitOutcome, Request, Step, ToolchainReply, Verification,
    VerificationOutcome,
};

fn exited(code: i32, text: &str) -> ToolchainReply {
    ToolchainReply::Exited(ExitOutcome { code: Some(code), diagnostics: text.to_string() })
}

fn two_exercises() -> Catalog {
    Catalog::new(
        vec![
            Exercise::new("a", "First", "exercises/a", Mode::Compile, "hint a"),
            Exercise::new("b", "Second", "exercises/b", Mode::Test, "hint b"),
        ],
        Vec::new(),
    )
    .unwrap()
}

#[test]
fn broken_then_fixed_source() {
    let catalog = two_exercises();
    let a = catalog.find("a").unwrap();
    let mut store = ProgressStore::new();

    let verdict = verify_exercise(a, &mut store, |_| true, |_| exited(101, "error[E0308]: mismatched types"), |_| {
        panic!("an exercise that is only compiled has no test run")
    });
    match &verdict {
        Ok(VerificationOutcome::CompileFailed { diagnostics }) => {
            assert_eq!(diagnostics, "error[E0308]: mismatched types")
        }
        other => panic!("unexpected verdict {:?}", other),
    }
    assert_eq!(store.load().attempts("a"), 1);
    assert_eq!(store.load().completed_count(), 0);
    assert_eq!(exit_status(&verdict), 1);
    assert!(offers_hint(&verdict));

    let verdict = verify_exercise(a, &mut store, |_| true, |_| exited(0, ""), |_| {
        panic!("an exercise that is only compiled has no test run")
    });
    assert!(matches!(verdict, Ok(VerificationOutcome::Success)));
    assert_eq!(store.load().attempts("a"), 2);
    assert_eq!(store.load().completed_count(), 1);
    assert!(store.load().is_completed("a"));
    assert_eq!(exit_status(&verdict), 0);
    assert!(!offers_hint(&verdict));

    let progress = store.load();
    assert_eq!(suggest_next(&catalog, &progress, "a").unwrap().id, "b");
}

#[test]
fn missing_source_counts_no_attempt() {
    let catalog = two_exercises();
    let b = catalog.find("b").unwrap();
    let mut store = ProgressStore::new();
    let verdict = verify_exercise(b, &mut store, |_| false, |_| panic!("no build"), |_| panic!("no test"));
    assert!(matches!(verdict, Err(Error::ExerciseNotFound)));
    assert!(store.persisted().is_none());
    assert_eq!(store.load().attempts("b"), 0);
    assert_eq!(exit_status(&verdict), 1);
    assert!(!offers_hint(&verdict));
}

#[test]
fn failing_tests_are_told_from_a_failing_build() {
    let catalog = two_exercises();
    let b = catalog.find("b").unwrap();
    let mut store = ProgressStore::new();
    let verdict = verify_exercise(b, &mut store, |_| true, |_| exited(0, "built"), |_| exited(1, "1 test failed"));
    match &verdict {
        Ok(VerificationOutcome::TestsFailed { diagnostics }) => assert_eq!(diagnostics, "1 test failed"),
        other => panic!("unexpected verdict {:?}", other),
    }
    assert_eq!(store.load().attempts("b"), 1);
    assert!(!store.load().is_completed("b"));
    assert_eq!(store.load().last_worked_on().map(|s| s.as_str()), Some("b"));

    let verdict = verify_exercise(b, &mut store, |_| true, |_| exited(0, ""), |_| exited(0, ""));
    assert!(matches!(verdict, Ok(VerificationOutcome::Success)));
    assert_eq!(store.load().attempts("b"), 2);
    assert!(store.load().is_completed("b"));
}

#[test]
fn toolchain_that_cannot_start() {
    let catalog = two_exercises();
    let b = catalog.find("b").unwrap();
    let mut store = ProgressStore::new();
    let verdict = verify_exercise(b, &mut store, |_| true, |_| ToolchainReply::Unavailable, |_| panic!("no test"));
    assert!(matches!(verdict, Err(Error::ToolchainInvocationFailed)));
    assert_eq!(store.load().attempts("b"), 1);

    let verdict = verify_exercise(b, &mut store, |_| true, |_| exited(0, ""), |_| ToolchainReply::Unavailable);
    assert!(matches!(verdict, Err(Error::ToolchainInvocationFailed)));
    assert_eq!(store.load().attempts("b"), 2);
    assert!(!store.load().is_completed("b"));
}

#[test]
fn run_without_exit_status_is_a_failure() {
    let catalog = two_exercises();
    let a = catalog.find("a").unwrap();
    let mut store = ProgressStore::new();
    let killed = ToolchainReply::Exited(ExitOutcome { code: None, diagnostics: "killed".to_string() });
    let verdict = verify_exercise(a, &mut store, |_| true, move |_| killed, |_| panic!("no test"));
    assert!(matches!(verdict, Ok(VerificationOutcome::CompileFailed { .. })));
}

#[test]
fn verification_step_by_step() {
    let catalog = two_exercises();
    let b = catalog.find("b").unwrap();
    let mut store = ProgressStore::new();
    let mut verification = Verification::begin(b);
    assert_eq!(verification.pending(), Some(Request::CheckSource));
    assert_eq!(verification.exercise().id, "b");

    // The build has not been asked for yet: its answer is not waited for.
    assert!(matches!(verification.advance(Event::Toolchain(exited(0, "")), &mut store), Step::Ignored));
    assert_eq!(verification.pending(), Some(Request::CheckSource));
    assert_eq!(store.load().attempts("b"), 0);

    let step = verification.advance(Event::SourceChecked { found: true }, &mut store);
    assert!(matches!(step, Step::Continue(Request::Build)));
    assert_eq!(store.load().attempts("b"), 1);
    assert_eq!(verification.pending(), Some(Request::Build));

    assert!(matches!(
        verification.advance(Event::SourceChecked { found: true }, &mut store),
        Step::Ignored
    ));
    assert_eq!(store.load().attempts("b"), 1);

    let step = verification.advance(Event::Toolchain(exited(0, "")), &mut store);
    assert!(matches!(step, Step::Continue(Request::Test)));
    assert!(!store.load().is_completed("b"));

    let step = verification.advance(Event::Toolchain(exited(0, "")), &mut store);
    assert!(matches!(step, Step::Finished(Ok(VerificationOutcome::Success))));
    assert!(store.load().is_completed("b"));
    assert_eq!(verification.pending(), None);

    assert!(matches!(verification.advance(Event::Toolchain(exited(0, "")), &mut store), Step::Ignored));
    assert_eq!(store.load().attempts("b"), 1);
}
