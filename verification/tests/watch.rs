use inklings::catalog::Catalog;
use inklings::error::Error;
use inklings::exercise::{Exercise, Mode};
use inklings::watch::{Phase, WatchAction, WatchEvent, WatchLoop, COALESCING_WINDOW_MS};

fn catalog() -> Catalog {
    Catalog::new(
        vec![
            Exercise::new("a", "First", "exercises/a/lib.rs", Mode::Compile, ""),
            Exercise::new("b", "Second", "exercises/b/lib.rs", Mode::Test, ""),
        ],
        Vec::new(),
    )
    .unwrap()
}

fn changed(path: &str, at: u64) -> WatchEvent {
    WatchEvent::Changed { path: path.to_string(), at }
}

fn is_verify(action: &WatchAction, id: &str) -> bool {
    matches!(action, WatchAction::Verify { id: asked } if asked == id)
}

#[test]
fn three_rapid_writes_trigger_one_verification() {
    let catalog = catalog();
    let mut watch = WatchLoop::open(&catalog, Some("a"), "exercises", 100).unwrap();
    match watch.start() {
        WatchAction::Subscribe { path } => assert_eq!(path, "exercises/a/lib.rs"),
        other => panic!("unexpected action {:?}", other),
    }

    let events = vec![
        changed("exercises/a/lib.rs", 1000),
        WatchEvent::Tick { at: 1020 },
        changed("exercises/a/lib.rs", 1030),
        changed("exercises/a/lib.rs", 1060),
        WatchEvent::Tick { at: 1100 },
        WatchEvent::Tick { at: 1159 },
        WatchEvent::Tick { at: 1160 },
        WatchEvent::Tick { at: 1260 },
        WatchEvent::Verified,
        WatchEvent::Tick { at: 1360 },
        WatchEvent::Tick { at: 2000 },
    ];
    let mut verifications = 0;
    for (n, event) in events.into_iter().enumerate() {
        let action = watch.handle(&catalog, event);
        if is_verify(&action, "a") {
            assert_eq!(n, 6);
            verifications += 1;
        } else {
            assert!(matches!(action, WatchAction::Nothing));
        }
    }
    assert_eq!(verifications, 1);
    assert!(matches!(watch.phase(), Phase::Watching));
}

#[test]
fn changes_during_a_verification_are_dropped() {
    let catalog = catalog();
    let mut watch = WatchLoop::open(&catalog, Some("a"), "exercises", 10).unwrap();
    watch.start();
    watch.handle(&catalog, changed("exercises/a/lib.rs", 0));
    assert!(is_verify(&watch.handle(&catalog, WatchEvent::Tick { at: 10 }), "a"));
    assert!(matches!(watch.phase(), Phase::Verifying { target } if target == "a"));
    assert!(matches!(watch.handle(&catalog, changed("exercises/a/lib.rs", 11)), WatchAction::Nothing));
    assert!(matches!(watch.handle(&catalog, WatchEvent::Tick { at: 500 }), WatchAction::Nothing));
    assert!(matches!(watch.phase(), Phase::Verifying { .. }));
    assert!(matches!(watch.handle(&catalog, WatchEvent::Verified), WatchAction::Nothing));
    assert!(matches!(watch.phase(), Phase::Watching));
    assert!(matches!(watch.handle(&catalog, WatchEvent::Tick { at: 900 }), WatchAction::Nothing));
}

#[test]
fn tree_scope_resolves_the_exercise_by_its_path() {
    let catalog = catalog();
    let mut watch = WatchLoop::open(&catalog, None, "exercises", 50).unwrap();
    match watch.start() {
        WatchAction::Subscribe { path } => assert_eq!(path, "exercises"),
        other => panic!("unexpected action {:?}", other),
    }
    // A path that belongs to no exercise leaves the loop watching.
    assert!(matches!(watch.handle(&catalog, changed("exercises/notes.txt", 0)), WatchAction::Nothing));
    assert!(matches!(watch.phase(), Phase::Watching));
    assert!(matches!(watch.handle(&catalog, WatchEvent::Tick { at: 1000 }), WatchAction::Nothing));

    watch.handle(&catalog, changed("exercises/b/lib.rs", 1000));
    assert!(matches!(watch.phase(), Phase::Debouncing { target, since: 1000 } if target == "b"));
    // Merged into the pending change: the wait starts anew.
    watch.handle(&catalog, changed("exercises/notes.txt", 1040));
    assert!(matches!(watch.phase(), Phase::Debouncing { target, since: 1040 } if target == "b"));
    watch.handle(&catalog, changed("exercises/a/lib.rs", 1045));
    assert!(matches!(watch.phase(), Phase::Debouncing { target, since: 1045 } if target == "a"));
    assert!(matches!(watch.handle(&catalog, WatchEvent::Tick { at: 1094 }), WatchAction::Nothing));
    assert!(is_verify(&watch.handle(&catalog, WatchEvent::Tick { at: 1095 }), "a"));
}

#[test]
fn a_clock_that_runs_backwards_finds_nothing_quiet() {
    let catalog = catalog();
    let mut watch = WatchLoop::open(&catalog, Some("b"), "exercises", 0).unwrap();
    watch.start();
    watch.handle(&catalog, changed("exercises/b/lib.rs", 100));
    assert!(matches!(watch.handle(&catalog, WatchEvent::Tick { at: 99 }), WatchAction::Nothing));
    assert!(is_verify(&watch.handle(&catalog, WatchEvent::Tick { at: 100 }), "b"));
}

#[test]
fn cancelling_gives_up_the_subscription() {
    let catalog = catalog();
    let mut watch = WatchLoop::for_exercise(catalog.find("a").unwrap(), COALESCING_WINDOW_MS);
    assert!(!watch.is_stopped());
    watch.start();
    watch.handle(&catalog, changed("exercises/a/lib.rs", 5));
    assert!(matches!(watch.handle(&catalog, WatchEvent::Cancelled), WatchAction::Unsubscribe));
    assert!(watch.is_stopped());
    assert!(matches!(watch.handle(&catalog, WatchEvent::Tick { at: 100_000 }), WatchAction::Nothing));
    assert!(matches!(watch.handle(&catalog, changed("exercises/a/lib.rs", 100_001)), WatchAction::Nothing));
    assert!(matches!(watch.handle(&catalog, WatchEvent::Cancelled), WatchAction::Nothing));
    assert!(matches!(watch.start(), WatchAction::Nothing));
    assert!(watch.is_stopped());
}

#[test]
fn cancelling_before_the_start_has_nothing_to_give_up() {
    let catalog = catalog();
    let mut watch = WatchLoop::for_tree("exercises", COALESCING_WINDOW_MS);
    assert!(matches!(watch.phase(), Phase::Idle));
    assert!(matches!(watch.handle(&catalog, changed("exercises/a/lib.rs", 5)), WatchAction::Nothing));
    assert!(matches!(watch.phase(), Phase::Idle));
    assert!(matches!(watch.handle(&catalog, WatchEvent::Cancelled), WatchAction::Nothing));
    assert!(watch.is_stopped());
}

#[test]
fn watching_an_unknown_exercise_is_refused() {
    let catalog = catalog();
    assert_eq!(WatchLoop::open(&catalog, Some("zzz"), "exercises", 10).unwrap_err(), Error::ExerciseNotFound);
}

#[test]
fn start_subscribes_once() {
    let catalog = catalog();
    let mut watch = WatchLoop::open(&catalog, Some("b"), "exercises", 10).unwrap();
    assert!(matches!(watch.start(), WatchAction::Subscribe { .. }));
    assert!(matches!(watch.start(), WatchAction::Nothing));
    assert!(matches!(watch.phase(), Phase::Watching));
}
