use inklings::catalog::{Catalog, Category};
use inklings::error::Error;
use inklings::exercise::{Exercise, Mode};

fn two_exercises() -> Vec<Exercise> {
    vec![
        Exercise::new("a", "First", "exercises/a/lib.rs", Mode::Compile, "read the error"),
        Exercise::new("b", "Second", "exercises/b/lib.rs", Mode::Test, "run the tests"),
    ]
}

#[test]
fn catalog_keeps_declared_order() {
    let catalog = Catalog::new(two_exercises(), Vec::new()).unwrap();
    assert_eq!(catalog.len(), 2);
    assert_eq!(catalog.position("a"), Some(0));
    assert_eq!(catalog.position("b"), Some(1));
    assert_eq!(catalog.position("c"), None);
    assert_eq!(catalog.find("b").unwrap().name, "Second");
    assert_eq!(catalog.find("zzz").unwrap_err(), Error::ExerciseNotFound);
}

#[test]
fn catalog_rejects_repeated_identifier() {
    let mut exercises = two_exercises();
    exercises.push(Exercise::new("a", "Again", "exercises/again/lib.rs", Mode::Test, ""));
    assert_eq!(Catalog::new(exercises, Vec::new()).unwrap_err(), Error::CatalogUnreadable);
}

#[test]
fn catalog_omits_dangling_and_repeated_members() {
    let category = Category {
        name: "intro".to_string(),
        members: vec!["b".to_string(), "ghost".to_string(), "a".to_string(), "b".to_string()],
    };
    let catalog = Catalog::new(two_exercises(), vec![category]).unwrap();
    let kept = &catalog.categories()[0];
    assert_eq!(kept.name, "intro");
    assert_eq!(kept.members, vec!["b".to_string(), "a".to_string()]);
}

#[test]
fn catalog_rejects_repeated_category_name() {
    let categories = vec![
        Category { name: "intro".to_string(), members: vec!["a".to_string()] },
        Category { name: "intro".to_string(), members: vec!["b".to_string()] },
    ];
    assert_eq!(Catalog::new(two_exercises(), categories).unwrap_err(), Error::CatalogUnreadable);
}

#[test]
fn catalog_without_exercises() {
    let catalog = Catalog::new(Vec::new(), vec![Category { name: "intro".to_string(), members: vec!["a".to_string()] }])
        .unwrap();
    assert_eq!(catalog.len(), 0);
    assert!(catalog.get(0).is_none());
    assert!(catalog.exercises().is_empty());
    assert_eq!(catalog.categories().len(), 1);
    assert!(catalog.categories()[0].members.is_empty());
    assert_eq!(catalog.find("a").unwrap_err(), Error::ExerciseNotFound);
}

#[test]
fn catalog_finds_by_place_and_by_path() {
    let mut exercises = two_exercises();
    exercises.push(Exercise::new("c", "Third", "exercises/a/lib.rs", Mode::Test, ""));
    let catalog = Catalog::new(exercises, Vec::new()).unwrap();
    assert_eq!(catalog.get(1).unwrap().id, "b");
    assert!(catalog.get(3).is_none());
    assert_eq!(catalog.exercises().len(), 3);
    // Of two exercises at one path the first is found.
    assert_eq!(catalog.find_by_path("exercises/a/lib.rs").unwrap().id, "a");
    assert_eq!(catalog.find_by_path("exercises/b/lib.rs").unwrap().id, "b");
    assert!(catalog.find_by_path("exercises/a").is_none());
    assert!(catalog.find_by_path("").is_none());
}

#[test]
fn descriptor_keeps_its_parts() {
    let exercise = Exercise::new("intro1", "Intro 1", "exercises/intro1/lib.rs", Mode::Compile, "fix it");
    assert_eq!(exercise.id, "intro1");
    assert_eq!(exercise.name, "Intro 1");
    assert_eq!(exercise.path, "exercises/intro1/lib.rs");
    assert_eq!(exercise.mode, Mode::Compile);
    assert_eq!(exercise.hint, "fix it");
    let copy = exercise.clone();
    assert_eq!(copy.id, exercise.id);
    assert_eq!(copy.mode, exercise.mode);
    assert!(!Mode::Compile.runs_tests());
    assert!(Mode::Test.runs_tests());
}

#[test]
fn only_a_failed_write_is_passed_over() {
    assert!(Error::CatalogUnreadable.is_reported());
    assert!(Error::ExerciseNotFound.is_reported());
    assert!(Error::ToolchainInvocationFailed.is_reported());
    assert!(!Error::ProgressPersistenceFailed.is_reported());
    assert_eq!(Error::CatalogUnreadable.message(), "the manifest of exercises is missing or malformed");
    assert_eq!(Error::ExerciseNotFound.message(), "the exercise was not found");
    assert_eq!(Error::ToolchainInvocationFailed.message(), "the toolchain could not be started");
    assert_eq!(Error::ProgressPersistenceFailed.message(), "the progress could not be saved");
}
