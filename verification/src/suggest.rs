//! Which exercise to take up next.

use vstd::prelude::*;

use crate::catalog::{Catalog, CatalogView};
use crate::exercise::Exercise;
use crate::progress::{ProgressRecord, ProgressView};

verus! {

/// Whether `j` is the place of the suggestion that follows the exercise
/// `current`: the first place behind that of `current` whose exercise is not
/// completed.
pub open spec fn is_suggestion(
    catalog: CatalogView,
    progress: ProgressView,
    current: Seq<char>,
    j: int,
) -> bool {
    exists|pos: int|
        {
            &&& #[trigger] catalog.is_position_of(current, pos)
            &&& pos < j < catalog.exercises.len()
            &&& !progress.completed.contains(catalog.exercises[j].id)
            &&& forall|k: int| pos < k < j ==> progress.completed.contains(catalog.exercises[k].id)
        }
}

/// Whether nothing is left to suggest behind the exercise `current`: the
/// catalog does not know `current`, or every exercise behind it is
/// completed.
pub open spec fn nothing_to_suggest(
    catalog: CatalogView,
    progress: ProgressView,
    current: Seq<char>,
) -> bool {
    forall|pos: int, j: int|
        #[trigger] catalog.is_position_of(current, pos) && pos < j < catalog.exercises.len()
            ==> progress.completed.contains(#[trigger] catalog.exercises[j].id)
}

/// At most one place is the suggestion, and where there is one, something
/// is left to suggest.
pub proof fn lemma_suggestion_is_unique(
    catalog: CatalogView,
    progress: ProgressView,
    current: Seq<char>,
    i: int,
    j: int,
)
    requires
        is_suggestion(catalog, progress, current, i),
    ensures
        !nothing_to_suggest(catalog, progress, current),
        is_suggestion(catalog, progress, current, j) ==> i == j,
{
    let p = choose|p: int|
        {
            &&& #[trigger] catalog.is_position_of(current, p)
            &&& p < i < catalog.exercises.len()
            &&& !progress.completed.contains(catalog.exercises[i].id)
            &&& forall|k: int| p < k < i ==> progress.completed.contains(catalog.exercises[k].id)
        };
    assert(catalog.is_position_of(current, p) && p < i < catalog.exercises.len());
    if is_suggestion(catalog, progress, current, j) {
        let q = choose|q: int|
            {
                &&& #[trigger] catalog.is_position_of(current, q)
                &&& q < j < catalog.exercises.len()
                &&& !progress.completed.contains(catalog.exercises[j].id)
                &&& forall|k: int|
                    q < k < j ==> progress.completed.contains(catalog.exercises[k].id)
            };
        assert(p == q) by {
            if p < q {
                assert(catalog.exercises[p].id != current);
            } else if q < p {
                assert(catalog.exercises[q].id != current);
            }
        }
    }
}

/// The place of the exercise to take up after the exercise `current`: the
/// first one behind it in the catalog's order that is not completed.
///
/// The search starts behind `current` and ends with the catalog: it does not
/// go back to the start. `None` says that nothing is left behind `current`,
/// or that the catalog does not know it.
pub fn suggest_next_position(catalog: &Catalog, progress: &ProgressRecord, current: &str) -> (r:
    Option<usize>)
    ensures
        match r {
            Some(j) => is_suggestion(catalog@, progress@, current@, j as int),
            None => nothing_to_suggest(catalog@, progress@, current@),
        },
{
    let exercises = catalog.exercises();
    match catalog.position(current) {
        None => {
            assert forall|pos: int| !#[trigger] catalog@.is_position_of(current@, pos) by {
                if catalog@.is_position_of(current@, pos) {
                    assert(catalog@.ids()[pos] == current@);
                }
            }
            None
        },
        Some(pos) => {
            let n = exercises.len();
            let mut j: usize = pos + 1;
            while j < n
                invariant
                    n == exercises.len(),
                    exercises.deep_view() == catalog@.exercises,
                    pos < j <= n,
                    catalog@.is_position_of(current@, pos as int),
                    forall|k: int|
                        pos < k < j ==> progress@.completed.contains(catalog@.exercises[k].id),
                decreases n - j,
            {
                assert(exercises.deep_view()[j as int] == exercises[j as int]@);
                if !progress.is_completed(exercises[j].id.as_str()) {
                    return Some(j);
                }
                j += 1;
            }
            assert forall|p: int, k: int|
                #[trigger] catalog@.is_position_of(current@, p) && p < k < catalog@.exercises.len()
                implies progress@.completed.contains(#[trigger] catalog@.exercises[k].id) by {
                if p < pos {
                    assert(catalog@.exercises[p].id != current@);
                } else if pos < p {
                    assert(catalog@.exercises[pos as int].id != current@);
                }
            }
            None
        },
    }
}

/// The exercise to take up after the exercise `current`: the first one
/// behind it in the catalog's order that is not completed.
///
/// `None` says that nothing is left behind `current`, or that the catalog
/// does not know it. An exercise that is returned is never a completed one.
pub fn suggest_next<'a>(catalog: &'a Catalog, progress: &ProgressRecord, current: &str) -> (r:
    Option<&'a Exercise>)
    ensures
        match r {
            Some(e) => {
                &&& exists|j: int|
                    #[trigger] is_suggestion(catalog@, progress@, current@, j) && e@
                        == catalog@.exercises[j]
                &&& !progress@.completed.contains(e@.id)
            },
            None => nothing_to_suggest(catalog@, progress@, current@),
        },
{
    match suggest_next_position(catalog, progress, current) {
        Some(j) => {
            let exercises = catalog.exercises();
            assert(exercises.deep_view()[j as int] == exercises[j as int]@);
            Some(&exercises[j])
        },
        None => None,
    }
}

} // verus!
