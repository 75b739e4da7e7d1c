//! What a session reports of a learner's progress: how much of the catalog
//! is done, how each category stands, and which exercises took most tries.
//!
//! Everything here reads the catalog and the progress record and changes
//! neither.

use vstd::prelude::*;

use crate::catalog::{lemma_position_is_unique, Catalog, CatalogView};
use crate::error::Error;
use crate::progress::{ProgressRecord, ProgressView};

verus! {

/// The share of `done` in `total` as a percentage, rounded down; 0 where
/// `total` is 0.
pub open spec fn percentage(done: nat, total: nat) -> nat {
    if total == 0 {
        0
    } else {
        (done * 100) / total
    }
}

/// How many of `width` cells of a progress bar are filled when `done` of
/// `total` are done: the share of `done` in `total`, rounded down, and never
/// more than all of them; none where `total` is 0.
pub open spec fn filled_cells(width: nat, done: nat, total: nat) -> nat {
    if total == 0 {
        0
    } else if done >= total {
        width
    } else {
        (width * done) / total
    }
}

/// The share of `done` in `total` as a percentage, rounded down; 0 where
/// `total` is 0.
pub fn percentage_of(done: usize, total: usize) -> (r: u128)
    ensures
        r == percentage(done as nat, total as nat),
{
    if total == 0 {
        0
    } else {
        let hundredfold: u128 = (done as u128) * 100;
        hundredfold / (total as u128)
    }
}

/// How many of `width` cells of a progress bar are filled when `done` of
/// `total` are done.
pub fn progress_bar(width: usize, done: usize, total: usize) -> (r: usize)
    ensures
        r == filled_cells(width as nat, done as nat, total as nat),
        r <= width,
{
    if total == 0 {
        0
    } else if done >= total {
        width
    } else {
        assert(width * done <= 0xffff_ffff_ffff_ffff * 0xffff_ffff_ffff_ffff) by (nonlinear_arith)
            requires
                width <= 0xffff_ffff_ffff_ffff,
                done <= 0xffff_ffff_ffff_ffff,
        ;
        let product: u128 = (width as u128) * (done as u128);
        let cells: u128 = product / (total as u128);
        proof {
            assert(width * done <= width * total) by (nonlinear_arith)
                requires
                    done < total,
            ;
            assert((width * done) / (total as int) <= width) by (nonlinear_arith)
                requires
                    width * done <= width * total,
                    total > 0,
            ;
        }
        cells as usize
    }
}

/// Of 100 percent, all is done when as many are done as there are, and
/// nothing when nothing is done.
pub proof fn lemma_percentage_ends(total: nat)
    requires
        total > 0,
    ensures
        percentage(total, total) == 100,
        percentage(0, total) == 0,
{
    assert((total * 100) / total == 100) by (nonlinear_arith)
        requires
            total > 0,
    ;
}

/// How much of the catalog is completed, as a percentage: the number of
/// completed exercises by the number of exercises, rounded down, and 0 for a
/// catalog without exercises.
pub open spec fn completion(catalog: CatalogView, progress: ProgressView) -> nat {
    percentage(progress.completed.len(), catalog.exercises.len())
}

/// How much of the catalog is completed, as a percentage rounded down; 0
/// for a catalog without exercises.
pub fn completion_percentage(catalog: &Catalog, progress: &ProgressRecord) -> (r: u128)
    ensures
        r == completion(catalog@, progress@),
{
    percentage_of(progress.completed_count(), catalog.len())
}

/// For a catalog that holds an exercise: the completion is 100 when the
/// completed exercises are those of the catalog, and 0 for the empty record.
pub proof fn lemma_completion_ends(catalog: CatalogView, progress: ProgressView)
    requires
        catalog.wf(),
        catalog.exercises.len() > 0,
    ensures
        progress.completed == catalog.identifiers() ==> completion(catalog, progress) == 100,
        completion(catalog, ProgressView::empty()) == 0,
{
    lemma_percentage_ends(catalog.exercises.len());
    catalog.ids().unique_seq_to_set();
}

/// While the completed exercises are among those of the catalog, the
/// completion is at most 100.
pub proof fn lemma_completion_bounded(catalog: CatalogView, progress: ProgressView)
    requires
        catalog.wf(),
        progress.completed.subset_of(catalog.identifiers()),
    ensures
        completion(catalog, progress) <= 100,
{
    broadcast use vstd::seq_lib::seq_to_set_is_finite;

    catalog.ids().unique_seq_to_set();
    vstd::set_lib::lemma_len_subset(progress.completed, catalog.identifiers());
    let done = progress.completed.len();
    let total = catalog.exercises.len();
    if total > 0 {
        assert((done * 100) / total <= 100) by (nonlinear_arith)
            requires
                done <= total,
                total > 0,
        ;
    }
}

/// How one category stands.
#[derive(Debug)]
pub struct CategoryProgress {
    /// The name of the category.
    pub name: String,
    /// How many of its exercises are completed.
    pub completed: usize,
    /// How many exercises it has.
    pub total: usize,
}

/// The mathematical value of a [`CategoryProgress`].
pub struct CategoryProgressView {
    pub name: Seq<char>,
    pub completed: nat,
    pub total: nat,
}

impl View for CategoryProgress {
    type V = CategoryProgressView;

    open spec fn view(&self) -> CategoryProgressView {
        CategoryProgressView {
            name: self.name@,
            completed: self.completed as nat,
            total: self.total as nat,
        }
    }
}

impl DeepView for CategoryProgress {
    type V = CategoryProgressView;

    open spec fn deep_view(&self) -> CategoryProgressView {
        self@
    }
}

/// How many of `members` are completed.
pub open spec fn completed_among(members: Seq<Seq<char>>, completed: Set<Seq<char>>) -> nat {
    members.filter(|id: Seq<char>| completed.contains(id)).len()
}

/// How each category of the catalog stands, in the catalog's order: of the
/// exercises that the category names, how many there are and how many of
/// them are completed.
pub open spec fn breakdown(catalog: CatalogView, progress: ProgressView) -> Seq<
    CategoryProgressView,
> {
    Seq::new(
        catalog.categories.len(),
        |k: int|
            CategoryProgressView {
                name: catalog.categories[k].name,
                completed: completed_among(catalog.categories[k].members, progress.completed),
                total: catalog.categories[k].members.len(),
            },
    )
}

/// How many of `members` are completed.
fn count_completed(members: &Vec<String>, progress: &ProgressRecord) -> (r: usize)
    ensures
        r == completed_among(members.deep_view(), progress@.completed),
        r <= members.len(),
{
    let ghost all = members.deep_view();
    let ghost done = |id: Seq<char>| progress@.completed.contains(id);
    let n = members.len();
    let mut count: usize = 0;
    let mut i: usize = 0;
    assert(all.take(0) =~= Seq::empty());
    while i < n
        invariant
            n == members.len(),
            i <= n,
            all == members.deep_view(),
            done == (|id: Seq<char>| progress@.completed.contains(id)),
            count == all.take(i as int).filter(done).len(),
            count <= i,
        decreases n - i,
    {
        proof {
            assert(all.take(i as int + 1) =~= all.take(i as int).push(all[i as int]));
            all.take(i as int).lemma_filter_len_push(done, all[i as int]);
        }
        if progress.is_completed(members[i].as_str()) {
            count += 1;
        }
        i += 1;
    }
    assert(all.take(n as int) =~= all);
    count
}

/// How each category of the catalog stands, in the catalog's order.
pub fn category_breakdown(catalog: &Catalog, progress: &ProgressRecord) -> (r: Vec<
    CategoryProgress,
>)
    ensures
        r.deep_view() == breakdown(catalog@, progress@),
{
    let categories = catalog.categories();
    let mut rows: Vec<CategoryProgress> = Vec::new();
    let n = categories.len();
    let mut k: usize = 0;
    while k < n
        invariant
            n == categories.len(),
            k <= n,
            categories.deep_view() == catalog@.categories,
            rows.len() == k,
            forall|a: int| 0 <= a < k ==> (#[trigger] rows[a])@ == breakdown(catalog@, progress@)[a],
        decreases n - k,
    {
        assert(categories.deep_view()[k as int] == categories[k as int]@);
        let completed = count_completed(&categories[k].members, progress);
        rows.push(
            CategoryProgress {
                name: categories[k].name.clone(),
                completed,
                total: categories[k].members.len(),
            },
        );
        k += 1;
    }
    assert(rows.deep_view() =~= breakdown(catalog@, progress@));
    rows
}

/// No category has more completed exercises than it has exercises.
pub proof fn lemma_breakdown_bounded(catalog: CatalogView, progress: ProgressView, k: int)
    requires
        0 <= k < catalog.categories.len(),
    ensures
        breakdown(catalog, progress)[k].completed <= breakdown(catalog, progress)[k].total,
        breakdown(catalog, ProgressView::empty())[k].completed == 0,
{
    let members = catalog.categories[k].members;
    members.lemma_filter_len(|id: Seq<char>| progress.completed.contains(id));
    let never = |id: Seq<char>| ProgressView::empty().completed.contains(id);
    if members.filter(never).len() > 0 {
        members.lemma_filter_pred(never, 0);
    }
}

/// One row of the list of most attempted exercises.
#[derive(Clone, Copy, Debug, PartialEq, Eq, Structural)]
pub struct Attempted {
    /// The place of the exercise in the catalog's order.
    pub exercise: usize,
    /// How often it was tried.
    pub attempts: u32,
}

impl View for Attempted {
    type V = (int, nat);

    open spec fn view(&self) -> (int, nat) {
        (self.exercise as int, self.attempts as nat)
    }
}

impl DeepView for Attempted {
    type V = (int, nat);

    open spec fn deep_view(&self) -> (int, nat) {
        self@
    }
}

/// How often the exercise at place `i` of the catalog was tried.
pub open spec fn tried(catalog: CatalogView, progress: ProgressView, i: int) -> nat {
    progress.attempts_of(catalog.exercises[i].id)
}

/// Whether the exercise at place `i` stands before the one at place `j` in
/// the list of most attempted exercises: it was tried more often, or as
/// often and it comes first in the catalog.
pub open spec fn ranks_before(catalog: CatalogView, progress: ProgressView, i: int, j: int) -> bool {
    tried(catalog, progress, i) > tried(catalog, progress, j) || (tried(catalog, progress, i)
        == tried(catalog, progress, j) && i < j)
}

/// Whether `rows` lists the exercise at place `i`.
pub open spec fn lists(rows: Seq<(int, nat)>, i: int) -> bool {
    exists|k: int| 0 <= k < rows.len() && (#[trigger] rows[k]).0 == i
}

/// Whether `rows` is the list of the `n` most attempted exercises: exercises
/// of the catalog that were tried at least once, each with its number of
/// attempts, the most attempted first and, of two tried equally often, the
/// one first that the catalog has first; and no exercise is left out unless
/// the list is full and its last row stands before that exercise.
pub open spec fn is_most_attempted(
    catalog: CatalogView,
    progress: ProgressView,
    n: nat,
    rows: Seq<(int, nat)>,
) -> bool {
    &&& rows.len() <= n
    &&& forall|k: int|
        0 <= k < rows.len() ==> {
            &&& 0 <= (#[trigger] rows[k]).0 < catalog.exercises.len()
            &&& rows[k].1 == tried(catalog, progress, rows[k].0)
            &&& rows[k].1 > 0
        }
    &&& forall|k: int, l: int|
        0 <= k < l < rows.len() ==> ranks_before(
            catalog,
            progress,
            (#[trigger] rows[k]).0,
            (#[trigger] rows[l]).0,
        )
    &&& forall|i: int|
        0 <= i < catalog.exercises.len() && #[trigger] tried(catalog, progress, i) > 0 ==> {
            ||| lists(rows, i)
            ||| rows.len() == n && (n == 0 || ranks_before(catalog, progress, rows.last().0, i))
        }
}

/// Two lists of the most attempted exercises that agree on their first `k`
/// rows cannot differ in the next row by one standing before the other.
proof fn lemma_next_row_cannot_rank_before(
    catalog: CatalogView,
    progress: ProgressView,
    n: nat,
    a: Seq<(int, nat)>,
    b: Seq<(int, nat)>,
    k: int,
)
    requires
        is_most_attempted(catalog, progress, n, a),
        is_most_attempted(catalog, progress, n, b),
        0 <= k < a.len(),
        k < b.len(),
        forall|l: int| 0 <= l < k ==> a[l] == b[l],
    ensures
        !ranks_before(catalog, progress, a[k].0, b[k].0),
{
    let x = a[k].0;
    let y = b[k].0;
    if ranks_before(catalog, progress, x, y) {
        assert(tried(catalog, progress, x) > 0);
        if lists(b, x) {
            let l = choose|l: int| 0 <= l < b.len() && (#[trigger] b[l]).0 == x;
            if l < k {
                assert(a[l] == b[l]);
                assert(ranks_before(catalog, progress, a[l].0, a[k].0));
            } else if l > k {
                assert(ranks_before(catalog, progress, b[k].0, b[l].0));
            }
        } else {
            if k < b.len() - 1 {
                assert(ranks_before(catalog, progress, b[k].0, b[b.len() - 1].0));
            }
        }
    }
}

/// Two lists of the most attempted exercises have the same rows as far as
/// both reach.
proof fn lemma_rows_agree(
    catalog: CatalogView,
    progress: ProgressView,
    n: nat,
    a: Seq<(int, nat)>,
    b: Seq<(int, nat)>,
    k: int,
)
    requires
        is_most_attempted(catalog, progress, n, a),
        is_most_attempted(catalog, progress, n, b),
        0 <= k < a.len(),
        k < b.len(),
    ensures
        a[k] == b[k],
    decreases k,
{
    assert forall|l: int| 0 <= l < k implies a[l] == b[l] by {
        lemma_rows_agree(catalog, progress, n, a, b, l);
    }
    lemma_next_row_cannot_rank_before(catalog, progress, n, a, b, k);
    lemma_next_row_cannot_rank_before(catalog, progress, n, b, a, k);
    assert(a[k].0 == b[k].0);
    assert(a[k].1 == tried(catalog, progress, a[k].0));
    assert(b[k].1 == tried(catalog, progress, b[k].0));
}

/// Of two lists of the most attempted exercises the first is not the
/// shorter one.
proof fn lemma_not_shorter(
    catalog: CatalogView,
    progress: ProgressView,
    n: nat,
    a: Seq<(int, nat)>,
    b: Seq<(int, nat)>,
)
    requires
        is_most_attempted(catalog, progress, n, a),
        is_most_attempted(catalog, progress, n, b),
    ensures
        a.len() >= b.len(),
{
    if a.len() < b.len() {
        let z = b[a.len() as int].0;
        assert(tried(catalog, progress, z) > 0);
        assert(lists(a, z));
        let l = choose|l: int| 0 <= l < a.len() && (#[trigger] a[l]).0 == z;
        lemma_rows_agree(catalog, progress, n, a, b, l);
        assert(ranks_before(catalog, progress, b[l].0, b[a.len() as int].0));
    }
}

/// There is one list of the `n` most attempted exercises, and no other.
pub proof fn lemma_most_attempted_is_unique(
    catalog: CatalogView,
    progress: ProgressView,
    n: nat,
    a: Seq<(int, nat)>,
    b: Seq<(int, nat)>,
)
    requires
        is_most_attempted(catalog, progress, n, a),
        is_most_attempted(catalog, progress, n, b),
    ensures
        a == b,
{
    lemma_not_shorter(catalog, progress, n, a, b);
    lemma_not_shorter(catalog, progress, n, b, a);
    assert forall|k: int| 0 <= k < a.len() implies a[k] == b[k] by {
        lemma_rows_agree(catalog, progress, n, a, b, k);
    }
    assert(a =~= b);
}

/// How often each exercise of the catalog was tried, in the catalog's order.
fn attempts_in_order(catalog: &Catalog, progress: &ProgressRecord) -> (counts: Vec<u32>)
    ensures
        counts.len() == catalog@.exercises.len(),
        forall|i: int|
            0 <= i < counts.len() ==> #[trigger] counts[i] == tried(catalog@, progress@, i),
{
    let exercises = catalog.exercises();
    let n = exercises.len();
    let mut counts: Vec<u32> = Vec::new();
    let mut i: usize = 0;
    while i < n
        invariant
            n == exercises.len(),
            i <= n,
            exercises.deep_view() == catalog@.exercises,
            counts.len() == i,
            forall|a: int| 0 <= a < i ==> #[trigger] counts[a] == tried(catalog@, progress@, a),
        decreases n - i,
    {
        assert(exercises.deep_view()[i as int] == exercises[i as int]@);
        counts.push(progress.attempts(exercises[i].id.as_str()));
        i += 1;
    }
    counts
}

/// The `n` most attempted exercises: those tried most often first and, of
/// two tried equally often, the one first that the catalog has first. An
/// exercise never tried is not listed, so the list may be shorter than `n`.
pub fn most_attempted(catalog: &Catalog, progress: &ProgressRecord, n: usize) -> (r: Vec<
    Attempted,
>)
    ensures
        is_most_attempted(catalog@, progress@, n as nat, r.deep_view()),
{
    let counts = attempts_in_order(catalog, progress);
    let m = counts.len();
    let ghost c = catalog@;
    let ghost p = progress@;
    let mut rows: Vec<Attempted> = Vec::new();
    let mut full = false;
    while rows.len() < n && !full
        invariant
            c == catalog@,
            p == progress@,
            m == counts.len(),
            m == c.exercises.len(),
            forall|i: int| 0 <= i < m ==> #[trigger] counts[i] == tried(c, p, i),
            rows.len() <= n,
            forall|k: int|
                0 <= k < rows.len() ==> {
                    &&& 0 <= (#[trigger] rows.deep_view()[k]).0 < m
                    &&& rows.deep_view()[k].1 == tried(c, p, rows.deep_view()[k].0)
                    &&& rows.deep_view()[k].1 > 0
                },
            forall|k: int, l: int|
                0 <= k < l < rows.len() ==> ranks_before(
                    c,
                    p,
                    (#[trigger] rows.deep_view()[k]).0,
                    (#[trigger] rows.deep_view()[l]).0,
                ),
            !full ==> forall|i: int|
                0 <= i < m && #[trigger] tried(c, p, i) > 0 ==> {
                    ||| lists(rows.deep_view(), i)
                    ||| rows.len() == 0
                    ||| ranks_before(c, p, rows.deep_view().last().0, i)
                },
            full ==> forall|i: int|
                0 <= i < m && #[trigger] tried(c, p, i) > 0 ==> lists(rows.deep_view(), i),
        decreases n - rows.len() + if full { 0int } else { 1int },
    {
        let ghost listed = rows.deep_view();
        let have = rows.len();
        let mut best: Option<usize> = None;
        let mut i: usize = 0;
        while i < m
            invariant
                m == counts.len(),
                m == c.exercises.len(),
                i <= m,
                have == rows.len(),
                listed == rows.deep_view(),
                forall|j: int| 0 <= j < m ==> #[trigger] counts[j] == tried(c, p, j),
                forall|k: int|
                    0 <= k < listed.len() ==> {
                        &&& 0 <= (#[trigger] listed[k]).0 < m
                        &&& listed[k].1 == tried(c, p, listed[k].0)
                    },
                match best {
                    Some(b) => {
                        &&& b < i
                        &&& tried(c, p, b as int) > 0
                        &&& have == 0 || ranks_before(c, p, listed.last().0, b as int)
                        &&& forall|j: int|
                            0 <= j < i && #[trigger] tried(c, p, j) > 0 && (have == 0
                                || ranks_before(c, p, listed.last().0, j)) ==> j == b
                                || ranks_before(c, p, b as int, j)
                    },
                    None => forall|j: int|
                        0 <= j < i && #[trigger] tried(c, p, j) > 0 ==> !(have == 0
                            || ranks_before(c, p, listed.last().0, j)),
                },
            decreases m - i,
        {
            let count = counts[i];
            assert(count == tried(c, p, i as int));
            let behind_last = if have == 0 {
                true
            } else {
                let last = rows[have - 1];
                assert(last@ == listed.last());
                assert(last.attempts == tried(c, p, last.exercise as int));
                last.attempts > count || (last.attempts == count && last.exercise < i)
            };
            if count > 0 && behind_last {
                match best {
                    None => {
                        best = Some(i);
                    },
                    Some(b) => {
                        assert(counts[b as int] == tried(c, p, b as int));
                        if count > counts[b] {
                            best = Some(i);
                        }
                    },
                }
            }
            i += 1;
        }
        match best {
            None => {
                full = true;
                assert forall|i: int| 0 <= i < m && #[trigger] tried(c, p, i) > 0 implies lists(
                    rows.deep_view(),
                    i,
                ) by {}
            },
            Some(b) => {
                assert(counts[b as int] == tried(c, p, b as int));
                rows.push(Attempted { exercise: b, attempts: counts[b] });
                proof {
                    let now = rows.deep_view();
                    assert(now =~= listed.push((b as int, counts[b as int] as nat)));
                    assert forall|k: int, l: int| 0 <= k < l < now.len() implies ranks_before(
                        c,
                        p,
                        (#[trigger] now[k]).0,
                        (#[trigger] now[l]).0,
                    ) by {
                        if l < listed.len() {
                            assert(now[k] == listed[k] && now[l] == listed[l]);
                        } else if k < listed.len() - 1 {
                            assert(now[k] == listed[k]);
                            assert(ranks_before(c, p, listed[k].0, listed[listed.len() - 1].0));
                        } else {
                            assert(now[k] == listed.last());
                        }
                    }
                    assert forall|i: int| 0 <= i < m && #[trigger] tried(c, p, i) > 0 implies {
                        ||| lists(now, i)
                        ||| now.len() == 0
                        ||| ranks_before(c, p, now.last().0, i)
                    } by {
                        if lists(listed, i) {
                            let k = choose|k: int|
                                0 <= k < listed.len() && (#[trigger] listed[k]).0 == i;
                            assert(now[k].0 == i);
                        } else if i == b {
                            assert(now[now.len() - 1].0 == i);
                        }
                    }
                }
            },
        }
    }
    rows
}

/// One line of the list of exercises.
#[derive(Clone, Copy, Debug, PartialEq, Eq, Structural)]
pub struct Row {
    /// The place of the exercise in the catalog's order.
    pub exercise: usize,
    /// Whether the exercise is completed.
    pub completed: bool,
}

impl View for Row {
    type V = (int, bool);

    open spec fn view(&self) -> (int, bool) {
        (self.exercise as int, self.completed)
    }
}

impl DeepView for Row {
    type V = (int, bool);

    open spec fn deep_view(&self) -> (int, bool) {
        self@
    }
}

/// One group of lines of the list of exercises.
#[derive(Debug)]
pub struct Section {
    /// The name of the category, or `None` for the catalog as a whole.
    pub title: Option<String>,
    /// The exercises of the group, in order.
    pub rows: Vec<Row>,
}

/// The mathematical value of a [`Section`].
pub struct SectionView {
    pub title: Option<Seq<char>>,
    pub rows: Seq<(int, bool)>,
}

impl View for Section {
    type V = SectionView;

    open spec fn view(&self) -> SectionView {
        SectionView {
            title: match self.title {
                Some(name) => Some(name@),
                None => None,
            },
            rows: self.rows.deep_view(),
        }
    }
}

impl DeepView for Section {
    type V = SectionView;

    open spec fn deep_view(&self) -> SectionView {
        self@
    }
}

/// The lines for the exercises `members`: for each its place in the catalog
/// and whether it is completed.
pub open spec fn rows_of(catalog: CatalogView, progress: ProgressView, members: Seq<Seq<char>>) -> Seq<
    (int, bool),
> {
    Seq::new(
        members.len(),
        |m: int| (catalog.position(members[m]), progress.completed.contains(members[m])),
    )
}

/// The list of exercises: where the catalog has categories, one section for
/// each with the exercises that it names; where it has none, one section
/// without a title that holds every exercise in the catalog's order.
pub open spec fn listing_of(catalog: CatalogView, progress: ProgressView) -> Seq<SectionView> {
    if catalog.categories.len() > 0 {
        Seq::new(
            catalog.categories.len(),
            |k: int|
                SectionView {
                    title: Some(catalog.categories[k].name),
                    rows: rows_of(catalog, progress, catalog.categories[k].members),
                },
        )
    } else {
        seq![SectionView { title: None, rows: rows_of(catalog, progress, catalog.ids()) }]
    }
}

/// The lines for the exercises `members`, each of which the catalog knows.
fn rows_for(catalog: &Catalog, progress: &ProgressRecord, members: &Vec<String>) -> (rows: Vec<Row>)
    requires
        forall|m: int|
            0 <= m < members.len() ==> catalog@.identifiers().contains(
                #[trigger] members.deep_view()[m],
            ),
    ensures
        rows.deep_view() == rows_of(catalog@, progress@, members.deep_view()),
{
    let ghost ids = members.deep_view();
    let n = members.len();
    let mut rows: Vec<Row> = Vec::new();
    let mut m: usize = 0;
    while m < n
        invariant
            n == members.len(),
            m <= n,
            ids == members.deep_view(),
            forall|a: int| 0 <= a < n ==> catalog@.identifiers().contains(#[trigger] ids[a]),
            rows.len() == m,
            forall|a: int|
                0 <= a < m ==> (#[trigger] rows[a])@ == rows_of(catalog@, progress@, ids)[a],
        decreases n - m,
    {
        assert(catalog@.identifiers().contains(ids[m as int]));
        let completed = progress.is_completed(members[m].as_str());
        let place = catalog.position(members[m].as_str());
        let i = place.unwrap();
        proof {
            lemma_position_is_unique(catalog@, ids[m as int], i as int);
        }
        rows.push(Row { exercise: i, completed });
        m += 1;
    }
    assert(rows.deep_view() =~= rows_of(catalog@, progress@, ids));
    rows
}

/// The list of exercises with what is completed: by category where the
/// catalog has categories, and else as one section in the catalog's order.
pub fn listing(catalog: &Catalog, progress: &ProgressRecord) -> (r: Vec<Section>)
    ensures
        r.deep_view() == listing_of(catalog@, progress@),
{
    proof {
        use_type_invariant(catalog);
    }
    let categories = catalog.categories();
    let mut sections: Vec<Section> = Vec::new();
    if categories.len() > 0 {
        let n = categories.len();
        let mut k: usize = 0;
        while k < n
            invariant
                n == categories.len(),
                n > 0,
                k <= n,
                catalog@.wf(),
                categories.deep_view() == catalog@.categories,
                sections.len() == k,
                forall|a: int|
                    0 <= a < k ==> (#[trigger] sections[a])@ == listing_of(catalog@, progress@)[a],
            decreases n - k,
        {
            assert(categories.deep_view()[k as int] == categories[k as int]@);
            let rows = rows_for(catalog, progress, &categories[k].members);
            sections.push(Section { title: Some(categories[k].name.clone()), rows });
            k += 1;
        }
        assert(sections.deep_view() =~= listing_of(catalog@, progress@));
    } else {
        let exercises = catalog.exercises();
        let n = exercises.len();
        let mut rows: Vec<Row> = Vec::new();
        let mut i: usize = 0;
        while i < n
            invariant
                n == exercises.len(),
                i <= n,
                catalog@.wf(),
                exercises.deep_view() == catalog@.exercises,
                rows.len() == i,
                forall|a: int|
                    0 <= a < i ==> (#[trigger] rows[a])@ == rows_of(
                        catalog@,
                        progress@,
                        catalog@.ids(),
                    )[a],
            decreases n - i,
        {
            assert(exercises.deep_view()[i as int] == exercises[i as int]@);
            proof {
                assert forall|j: int| 0 <= j < i implies catalog@.exercises[j].id
                    != catalog@.exercises[i as int].id by {
                    assert(catalog@.ids()[j] != catalog@.ids()[i as int]);
                }
                lemma_position_is_unique(catalog@, catalog@.ids()[i as int], i as int);
            }
            rows.push(Row { exercise: i, completed: progress.is_completed(exercises[i].id.as_str()) });
            i += 1;
        }
        assert(rows.deep_view() =~= rows_of(catalog@, progress@, catalog@.ids()));
        sections.push(Section { title: None, rows });
        assert(sections.deep_view() =~= listing_of(catalog@, progress@));
    }
    sections
}

/// What a learner is shown who asks for the hint of an exercise.
#[derive(Debug)]
pub struct Hint {
    /// The name of the exercise.
    pub name: String,
    /// The help text of the exercise.
    pub text: String,
    /// How often the learner has tried the exercise.
    pub attempts: u32,
}

/// The hint of the exercise `id`, with the number of attempts made at it.
pub fn hint_for(catalog: &Catalog, progress: &ProgressRecord, id: &str) -> (r: Result<Hint, Error>)
    ensures
        match r {
            Ok(hint) => exists|i: int|
                {
                    &&& #[trigger] catalog@.is_position_of(id@, i)
                    &&& hint.name@ == catalog@.exercises[i].name
                    &&& hint.text@ == catalog@.exercises[i].hint
                    &&& hint.attempts == progress@.attempts_of(id@)
                },
            Err(e) => e == Error::ExerciseNotFound && !catalog@.identifiers().contains(id@),
        },
{
    match catalog.find(id) {
        Ok(exercise) => Ok(
            Hint {
                name: exercise.name.clone(),
                text: exercise.hint.clone(),
                attempts: progress.attempts(id),
            },
        ),
        Err(e) => Err(e),
    }
}

/// The exercise that was worked on last, as the summary shows it.
#[derive(Clone, Copy, Debug, PartialEq, Eq, Structural)]
pub struct LastWorked {
    /// The place of the exercise in the catalog's order.
    pub exercise: usize,
    /// Whether the learner is told to continue with it: it is not completed.
    pub resume: bool,
}

/// Whether `shown` is what the summary shows of the exercise worked on
/// last: its place in the catalog and whether it is not completed yet, or
/// nothing where no exercise was worked on or the catalog does not know it.
pub open spec fn shows_last_worked(
    catalog: CatalogView,
    progress: ProgressView,
    shown: Option<LastWorked>,
) -> bool {
    match shown {
        Some(last) => {
            &&& progress.last_worked_on matches Some(id)
            &&& catalog.is_position_of(id, last.exercise as int)
            &&& last.resume == !progress.completed.contains(id)
        },
        None => progress.last_worked_on matches Some(id) ==> !catalog.identifiers().contains(id),
    }
}

/// The exercise that was worked on last, if there is one and the catalog
/// knows it.
pub fn last_worked(catalog: &Catalog, progress: &ProgressRecord) -> (r: Option<LastWorked>)
    ensures
        shows_last_worked(catalog@, progress@, r),
{
    match progress.last_worked_on() {
        Some(id) => {
            match catalog.position(id.as_str()) {
                Some(i) => Some(
                    LastWorked { exercise: i, resume: !progress.is_completed(id.as_str()) },
                ),
                None => None,
            }
        },
        None => None,
    }
}

/// How many cells the progress bar of the summary has.
pub const BAR_WIDTH: usize = 50;

/// How many exercises the summary lists as most attempted.
pub const MOST_ATTEMPTED_SHOWN: usize = 3;

/// What a learner is shown who asks for their progress.
#[derive(Debug)]
pub struct Summary {
    /// How many exercises are completed.
    pub completed: usize,
    /// How many exercises the catalog holds.
    pub total: usize,
    /// The completion as a percentage.
    pub percentage: u128,
    /// How many of the [`BAR_WIDTH`] cells of the progress bar are filled.
    pub bar_filled: usize,
    /// How each category stands.
    pub categories: Vec<CategoryProgress>,
    /// The [`MOST_ATTEMPTED_SHOWN`] most attempted exercises.
    pub most_attempted: Vec<Attempted>,
    /// The exercise worked on last.
    pub last_worked: Option<LastWorked>,
}

/// The summary of a learner's progress.
pub fn summary(catalog: &Catalog, progress: &ProgressRecord) -> (r: Summary)
    ensures
        r.completed == progress@.completed.len(),
        r.total == catalog@.exercises.len(),
        r.percentage == completion(catalog@, progress@),
        r.bar_filled == filled_cells(BAR_WIDTH as nat, r.completed as nat, r.total as nat),
        r.categories.deep_view() == breakdown(catalog@, progress@),
        is_most_attempted(
            catalog@,
            progress@,
            MOST_ATTEMPTED_SHOWN as nat,
            r.most_attempted.deep_view(),
        ),
        shows_last_worked(catalog@, progress@, r.last_worked),
{
    let completed = progress.completed_count();
    let total = catalog.len();
    Summary {
        completed,
        total,
        percentage: percentage_of(completed, total),
        bar_filled: progress_bar(BAR_WIDTH, completed, total),
        categories: category_breakdown(catalog, progress),
        most_attempted: most_attempted(catalog, progress, MOST_ATTEMPTED_SHOWN),
        last_worked: last_worked(catalog, progress),
    }
}

} // verus!
