//! The catalog: every exercise in its declared order, and the named
//! categories that group them for reports.

use vstd::prelude::*;

use crate::error::Error;
use crate::exercise::{Exercise, ExerciseView};
use crate::text::{has_repeat, holds};

verus! {

/// A named group of exercise identifiers.
#[derive(Debug)]
pub struct Category {
    /// The name of the group.
    pub name: String,
    /// The identifiers in the group, in their declared order.
    pub members: Vec<String>,
}

/// The mathematical value of a [`Category`].
pub struct CategoryView {
    pub name: Seq<char>,
    pub members: Seq<Seq<char>>,
}

impl View for Category {
    type V = CategoryView;

    open spec fn view(&self) -> CategoryView {
        CategoryView { name: self.name@, members: self.members.deep_view() }
    }
}

impl DeepView for Category {
    type V = CategoryView;

    open spec fn deep_view(&self) -> CategoryView {
        self@
    }
}

impl Clone for Category {
    fn clone(&self) -> (r: Self)
        ensures
            r@ == self@,
    {
        let r = Category { name: self.name.clone(), members: self.members.clone() };
        assert(r.members.deep_view() =~= self.members.deep_view());
        r
    }
}

/// The members of a category that a catalog keeps: each identifier the
/// catalog knows, once, at the place of its first mention.
pub open spec fn admitted(members: Seq<Seq<char>>, known: Set<Seq<char>>) -> Seq<Seq<char>>
    decreases members.len(),
{
    if members.len() == 0 {
        Seq::empty()
    } else {
        let before = admitted(members.drop_last(), known);
        let id = members.last();
        if known.contains(id) && !before.contains(id) {
            before.push(id)
        } else {
            before
        }
    }
}

/// A category as a catalog over the identifiers `known` keeps it.
pub open spec fn admitted_category(category: CategoryView, known: Set<Seq<char>>) -> CategoryView {
    CategoryView { name: category.name, members: admitted(category.members, known) }
}

/// What [`admitted`] keeps: only known identifiers, none twice, and every
/// known identifier that was mentioned.
pub proof fn lemma_admitted(members: Seq<Seq<char>>, known: Set<Seq<char>>)
    ensures
        admitted(members, known).no_duplicates(),
        admitted(members, known).len() <= members.len(),
        forall|id: Seq<char>| #[trigger]
            admitted(members, known).contains(id) <==> (members.contains(id) && known.contains(
                id,
            )),
    decreases members.len(),
{
    if members.len() > 0 {
        let rest = members.drop_last();
        let before = admitted(rest, known);
        let last = members.last();
        lemma_admitted(rest, known);
        let kept = admitted(members, known);
        assert forall|id: Seq<char>| #[trigger]
            kept.contains(id) <==> (members.contains(id) && known.contains(id)) by {
            if kept.contains(id) {
                let i = choose|i: int| 0 <= i < kept.len() && kept[i] == id;
                if i < before.len() {
                    assert(before[i] == id);
                    assert(before.contains(id));
                    let j = choose|j: int| 0 <= j < rest.len() && rest[j] == id;
                    assert(members[j] == id);
                } else {
                    assert(id == last);
                    assert(members[members.len() - 1] == id);
                }
            }
            if members.contains(id) && known.contains(id) {
                let j = choose|j: int| 0 <= j < members.len() && members[j] == id;
                if j < rest.len() {
                    assert(rest[j] == id);
                    assert(before.contains(id));
                    let i = choose|i: int| 0 <= i < before.len() && before[i] == id;
                    assert(kept[i] == id);
                } else {
                    if before.contains(id) {
                        let i = choose|i: int| 0 <= i < before.len() && before[i] == id;
                        assert(kept[i] == id);
                    } else {
                        assert(kept[kept.len() - 1] == id);
                    }
                }
            }
        }
    }
}

/// The identifiers of `exercises`, in order.
pub open spec fn ids_of(exercises: Seq<ExerciseView>) -> Seq<Seq<char>> {
    Seq::new(exercises.len(), |i: int| exercises[i].id)
}

/// The names of `categories`, in order.
pub open spec fn names_of(categories: Seq<CategoryView>) -> Seq<Seq<char>> {
    Seq::new(categories.len(), |k: int| categories[k].name)
}

/// The mathematical value of a [`Catalog`].
pub struct CatalogView {
    /// The exercises, in their declared order.
    pub exercises: Seq<ExerciseView>,
    /// The categories, in their declared order.
    pub categories: Seq<CategoryView>,
}

impl CatalogView {
    /// The identifiers of the exercises, in their declared order.
    pub open spec fn ids(self) -> Seq<Seq<char>> {
        ids_of(self.exercises)
    }

    /// The names of the categories, in their declared order.
    pub open spec fn category_names(self) -> Seq<Seq<char>> {
        names_of(self.categories)
    }

    /// The identifiers that the catalog knows.
    pub open spec fn identifiers(self) -> Set<Seq<char>> {
        self.ids().to_set()
    }

    /// Whether `i` is the place of the exercise identified by `id`: the
    /// first, and in a catalog the only, place that carries `id`.
    pub open spec fn is_position_of(self, id: Seq<char>, i: int) -> bool {
        &&& 0 <= i < self.exercises.len()
        &&& self.exercises[i].id == id
        &&& forall|j: int| 0 <= j < i ==> self.exercises[j].id != id
    }

    /// The place of the exercise identified by `id`; meaningful only where
    /// the catalog knows `id`.
    pub open spec fn position(self, id: Seq<char>) -> int {
        choose|i: int| self.is_position_of(id, i)
    }

    /// Whether `i` is the first place at which an exercise lives at `path`.
    pub open spec fn is_first_at_path(self, path: Seq<char>, i: int) -> bool {
        &&& 0 <= i < self.exercises.len()
        &&& self.exercises[i].path == path
        &&& forall|j: int| 0 <= j < i ==> self.exercises[j].path != path
    }

    /// Whether an exercise lives at `path`.
    pub open spec fn has_path(self, path: Seq<char>) -> bool {
        exists|i: int| 0 <= i < self.exercises.len() && self.exercises[i].path == path
    }

    /// The exercise that lives at `path`: the first of the catalog that
    /// does, if there is one.
    pub open spec fn at_path(self, path: Seq<char>) -> Option<ExerciseView> {
        if self.has_path(path) {
            Some(self.exercises[choose|i: int| self.is_first_at_path(path, i)])
        } else {
            None
        }
    }

    /// What every catalog satisfies: no identifier and no category name is
    /// used twice, and a category mentions only identifiers of the catalog,
    /// each at most once.
    pub open spec fn wf(self) -> bool {
        &&& self.ids().no_duplicates()
        &&& self.category_names().no_duplicates()
        &&& forall|k: int|
            0 <= k < self.categories.len() ==> (#[trigger] self.categories[k]).members.no_duplicates()
        &&& forall|k: int, m: int|
            0 <= k < self.categories.len() && 0 <= m < self.categories[k].members.len()
                ==> self.identifiers().contains(#[trigger] self.categories[k].members[m])
    }
}

/// An identifier has at most one place, which [`CatalogView::position`]
/// gives.
pub proof fn lemma_position_is_unique(catalog: CatalogView, id: Seq<char>, i: int)
    requires
        catalog.is_position_of(id, i),
    ensures
        catalog.position(id) == i,
        catalog.identifiers().contains(id),
{
    let j = catalog.position(id);
    assert(catalog.is_position_of(id, j));
    if j < i {
        assert(catalog.exercises[j].id != id);
    } else if i < j {
        assert(catalog.exercises[i].id != id);
    }
    assert(catalog.ids()[i] == id);
}

/// Every identifier that the catalog knows has a place.
pub proof fn lemma_known_has_position(catalog: CatalogView, id: Seq<char>)
    requires
        catalog.identifiers().contains(id),
    ensures
        catalog.is_position_of(id, catalog.position(id)),
{
    catalog.ids().index_of_first_ensures(id);
    let first = catalog.ids().index_of_first(id);
    assert(first is Some);
    let i = first->0;
    assert(catalog.ids()[i] == id);
    assert forall|j: int| 0 <= j < i implies catalog.exercises[j].id != id by {
        assert(catalog.ids()[j] != id);
    }
    assert(catalog.is_position_of(id, i));
}

/// Every exercise in its declared order, with the categories that group them.
#[derive(Debug)]
pub struct Catalog {
    exercises: Vec<Exercise>,
    categories: Vec<Category>,
}

impl View for Catalog {
    type V = CatalogView;

    closed spec fn view(&self) -> CatalogView {
        CatalogView {
            exercises: self.exercises.deep_view(),
            categories: self.categories.deep_view(),
        }
    }
}

/// Whether exercises and categories as declared make a catalog: no
/// identifier and no category name is declared twice.
pub open spec fn declares_catalog(
    exercises: Seq<ExerciseView>,
    categories: Seq<CategoryView>,
) -> bool {
    ids_of(exercises).no_duplicates() && names_of(categories).no_duplicates()
}

/// The catalog that exercises and categories as declared make.
pub open spec fn declared_catalog(
    exercises: Seq<ExerciseView>,
    categories: Seq<CategoryView>,
) -> CatalogView {
    CatalogView {
        exercises,
        categories: Seq::new(
            categories.len(),
            |k: int| admitted_category(categories[k], ids_of(exercises).to_set()),
        ),
    }
}

/// A declared catalog satisfies what every catalog satisfies.
pub proof fn lemma_declared_catalog_wf(
    exercises: Seq<ExerciseView>,
    categories: Seq<CategoryView>,
)
    requires
        declares_catalog(exercises, categories),
    ensures
        declared_catalog(exercises, categories).wf(),
{
    let c = declared_catalog(exercises, categories);
    let known = ids_of(exercises).to_set();
    assert(c.category_names() =~= names_of(categories));
    assert forall|k: int| 0 <= k < c.categories.len() implies (#[trigger] c.categories[k]).members.no_duplicates() by {
        lemma_admitted(categories[k].members, known);
    }
    assert forall|k: int, m: int|
        0 <= k < c.categories.len() && 0 <= m < c.categories[k].members.len()
        implies c.identifiers().contains(#[trigger] c.categories[k].members[m]) by {
        lemma_admitted(categories[k].members, known);
        let kept = admitted(categories[k].members, known);
        assert(kept.contains(kept[m]));
    }
}

/// The members of a category that a catalog over `known` keeps.
fn retain_members(members: &Vec<String>, known: &Vec<String>) -> (kept: Vec<String>)
    ensures
        kept.deep_view() == admitted(members.deep_view(), known.deep_view().to_set()),
{
    let ghost all = members.deep_view();
    let ghost ids = known.deep_view().to_set();
    let mut kept: Vec<String> = Vec::new();
    let n = members.len();
    let mut i: usize = 0;
    assert(all.take(0) =~= Seq::empty());
    assert(kept.deep_view() =~= Seq::empty());
    while i < n
        invariant
            n == members.len(),
            i <= n,
            all == members.deep_view(),
            ids == known.deep_view().to_set(),
            kept.deep_view() == admitted(all.take(i as int), ids),
        decreases n - i,
    {
        let ghost before = kept.deep_view();
        let is_known = holds(known, &members[i]);
        let is_kept = holds(&kept, &members[i]);
        if is_known && !is_kept {
            kept.push(members[i].clone());
            assert(kept.deep_view() =~= before.push(all[i as int]));
        }
        proof {
            let next = all.take(i as int + 1);
            assert(next.drop_last() =~= all.take(i as int));
            assert(next.last() == all[i as int]);
        }
        i += 1;
    }
    assert(all.take(n as int) =~= all);
    kept
}

impl Catalog {
    /// What holds of every catalog.
    #[verifier::type_invariant]
    pub open spec fn inv(&self) -> bool {
        self@.wf()
    }

    /// Makes a catalog of exercises and categories as a manifest declares
    /// them.
    ///
    /// A manifest that declares an identifier or a category name twice does
    /// not describe a catalog. A category keeps of its members those that
    /// name an exercise, each once.
    pub fn new(exercises: Vec<Exercise>, categories: Vec<Category>) -> (r: Result<Catalog, Error>)
        ensures
            match r {
                Ok(catalog) => {
                    &&& declares_catalog(exercises.deep_view(), categories.deep_view())
                    &&& catalog@ == declared_catalog(exercises.deep_view(), categories.deep_view())
                },
                Err(e) => {
                    &&& e == Error::CatalogUnreadable
                    &&& !declares_catalog(exercises.deep_view(), categories.deep_view())
                },
            },
    {
        let ghost declared_exercises = exercises.deep_view();
        let ghost declared_categories = categories.deep_view();
        let mut ids: Vec<String> = Vec::new();
        let mut i: usize = 0;
        while i < exercises.len()
            invariant
                i <= exercises.len(),
                ids.len() == i,
                forall|a: int| 0 <= a < i ==> ids[a]@ == exercises[a].id@,
            decreases exercises.len() - i,
        {
            ids.push(exercises[i].id.clone());
            i += 1;
        }
        assert(ids.deep_view() =~= ids_of(declared_exercises));
        let mut names: Vec<String> = Vec::new();
        let mut k: usize = 0;
        while k < categories.len()
            invariant
                k <= categories.len(),
                names.len() == k,
                forall|a: int| 0 <= a < k ==> names[a]@ == categories[a].name@,
            decreases categories.len() - k,
        {
            names.push(categories[k].name.clone());
            k += 1;
        }
        assert(names.deep_view() =~= names_of(declared_categories));
        if has_repeat(&ids) || has_repeat(&names) {
            return Err(Error::CatalogUnreadable);
        }
        let mut kept: Vec<Category> = Vec::new();
        let mut k: usize = 0;
        while k < categories.len()
            invariant
                k <= categories.len(),
                kept.len() == k,
                declared_categories == categories.deep_view(),
                ids.deep_view() == ids_of(declared_exercises),
                forall|a: int|
                    0 <= a < k ==> (#[trigger] kept[a])@ == admitted_category(
                        declared_categories[a],
                        ids_of(declared_exercises).to_set(),
                    ),
            decreases categories.len() - k,
        {
            let members = retain_members(&categories[k].members, &ids);
            kept.push(Category { name: categories[k].name.clone(), members });
            k += 1;
        }
        proof {
            lemma_declared_catalog_wf(declared_exercises, declared_categories);
            assert(kept.deep_view() =~= declared_catalog(
                declared_exercises,
                declared_categories,
            ).categories);
        }
        Ok(Catalog { exercises, categories: kept })
    }

    /// How many exercises the catalog holds.
    pub fn len(&self) -> (n: usize)
        ensures
            n == self@.exercises.len(),
    {
        self.exercises.len()
    }

    /// The exercises, in their declared order.
    pub fn exercises(&self) -> (r: &Vec<Exercise>)
        ensures
            r.deep_view() == self@.exercises,
    {
        &self.exercises
    }

    /// The categories, in their declared order.
    pub fn categories(&self) -> (r: &Vec<Category>)
        ensures
            r.deep_view() == self@.categories,
    {
        &self.categories
    }

    /// The exercise at place `i` of the declared order, if there is one.
    pub fn get(&self, i: usize) -> (r: Option<&Exercise>)
        ensures
            match r {
                Some(e) => i < self@.exercises.len() && e@ == self@.exercises[i as int],
                None => i >= self@.exercises.len(),
            },
    {
        if i < self.exercises.len() {
            Some(&self.exercises[i])
        } else {
            None
        }
    }

    /// The place of the exercise identified by `id` in the declared order.
    pub fn position(&self, id: &str) -> (r: Option<usize>)
        ensures
            match r {
                Some(i) => self@.is_position_of(id@, i as int),
                None => !self@.identifiers().contains(id@),
            },
    {
        let wanted = id.to_owned();
        let n = self.exercises.len();
        let mut i: usize = 0;
        while i < n
            invariant
                n == self.exercises.len(),
                i <= n,
                wanted@ == id@,
                forall|a: int| 0 <= a < i ==> self.exercises[a].id@ != id@,
            decreases n - i,
        {
            if self.exercises[i].id == wanted {
                return Some(i);
            }
            i += 1;
        }
        proof {
            let ids = self@.ids();
            assert forall|a: int| 0 <= a < ids.len() implies ids[a] != id@ by {
                assert(self.exercises[a].id@ != id@);
            }
        }
        None
    }

    /// The descriptor identified by `id`.
    pub fn find(&self, id: &str) -> (r: Result<&Exercise, Error>)
        ensures
            match r {
                Ok(e) => exists|i: int| self@.is_position_of(id@, i) && e@ == self@.exercises[i],
                Err(e) => e == Error::ExerciseNotFound && !self@.identifiers().contains(id@),
            },
    {
        match self.position(id) {
            Some(i) => Ok(&self.exercises[i]),
            None => Err(Error::ExerciseNotFound),
        }
    }

    /// The exercise that lives at `path`: the first of the catalog that
    /// does, if there is one.
    pub fn find_by_path(&self, path: &str) -> (r: Option<&Exercise>)
        ensures
            match r {
                Some(e) => self@.at_path(path@) == Some(e@),
                None => self@.at_path(path@).is_none(),
            },
    {
        let wanted = path.to_owned();
        let n = self.exercises.len();
        let mut i: usize = 0;
        while i < n
            invariant
                n == self.exercises.len(),
                i <= n,
                wanted@ == path@,
                forall|a: int| 0 <= a < i ==> self.exercises[a].path@ != path@,
            decreases n - i,
        {
            if self.exercises[i].path == wanted {
                proof {
                    assert(self@.is_first_at_path(path@, i as int));
                    let j = choose|j: int| self@.is_first_at_path(path@, j);
                    if j < i {
                        assert(self@.exercises[j].path != path@);
                    } else if i < j {
                        assert(self@.exercises[i as int].path != path@);
                    }
                }
                return Some(&self.exercises[i]);
            }
            i += 1;
        }
        None
    }
}

} // verus!
