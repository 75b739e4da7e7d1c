//! What a learner has done so far: the exercises completed, how often each
//! was tried, and the one worked on last.

use vstd::prelude::*;

use crate::text::{holds, lemma_push_fresh};

verus! {

/// How often one exercise was tried.
#[derive(Debug)]
pub struct Attempts {
    /// The identifier of the exercise.
    pub id: String,
    /// How many verifications of it were made.
    pub count: u32,
}

impl View for Attempts {
    type V = (Seq<char>, nat);

    open spec fn view(&self) -> (Seq<char>, nat) {
        (self.id@, self.count as nat)
    }
}

impl DeepView for Attempts {
    type V = (Seq<char>, nat);

    open spec fn deep_view(&self) -> (Seq<char>, nat) {
        self@
    }
}

impl Clone for Attempts {
    fn clone(&self) -> (r: Self)
        ensures
            r == *self,
    {
        Attempts { id: self.id.clone(), count: self.count }
    }
}

/// The counters that a list of entries stands for. Where an identifier is
/// listed more than once, its last entry counts.
pub open spec fn tally(entries: Seq<(Seq<char>, nat)>) -> Map<Seq<char>, nat>
    decreases entries.len(),
{
    if entries.len() == 0 {
        Map::empty()
    } else {
        tally(entries.drop_last()).insert(entries.last().0, entries.last().1)
    }
}

/// The identifiers that a list of entries names, in order.
pub open spec fn entry_ids(entries: Seq<(Seq<char>, nat)>) -> Seq<Seq<char>> {
    Seq::new(entries.len(), |i: int| entries[i].0)
}

/// The counter after one more attempt. A counter that has reached the
/// largest value it can hold stays there.
pub open spec fn one_more(count: nat) -> nat {
    if count < u32::MAX {
        count + 1
    } else {
        count
    }
}

/// The mathematical value of a [`ProgressRecord`].
pub struct ProgressView {
    /// The identifiers of the completed exercises.
    pub completed: Set<Seq<char>>,
    /// How often each exercise was tried; an exercise never tried may be
    /// absent.
    pub attempts: Map<Seq<char>, nat>,
    /// The exercise verified most recently.
    pub last_worked_on: Option<Seq<char>>,
}

impl ProgressView {
    /// The record of a learner who has done nothing yet.
    pub open spec fn empty() -> ProgressView {
        ProgressView { completed: Set::empty(), attempts: Map::empty(), last_worked_on: None }
    }

    /// How often the exercise `id` was tried.
    pub open spec fn attempts_of(self, id: Seq<char>) -> nat {
        if self.attempts.dom().contains(id) {
            self.attempts[id]
        } else {
            0
        }
    }

    /// The record after one more attempt at the exercise `id`.
    pub open spec fn with_attempt(self, id: Seq<char>) -> ProgressView {
        ProgressView {
            completed: self.completed,
            attempts: self.attempts.insert(id, one_more(self.attempts_of(id))),
            last_worked_on: Some(id),
        }
    }

    /// The record after the exercise `id` was completed.
    pub open spec fn with_completion(self, id: Seq<char>) -> ProgressView {
        ProgressView {
            completed: self.completed.insert(id),
            attempts: self.attempts,
            last_worked_on: Some(id),
        }
    }

    /// What every record satisfies: it speaks of finitely many exercises.
    pub open spec fn wf(self) -> bool {
        self.completed.finite() && self.attempts.dom().finite()
    }
}

/// The identifiers that [`tally`] counts are those that the entries name.
pub proof fn lemma_tally_dom(entries: Seq<(Seq<char>, nat)>)
    ensures
        tally(entries).dom() == entry_ids(entries).to_set(),
        tally(entries).dom().finite(),
    decreases entries.len(),
{
    broadcast use vstd::seq_lib::seq_to_set_is_finite;

    let ids = entry_ids(entries);
    if entries.len() == 0 {
        assert(tally(entries).dom() =~= ids.to_set());
    } else {
        let rest = entries.drop_last();
        lemma_tally_dom(rest);
        let rest_ids = entry_ids(rest);
        assert forall|id: Seq<char>| tally(entries).dom().contains(id) <==> ids.to_set().contains(
            id,
        ) by {
            if ids.contains(id) {
                let i = choose|i: int| 0 <= i < ids.len() && ids[i] == id;
                if i < rest.len() {
                    assert(rest_ids[i] == id);
                    assert(rest_ids.contains(id));
                }
            }
            if rest_ids.contains(id) {
                let i = choose|i: int| 0 <= i < rest_ids.len() && rest_ids[i] == id;
                assert(ids[i] == id);
            }
            if id == entries.last().0 {
                assert(ids[ids.len() - 1] == id);
            }
        }
        assert(tally(entries).dom() =~= ids.to_set());
    }
}

/// Where no identifier is listed twice, each entry's counter is the one
/// that [`tally`] gives its identifier.
pub proof fn lemma_tally_entry(entries: Seq<(Seq<char>, nat)>, i: int)
    requires
        entry_ids(entries).no_duplicates(),
        0 <= i < entries.len(),
    ensures
        tally(entries).dom().contains(entries[i].0),
        tally(entries)[entries[i].0] == entries[i].1,
    decreases entries.len(),
{
    let ids = entry_ids(entries);
    let rest = entries.drop_last();
    if i < entries.len() - 1 {
        assert forall|a: int, b: int|
            0 <= a < rest.len() && 0 <= b < rest.len() && a != b implies entry_ids(rest)[a]
            != entry_ids(rest)[b] by {
            assert(ids[a] != ids[b]);
        }
        lemma_tally_entry(rest, i);
        assert(ids[i] != ids[entries.len() - 1]);
    }
}

/// Where no identifier is listed twice, replacing the counter of one entry
/// replaces the counter that [`tally`] gives its identifier.
pub proof fn lemma_tally_update(entries: Seq<(Seq<char>, nat)>, i: int, count: nat)
    requires
        entry_ids(entries).no_duplicates(),
        0 <= i < entries.len(),
    ensures
        tally(entries.update(i, (entries[i].0, count))) == tally(entries).insert(
            entries[i].0,
            count,
        ),
        entry_ids(entries.update(i, (entries[i].0, count))) == entry_ids(entries),
    decreases entries.len(),
{
    let ids = entry_ids(entries);
    let id = entries[i].0;
    let changed = entries.update(i, (id, count));
    let rest = entries.drop_last();
    assert(entry_ids(changed) =~= ids);
    if i == entries.len() - 1 {
        assert(changed.drop_last() =~= rest);
        assert(tally(changed) =~= tally(entries).insert(id, count));
    } else {
        assert forall|a: int, b: int|
            0 <= a < rest.len() && 0 <= b < rest.len() && a != b implies entry_ids(rest)[a]
            != entry_ids(rest)[b] by {
            assert(ids[a] != ids[b]);
        }
        lemma_tally_update(rest, i, count);
        assert(changed.drop_last() =~= rest.update(i, (id, count)));
        assert(changed.last() == entries.last());
        assert(ids[i] != ids[entries.len() - 1]);
        assert(tally(changed) =~= tally(entries).insert(id, count));
    }
}

/// A learner's progress: the exercises completed, how often each was tried,
/// and the one worked on last.
#[derive(Debug)]
pub struct ProgressRecord {
    completed: Vec<String>,
    attempts: Vec<Attempts>,
    last_worked_on: Option<String>,
}

impl View for ProgressRecord {
    type V = ProgressView;

    closed spec fn view(&self) -> ProgressView {
        ProgressView {
            completed: self.completed.deep_view().to_set(),
            attempts: tally(self.attempts.deep_view()),
            last_worked_on: match self.last_worked_on {
                Some(id) => Some(id@),
                None => None,
            },
        }
    }
}

/// The place of the entry for `id` among `entries`, if it has one.
fn entry_position(entries: &Vec<Attempts>, id: &String) -> (r: Option<usize>)
    ensures
        match r {
            Some(i) => i < entries.len() && entries[i as int].id@ == id@,
            None => !entry_ids(entries.deep_view()).contains(id@),
        },
{
    let n = entries.len();
    let mut i: usize = 0;
    while i < n
        invariant
            n == entries.len(),
            i <= n,
            forall|a: int| 0 <= a < i ==> entries[a].id@ != id@,
        decreases n - i,
    {
        if entries[i].id == *id {
            return Some(i);
        }
        i += 1;
    }
    proof {
        let ids = entry_ids(entries.deep_view());
        assert forall|a: int| 0 <= a < ids.len() implies ids[a] != id@ by {
            assert(entries[a].id@ != id@);
        }
    }
    None
}

impl ProgressRecord {
    /// What holds of every record: no exercise is listed twice, among the
    /// completed ones or among the counters.
    #[verifier::type_invariant]
    pub closed spec fn inv(&self) -> bool {
        &&& self.completed.deep_view().no_duplicates()
        &&& entry_ids(self.attempts.deep_view()).no_duplicates()
    }

    /// The record of a learner who has done nothing yet.
    pub fn new() -> (r: ProgressRecord)
        ensures
            r@ == ProgressView::empty(),
    {
        let r = ProgressRecord {
            completed: Vec::new(),
            attempts: Vec::new(),
            last_worked_on: None,
        };
        assert(r.completed.deep_view() =~= Seq::empty());
        assert(r.attempts.deep_view() =~= Seq::empty());
        assert(r@.completed =~= Set::empty());
        r
    }

    /// Whether the exercise `id` was completed.
    pub fn is_completed(&self, id: &str) -> (r: bool)
        ensures
            r == self@.completed.contains(id@),
    {
        let wanted = id.to_owned();
        holds(&self.completed, &wanted)
    }

    /// How often the exercise `id` was tried.
    pub fn attempts(&self, id: &str) -> (r: u32)
        ensures
            r == self@.attempts_of(id@),
    {
        proof {
            use_type_invariant(self);
            lemma_tally_dom(self.attempts.deep_view());
        }
        let wanted = id.to_owned();
        match entry_position(&self.attempts, &wanted) {
            Some(i) => {
                proof {
                    lemma_tally_entry(self.attempts.deep_view(), i as int);
                }
                self.attempts[i].count
            },
            None => 0,
        }
    }

    /// The exercise verified most recently.
    pub fn last_worked_on(&self) -> (r: Option<&String>)
        ensures
            match r {
                Some(id) => self@.last_worked_on == Some(id@),
                None => self@.last_worked_on.is_none(),
            },
    {
        match &self.last_worked_on {
            Some(id) => Some(id),
            None => None,
        }
    }

    /// How many exercises were completed.
    pub fn completed_count(&self) -> (n: usize)
        ensures
            n == self@.completed.len(),
    {
        proof {
            use_type_invariant(self);
            self.completed.deep_view().unique_seq_to_set();
        }
        self.completed.len()
    }

    /// The identifiers of the completed exercises, each once.
    pub fn completed_ids(&self) -> (r: &Vec<String>)
        ensures
            r.deep_view().no_duplicates(),
            r.deep_view().to_set() == self@.completed,
    {
        proof {
            use_type_invariant(self);
        }
        &self.completed
    }

    /// The counters, one entry for each exercise that has one.
    pub fn attempt_entries(&self) -> (r: &Vec<Attempts>)
        ensures
            entry_ids(r.deep_view()).no_duplicates(),
            tally(r.deep_view()) == self@.attempts,
    {
        proof {
            use_type_invariant(self);
        }
        &self.attempts
    }

    /// The record that a stored document describes: `completed` read as a
    /// set, `attempts` as a map in which a later entry replaces an earlier
    /// one for the same exercise.
    pub fn from_parts(
        completed: Vec<String>,
        attempts: Vec<Attempts>,
        last_worked_on: Option<String>,
    ) -> (r: ProgressRecord)
        ensures
            r@.completed == completed.deep_view().to_set(),
            r@.attempts == tally(attempts.deep_view()),
            r@.last_worked_on == match last_worked_on {
                Some(id) => Some(id@),
                None => None,
            },
    {
        let ghost given = completed.deep_view();
        let mut done: Vec<String> = Vec::new();
        let mut i: usize = 0;
        assert(done.deep_view() =~= Seq::empty());
        assert(given.take(0).to_set() =~= done.deep_view().to_set());
        while i < completed.len()
            invariant
                i <= completed.len(),
                given == completed.deep_view(),
                done.deep_view().no_duplicates(),
                done.deep_view().to_set() == given.take(i as int).to_set(),
            decreases completed.len() - i,
        {
            let ghost before = done.deep_view();
            proof {
                assert(given.take(i as int + 1) =~= given.take(i as int).push(given[i as int]));
                given.take(i as int).lemma_push_to_set_commute(given[i as int]);
            }
            if !holds(&done, &completed[i]) {
                done.push(completed[i].clone());
                proof {
                    assert(done.deep_view() =~= before.push(given[i as int]));
                    lemma_push_fresh(before, given[i as int]);
                    before.lemma_push_to_set_commute(given[i as int]);
                }
            } else {
                assert(before.to_set().insert(given[i as int]) =~= before.to_set());
            }
            i += 1;
        }
        assert(given.take(completed.len() as int) =~= given);
        let ghost listed = attempts.deep_view();
        let mut entries: Vec<Attempts> = Vec::new();
        let mut k: usize = 0;
        assert(entries.deep_view() =~= Seq::empty());
        assert(listed.take(0) =~= Seq::empty());
        while k < attempts.len()
            invariant
                k <= attempts.len(),
                listed == attempts.deep_view(),
                entry_ids(entries.deep_view()).no_duplicates(),
                tally(entries.deep_view()) == tally(listed.take(k as int)),
            decreases attempts.len() - k,
        {
            let ghost before = entries.deep_view();
            let ghost id = listed[k as int].0;
            let count = attempts[k].count;
            proof {
                assert(listed.take(k as int + 1).drop_last() =~= listed.take(k as int));
                assert(listed.take(k as int + 1).last() == listed[k as int]);
            }
            match entry_position(&entries, &attempts[k].id) {
                Some(at) => {
                    proof {
                        lemma_tally_update(before, at as int, count as nat);
                    }
                    entries.set(at, Attempts { id: attempts[k].id.clone(), count });
                    assert(entries.deep_view() =~= before.update(at as int, (id, count as nat)));
                },
                None => {
                    entries.push(Attempts { id: attempts[k].id.clone(), count });
                    proof {
                        let after = entries.deep_view();
                        assert(after =~= before.push((id, count as nat)));
                        assert(after.drop_last() =~= before);
                        assert(entry_ids(after) =~= entry_ids(before).push(id));
                        lemma_push_fresh(entry_ids(before), id);
                    }
                },
            }
            k += 1;
        }
        assert(listed.take(attempts.len() as int) =~= listed);
        ProgressRecord { completed: done, attempts: entries, last_worked_on }
    }

    /// Counts one more attempt at the exercise `id`, which becomes the one
    /// worked on last.
    pub fn record_attempt(&mut self, id: &str)
        ensures
            final(self)@ == old(self)@.with_attempt(id@),
    {
        proof {
            use_type_invariant(&*self);
            lemma_tally_dom(self.attempts.deep_view());
        }
        let wanted = id.to_owned();
        let ghost before = self.attempts.deep_view();
        let mut entries: Vec<Attempts> = Vec::new();
        assert(entries.deep_view() =~= Seq::empty());
        core::mem::swap(&mut self.attempts, &mut entries);
        match entry_position(&entries, &wanted) {
            Some(i) => {
                let count = entries[i].count;
                let next = if count < u32::MAX {
                    count + 1
                } else {
                    count
                };
                proof {
                    lemma_tally_entry(before, i as int);
                    lemma_tally_update(before, i as int, next as nat);
                }
                entries.set(i, Attempts { id: wanted.clone(), count: next });
                assert(entries.deep_view() =~= before.update(i as int, (id@, next as nat)));
            },
            None => {
                entries.push(Attempts { id: wanted.clone(), count: 1 });
                proof {
                    let after = entries.deep_view();
                    assert(after =~= before.push((id@, 1nat)));
                    assert(after.drop_last() =~= before);
                    assert(entry_ids(after) =~= entry_ids(before).push(id@));
                    lemma_push_fresh(entry_ids(before), id@);
                }
            },
        }
        self.attempts = entries;
        self.last_worked_on = Some(wanted);
    }

    /// Marks the exercise `id` as completed; it becomes the one worked on
    /// last.
    pub fn record_completion(&mut self, id: &str)
        ensures
            final(self)@ == old(self)@.with_completion(id@),
    {
        proof {
            use_type_invariant(&*self);
        }
        let wanted = id.to_owned();
        let ghost before = self.completed.deep_view();
        let mut done: Vec<String> = Vec::new();
        assert(done.deep_view() =~= Seq::empty());
        core::mem::swap(&mut self.completed, &mut done);
        if !holds(&done, &wanted) {
            done.push(wanted.clone());
            proof {
                assert(done.deep_view() =~= before.push(id@));
                lemma_push_fresh(before, id@);
                before.lemma_push_to_set_commute(id@);
            }
        } else {
            assert(before.to_set() =~= before.to_set().insert(id@));
        }
        self.completed = done;
        self.last_worked_on = Some(wanted);
    }
}

/// Every record speaks of finitely many exercises, and stays so whatever is
/// recorded.
pub proof fn lemma_record_is_finite(record: ProgressRecord, id: Seq<char>)
    ensures
        record@.wf(),
        record@.with_attempt(id).wf(),
        record@.with_completion(id).wf(),
        ProgressView::empty().wf(),
{
    broadcast use vstd::seq_lib::seq_to_set_is_finite;

    lemma_tally_dom(record.attempts.deep_view());
}

impl Clone for ProgressRecord {
    fn clone(&self) -> (r: Self)
        ensures
            r@ == self@,
    {
        proof {
            use_type_invariant(self);
        }
        let completed = self.completed.clone();
        let attempts = self.attempts.clone();
        let last_worked_on = match &self.last_worked_on {
            Some(id) => Some(id.clone()),
            None => None,
        };
        assert(completed.deep_view() =~= self.completed.deep_view());
        assert(attempts.deep_view() =~= self.attempts.deep_view());
        ProgressRecord { completed, attempts, last_worked_on }
    }
}

impl Default for ProgressRecord {
    fn default() -> (r: Self)
        ensures
            r@ == ProgressView::empty(),
    {
        ProgressRecord::new()
    }
}

/// The mathematical value of a [`ProgressStore`]: the stored document, if
/// there is one.
pub struct StoreView {
    pub document: Option<ProgressView>,
}

impl StoreView {
    /// What loading yields: the stored record, or the empty one where
    /// nothing is stored.
    pub open spec fn load(self) -> ProgressView {
        match self.document {
            Some(record) => record,
            None => ProgressView::empty(),
        }
    }

    /// The store after `record` was saved.
    pub open spec fn save(self, record: ProgressView) -> StoreView {
        StoreView { document: Some(record) }
    }

    /// The store after a reset.
    pub open spec fn reset(self) -> StoreView {
        StoreView { document: None }
    }

    /// The store after one more attempt at the exercise `id` was recorded.
    pub open spec fn record_attempt(self, id: Seq<char>) -> StoreView {
        self.save(self.load().with_attempt(id))
    }

    /// The store after the completion of the exercise `id` was recorded.
    pub open spec fn record_completion(self, id: Seq<char>) -> StoreView {
        self.save(self.load().with_completion(id))
    }

    /// The store after every identifier of `ids`, in order, had one more
    /// attempt recorded.
    pub open spec fn record_attempts(self, ids: Seq<Seq<char>>) -> StoreView
        decreases ids.len(),
    {
        if ids.len() == 0 {
            self
        } else {
            self.record_attempts(ids.drop_last()).record_attempt(ids.last())
        }
    }
}

/// How often `id` occurs in `ids`.
pub open spec fn occurrences(ids: Seq<Seq<char>>, id: Seq<char>) -> nat
    decreases ids.len(),
{
    if ids.len() == 0 {
        0
    } else {
        occurrences(ids.drop_last(), id) + if ids.last() == id {
            1nat
        } else {
            0nat
        }
    }
}

/// Saving what was just loaded changes nothing that a later load can see.
pub proof fn lemma_save_of_load_is_idle(store: StoreView)
    ensures
        store.save(store.load()).load() == store.load(),
{
}

/// What was saved is what the next load yields.
pub proof fn lemma_load_after_save(store: StoreView, record: ProgressView)
    ensures
        store.save(record).load() == record,
{
}

/// After a reset a load yields the empty record: nothing is completed, no
/// attempt is counted, and no exercise was worked on last.
pub proof fn lemma_reset_forgets(store: StoreView, id: Seq<char>)
    ensures
        store.reset().load() == ProgressView::empty(),
        !store.reset().load().completed.contains(id),
        store.reset().load().attempts_of(id) == 0,
{
}

/// Recording attempts counts them for each exercise by itself: starting
/// with a counter at `c`, after the attempts `ids` the counter of `id` is
/// `c` plus the number of times `id` occurs in `ids`, however the attempts
/// at other exercises are interleaved, as long as a counter can hold that
/// number.
pub proof fn lemma_attempts_are_counted(store: StoreView, ids: Seq<Seq<char>>, id: Seq<char>)
    requires
        store.load().attempts_of(id) + occurrences(ids, id) <= u32::MAX,
    ensures
        store.record_attempts(ids).load().attempts_of(id) == store.load().attempts_of(id)
            + occurrences(ids, id),
    decreases ids.len(),
{
    if ids.len() > 0 {
        lemma_attempts_are_counted(store, ids.drop_last(), id);
    }
}

/// On a store that holds nothing yet, `n` attempts at one exercise leave
/// its counter at `n`, whatever attempts at other exercises come between.
pub proof fn lemma_attempts_from_nothing(ids: Seq<Seq<char>>, id: Seq<char>)
    requires
        occurrences(ids, id) <= u32::MAX,
    ensures
        (StoreView { document: None }).record_attempts(ids).load().attempts_of(id) == occurrences(
            ids,
            id,
        ),
{
    lemma_attempts_are_counted(StoreView { document: None }, ids, id);
}

/// Recording attempts completes nothing, and recording a completion
/// changes no counter.
pub proof fn lemma_attempts_and_completions_apart(
    record: ProgressView,
    id: Seq<char>,
    other: Seq<char>,
)
    ensures
        record.with_attempt(id).completed == record.completed,
        record.with_completion(id).attempts_of(other) == record.attempts_of(other),
        record.with_completion(id).completed.contains(id),
        other != id ==> record.with_attempt(id).attempts_of(other) == record.attempts_of(other),
        other != id ==> record.with_completion(id).completed.contains(other)
            == record.completed.contains(other),
{
}

/// The one place where a learner's progress is kept between commands.
///
/// The store holds the document as it stands in persistent storage, or
/// nothing where no readable document is there.
#[derive(Debug)]
pub struct ProgressStore {
    document: Option<ProgressRecord>,
}

impl View for ProgressStore {
    type V = StoreView;

    closed spec fn view(&self) -> StoreView {
        StoreView {
            document: match self.document {
                Some(record) => Some(record@),
                None => None,
            },
        }
    }
}

impl ProgressStore {
    /// A store that holds nothing yet.
    pub fn new() -> (r: ProgressStore)
        ensures
            r@.document.is_none(),
    {
        ProgressStore { document: None }
    }

    /// A store over what was found in persistent storage: a record, or
    /// nothing where the document was absent or unreadable.
    pub fn from_persisted(document: Option<ProgressRecord>) -> (r: ProgressStore)
        ensures
            r@.document == match document {
                Some(record) => Some(record@),
                None => None,
            },
    {
        ProgressStore { document }
    }

    /// The document as it should stand in persistent storage, or `None`
    /// where none should be there.
    pub fn persisted(&self) -> (r: Option<&ProgressRecord>)
        ensures
            match r {
                Some(record) => self@.document == Some(record@),
                None => self@.document.is_none(),
            },
    {
        match &self.document {
            Some(record) => Some(record),
            None => None,
        }
    }

    /// The stored record, or the empty one where nothing is stored.
    pub fn load(&self) -> (r: ProgressRecord)
        ensures
            r@ == self@.load(),
    {
        match &self.document {
            Some(record) => record.clone(),
            None => ProgressRecord::new(),
        }
    }

    /// Replaces whatever is stored by `record`.
    pub fn save(&mut self, record: ProgressRecord)
        ensures
            final(self)@ == old(self)@.save(record@),
    {
        self.document = Some(record);
    }

    /// Counts one more attempt at the exercise `id`: loads, counts, saves.
    pub fn record_attempt(&mut self, id: &str)
        ensures
            final(self)@ == old(self)@.record_attempt(id@),
    {
        let mut record = self.load();
        record.record_attempt(id);
        self.save(record);
    }

    /// Marks the exercise `id` as completed: loads, marks, saves.
    pub fn record_completion(&mut self, id: &str)
        ensures
            final(self)@ == old(self)@.record_completion(id@),
    {
        let mut record = self.load();
        record.record_completion(id);
        self.save(record);
    }

    /// Forgets the stored record.
    pub fn reset(&mut self)
        ensures
            final(self)@ == old(self)@.reset(),
    {
        self.document = None;
    }
}

} // verus!
