//! The watch loop: changes under the watched path are gathered until they
//! stop coming, and then one verification is asked for.
//!
//! Waiting for file system notifications and for the clock is not done here.
//! A [`WatchLoop`] is told what happened and when, and says what to do:
//! subscribe, verify an exercise, unsubscribe, or nothing.

use vstd::prelude::*;

use crate::catalog::{Catalog, CatalogView};
use crate::error::Error;
use crate::exercise::{Exercise, ExerciseView};

verus! {

/// The time in milliseconds for which no further change may arrive before a
/// gathered change leads to a verification.
pub const COALESCING_WINDOW_MS: u64 = 250;

/// What a watch loop watches.
#[derive(Debug)]
pub enum Scope {
    /// One exercise: every change under its path stands for it.
    Exercise { id: String },
    /// The whole tree of exercises: a change stands for the exercise whose
    /// source lives at the changed path.
    Tree,
}

/// The mathematical value of a [`Scope`].
pub enum ScopeView {
    Exercise { id: Seq<char> },
    Tree,
}

impl View for Scope {
    type V = ScopeView;

    open spec fn view(&self) -> ScopeView {
        match self {
            Scope::Exercise { id } => ScopeView::Exercise { id: id@ },
            Scope::Tree => ScopeView::Tree,
        }
    }
}

/// Where a watch loop stands.
#[derive(Debug)]
pub enum Phase {
    /// Not started: nothing is subscribed to.
    Idle,
    /// Subscribed, and no change is pending.
    Watching,
    /// A change to the exercise `target` is pending; the last change came at
    /// the time `since`.
    Debouncing { target: String, since: u64 },
    /// The verification of the exercise `target` was asked for and has not
    /// been reported as done.
    Verifying { target: String },
    /// Cancelled: the subscription is given up, and nothing happens any more.
    Stopped,
}

/// The mathematical value of a [`Phase`].
pub enum PhaseView {
    Idle,
    Watching,
    Debouncing { target: Seq<char>, since: u64 },
    Verifying { target: Seq<char> },
    Stopped,
}

impl View for Phase {
    type V = PhaseView;

    open spec fn view(&self) -> PhaseView {
        match self {
            Phase::Idle => PhaseView::Idle,
            Phase::Watching => PhaseView::Watching,
            Phase::Debouncing { target, since } => PhaseView::Debouncing {
                target: target@,
                since: *since,
            },
            Phase::Verifying { target } => PhaseView::Verifying { target: target@ },
            Phase::Stopped => PhaseView::Stopped,
        }
    }
}

/// What a watch loop is told.
#[derive(Debug)]
pub enum WatchEvent {
    /// Something changed at `path`, at the time `at`.
    Changed { path: String, at: u64 },
    /// Nothing happened until the time `at`.
    Tick { at: u64 },
    /// The verification that was asked for is done.
    Verified,
    /// The loop is to end.
    Cancelled,
}

/// The mathematical value of a [`WatchEvent`].
pub enum WatchEventView {
    Changed { path: Seq<char>, at: u64 },
    Tick { at: u64 },
    Verified,
    Cancelled,
}

impl View for WatchEvent {
    type V = WatchEventView;

    open spec fn view(&self) -> WatchEventView {
        match self {
            WatchEvent::Changed { path, at } => WatchEventView::Changed { path: path@, at: *at },
            WatchEvent::Tick { at } => WatchEventView::Tick { at: *at },
            WatchEvent::Verified => WatchEventView::Verified,
            WatchEvent::Cancelled => WatchEventView::Cancelled,
        }
    }
}

/// What a watch loop asks for.
#[derive(Debug)]
pub enum WatchAction {
    /// Subscribe to changes under `path`, and under all that lies below it.
    Subscribe { path: String },
    /// Verify the exercise `id`, report the outcome, and tell the loop when
    /// that is done.
    Verify { id: String },
    /// Give up the subscription.
    Unsubscribe,
    /// Nothing.
    Nothing,
}

/// The mathematical value of a [`WatchAction`].
pub enum WatchActionView {
    Subscribe { path: Seq<char> },
    Verify { id: Seq<char> },
    Unsubscribe,
    Nothing,
}

impl View for WatchAction {
    type V = WatchActionView;

    open spec fn view(&self) -> WatchActionView {
        match self {
            WatchAction::Subscribe { path } => WatchActionView::Subscribe { path: path@ },
            WatchAction::Verify { id } => WatchActionView::Verify { id: id@ },
            WatchAction::Unsubscribe => WatchActionView::Unsubscribe,
            WatchAction::Nothing => WatchActionView::Nothing,
        }
    }
}

/// Whether no change came for the length of `window` when the last one came
/// at `since` and it is now `at`.
pub open spec fn is_quiet(since: u64, at: u64, window: u64) -> bool {
    at - since >= window
}

/// The mathematical value of a [`WatchLoop`].
pub struct WatchView {
    /// What is watched.
    pub scope: ScopeView,
    /// The path that is subscribed to.
    pub path: Seq<char>,
    /// The coalescing window, in milliseconds.
    pub window: u64,
    /// Where the loop stands.
    pub phase: PhaseView,
}

/// A watch loop after an event, with what it asks for.
pub struct Turn {
    pub watch: WatchView,
    pub action: WatchActionView,
}

impl WatchView {
    /// The loop in another phase.
    pub open spec fn in_phase(self, phase: PhaseView) -> WatchView {
        WatchView { scope: self.scope, path: self.path, window: self.window, phase }
    }

    /// The loop in another phase, asking for nothing.
    pub open spec fn quietly(self, phase: PhaseView) -> Turn {
        Turn { watch: self.in_phase(phase), action: WatchActionView::Nothing }
    }

    /// The exercise that a change at `path` stands for: the watched one, or
    /// under a watched tree the one that lives at `path`, if there is one.
    pub open spec fn resolve(self, catalog: CatalogView, path: Seq<char>) -> Option<Seq<char>> {
        match self.scope {
            ScopeView::Exercise { id } => Some(id),
            ScopeView::Tree => match catalog.at_path(path) {
                Some(exercise) => Some(exercise.id),
                None => None,
            },
        }
    }

    /// The loop started: it subscribes to its path and watches. A loop that
    /// was started before stays as it is.
    pub open spec fn start(self) -> Turn {
        match self.phase {
            PhaseView::Idle => Turn {
                watch: self.in_phase(PhaseView::Watching),
                action: WatchActionView::Subscribe { path: self.path },
            },
            _ => self.quietly(self.phase),
        }
    }

    /// What the loop makes of `event`.
    ///
    /// - While it watches, a change that stands for an exercise becomes
    ///   pending. Further changes are merged into the pending one: each
    ///   starts the wait anew, and one that stands for an exercise makes
    ///   that exercise the pending one.
    /// - A tick that finds the pending change quiet for the length of the
    ///   window asks for the verification of the pending exercise.
    /// - Until that verification is reported as done, changes are dropped;
    ///   then the loop watches again.
    /// - Cancelling ends the loop in every phase; a subscription that was
    ///   made is given up.
    /// - Everything else changes nothing.
    pub open spec fn handle(self, catalog: CatalogView, event: WatchEventView) -> Turn {
        match (self.phase, event) {
            (PhaseView::Stopped, _) => self.quietly(PhaseView::Stopped),
            (PhaseView::Idle, WatchEventView::Cancelled) => self.quietly(PhaseView::Stopped),
            (_, WatchEventView::Cancelled) => Turn {
                watch: self.in_phase(PhaseView::Stopped),
                action: WatchActionView::Unsubscribe,
            },
            (PhaseView::Watching, WatchEventView::Changed { path, at }) => {
                match self.resolve(catalog, path) {
                    Some(target) => self.quietly(PhaseView::Debouncing { target, since: at }),
                    None => self.quietly(PhaseView::Watching),
                }
            },
            (PhaseView::Debouncing { target, since }, WatchEventView::Changed { path, at }) => {
                match self.resolve(catalog, path) {
                    Some(latest) => self.quietly(
                        PhaseView::Debouncing { target: latest, since: at },
                    ),
                    None => self.quietly(PhaseView::Debouncing { target, since: at }),
                }
            },
            (PhaseView::Debouncing { target, since }, WatchEventView::Tick { at }) => {
                if is_quiet(since, at, self.window) {
                    Turn {
                        watch: self.in_phase(PhaseView::Verifying { target }),
                        action: WatchActionView::Verify { id: target },
                    }
                } else {
                    self.quietly(self.phase)
                }
            },
            (PhaseView::Verifying { target }, WatchEventView::Verified) => self.quietly(
                PhaseView::Watching,
            ),
            _ => self.quietly(self.phase),
        }
    }
}

impl WatchView {
    /// The loop after it was told `events`, one after the other.
    pub open spec fn after(self, catalog: CatalogView, events: Seq<WatchEventView>) -> WatchView
        decreases events.len(),
    {
        if events.len() == 0 {
            self
        } else {
            self.handle(catalog, events.first()).watch.after(catalog, events.drop_first())
        }
    }

    /// What the loop asks for as it is told `events`, one after the other:
    /// one action for each event.
    pub open spec fn replay(self, catalog: CatalogView, events: Seq<WatchEventView>) -> Seq<
        WatchActionView,
    >
        decreases events.len(),
    {
        if events.len() == 0 {
            Seq::empty()
        } else {
            let turn = self.handle(catalog, events.first());
            seq![turn.action] + turn.watch.replay(catalog, events.drop_first())
        }
    }
}

/// A change that waits for its verification: the exercise it stands for,
/// and the time at which the last change came.
pub struct Pending {
    pub target: Seq<char>,
    pub since: u64,
}

/// The phase of a loop that watches, with `pending` waiting if anything is.
pub open spec fn gathering(pending: Option<Pending>) -> PhaseView {
    match pending {
        Some(change) => PhaseView::Debouncing { target: change.target, since: change.since },
        None => PhaseView::Watching,
    }
}

/// `n` times nothing.
pub open spec fn nothing_times(n: nat) -> Seq<WatchActionView> {
    Seq::new(n, |i: int| WatchActionView::Nothing)
}

impl WatchView {
    /// What is pending after a change at `path` at the time `at`: the
    /// exercise that the change stands for or, where it stands for none,
    /// the one that was pending; nothing where neither is there.
    pub open spec fn merged(
        self,
        catalog: CatalogView,
        pending: Option<Pending>,
        path: Seq<char>,
        at: u64,
    ) -> Option<Pending> {
        match (self.resolve(catalog, path), pending) {
            (Some(target), _) => Some(Pending { target, since: at }),
            (None, Some(before)) => Some(Pending { target: before.target, since: at }),
            (None, None) => None,
        }
    }

    /// What is pending after the events of a burst.
    pub open spec fn gathered(
        self,
        catalog: CatalogView,
        burst: Seq<WatchEventView>,
        pending: Option<Pending>,
    ) -> Option<Pending>
        decreases burst.len(),
    {
        if burst.len() == 0 {
            pending
        } else {
            match burst.first() {
                WatchEventView::Changed { path, at } => self.gathered(
                    catalog,
                    burst.drop_first(),
                    self.merged(catalog, pending, path, at),
                ),
                _ => self.gathered(catalog, burst.drop_first(), pending),
            }
        }
    }

    /// Whether `events` is a burst: changes, and between them ticks that
    /// come too early to find what is pending quiet.
    pub open spec fn is_burst(
        self,
        catalog: CatalogView,
        events: Seq<WatchEventView>,
        pending: Option<Pending>,
    ) -> bool
        decreases events.len(),
    {
        if events.len() == 0 {
            true
        } else {
            match events.first() {
                WatchEventView::Changed { path, at } => self.is_burst(
                    catalog,
                    events.drop_first(),
                    self.merged(catalog, pending, path, at),
                ),
                WatchEventView::Tick { at } => {
                    &&& pending matches Some(change) ==> !is_quiet(change.since, at, self.window)
                    &&& self.is_burst(catalog, events.drop_first(), pending)
                },
                _ => false,
            }
        }
    }
}

/// A loop that watches asks for nothing during a burst, and after it the
/// changes of the burst are merged into one that is pending.
pub proof fn lemma_burst_is_gathered(
    watch: WatchView,
    catalog: CatalogView,
    pending: Option<Pending>,
    burst: Seq<WatchEventView>,
)
    requires
        watch.phase == gathering(pending),
        watch.is_burst(catalog, burst, pending),
    ensures
        watch.replay(catalog, burst) == nothing_times(burst.len()),
        watch.after(catalog, burst) == watch.in_phase(
            gathering(watch.gathered(catalog, burst, pending)),
        ),
    decreases burst.len(),
{
    if burst.len() == 0 {
        assert(watch.replay(catalog, burst) =~= nothing_times(0));
    } else {
        let turn = watch.handle(catalog, burst.first());
        let rest = burst.drop_first();
        let then = match burst.first() {
            WatchEventView::Changed { path, at } => watch.merged(catalog, pending, path, at),
            _ => pending,
        };
        assert(turn.watch == watch.in_phase(gathering(then)));
        lemma_phase_is_no_matter(watch, turn.watch, catalog, rest, then);
        lemma_burst_is_gathered(turn.watch, catalog, then, rest);
        assert(watch.replay(catalog, burst) =~= nothing_times(burst.len()));
    }
}

/// What a burst is and what it leaves pending does not hang on the phase
/// of the loop.
proof fn lemma_phase_is_no_matter(
    a: WatchView,
    b: WatchView,
    catalog: CatalogView,
    events: Seq<WatchEventView>,
    pending: Option<Pending>,
)
    requires
        a.scope == b.scope,
        a.window == b.window,
    ensures
        a.is_burst(catalog, events, pending) == b.is_burst(catalog, events, pending),
        a.gathered(catalog, events, pending) == b.gathered(catalog, events, pending),
    decreases events.len(),
{
    if events.len() > 0 {
        let then = match events.first() {
            WatchEventView::Changed { path, at } => a.merged(catalog, pending, path, at),
            _ => pending,
        };
        lemma_phase_is_no_matter(a, b, catalog, events.drop_first(), then);
    }
}

/// A burst of changes leads to exactly one verification: while the burst
/// lasts nothing is asked for, and the first tick that finds the pending
/// change quiet for the length of the window asks for the one verification,
/// that of the exercise that the burst left pending.
pub proof fn lemma_burst_is_verified_once(
    watch: WatchView,
    catalog: CatalogView,
    burst: Seq<WatchEventView>,
    change: Pending,
    at: u64,
)
    requires
        watch.phase == PhaseView::Watching,
        watch.is_burst(catalog, burst, None),
        watch.gathered(catalog, burst, None) == Some(change),
        is_quiet(change.since, at, watch.window),
    ensures
        watch.replay(catalog, burst.push(WatchEventView::Tick { at })) == nothing_times(
            burst.len(),
        ).push(WatchActionView::Verify { id: change.target }),
        watch.after(catalog, burst.push(WatchEventView::Tick { at })).phase
            == (PhaseView::Verifying { target: change.target }),
{
    lemma_burst_is_gathered(watch, catalog, None, burst);
    lemma_replay_push(watch, catalog, burst, WatchEventView::Tick { at });
}

/// Under a loop over one exercise, whatever is pending after a burst is
/// that exercise, and something is pending as soon as the burst holds a
/// change.
pub proof fn lemma_watched_exercise_is_gathered(
    watch: WatchView,
    catalog: CatalogView,
    id: Seq<char>,
    burst: Seq<WatchEventView>,
    pending: Option<Pending>,
)
    requires
        watch.scope == (ScopeView::Exercise { id }),
        pending matches Some(change) ==> change.target == id,
    ensures
        watch.gathered(catalog, burst, pending) matches Some(change) ==> change.target == id,
        pending is Some || (exists|i: int| 0 <= i < burst.len() && #[trigger] burst[i] is Changed)
            ==> watch.gathered(catalog, burst, pending) is Some,
    decreases burst.len(),
{
    if burst.len() > 0 {
        let rest = burst.drop_first();
        let then = match burst.first() {
            WatchEventView::Changed { path, at } => watch.merged(catalog, pending, path, at),
            _ => pending,
        };
        lemma_watched_exercise_is_gathered(watch, catalog, id, rest, then);
        if pending is None && exists|i: int| 0 <= i < burst.len() && #[trigger] burst[i] is Changed {
            let i = choose|i: int| 0 <= i < burst.len() && #[trigger] burst[i] is Changed;
            if i > 0 {
                assert(rest[i - 1] is Changed);
            }
        }
    }
}

/// Telling a loop one more event adds one action to those it asked for.
pub proof fn lemma_replay_push(
    watch: WatchView,
    catalog: CatalogView,
    events: Seq<WatchEventView>,
    event: WatchEventView,
)
    ensures
        watch.after(catalog, events.push(event)) == watch.after(catalog, events).handle(
            catalog,
            event,
        ).watch,
        watch.replay(catalog, events.push(event)) == watch.replay(catalog, events).push(
            watch.after(catalog, events).handle(catalog, event).action,
        ),
    decreases events.len(),
{
    let longer = events.push(event);
    if events.len() == 0 {
        let turn = watch.handle(catalog, event);
        let none = longer.drop_first();
        assert(longer.first() == event);
        assert(none.len() == 0);
        assert(turn.watch.after(catalog, none) == turn.watch);
        assert(turn.watch.replay(catalog, none) =~= Seq::empty());
        assert(watch.replay(catalog, longer) =~= seq![watch.handle(catalog, event).action]);
        assert(watch.replay(catalog, events).push(watch.handle(catalog, event).action) =~= seq![
            watch.handle(catalog, event).action,
        ]);
    } else {
        let turn = watch.handle(catalog, events.first());
        assert(longer.first() == events.first());
        assert(longer.drop_first() =~= events.drop_first().push(event));
        lemma_replay_push(turn.watch, catalog, events.drop_first(), event);
        assert(watch.replay(catalog, longer) =~= watch.replay(catalog, events).push(
            watch.after(catalog, events).handle(catalog, event).action,
        ));
    }
}

/// Cancelling ends a loop in whatever phase it is, gives up the
/// subscription exactly where one was made, and nothing that the loop is
/// told afterwards has it ask for anything.
pub proof fn lemma_cancelled_is_final(
    watch: WatchView,
    catalog: CatalogView,
    events: Seq<WatchEventView>,
)
    ensures
        watch.handle(catalog, WatchEventView::Cancelled).watch.phase == PhaseView::Stopped,
        watch.handle(catalog, WatchEventView::Cancelled).action == WatchActionView::Unsubscribe
            <==> (watch.phase != PhaseView::Idle && watch.phase != PhaseView::Stopped),
        watch.handle(catalog, WatchEventView::Cancelled).watch.replay(catalog, events)
            == nothing_times(events.len()),
        watch.handle(catalog, WatchEventView::Cancelled).watch.after(catalog, events).phase
            == PhaseView::Stopped,
    decreases events.len(),
{
    let stopped = watch.handle(catalog, WatchEventView::Cancelled).watch;
    if events.len() == 0 {
        assert(stopped.replay(catalog, events) =~= nothing_times(0));
    } else {
        let turn = stopped.handle(catalog, events.first());
        assert(turn.watch == stopped);
        assert(stopped.handle(catalog, WatchEventView::Cancelled).watch == stopped);
        lemma_cancelled_is_final(stopped, catalog, events.drop_first());
        assert(stopped.replay(catalog, events) =~= nothing_times(events.len()));
    }
}

/// While a verification is pending, no second one is asked for: changes
/// and ticks are dropped until the verification is reported as done.
pub proof fn lemma_one_verification_at_a_time(
    watch: WatchView,
    catalog: CatalogView,
    event: WatchEventView,
)
    requires
        watch.phase is Verifying,
    ensures
        !(watch.handle(catalog, event).action is Verify),
        event is Changed || event is Tick ==> watch.handle(catalog, event) == watch.quietly(
            watch.phase,
        ),
        event is Verified ==> watch.handle(catalog, event).watch.phase == PhaseView::Watching,
{
}

/// The loop that re-verifies an exercise when its source changes.
#[derive(Debug)]
pub struct WatchLoop {
    scope: Scope,
    path: String,
    window: u64,
    phase: Phase,
}

impl View for WatchLoop {
    type V = WatchView;

    closed spec fn view(&self) -> WatchView {
        WatchView { scope: self.scope@, path: self.path@, window: self.window, phase: self.phase@ }
    }
}

impl WatchLoop {
    /// A loop over the one exercise `exercise`, not started yet.
    pub fn for_exercise(exercise: &Exercise, window: u64) -> (r: WatchLoop)
        ensures
            r@ == (WatchView {
                scope: ScopeView::Exercise { id: exercise@.id },
                path: exercise@.path,
                window,
                phase: PhaseView::Idle,
            }),
    {
        WatchLoop {
            scope: Scope::Exercise { id: exercise.id.clone() },
            path: exercise.path.clone(),
            window,
            phase: Phase::Idle,
        }
    }

    /// A loop over the whole tree of exercises below `root`, not started
    /// yet.
    pub fn for_tree(root: &str, window: u64) -> (r: WatchLoop)
        ensures
            r@ == (WatchView {
                scope: ScopeView::Tree,
                path: root@,
                window,
                phase: PhaseView::Idle,
            }),
    {
        WatchLoop { scope: Scope::Tree, path: root.to_owned(), window, phase: Phase::Idle }
    }

    /// The loop that a watch command asks for: over the exercise `id` where
    /// one is named, which the catalog must know, and else over the whole
    /// tree below `root`.
    pub fn open(catalog: &Catalog, exercise: Option<&str>, root: &str, window: u64) -> (r: Result<
        WatchLoop,
        Error,
    >)
        ensures
            match (exercise, r) {
                (Some(id), Ok(watch)) => exists|i: int|
                    {
                        &&& #[trigger] catalog@.is_position_of(id@, i)
                        &&& watch@ == (WatchView {
                            scope: ScopeView::Exercise { id: id@ },
                            path: catalog@.exercises[i].path,
                            window,
                            phase: PhaseView::Idle,
                        })
                    },
                (Some(id), Err(e)) => e == Error::ExerciseNotFound
                    && !catalog@.identifiers().contains(id@),
                (None, Ok(watch)) => watch@ == (WatchView {
                    scope: ScopeView::Tree,
                    path: root@,
                    window,
                    phase: PhaseView::Idle,
                }),
                (None, Err(_)) => false,
            },
    {
        match exercise {
            Some(id) => {
                match catalog.find(id) {
                    Ok(found) => Ok(WatchLoop::for_exercise(found, window)),
                    Err(e) => Err(e),
                }
            },
            None => Ok(WatchLoop::for_tree(root, window)),
        }
    }

    /// Whether the loop has ended.
    pub fn is_stopped(&self) -> (r: bool)
        ensures
            r == (self@.phase == PhaseView::Stopped),
    {
        match self.phase {
            Phase::Stopped => true,
            _ => false,
        }
    }

    /// Where the loop stands.
    pub fn phase(&self) -> (r: &Phase)
        ensures
            r@ == self@.phase,
    {
        &self.phase
    }

    /// The exercise that a change at `path` stands for.
    fn resolve(&self, catalog: &Catalog, path: &String) -> (r: Option<String>)
        ensures
            match r {
                Some(id) => self@.resolve(catalog@, path@) == Some(id@),
                None => self@.resolve(catalog@, path@).is_none(),
            },
    {
        match &self.scope {
            Scope::Exercise { id } => Some(id.clone()),
            Scope::Tree => {
                match catalog.find_by_path(path.as_str()) {
                    Some(exercise) => Some(exercise.id.clone()),
                    None => None,
                }
            },
        }
    }

    /// Starts the loop: it asks for its subscription and watches. A loop
    /// that was started before stays as it is.
    pub fn start(&mut self) -> (action: WatchAction)
        ensures
            old(self)@.start() == (Turn { watch: final(self)@, action: action@ }),
    {
        match self.phase {
            Phase::Idle => {
                self.phase = Phase::Watching;
                WatchAction::Subscribe { path: self.path.clone() }
            },
            _ => WatchAction::Nothing,
        }
    }

    /// Takes what happened and says what to do.
    pub fn handle(&mut self, catalog: &Catalog, event: WatchEvent) -> (action: WatchAction)
        ensures
            old(self)@.handle(catalog@, event@) == (Turn { watch: final(self)@, action: action@ }),
    {
        match event {
            WatchEvent::Cancelled => {
                match self.phase {
                    Phase::Stopped => WatchAction::Nothing,
                    Phase::Idle => {
                        self.phase = Phase::Stopped;
                        WatchAction::Nothing
                    },
                    _ => {
                        self.phase = Phase::Stopped;
                        WatchAction::Unsubscribe
                    },
                }
            },
            WatchEvent::Changed { path, at } => {
                match &self.phase {
                    Phase::Watching => {
                        match self.resolve(catalog, &path) {
                            Some(target) => {
                                self.phase = Phase::Debouncing { target, since: at };
                            },
                            None => {},
                        }
                        WatchAction::Nothing
                    },
                    Phase::Debouncing { target, since } => {
                        let pending = target.clone();
                        match self.resolve(catalog, &path) {
                            Some(latest) => {
                                self.phase = Phase::Debouncing { target: latest, since: at };
                            },
                            None => {
                                self.phase = Phase::Debouncing { target: pending, since: at };
                            },
                        }
                        WatchAction::Nothing
                    },
                    _ => WatchAction::Nothing,
                }
            },
            WatchEvent::Tick { at } => {
                match &self.phase {
                    Phase::Debouncing { target, since } => {
                        if at >= *since && at - *since >= self.window {
                            let id = target.clone();
                            self.phase = Phase::Verifying { target: id.clone() };
                            WatchAction::Verify { id }
                        } else {
                            WatchAction::Nothing
                        }
                    },
                    _ => WatchAction::Nothing,
                }
            },
            WatchEvent::Verified => {
                match self.phase {
                    Phase::Verifying { .. } => {
                        self.phase = Phase::Watching;
                        WatchAction::Nothing
                    },
                    _ => WatchAction::Nothing,
                }
            },
        }
    }
}

} // verus!
