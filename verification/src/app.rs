//! The synchronisation engine.
//!
//! The engine owns one fact, the color that was last applied with success,
//! and decides for every request whether the hardware has to be touched. It
//! performs no effect itself: [`AuraSyncApp::step`] takes what has just
//! happened and answers with what the caller must do next. The caller looks
//! up the accent color, runs the executor and feeds the status display, and
//! reports each outcome back as the next event.

use crate::color::Color;
use vstd::prelude::*;

verus! {

/// A request to the engine.
#[derive(Clone, Copy, Debug, PartialEq, Eq, Structural)]
pub enum ControlMsg {
    /// Look up the current accent color and apply it.
    TriggerSync,
    /// Apply exactly this color.
    UpdateColor(Color),
}

/// What the engine is waiting for.
#[derive(Clone, Copy, Debug, PartialEq, Eq, Structural)]
pub enum Phase {
    /// The next request.
    Idle,
    /// The accent color that it asked the caller to look up.
    Resolving,
    /// The outcome of applying this color.
    Applying(Color),
}

/// What has just happened.
#[derive(Clone, Copy, Debug, PartialEq, Eq, Structural)]
pub enum SyncEvent {
    /// A request arrived.
    Message(ControlMsg),
    /// The accent color was looked up; `None` when the desktop offers none.
    SourceRead(Option<Color>),
    /// The executor returned; `true` when it applied the color.
    ApplyFinished(bool),
}

/// What the caller must do next.
#[derive(Clone, Copy, Debug, PartialEq, Eq, Structural)]
pub enum SyncAction {
    /// Nothing: wait for the next request.
    Wait,
    /// Look up the current accent color and report it with
    /// [`SyncEvent::SourceRead`].
    ReadSource,
    /// Run the executor with this color and report the outcome with
    /// [`SyncEvent::ApplyFinished`].
    Apply(Color),
    /// Tell the status display that this color is now applied, then wait for
    /// the next request.
    Notify(Color),
    /// Report that applying this color failed, then wait for the next
    /// request.
    ReportFailure(Color),
}

/// The engine as a mathematical value.
#[derive(Clone, Copy, Debug, PartialEq, Eq, Structural)]
pub struct EngineState {
    /// The color of the last apply that succeeded.
    pub last_applied: Option<Color>,
    pub phase: Phase,
}

impl EngineState {
    /// The engine at startup.
    pub open spec fn initial() -> EngineState {
        EngineState { last_applied: None, phase: Phase::Idle }
    }

    /// A color is only ever being applied when it differs from the one that
    /// is applied already.
    pub open spec fn wf(self) -> bool {
        self.phase matches Phase::Applying(c) ==> self.last_applied != Some(c)
    }

    /// The decision on a color that is to be shown: nothing when it is
    /// applied already, else an apply.
    pub open spec fn target(self, color: Color) -> (EngineState, SyncAction) {
        if self.last_applied == Some(color) {
            (EngineState { phase: Phase::Idle, ..self }, SyncAction::Wait)
        } else {
            (EngineState { phase: Phase::Applying(color), ..self }, SyncAction::Apply(color))
        }
    }

    /// The event answers what the engine is waiting for.
    pub open spec fn expects(self, event: SyncEvent) -> bool {
        match (self.phase, event) {
            (Phase::Idle, SyncEvent::Message(_)) => true,
            (Phase::Resolving, SyncEvent::SourceRead(_)) => true,
            (Phase::Applying(_), SyncEvent::ApplyFinished(_)) => true,
            _ => false,
        }
    }

    /// The engine after an event, and what it asks for. An event that does
    /// not answer what the engine is waiting for changes nothing.
    pub open spec fn next(self, event: SyncEvent) -> (EngineState, SyncAction) {
        match (self.phase, event) {
            (Phase::Idle, SyncEvent::Message(ControlMsg::UpdateColor(color))) => self.target(color),
            (Phase::Idle, SyncEvent::Message(ControlMsg::TriggerSync)) => (
                EngineState { phase: Phase::Resolving, ..self },
                SyncAction::ReadSource,
            ),
            (Phase::Resolving, SyncEvent::SourceRead(Some(color))) => self.target(color),
            (Phase::Resolving, SyncEvent::SourceRead(None)) => (
                EngineState { phase: Phase::Idle, ..self },
                SyncAction::Wait,
            ),
            (Phase::Applying(color), SyncEvent::ApplyFinished(true)) => (
                EngineState { last_applied: Some(color), phase: Phase::Idle },
                SyncAction::Notify(color),
            ),
            (Phase::Applying(color), SyncEvent::ApplyFinished(false)) => (
                EngineState { phase: Phase::Idle, ..self },
                SyncAction::ReportFailure(color),
            ),
            _ => (self, SyncAction::Wait),
        }
    }

    /// The engine after a series of events, with the actions it asked for,
    /// one per event.
    pub open spec fn run(self, events: Seq<SyncEvent>) -> (EngineState, Seq<SyncAction>)
        decreases events.len(),
    {
        if events.len() == 0 {
            (self, Seq::empty())
        } else {
            let (before, actions) = self.run(events.drop_last());
            let (after, action) = before.next(events.last());
            (after, actions.push(action))
        }
    }

    /// The engine as it is when the event at index `i` of a series arrives.
    pub open spec fn at(self, events: Seq<SyncEvent>, i: int) -> EngineState {
        self.run(events.take(i)).0
    }
}

/// The colors that the executor is run with, in order.
pub open spec fn executor_calls(actions: Seq<SyncAction>) -> Seq<Color>
    decreases actions.len(),
{
    if actions.len() == 0 {
        Seq::empty()
    } else {
        let earlier = executor_calls(actions.drop_last());
        match actions.last() {
            SyncAction::Apply(color) => earlier.push(color),
            _ => earlier,
        }
    }
}

/// The engine: the last applied color and what it is waiting for.
pub struct AuraSyncApp {
    last_applied: Option<Color>,
    phase: Phase,
}

impl View for AuraSyncApp {
    type V = EngineState;

    closed spec fn view(&self) -> EngineState {
        EngineState { last_applied: self.last_applied, phase: self.phase }
    }
}

impl AuraSyncApp {
    #[verifier::type_invariant]
    spec fn inv(self) -> bool {
        self@.wf()
    }

    /// The engine at startup: nothing applied yet, waiting for a request.
    pub fn new() -> (app: Self)
        ensures
            app@ == EngineState::initial(),
    {
        AuraSyncApp { last_applied: None, phase: Phase::Idle }
    }

    /// The color of the last apply that succeeded.
    pub fn last_applied(&self) -> (color: Option<Color>)
        ensures
            color == self@.last_applied,
    {
        self.last_applied
    }

    /// What the engine is waiting for.
    pub fn phase(&self) -> (phase: Phase)
        ensures
            phase == self@.phase,
    {
        self.phase
    }

    /// Takes in what has just happened and answers with what to do next.
    ///
    /// A request for the color that is applied already asks for nothing. The
    /// last applied color changes only when an apply is reported as
    /// succeeded.
    pub fn step(&mut self, event: SyncEvent) -> (action: SyncAction)
        ensures
            (final(self)@, action) == old(self)@.next(event),
            final(self)@.wf(),
    {
        proof {
            use_type_invariant(&*self);
        }
        match (self.phase, event) {
            (Phase::Idle, SyncEvent::Message(ControlMsg::UpdateColor(color))) => self.target(color),
            (Phase::Idle, SyncEvent::Message(ControlMsg::TriggerSync)) => {
                self.phase = Phase::Resolving;
                SyncAction::ReadSource
            },
            (Phase::Resolving, SyncEvent::SourceRead(Some(color))) => self.target(color),
            (Phase::Resolving, SyncEvent::SourceRead(None)) => {
                self.phase = Phase::Idle;
                SyncAction::Wait
            },
            (Phase::Applying(color), SyncEvent::ApplyFinished(true)) => {
                self.phase = Phase::Idle;
                self.last_applied = Some(color);
                SyncAction::Notify(color)
            },
            (Phase::Applying(color), SyncEvent::ApplyFinished(false)) => {
                self.phase = Phase::Idle;
                SyncAction::ReportFailure(color)
            },
            _ => SyncAction::Wait,
        }
    }

    fn target(&mut self, color: Color) -> (action: SyncAction)
        ensures
            (final(self)@, action) == old(self)@.target(color),
            final(self)@.wf(),
    {
        if self.last_applied == Some(color) {
            self.phase = Phase::Idle;
            SyncAction::Wait
        } else {
            self.phase = Phase::Applying(color);
            SyncAction::Apply(color)
        }
    }
}

/// No event leads the engine into applying the color that is applied already.
pub proof fn lemma_next_keeps_wf(state: EngineState, event: SyncEvent)
    requires
        state.wf(),
    ensures
        state.next(event).0.wf(),
{
}

/// The executor is only ever asked for a color other than the one that was
/// last applied with success, and the engine then waits for its outcome.
pub proof fn lemma_apply_only_for_new_color(state: EngineState, event: SyncEvent, color: Color)
    requires
        state.next(event).1 == SyncAction::Apply(color),
    ensures
        state.last_applied != Some(color),
        state.next(event).0 == (EngineState {
            last_applied: state.last_applied,
            phase: Phase::Applying(color),
        }),
{
}

/// A request for the color that is applied already has no effect at all,
/// whether it names the color or has it looked up.
pub proof fn lemma_applied_color_is_skipped(state: EngineState, color: Color)
    requires
        state.phase == Phase::Idle,
        state.last_applied == Some(color),
    ensures
        state.next(SyncEvent::Message(ControlMsg::UpdateColor(color))) == (state, SyncAction::Wait),
        state.run(
            seq![
                SyncEvent::Message(ControlMsg::TriggerSync),
                SyncEvent::SourceRead(Some(color)),
            ],
        ) == (state, seq![SyncAction::ReadSource, SyncAction::Wait]),
{
    lemma_run_two(
        state,
        SyncEvent::Message(ControlMsg::TriggerSync),
        SyncEvent::SourceRead(Some(color)),
    );
}

/// An event that does not answer what the engine is waiting for changes
/// nothing and asks for nothing.
pub proof fn lemma_unexpected_event_is_ignored(state: EngineState, event: SyncEvent)
    requires
        !state.expects(event),
    ensures
        state.next(event) == (state, SyncAction::Wait),
{
}

/// While the executor is running, the engine asks for no second run: only
/// the outcome of the run moves it on, and then it asks for none either.
pub proof fn lemma_one_apply_at_a_time(state: EngineState, event: SyncEvent)
    requires
        state.phase is Applying,
    ensures
        !(state.next(event).1 is Apply),
        !(event is ApplyFinished) ==> state.next(event).0 == state,
{
}

/// The last applied color changes only when an apply is reported as
/// succeeded, and then to the color that was applied. A failed apply leaves
/// it as it was.
pub proof fn lemma_last_applied_follows_success(state: EngineState, event: SyncEvent)
    ensures
        match (state.phase, event) {
            (Phase::Applying(color), SyncEvent::ApplyFinished(true)) => state.next(
                event,
            ).0.last_applied == Some(color),
            _ => state.next(event).0.last_applied == state.last_applied,
        },
{
}

/// When the accent color cannot be looked up, the request is dropped: no
/// executor call, nothing applied, and the engine waits for the next request.
pub proof fn lemma_unavailable_source_is_dropped(state: EngineState)
    requires
        state.phase == Phase::Idle,
    ensures
        ({
            let (after, actions) = state.run(
                seq![SyncEvent::Message(ControlMsg::TriggerSync), SyncEvent::SourceRead(None)],
            );
            &&& actions == seq![SyncAction::ReadSource, SyncAction::Wait]
            &&& executor_calls(actions) == Seq::<Color>::empty()
            &&& after == state
        }),
{
    lemma_run_two(state, SyncEvent::Message(ControlMsg::TriggerSync), SyncEvent::SourceRead(None));
    let none = Seq::<SyncAction>::empty();
    lemma_calls_push(none, SyncAction::ReadSource);
    lemma_calls_push(none.push(SyncAction::ReadSource), SyncAction::Wait);
    assert(none.push(SyncAction::ReadSource).push(SyncAction::Wait) =~= seq![
        SyncAction::ReadSource,
        SyncAction::Wait,
    ]);
}

/// Two requests in a row for the same color, the first of which is applied
/// with success, run the executor exactly once. The engine is idle at the
/// start and has some other color, or none, as its last applied one.
pub proof fn lemma_dedup_idempotence(state: EngineState, color: Color)
    requires
        state.phase == Phase::Idle,
        state.last_applied != Some(color),
    ensures
        ({
            let request = SyncEvent::Message(ControlMsg::UpdateColor(color));
            let (after, actions) = state.run(
                seq![request, SyncEvent::ApplyFinished(true), request],
            );
            &&& actions == seq![SyncAction::Apply(color), SyncAction::Notify(color), SyncAction::Wait]
            &&& executor_calls(actions) == seq![color]
            &&& after == (EngineState { last_applied: Some(color), phase: Phase::Idle })
        }),
{
    let request = SyncEvent::Message(ControlMsg::UpdateColor(color));
    let done = SyncEvent::ApplyFinished(true);
    lemma_run_two(state, request, done);
    lemma_run_push(state, seq![request, done], request);
    assert(seq![request, done].push(request) =~= seq![request, done, request]);
    let none = Seq::<SyncAction>::empty();
    let (a, b, c) = (SyncAction::Apply(color), SyncAction::Notify(color), SyncAction::Wait);
    lemma_calls_push(none, a);
    lemma_calls_push(none.push(a), b);
    lemma_calls_push(none.push(a).push(b), c);
    assert(none.push(a).push(b) =~= seq![a, b]);
    assert(seq![a, b].push(c) =~= seq![a, b, c]);
    assert(Seq::<Color>::empty().push(color) =~= seq![color]);
}

/// When an apply fails, the next request for the same color runs the
/// executor again: the failed color does not count as applied.
pub proof fn lemma_retry_after_failure(state: EngineState, color: Color)
    requires
        state.phase == Phase::Idle,
        state.last_applied != Some(color),
    ensures
        ({
            let request = SyncEvent::Message(ControlMsg::UpdateColor(color));
            let (after, actions) = state.run(
                seq![request, SyncEvent::ApplyFinished(false), request],
            );
            &&& actions == seq![
                SyncAction::Apply(color),
                SyncAction::ReportFailure(color),
                SyncAction::Apply(color),
            ]
            &&& executor_calls(actions) == seq![color, color]
            &&& after == (EngineState {
                last_applied: state.last_applied,
                phase: Phase::Applying(color),
            })
        }),
{
    let request = SyncEvent::Message(ControlMsg::UpdateColor(color));
    let failed = SyncEvent::ApplyFinished(false);
    lemma_run_two(state, request, failed);
    lemma_run_push(state, seq![request, failed], request);
    assert(seq![request, failed].push(request) =~= seq![request, failed, request]);
    let none = Seq::<SyncAction>::empty();
    let (a, b) = (SyncAction::Apply(color), SyncAction::ReportFailure(color));
    lemma_calls_push(none, a);
    lemma_calls_push(none.push(a), b);
    lemma_calls_push(none.push(a).push(b), a);
    assert(none.push(a).push(b) =~= seq![a, b]);
    assert(seq![a, b].push(a) =~= seq![a, b, a]);
    assert(Seq::<Color>::empty().push(color).push(color) =~= seq![color, color]);
}

/// Whatever happens, every executor call of a run is for a color other than
/// the one last applied with success at that moment.
pub proof fn lemma_run_never_repeats_applied(state: EngineState, events: Seq<SyncEvent>, i: int)
    requires
        0 <= i < events.len(),
        state.run(events).1[i] is Apply,
    ensures
        state.at(events, i).last_applied != Some(state.run(events).1[i]->Apply_0),
{
    lemma_run_step(state, events, i);
}

/// The executor is never run twice in a row with the same color, unless the
/// first of the two runs was reported as failed. This holds of every series
/// of events, in turn or out of turn, from every state.
pub proof fn lemma_no_repeat_unless_failed(
    state: EngineState,
    events: Seq<SyncEvent>,
    i: int,
    j: int,
    color: Color,
)
    requires
        0 <= i < j < events.len(),
        state.run(events).1[i] == SyncAction::Apply(color),
        state.run(events).1[j] == SyncAction::Apply(color),
        forall|k: int| i < k < j ==> !(#[trigger] state.run(events).1[k] is Apply),
    ensures
        exists|k: int|
            i < k < j && #[trigger] events[k] == SyncEvent::ApplyFinished(false) && state.at(
                events,
                k,
            ).phase == Phase::Applying(color),
{
    lemma_run_step(state, events, i);
    lemma_run_step(state, events, j);
    let k = lemma_first_outcome(state, events, i, i + 1, j, color);
    lemma_run_step(state, events, k);
    if events[k] == SyncEvent::ApplyFinished(true) {
        lemma_quiet(state, events, k, j, j);
        assert(false);
    }
}

/// While the outcome of a run is awaited, nothing changes.
proof fn lemma_waiting(state: EngineState, events: Seq<SyncEvent>, i: int, m: int)
    requires
        0 <= i < m <= events.len(),
        state.at(events, i + 1).phase is Applying,
        forall|k: int| i < k < m ==> !(#[trigger] events[k] is ApplyFinished),
    ensures
        state.at(events, m) == state.at(events, i + 1),
    decreases m - i,
{
    if m > i + 1 {
        lemma_waiting(state, events, i, m - 1);
        lemma_run_step(state, events, m - 1);
        assert(!(events[m - 1] is ApplyFinished));
    }
}

/// After an executor call that is followed by another, the outcome of the
/// first arrives before the second is asked for. Gives the index at which it
/// arrives.
proof fn lemma_first_outcome(
    state: EngineState,
    events: Seq<SyncEvent>,
    i: int,
    m: int,
    j: int,
    color: Color,
) -> (k: int)
    requires
        0 <= i < m <= j < events.len(),
        state.at(events, i + 1).phase == Phase::Applying(color),
        forall|n: int| i < n < m ==> !(#[trigger] events[n] is ApplyFinished),
        state.run(events).1[j] is Apply,
    ensures
        i < k < j,
        events[k] is ApplyFinished,
        state.at(events, k) == state.at(events, i + 1),
    decreases j - m,
{
    lemma_waiting(state, events, i, m);
    if m == j {
        lemma_run_step(state, events, j);
        lemma_one_apply_at_a_time(state.at(events, j), events[j]);
        assert(false);
        m
    } else if events[m] is ApplyFinished {
        m
    } else {
        lemma_first_outcome(state, events, i, m + 1, j, color)
    }
}

/// As long as the executor is not asked for, the last applied color stays
/// and the engine awaits no outcome.
proof fn lemma_quiet(state: EngineState, events: Seq<SyncEvent>, k: int, m: int, j: int)
    requires
        0 <= k < m <= j < events.len(),
        !(state.at(events, k + 1).phase is Applying),
        forall|n: int| k < n < j ==> !(#[trigger] state.run(events).1[n] is Apply),
    ensures
        state.at(events, m).last_applied == state.at(events, k + 1).last_applied,
        !(state.at(events, m).phase is Applying),
    decreases m - k,
{
    if m > k + 1 {
        lemma_quiet(state, events, k, m - 1, j);
        lemma_run_step(state, events, m - 1);
        assert(!(state.run(events).1[m - 1] is Apply));
    }
}

/// The action at an index of a run is the answer of the engine, as it is at
/// that index, to the event at that index.
proof fn lemma_run_step(state: EngineState, events: Seq<SyncEvent>, i: int)
    requires
        0 <= i < events.len(),
    ensures
        state.run(events).1.len() == events.len(),
        state.run(events).1[i] == state.at(events, i).next(events[i]).1,
        state.at(events, i + 1) == state.at(events, i).next(events[i]).0,
    decreases events.len(),
{
    lemma_run_len(state, events);
    let upto = events.take(i + 1);
    assert(upto.drop_last() =~= events.take(i));
    assert(upto.last() == events[i]);
    if i == events.len() - 1 {
        assert(events.take(i) =~= events.drop_last());
    } else {
        let shorter = events.drop_last();
        lemma_run_len(state, shorter);
        assert(shorter.take(i) =~= events.take(i));
        lemma_run_step(state, shorter, i);
    }
}

/// A run answers each event with one action.
proof fn lemma_run_len(state: EngineState, events: Seq<SyncEvent>)
    ensures
        state.run(events).1.len() == events.len(),
    decreases events.len(),
{
    if events.len() > 0 {
        lemma_run_len(state, events.drop_last());
    }
}

/// A run of one more event is the run so far followed by one step.
proof fn lemma_run_push(state: EngineState, events: Seq<SyncEvent>, event: SyncEvent)
    ensures
        state.run(events.push(event)) == ({
            let (before, actions) = state.run(events);
            let (after, action) = before.next(event);
            (after, actions.push(action))
        }),
{
    assert(events.push(event).drop_last() =~= events);
}

proof fn lemma_run_two(state: EngineState, first: SyncEvent, second: SyncEvent)
    ensures
        state.run(seq![first, second]) == ({
            let (middle, a) = state.next(first);
            let (after, b) = middle.next(second);
            (after, seq![a, b])
        }),
{
    let none = Seq::<SyncEvent>::empty();
    lemma_run_push(state, none, first);
    lemma_run_push(state, none.push(first), second);
    assert(seq![first, second] =~= none.push(first).push(second));
    let (middle, a) = state.next(first);
    let (after, b) = middle.next(second);
    assert(Seq::<SyncAction>::empty().push(a).push(b) =~= seq![a, b]);
}

/// The executor calls of one more action are those so far, and the color of
/// the action if it is an apply.
proof fn lemma_calls_push(actions: Seq<SyncAction>, action: SyncAction)
    ensures
        executor_calls(actions.push(action)) == match action {
            SyncAction::Apply(color) => executor_calls(actions).push(color),
            _ => executor_calls(actions),
        },
{
    assert(actions.push(action).drop_last() =~= actions);
}

} // verus!
