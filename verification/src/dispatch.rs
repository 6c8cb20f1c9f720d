//! The dispatcher of a run, as a state machine. The caller performs each
//! action (pausing, launching an execution, waiting for one to end) and
//! reports back what happened; the dispatcher decides what comes next and
//! keeps the counts.

use crate::address::{parsed_url, with_default_scheme};
use crate::aggregate::{Aggregator, RunResult, Tally};
use crate::header::normal_names;
use crate::log::{entries_for, info_count};
use crate::outcome::{
    classify, meets_expectation, verdict_of, ExecutionOutcome, OutcomeView, Verdict, VerdictView,
};
use crate::request::{
    build_request, template_for, ConfigError, ConfigErrorView, RequestConfig, RequestTemplate,
    TemplateView,
};
use vstd::prelude::*;

verus! {

/// Where a run stands.
#[derive(Clone, Copy, Debug, PartialEq, Eq, Structural)]
pub enum Phase {
    /// No execution has been launched yet.
    NotStarted,
    /// An execution has been launched, and not every outcome is recorded.
    InProgress,
    /// Every execution has been launched and its outcome recorded.
    Completed,
}

/// What the caller is to do next.
#[derive(Clone, Copy, Debug, PartialEq, Eq, Structural)]
pub enum Action {
    /// Wait for this many milliseconds, then report `Event::PauseElapsed`.
    Pause(u32),
    /// Start one execution, then report `Event::Launched`.
    Launch,
    /// Wait for an execution to end, then report its `Event::Outcome`.
    Await,
    /// Nothing is left to do: report the result.
    Report,
}

/// What the caller reports back.
#[derive(Clone, Debug, PartialEq, Eq)]
pub enum Event {
    /// The pause before the next launch is over.
    PauseElapsed,
    /// One more execution has been started.
    Launched,
    /// An execution has ended with this outcome.
    Outcome(ExecutionOutcome),
}

/// What an event holds.
pub enum EventView {
    PauseElapsed,
    Launched,
    Outcome(OutcomeView),
}

impl View for Event {
    type V = EventView;

    open spec fn view(&self) -> EventView {
        match self {
            Event::PauseElapsed => EventView::PauseElapsed,
            Event::Launched => EventView::Launched,
            Event::Outcome(outcome) => EventView::Outcome(outcome@),
        }
    }
}

/// The state of a run.
pub struct RunState {
    /// The number of executions asked for.
    pub count: u32,
    /// The pause between two launches, in milliseconds.
    pub delay: u32,
    /// The status code that counts as a success.
    pub expected: u16,
    /// The number of executions launched so far.
    pub launched: nat,
    /// Whether the pause before the next launch has been taken.
    pub rested: bool,
    /// The number of pauses taken so far.
    pub pauses: nat,
    /// The outcomes recorded so far.
    pub tally: Tally,
}

impl RunState {
    /// The state of a run before anything has happened.
    pub open spec fn initial(count: u32, delay: u32, expected: u16) -> RunState {
        RunState {
            count,
            delay,
            expected,
            launched: 0,
            rested: false,
            pauses: 0,
            tally: Tally::empty(),
        }
    }

    /// The number of pauses that belong to the launches made so far: one
    /// between any two launches, and the one taken for the launch to come.
    pub open spec fn pauses_due(self) -> nat {
        if self.delay == 0 || self.launched == 0 {
            0
        } else if self.rested {
            self.launched
        } else {
            (self.launched - 1) as nat
        }
    }

    /// Whether the state is one that a run can be in: no more executions
    /// are launched than asked for, no more outcomes recorded than
    /// executions launched, and the launches were paced as asked.
    pub open spec fn wf(self) -> bool {
        &&& self.launched <= self.count
        &&& self.tally.total() <= self.launched
        &&& self.rested ==> self.delay > 0 && 0 < self.launched < self.count
        &&& self.pauses == self.pauses_due()
    }

    /// The number of executions launched whose outcome is not recorded yet.
    pub open spec fn in_flight(self) -> int {
        self.launched - self.tally.total()
    }

    /// Where the run stands.
    pub open spec fn phase(self) -> Phase {
        if self.launched == self.count && self.tally.total() == self.count {
            Phase::Completed
        } else if self.launched == 0 {
            Phase::NotStarted
        } else {
            Phase::InProgress
        }
    }

    /// What the caller is to do next. While executions remain to be
    /// launched: launch the next one, after a pause if a delay is set and
    /// an execution was launched before. Then: wait for outcomes until
    /// every execution is accounted for.
    pub open spec fn next_action(self) -> Action {
        if self.launched < self.count {
            if self.delay > 0 && self.launched > 0 && !self.rested {
                Action::Pause(self.delay)
            } else {
                Action::Launch
            }
        } else if self.tally.total() < self.count {
            Action::Await
        } else {
            Action::Report
        }
    }

    /// Whether `event` can happen in this state. A pause or a launch can
    /// only be reported when it was asked for; an outcome whenever an
    /// execution is in flight.
    pub open spec fn accepts(self, event: EventView) -> bool {
        match event {
            EventView::PauseElapsed => self.next_action() is Pause,
            EventView::Launched => self.next_action() is Launch,
            EventView::Outcome(_) => self.in_flight() > 0,
        }
    }

    /// The state after `event`. An event that cannot happen in this state
    /// leaves it as it is.
    pub open spec fn after(self, event: EventView) -> RunState {
        if !self.accepts(event) {
            self
        } else {
            match event {
                EventView::PauseElapsed => RunState {
                    rested: true,
                    pauses: self.pauses + 1,
                    ..self
                },
                EventView::Launched => RunState {
                    launched: self.launched + 1,
                    rested: false,
                    ..self
                },
                EventView::Outcome(outcome) => RunState {
                    tally: self.tally.record(verdict_of(outcome, self.expected)),
                    ..self
                },
            }
        }
    }

    /// The state after `events`, one after the other.
    pub open spec fn replay(self, events: Seq<EventView>) -> RunState
        decreases events.len(),
    {
        if events.len() == 0 {
            self
        } else {
            self.replay(events.drop_last()).after(events.last())
        }
    }

    /// The outcomes that are recorded while `events` happen one after the
    /// other, in the order of their recording.
    pub open spec fn recorded(self, events: Seq<EventView>) -> Seq<OutcomeView>
        decreases events.len(),
    {
        if events.len() == 0 {
            Seq::empty()
        } else {
            let earlier = self.recorded(events.drop_last());
            match events.last() {
                EventView::Outcome(outcome) => if self.replay(events.drop_last()).accepts(
                    events.last(),
                ) {
                    earlier.push(outcome)
                } else {
                    earlier
                },
                _ => earlier,
            }
        }
    }

    /// The steps that are left before the run is complete: the launches and
    /// the pauses still to come, and the outcomes still to be recorded.
    pub open spec fn steps_left(self) -> int {
        let launches = self.count - self.launched;
        let pauses = if self.delay == 0 || launches == 0 {
            0
        } else if self.launched == 0 {
            launches - 1
        } else if self.rested {
            launches - 1
        } else {
            launches
        };
        launches + pauses + (self.count - self.tally.total())
    }
}

/// The number of `outcomes` that are responses with the status `expected`.
pub open spec fn successes_among(outcomes: Seq<OutcomeView>, expected: u16) -> nat
    decreases outcomes.len(),
{
    if outcomes.len() == 0 {
        0
    } else {
        successes_among(outcomes.drop_last(), expected) + if meets_expectation(
            outcomes.last(),
            expected,
        ) {
            1nat
        } else {
            0nat
        }
    }
}

/// No event leads out of the states that a run can be in.
pub proof fn lemma_event_keeps_run_well_formed(state: RunState, event: EventView)
    requires
        state.wf(),
    ensures
        state.after(event).wf(),
        state.after(event).count == state.count,
        state.after(event).delay == state.delay,
        state.after(event).expected == state.expected,
{
}

/// No sequence of events leads out of the states that a run can be in.
pub proof fn lemma_replay_keeps_run_well_formed(state: RunState, events: Seq<EventView>)
    requires
        state.wf(),
    ensures
        state.replay(events).wf(),
        state.replay(events).count == state.count,
        state.replay(events).delay == state.delay,
        state.replay(events).expected == state.expected,
    decreases events.len(),
{
    if events.len() > 0 {
        lemma_replay_keeps_run_well_formed(state, events.drop_last());
        lemma_event_keeps_run_well_formed(state.replay(events.drop_last()), events.last());
    }
}

/// Whatever happens in a run and in whatever order, once the run is
/// complete its successes and failures add up to the number of executions
/// that were asked for.
pub proof fn lemma_completed_run_counts_every_execution(
    count: u32,
    delay: u32,
    expected: u16,
    events: Seq<EventView>,
)
    ensures
        ({
            let end = RunState::initial(count, delay, expected).replay(events);
            end.phase() is Completed ==> {
                &&& end.tally.successes + end.tally.failures == count
                &&& end.launched == count
                &&& end.in_flight() == 0
            }
        }),
{
    lemma_replay_keeps_run_well_formed(RunState::initial(count, delay, expected), events);
}

/// The verdicts on `outcomes`, in their order.
pub open spec fn verdicts_on(outcomes: Seq<OutcomeView>, expected: u16) -> Seq<VerdictView> {
    outcomes.map_values(|outcome: OutcomeView| verdict_of(outcome, expected))
}

/// The counters of a run are the tally of the verdicts on the outcomes
/// recorded: they say how many of these met the expected status and how
/// many did not. In a complete run there is one recorded outcome for each
/// execution asked for.
pub proof fn lemma_counters_match_recorded_outcomes(
    count: u32,
    delay: u32,
    expected: u16,
    events: Seq<EventView>,
)
    ensures
        ({
            let start = RunState::initial(count, delay, expected);
            let end = start.replay(events);
            let outcomes = start.recorded(events);
            &&& end.tally == Tally::of(verdicts_on(outcomes, expected))
            &&& end.tally.successes == successes_among(outcomes, expected)
            &&& end.tally.failures == outcomes.len() - successes_among(outcomes, expected)
            &&& end.phase() is Completed ==> outcomes.len() == count
        }),
    decreases events.len(),
{
    let start = RunState::initial(count, delay, expected);
    if events.len() > 0 {
        let earlier = events.drop_last();
        lemma_counters_match_recorded_outcomes(count, delay, expected, earlier);
        lemma_replay_keeps_run_well_formed(start, earlier);
        let before = start.replay(earlier);
        match events.last() {
            EventView::Outcome(outcome) => {
                if before.accepts(events.last()) {
                    let outcomes = start.recorded(events);
                    assert(outcomes.drop_last() =~= start.recorded(earlier));
                    assert(verdicts_on(outcomes, expected).drop_last() =~= verdicts_on(
                        start.recorded(earlier),
                        expected,
                    ));
                }
            },
            _ => {},
        }
    }
}

/// The log of a run holds one entry for each recorded outcome: as many at
/// level `INFO` as the run counts successes, and as many at level `ERROR`
/// as it counts failures. In a complete run these are as many entries as
/// executions were asked for.
pub proof fn lemma_log_levels_match_counters(
    count: u32,
    delay: u32,
    expected: u16,
    events: Seq<EventView>,
)
    ensures
        ({
            let start = RunState::initial(count, delay, expected);
            let end = start.replay(events);
            let entries = entries_for(start.recorded(events), expected);
            &&& info_count(entries) == end.tally.successes
            &&& entries.len() - info_count(entries) == end.tally.failures
            &&& end.phase() is Completed ==> entries.len() == count
        }),
{
    let start = RunState::initial(count, delay, expected);
    lemma_counters_match_recorded_outcomes(count, delay, expected, events);
    lemma_one_info_entry_per_success(start.recorded(events), expected);
}

/// Among the entries logged for `outcomes`, those at level `INFO` are as
/// many as the outcomes that met the expected status.
pub proof fn lemma_one_info_entry_per_success(outcomes: Seq<OutcomeView>, expected: u16)
    ensures
        entries_for(outcomes, expected).len() == outcomes.len(),
        info_count(entries_for(outcomes, expected)) == successes_among(outcomes, expected),
    decreases outcomes.len(),
{
    if outcomes.len() > 0 {
        lemma_one_info_entry_per_success(outcomes.drop_last(), expected);
        assert(entries_for(outcomes, expected).drop_last() =~= entries_for(
            outcomes.drop_last(),
            expected,
        ));
    }
}

/// The place of a phase in the course of a run.
pub open spec fn phase_rank(phase: Phase) -> int {
    match phase {
        Phase::NotStarted => 0,
        Phase::InProgress => 1,
        Phase::Completed => 2,
    }
}

/// A run only moves forward: from not started to in progress to completed.
/// A completed run stays as it is whatever is reported to it.
pub proof fn lemma_phase_only_advances(state: RunState, event: EventView)
    requires
        state.wf(),
    ensures
        phase_rank(state.phase()) <= phase_rank(state.after(event).phase()),
        state.phase() is Completed ==> state.after(event) == state,
{
}

/// A run that is not complete is never stuck: the event that its next
/// action calls for can happen, and only a complete run asks for the
/// report.
pub proof fn lemma_unfinished_run_can_advance(state: RunState)
    requires
        state.wf(),
    ensures
        state.next_action() is Report <==> state.phase() is Completed,
        state.next_action() is Pause ==> state.accepts(EventView::PauseElapsed),
        state.next_action() is Launch ==> state.accepts(EventView::Launched),
        state.next_action() is Await ==> forall|outcome: OutcomeView|
            #[trigger] state.accepts(EventView::Outcome(outcome)),
{
}

/// Every event that happens brings the run one step closer to its end, and
/// the run is complete exactly when no step is left. So a run ends after as
/// many events as `steps_left` says at its start.
pub proof fn lemma_each_event_is_one_step(state: RunState, event: EventView)
    requires
        state.wf(),
        state.accepts(event),
    ensures
        state.after(event).steps_left() == state.steps_left() - 1,
        state.steps_left() >= 1,
        state.after(event).steps_left() == 0 <==> state.after(event).phase() is Completed,
{
}

/// In a complete run with a delay, one pause was taken between any two
/// launches and none before the first: one less than there were launches.
pub proof fn lemma_completed_run_paused_between_launches(
    count: u32,
    delay: u32,
    expected: u16,
    events: Seq<EventView>,
)
    ensures
        ({
            let end = RunState::initial(count, delay, expected).replay(events);
            end.phase() is Completed ==> end.pauses == if delay > 0 && count > 0 {
                count - 1
            } else {
                0
            }
        }),
{
    lemma_replay_keeps_run_well_formed(RunState::initial(count, delay, expected), events);
}

/// The events of `timed`, without the times at which they were reported.
pub open spec fn untimed(timed: Seq<(EventView, nat)>) -> Seq<EventView> {
    timed.map_values(|entry: (EventView, nat)| entry.0)
}

/// The time at which the last of `timed` was reported; `start` where
/// nothing was reported yet.
pub open spec fn time_after(start: nat, timed: Seq<(EventView, nat)>) -> nat {
    if timed.len() == 0 {
        start
    } else {
        timed.last().1
    }
}

/// Whether the times in `timed`, in milliseconds, are such as a clock can
/// show for a run that begins in `state` at the time `start`: time does not
/// run backwards, and a pause that is reported to be over has lasted for
/// the delay at least.
pub open spec fn well_timed(state: RunState, start: nat, timed: Seq<(EventView, nat)>) -> bool
    decreases timed.len(),
{
    if timed.len() == 0 {
        true
    } else {
        let earlier = timed.drop_last();
        let event = timed.last().0;
        let at = timed.last().1;
        &&& well_timed(state, start, earlier)
        &&& time_after(start, earlier) <= at
        &&& event is PauseElapsed && state.replay(untimed(earlier)).accepts(event)
            ==> time_after(start, earlier) + state.delay <= at
    }
}

/// A run lasts as long as its pauses at least. So with a delay set, a
/// complete run has taken no less than the delay times the number of its
/// launches but one, however fast the executions were.
pub proof fn lemma_run_lasts_as_long_as_its_pauses(
    count: u32,
    delay: u32,
    expected: u16,
    start: nat,
    timed: Seq<(EventView, nat)>,
)
    requires
        well_timed(RunState::initial(count, delay, expected), start, timed),
    ensures
        ({
            let end = RunState::initial(count, delay, expected).replay(untimed(timed));
            let elapsed = time_after(start, timed) - start;
            &&& elapsed >= end.pauses * delay
            &&& end.phase() is Completed && delay > 0 && count > 0 ==> elapsed >= (count - 1)
                * delay
        }),
    decreases timed.len(),
{
    let begin = RunState::initial(count, delay, expected);
    lemma_replay_keeps_run_well_formed(begin, untimed(timed));
    if timed.len() > 0 {
        let earlier = timed.drop_last();
        lemma_run_lasts_as_long_as_its_pauses(count, delay, expected, start, earlier);
        lemma_replay_keeps_run_well_formed(begin, untimed(earlier));
        assert(untimed(timed).drop_last() =~= untimed(earlier));
        assert(untimed(timed).last() == timed.last().0);
        let before = begin.replay(untimed(earlier));
        let end = begin.replay(untimed(timed));
        assert(end == before.after(timed.last().0));
        if timed.last().0 is PauseElapsed && before.accepts(timed.last().0) {
            assert((before.pauses + 1) * delay == before.pauses * delay + delay)
                by (nonlinear_arith);
        }
    } else {
        assert(0 * delay == 0) by (nonlinear_arith);
    }
}

/// The dispatcher of one run: it owns the request template, decides what
/// is to be done next, and counts the outcomes.
#[derive(Clone, Debug)]
pub struct Dispatcher {
    template: RequestTemplate,
    count: u32,
    delay: u32,
    expected: u16,
    launched: u32,
    rested: bool,
    pauses: u32,
    aggregator: Aggregator,
}

impl View for Dispatcher {
    type V = RunState;

    closed spec fn view(&self) -> RunState {
        RunState {
            count: self.count,
            delay: self.delay,
            expected: self.expected,
            launched: self.launched as nat,
            rested: self.rested,
            pauses: self.pauses as nat,
            tally: self.aggregator@,
        }
    }
}

impl Dispatcher {
    /// What the template of the run holds.
    pub closed spec fn template_view(&self) -> TemplateView {
        self.template@
    }

    /// Whether the dispatcher is well formed: its state is one that a run
    /// can be in, and its template is well formed.
    pub closed spec fn wf(&self) -> bool {
        &&& self@.wf()
        &&& self.template.wf()
    }

    /// The dispatcher of a run that sends the request of `template` `count`
    /// times, pausing `delay` milliseconds between launches, and hopes for
    /// the status code `expected`.
    pub fn new(template: RequestTemplate, count: u32, delay: u32, expected: u16) -> (dispatcher:
        Dispatcher)
        requires
            template.wf(),
        ensures
            dispatcher.wf(),
            dispatcher@ == RunState::initial(count, delay, expected),
            dispatcher.template_view() == template@,
    {
        Dispatcher {
            template,
            count,
            delay,
            expected,
            launched: 0,
            rested: false,
            pauses: 0,
            aggregator: Aggregator::new(),
        }
    }

    /// Validates `config` and sets up its run. A configuration error means
    /// that there is no dispatcher, and so no execution.
    pub fn prepare(config: &RequestConfig) -> (prepared: Result<Dispatcher, ConfigError>)
        ensures
            match prepared {
                Ok(dispatcher) => {
                    &&& dispatcher.wf()
                    &&& dispatcher@ == RunState::initial(
                        config.count,
                        config.delay,
                        config.expected_code,
                    )
                    &&& Ok::<TemplateView, ConfigErrorView>(dispatcher.template_view())
                        == template_for(
                        config.header_lines(),
                        config.method,
                        config.body_text(),
                        parsed_url(with_default_scheme(config.addr@)),
                        normal_names(config.header_lines()),
                    )
                },
                Err(error) => Err::<TemplateView, ConfigErrorView>(error@) == template_for(
                    config.header_lines(),
                    config.method,
                    config.body_text(),
                    parsed_url(with_default_scheme(config.addr@)),
                    normal_names(config.header_lines()),
                ),
            },
    {
        match build_request(config) {
            Ok(template) => Ok(
                Dispatcher::new(template, config.count, config.delay, config.expected_code),
            ),
            Err(error) => Err(error),
        }
    }

    /// The template of the run.
    pub fn template(&self) -> (template: &RequestTemplate)
        ensures
            template@ == self.template_view(),
            self.wf() ==> template.wf(),
    {
        &self.template
    }

    /// The number of executions asked for.
    pub fn count(&self) -> (count: u32)
        ensures
            count == self@.count,
    {
        self.count
    }

    /// The pause between two launches, in milliseconds.
    pub fn delay(&self) -> (delay: u32)
        ensures
            delay == self@.delay,
    {
        self.delay
    }

    /// The status code that counts as a success.
    pub fn expected(&self) -> (expected: u16)
        ensures
            expected == self@.expected,
    {
        self.expected
    }

    /// The number of executions launched so far.
    pub fn launched(&self) -> (launched: u32)
        ensures
            launched == self@.launched,
    {
        self.launched
    }

    /// The number of pauses taken so far.
    pub fn pauses(&self) -> (pauses: u32)
        ensures
            pauses == self@.pauses,
    {
        self.pauses
    }

    /// The time spent in pauses so far, in milliseconds. Once the run is
    /// complete this is the delay times the number of launches but one: no
    /// run with a delay ends sooner.
    pub fn paused_ms(&self) -> (total: u64)
        ensures
            total == self@.pauses * self@.delay,
            self.wf() && self@.phase() is Completed ==> total == if self@.delay > 0 && self@.count
                > 0 {
                (self@.count - 1) * self@.delay
            } else {
                0
            },
    {
        assert(self.pauses as u64 * self.delay as u64 <= u64::MAX) by (nonlinear_arith)
            requires
                self.pauses <= u32::MAX,
                self.delay <= u32::MAX,
        ;
        proof {
            if self.wf() && self@.phase() is Completed {
                if self.delay > 0 && self.count > 0 {
                    assert(self.pauses == self.count - 1);
                } else {
                    assert(self.pauses == 0);
                    assert(self.pauses * self.delay == 0) by (nonlinear_arith)
                        requires
                            self.pauses == 0,
                    ;
                }
            }
        }
        self.pauses as u64 * self.delay as u64
    }

    /// The successes and the failures counted so far.
    pub fn snapshot(&self) -> (counts: (u64, u64))
        ensures
            counts.0 == self@.tally.successes,
            counts.1 == self@.tally.failures,
    {
        self.aggregator.snapshot()
    }

    /// Where the run stands.
    pub fn phase(&self) -> (phase: Phase)
        requires
            self.wf(),
        ensures
            phase == self@.phase(),
    {
        let recorded = self.aggregator.recorded();
        if self.launched == self.count && recorded == self.count as u64 {
            Phase::Completed
        } else if self.launched == 0 {
            Phase::NotStarted
        } else {
            Phase::InProgress
        }
    }

    /// What the caller is to do next.
    pub fn next_action(&self) -> (action: Action)
        requires
            self.wf(),
        ensures
            action == self@.next_action(),
    {
        if self.launched < self.count {
            if self.delay > 0 && self.launched > 0 && !self.rested {
                Action::Pause(self.delay)
            } else {
                Action::Launch
            }
        } else if self.aggregator.recorded() < self.count as u64 {
            Action::Await
        } else {
            Action::Report
        }
    }

    /// Notes that the pause before the next launch is over. Returns whether
    /// a pause was due; if none was, nothing changes.
    pub fn pause_elapsed(&mut self) -> (accepted: bool)
        requires
            old(self).wf(),
        ensures
            final(self).wf(),
            final(self).template_view() == old(self).template_view(),
            accepted == old(self)@.accepts(EventView::PauseElapsed),
            final(self)@ == old(self)@.after(EventView::PauseElapsed),
    {
        match self.next_action() {
            Action::Pause(_) => {
                self.rested = true;
                self.pauses = self.pauses + 1;
                true
            },
            _ => false,
        }
    }

    /// Notes that one more execution has been started. Returns whether a
    /// launch was due; if none was, nothing changes.
    pub fn execution_launched(&mut self) -> (accepted: bool)
        requires
            old(self).wf(),
        ensures
            final(self).wf(),
            final(self).template_view() == old(self).template_view(),
            accepted == old(self)@.accepts(EventView::Launched),
            final(self)@ == old(self)@.after(EventView::Launched),
    {
        match self.next_action() {
            Action::Launch => {
                self.launched = self.launched + 1;
                self.rested = false;
                true
            },
            _ => false,
        }
    }

    /// Classifies the outcome of an execution that has ended and counts
    /// the verdict, which is returned. Where no execution is in flight
    /// there is no verdict and nothing changes.
    pub fn record_outcome(&mut self, outcome: &ExecutionOutcome) -> (verdict: Option<Verdict>)
        requires
            old(self).wf(),
        ensures
            final(self).wf(),
            final(self).template_view() == old(self).template_view(),
            verdict is Some <==> old(self)@.accepts(EventView::Outcome(outcome@)),
            verdict matches Some(v) ==> v@ == verdict_of(outcome@, old(self)@.expected),
            final(self)@ == old(self)@.after(EventView::Outcome(outcome@)),
    {
        if self.aggregator.recorded() < self.launched as u64 {
            let verdict = classify(outcome, self.expected);
            self.aggregator.record(&verdict);
            Some(verdict)
        } else {
            None
        }
    }

    /// Takes note of `event` and says what the caller is to do next. An
    /// event that cannot happen in the present state changes nothing.
    pub fn step(&mut self, event: &Event) -> (action: Action)
        requires
            old(self).wf(),
        ensures
            final(self).wf(),
            final(self).template_view() == old(self).template_view(),
            final(self)@ == old(self)@.after(event@),
            action == final(self)@.next_action(),
    {
        match event {
            Event::PauseElapsed => {
                self.pause_elapsed();
            },
            Event::Launched => {
                self.execution_launched();
            },
            Event::Outcome(outcome) => {
                self.record_outcome(outcome);
            },
        }
        self.next_action()
    }

    /// The result of the run, once it is complete: the counts, which add up
    /// to the number of executions asked for, and the elapsed time as the
    /// caller measured it. There is no result before that.
    pub fn report(&self, elapsed_ms: u128) -> (result: Option<RunResult>)
        requires
            self.wf(),
        ensures
            result is Some <==> self@.phase() is Completed,
            result matches Some(r) ==> {
                &&& r.successes == self@.tally.successes
                &&& r.failures == self@.tally.failures
                &&& r.successes + r.failures == self@.count
                &&& r.elapsed_ms == elapsed_ms
            },
    {
        match self.phase() {
            Phase::Completed => {
                let (successes, failures) = self.aggregator.snapshot();
                Some(RunResult { successes, failures, elapsed_ms })
            },
            _ => None,
        }
    }
}

} // verus!
