//! The reconnect supervisor: an unbounded cycle of connect attempts, each
//! failure backed off exponentially, each success resetting the backoff and
//! running one session — which always ends in a failure that starts the next
//! cycle. The host performs connects, sleeps and sends; this module fixes
//! what every cycle must do and in what order.

use vstd::prelude::*;
use crate::backoff::BackoffState;
use crate::message::ItemModel;
use crate::message::StreamItem;
use crate::message::items_model;
use crate::request::RequestModel;
use crate::request::SubscriptionRequest;
use crate::request::request_model;
use crate::request::spec_subscription_request;
use crate::request::subscription_request;
use crate::session::SessionModel;
use crate::session::SessionOutcome;
use crate::session::events_model;
use crate::session::run_session;
use crate::session::spec_session;

verus! {

/// What one connect attempt came to: a failure (with its description), or a
/// connection whose session then drew the given inbound sequence.
pub enum ConnectOutcome {
    Failed(String),
    Connected(Vec<StreamItem>),
}

/// Mathematical image of a [`ConnectOutcome`].
#[verifier::ext_equal]
pub enum OutcomeModel {
    Failed(Seq<char>),
    Connected(Seq<ItemModel>),
}

pub open spec fn outcome_model(o: ConnectOutcome) -> OutcomeModel {
    match o {
        ConnectOutcome::Failed(d) => OutcomeModel::Failed(d@),
        ConnectOutcome::Connected(items) => OutcomeModel::Connected(items_model(items@)),
    }
}

pub open spec fn outcomes_model(s: Seq<ConnectOutcome>) -> Seq<OutcomeModel> {
    s.map_values(|o: ConnectOutcome| outcome_model(o))
}

/// One observable act of the supervisor, in order.
#[derive(PartialEq, Eq, Debug)]
pub enum SupervisorEvent {
    /// A connect attempt begins.
    Attempting,
    /// The attempt failed; the description is logged.
    ConnectFailed(String),
    /// The attempt succeeded.
    Connected,
    /// The session sent its subscription request.
    SessionStarted(SubscriptionRequest),
    /// The session ran to its failure; everything it did is inside.
    SessionRan(SessionOutcome),
    /// The supervisor slept this many milliseconds before the next cycle.
    SleptMs(u64),
}

/// Mathematical image of a [`SupervisorEvent`].
#[verifier::ext_equal]
pub enum SupEventModel {
    Attempting,
    ConnectFailed(Seq<char>),
    Connected,
    SessionStarted(RequestModel),
    SessionRan(SessionModel),
    SleptMs(u64),
}

pub open spec fn sup_event_model(e: SupervisorEvent) -> SupEventModel {
    match e {
        SupervisorEvent::Attempting => SupEventModel::Attempting,
        SupervisorEvent::ConnectFailed(d) => SupEventModel::ConnectFailed(d@),
        SupervisorEvent::Connected => SupEventModel::Connected,
        SupervisorEvent::SessionStarted(r) => SupEventModel::SessionStarted(request_model(r)),
        SupervisorEvent::SessionRan(o) => SupEventModel::SessionRan(
            SessionModel { events: events_model(o.events@), failure: o.failure },
        ),
        SupervisorEvent::SleptMs(d) => SupEventModel::SleptMs(d),
    }
}

pub open spec fn sup_events_model(s: Seq<SupervisorEvent>) -> Seq<SupEventModel> {
    s.map_values(|e: SupervisorEvent| sup_event_model(e))
}

/// The events of one cycle. A failed connect is logged and slept over with
/// the current delay. A successful connect resets the backoff, sends the full
/// subscription request, runs the session to its failure, and sleeps the
/// initial delay.
pub open spec fn spec_cycle_events(o: OutcomeModel, b: BackoffState) -> Seq<SupEventModel> {
    match o {
        OutcomeModel::Failed(d) => seq![
            SupEventModel::Attempting,
            SupEventModel::ConnectFailed(d),
            SupEventModel::SleptMs(b.current_ms),
        ],
        OutcomeModel::Connected(items) => seq![
            SupEventModel::Attempting,
            SupEventModel::Connected,
            SupEventModel::SessionStarted(spec_subscription_request()),
            SupEventModel::SessionRan(spec_session(items)),
            SupEventModel::SleptMs(b.spec_reset().current_ms),
        ],
    }
}

/// The backoff schedule after one cycle: advanced on failure; reset, then
/// advanced once for the session's own failure, on success.
pub open spec fn spec_cycle_next(o: OutcomeModel, b: BackoffState) -> BackoffState {
    match o {
        OutcomeModel::Failed(_) => b.spec_advanced(),
        OutcomeModel::Connected(_) => b.spec_reset().spec_advanced(),
    }
}

/// The whole observable behaviour of a supervisor run over a finite schedule
/// of connect outcomes, and the backoff state it leaves behind.
#[verifier::ext_equal]
pub struct SupervisorModel {
    pub events: Seq<SupEventModel>,
    pub schedule: BackoffState,
}

pub open spec fn spec_supervisor(outs: Seq<OutcomeModel>, b: BackoffState) -> SupervisorModel
    decreases outs.len(),
{
    if outs.len() == 0 {
        SupervisorModel { events: Seq::empty(), schedule: b }
    } else {
        let rest = spec_supervisor(outs.drop_first(), spec_cycle_next(outs[0], b));
        SupervisorModel {
            events: spec_cycle_events(outs[0], b) + rest.events,
            schedule: rest.schedule,
        }
    }
}

/// The backoff schedule after the first `i` cycles.
pub open spec fn spec_state_after(outs: Seq<OutcomeModel>, b: BackoffState, i: int) -> BackoffState
    decreases i,
{
    if i <= 0 {
        b
    } else {
        spec_cycle_next(outs[i - 1], spec_state_after(outs, b, i - 1))
    }
}

/// The events of the first `i` cycles.
pub open spec fn spec_events_upto(outs: Seq<OutcomeModel>, b: BackoffState, i: int) -> Seq<
    SupEventModel,
>
    decreases i,
{
    if i <= 0 {
        Seq::empty()
    } else {
        spec_events_upto(outs, b, i - 1) + spec_cycle_events(
            outs[i - 1],
            spec_state_after(outs, b, i - 1),
        )
    }
}

proof fn lemma_upto_front(outs: Seq<OutcomeModel>, b: BackoffState, i: int)
    requires
        1 <= i <= outs.len(),
    ensures
        spec_state_after(outs, b, i) == spec_state_after(
            outs.drop_first(),
            spec_cycle_next(outs[0], b),
            i - 1,
        ),
        spec_events_upto(outs, b, i) == spec_cycle_events(outs[0], b) + spec_events_upto(
            outs.drop_first(),
            spec_cycle_next(outs[0], b),
            i - 1,
        ),
    decreases i,
{
    if i == 1 {
        assert(spec_events_upto(outs, b, 0) =~= Seq::<SupEventModel>::empty());
        assert(spec_events_upto(outs.drop_first(), spec_cycle_next(outs[0], b), 0)
            =~= Seq::<SupEventModel>::empty());
        assert(spec_events_upto(outs, b, 1) =~= spec_cycle_events(outs[0], b)
            + spec_events_upto(outs.drop_first(), spec_cycle_next(outs[0], b), 0));
    } else {
        lemma_upto_front(outs, b, i - 1);
        assert(outs.drop_first()[i - 2] == outs[i - 1]);
        assert(spec_events_upto(outs, b, i) =~= spec_cycle_events(outs[0], b)
            + spec_events_upto(outs.drop_first(), spec_cycle_next(outs[0], b), i - 1));
    }
}

/// A supervisor run splits at any cycle count `i`: the first `i` cycles'
/// events come first, and the rest runs on the remaining outcomes from the
/// schedule state the first `i` cycles left.
pub proof fn lemma_supervisor_decompose(outs: Seq<OutcomeModel>, b: BackoffState, i: int)
    requires
        0 <= i <= outs.len(),
    ensures
        spec_supervisor(outs, b).events == spec_events_upto(outs, b, i) + spec_supervisor(
            outs.skip(i),
            spec_state_after(outs, b, i),
        ).events,
        spec_supervisor(outs, b).schedule == spec_supervisor(
            outs.skip(i),
            spec_state_after(outs, b, i),
        ).schedule,
    decreases i,
{
    if i == 0 {
        assert(outs.skip(0) =~= outs);
        assert(spec_events_upto(outs, b, 0) + spec_supervisor(outs, b).events =~= spec_supervisor(
            outs,
            b,
        ).events);
    } else {
        let rest = outs.drop_first();
        let nb = spec_cycle_next(outs[0], b);
        lemma_supervisor_decompose(rest, nb, i - 1);
        lemma_upto_front(outs, b, i);
        assert(rest.skip(i - 1) =~= outs.skip(i));
        assert(spec_supervisor(outs, b).events =~= spec_events_upto(outs, b, i) + spec_supervisor(
            outs.skip(i),
            spec_state_after(outs, b, i),
        ).events);
    }
}

/// Run the supervisor over a finite schedule of connect outcomes, threading
/// the backoff state through explicitly. The real supervisor repeats this
/// cycle without end; any finite window of it behaves exactly like this run.
pub fn run_supervisor(outcomes: &Vec<ConnectOutcome>, schedule: &mut BackoffState) -> (events: Vec<
    SupervisorEvent,
>)
    requires
        old(schedule).wf(),
    ensures
        sup_events_model(events@) == spec_supervisor(
            outcomes_model(outcomes@),
            *old(schedule),
        ).events,
        *final(schedule) == spec_supervisor(outcomes_model(outcomes@), *old(schedule)).schedule,
        final(schedule).wf(),
{
    let ghost om = outcomes_model(outcomes@);
    let ghost b0 = *schedule;
    let mut events: Vec<SupervisorEvent> = Vec::new();
    let mut i: usize = 0;
    while i < outcomes.len()
        invariant
            0 <= i <= outcomes@.len(),
            om == outcomes_model(outcomes@),
            om.len() == outcomes@.len(),
            b0.wf(),
            schedule.wf(),
            *schedule == spec_state_after(om, b0, i as int),
            sup_events_model(events@) == spec_events_upto(om, b0, i as int),
        decreases outcomes@.len() - i,
    {
        proof {
            assert(om[i as int] == outcome_model(outcomes@[i as int]));
        }
        match &outcomes[i] {
            ConnectOutcome::Failed(d) => {
                events.push(SupervisorEvent::Attempting);
                events.push(SupervisorEvent::ConnectFailed(d.clone()));
                let delay = schedule.delay_ms();
                events.push(SupervisorEvent::SleptMs(delay));
                schedule.advance();
            },
            ConnectOutcome::Connected(items) => {
                events.push(SupervisorEvent::Attempting);
                events.push(SupervisorEvent::Connected);
                schedule.reset();
                let req = subscription_request();
                events.push(SupervisorEvent::SessionStarted(req));
                let out = run_session(items);
                events.push(SupervisorEvent::SessionRan(out));
                let delay = schedule.delay_ms();
                events.push(SupervisorEvent::SleptMs(delay));
                schedule.advance();
            },
        }
        proof {
            assert(sup_events_model(events@) =~= spec_events_upto(om, b0, i as int + 1));
        }
        i = i + 1;
    }
    proof {
        lemma_supervisor_decompose(om, b0, om.len() as int);
        assert(om.skip(om.len() as int).len() == 0);
        assert(sup_events_model(events@) =~= spec_supervisor(om, b0).events);
    }
    events
}

/// Idempotent resubscription: wherever a session start appears in a
/// supervisor run, it carries the one full subscription request — no partial
/// or resumed subscription state survives an earlier failed session.
pub proof fn lemma_full_request_every_session(outs: Seq<OutcomeModel>, b: BackoffState, k: int)
    requires
        0 <= k < spec_supervisor(outs, b).events.len(),
        spec_supervisor(outs, b).events[k] matches SupEventModel::SessionStarted(_),
    ensures
        spec_supervisor(outs, b).events[k] == SupEventModel::SessionStarted(
            spec_subscription_request(),
        ),
    decreases outs.len(),
{
    if outs.len() == 0 {
    } else {
        let head = spec_cycle_events(outs[0], b);
        let rest = spec_supervisor(outs.drop_first(), spec_cycle_next(outs[0], b));
        if k < head.len() {
            assert(spec_supervisor(outs, b).events[k] == head[k]);
        } else {
            assert(spec_supervisor(outs, b).events[k] == rest.events[k - head.len()]);
            lemma_full_request_every_session(
                outs.drop_first(),
                spec_cycle_next(outs[0], b),
                k - head.len(),
            );
        }
    }
}

proof fn lemma_failure_prefix(outs: Seq<OutcomeModel>, b: BackoffState, i: int)
    requires
        0 <= i <= outs.len(),
        forall|j: int| 0 <= j < i ==> (#[trigger] outs[j]) matches OutcomeModel::Failed(_),
    ensures
        spec_events_upto(outs, b, i).len() == 3 * i,
        spec_state_after(outs, b, i) == b.spec_advanced_times(i as nat),
    decreases i,
{
    if i > 0 {
        lemma_failure_prefix(outs, b, i - 1);
    }
}

/// Across any run of consecutive connect failures followed by one success:
/// each failure sleeps the then-current delay, those delays strictly increase
/// while below the cap and never exceed it, the success resets the schedule
/// before its session runs, and so the sleep after that session's own failure
/// is back at the initial delay.
pub proof fn lemma_failures_then_success(outs: Seq<OutcomeModel>, b: BackoffState)
    requires
        b.wf(),
        outs.len() >= 1,
        forall|j: int| 0 <= j < outs.len() - 1 ==> (#[trigger] outs[j]) matches OutcomeModel::Failed(_),
        outs[outs.len() - 1] matches OutcomeModel::Connected(_),
    ensures
        spec_supervisor(outs, b).events.len() == 3 * (outs.len() - 1) + 5,
        forall|j: int| 0 <= j < outs.len() - 1 ==> spec_supervisor(outs, b).events[3 * j + 2]
            == SupEventModel::SleptMs((#[trigger] b.spec_advanced_times(j as nat)).current_ms),
        forall|j: int| 0 <= j < outs.len() - 1 ==> (#[trigger] b.spec_advanced_times(
            j as nat,
        )).current_ms <= b.cap_ms,
        forall|j: int|
            (0 <= j < outs.len() - 2 && (#[trigger] b.spec_advanced_times(j as nat)).current_ms
                < b.cap_ms) ==> b.spec_advanced_times((j + 1) as nat).current_ms
                > b.spec_advanced_times(j as nat).current_ms,
        spec_supervisor(outs, b).events.last() == SupEventModel::SleptMs(b.initial_ms),
{
    let n = outs.len() as int;
    let ev = spec_supervisor(outs, b).events;
    assert forall|j: int| 0 <= j < n - 1 implies ev[3 * j + 2] == SupEventModel::SleptMs(
        (#[trigger] b.spec_advanced_times(j as nat)).current_ms,
    ) by {
        lemma_supervisor_decompose(outs, b, j);
        lemma_failure_prefix(outs, b, j);
        let st = spec_state_after(outs, b, j);
        let tail = outs.skip(j);
        assert(tail[0] == outs[j]);
        assert(spec_supervisor(tail, st).events[2] == SupEventModel::SleptMs(st.current_ms));
        assert(ev[3 * j + 2] == spec_supervisor(tail, st).events[2]);
    }
    assert forall|j: int| 0 <= j < n - 1 implies (#[trigger] b.spec_advanced_times(
        j as nat,
    )).current_ms <= b.cap_ms by {
        crate::backoff::lemma_backoff_schedule(b, j as nat);
    }
    assert forall|j: int|
        (0 <= j < n - 2 && (#[trigger] b.spec_advanced_times(j as nat)).current_ms
            < b.cap_ms) implies b.spec_advanced_times((j + 1) as nat).current_ms
        > b.spec_advanced_times(j as nat).current_ms by {
        crate::backoff::lemma_backoff_schedule(b, j as nat);
        assert((j as nat) + 1 == (j + 1) as nat);
    }
    lemma_supervisor_decompose(outs, b, n - 1);
    lemma_failure_prefix(outs, b, n - 1);
    crate::backoff::lemma_backoff_schedule(b, (n - 1) as nat);
    let st = spec_state_after(outs, b, n - 1);
    let tail = outs.skip(n - 1);
    assert(tail[0] == outs[n - 1]);
    assert(tail.drop_first().len() == 0);
    assert(spec_supervisor(tail.drop_first(), spec_cycle_next(tail[0], st)).events
        =~= Seq::<SupEventModel>::empty());
    assert(spec_supervisor(tail, st).events =~= spec_cycle_events(outs[n - 1], st));
    assert(st.initial_ms == b.initial_ms);
    assert(st.spec_reset().current_ms == b.initial_ms);
    assert(ev.len() == 3 * (n - 1) + 5);
    assert(ev.last() == spec_cycle_events(outs[n - 1], st).last());
}

} // verus!
