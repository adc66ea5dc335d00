//! What holds of the probing actor as a whole.

use crate::net_report::actor::{
    Action, ActorView, Inputs, ProbeCycle, ProbeEvent, QadConns, Step, Wakeup, MAX_RELAYS,
};
use crate::net_report::latencies::RelayUrl;
use crate::net_report::qad::{AddrFamily, QadProbeReport};
use crate::net_report::report::ReportView;
use crate::net_report::request::{IfState, ProbeRequest, ProbeScope};
use crate::time::Instant;
use vstd::prelude::*;

verus! {

/// Whether a cycle in flight still waits for a probe, and whether only a
/// `Refresh` waits for its end.
pub open spec fn cycle_is_live(actor: ActorView) -> bool {
    actor.cycle matches Some(c) ==> {
        &&& c.pending > 0
        &&& c.rerun matches Some(request) ==> request.scope == ProbeScope::Refresh
    }
}

/// A cycle is in flight only while it waits for a probe, and only `Refresh`
/// requests wait for its end: every step keeps this.
pub proof fn cycle_stays_live(s: Step, wakeup: Wakeup, inp: Inputs)
    requires
        cycle_is_live(s.actor),
    ensures
        cycle_is_live(s.wake(wakeup, inp).actor),
{
    match wakeup {
        Wakeup::Request(request) => {
            cycle_starts_live(s, request, inp);
            cycle_starts_live(s.abort_cycle(), request, inp);
        },
        Wakeup::Event(event) => match event {
            ProbeEvent::QadResult(family, outcome) => {
                let taken = s.qad_result(family, outcome);
                assert(taken.actor.cycle matches Some(c) ==> c.rerun == s.actor.cycle->0.rerun);
            },
            _ => {},
        },
        _ => {},
    }
}

/// A cycle starts live.
proof fn cycle_starts_live(s: Step, request: ProbeRequest, inp: Inputs)
    ensures
        cycle_is_live(s.start_cycle(request, inp).actor),
{
    assert(s.launched(request, inp).actor.cycle matches Some(c) && c.rerun is None);
}

/// Whether none of the published reports is empty.
pub open spec fn no_empty_report(actions: Seq<Action<ReportView>>) -> bool {
    forall|i: int|
        0 <= i < actions.len() ==> (#[trigger] actions[i] matches Action::Publish(report)
            ==> report.has_data())
}

/// An empty report is never published, whatever happens.
pub proof fn empty_report_is_never_published(s: Step, wakeup: Wakeup, inp: Inputs)
    requires
        no_empty_report(s.actions),
    ensures
        no_empty_report(s.wake(wakeup, inp).actions),
{
    match wakeup {
        Wakeup::Request(request) => {
            launch_publishes_nothing_empty(s, request, inp);
            launch_publishes_nothing_empty(s.abort_cycle(), request, inp);
        },
        Wakeup::Event(event) => match event {
            ProbeEvent::QadResult(family, outcome) => {
                let taken = s.qad_result(family, outcome);
                assert(no_empty_report(taken.actions));
                assert(no_empty_report(taken.publish().actions));
            },
            ProbeEvent::Https(outcome) => {
                let taken = s.https_result(outcome, inp.relays@);
                assert(no_empty_report(taken.actions));
                assert(no_empty_report(taken.publish().actions));
            },
            ProbeEvent::CaptivePortal(outcome) => {
                let taken = s.captive_portal_result(outcome);
                assert(no_empty_report(taken.publish().actions));
            },
            ProbeEvent::QadObservation(family, r) => {},
        },
        _ => {},
    }
}

/// To start a cycle with all its probes publishes no empty report.
proof fn launch_publishes_nothing_empty(s: Step, request: ProbeRequest, inp: Inputs)
    requires
        no_empty_report(s.actions),
    ensures
        no_empty_report(s.launched(request, inp).actions),
{
    let scope = s.actor.reports.next_scope(
        request.scope,
        inp.now,
        s.actor.config.timeouts.full_report_interval,
    );
    let set_up = s.set_up(scope, inp.now);
    assert(no_empty_report(set_up.actions));
    let with_qad = set_up.spawn_qad_probes(request.if_state, inp);
    assert(no_empty_report(with_qad.actions));
    assert(no_empty_report(with_qad.spawn_https_probes(inp).actions));
}

/// Whether no report is published.
pub open spec fn no_report(actions: Seq<Action<ReportView>>) -> bool {
    forall|i: int| 0 <= i < actions.len() ==> !(#[trigger] actions[i] is Publish)
}

/// The first report of a cycle waits until every family that the cycle probes
/// is determined: until then no event leads to a report. (The first-report
/// deadline and the end of the cycle do.)
pub proof fn first_report_waits_for_every_family(
    s: Step,
    event: ProbeEvent,
    relays: Seq<RelayUrl>,
    now: Instant,
)
    requires
        no_report(s.actions),
        s.actor.cycle is Some,
        !s.actor.cycle->0.published,
        s.handle_event(event, relays, now).actor.cycle matches Some(c) && !c.qad.settled(),
    ensures
        no_report(s.handle_event(event, relays, now).actions),
        !s.handle_event(event, relays, now).actor.cycle->0.published,
{
}

/// When the first-report deadline passes, what is there is published, however
/// many families are undetermined, unless nothing was found yet.
pub proof fn report_deadline_publishes(s: Step)
    requires
        s.actor.report.has_data(),
    ensures
        s.on_report_deadline().actions == s.actions.push(Action::Publish(s.actor.report)),
{
}

/// When the abort deadline passes, the cycle is over.
pub proof fn abort_deadline_ends_the_cycle(s: Step, now: Instant)
    ensures
        s.on_abort_deadline(now).actor.cycle is None,
{
}

/// Whether an event is the final result of a probe.
pub open spec fn is_final(event: ProbeEvent) -> bool {
    !(event is QadObservation)
}

/// A cycle ends with the final result of the last probe that it waits for,
/// and no sooner. Any other final result only brings the end one closer.
pub proof fn cycle_ends_with_its_last_probe(s: Step, event: ProbeEvent, relays: Seq<RelayUrl>, now: Instant)
    requires
        s.actor.cycle is Some,
        s.actor.cycle->0.pending > 0,
        is_final(event),
    ensures
        ({
            let next = s.handle_event(event, relays, now).actor.cycle;
            let pending = s.actor.cycle->0.pending;
            &&& next is None <==> pending == 1
            &&& next matches Some(c) ==> c.pending == pending - 1
        }),
{
}

/// A `Refresh` request in the middle of a cycle disturbs nothing: it waits,
/// with the latest interface state, for the end of the cycle.
pub proof fn refresh_waits(s: Step, request: ProbeRequest, inp: Inputs)
    requires
        cycle_is_live(s.actor),
        s.actor.cycle is Some,
        request.scope == ProbeScope::Refresh,
        inp.relays@.len() > 0,
    ensures
        s.handle_request(request, inp) == s.with_cycle(
            Some(ProbeCycle { rerun: Some(request), ..s.actor.cycle->0 }),
        ),
{
}

/// A request that waits for the end of a cycle is not lost: it is handled
/// when the cycle ends.
pub proof fn waiting_request_is_handled(s: Step, request: ProbeRequest, now: Instant)
    requires
        s.actor.cycle is Some,
        s.actor.cycle->0.rerun == Some(request),
    ensures
        s.finish_cycle(now).actions.last() == Action::<ReportView>::Rerun(request),
        s.finish_cycle(now).actor.cycle is None,
{
}

/// A `Full` request throws away the open QAD connections. It starts over: the
/// probes of a cycle in flight are aborted, what they sent is dropped, and
/// what waited for the end of that cycle with it.
pub proof fn full_starts_over(s: Step, request: ProbeRequest, inp: Inputs)
    requires
        request.scope == ProbeScope::Full,
        inp.relays@.len() > 0,
    ensures
        ({
            let next = s.handle_request(request, inp);
            let n = s.actions.len() as int;
            &&& next.actor.qad_conns == QadConns::none()
            &&& next.actor.cycle matches Some(c) ==> c.started == inp.now && c.rerun is None
                && !c.published
            &&& s.actor.cycle is None ==> next.actions[n] == Action::<ReportView>::CloseQadConns
            &&& s.actor.cycle is Some ==> {
                &&& next.actions[n] == Action::<ReportView>::AbortProbes
                &&& next.actions[n + 1] == Action::<ReportView>::DropEvents
                &&& next.actions[n + 2] == Action::<ReportView>::CloseQadConns
            }
        }),
{
}

/// Of the connections that answer for a family, the first is kept and every
/// later one closed.
pub proof fn first_connection_is_kept(s: Step, family: AddrFamily, r: QadProbeReport)
    ensures
        ({
            let next = s.qad_success(family, r);
            let n = s.actions.len() as int;
            match s.actor.qad_conns.of(family) {
                None => {
                    &&& next.actor.qad_conns.of(family) == Some(r)
                    &&& next.actions[n] == Action::<ReportView>::KeepQadConn(family)
                },
                Some(kept) => {
                    &&& next.actor.qad_conns.of(family) == Some(kept)
                    &&& next.actions[n] == Action::<ReportView>::CloseNewQadConn(family)
                },
            }
        }),
{
}

/// Between cycles, what the kept connection of a family observes is in the
/// report at once, and published.
pub proof fn observation_updates_the_report(
    s: Step,
    family: AddrFamily,
    r: QadProbeReport,
    relays: Seq<RelayUrl>,
    now: Instant,
)
    requires
        s.actor.cycle is None,
        s.actor.qad_conns.of(family) is Some,
        s.actor.qad_conns.of(family)->0.relay_url == r.relay_url,
    ensures
        ({
            let next = s.handle_event(ProbeEvent::QadObservation(family, r), relays, now);
            &&& next.actor.report.global(family) == Some(r.addr)
            &&& next.actions == s.actions.push(Action::Publish(next.actor.report))
        }),
{
}

/// An observation counts only if it comes from the connection that was kept
/// for the family.
pub proof fn stray_observation_is_ignored(
    s: Step,
    family: AddrFamily,
    r: QadProbeReport,
    relays: Seq<RelayUrl>,
    now: Instant,
)
    requires
        s.actor.qad_conns.of(family) matches Some(last) ==> last.relay_url != r.relay_url,
    ensures
        s.handle_event(ProbeEvent::QadObservation(family, r), relays, now) == s,
{
}

/// A cycle that is not `Full` keeps every QAD connection that is still open,
/// and starts no probes of its family.
pub proof fn open_connections_are_kept(
    s: Step,
    request: ProbeRequest,
    inp: Inputs,
    family: AddrFamily,
)
    requires
        s.actor.reports.next_scope(
            request.scope,
            inp.now,
            s.actor.config.timeouts.full_report_interval,
        ) == ProbeScope::Refresh,
        s.actor.qad_conns.of(family) is Some,
        !inp.closed(family),
    ensures
        s.start_cycle(request, inp).actor.qad_conns.of(family) == s.actor.qad_conns.of(family),
        s.start_cycle(request, inp).actor.qad_count(
            request.if_state,
            family,
            inp.relays@.len(),
        ) == 0,
{
}

/// A `Full` cycle looks for a captive portal if it should, and a `Refresh`
/// does not.
pub proof fn captive_portal_is_checked_in_full_cycles(
    s: Step,
    request: ProbeRequest,
    inp: Inputs,
    i: int,
)
    ensures
        ({
            let next = s.launched(request, inp).actions;
            let scope = s.actor.reports.next_scope(
                request.scope,
                inp.now,
                s.actor.config.timeouts.full_report_interval,
            );
            &&& scope == ProbeScope::Full && s.actor.config.captive_portal_check
                ==> next.last() is SpawnCaptivePortal
            &&& scope == ProbeScope::Refresh && s.actions.len() <= i < next.len() ==> !(
            next[i] is SpawnCaptivePortal)
        }),
{
    let scope = s.actor.reports.next_scope(
        request.scope,
        inp.now,
        s.actor.config.timeouts.full_report_interval,
    );
    let set_up = s.set_up(scope, inp.now);
    let with_qad = set_up.spawn_qad_probes(request.if_state, inp);
    let with_https = with_qad.spawn_https_probes(inp);
    let n = s.actions.len();
    assert(scope == ProbeScope::Refresh && n <= i < set_up.actions.len() ==> !(
    set_up.actions[i] is SpawnCaptivePortal));
    assert(scope == ProbeScope::Refresh && n <= i < with_qad.actions.len() ==> !(
    with_qad.actions[i] is SpawnCaptivePortal));
    assert(scope == ProbeScope::Refresh && n <= i < with_https.actions.len() ==> !(
    with_https.actions[i] is SpawnCaptivePortal));
}

/// A `Full` cycle probes every family that an interface offers, at each of
/// the first five relays.
pub proof fn full_cycle_probes_every_family(s: Step, if_state: IfState, inp: Inputs, now: Instant)
    requires
        s.actor.config.qad,
    ensures
        ({
            let next = s.set_up(ProbeScope::Full, now).spawn_qad_probes(if_state, inp).actor;
            let relays = inp.relays@.len();
            let each = if relays < MAX_RELAYS {
                relays
            } else {
                MAX_RELAYS as nat
            };
            &&& if_state.have_v4 ==> next.qad_count(if_state, AddrFamily::V4, relays) == each
            &&& if_state.have_v6 ==> next.qad_count(if_state, AddrFamily::V6, relays) == each
        }),
{
}

/// Whether an action starts a probe.
pub open spec fn starts_probe(action: Action<ReportView>) -> bool {
    action is SpawnQad || action is SpawnHttps || action is SpawnCaptivePortal
}

/// How many of the actions start a probe.
pub open spec fn probes_started(actions: Seq<Action<ReportView>>) -> nat
    decreases actions.len(),
{
    if actions.len() == 0 {
        0
    } else {
        probes_started(actions.drop_last()) + if starts_probe(actions.last()) {
            1nat
        } else {
            0
        }
    }
}

/// One more action counts by itself.
proof fn started_by_one_more(actions: Seq<Action<ReportView>>, action: Action<ReportView>)
    ensures
        probes_started(actions.push(action)) == probes_started(actions) + if starts_probe(action) {
            1nat
        } else {
            0
        },
{
    assert(actions.push(action).drop_last() =~= actions);
}

/// Actions that all start a probe count by their number.
proof fn started_by_all(actions: Seq<Action<ReportView>>, more: Seq<Action<ReportView>>)
    requires
        forall|i: int| 0 <= i < more.len() ==> starts_probe(#[trigger] more[i]),
    ensures
        probes_started(actions + more) == probes_started(actions) + more.len(),
    decreases more.len(),
{
    if more.len() == 0 {
        assert(actions + more =~= actions);
    } else {
        started_by_all(actions, more.drop_last());
        started_by_one_more(actions + more.drop_last(), more.last());
        assert((actions + more.drop_last()).push(more.last()) =~= actions + more);
    }
}

/// To set up a cycle starts no probe.
proof fn set_up_starts_none(s: Step, scope: ProbeScope, now: Instant)
    ensures
        probes_started(s.set_up(scope, now).actions) == probes_started(s.actions),
{
    let a = s.actions.push(Action::CloseQadConns);
    let b = a.push(Action::CountFullCycle);
    started_by_one_more(s.actions, Action::CloseQadConns);
    started_by_one_more(a, Action::CountFullCycle);
    let c = if scope == ProbeScope::Full {
        b
    } else {
        s.actions
    };
    started_by_one_more(c, Action::CountCycle);
    started_by_one_more(c.push(Action::CountCycle), Action::RenewHttpsCancel);
}

/// As many QAD probes are started as are counted per family.
proof fn qad_probes_are_counted(s: Step, if_state: IfState, inp: Inputs)
    ensures
        ({
            let next = s.spawn_qad_probes(if_state, inp);
            let relays = inp.relays@.len();
            probes_started(next.actions) == probes_started(s.actions) + next.actor.qad_count(
                if_state,
                AddrFamily::V4,
                relays,
            ) + next.actor.qad_count(if_state, AddrFamily::V6, relays)
        }),
{
    if s.actor.config.qad {
        let a = s.check_qad_conn(AddrFamily::V4, inp.v4_closed);
        let b = a.check_qad_conn(AddrFamily::V6, inp.v6_closed);
        started_by_one_more(s.actions, Action::ForgetQadConn(AddrFamily::V4));
        started_by_one_more(a.actions, Action::ForgetQadConn(AddrFamily::V6));
        started_by_one_more(b.actions, Action::RenewQadCancels);
        let c = b.did(Action::RenewQadCancels);
        started_by_all(c.actions, c.actor.qad_probes(if_state, inp.relays@));
    }
}

/// A cycle is launched with as many probes as it waits for.
proof fn launched_probes_are_counted(s: Step, request: ProbeRequest, inp: Inputs)
    requires
        inp.https_initial@.len() + 2 * MAX_RELAYS + 1 <= usize::MAX,
        inp.https_with_last@.len() + 2 * MAX_RELAYS + 1 <= usize::MAX,
    ensures
        s.launched(request, inp).actor.cycle is Some,
        s.launched(request, inp).actor.cycle->0.rerun is None,
        probes_started(s.launched(request, inp).actions) == probes_started(s.actions) + s.launched(
            request,
            inp,
        ).actor.cycle->0.pending,
{
    let now = inp.now;
    let scope = s.actor.reports.next_scope(
        request.scope,
        now,
        s.actor.config.timeouts.full_report_interval,
    );
    let set_up = s.set_up(scope, now);
    set_up_starts_none(s, scope, now);
    let with_qad = set_up.spawn_qad_probes(request.if_state, inp);
    qad_probes_are_counted(set_up, request.if_state, inp);
    let https = with_qad.actor.https_probes(with_qad.actor.https_plan(inp));
    started_by_all(with_qad.actions, https);
    let with_https = with_qad.spawn_https_probes(inp);
    started_by_one_more(with_https.actions, Action::RenewCaptivePortalCancel);
    started_by_one_more(
        with_https.actions.push(Action::RenewCaptivePortalCancel),
        with_https.spawn_captive_portal().actions.last(),
    );
}

/// A cycle that starts waits for exactly the probes that it started; if it
/// started none, it is over at once.
pub proof fn cycle_waits_for_the_probes_it_started(s: Step, request: ProbeRequest, inp: Inputs)
    requires
        inp.https_initial@.len() + 2 * MAX_RELAYS + 1 <= usize::MAX,
        inp.https_with_last@.len() + 2 * MAX_RELAYS + 1 <= usize::MAX,
    ensures
        ({
            let next = s.start_cycle(request, inp);
            let started = probes_started(next.actions) - probes_started(s.actions);
            match next.actor.cycle {
                Some(c) => started == c.pending && c.pending > 0,
                None => started == 0,
            }
        }),
{
    let launched = s.launched(request, inp);
    launched_probes_are_counted(s, request, inp);
    let report = launched.actor.reports.stamped(launched.actor.report, inp.now);
    started_by_one_more(launched.actions, Action::Publish(report));
}

} // verus!
