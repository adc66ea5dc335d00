//! What a request brings about: which probes a cycle starts, and from what.

use crate::net_report::actor::{Action, ActorView, Inputs, Step, Wakeup, MAX_RELAYS};
use crate::net_report::effects::{calls_for, calls_for_at, did_all_calls_for, still_calls_for};
use crate::net_report::history::HistoryView;
use crate::net_report::qad::{AddrFamily, QadFamily, QadProbeReport};
use crate::net_report::report::ReportView;
use crate::net_report::request::{IfState, ProbeRequest, ProbeScope};
use crate::time::{Duration, Instant};
use vstd::prelude::*;

verus! {

/// The QAD connection of a family that a cycle finds open: none if it starts
/// from nothing or if the connection has closed.
pub open spec fn found_open(v: ActorView, inp: Inputs, family: AddrFamily, full: bool) -> Option<
    QadProbeReport,
> {
    let (conn, closed) = match family {
        AddrFamily::V4 => (v.qad_conns.v4, inp.v4_closed),
        AddrFamily::V6 => (v.qad_conns.v6, inp.v6_closed),
    };
    if full || v.config.qad && closed {
        None
    } else {
        conn
    }
}

/// Whether a cycle probes a family by QAD: there is a client to do so, an
/// interface offers the family, and no connection of it is open.
pub open spec fn probes_family(
    v: ActorView,
    if_state: IfState,
    inp: Inputs,
    family: AddrFamily,
    full: bool,
) -> bool {
    &&& v.config.qad
    &&& found_open(v, inp, family, full) is None
    &&& match family {
        AddrFamily::V4 => if_state.have_v4,
        AddrFamily::V6 => if_state.have_v6,
    }
}

/// Whether a request starts a cycle of its own: there are relays, and none is
/// in flight or the request starts over.
pub open spec fn starts_cycle(v: ActorView, request: ProbeRequest, inp: Inputs) -> bool {
    inp.relays@.len() > 0 && (v.cycle is None || request.scope == ProbeScope::Full)
}

/// Whether the cycle that a request starts is `Full`.
pub open spec fn starts_full(v: ActorView, request: ProbeRequest, now: Instant) -> bool {
    v.reports.next_scope(request.scope, now, v.config.timeouts.full_report_interval)
        == ProbeScope::Full
}

/// What extends an extension extends the start.
proof fn longer(a: Step, b: Step, c: Step)
    requires
        a.actions.is_prefix_of(b.actions),
        b.actions.is_prefix_of(c.actions),
    ensures
        a.actions.is_prefix_of(c.actions),
{
    assert forall|i: int| 0 <= i < a.actions.len() implies a.actions[i] == c.actions[i] by {
        assert(a.actions[i] == b.actions[i]);
        assert(b.actions[i] == c.actions[i]);
    }
    assert(a.actions =~= c.actions.subrange(0, a.actions.len() as int));
}

/// To set up a cycle takes nothing back.
proof fn set_up_extends(s: Step, scope: ProbeScope, now: Instant)
    ensures
        s.actions.is_prefix_of(s.set_up(scope, now).actions),
{
}

/// The scope of the cycle that a request starts.
pub open spec fn scope_of(full: bool) -> ProbeScope {
    if full {
        ProbeScope::Full
    } else {
        ProbeScope::Refresh
    }
}

/// To check the open connections takes nothing back.
proof fn checking_extends(s: Step, inp: Inputs)
    ensures
        ({
            let a = s.check_qad_conn(AddrFamily::V4, inp.v4_closed);
            let b = a.check_qad_conn(AddrFamily::V6, inp.v6_closed);
            &&& s.actions.is_prefix_of(a.actions)
            &&& a.actions.is_prefix_of(b.actions)
            &&& b.actions.is_prefix_of(b.did(Action::RenewQadCancels).actions)
            &&& s.actions.is_prefix_of(b.did(Action::RenewQadCancels).actions)
        }),
{
    let a = s.check_qad_conn(AddrFamily::V4, inp.v4_closed);
    let b = a.check_qad_conn(AddrFamily::V6, inp.v6_closed);
    longer(s, a, b);
    longer(s, b, b.did(Action::RenewQadCancels));
}

/// To start QAD probes takes nothing back.
proof fn qad_extends(s: Step, if_state: IfState, inp: Inputs)
    ensures
        s.actions.is_prefix_of(s.spawn_qad_probes(if_state, inp).actions),
{
    if s.actor.config.qad {
        let a = s.check_qad_conn(AddrFamily::V4, inp.v4_closed);
        let b = a.check_qad_conn(AddrFamily::V6, inp.v6_closed);
        let c = b.did(Action::RenewQadCancels);
        checking_extends(s, inp);
        let d = c.did_all(c.actor.qad_probes(if_state, inp.relays@));
        assert(c.actions.is_prefix_of(d.actions));
        longer(s, c, d);
    }
}

/// To launch a cycle takes nothing back, at any stage.
proof fn launch_extends(s: Step, request: ProbeRequest, inp: Inputs)
    ensures
        ({
            let scope = scope_of(starts_full(s.actor, request, inp.now));
            let set_up = s.set_up(scope, inp.now);
            let with_qad = set_up.spawn_qad_probes(request.if_state, inp);
            let with_https = with_qad.spawn_https_probes(inp);
            let launched = s.launched(request, inp);
            let next = launched.advance(inp.now);
            &&& s.actions.is_prefix_of(set_up.actions)
            &&& s.actions.is_prefix_of(with_qad.actions)
            &&& s.actions.is_prefix_of(with_https.actions)
            &&& s.actions.is_prefix_of(launched.actions)
            &&& set_up.actions.is_prefix_of(next.actions)
            &&& with_qad.actions.is_prefix_of(next.actions)
            &&& with_https.actions.is_prefix_of(next.actions)
            &&& launched.actions.is_prefix_of(next.actions)
        }),
{
    let scope = scope_of(starts_full(s.actor, request, inp.now));
    let set_up = s.set_up(scope, inp.now);
    let with_qad = set_up.spawn_qad_probes(request.if_state, inp);
    let with_https = with_qad.spawn_https_probes(inp);
    let launched = s.launched(request, inp);
    let next = launched.advance(inp.now);
    set_up_extends(s, scope, inp.now);
    qad_extends(set_up, request.if_state, inp);
    assert(with_qad.actions.is_prefix_of(with_https.actions));
    assert(with_https.actions.is_prefix_of(launched.actions));
    assert(launched.actions.is_prefix_of(next.actions));
    longer(s, set_up, with_qad);
    longer(s, with_qad, with_https);
    longer(s, with_https, launched);
    longer(with_https, launched, next);
    longer(with_qad, with_https, next);
    longer(set_up, with_qad, next);
}

/// Where a request starts a cycle from.
proof fn started_from(s: Step, request: ProbeRequest, inp: Inputs) -> (from: Step)
    requires
        starts_cycle(s.actor, request, inp),
    ensures
        s.wake(Wakeup::Request(request), inp) == from.launched(request, inp).advance(inp.now),
        s.actions.is_prefix_of(from.actions),
        from.actor == (ActorView { cycle: None, ..s.actor }),
        from == if s.actor.cycle is Some {
            s.abort_cycle()
        } else {
            s
        },
{
    if s.actor.cycle is Some {
        s.abort_cycle()
    } else {
        s
    }
}

/// The open connections after a cycle has checked them.
proof fn checked_connections(s: Step, if_state: IfState, inp: Inputs, full: bool, now: Instant)
    ensures
        ({
            let scope = if full {
                ProbeScope::Full
            } else {
                ProbeScope::Refresh
            };
            let set_up = s.set_up(scope, now);
            let next = set_up.spawn_qad_probes(if_state, inp);
            &&& next.actor.config == s.actor.config
            &&& next.actor.qad_conns.v4 == found_open(s.actor, inp, AddrFamily::V4, full)
            &&& next.actor.qad_conns.v6 == found_open(s.actor, inp, AddrFamily::V6, full)
            &&& next.actor.reports == set_up.actor.reports
            &&& s.actor.config.qad ==> {
                &&& next.actor.qad_conns.v4 matches Some(last) ==> next.actor.report.global_v4
                    == Some(last.addr) && next.actor.report.udp_v4
                &&& next.actor.qad_conns.v6 matches Some(last) ==> next.actor.report.global_v6
                    == Some(last.addr) && next.actor.report.udp_v6
            }
        }),
{
}

/// A cycle that starts sends a QAD probe over each family that it probes to
/// each of the first relays, one after the other with the stagger between
/// them.
#[verifier::rlimit(40)]
pub proof fn cycle_starts_qad_probes(
    s: Step,
    request: ProbeRequest,
    inp: Inputs,
    family: AddrFamily,
    k: int,
)
    requires
        s.actor.config.valid(),
        starts_cycle(s.actor, request, inp),
        0 <= k < inp.relays@.len(),
        k < MAX_RELAYS,
    ensures
        ({
            let full = starts_full(s.actor, request, inp.now);
            let both = probes_family(s.actor, request.if_state, inp, AddrFamily::V4, full)
                && probes_family(s.actor, request.if_state, inp, AddrFamily::V6, full);
            let place = if !both {
                k
            } else if family == AddrFamily::V4 {
                2 * k
            } else {
                2 * k + 1
            };
            probes_family(s.actor, request.if_state, inp, family, full) ==> calls_for(
                s,
                s.wake(Wakeup::Request(request), inp),
                Action::SpawnQad {
                    family,
                    relay: inp.relays@[k],
                    delay: (s.actor.config.qad_stagger * place) as Duration,
                    timeout: s.actor.config.timeouts.qad_probe,
                },
            )
        }),
{
    let full = starts_full(s.actor, request, inp.now);
    if probes_family(s.actor, request.if_state, inp, family, full) {
        let from = started_from(s, request, inp);
        let next = s.wake(Wakeup::Request(request), inp);
        let scope = if full {
            ProbeScope::Full
        } else {
            ProbeScope::Refresh
        };
        checked_connections(from, request.if_state, inp, full, inp.now);
        let set_up = from.set_up(scope, inp.now);
        let with_qad = set_up.spawn_qad_probes(request.if_state, inp);
        let checked = set_up.check_qad_conn(AddrFamily::V4, inp.v4_closed).check_qad_conn(
            AddrFamily::V6,
            inp.v6_closed,
        ).did(Action::RenewQadCancels);
        let all = checked.actor.qad_probes(request.if_state, inp.relays@);
        let v4 = checked.actor.needs_qad(request.if_state, AddrFamily::V4);
        let v6 = checked.actor.needs_qad(request.if_state, AddrFamily::V6);
        let place = if !(v4 && v6) {
            k
        } else if family == AddrFamily::V4 {
            2 * k
        } else {
            2 * k + 1
        };
        assert(with_qad == checked.did_all(all));
        assert(0 <= place < all.len());
        assert(all[place] == checked.actor.qad_probe(request.if_state, inp.relays@, place));
        did_all_calls_for(checked, all, place);
        launch_extends(from, request, inp);
        longer(s, from, set_up);
        checking_extends(set_up, inp);
        longer(s, set_up, checked);
        still_calls_for(s, checked, with_qad, all[place]);
        still_calls_for(s, with_qad, next, all[place]);
    }
}

/// A cycle that starts runs every HTTPS probe of its plan: that by the last
/// report if there is one and the cycle does not start from nothing.
pub proof fn cycle_starts_https_probes(s: Step, request: ProbeRequest, inp: Inputs, j: int)
    requires
        starts_cycle(s.actor, request, inp),
    ensures
        ({
            let full = starts_full(s.actor, request, inp.now);
            let plan = if full || s.actor.reports.last is None {
                inp.https_initial@
            } else {
                inp.https_with_last@
            };
            0 <= j < plan.len() ==> calls_for(
                s,
                s.wake(Wakeup::Request(request), inp),
                Action::SpawnHttps {
                    relay: plan[j].relay,
                    delay: plan[j].delay,
                    timeout: s.actor.config.timeouts.https_probe,
                },
            )
        }),
{
    let full = starts_full(s.actor, request, inp.now);
    let from = started_from(s, request, inp);
    let next = s.wake(Wakeup::Request(request), inp);
    let scope = if full {
        ProbeScope::Full
    } else {
        ProbeScope::Refresh
    };
    checked_connections(from, request.if_state, inp, full, inp.now);
    let with_qad = from.set_up(scope, inp.now).spawn_qad_probes(request.if_state, inp);
    let plan = with_qad.actor.https_plan(inp);
    let all = with_qad.actor.https_probes(plan);
    if 0 <= j < plan.len() {
        let with_https = with_qad.spawn_https_probes(inp);
        did_all_calls_for(with_qad, all, j);
        launch_extends(from, request, inp);
        longer(s, from, with_qad);
        longer(s, from, with_https);
        still_calls_for(s, with_qad, with_https, all[j]);
        still_calls_for(s, with_https, next, all[j]);
    }
}

/// A cycle that starts is counted. One in flight is aborted before, and what its
/// probes sent is dropped.
pub proof fn cycle_is_counted(s: Step, request: ProbeRequest, inp: Inputs)
    requires
        starts_cycle(s.actor, request, inp),
    ensures
        ({
            let next = s.wake(Wakeup::Request(request), inp);
            &&& calls_for(s, next, Action::CountCycle)
            &&& calls_for(s, next, Action::RenewHttpsCancel)
            &&& s.actor.cycle is Some ==> calls_for(s, next, Action::AbortProbes) && calls_for(
                s,
                next,
                Action::DropEvents,
            )
        }),
{
    let full = starts_full(s.actor, request, inp.now);
    let from = started_from(s, request, inp);
    let next = s.wake(Wakeup::Request(request), inp);
    let set_up = from.set_up(scope_of(full), inp.now);
    let n = s.actions.len() as int;
    launch_extends(from, request, inp);
    longer(s, from, set_up);
    let m = set_up.actions.len();
    assert(set_up.actions[m - 2] == Action::<ReportView>::CountCycle);
    assert(set_up.actions[m - 1] == Action::<ReportView>::RenewHttpsCancel);
    calls_for_at(s, set_up, m - 2);
    still_calls_for(s, set_up, next, Action::CountCycle);
    calls_for_at(s, set_up, m - 1);
    still_calls_for(s, set_up, next, Action::RenewHttpsCancel);
    if s.actor.cycle is Some {
        longer(from, set_up, next);
        assert(from.actions[n] == Action::<ReportView>::AbortProbes);
        assert(from.actions[n + 1] == Action::<ReportView>::DropEvents);
        calls_for_at(s, from, n);
        still_calls_for(s, from, next, Action::AbortProbes);
        calls_for_at(s, from, n + 1);
        still_calls_for(s, from, next, Action::DropEvents);
    }
}

/// A `Full` cycle closes the open QAD connections, and looks for a captive
/// portal, if it should, after its delay.
pub proof fn full_cycle_starts_from_nothing(s: Step, request: ProbeRequest, inp: Inputs)
    requires
        starts_cycle(s.actor, request, inp),
        starts_full(s.actor, request, inp.now),
    ensures
        ({
            let next = s.wake(Wakeup::Request(request), inp);
            &&& calls_for(s, next, Action::CloseQadConns)
            &&& calls_for(s, next, Action::CountFullCycle)
            &&& s.actor.config.captive_portal_check ==> calls_for(
                s,
                next,
                Action::SpawnCaptivePortal {
                    preferred: None,
                    delay: s.actor.config.timeouts.captive_portal_delay,
                    timeout: s.actor.config.timeouts.captive_portal,
                },
            )
        }),
{
    let from = started_from(s, request, inp);
    let next = s.wake(Wakeup::Request(request), inp);
    let set_up = from.set_up(ProbeScope::Full, inp.now);
    let launched = from.launched(request, inp);
    let b = from.actions.len() as int;
    launch_extends(from, request, inp);
    longer(s, from, set_up);
    longer(s, from, launched);
    assert(set_up.actions[b] == Action::<ReportView>::CloseQadConns);
    assert(set_up.actions[b + 1] == Action::<ReportView>::CountFullCycle);
    calls_for_at(s, set_up, b);
    still_calls_for(s, set_up, next, Action::CloseQadConns);
    calls_for_at(s, set_up, b + 1);
    still_calls_for(s, set_up, next, Action::CountFullCycle);
    if s.actor.config.captive_portal_check {
        checked_connections(from, request.if_state, inp, true, inp.now);
        let portal = launched.actions.last();
        calls_for_at(s, launched, launched.actions.len() - 1);
        still_calls_for(s, launched, next, portal);
    }
}

/// A cycle that does not start from nothing lets go of the QAD connections
/// that have closed. Any cycle makes QAD probes cancellable anew.
pub proof fn closed_connections_are_let_go(s: Step, request: ProbeRequest, inp: Inputs)
    requires
        starts_cycle(s.actor, request, inp),
        s.actor.config.qad,
    ensures
        ({
            let full = starts_full(s.actor, request, inp.now);
            let next = s.wake(Wakeup::Request(request), inp);
            &&& !full && s.actor.qad_conns.v4 is Some && inp.v4_closed ==> calls_for(
                s,
                next,
                Action::ForgetQadConn(AddrFamily::V4),
            )
            &&& !full && s.actor.qad_conns.v6 is Some && inp.v6_closed ==> calls_for(
                s,
                next,
                Action::ForgetQadConn(AddrFamily::V6),
            )
            &&& calls_for(s, next, Action::RenewQadCancels)
        }),
{
    let full = starts_full(s.actor, request, inp.now);
    let from = started_from(s, request, inp);
    let next = s.wake(Wakeup::Request(request), inp);
    let set_up = from.set_up(scope_of(full), inp.now);
    let with_qad = set_up.spawn_qad_probes(request.if_state, inp);
    let a = set_up.check_qad_conn(AddrFamily::V4, inp.v4_closed);
    let c = a.check_qad_conn(AddrFamily::V6, inp.v6_closed);
    let d = c.did(Action::RenewQadCancels);
    launch_extends(from, request, inp);
    checking_extends(set_up, inp);
    longer(s, from, set_up);
    longer(s, set_up, a);
    longer(s, a, c);
    longer(s, c, d);
    assert(with_qad == d.did_all(d.actor.qad_probes(request.if_state, inp.relays@)));
    assert(d.actions.is_prefix_of(with_qad.actions));
    longer(d, with_qad, next);
    longer(c, d, next);
    longer(a, c, next);
    calls_for_at(s, d, d.actions.len() - 1);
    still_calls_for(s, d, next, Action::RenewQadCancels);
    if !full && s.actor.qad_conns.v4 is Some && inp.v4_closed {
        calls_for_at(s, a, a.actions.len() - 1);
        still_calls_for(s, a, next, Action::ForgetQadConn(AddrFamily::V4));
    }
    if !full && s.actor.qad_conns.v6 is Some && inp.v6_closed {
        calls_for_at(s, c, c.actions.len() - 1);
        still_calls_for(s, c, next, Action::ForgetQadConn(AddrFamily::V6));
    }
}

/// How many probes a family that a cycle probes is sent.
pub open spec fn probes_each(relays: nat) -> nat {
    if relays < MAX_RELAYS {
        relays
    } else {
        MAX_RELAYS as nat
    }
}

/// To move on keeps the open connections and the public addresses, and a cycle
/// that waits for a probe as it is.
proof fn advancing_keeps(s: Step, now: Instant)
    ensures
        ({
            let next = s.advance(now);
            &&& next.actor.config == s.actor.config
            &&& next.actor.qad_conns == s.actor.qad_conns
            &&& next.actor.report.global_v4 == s.actor.report.global_v4
            &&& next.actor.report.global_v6 == s.actor.report.global_v6
            &&& next.actor.report.udp_v4 == s.actor.report.udp_v4
            &&& next.actor.report.udp_v6 == s.actor.report.udp_v6
            &&& next.actor.cycle is Some ==> next == s
            &&& s.actor.cycle is Some && s.actor.cycle->0.pending > 0 ==> next == s
        }),
{
}

/// How a cycle is launched.
#[verifier::rlimit(40)]
proof fn launched_state(s: Step, request: ProbeRequest, inp: Inputs)
    requires
        inp.fits(s.actor.config.timeouts),
        inp.relays@.len() > 0,
    ensures
        ({
            let full = starts_full(s.actor, request, inp.now);
            let next = s.launched(request, inp).actor;
            let relays = inp.relays@.len();
            let v4 = probes_family(s.actor, request.if_state, inp, AddrFamily::V4, full);
            let v6 = probes_family(s.actor, request.if_state, inp, AddrFamily::V6, full);
            &&& next.cycle matches Some(c) && {
                &&& c.started == inp.now
                &&& !c.published
                &&& c.rerun is None
                &&& c.report_deadline == Some(
                    (inp.now + s.actor.config.timeouts.first_report) as Instant,
                )
                &&& c.abort_deadline == Some((inp.now + s.actor.config.timeouts.abort) as Instant)
                &&& c.qad.v4 == QadFamily {
                    probing: v4,
                    determined: false,
                    outstanding: if v4 {
                        probes_each(relays) as usize
                    } else {
                        0
                    },
                }
                &&& c.qad.v6 == QadFamily {
                    probing: v6,
                    determined: false,
                    outstanding: if v6 {
                        probes_each(relays) as usize
                    } else {
                        0
                    },
                }
                &&& v4 || v6 ==> c.pending > 0
            }
            &&& next.reports == s.set_up(scope_of(full), inp.now).actor.reports
            &&& next.qad_conns.v4 == found_open(s.actor, inp, AddrFamily::V4, full)
            &&& next.qad_conns.v6 == found_open(s.actor, inp, AddrFamily::V6, full)
            &&& s.actor.config.qad && next.qad_conns.v4 is Some ==> next.report.global_v4 == Some(
                next.qad_conns.v4->0.addr,
            ) && next.report.udp_v4
            &&& s.actor.config.qad && next.qad_conns.v6 is Some ==> next.report.global_v6 == Some(
                next.qad_conns.v6->0.addr,
            ) && next.report.udp_v6
            &&& next.config == s.actor.config
        }),
{
    let full = starts_full(s.actor, request, inp.now);
    let relays = inp.relays@.len();
    checked_connections(s, request.if_state, inp, full, inp.now);
    let with_qad = s.set_up(scope_of(full), inp.now).spawn_qad_probes(request.if_state, inp);
    let launched = s.launched(request, inp);
    assert(launched.actor == (ActorView { cycle: launched.actor.cycle, ..with_qad.actor }));
    assert(with_qad.actor.qad_count(request.if_state, AddrFamily::V4, relays)
        == if probes_family(s.actor, request.if_state, inp, AddrFamily::V4, full) {
        probes_each(relays)
    } else {
        0
    });
    assert(with_qad.actor.qad_count(request.if_state, AddrFamily::V6, relays)
        == if probes_family(s.actor, request.if_state, inp, AddrFamily::V6, full) {
        probes_each(relays)
    } else {
        0
    });
}

/// A cycle that is in flight after a request started now. It has its two
/// deadlines, has published nothing, and waits for each family that it probes.
/// The connections that it found open are kept, and what they last observed is
/// in the report. After a `Full` one the next need not be, and it is the last
/// one that was.
#[verifier::rlimit(40)]
pub proof fn cycle_is_in_flight(s: Step, request: ProbeRequest, inp: Inputs)
    requires
        starts_cycle(s.actor, request, inp),
        inp.fits(s.actor.config.timeouts),
    ensures
        ({
            let full = starts_full(s.actor, request, inp.now);
            let next = s.wake(Wakeup::Request(request), inp).actor;
            let relays = inp.relays@.len();
            let v4 = probes_family(s.actor, request.if_state, inp, AddrFamily::V4, full);
            let v6 = probes_family(s.actor, request.if_state, inp, AddrFamily::V6, full);
            &&& next.cycle matches Some(c) ==> {
                &&& c.started == inp.now
                &&& !c.published
                &&& c.rerun is None
                &&& c.report_deadline == Some(
                    (inp.now + s.actor.config.timeouts.first_report) as Instant,
                )
                &&& c.abort_deadline == Some((inp.now + s.actor.config.timeouts.abort) as Instant)
                &&& c.qad.v4 == QadFamily {
                    probing: v4,
                    determined: false,
                    outstanding: if v4 {
                        probes_each(relays) as usize
                    } else {
                        0
                    },
                }
                &&& c.qad.v6 == QadFamily {
                    probing: v6,
                    determined: false,
                    outstanding: if v6 {
                        probes_each(relays) as usize
                    } else {
                        0
                    },
                }
                &&& next.reports == (HistoryView {
                    last: if full {
                        None
                    } else {
                        s.actor.reports.last
                    },
                    next_full: s.actor.reports.next_full && !full,
                    last_full: if full {
                        inp.now
                    } else {
                        s.actor.reports.last_full
                    },
                    ..s.actor.reports
                })
            }
            &&& v4 || v6 ==> next.cycle is Some
            &&& next.qad_conns.v4 == found_open(s.actor, inp, AddrFamily::V4, full)
            &&& next.qad_conns.v6 == found_open(s.actor, inp, AddrFamily::V6, full)
            &&& s.actor.config.qad && next.qad_conns.v4 is Some ==> next.report.global_v4 == Some(
                next.qad_conns.v4->0.addr,
            ) && next.report.udp_v4
            &&& s.actor.config.qad && next.qad_conns.v6 is Some ==> next.report.global_v6 == Some(
                next.qad_conns.v6->0.addr,
            ) && next.report.udp_v6
            &&& next.config == s.actor.config
        }),
{
    let from = started_from(s, request, inp);
    launched_state(from, request, inp);
    advancing_keeps(from.launched(request, inp), inp.now);
}

/// Without relays a request does nothing.
pub proof fn nothing_is_probed_without_relays(s: Step, request: ProbeRequest, inp: Inputs)
    requires
        inp.relays@.len() == 0,
    ensures
        s.wake(Wakeup::Request(request), inp) == s,
{
}

} // verus!
