//! What the probes bring about: what becomes of the report when a result comes
//! in, what is published, and what is kept of the reports.

use crate::addr::SocketAddr;
use crate::net_report::actor::{
    is_sampled, Action, ActorView, Inputs, ProbeCycle, ProbeEvent, QadConns, Step, Wakeup,
};
use crate::net_report::history::{
    current_latency, fastest_of_first, is_fastest, recent_best, HistoryView, MAX_AGE,
};
use crate::net_report::latencies::{
    is_first_sample_of, is_sample_of, with_sample, LatencySample, Probe, RelayUrl,
};
use crate::net_report::qad::{AddrFamily, ProbeOutcome, QadFamily, QadProbeReport};
use crate::net_report::report::{HttpsProbeReport, ReportView};
use crate::net_report::request::{ProbeRequest, ProbeScope};
use crate::time::{Duration, Instant};
use vstd::prelude::*;

verus! {

/// Whether what is known of the mapping after a relay saw `addr` follows from
/// what was known and from the public address that was known: another address
/// says that the mapping varies, the same one that it does not unless it is
/// known to, and a first one says nothing.
pub open spec fn mapping_follows(
    known: Option<bool>,
    global: Option<SocketAddr>,
    addr: SocketAddr,
    now: Option<bool>,
) -> bool {
    &&& global is Some && global != Some(addr) ==> now == Some(true)
    &&& global == Some(addr) && known is None ==> now == Some(false)
    &&& global == Some(addr) && known is Some ==> now == known
    &&& global is None ==> now == known
}

/// Whether samples say of a probe to a relay that it took no longer than `l`.
pub open spec fn took_at_most(
    s: Seq<LatencySample>,
    probe: Probe,
    url: RelayUrl,
    l: Duration,
) -> bool {
    exists|i: int| #[trigger] is_sample_of(s, i, probe, url) && s[i].latency <= l
}

/// A sample that is taken in counts, and leaves the samples of other probes
/// and of other relays as they were. No sample becomes slower.
pub proof fn sample_counts(s: Seq<LatencySample>, x: LatencySample, i: int)
    ensures
        took_at_most(with_sample(s, x), x.probe, x.url, x.latency),
        0 <= i < s.len() ==> {
            let t = with_sample(s, x)[i];
            &&& i < with_sample(s, x).len()
            &&& t.probe == s[i].probe
            &&& t.url == s[i].url
            &&& t.latency <= s[i].latency
            &&& s[i].probe != x.probe || s[i].url != x.url ==> t == s[i]
            &&& t != s[i] ==> t == x
        },
        with_sample(s, x).len() <= s.len() + 1,
        (exists|k: int| is_sample_of(s, k, x.probe, x.url)) ==> with_sample(s, x).len() == s.len(),
{
    let t = with_sample(s, x);
    if exists|k: int| is_first_sample_of(s, k, x.probe, x.url) {
        let k = choose|k: int| is_first_sample_of(s, k, x.probe, x.url);
        assert(is_sample_of(t, k, x.probe, x.url));
    } else {
        assert(is_sample_of(t, s.len() as int, x.probe, x.url));
        if exists|k: int| is_sample_of(s, k, x.probe, x.url) {
            let k = choose|k: int| is_sample_of(s, k, x.probe, x.url);
            first_sample(s, k, x.probe, x.url);
        }
    }
}

/// Where there is a sample of a kind, there is a first one.
proof fn first_sample(s: Seq<LatencySample>, k: int, probe: Probe, url: RelayUrl)
    requires
        is_sample_of(s, k, probe, url),
    ensures
        exists|i: int| is_first_sample_of(s, i, probe, url),
    decreases k,
{
    if exists|j: int| 0 <= j < k && is_sample_of(s, j, probe, url) {
        let j = choose|j: int| 0 <= j < k && is_sample_of(s, j, probe, url);
        first_sample(s, j, probe, url);
    } else {
        assert(is_first_sample_of(s, k, probe, url));
    }
}

/// The result of a QAD probe over IPv4 says that UDP works over IPv4, sets the
/// public address if none was known, and tells by a second address whether the
/// mapping varies. The latency counts. Nothing else changes.
pub proof fn ipv4_result_is_taken_in(v: ReportView, r: QadProbeReport)
    ensures
        ({
            let next = v.after_qad_result(AddrFamily::V4, r);
            &&& next.udp_v4
            &&& next.global_v4 == if v.global_v4 is Some {
                v.global_v4
            } else {
                Some(r.addr)
            }
            &&& mapping_follows(
                v.mapping_varies_by_dest_ipv4,
                v.global_v4,
                r.addr,
                next.mapping_varies_by_dest_ipv4,
            )
            &&& took_at_most(next.relay_latency, Probe::QadIpv4, r.relay_url, r.latency)
            &&& next == (ReportView {
                udp_v4: next.udp_v4,
                global_v4: next.global_v4,
                mapping_varies_by_dest_ipv4: next.mapping_varies_by_dest_ipv4,
                relay_latency: next.relay_latency,
                ..v
            })
        }),
{
    let x = LatencySample { probe: Probe::QadIpv4, url: r.relay_url, latency: r.latency };
    sample_counts(v.relay_latency, x, 0);
}

/// The result of a QAD probe over IPv6 says of IPv6 what one over IPv4 says of
/// IPv4.
pub proof fn ipv6_result_is_taken_in(v: ReportView, r: QadProbeReport)
    ensures
        ({
            let next = v.after_qad_result(AddrFamily::V6, r);
            &&& next.udp_v6
            &&& next.global_v6 == if v.global_v6 is Some {
                v.global_v6
            } else {
                Some(r.addr)
            }
            &&& mapping_follows(
                v.mapping_varies_by_dest_ipv6,
                v.global_v6,
                r.addr,
                next.mapping_varies_by_dest_ipv6,
            )
            &&& took_at_most(next.relay_latency, Probe::QadIpv6, r.relay_url, r.latency)
            &&& next == (ReportView {
                udp_v6: next.udp_v6,
                global_v6: next.global_v6,
                mapping_varies_by_dest_ipv6: next.mapping_varies_by_dest_ipv6,
                relay_latency: next.relay_latency,
                ..v
            })
        }),
{
    let x = LatencySample { probe: Probe::QadIpv6, url: r.relay_url, latency: r.latency };
    sample_counts(v.relay_latency, x, 0);
}

/// Two relays that see different public addresses say that the mapping varies,
/// in either family and in either order, whatever was known before; two that
/// see the same one do not.
pub proof fn two_relays_tell_the_mapping(
    v: ReportView,
    family: AddrFamily,
    a: QadProbeReport,
    b: QadProbeReport,
)
    requires
        v.global_v4 is None,
        v.global_v6 is None,
    ensures
        ({
            let next = v.after_qad_result(family, a).after_qad_result(family, b);
            let (before, now) = match family {
                AddrFamily::V4 => (
                    v.mapping_varies_by_dest_ipv4,
                    next.mapping_varies_by_dest_ipv4,
                ),
                AddrFamily::V6 => (
                    v.mapping_varies_by_dest_ipv6,
                    next.mapping_varies_by_dest_ipv6,
                ),
            };
            &&& a.addr != b.addr ==> now == Some(true)
            &&& a.addr == b.addr && before is None ==> now == Some(false)
        }),
{
    ipv4_result_is_taken_in(v, a);
    ipv6_result_is_taken_in(v, a);
    let mid = v.after_qad_result(family, a);
    ipv4_result_is_taken_in(mid, b);
    ipv6_result_is_taken_in(mid, b);
}

/// What an open QAD connection observes replaces the public address of its
/// family. It says that UDP works there and its latency counts, but it says
/// nothing of the mapping.
pub proof fn observation_replaces_the_address(v: ReportView, r: QadProbeReport)
    ensures
        ({
            let next = v.after_qad_observation(AddrFamily::V4, r);
            &&& next == (ReportView {
                udp_v4: true,
                global_v4: Some(r.addr),
                relay_latency: next.relay_latency,
                ..v
            })
            &&& took_at_most(next.relay_latency, Probe::QadIpv4, r.relay_url, r.latency)
        }),
        ({
            let next = v.after_qad_observation(AddrFamily::V6, r);
            &&& next == (ReportView {
                udp_v6: true,
                global_v6: Some(r.addr),
                relay_latency: next.relay_latency,
                ..v
            })
            &&& took_at_most(next.relay_latency, Probe::QadIpv6, r.relay_url, r.latency)
        }),
{
    let x = LatencySample { probe: Probe::QadIpv4, url: r.relay_url, latency: r.latency };
    sample_counts(v.relay_latency, x, 0);
    let y = LatencySample { probe: Probe::QadIpv6, url: r.relay_url, latency: r.latency };
    sample_counts(v.relay_latency, y, 0);
}

/// An HTTPS probe says nothing but how long it took.
pub proof fn https_result_is_a_latency(v: ReportView, r: HttpsProbeReport)
    ensures
        ({
            let next = v.after_https_result(r);
            &&& next == (ReportView { relay_latency: next.relay_latency, ..v })
            &&& took_at_most(next.relay_latency, Probe::Https, r.relay_url, r.latency)
        }),
{
    let x = LatencySample { probe: Probe::Https, url: r.relay_url, latency: r.latency };
    sample_counts(v.relay_latency, x, 0);
}

/// A report is empty exactly if no probe found anything: no UDP, no latency, no
/// public address, and no word on a captive portal.
pub proof fn empty_report_has_nothing(v: ReportView)
    ensures
        v.has_udp() <==> v.udp_v4 || v.udp_v6,
        !v.has_data() <==> !v.udp_v4 && !v.udp_v6 && v.relay_latency.len() == 0
            && v.global_v4 is None && v.global_v6 is None && v.captive_portal is None,
        !ReportView::empty().has_data(),
        ReportView::empty().preferred_relay is None,
        ReportView::empty().mapping_varies_by_dest_ipv4 is None,
        ReportView::empty().mapping_varies_by_dest_ipv6 is None,
{
}

/// A cycle is `Full` exactly if that was asked for, or none was run yet, or the
/// last one is longer ago than the interval, or the last report knew of a
/// captive portal and of no UDP.
pub proof fn full_cycle_is_due(
    h: HistoryView,
    request: ProbeScope,
    now: Instant,
    full_report_interval: Duration,
)
    ensures
        h.next_scope(request, now, full_report_interval) == ProbeScope::Full <==> {
            ||| request == ProbeScope::Full
            ||| h.next_full
            ||| now > h.last_full + full_report_interval
            ||| h.last matches Some(last) && !last.udp_v4 && !last.udp_v6 && last.captive_portal
                == Some(true)
        },
{
}

/// A report is recorded as it is, but for the preferred relay and for what it
/// leaves open of the mapping, which is as the last report had it.
pub proof fn recorded_report_is_kept(h: HistoryView, r: ReportView, now: Instant, t: Instant)
    ensures
        ({
            let stamped = h.stamped(r, now);
            let next = h.after_record(r, now);
            &&& stamped == (ReportView {
                preferred_relay: stamped.preferred_relay,
                mapping_varies_by_dest_ipv4: if r.mapping_varies_by_dest_ipv4 is Some
                    || h.last is None {
                    r.mapping_varies_by_dest_ipv4
                } else {
                    h.last->0.mapping_varies_by_dest_ipv4
                },
                mapping_varies_by_dest_ipv6: if r.mapping_varies_by_dest_ipv6 is Some
                    || h.last is None {
                    r.mapping_varies_by_dest_ipv6
                } else {
                    h.last->0.mapping_varies_by_dest_ipv6
                },
                ..r
            })
            &&& r.preferred_relay is Some && h.last is None ==> stamped.preferred_relay
                == r.preferred_relay
            &&& next.last == Some(stamped)
            &&& next.prev.contains_key(now) && next.prev[now] == stamped
            &&& t != now ==> (next.prev.contains_key(t) <==> h.prev.contains_key(t) && now <= t
                + MAX_AGE)
            &&& t != now && next.prev.contains_key(t) ==> next.prev[t] == h.prev[t]
            &&& next.next_full == h.next_full
            &&& next.last_full == h.last_full
        }),
{
}

/// The current latency of a relay is what the last sample of it says.
pub proof fn current_latency_is_the_last(s: Seq<LatencySample>, url: RelayUrl, i: int)
    ensures
        0 <= i < s.len() && s[i].url == url && (forall|j: int|
            i < j < s.len() ==> (#[trigger] s[j]).url != url) ==> current_latency(s, Some(url))
            == s[i].latency,
        (forall|j: int| 0 <= j < s.len() ==> (#[trigger] s[j]).url != url) ==> current_latency(
            s,
            Some(url),
        ) == 0,
    decreases s.len(),
{
    if s.len() > 0 {
        let t = s.drop_last();
        assert(s[s.len() - 1] == s.last());
        assert forall|j: int| 0 <= j < t.len() implies #[trigger] t[j] == s[j] by {}
        current_latency_is_the_last(t, url, i);
    }
}

/// A fresh report that measured a relay prefers a relay that no other one was
/// recently faster than, or the one preferred so far. It stays with that one,
/// although another was recently faster, exactly if it was measured again and
/// every relay takes more than two thirds of its current latency.
pub proof fn preferred_relay_is_fast_or_kept(h: HistoryView, r: ReportView, now: Instant, j: int)
    requires
        r.preferred_relay is None,
        0 <= j < r.relay_latency.len(),
    ensures
        ({
            let s = r.relay_latency;
            let preferred = h.stamped(r, now).preferred_relay;
            let so_far = match h.last {
                Some(last) => last.preferred_relay,
                None => None,
            };
            let current = current_latency(s, so_far);
            &&& preferred matches Some(url) && (preferred == so_far || recent_best(
                h.prev,
                s,
                now,
                url,
            ) <= recent_best(h.prev, s, now, s[j].url))
            &&& so_far is None || current == 0 ==> recent_best(h.prev, s, now, preferred->0)
                <= recent_best(h.prev, s, now, s[j].url)
            &&& so_far is Some && preferred != so_far && current != 0 ==> recent_best(
                h.prev,
                s,
                now,
                preferred->0,
            ) <= current / 3 * 2
            &&& so_far is Some && preferred == so_far && recent_best(h.prev, s, now, s[j].url)
                < recent_best(h.prev, s, now, so_far->0) ==> current != 0 && recent_best(
                h.prev,
                s,
                now,
                s[j].url,
            ) > current / 3 * 2
        }),
{
    let s = r.relay_latency;
    let i = fastest_of_first(h.prev, s, now, s.len() as int);
    assert(is_fastest(h.prev, s, now, i));
    let c = choose|c: int| is_fastest(h.prev, s, now, c);
    assert(is_fastest(h.prev, s, now, c));
    assert(s[j].url == s[j].url);
}

/// Whether a step led to another one and called for something on the way.
pub open spec fn calls_for(s: Step, next: Step, action: Action<ReportView>) -> bool {
    &&& s.actions.is_prefix_of(next.actions)
    &&& exists|i: int|
        s.actions.len() <= i < next.actions.len() && #[trigger] next.actions[i] == action
}

/// What was called for still is.
pub(crate) proof fn still_calls_for(s: Step, mid: Step, next: Step, action: Action<ReportView>)
    requires
        s.actions.is_prefix_of(mid.actions),
        mid.actions.is_prefix_of(next.actions),
        calls_for(s, mid, action) || calls_for(mid, next, action),
    ensures
        calls_for(s, next, action),
{
    if calls_for(s, mid, action) {
        let i = choose|i: int|
            s.actions.len() <= i < mid.actions.len() && #[trigger] mid.actions[i] == action;
        assert(next.actions[i] == action);
    } else {
        let i = choose|i: int|
            mid.actions.len() <= i < next.actions.len() && #[trigger] next.actions[i] == action;
        assert(next.actions[i] == action);
    }
}

/// An action at a place is called for.
pub(crate) proof fn calls_for_at(s: Step, next: Step, i: int)
    requires
        s.actions.is_prefix_of(next.actions),
        s.actions.len() <= i < next.actions.len(),
    ensures
        calls_for(s, next, next.actions[i]),
{
    assert(next.actions[i] == next.actions[i]);
}

/// Actions that are called for are.
pub(crate) proof fn did_all_calls_for(s: Step, actions: Seq<Action<ReportView>>, i: int)
    requires
        0 <= i < actions.len(),
    ensures
        calls_for(s, s.did_all(actions), actions[i]),
{
    assert(s.did_all(actions).actions[s.actions.len() + i] == actions[i]);
}

/// Whether the cycle, if there is one, goes on after one more final result.
pub open spec fn goes_on(v: ActorView) -> bool {
    v.cycle matches Some(c) ==> c.pending > 1
}

/// Whether a report may go out: there is something in it, and no family that a
/// cycle probes is still open, unless the cycle has published before.
pub open spec fn may_go_out(v: ActorView, report: ReportView) -> bool {
    &&& report.udp_v4 || report.udp_v6 || report.relay_latency.len() > 0 || report.global_v4 is Some
        || report.global_v6 is Some || report.captive_portal is Some
    &&& v.cycle matches Some(c) ==> c.published || (c.qad.v4.probing ==> c.qad.v4.determined) && (
    c.qad.v6.probing ==> c.qad.v6.determined)
}

/// Whether one of the probes of a cycle has finished, and nothing else about
/// the cycle has changed but the progress of QAD and whether it has published.
pub open spec fn counts_down(before: Option<ProbeCycle>, now: Option<ProbeCycle>) -> bool {
    match (before, now) {
        (Some(b), Some(n)) => n == (ProbeCycle {
            pending: (b.pending - 1) as usize,
            qad: n.qad,
            published: n.published,
            ..b
        }),
        (None, None) => true,
        _ => false,
    }
}

/// A QAD result, while the cycle goes on: a success is taken into the report,
/// and anything else leaves the report as it is. The first connection of a
/// family is kept; with a second one the remaining probes of the family end.
/// UDP works after a success, so the search for a captive portal ends. The
/// report goes out if it may.
pub proof fn qad_result_is_handled(
    s: Step,
    inp: Inputs,
    family: AddrFamily,
    outcome: ProbeOutcome<QadProbeReport, ()>,
)
    requires
        goes_on(s.actor),
    ensures
        ({
            let next = s.wake(Wakeup::Event(ProbeEvent::QadResult(family, outcome)), inp);
            let kept = match family {
                AddrFamily::V4 => s.actor.qad_conns.v4,
                AddrFamily::V6 => s.actor.qad_conns.v6,
            };
            &&& counts_down(s.actor.cycle, next.actor.cycle)
            &&& next.actor.reports == s.actor.reports
            &&& next.actor.config == s.actor.config
            &&& match outcome {
                ProbeOutcome::Success(r) => {
                    &&& next.actor.report == s.actor.report.after_qad_result(family, r)
                    &&& calls_for(s, next, Action::CancelCaptivePortal)
                    &&& kept is None ==> calls_for(s, next, Action::KeepQadConn(family))
                    &&& kept is Some ==> calls_for(s, next, Action::CloseNewQadConn(family))
                        && calls_for(s, next, Action::CancelQad(family))
                    &&& next.actor.qad_conns == match family {
                        AddrFamily::V4 => QadConns {
                            v4: if kept is Some {
                                kept
                            } else {
                                Some(r)
                            },
                            ..s.actor.qad_conns
                        },
                        AddrFamily::V6 => QadConns {
                            v6: if kept is Some {
                                kept
                            } else {
                                Some(r)
                            },
                            ..s.actor.qad_conns
                        },
                    }
                },
                _ => next.actor.report == s.actor.report && next.actor.qad_conns
                    == s.actor.qad_conns,
            }
            &&& may_go_out(next.actor, next.actor.report) ==> calls_for(
                s,
                next,
                Action::Publish(next.actor.report),
            )
            &&& next.actions.len() == s.actions.len() + (if !(outcome is Success) {
                0int
            } else if kept is None {
                2
            } else {
                3
            }) + if may_go_out(next.actor, next.actor.report) {
                1int
            } else {
                0
            }
        }),
{
    let taken = s.qad_result(family, outcome);
    let next = s.wake(Wakeup::Event(ProbeEvent::QadResult(family, outcome)), inp);
    let n = s.actions.len() as int;
    assert(next == taken.publish());
    if outcome is Success {
        let kept = s.actor.qad_conns.of(family);
        assert(taken.actions.last() == Action::<ReportView>::CancelCaptivePortal);
        calls_for_at(s, taken, taken.actions.len() - 1);
        still_calls_for(s, taken, next, Action::CancelCaptivePortal);
        calls_for_at(s, taken, n);
        still_calls_for(s, taken, next, taken.actions[n]);
        if kept is Some {
            assert(taken.actions[n + 1] == Action::<ReportView>::CancelQad(family));
            calls_for_at(s, taken, n + 1);
            still_calls_for(s, taken, next, Action::CancelQad(family));
        }
    }
    if may_go_out(next.actor, next.actor.report) {
        publish_goes_out(s, taken);
    }
}

/// What may go out goes out.
proof fn publish_goes_out(s: Step, taken: Step)
    requires
        s.actions.is_prefix_of(taken.actions),
        may_go_out(taken.publish().actor, taken.publish().actor.report),
        taken.actor.cycle matches Some(c) ==> c.published || c.qad.settled()
            || !taken.publish().actor.cycle->0.published,
    ensures
        calls_for(s, taken.publish(), Action::Publish(taken.publish().actor.report)),
{
    let next = taken.publish();
    assert(taken.actor.publishable());
    assert(next.actions[next.actions.len() - 1] == Action::Publish(taken.actor.report));
    calls_for_at(s, next, next.actions.len() - 1);
}

/// What a QAD result says of the progress of its family: one probe fewer is
/// outstanding, and the family is determined if it was, or by a success, or if
/// none is outstanding any more. The other family is left as it was.
pub proof fn qad_result_brings_progress(
    s: Step,
    inp: Inputs,
    outcome: ProbeOutcome<QadProbeReport, ()>,
)
    requires
        s.actor.cycle is Some,
        goes_on(s.actor),
    ensures
        ({
            let before = s.actor.cycle->0.qad;
            let v4 = s.wake(
                Wakeup::Event(ProbeEvent::QadResult(AddrFamily::V4, outcome)),
                inp,
            ).actor.cycle->0.qad;
            let v6 = s.wake(
                Wakeup::Event(ProbeEvent::QadResult(AddrFamily::V6, outcome)),
                inp,
            ).actor.cycle->0.qad;
            &&& v4.v6 == before.v6
            &&& v6.v4 == before.v4
            &&& progresses(before.v4, outcome is Success, v4.v4)
            &&& progresses(before.v6, outcome is Success, v6.v6)
        }),
{
}

/// Whether a family has come on by one result.
pub open spec fn progresses(before: QadFamily, success: bool, now: QadFamily) -> bool {
    &&& now.probing == before.probing
    &&& before.outstanding > 0 ==> now.outstanding == before.outstanding - 1
    &&& before.outstanding == 0 ==> now.outstanding == 0
    &&& now.determined <==> before.determined || success || now.outstanding == 0
}

/// Whether there is a sample of a relay.
pub open spec fn has_sample_of(s: Seq<LatencySample>, url: RelayUrl) -> bool {
    exists|k: int| 0 <= k < s.len() && (#[trigger] s[k]).url == url
}

/// Whether there is a sample of every relay.
pub open spec fn every_relay_is_measured(s: Seq<LatencySample>, relays: Seq<RelayUrl>) -> bool {
    forall|i: int| 0 <= i < relays.len() ==> has_sample_of(s, #[trigger] relays[i])
}

/// The result of an HTTPS probe, while the cycle goes on: a success is taken
/// into the report, and once there is a sample of every relay the others end.
/// The report goes out if it may. Anything else leaves it as it is.
pub proof fn https_result_is_handled(
    s: Step,
    inp: Inputs,
    outcome: ProbeOutcome<HttpsProbeReport, ()>,
)
    requires
        goes_on(s.actor),
    ensures
        ({
            let next = s.wake(Wakeup::Event(ProbeEvent::Https(outcome)), inp);
            let all_measured = every_relay_is_measured(
                next.actor.report.relay_latency,
                inp.relays@,
            );
            &&& counts_down(s.actor.cycle, next.actor.cycle)
            &&& next.actor.cycle matches Some(c) ==> c.qad == s.actor.cycle->0.qad
            &&& next.actor.reports == s.actor.reports
            &&& next.actor.qad_conns == s.actor.qad_conns
            &&& match outcome {
                ProbeOutcome::Success(r) => {
                    &&& next.actor.report == s.actor.report.after_https_result(r)
                    &&& all_measured ==> calls_for(s, next, Action::CancelHttps)
                    &&& !all_measured ==> !calls_for(s, next, Action::CancelHttps)
                },
                _ => next.actor.report == s.actor.report,
            }
            &&& may_go_out(next.actor, next.actor.report) ==> calls_for(
                s,
                next,
                Action::Publish(next.actor.report),
            )
            &&& next.actions.len() == s.actions.len() + (if outcome is Success && all_measured {
                1int
            } else {
                0
            }) + if may_go_out(next.actor, next.actor.report) {
                1int
            } else {
                0
            }
        }),
{
    let taken = s.https_result(outcome, inp.relays@);
    let next = s.wake(Wakeup::Event(ProbeEvent::Https(outcome)), inp);
    assert(next == taken.publish());
    let samples = next.actor.report.relay_latency;
    let all_measured = every_relay_is_measured(samples, inp.relays@);
    if outcome is Success {
        assert(all_measured == taken.actor.has_all_latencies(inp.relays@)) by {
            if all_measured {
                assert forall|i: int| 0 <= i < inp.relays@.len() implies is_sampled(
                    samples,
                    #[trigger] inp.relays@[i],
                ) by {
                    assert(has_sample_of(samples, inp.relays@[i]));
                }
            }
            if taken.actor.has_all_latencies(inp.relays@) {
                assert forall|i: int| 0 <= i < inp.relays@.len() implies has_sample_of(
                    samples,
                    #[trigger] inp.relays@[i],
                ) by {
                    assert(is_sampled(samples, inp.relays@[i]));
                }
            }
        }
        if !all_measured {
            assert forall|i: int| s.actions.len() <= i < next.actions.len() implies #[trigger] next.actions[i]
                != Action::<ReportView>::CancelHttps by {}
        }
        if all_measured {
            calls_for_at(s, taken, taken.actions.len() - 1);
            still_calls_for(s, taken, next, Action::CancelHttps);
        }
    }
    if may_go_out(next.actor, next.actor.report) {
        publish_goes_out(s, taken);
    }
}

/// The result of the captive portal check, while the cycle goes on: what it
/// found is in the report, which goes out if it may. If it found nothing out,
/// the report stays as it is.
pub proof fn captive_portal_result_is_handled(
    s: Step,
    inp: Inputs,
    outcome: ProbeOutcome<bool, ()>,
)
    requires
        goes_on(s.actor),
    ensures
        ({
            let next = s.wake(Wakeup::Event(ProbeEvent::CaptivePortal(outcome)), inp);
            &&& counts_down(s.actor.cycle, next.actor.cycle)
            &&& next.actor.reports == s.actor.reports
            &&& next.actor.qad_conns == s.actor.qad_conns
            &&& match outcome {
                ProbeOutcome::Success(found) => next.actor.report == (ReportView {
                    captive_portal: Some(found),
                    ..s.actor.report
                }),
                _ => next.actor.report == s.actor.report,
            }
            &&& may_go_out(next.actor, next.actor.report) ==> calls_for(
                s,
                next,
                Action::Publish(next.actor.report),
            )
            &&& next.actions.len() == s.actions.len() + if may_go_out(
                next.actor,
                next.actor.report,
            ) {
                1int
            } else {
                0
            }
        }),
{
    let taken = s.captive_portal_result(outcome);
    let next = s.wake(Wakeup::Event(ProbeEvent::CaptivePortal(outcome)), inp);
    assert(next == taken.publish());
    if may_go_out(next.actor, next.actor.report) {
        publish_goes_out(s, taken);
    }
}

/// A probe that is lost counts as finished and says nothing.
pub proof fn lost_probe_counts_as_finished(s: Step, inp: Inputs)
    requires
        goes_on(s.actor),
    ensures
        ({
            let next = s.wake(Wakeup::ProbeLost, inp);
            &&& counts_down(s.actor.cycle, next.actor.cycle)
            &&& next.actor == (ActorView { cycle: next.actor.cycle, ..s.actor })
            &&& next.actor.cycle matches Some(c) ==> c.qad == s.actor.cycle->0.qad
            &&& next.actions == s.actions
        }),
{
}

/// Whether a cycle ended properly: its report was recorded and is published as
/// it was recorded unless it is empty, no cycle is in flight, and what waited
/// for the end comes next.
pub open spec fn ends_the_cycle(
    s: Step,
    report: ReportView,
    waiting: Option<ProbeRequest>,
    now: Instant,
    next: Step,
) -> bool {
    let stamped = s.actor.reports.stamped(report, now);
    &&& next.actor.cycle is None
    &&& next.actor.report == stamped
    &&& next.actor.reports == s.actor.reports.after_record(report, now)
    &&& stamped.has_data() ==> calls_for(s, next, Action::Publish(stamped))
    &&& waiting matches Some(request) ==> next.actions.last() == Action::<ReportView>::Rerun(
        request,
    )
}

/// The end of a cycle.
proof fn finishing_ends_the_cycle(s: Step, mid: Step, now: Instant)
    requires
        mid.actor.cycle is Some,
        s.actions.is_prefix_of(mid.actions),
        mid.actor.reports == s.actor.reports,
    ensures
        ends_the_cycle(s, mid.actor.report, mid.actor.cycle->0.rerun, now, mid.finish_cycle(now)),
        s.actions.is_prefix_of(mid.finish_cycle(now).actions),
{
    let next = mid.finish_cycle(now);
    let stamped = mid.actor.reports.stamped(mid.actor.report, now);
    if stamped.has_data() {
        let n = mid.actions.len() as int;
        assert(next.actions[n] == Action::Publish(stamped));
        calls_for_at(s, next, n);
    }
}

/// The report with what the final result of a probe says.
pub open spec fn with_result(report: ReportView, event: ProbeEvent) -> ReportView {
    match event {
        ProbeEvent::QadResult(family, ProbeOutcome::Success(r)) => report.after_qad_result(
            family,
            r,
        ),
        ProbeEvent::Https(ProbeOutcome::Success(r)) => report.after_https_result(r),
        ProbeEvent::CaptivePortal(ProbeOutcome::Success(found)) => ReportView {
            captive_portal: Some(found),
            ..report
        },
        _ => report,
    }
}

/// To publish keeps the report, the history, and what waits.
proof fn publishing_keeps(s: Step, taken: Step)
    requires
        s.actions.is_prefix_of(taken.actions),
    ensures
        ({
            let mid = taken.publish();
            &&& s.actions.is_prefix_of(mid.actions)
            &&& mid.actor.report == taken.actor.report
            &&& mid.actor.reports == taken.actor.reports
            &&& mid.actor.cycle is Some == taken.actor.cycle is Some
            &&& mid.actor.cycle is Some ==> mid.actor.cycle->0.pending
                == taken.actor.cycle->0.pending && mid.actor.cycle->0.rerun
                == taken.actor.cycle->0.rerun
        }),
{
}

/// The last result of a cycle is taken in like any other, and then the cycle
/// ends.
pub proof fn last_result_ends_the_cycle(s: Step, inp: Inputs, event: ProbeEvent)
    requires
        s.actor.cycle is Some,
        s.actor.cycle->0.pending == 1,
        !(event is QadObservation),
    ensures
        ends_the_cycle(
            s,
            with_result(s.actor.report, event),
            s.actor.cycle->0.rerun,
            inp.now,
            s.wake(Wakeup::Event(event), inp),
        ),
{
    let taken = match event {
        ProbeEvent::QadResult(family, outcome) => s.qad_result(family, outcome),
        ProbeEvent::Https(outcome) => s.https_result(outcome, inp.relays@),
        ProbeEvent::CaptivePortal(outcome) => s.captive_portal_result(outcome),
        _ => s,
    };
    let mid = taken.publish();
    assert(s.actions.is_prefix_of(taken.actions));
    assert(taken.actor.reports == s.actor.reports);
    assert(taken.actor.report == with_result(s.actor.report, event));
    assert(taken.actor.cycle matches Some(d) && d.pending == 0 && d.rerun
        == s.actor.cycle->0.rerun);
    publishing_keeps(s, taken);
    finishing_ends_the_cycle(s, mid, inp.now);
}

/// A cycle ends too when its last probe is lost, and when its time is up,
/// whatever is still pending; then the remaining probes stop.
pub proof fn cycle_ends_without_results(s: Step, inp: Inputs)
    requires
        s.actor.cycle is Some,
    ensures
        s.actor.cycle->0.pending == 1 ==> ends_the_cycle(
            s,
            s.actor.report,
            s.actor.cycle->0.rerun,
            inp.now,
            s.wake(Wakeup::ProbeLost, inp),
        ),
        ends_the_cycle(
            s,
            s.actor.report,
            s.actor.cycle->0.rerun,
            inp.now,
            s.wake(Wakeup::AbortDeadline, inp),
        ),
        calls_for(s, s.wake(Wakeup::AbortDeadline, inp), Action::AbortProbes),
{
    let c = s.actor.cycle->0;
    finishing_ends_the_cycle(s, s.probe_finished(), inp.now);
    let aborted = s.with_cycle(
        Some(ProbeCycle { abort_deadline: None, pending: 0, ..c }),
    ).did(Action::AbortProbes);
    finishing_ends_the_cycle(s, aborted, inp.now);
    calls_for_at(s, aborted, s.actions.len() as int);
    still_calls_for(s, aborted, aborted.finish_cycle(inp.now), Action::AbortProbes);
}

/// What the kept connection of a family observes is remembered and in the
/// report, and goes out if it may. The cycle goes on as it was.
pub proof fn observation_is_handled(s: Step, inp: Inputs, family: AddrFamily, r: QadProbeReport)
    requires
        match family {
            AddrFamily::V4 => s.actor.qad_conns.v4,
            AddrFamily::V6 => s.actor.qad_conns.v6,
        } matches Some(kept) && kept.relay_url == r.relay_url,
    ensures
        ({
            let next = s.wake(Wakeup::Event(ProbeEvent::QadObservation(family, r)), inp);
            &&& next.actor.report == s.actor.report.after_qad_observation(family, r)
            &&& next.actor.qad_conns == match family {
                AddrFamily::V4 => QadConns { v4: Some(r), ..s.actor.qad_conns },
                AddrFamily::V6 => QadConns { v6: Some(r), ..s.actor.qad_conns },
            }
            &&& next.actor.reports == s.actor.reports
            &&& next.actor.cycle is Some == s.actor.cycle is Some
            &&& s.actor.cycle matches Some(c) ==> next.actor.cycle->0 == (ProbeCycle {
                published: next.actor.cycle->0.published,
                ..c
            })
            &&& may_go_out(next.actor, next.actor.report) ==> calls_for(
                s,
                next,
                Action::Publish(next.actor.report),
            )
            &&& next.actions.len() == s.actions.len() + if may_go_out(
                next.actor,
                next.actor.report,
            ) {
                1int
            } else {
                0
            }
        }),
{
    let taken = s.with_qad_conns(s.actor.qad_conns.with(family, Some(r))).with_report(
        s.actor.report.after_qad_observation(family, r),
    );
    let next = s.wake(Wakeup::Event(ProbeEvent::QadObservation(family, r)), inp);
    assert(next == taken.publish());
    if may_go_out(next.actor, next.actor.report) {
        publish_goes_out(s, taken);
    }
}

/// When the first-report deadline has passed, it does not pass again, and the
/// cycle counts as having published; nothing else about it changes.
pub proof fn report_deadline_passes_once(s: Step, inp: Inputs)
    requires
        s.actor.cycle is Some,
    ensures
        ({
            let next = s.wake(Wakeup::ReportDeadline, inp);
            &&& next.actor == (ActorView {
                cycle: Some(
                    ProbeCycle { report_deadline: None, published: true, ..s.actor.cycle->0 },
                ),
                ..s.actor
            })
            &&& s.actor.report.has_data() ==> next.actions == s.actions.push(
                Action::Publish(s.actor.report),
            )
            &&& !s.actor.report.has_data() ==> next.actions == s.actions
        }),
{
}

} // verus!
