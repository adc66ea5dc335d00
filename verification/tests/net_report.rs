use iroh::addr::SocketAddr;
use iroh::net_report::actor::{
    Action, Actions, Config, HttpsProbe, Inputs, NetReportActor, ProbeEvent, Timeouts, Wakeup,
};
use iroh::net_report::history::ReportHistory;
use iroh::net_report::latencies::{Probe, RelayLatencies, RelayUrl};
use iroh::net_report::qad::{AddrFamily, ProbeOutcome, QadFamily, QadProbeReport, QadState};
use iroh::net_report::report::{HttpsProbeReport, Report};
use iroh::net_report::request::{IfState, ProbeRequest, ProbeScope, RequestSlot};
use iroh::time::{MILLISECOND, SECOND};

#[test]
fn test_qad_gate() {
    // Nothing being probed: nothing ever blocks.
    assert!(QadState::default().all_determined());

    // A probed family blocks until it is determined.
    let mut qad = QadState::default();
    qad.v4.probing = true;
    assert!(!qad.all_determined());
    qad.v4.determined = true;
    assert!(qad.all_determined());

    // Both probed: both must be determined.
    let mut qad = QadState::default();
    qad.v4.probing = true;
    qad.v6.probing = true;
    qad.v4.determined = true;
    assert!(!qad.all_determined());
    qad.v6.determined = true;
    assert!(qad.all_determined());

    // A family that is not being probed does not block, even if another
    // probed family has determined.
    let mut qad = QadState::default();
    qad.v6.probing = true;
    qad.v4.determined = true;
    assert!(!qad.all_determined());
    qad.v6.determined = true;
    assert!(qad.all_determined());
}

fn relay_url(i: u16) -> RelayUrl {
    RelayUrl(i as u64)
}

fn report(a: &[(&'static str, u64)]) -> Option<Report> {
    let mut report = Report::default();
    for (s, d) in a {
        assert!(s.starts_with('d'), "invalid relay server key");
        let id: u16 = s[1..].parse().unwrap();
        report
            .relay_latency
            .update_relay(relay_url(id), *d * SECOND, Probe::QadIpv4);
    }
    Some(report)
}

struct HistoryStep {
    after: u64,
    r: Option<Report>,
}

struct HistoryTest {
    name: &'static str,
    steps: Vec<HistoryStep>,
    want_relay: Option<RelayUrl>,
    want_prev_len: usize,
}

#[test]
fn test_report_history_and_preferred_relay() {
    let tests = vec![
        HistoryTest {
            name: "first_reading",
            steps: vec![HistoryStep {
                after: 0,
                r: report(&[("d1", 2), ("d2", 3)]),
            }],
            want_prev_len: 1,
            want_relay: Some(relay_url(1)),
        },
        HistoryTest {
            name: "with_two",
            steps: vec![
                HistoryStep {
                    after: 0,
                    r: report(&[("d1", 2), ("d2", 3)]),
                },
                HistoryStep {
                    after: 1,
                    r: report(&[("d1", 4), ("d2", 3)]),
                },
            ],
            want_prev_len: 2,
            want_relay: Some(relay_url(1)),
        },
        HistoryTest {
            name: "but_now_d1_gone",
            steps: vec![
                HistoryStep {
                    after: 0,
                    r: report(&[("d1", 2), ("d2", 3)]),
                },
                HistoryStep {
                    after: 1,
                    r: report(&[("d1", 4), ("d2", 3)]),
                },
                HistoryStep {
                    after: 2,
                    r: report(&[("d2", 3)]),
                },
            ],
            want_prev_len: 3,
            want_relay: Some(relay_url(2)),
        },
        HistoryTest {
            name: "d1_is_back",
            steps: vec![
                HistoryStep {
                    after: 0,
                    r: report(&[("d1", 2), ("d2", 3)]),
                },
                HistoryStep {
                    after: 1,
                    r: report(&[("d1", 4), ("d2", 3)]),
                },
                HistoryStep {
                    after: 2,
                    r: report(&[("d2", 3)]),
                },
                HistoryStep {
                    after: 3,
                    r: report(&[("d1", 4), ("d2", 3)]),
                },
            ],
            want_prev_len: 4,
            want_relay: Some(relay_url(1)),
        },
        HistoryTest {
            name: "things_clean_up",
            steps: vec![
                HistoryStep {
                    after: 0,
                    r: report(&[("d1", 1), ("d2", 2)]),
                },
                HistoryStep {
                    after: 1,
                    r: report(&[("d1", 1), ("d2", 2)]),
                },
                HistoryStep {
                    after: 2,
                    r: report(&[("d1", 1), ("d2", 2)]),
                },
                HistoryStep {
                    after: 3,
                    r: report(&[("d1", 1), ("d2", 2)]),
                },
                HistoryStep {
                    after: 10 * 60,
                    r: report(&[("d3", 3)]),
                },
            ],
            want_prev_len: 1,
            want_relay: Some(relay_url(3)),
        },
        HistoryTest {
            name: "preferred_relay_hysteresis_no_switch",
            steps: vec![
                HistoryStep {
                    after: 0,
                    r: report(&[("d1", 4), ("d2", 5)]),
                },
                HistoryStep {
                    after: 1,
                    r: report(&[("d1", 4), ("d2", 3)]),
                },
            ],
            want_prev_len: 2,
            want_relay: Some(relay_url(1)),
        },
        HistoryTest {
            name: "preferred_relay_hysteresis_do_switch",
            steps: vec![
                HistoryStep {
                    after: 0,
                    r: report(&[("d1", 4), ("d2", 5)]),
                },
                HistoryStep {
                    after: 1,
                    r: report(&[("d1", 4), ("d2", 1)]),
                },
            ],
            want_prev_len: 2,
            want_relay: Some(relay_url(2)),
        },
    ];

    for mut tt in tests {
        println!("test: {}", tt.name);
        let mut now = 1_000 * SECOND;
        let mut reports = ReportHistory::new(now);
        for s in &mut tt.steps {
            now += s.after * SECOND;
            reports.record(s.r.as_mut().unwrap(), now);
        }
        let last_report = tt.steps.last().unwrap().r.clone().unwrap();
        assert_eq!(reports.prev.len(), tt.want_prev_len, "prev length");
        assert_eq!(
            &last_report.preferred_relay, &tt.want_relay,
            "preferred_relay"
        );
    }
}

#[test]
fn hysteresis_gives_way_at_two_thirds() {
    for (second, want) in [(2, 2), (3, 1)] {
        let mut reports = ReportHistory::new(0);
        let mut a = report(&[("d1", 3), ("d2", 9)]).unwrap();
        reports.record(&mut a, 0);
        assert_eq!(a.preferred_relay, Some(relay_url(1)));
        let mut b = report(&[("d1", 3), ("d2", second)]).unwrap();
        reports.record(&mut b, SECOND);
        // The current relay is at its recent best of three seconds, so the
        // other one has to be at two seconds or less.
        assert_eq!(b.preferred_relay, Some(relay_url(want)));
    }
}

#[test]
fn reports_count_for_exactly_five_minutes() {
    let mut reports = ReportHistory::new(0);
    reports.record(&mut report(&[("d1", 1)]).unwrap(), 0);
    reports.record(&mut report(&[("d1", 1)]).unwrap(), 300 * SECOND);
    assert_eq!(reports.prev.len(), 2);
    reports.record(&mut report(&[("d1", 1)]).unwrap(), 300 * SECOND + 1);
    assert_eq!(reports.prev.len(), 2);
    assert!(!reports.prev.contains_key(&0));
}

#[test]
fn mapping_is_filled_in_from_the_last_report() {
    let mut reports = ReportHistory::new(0);
    let mut a = Report::default();
    a.mapping_varies_by_dest_ipv4 = Some(true);
    reports.record(&mut a, 1);
    let mut b = Report::default();
    b.mapping_varies_by_dest_ipv6 = Some(false);
    reports.record(&mut b, 2);
    assert_eq!(b.mapping_varies_by_dest_ipv4, Some(true));
    assert_eq!(b.mapping_varies_by_dest_ipv6, Some(false));
    assert_eq!(b.preferred_relay, None);
}

#[test]
fn scope_is_promoted_to_full() {
    let interval = 300 * SECOND;
    let mut reports = ReportHistory::new(0);
    // The first cycle is full.
    assert_eq!(reports.scope_for(ProbeScope::Refresh, 0, interval), ProbeScope::Full);
    reports.next_full = false;
    assert_eq!(reports.scope_for(ProbeScope::Refresh, 0, interval), ProbeScope::Refresh);
    assert_eq!(reports.scope_for(ProbeScope::Full, 0, interval), ProbeScope::Full);
    // The interval has to have elapsed.
    assert_eq!(reports.scope_for(ProbeScope::Refresh, interval, interval), ProbeScope::Refresh);
    assert_eq!(reports.scope_for(ProbeScope::Refresh, interval + 1, interval), ProbeScope::Full);
    // A captive portal without UDP calls for a full cycle, one with UDP does not.
    let mut r = Report::default();
    r.captive_portal = Some(true);
    reports.record(&mut r, 1);
    assert_eq!(reports.scope_for(ProbeScope::Refresh, 1, interval), ProbeScope::Full);
    r.udp_v6 = true;
    reports.record(&mut r, 1);
    assert_eq!(reports.scope_for(ProbeScope::Refresh, 1, interval), ProbeScope::Refresh);
}

#[test]
fn latencies_keep_the_best_sample_of_each_probe() {
    let mut a = RelayLatencies::default();
    a.update_relay(relay_url(1), 30, Probe::Https);
    a.update_relay(relay_url(1), 20, Probe::Https);
    a.update_relay(relay_url(1), 25, Probe::QadIpv4);
    assert_eq!(a.len(), 2);
    assert_eq!(a.get(relay_url(1)), Some(20));
    assert_eq!(a.get(relay_url(2)), None);
    let mut b = RelayLatencies::default();
    b.update_relay(relay_url(1), 10, Probe::QadIpv6);
    b.update_relay(relay_url(2), 40, Probe::Https);
    a.merge(&b);
    assert_eq!(a.get(relay_url(1)), Some(10));
    assert_eq!(a.get(relay_url(2)), Some(40));
    assert_eq!(a.len(), 4);
}

#[test]
fn a_failure_alone_does_not_determine_a_family() {
    let mut qad = QadState::new(2, 1);
    let failure: ProbeOutcome<(), ()> = ProbeOutcome::Failure(());
    let success: ProbeOutcome<(), ()> = ProbeOutcome::Success(());
    qad.record_result(AddrFamily::V4, &failure);
    assert!(!qad.v4.determined);
    qad.record_result(AddrFamily::V6, &success);
    assert!(qad.v6.determined && !qad.all_determined());
    qad.record_result(AddrFamily::V4, &failure);
    assert!(qad.all_determined());
    // Results beyond the last probe change nothing.
    qad.record_result(AddrFamily::V4, &failure);
    assert_eq!(qad.v4.outstanding, 0);
    assert!(qad.v4.determined);
    qad.family_mut(AddrFamily::V4).outstanding = 7;
    assert_eq!(qad.v4.outstanding, 7);
    assert_eq!(QadFamily::new(0), QadFamily::default());
}

#[test]
fn outcomes_are_told_apart() {
    assert!(matches!(ProbeOutcome::<u8, u8>::of_run(None), ProbeOutcome::Cancelled));
    assert!(matches!(ProbeOutcome::<u8, u8>::of_run(Some(None)), ProbeOutcome::Timeout));
    assert!(matches!(ProbeOutcome::<u8, u8>::of_run(Some(Some(Ok(1)))), ProbeOutcome::Success(1)));
    assert!(matches!(ProbeOutcome::<u8, u8>::of_run(Some(Some(Err(2)))), ProbeOutcome::Failure(2)));
}

const BOTH: IfState = IfState { have_v4: true, have_v6: true };
const V4_ONLY: IfState = IfState { have_v4: true, have_v6: false };

#[test]
fn requests_merge_in_the_slot() {
    let mut slot = RequestSlot::new();
    assert_eq!(slot.take(), None);
    slot.request(BOTH, ProbeScope::Full);
    slot.request(V4_ONLY, ProbeScope::Refresh);
    let want = ProbeRequest { if_state: V4_ONLY, scope: ProbeScope::Full };
    assert_eq!(slot.take(), Some(want));
    assert_eq!(slot.take(), None);
    assert_eq!(ProbeScope::from_major(true), ProbeScope::Full);
    assert_eq!(ProbeScope::from_major(false), ProbeScope::Refresh);
}

fn timeouts() -> Timeouts {
    Timeouts {
        first_report: 3 * SECOND,
        abort: 10 * SECOND,
        full_report_interval: 300 * SECOND,
        qad_probe: 2 * SECOND,
        https_probe: 4 * SECOND,
        captive_portal_delay: 200 * MILLISECOND,
        captive_portal: 5 * SECOND,
    }
}

fn actor(qad: bool, captive_portal_check: bool) -> NetReportActor {
    let config = Config {
        qad,
        captive_portal_check,
        qad_stagger: 100 * MILLISECOND,
        timeouts: timeouts(),
    };
    NetReportActor::new(config, 0)
}

fn inputs(now: u64, relays: u64) -> Inputs {
    let plan = |delay: u64| (1..=relays).map(|i| HttpsProbe { delay, relay: RelayUrl(i) }).collect();
    Inputs {
        now,
        relays: (1..=relays).map(RelayUrl).collect(),
        v4_closed: false,
        v6_closed: false,
        https_initial: plan(1),
        https_with_last: plan(2),
    }
}

fn request(scope: ProbeScope) -> Wakeup {
    Wakeup::Request(ProbeRequest { if_state: BOTH, scope })
}

fn addr(port: u16) -> SocketAddr {
    SocketAddr::V4 { ip: 0xc000_0201, port }
}

fn qad_report(relay: u64, port: u16) -> QadProbeReport {
    QadProbeReport { relay_url: RelayUrl(relay), addr: addr(port), latency: 10 * relay }
}

fn qad_success(family: AddrFamily, relay: u64, port: u16) -> Wakeup {
    Wakeup::Event(ProbeEvent::QadResult(
        family,
        ProbeOutcome::Success(qad_report(relay, port)),
    ))
}

fn https_success(relay: u64) -> Wakeup {
    Wakeup::Event(ProbeEvent::Https(ProbeOutcome::Success(HttpsProbeReport {
        relay_url: RelayUrl(relay),
        latency: 100 * relay,
    })))
}

fn https_timeout() -> Wakeup {
    Wakeup::Event(ProbeEvent::Https(ProbeOutcome::Timeout))
}

fn published(out: &Actions) -> usize {
    out.list.iter().filter(|a| matches!(a, Action::Publish(_))).count()
}

#[test]
fn full_cycle_starts_every_probe() {
    let mut a = actor(true, true);
    let out = a.step(request(ProbeScope::Full), &inputs(0, 6));
    let qad: Vec<_> = out
        .list
        .iter()
        .filter_map(|x| match x {
            Action::SpawnQad { family, relay, delay, timeout } => {
                Some((*family, relay.0, *delay / MILLISECOND, *timeout / SECOND))
            }
            _ => None,
        })
        .collect();
    assert_eq!(
        qad,
        vec![
            (AddrFamily::V4, 1, 0, 2),
            (AddrFamily::V6, 1, 100, 2),
            (AddrFamily::V4, 2, 200, 2),
            (AddrFamily::V6, 2, 300, 2),
            (AddrFamily::V4, 3, 400, 2),
            (AddrFamily::V6, 3, 500, 2),
            (AddrFamily::V4, 4, 600, 2),
            (AddrFamily::V6, 4, 700, 2),
            (AddrFamily::V4, 5, 800, 2),
            (AddrFamily::V6, 5, 900, 2),
        ]
    );
    let https: Vec<_> = out
        .list
        .iter()
        .filter_map(|x| match x {
            Action::SpawnHttps { relay, delay, timeout } => Some((relay.0, *delay, *timeout / SECOND)),
            _ => None,
        })
        .collect();
    assert_eq!(https, (1..=6).map(|i| (i, 1, 4)).collect::<Vec<_>>());
    assert!(matches!(
        out.list.last(),
        Some(Action::SpawnCaptivePortal { preferred: None, delay, timeout })
            if *delay == 200 * MILLISECOND && *timeout == 5 * SECOND
    ));
    assert!(matches!(out.list[0], Action::CloseQadConns));
    assert!(matches!(out.list[1], Action::CountFullCycle));
    assert!(matches!(out.list[2], Action::CountCycle));
    let cycle = a.cycle.unwrap();
    assert_eq!(cycle.pending, 17);
    assert_eq!(cycle.qad, QadState::new(5, 5));
    assert_eq!(a.deadlines(), (Some(3 * SECOND), Some(10 * SECOND)));
}

#[test]
fn one_family_is_probed_alone() {
    let mut a = actor(true, false);
    let wakeup = Wakeup::Request(ProbeRequest { if_state: V4_ONLY, scope: ProbeScope::Full });
    let out = a.step(wakeup, &inputs(0, 2));
    let qad: Vec<_> = out
        .list
        .iter()
        .filter_map(|x| match x {
            Action::SpawnQad { family, relay, delay, .. } => Some((*family, relay.0, *delay)),
            _ => None,
        })
        .collect();
    assert_eq!(
        qad,
        vec![(AddrFamily::V4, 1, 0), (AddrFamily::V4, 2, 100 * MILLISECOND)]
    );
    assert_eq!(a.cycle.unwrap().qad, QadState::new(2, 0));
}

#[test]
fn nothing_happens_without_relays() {
    let mut a = actor(true, true);
    let out = a.step(request(ProbeScope::Full), &inputs(0, 0));
    assert!(out.list.is_empty());
    assert!(a.cycle.is_none());
}

#[test]
fn first_report_waits_for_both_families() {
    let mut a = actor(true, false);
    let inp = inputs(0, 1);
    a.step(request(ProbeScope::Full), &inp);
    let out = a.step(qad_success(AddrFamily::V4, 1, 1000), &inp);
    assert_eq!(published(&out), 0);
    assert!(matches!(out.list[0], Action::KeepQadConn(AddrFamily::V4)));
    assert!(matches!(out.list[1], Action::CancelCaptivePortal));
    let out = a.step(qad_success(AddrFamily::V6, 1, 1000), &inp);
    assert_eq!(published(&out), 1);
    // The HTTPS probe is the last, and every relay has been measured.
    let out = a.step(https_success(1), &inp);
    assert!(matches!(out.list[0], Action::CancelHttps));
    assert_eq!(published(&out), 2);
    assert!(a.cycle.is_none());
    assert_eq!(a.report.preferred_relay, Some(RelayUrl(1)));
    assert_eq!(a.report.global_v4, Some(addr(1000)));
}

#[test]
fn first_report_does_not_wait_beyond_its_deadline() {
    let mut a = actor(true, false);
    let inp = inputs(0, 1);
    a.step(request(ProbeScope::Full), &inp);
    let out = a.step(Wakeup::ReportDeadline, &inp);
    // Nothing was found yet.
    assert_eq!(published(&out), 0);
    assert_eq!(a.deadlines(), (None, Some(10 * SECOND)));
    let out = a.step(qad_success(AddrFamily::V4, 1, 1000), &inp);
    assert_eq!(published(&out), 1);
}

#[test]
fn empty_report_is_not_published() {
    let mut a = actor(false, false);
    let inp = inputs(0, 2);
    a.step(request(ProbeScope::Full), &inp);
    assert_eq!(a.cycle.unwrap().pending, 2);
    assert_eq!(published(&a.step(https_timeout(), &inp)), 0);
    let out = a.step(Wakeup::ProbeLost, &inp);
    assert_eq!(published(&out), 0);
    assert!(a.cycle.is_none());
    assert_eq!(a.reports.prev.len(), 1);
}

#[test]
fn abort_deadline_ends_with_what_is_there() {
    let mut a = actor(false, false);
    let inp = inputs(0, 2);
    a.step(request(ProbeScope::Full), &inp);
    a.step(https_success(2), &inp);
    let out = a.step(Wakeup::AbortDeadline, &inputs(10 * SECOND, 2));
    assert!(matches!(out.list[0], Action::AbortProbes));
    assert_eq!(published(&out), 1);
    assert!(a.cycle.is_none());
    assert_eq!(a.report.preferred_relay, Some(RelayUrl(2)));
}

#[test]
fn refresh_waits_and_full_starts_over() {
    let mut a = actor(false, false);
    let inp = inputs(0, 1);
    a.step(request(ProbeScope::Full), &inp);
    assert!(a.step(request(ProbeScope::Refresh), &inp).list.is_empty());
    let waiting = ProbeRequest { if_state: V4_ONLY, scope: ProbeScope::Refresh };
    assert!(a.step(Wakeup::Request(waiting), &inp).list.is_empty());
    assert_eq!(a.cycle.unwrap().rerun, Some(waiting));
    let out = a.step(https_success(1), &inp);
    assert!(matches!(out.list.last(), Some(Action::Rerun(r)) if *r == waiting));
    assert!(a.cycle.is_none());

    let out = a.step(Wakeup::Request(waiting), &inp);
    assert!(matches!(out.list[0], Action::CountCycle));
    // The plan now goes by the last report.
    assert!(matches!(out.list.last(), Some(Action::SpawnHttps { delay: 2, .. })));
    let out = a.step(request(ProbeScope::Full), &inp);
    assert!(matches!(out.list[0], Action::AbortProbes));
    assert!(matches!(out.list[1], Action::DropEvents));
    assert!(matches!(out.list[2], Action::CloseQadConns));
    assert_eq!(a.cycle.unwrap().rerun, None);
}

#[test]
fn open_connections_are_reused_and_closed_ones_replaced() {
    let mut a = actor(true, false);
    let inp = inputs(0, 1);
    a.step(request(ProbeScope::Full), &inp);
    a.step(qad_success(AddrFamily::V4, 1, 1000), &inp);
    a.step(qad_success(AddrFamily::V6, 1, 2000), &inp);
    a.step(https_success(1), &inp);
    assert!(a.cycle.is_none());

    let mut inp = inputs(SECOND, 1);
    inp.v6_closed = true;
    let out = a.step(request(ProbeScope::Refresh), &inp);
    assert!(out.list.iter().any(|x| matches!(x, Action::ForgetQadConn(AddrFamily::V6))));
    let families: Vec<_> = out
        .list
        .iter()
        .filter_map(|x| match x {
            Action::SpawnQad { family, .. } => Some(*family),
            _ => None,
        })
        .collect();
    assert_eq!(families, vec![AddrFamily::V6]);
    // The open connection has filled the report.
    assert_eq!(a.report.global_v4, Some(addr(1000)));
    assert_eq!(a.report.global_v6, None);
}

#[test]
fn second_result_decides_the_mapping() {
    let mut a = actor(true, false);
    let inp = inputs(0, 3);
    a.step(request(ProbeScope::Full), &inp);
    a.step(qad_success(AddrFamily::V4, 1, 1000), &inp);
    assert_eq!(a.report.mapping_varies_by_dest_ipv4, None);
    let out = a.step(qad_success(AddrFamily::V4, 2, 1001), &inp);
    assert!(matches!(out.list[0], Action::CloseNewQadConn(AddrFamily::V4)));
    assert!(matches!(out.list[1], Action::CancelQad(AddrFamily::V4)));
    assert_eq!(a.report.mapping_varies_by_dest_ipv4, Some(true));
    assert_eq!(a.report.global_v4, Some(addr(1000)));
    a.step(qad_success(AddrFamily::V6, 1, 5), &inp);
    a.step(qad_success(AddrFamily::V6, 2, 5), &inp);
    assert_eq!(a.report.mapping_varies_by_dest_ipv6, Some(false));
}

#[test]
fn only_the_kept_connection_is_observed() {
    let mut a = actor(true, false);
    let inp = inputs(0, 2);
    a.step(request(ProbeScope::Full), &inp);
    a.step(qad_success(AddrFamily::V4, 1, 1000), &inp);
    let stray = Wakeup::Event(ProbeEvent::QadObservation(AddrFamily::V4, qad_report(2, 7)));
    assert!(a.step(stray, &inp).list.is_empty());
    assert_eq!(a.report.global_v4, Some(addr(1000)));
    let seen = Wakeup::Event(ProbeEvent::QadObservation(AddrFamily::V4, qad_report(1, 7)));
    a.step(seen, &inp);
    assert_eq!(a.report.global_v4, Some(addr(7)));
    assert_eq!(a.qad_conns.current(AddrFamily::V4), Some(qad_report(1, 7)));
}

#[test]
fn captive_portal_is_reported() {
    let mut a = actor(false, true);
    let mut inp = inputs(0, 1);
    inp.https_initial.clear();
    a.step(request(ProbeScope::Full), &inp);
    assert_eq!(a.cycle.unwrap().pending, 1);
    let out = a.step(
        Wakeup::Event(ProbeEvent::CaptivePortal(ProbeOutcome::Success(true))),
        &inp,
    );
    assert_eq!(published(&out), 2);
    assert_eq!(a.report.captive_portal, Some(true));
    // Behind a portal without UDP the next cycle is full.
    let out = a.step(request(ProbeScope::Refresh), &inputs(1, 1));
    assert!(matches!(out.list[0], Action::CloseQadConns));
}

#[test]
fn cycle_without_probes_ends_at_once() {
    let mut a = actor(false, false);
    let mut inp = inputs(0, 1);
    inp.https_initial.clear();
    a.step(request(ProbeScope::Full), &inp);
    assert!(a.cycle.is_none());
    assert_eq!(a.reports.prev.len(), 1);
}

#[test]
fn every_relay_has_to_be_measured() {
    let mut a = actor(false, false);
    assert!(a.have_all_relay_latencies(&vec![]));
    a.report.relay_latency.update_relay(RelayUrl(1), 5, Probe::Https);
    a.report.relay_latency.update_relay(RelayUrl(1), 5, Probe::QadIpv4);
    assert!(a.have_all_relay_latencies(&vec![RelayUrl(1)]));
    assert!(!a.have_all_relay_latencies(&vec![RelayUrl(1), RelayUrl(2)]));
    // A relay that is not configured does not stand in for one that is.
    a.report.relay_latency.update_relay(RelayUrl(3), 5, Probe::Https);
    assert!(!a.have_all_relay_latencies(&vec![RelayUrl(1), RelayUrl(2)]));
    assert!(a.have_all_relay_latencies(&vec![RelayUrl(3), RelayUrl(1)]));
}

#[test]
fn last_probe_waits_nine_staggers() {
    let stagger = u64::MAX / 9;
    let config = Config {
        qad: true,
        captive_portal_check: false,
        qad_stagger: stagger,
        timeouts: timeouts(),
    };
    let mut actor = NetReportActor::new(config, 0);
    let out = actor.step(request(ProbeScope::Full), &inputs(0, 7));
    let delays: Vec<u64> = out
        .list
        .iter()
        .filter_map(|action| match action {
            Action::SpawnQad { delay, .. } => Some(*delay),
            _ => None,
        })
        .collect();
    assert_eq!(delays, (0..10).map(|i| i * stagger).collect::<Vec<_>>());
}
