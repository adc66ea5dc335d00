//! The decisions of the actor that probes the network and publishes a report.
//!
//! The actor learns about the network in three ways. QAD (QUIC Address
//! Discovery) opens a QUIC connection to a relay, which reports the public
//! address it sees. An HTTPS probe measures the latency to a relay where QUIC
//! is blocked. The captive portal check looks for a network that intercepts
//! HTTP.
//!
//! A probe cycle is a round of probing triggered by a request. It publishes a
//! first report within a deadline even while probes are still running, and
//! gives up on stragglers after another.
//!
//! The actor does none of this work itself. Each of its steps is a function of
//! its state, of what happened and of the time, and yields a list of
//! [`Action`]s to be carried out in order.

use crate::net_report::history::{HistoryView, ReportHistory};
use crate::net_report::latencies::{LatencySample, RelayUrl};
use crate::net_report::qad::{AddrFamily, ProbeOutcome, QadProbeReport, QadState};
use crate::net_report::report::{HttpsProbeReport, Report, ReportView};
use crate::net_report::request::{IfState, ProbeRequest, ProbeScope};
use crate::time::{Duration, Instant};
use std::collections::BTreeSet;
use vstd::prelude::*;

verus! {

broadcast use {
    vstd::std_specs::btree::group_btree_axioms,
    vstd::laws_eq::group_laws_eq,
    vstd::laws_cmp::group_laws_cmp,
};

/// QAD probes are started to at most this many relays.
pub const MAX_RELAYS: usize = 5;

/// How long things take at most.
#[derive(Debug, Clone, Copy, PartialEq, Eq, Structural)]
pub struct Timeouts {
    /// A cycle's first report is published after this time at the latest.
    pub first_report: Duration,
    /// A cycle ends after this time, finished or not.
    pub abort: Duration,
    /// A `Full` cycle is due after this time.
    pub full_report_interval: Duration,
    /// How long a QAD probe may take.
    pub qad_probe: Duration,
    /// How long an HTTPS probe may take.
    pub https_probe: Duration,
    /// How long the captive portal check waits, to let QAD succeed first.
    pub captive_portal_delay: Duration,
    /// How long the captive portal check may take.
    pub captive_portal: Duration,
}

/// What the actor was configured with.
#[derive(Debug, Clone, Copy, PartialEq, Eq, Structural)]
pub struct Config {
    /// Whether there is a QUIC client to run QAD probes with.
    pub qad: bool,
    /// Whether to look for a captive portal.
    pub captive_portal_check: bool,
    /// The delay between successive QAD probes.
    pub qad_stagger: Duration,
    pub timeouts: Timeouts,
}

impl Config {
    /// Whether the delay of the last QAD probe of a cycle can be expressed.
    pub open spec fn valid(self) -> bool {
        self.qad_stagger * (2 * MAX_RELAYS - 1) <= Duration::MAX
    }
}

/// An HTTPS probe to be run.
#[derive(Debug, Clone, Copy, PartialEq, Eq, Structural)]
pub struct HttpsProbe {
    pub delay: Duration,
    pub relay: RelayUrl,
}

/// What the actor finds around it when it takes a step.
pub struct Inputs {
    /// The current time.
    pub now: Instant,
    /// The configured relays.
    pub relays: Vec<RelayUrl>,
    /// Whether the open QAD connection over IPv4 has closed meanwhile.
    pub v4_closed: bool,
    /// Whether the open QAD connection over IPv6 has closed meanwhile.
    pub v6_closed: bool,
    /// The HTTPS probes planned without a report to go by.
    pub https_initial: Vec<HttpsProbe>,
    /// The HTTPS probes planned by the last report.
    pub https_with_last: Vec<HttpsProbe>,
}

impl Inputs {
    /// Whether deadlines and probe counts of a cycle that starts now can be
    /// expressed.
    pub open spec fn fits(&self, t: Timeouts) -> bool {
        &&& self.now + t.first_report <= Instant::MAX
        &&& self.now + t.abort <= Instant::MAX
        &&& self.https_initial@.len() + 2 * MAX_RELAYS + 1 <= usize::MAX
        &&& self.https_with_last@.len() + 2 * MAX_RELAYS + 1 <= usize::MAX
    }

    /// Whether the open QAD connection of a family has closed meanwhile.
    pub open spec fn closed(&self, family: AddrFamily) -> bool {
        match family {
            AddrFamily::V4 => self.v4_closed,
            AddrFamily::V6 => self.v6_closed,
        }
    }
}

/// The open QAD connections, each by what it last observed.
#[derive(Debug, Clone, Copy, PartialEq, Eq, Structural)]
pub struct QadConns {
    pub v4: Option<QadProbeReport>,
    pub v6: Option<QadProbeReport>,
}

impl QadConns {
    /// No open connection.
    pub open spec fn none() -> QadConns {
        QadConns { v4: None, v6: None }
    }

    /// What the open connection of a family last observed.
    pub open spec fn of(self, family: AddrFamily) -> Option<QadProbeReport> {
        match family {
            AddrFamily::V4 => self.v4,
            AddrFamily::V6 => self.v6,
        }
    }

    /// The connections with that of one family replaced.
    pub open spec fn with(self, family: AddrFamily, conn: Option<QadProbeReport>) -> QadConns {
        match family {
            AddrFamily::V4 => QadConns { v4: conn, ..self },
            AddrFamily::V6 => QadConns { v6: conn, ..self },
        }
    }

    /// Returns what the open connection of `family` last observed.
    pub fn current(&self, family: AddrFamily) -> (r: Option<QadProbeReport>)
        ensures
            r == self.of(family),
    {
        match family {
            AddrFamily::V4 => self.v4,
            AddrFamily::V6 => self.v6,
        }
    }

    /// Replaces the connection of `family`.
    pub fn set(&mut self, family: AddrFamily, conn: Option<QadProbeReport>)
        ensures
            *final(self) == old(self).with(family, conn),
    {
        match family {
            AddrFamily::V4 => self.v4 = conn,
            AddrFamily::V6 => self.v6 = conn,
        }
    }
}

/// State of the currently running probe cycle.
#[derive(Debug, Clone, Copy, PartialEq, Eq, Structural)]
pub struct ProbeCycle {
    pub started: Instant,
    /// Probes that have not yet reported a final result.
    pub pending: usize,
    /// Per-family QAD progress, used to gate the first report.
    pub qad: QadState,
    /// Whether the first report of this cycle has been published yet.
    pub published: bool,
    /// A `Refresh` request that arrived mid-cycle, run when this one ends.
    pub rerun: Option<ProbeRequest>,
    /// When the first report is due at the latest; `None` once that passed.
    pub report_deadline: Option<Instant>,
    /// When the cycle is given up; `None` once that passed.
    pub abort_deadline: Option<Instant>,
}

/// Something that happened to a probe.
///
/// Each probe that a cycle starts sends exactly one final result: `QadResult`,
/// `Https` or `CaptivePortal`. An open QAD connection sends a `QadObservation`
/// every time the public address changes, and those belong to no cycle.
#[derive(Debug)]
pub enum ProbeEvent {
    /// A QAD probe finished. On success it left a connection to keep open.
    QadResult(AddrFamily, ProbeOutcome<QadProbeReport, ()>),
    /// An open QAD connection reported an address, possibly a new one.
    QadObservation(AddrFamily, QadProbeReport),
    /// An HTTPS latency probe finished.
    Https(ProbeOutcome<HttpsProbeReport, ()>),
    /// The captive portal check finished.
    CaptivePortal(ProbeOutcome<bool, ()>),
}

/// What wakes the actor up.
#[derive(Debug)]
pub enum Wakeup {
    /// A probe request arrived.
    Request(ProbeRequest),
    /// A probe sent an event.
    Event(ProbeEvent),
    /// A probe ended without a final result.
    ProbeLost,
    /// The first-report deadline passed.
    ReportDeadline,
    /// The abort deadline passed.
    AbortDeadline,
}

/// Something to be done for the actor, with reports of type `R`.
#[derive(Debug)]
pub enum Action<R> {
    /// Abort every probe in flight.
    AbortProbes,
    /// Drop every event that waits to be handled.
    DropEvents,
    /// Count a started cycle.
    CountCycle,
    /// Count a started `Full` cycle.
    CountFullCycle,
    /// Close the open QAD connections of both families.
    CloseQadConns,
    /// Let go of the closed QAD connection of a family.
    ForgetQadConn(AddrFamily),
    /// Keep open the connection that came with the QAD result at hand.
    KeepQadConn(AddrFamily),
    /// Close the connection that came with the QAD result at hand.
    CloseNewQadConn(AddrFamily),
    /// Make the QAD probes of both families cancellable anew.
    RenewQadCancels,
    /// Cancel the QAD probes of a family.
    CancelQad(AddrFamily),
    /// Make HTTPS probes cancellable anew.
    RenewHttpsCancel,
    /// Cancel the HTTPS probes.
    CancelHttps,
    /// Make the captive portal check cancellable anew.
    RenewCaptivePortalCancel,
    /// Cancel the captive portal check.
    CancelCaptivePortal,
    /// Start a QAD probe after a delay.
    SpawnQad { family: AddrFamily, relay: RelayUrl, delay: Duration, timeout: Duration },
    /// Start an HTTPS probe after a delay.
    SpawnHttps { relay: RelayUrl, delay: Duration, timeout: Duration },
    /// Start the captive portal check after a delay.
    SpawnCaptivePortal { preferred: Option<RelayUrl>, delay: Duration, timeout: Duration },
    /// Publish a report.
    Publish(R),
    /// Handle this request next.
    Rerun(ProbeRequest),
}

impl Action<Report> {
    /// The action with the value of its report.
    pub open spec fn value(self) -> Action<ReportView> {
        match self {
            Action::AbortProbes => Action::AbortProbes,
            Action::DropEvents => Action::DropEvents,
            Action::CountCycle => Action::CountCycle,
            Action::CountFullCycle => Action::CountFullCycle,
            Action::CloseQadConns => Action::CloseQadConns,
            Action::ForgetQadConn(family) => Action::ForgetQadConn(family),
            Action::KeepQadConn(family) => Action::KeepQadConn(family),
            Action::CloseNewQadConn(family) => Action::CloseNewQadConn(family),
            Action::RenewQadCancels => Action::RenewQadCancels,
            Action::CancelQad(family) => Action::CancelQad(family),
            Action::RenewHttpsCancel => Action::RenewHttpsCancel,
            Action::CancelHttps => Action::CancelHttps,
            Action::RenewCaptivePortalCancel => Action::RenewCaptivePortalCancel,
            Action::CancelCaptivePortal => Action::CancelCaptivePortal,
            Action::SpawnQad { family, relay, delay, timeout } => Action::SpawnQad {
                family,
                relay,
                delay,
                timeout,
            },
            Action::SpawnHttps { relay, delay, timeout } => Action::SpawnHttps {
                relay,
                delay,
                timeout,
            },
            Action::SpawnCaptivePortal { preferred, delay, timeout } => Action::SpawnCaptivePortal {
                preferred,
                delay,
                timeout,
            },
            Action::Publish(report) => Action::Publish(report@),
            Action::Rerun(request) => Action::Rerun(request),
        }
    }
}

/// Actions in the order in which they are to be carried out.
pub struct Actions {
    pub list: Vec<Action<Report>>,
}

impl View for Actions {
    type V = Seq<Action<ReportView>>;

    open spec fn view(&self) -> Seq<Action<ReportView>> {
        self.list@.map_values(|a: Action<Report>| a.value())
    }
}

impl Actions {
    /// No actions.
    pub fn new() -> (r: Self)
        ensures
            r@ == Seq::<Action<ReportView>>::empty(),
    {
        let r = Actions { list: Vec::new() };
        assert(r@ =~= Seq::<Action<ReportView>>::empty());
        r
    }

    /// Appends an action.
    pub fn push(&mut self, action: Action<Report>)
        ensures
            final(self)@ == old(self)@.push(action.value()),
    {
        self.list.push(action);
        assert(self@ =~= old(self)@.push(action.value()));
    }
}

/// Actor that owns all probe state and decides what to probe and what to
/// publish.
pub struct NetReportActor {
    pub config: Config,
    /// The open QAD connection kept for each family, reused across cycles.
    pub qad_conns: QadConns,
    /// The report being built. It is cleared at the start of each cycle and
    /// refilled from the open QAD connections; between cycles, address
    /// observations update it in place.
    pub report: Report,
    pub reports: ReportHistory,
    /// The in-flight cycle, or `None` when idle.
    pub cycle: Option<ProbeCycle>,
}

/// The mathematical value of a [`NetReportActor`].
pub struct ActorView {
    pub config: Config,
    pub qad_conns: QadConns,
    pub report: ReportView,
    pub reports: HistoryView,
    pub cycle: Option<ProbeCycle>,
}

impl View for NetReportActor {
    type V = ActorView;

    open spec fn view(&self) -> ActorView {
        ActorView {
            config: self.config,
            qad_conns: self.qad_conns,
            report: self.report@,
            reports: self.reports@,
            cycle: self.cycle,
        }
    }
}

/// A state of the actor, with the actions that led to it.
pub struct Step {
    pub actor: ActorView,
    pub actions: Seq<Action<ReportView>>,
}

/// Where an actor stands when it has yielded the actions `out`.
pub open spec fn at(actor: &NetReportActor, out: &Actions) -> Step {
    Step { actor: actor@, actions: out@ }
}

impl ActorView {
    /// Whether the actor was configured within bounds.
    pub open spec fn valid(self) -> bool {
        self.config.valid()
    }

    /// Whether the report at hand may be published: it is not empty, and it
    /// is not a cycle's first report while a family that the cycle probes is
    /// undetermined.
    pub open spec fn publishable(self) -> bool {
        &&& self.report.has_data()
        &&& self.cycle matches Some(c) ==> c.published || c.qad.settled()
    }

    /// The state after one probe of the cycle has finished.
    pub open spec fn probe_finished(self) -> ActorView {
        match self.cycle {
            Some(c) => {
                let pending = if c.pending > 0 {
                    (c.pending - 1) as usize
                } else {
                    0
                };
                ActorView { cycle: Some(ProbeCycle { pending, ..c }), ..self }
            },
            None => self,
        }
    }

    /// Whether QAD probes of a family are called for: an interface offers the
    /// family, and no connection of it is open.
    pub open spec fn needs_qad(self, if_state: IfState, family: AddrFamily) -> bool {
        &&& self.qad_conns.of(family) is None
        &&& match family {
            AddrFamily::V4 => if_state.have_v4,
            AddrFamily::V6 => if_state.have_v6,
        }
    }

    /// How many QAD probes of a family a cycle starts.
    pub open spec fn qad_count(self, if_state: IfState, family: AddrFamily, relays: nat) -> nat {
        if !self.config.qad || !self.needs_qad(if_state, family) {
            0
        } else if relays < MAX_RELAYS {
            relays
        } else {
            MAX_RELAYS as nat
        }
    }

    /// The QAD probe that a cycle starts as its `i`-th, counted from zero.
    /// Relays are taken in their order, the families called for in turn at
    /// each, and each probe starts a stagger later than the one before.
    pub open spec fn qad_probe(self, if_state: IfState, relays: Seq<RelayUrl>, i: int) -> Action<
        ReportView,
    > {
        let v4 = self.needs_qad(if_state, AddrFamily::V4);
        let v6 = self.needs_qad(if_state, AddrFamily::V6);
        Action::SpawnQad {
            family: if v4 && (!v6 || i % 2 == 0) {
                AddrFamily::V4
            } else {
                AddrFamily::V6
            },
            relay: if v4 && v6 {
                relays[i / 2]
            } else {
                relays[i]
            },
            delay: (self.config.qad_stagger * i) as Duration,
            timeout: self.config.timeouts.qad_probe,
        }
    }

    /// The QAD probes that a cycle starts.
    pub open spec fn qad_probes(self, if_state: IfState, relays: Seq<RelayUrl>) -> Seq<
        Action<ReportView>,
    > {
        Seq::new(
            self.qad_count(if_state, AddrFamily::V4, relays.len()) + self.qad_count(
                if_state,
                AddrFamily::V6,
                relays.len(),
            ),
            |i: int| self.qad_probe(if_state, relays, i),
        )
    }

    /// The HTTPS probes that a cycle starts for a plan.
    pub open spec fn https_probes(self, plan: Seq<HttpsProbe>) -> Seq<Action<ReportView>> {
        plan.map_values(
            |p: HttpsProbe|
                Action::SpawnHttps {
                    relay: p.relay,
                    delay: p.delay,
                    timeout: self.config.timeouts.https_probe,
                },
        )
    }

    /// The plan by which a cycle runs HTTPS probes: that by the last report
    /// where there is one.
    pub open spec fn https_plan(self, inp: Inputs) -> Seq<HttpsProbe> {
        if self.reports.last is Some {
            inp.https_with_last@
        } else {
            inp.https_initial@
        }
    }

    /// Whether every one of the relays has a latency sample.
    pub open spec fn has_all_latencies(self, relays: Seq<RelayUrl>) -> bool {
        forall|i: int|
            0 <= i < relays.len() ==> is_sampled(self.report.relay_latency, #[trigger] relays[i])
    }
}

/// Whether a sample was taken of a relay.
pub open spec fn is_sampled(s: Seq<LatencySample>, url: RelayUrl) -> bool {
    exists|i: int| 0 <= i < s.len() && (#[trigger] s[i]).url == url
}

impl Step {
    /// The step after one more action.
    pub open spec fn did(self, action: Action<ReportView>) -> Step {
        Step { actions: self.actions.push(action), ..self }
    }

    /// The step after more actions.
    pub open spec fn did_all(self, actions: Seq<Action<ReportView>>) -> Step {
        Step { actions: self.actions + actions, ..self }
    }

    /// The step with another cycle in flight, or none.
    pub open spec fn with_cycle(self, cycle: Option<ProbeCycle>) -> Step {
        Step { actor: ActorView { cycle, ..self.actor }, ..self }
    }

    /// The step with another report at hand.
    pub open spec fn with_report(self, report: ReportView) -> Step {
        Step { actor: ActorView { report, ..self.actor }, ..self }
    }

    /// The step with other open QAD connections.
    pub open spec fn with_qad_conns(self, qad_conns: QadConns) -> Step {
        Step { actor: ActorView { qad_conns, ..self.actor }, ..self }
    }

    /// One probe of the cycle has finished, however it exited.
    pub open spec fn probe_finished(self) -> Step {
        Step { actor: self.actor.probe_finished(), ..self }
    }

    /// The report is published, unless it is held back.
    pub open spec fn publish(self) -> Step {
        if self.actor.publishable() {
            match self.actor.cycle {
                Some(c) => self.with_cycle(Some(ProbeCycle { published: true, ..c })),
                None => self,
            }.did(Action::Publish(self.actor.report))
        } else {
            self
        }
    }

    /// The cycle ends: its report is recorded, stamped with the preferred
    /// relay and published unless it is empty, and a request that waited for
    /// the end is handled next.
    pub open spec fn finish_cycle(self, now: Instant) -> Step {
        match self.actor.cycle {
            None => self,
            Some(c) => {
                let stamped = self.actor.reports.stamped(self.actor.report, now);
                let recorded = Step {
                    actor: ActorView {
                        report: stamped,
                        reports: self.actor.reports.after_record(self.actor.report, now),
                        cycle: None,
                        ..self.actor
                    },
                    ..self
                };
                let emitted = if stamped.has_data() {
                    recorded.did(Action::Publish(stamped))
                } else {
                    recorded
                };
                match c.rerun {
                    Some(request) => emitted.did(Action::Rerun(request)),
                    None => emitted,
                }
            },
        }
    }

    /// The cycle ends if all its probes have finished.
    pub open spec fn advance(self, now: Instant) -> Step {
        if self.actor.cycle matches Some(c) && c.pending == 0 {
            self.finish_cycle(now)
        } else {
            self
        }
    }

    /// The open QAD connection of a family is let go of if it has closed, and
    /// its last observation is copied into the report if it has not.
    pub open spec fn check_qad_conn(self, family: AddrFamily, closed: bool) -> Step {
        match self.actor.qad_conns.of(family) {
            None => self,
            Some(last) => if closed {
                self.with_qad_conns(self.actor.qad_conns.with(family, None)).did(
                    Action::ForgetQadConn(family),
                )
            } else {
                self.with_report(self.actor.report.after_qad_observation(family, last))
            },
        }
    }

    /// The open QAD connections are checked, and QAD probes started for each
    /// family that needs them.
    pub open spec fn spawn_qad_probes(self, if_state: IfState, inp: Inputs) -> Step {
        if self.actor.config.qad {
            let checked = self.check_qad_conn(AddrFamily::V4, inp.v4_closed).check_qad_conn(
                AddrFamily::V6,
                inp.v6_closed,
            ).did(Action::RenewQadCancels);
            checked.did_all(checked.actor.qad_probes(if_state, inp.relays@))
        } else {
            self
        }
    }

    /// HTTPS probes are started by plan.
    pub open spec fn spawn_https_probes(self, inp: Inputs) -> Step {
        self.did_all(self.actor.https_probes(self.actor.https_plan(inp)))
    }

    /// The captive portal check is started.
    pub open spec fn spawn_captive_portal(self) -> Step {
        self.did(Action::RenewCaptivePortalCancel).did(
            Action::SpawnCaptivePortal {
                preferred: self.actor.reports.prev_relay(),
                delay: self.actor.config.timeouts.captive_portal_delay,
                timeout: self.actor.config.timeouts.captive_portal,
            },
        )
    }

    /// A cycle of a scope is set up: a `Full` one starts from nothing. Either
    /// starts with an empty report.
    pub open spec fn set_up(self, scope: ProbeScope, now: Instant) -> Step {
        let cleared = if scope == ProbeScope::Full {
            Step {
                actor: ActorView {
                    qad_conns: QadConns::none(),
                    reports: HistoryView {
                        last: None,
                        next_full: false,
                        last_full: now,
                        ..self.actor.reports
                    },
                    ..self.actor
                },
                ..self
            }.did(Action::CloseQadConns).did(Action::CountFullCycle)
        } else {
            self
        };
        cleared.did(Action::CountCycle).with_report(ReportView::empty()).did(
            Action::RenewHttpsCancel,
        )
    }

    /// A cycle is in flight, with all its probes started.
    pub open spec fn launched(self, request: ProbeRequest, inp: Inputs) -> Step {
        let now = inp.now;
        let config = self.actor.config;
        let scope = self.actor.reports.next_scope(
            request.scope,
            now,
            config.timeouts.full_report_interval,
        );
        let with_qad = self.set_up(scope, now).spawn_qad_probes(request.if_state, inp);
        let relays = inp.relays@.len();
        let v4 = with_qad.actor.qad_count(request.if_state, AddrFamily::V4, relays);
        let v6 = with_qad.actor.qad_count(request.if_state, AddrFamily::V6, relays);
        let with_https = with_qad.spawn_https_probes(inp);
        let https = with_qad.actor.https_plan(inp).len();
        let portal = scope == ProbeScope::Full && config.captive_portal_check;
        let spawned = if portal {
            with_https.spawn_captive_portal()
        } else {
            with_https
        };
        spawned.with_cycle(
            Some(
                ProbeCycle {
                    started: now,
                    pending: (v4 + v6 + https + if portal {
                        1int
                    } else {
                        0
                    }) as usize,
                    qad: QadState::started(v4 as usize, v6 as usize),
                    published: false,
                    rerun: None,
                    report_deadline: Some((now + config.timeouts.first_report) as Instant),
                    abort_deadline: Some((now + config.timeouts.abort) as Instant),
                },
            ),
        )
    }

    /// A cycle starts. One without any probes is already complete.
    pub open spec fn start_cycle(self, request: ProbeRequest, inp: Inputs) -> Step {
        self.launched(request, inp).advance(inp.now)
    }

    /// The cycle's probes are aborted, and what they have already sent is
    /// dropped.
    pub open spec fn abort_cycle(self) -> Step {
        self.with_cycle(None).did(Action::AbortProbes).did(Action::DropEvents)
    }

    /// A request is deferred, restarts the cycle, or starts one. Nothing is
    /// done without relays.
    pub open spec fn handle_request(self, request: ProbeRequest, inp: Inputs) -> Step {
        if inp.relays@.len() == 0 {
            self
        } else {
            match self.actor.cycle {
                None => self.start_cycle(request, inp),
                Some(c) => match request.scope {
                    ProbeScope::Refresh => self.with_cycle(
                        Some(
                            ProbeCycle {
                                rerun: Some(
                                    ProbeRequest {
                                        if_state: request.if_state,
                                        scope: match c.rerun {
                                            Some(waiting) => waiting.scope,
                                            None => request.scope,
                                        },
                                    },
                                ),
                                ..c
                            },
                        ),
                    ),
                    ProbeScope::Full => self.abort_cycle().start_cycle(request, inp),
                },
            }
        }
    }

    /// A QAD probe of a family has found something: the report takes it in.
    /// The connection of the first result is kept open; a later one is
    /// closed, and with it the remaining probes of the family. UDP works, so
    /// no captive portal needs to be looked for.
    pub open spec fn qad_success(self, family: AddrFamily, r: QadProbeReport) -> Step {
        let taken = self.with_report(self.actor.report.after_qad_result(family, r));
        if self.actor.qad_conns.of(family) is None {
            taken.with_qad_conns(self.actor.qad_conns.with(family, Some(r))).did(
                Action::KeepQadConn(family),
            )
        } else {
            taken.did(Action::CloseNewQadConn(family)).did(Action::CancelQad(family))
        }.did(Action::CancelCaptivePortal)
    }

    /// A QAD probe has finished.
    pub open spec fn qad_result(
        self,
        family: AddrFamily,
        outcome: ProbeOutcome<QadProbeReport, ()>,
    ) -> Step {
        let counted = match self.actor.cycle {
            Some(c) => self.with_cycle(
                Some(
                    ProbeCycle {
                        qad: c.qad.with(
                            family,
                            c.qad.of(family).after_result(outcome is Success),
                        ),
                        ..c
                    },
                ),
            ),
            None => self,
        }.probe_finished();
        match outcome {
            ProbeOutcome::Success(r) => counted.qad_success(family, r),
            _ => counted,
        }
    }

    /// An open QAD connection has observed something. It counts if it comes
    /// from the connection that is kept for the family.
    pub open spec fn qad_observation(self, family: AddrFamily, r: QadProbeReport) -> Step {
        if self.actor.qad_conns.of(family) matches Some(last) && last.relay_url == r.relay_url {
            self.with_qad_conns(self.actor.qad_conns.with(family, Some(r))).with_report(
                self.actor.report.after_qad_observation(family, r),
            ).publish()
        } else {
            self
        }
    }

    /// An HTTPS probe has finished. Once every relay has a latency sample, no
    /// further one is needed.
    pub open spec fn https_result(
        self,
        outcome: ProbeOutcome<HttpsProbeReport, ()>,
        relays: Seq<RelayUrl>,
    ) -> Step {
        match outcome {
            ProbeOutcome::Success(r) => {
                let taken = self.probe_finished().with_report(
                    self.actor.report.after_https_result(r),
                );
                if taken.actor.has_all_latencies(relays) {
                    taken.did(Action::CancelHttps)
                } else {
                    taken
                }
            },
            _ => self.probe_finished(),
        }
    }

    /// The captive portal check has finished.
    pub open spec fn captive_portal_result(self, outcome: ProbeOutcome<bool, ()>) -> Step {
        match outcome {
            ProbeOutcome::Success(found) => self.probe_finished().with_report(
                ReportView { captive_portal: Some(found), ..self.actor.report },
            ),
            _ => self.probe_finished(),
        }
    }

    /// Something has happened to a probe: the report takes it in and is
    /// published, and after a final result the cycle moves on.
    pub open spec fn handle_event(
        self,
        event: ProbeEvent,
        relays: Seq<RelayUrl>,
        now: Instant,
    ) -> Step {
        match event {
            ProbeEvent::QadResult(family, outcome) => self.qad_result(
                family,
                outcome,
            ).publish().advance(now),
            ProbeEvent::QadObservation(family, r) => self.qad_observation(family, r),
            ProbeEvent::Https(outcome) => self.https_result(outcome, relays).publish().advance(now),
            ProbeEvent::CaptivePortal(outcome) => self.captive_portal_result(
                outcome,
            ).publish().advance(now),
        }
    }

    /// The first-report deadline passed: what is there is published, even if
    /// some probed families have not answered yet.
    pub open spec fn on_report_deadline(self) -> Step {
        match self.actor.cycle {
            Some(c) => self.with_cycle(
                Some(ProbeCycle { report_deadline: None, published: true, ..c }),
            ),
            None => self,
        }.publish()
    }

    /// The abort deadline passed: the remaining probes stop and the cycle
    /// ends with what is there.
    pub open spec fn on_abort_deadline(self, now: Instant) -> Step {
        match self.actor.cycle {
            Some(c) => self.with_cycle(Some(ProbeCycle { abort_deadline: None, pending: 0, ..c })),
            None => self,
        }.did(Action::AbortProbes).finish_cycle(now)
    }

    /// The actor wakes up.
    pub open spec fn wake(self, wakeup: Wakeup, inp: Inputs) -> Step {
        match wakeup {
            Wakeup::Request(request) => self.handle_request(request, inp),
            Wakeup::Event(event) => self.handle_event(event, inp.relays@, inp.now),
            Wakeup::ProbeLost => self.probe_finished().advance(inp.now),
            Wakeup::ReportDeadline => self.on_report_deadline(),
            Wakeup::AbortDeadline => self.on_abort_deadline(inp.now),
        }
    }
}

impl NetReportActor {
    /// An idle actor, as of `now`.
    pub fn new(config: Config, now: Instant) -> (r: Self)
        requires
            config.valid(),
        ensures
            r@.valid(),
            r@ == (ActorView {
                config,
                qad_conns: QadConns::none(),
                report: ReportView::empty(),
                reports: HistoryView {
                    next_full: true,
                    prev: Map::empty(),
                    last: None,
                    last_full: now,
                },
                cycle: None,
            }),
    {
        NetReportActor {
            config,
            qad_conns: QadConns { v4: None, v6: None },
            report: Report::default(),
            reports: ReportHistory::new(now),
            cycle: None,
        }
    }

    /// Records that one cycle probe has finished, however it exited.
    pub fn probe_finished(&mut self)
        ensures
            final(self)@ == old(self)@.probe_finished(),
    {
        if let Some(c) = self.cycle {
            let pending = if c.pending > 0 {
                c.pending - 1
            } else {
                0
            };
            self.cycle = Some(ProbeCycle { pending, ..c });
        }
    }

    /// Publishes the current report, unless a guard holds it back.
    ///
    /// Two guards apply. An empty report is never published, since it would
    /// overwrite addresses a caller has already seen. And the first report of
    /// a cycle waits until every family the cycle probed has a result, so a
    /// caller does not briefly see an IPv4-only report just before the IPv6
    /// address arrives.
    pub fn publish(&mut self, out: &mut Actions)
        ensures
            at(final(self), final(out)) == at(old(self), old(out)).publish(),
    {
        if !self.report.has_data() {
            return;
        }
        if let Some(c) = self.cycle {
            if !c.published && !c.qad.all_determined() {
                return;
            }
            self.cycle = Some(ProbeCycle { published: true, ..c });
        }
        out.push(Action::Publish(self.report.clone()));
    }

    /// Finalizes the cycle if all its probes have finished.
    pub fn advance(&mut self, now: Instant, out: &mut Actions)
        ensures
            at(final(self), final(out)) == at(old(self), old(out)).advance(now),
    {
        if let Some(c) = self.cycle {
            if c.pending == 0 {
                self.finish_cycle(now, out);
            }
        }
    }

    /// Commits the cycle to history, selects the preferred relay, and emits
    /// the final report. Then asks for any deferred request to be handled.
    pub fn finish_cycle(&mut self, now: Instant, out: &mut Actions)
        ensures
            at(final(self), final(out)) == at(old(self), old(out)).finish_cycle(now),
    {
        if let Some(c) = self.cycle {
            self.cycle = None;
            self.reports.record(&mut self.report, now);
            // The last good report is kept rather than overwritten with an
            // empty one when a cycle discovered nothing.
            if self.report.has_data() {
                out.push(Action::Publish(self.report.clone()));
            }
            if let Some(request) = c.rerun {
                out.push(Action::Rerun(request));
            }
        }
    }

    /// The first-report deadline fired. Publishes what is there now, even if
    /// some probed families have not answered yet.
    pub fn on_report_deadline(&mut self, out: &mut Actions)
        ensures
            at(final(self), final(out)) == at(old(self), old(out)).on_report_deadline(),
    {
        if let Some(c) = self.cycle {
            self.cycle = Some(ProbeCycle { report_deadline: None, published: true, ..c });
        }
        self.publish(out);
    }

    /// Abort deadline: stops remaining probes and finalizes with what is
    /// there.
    pub fn on_abort_deadline(&mut self, now: Instant, out: &mut Actions)
        ensures
            at(final(self), final(out)) == at(old(self), old(out)).on_abort_deadline(now),
    {
        out.push(Action::AbortProbes);
        if let Some(c) = self.cycle {
            self.cycle = Some(ProbeCycle { abort_deadline: None, pending: 0, ..c });
        }
        self.finish_cycle(now, out);
    }

    /// Returns `true` when every relay has at least one latency sample.
    pub fn have_all_relay_latencies(&self, relays: &Vec<RelayUrl>) -> (r: bool)
        ensures
            r == self@.has_all_latencies(relays@),
    {
        let ghost s = self.report@.relay_latency;
        let mut seen: BTreeSet<u64> = BTreeSet::new();
        let samples = self.report.relay_latency.iter();
        let n = samples.len();
        let mut i: usize = 0;
        while i < n
            invariant
                i <= n == samples@.len(),
                samples@ == s,
                forall|j: int| 0 <= j < i ==> seen@.contains((#[trigger] s[j]).url.0),
                forall|id: u64| #[trigger] seen@.contains(id) ==> is_sampled(s, RelayUrl(id)),
            decreases n - i,
        {
            seen.insert(samples[i].url.0);
            assert(s[i as int].url == RelayUrl(s[i as int].url.0));
            i += 1;
        }
        let m = relays.len();
        let mut k: usize = 0;
        while k < m
            invariant
                k <= m == relays@.len(),
                s == self@.report.relay_latency,
                forall|j: int| 0 <= j < s.len() ==> seen@.contains((#[trigger] s[j]).url.0),
                forall|id: u64| #[trigger] seen@.contains(id) ==> is_sampled(s, RelayUrl(id)),
                forall|j: int| 0 <= j < k ==> is_sampled(s, #[trigger] relays@[j]),
            decreases m - k,
        {
            let url = relays[k];
            assert(url == RelayUrl(url.0));
            if !seen.contains(&url.0) {
                assert(!is_sampled(s, relays@[k as int]));
                return false;
            }
            k += 1;
        }
        true
    }

    /// Lets go of the open QAD connection of `family` if it has closed, and
    /// copies its last observation into the report if it has not.
    fn check_qad_conn(&mut self, family: AddrFamily, closed: bool, out: &mut Actions)
        ensures
            at(final(self), final(out)) == at(old(self), old(out)).check_qad_conn(family, closed),
    {
        if let Some(last) = self.qad_conns.current(family) {
            if closed {
                self.qad_conns.set(family, None);
                out.push(Action::ForgetQadConn(family));
            } else {
                self.report.apply_qad_observation(family, &last);
            }
        }
    }

    /// Starts QAD probes for each family that needs them, and returns how many
    /// it started per family, IPv4 first.
    ///
    /// A family needs probes only when it has no open connection. Before
    /// deciding, any connection that has since closed is dropped, and the
    /// last address of each surviving connection is copied into the report.
    pub fn spawn_qad_probes(&mut self, if_state: IfState, inp: &Inputs, out: &mut Actions) -> (r: (
        usize,
        usize,
    ))
        requires
            old(self)@.valid(),
        ensures
            at(final(self), final(out)) == at(old(self), old(out)).spawn_qad_probes(
                if_state,
                *inp,
            ),
            r.0 == final(self)@.qad_count(if_state, AddrFamily::V4, inp.relays@.len()),
            r.1 == final(self)@.qad_count(if_state, AddrFamily::V6, inp.relays@.len()),
    {
        if !self.config.qad {
            return (0, 0);
        }
        self.check_qad_conn(AddrFamily::V4, inp.v4_closed, out);
        self.check_qad_conn(AddrFamily::V6, inp.v6_closed, out);
        out.push(Action::RenewQadCancels);
        let v4 = self.qad_conns.v4.is_none() && if_state.have_v4;
        let v6 = self.qad_conns.v6.is_none() && if_state.have_v6;
        let stagger = self.config.qad_stagger;
        let timeout = self.config.timeouts.qad_probe;
        let n = if inp.relays.len() < MAX_RELAYS {
            inp.relays.len()
        } else {
            MAX_RELAYS
        };
        let ghost before = out@;
        let ghost relays = inp.relays@;
        let mut spawned: u64 = 0;
        let mut i: usize = 0;
        while i < n
            invariant
                i <= n <= relays.len(),
                n <= MAX_RELAYS,
                relays == inp.relays@,
                stagger == self.config.qad_stagger,
                timeout == self.config.timeouts.qad_probe,
                self@.valid(),
                v4 == self@.needs_qad(if_state, AddrFamily::V4),
                v6 == self@.needs_qad(if_state, AddrFamily::V6),
                spawned == (if v4 { i as int } else { 0 }) + (if v6 { i as int } else { 0 }),
                out@ == before + Seq::new(
                    spawned as nat,
                    |k: int| self@.qad_probe(if_state, relays, k),
                ),
            decreases n - i,
        {
            let relay = inp.relays[i];
            if v4 {
                proof {
                    delays_fit(stagger, spawned as int);
                }
                let delay = stagger * spawned;
                out.push(Action::SpawnQad { family: AddrFamily::V4, relay, delay, timeout });
                spawned += 1;
                assert(out@ =~= before + Seq::new(
                    spawned as nat,
                    |k: int| self@.qad_probe(if_state, relays, k),
                ));
            }
            if v6 {
                proof {
                    delays_fit(stagger, spawned as int);
                }
                let delay = stagger * spawned;
                out.push(Action::SpawnQad { family: AddrFamily::V6, relay, delay, timeout });
                spawned += 1;
                assert(out@ =~= before + Seq::new(
                    spawned as nat,
                    |k: int| self@.qad_probe(if_state, relays, k),
                ));
            }
            i += 1;
        }
        assert(Seq::new(
            spawned as nat,
            |k: int| self@.qad_probe(if_state, relays, k),
        ) =~= self@.qad_probes(if_state, relays));
        (
            if v4 {
                n
            } else {
                0
            },
            if v6 {
                n
            } else {
                0
            },
        )
    }

    /// Starts the HTTPS probes of the plan, and returns how many it started.
    pub fn spawn_https_probes(&mut self, inp: &Inputs, out: &mut Actions) -> (r: usize)
        ensures
            *final(self) == *old(self),
            at(final(self), final(out)) == at(old(self), old(out)).spawn_https_probes(*inp),
            r == old(self)@.https_plan(*inp).len(),
    {
        let plan = if self.reports.last.is_some() {
            &inp.https_with_last
        } else {
            &inp.https_initial
        };
        let timeout = self.config.timeouts.https_probe;
        let ghost before = out@;
        let ghost all = self@.https_probes(plan@);
        let n = plan.len();
        let mut i: usize = 0;
        while i < n
            invariant
                i <= n == plan@.len(),
                timeout == self.config.timeouts.https_probe,
                all == self@.https_probes(plan@),
                out@ == before + all.take(i as int),
            decreases n - i,
        {
            let p = plan[i];
            out.push(Action::SpawnHttps { relay: p.relay, delay: p.delay, timeout });
            i += 1;
            assert(all.take(i as int) =~= all.take(i - 1).push(all[i - 1]));
            assert(out@ =~= before + all.take(i as int));
        }
        assert(all.take(n as int) =~= all);
        n
    }

    /// Starts the captive portal check, delayed to give QAD probes time to
    /// succeed first.
    pub fn spawn_captive_portal(&mut self, out: &mut Actions)
        ensures
            *final(self) == *old(self),
            at(final(self), final(out)) == at(old(self), old(out)).spawn_captive_portal(),
    {
        out.push(Action::RenewCaptivePortalCancel);
        let preferred = match &self.reports.last {
            Some(last) => last.preferred_relay,
            None => None,
        };
        out.push(
            Action::SpawnCaptivePortal {
                preferred,
                delay: self.config.timeouts.captive_portal_delay,
                timeout: self.config.timeouts.captive_portal,
            },
        );
    }

    /// Aborts the current cycle's probes and drops any results they have
    /// already sent, so that none leaks into the next cycle.
    pub fn abort_cycle(&mut self, out: &mut Actions)
        ensures
            at(final(self), final(out)) == at(old(self), old(out)).abort_cycle(),
    {
        out.push(Action::AbortProbes);
        out.push(Action::DropEvents);
        self.cycle = None;
    }

    /// Starts a new probe cycle.
    pub fn start_cycle(&mut self, request: ProbeRequest, inp: &Inputs, out: &mut Actions)
        requires
            old(self)@.valid(),
            inp.fits(old(self)@.config.timeouts),
        ensures
            at(final(self), final(out)) == at(old(self), old(out)).start_cycle(request, *inp),
            final(self)@.config == old(self)@.config,
    {
        let now = inp.now;
        let timeouts = self.config.timeouts;
        let scope = self.reports.scope_for(request.scope, now, timeouts.full_report_interval);
        if scope == ProbeScope::Full {
            self.qad_conns = QadConns { v4: None, v6: None };
            self.reports.last = None;
            self.reports.next_full = false;
            self.reports.last_full = now;
            out.push(Action::CloseQadConns);
            out.push(Action::CountFullCycle);
        }
        out.push(Action::CountCycle);
        // Start the report from scratch: what the open QAD connections last
        // observed is copied back in below.
        self.report = Report::default();
        out.push(Action::RenewHttpsCancel);
        assert(at(self, out) == at(old(self), old(out)).set_up(scope, now));
        let (v4, v6) = self.spawn_qad_probes(request.if_state, inp, out);
        let mut pending: usize = v4 + v6 + self.spawn_https_probes(inp, out);
        if scope == ProbeScope::Full && self.config.captive_portal_check {
            self.spawn_captive_portal(out);
            pending += 1;
        }
        self.cycle = Some(
            ProbeCycle {
                started: now,
                pending,
                qad: QadState::new(v4, v6),
                published: false,
                rerun: None,
                report_deadline: Some(now + timeouts.first_report),
                abort_deadline: Some(now + timeouts.abort),
            },
        );
        // A cycle can start with no probes at all: every family already has
        // an open connection and no HTTPS probe is planned. It is complete,
        // and still updates the history and the preferred relay.
        self.advance(now, out);
    }

    /// Handles a probe request: defers it, restarts the cycle, or starts one.
    pub fn handle_request(&mut self, request: ProbeRequest, inp: &Inputs, out: &mut Actions)
        requires
            old(self)@.valid(),
            inp.fits(old(self)@.config.timeouts),
        ensures
            at(final(self), final(out)) == at(old(self), old(out)).handle_request(request, *inp),
            final(self)@.config == old(self)@.config,
    {
        if inp.relays.len() == 0 {
            return;
        }
        if let Some(c) = self.cycle {
            match request.scope {
                ProbeScope::Refresh => {
                    // Only `Refresh` requests are deferred, so the remembered
                    // scope stays `Refresh`; the latest interface state
                    // counts.
                    let rerun = match c.rerun {
                        Some(waiting) => ProbeRequest { if_state: request.if_state, ..waiting },
                        None => request,
                    };
                    self.cycle = Some(ProbeCycle { rerun: Some(rerun), ..c });
                    return;
                },
                ProbeScope::Full => self.abort_cycle(out),
            }
        }
        self.start_cycle(request, inp, out);
    }

    /// Applies one event to the report and drives the cycle forward.
    pub fn handle_event(
        &mut self,
        event: ProbeEvent,
        relays: &Vec<RelayUrl>,
        now: Instant,
        out: &mut Actions,
    )
        ensures
            at(final(self), final(out)) == at(old(self), old(out)).handle_event(
                event,
                relays@,
                now,
            ),
            final(self)@.config == old(self)@.config,
    {
        match event {
            ProbeEvent::QadResult(family, outcome) => {
                if let Some(c) = self.cycle {
                    let mut qad = c.qad;
                    qad.record_result(family, &outcome);
                    self.cycle = Some(ProbeCycle { qad, ..c });
                }
                self.probe_finished();
                if let ProbeOutcome::Success(r) = outcome {
                    // Accumulate: the first result sets the public address, a
                    // second one from a different relay decides whether the
                    // mapping varies by destination.
                    self.report.apply_qad_result(family, &r);
                    if self.qad_conns.current(family).is_none() {
                        // Keep this connection open, but let the other probes
                        // run so that a second result can decide the mapping.
                        self.qad_conns.set(family, Some(r));
                        out.push(Action::KeepQadConn(family));
                    } else {
                        out.push(Action::CloseNewQadConn(family));
                        out.push(Action::CancelQad(family));
                    }
                    out.push(Action::CancelCaptivePortal);
                }
                assert(at(self, out) == at(old(self), old(out)).qad_result(family, outcome));
                self.publish(out);
                self.advance(now, out);
            },
            ProbeEvent::QadObservation(family, r) => {
                // A probe that was dropped may still send one last observation
                // before it ends; only the kept connection counts.
                let is_current = match self.qad_conns.current(family) {
                    Some(last) => last.relay_url == r.relay_url,
                    None => false,
                };
                if is_current {
                    self.qad_conns.set(family, Some(r));
                    self.report.apply_qad_observation(family, &r);
                    self.publish(out);
                }
            },
            ProbeEvent::Https(outcome) => {
                self.probe_finished();
                if let ProbeOutcome::Success(r) = outcome {
                    self.report.apply_https_result(&r);
                    if self.have_all_relay_latencies(relays) {
                        out.push(Action::CancelHttps);
                    }
                }
                self.publish(out);
                self.advance(now, out);
            },
            ProbeEvent::CaptivePortal(outcome) => {
                self.probe_finished();
                if let ProbeOutcome::Success(found) = outcome {
                    self.report.captive_portal = Some(found);
                }
                self.publish(out);
                self.advance(now, out);
            },
        }
    }

    /// Takes the step that `wakeup` calls for, and returns what is to be done.
    pub fn step(&mut self, wakeup: Wakeup, inp: &Inputs) -> (out: Actions)
        requires
            old(self)@.valid(),
            inp.fits(old(self)@.config.timeouts),
        ensures
            at(final(self), &out) == (Step { actor: old(self)@, actions: Seq::empty() }).wake(
                wakeup,
                *inp,
            ),
            final(self)@.valid(),
            final(self)@.config == old(self)@.config,
    {
        let mut out = Actions::new();
        match wakeup {
            Wakeup::Request(request) => self.handle_request(request, inp, &mut out),
            Wakeup::Event(event) => self.handle_event(event, &inp.relays, inp.now, &mut out),
            Wakeup::ProbeLost => {
                // A probe that was lost never sent its final result, so it is
                // accounted for here and the cycle can end.
                self.probe_finished();
                self.advance(inp.now, &mut out);
            },
            Wakeup::ReportDeadline => self.on_report_deadline(&mut out),
            Wakeup::AbortDeadline => self.on_abort_deadline(inp.now, &mut out),
        }
        out
    }

    /// Returns the first-report deadline and the abort deadline to wait for.
    pub fn deadlines(&self) -> (r: (Option<Instant>, Option<Instant>))
        ensures
            r == match self@.cycle {
                Some(c) => (c.report_deadline, c.abort_deadline),
                None => (None, None),
            },
    {
        match self.cycle {
            Some(c) => (c.report_deadline, c.abort_deadline),
            None => (None, None),
        }
    }
}

/// The delay of each QAD probe of a cycle can be expressed.
proof fn delays_fit(stagger: Duration, i: int)
    requires
        stagger * (2 * MAX_RELAYS - 1) <= Duration::MAX,
        0 <= i < 2 * MAX_RELAYS,
    ensures
        0 <= stagger * i <= Duration::MAX,
{
    assert(0 <= stagger * i <= stagger * (2 * MAX_RELAYS - 1)) by (nonlinear_arith)
        requires
            0 <= i <= 2 * MAX_RELAYS - 1,
            0 <= stagger,
    ;
}

} // verus!
