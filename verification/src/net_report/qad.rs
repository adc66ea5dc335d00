//! Progress of QUIC Address Discovery (QAD) within a probe cycle.

use crate::addr::SocketAddr;
use crate::net_report::latencies::RelayUrl;
use crate::time::Duration;
use vstd::prelude::*;

verus! {

/// An address family.
#[derive(Debug, Clone, Copy, PartialEq, Eq, PartialOrd, Ord, Hash, Structural)]
pub enum AddrFamily {
    V4,
    V6,
}

/// The outcome of running a probe under a timeout and a cancellation: it
/// succeeded, failed with the probe's own error, timed out, or was cancelled.
#[derive(Debug)]
pub enum ProbeOutcome<T, E> {
    Success(T),
    Failure(E),
    Timeout,
    Cancelled,
}

impl<T, E> ProbeOutcome<T, E> {
    /// The outcome of a run that was cancelled (`None`), ran out of time
    /// (`Some(None)`) or came to a result of its own.
    pub open spec fn of(run: Option<Option<Result<T, E>>>) -> ProbeOutcome<T, E> {
        match run {
            None => ProbeOutcome::Cancelled,
            Some(None) => ProbeOutcome::Timeout,
            Some(Some(Ok(value))) => ProbeOutcome::Success(value),
            Some(Some(Err(err))) => ProbeOutcome::Failure(err),
        }
    }

    /// Names the outcome of a run: `None` if it was cancelled, `Some(None)` if
    /// it ran out of time.
    pub fn of_run(run: Option<Option<Result<T, E>>>) -> (r: Self)
        ensures
            r == ProbeOutcome::of(run),
    {
        match run {
            None => ProbeOutcome::Cancelled,
            Some(None) => ProbeOutcome::Timeout,
            Some(Some(Ok(value))) => ProbeOutcome::Success(value),
            Some(Some(Err(err))) => ProbeOutcome::Failure(err),
        }
    }
}

/// What a relay reported over a QAD connection: the public address from which
/// it sees us, and the latency of the round trip to it.
#[derive(Debug, Clone, Copy, PartialEq, Eq, Structural)]
pub struct QadProbeReport {
    pub relay_url: RelayUrl,
    pub addr: SocketAddr,
    pub latency: Duration,
}

/// Per-family QAD progress within a cycle.
#[derive(Debug, Clone, Copy, PartialEq, Eq, Structural)]
pub struct QadFamily {
    /// This cycle is probing the family.
    pub probing: bool,
    /// The family is determined: it has an address, or all of its probes have
    /// finished (so the family is genuinely down).
    pub determined: bool,
    /// QAD probes still outstanding for the family.
    pub outstanding: usize,
}

impl Default for QadFamily {
    fn default() -> (r: Self)
        ensures
            r == QadFamily::started(0),
    {
        QadFamily { probing: false, determined: false, outstanding: 0 }
    }
}

impl QadFamily {
    /// The state of a family of which `probes` probes were started.
    pub open spec fn started(probes: usize) -> QadFamily {
        QadFamily { probing: probes > 0, determined: false, outstanding: probes }
    }

    /// The state after one of the family's probes finished, with a success or
    /// without.
    pub open spec fn after_result(self, success: bool) -> QadFamily {
        let left = if self.outstanding > 0 {
            (self.outstanding - 1) as usize
        } else {
            0
        };
        QadFamily {
            outstanding: left,
            determined: self.determined || success || left == 0,
            ..self
        }
    }

    /// The state after probes finished one after the other, each with a
    /// success or without.
    pub open spec fn after_results(self, successes: Seq<bool>) -> QadFamily
        decreases successes.len(),
    {
        if successes.len() == 0 {
            self
        } else {
            self.after_results(successes.drop_last()).after_result(successes.last())
        }
    }

    /// Whether the family does not hold back the first report.
    pub open spec fn settled(self) -> bool {
        !self.probing || self.determined
    }

    /// State for a family with `probes` QAD probes started.
    pub fn new(probes: usize) -> (r: Self)
        ensures
            r == QadFamily::started(probes),
    {
        QadFamily { probing: probes > 0, determined: false, outstanding: probes }
    }
}

/// QAD progress for both address families within a cycle.
#[derive(Debug, Clone, Copy, PartialEq, Eq, Structural)]
pub struct QadState {
    pub v4: QadFamily,
    pub v6: QadFamily,
}

impl Default for QadState {
    fn default() -> (r: Self)
        ensures
            r == QadState::started(0, 0),
    {
        QadState { v4: QadFamily::default(), v6: QadFamily::default() }
    }
}

impl QadState {
    /// The state of a cycle that started so many probes per family.
    pub open spec fn started(v4_probes: usize, v6_probes: usize) -> QadState {
        QadState { v4: QadFamily::started(v4_probes), v6: QadFamily::started(v6_probes) }
    }

    /// The progress of one family.
    pub open spec fn of(self, family: AddrFamily) -> QadFamily {
        match family {
            AddrFamily::V4 => self.v4,
            AddrFamily::V6 => self.v6,
        }
    }

    /// The state with the progress of one family replaced.
    pub open spec fn with(self, family: AddrFamily, progress: QadFamily) -> QadState {
        match family {
            AddrFamily::V4 => QadState { v4: progress, ..self },
            AddrFamily::V6 => QadState { v6: progress, ..self },
        }
    }

    /// Whether neither family holds back the first report.
    pub open spec fn settled(self) -> bool {
        self.v4.settled() && self.v6.settled()
    }

    /// Builds the cycle's QAD gate state from the number of probes started per
    /// family.
    pub fn new(v4_probes: usize, v6_probes: usize) -> (r: Self)
        ensures
            r == QadState::started(v4_probes, v6_probes),
    {
        QadState { v4: QadFamily::new(v4_probes), v6: QadFamily::new(v6_probes) }
    }

    /// Returns `true` once every family this cycle is probing is determined.
    /// The first report is held until this holds (or its deadline passes), so
    /// consumers do not see a v4-only report a moment before v6.
    pub fn all_determined(&self) -> (r: bool)
        ensures
            r == self.settled(),
    {
        (!self.v4.probing || self.v4.determined) && (!self.v6.probing || self.v6.determined)
    }

    /// Records that one of `family`'s probes finished with `outcome`.
    ///
    /// The family becomes determined on its first success or once all of its
    /// probes are done, so a fast failure does not gate a premature
    /// family-negative first report.
    pub fn record_result<T, E>(&mut self, family: AddrFamily, outcome: &ProbeOutcome<T, E>)
        ensures
            *final(self) == old(self).with(
                family,
                old(self).of(family).after_result(outcome is Success),
            ),
    {
        let success = matches!(outcome, ProbeOutcome::Success(_));
        let fam = self.family_mut(family);
        if fam.outstanding > 0 {
            fam.outstanding = fam.outstanding - 1;
        }
        if success || fam.outstanding == 0 {
            fam.determined = true;
        }
    }

    /// The progress of `family`, to be changed.
    pub fn family_mut(&mut self, family: AddrFamily) -> (r: &mut QadFamily)
        ensures
            *r == old(self).of(family),
            *final(self) == old(self).with(family, *final(r)),
    {
        match family {
            AddrFamily::V4 => &mut self.v4,
            AddrFamily::V6 => &mut self.v6,
        }
    }
}

/// A family is determined after some results exactly when one of them is a
/// success or there are as many as probes were started. A fast failure alone
/// does not determine it. Further results leave it determined, with nothing
/// outstanding.
pub proof fn determined_by_first_success_or_last_result(probes: usize, successes: Seq<bool>)
    ensures
        ({
            let family = QadFamily::started(probes).after_results(successes);
            &&& family.probing == (probes > 0)
            &&& family.outstanding == if successes.len() < probes {
                probes - successes.len()
            } else {
                0
            }
            &&& family.determined <==> successes.len() > 0 && (successes.contains(true)
                || successes.len() >= probes)
        }),
    decreases successes.len(),
{
    if successes.len() > 0 {
        let before = successes.drop_last();
        determined_by_first_success_or_last_result(probes, before);
        assert(successes[successes.len() - 1] == successes.last());
        if before.contains(true) {
            let i = choose|i: int| 0 <= i < before.len() && before[i] == true;
            assert(successes[i] == true);
        }
        if successes.contains(true) && !successes.last() {
            let i = choose|i: int| 0 <= i < successes.len() && successes[i] == true;
            assert(before[i] == true);
        }
    }
}

/// A family once determined stays determined, whatever its probes still say.
pub proof fn determined_stays(family: QadFamily, success: bool)
    requires
        family.determined,
    ensures
        family.after_result(success).determined,
{
}

/// A result for one family leaves the other as it was.
pub proof fn families_are_independent(state: QadState, family: AddrFamily, success: bool)
    ensures
        ({
            let next = state.with(family, state.of(family).after_result(success));
            forall|other: AddrFamily| other != family ==> #[trigger] next.of(other) == state.of(
                other,
            )
        }),
{
}

/// The outcome of a run says what became of it: whether it was cancelled, ran
/// out of time, or came to a result of its own, and to which.
pub proof fn outcome_tells_the_run<T, E>(run: Option<Option<Result<T, E>>>)
    ensures
        ({
            let outcome = ProbeOutcome::of(run);
            &&& outcome is Cancelled <==> run is None
            &&& outcome is Timeout <==> run is Some && run->0 is None
            &&& outcome matches ProbeOutcome::Success(value) ==> run == Some(
                Some(Ok::<T, E>(value)),
            )
            &&& outcome matches ProbeOutcome::Failure(err) ==> run == Some(Some(Err::<T, E>(err)))
        }),
{
}

/// The first report is held back exactly while a family that is probed is not
/// determined.
pub proof fn undetermined_family_holds_back(state: QadState)
    ensures
        state.settled() <==> !(state.v4.probing && !state.v4.determined) && !(state.v6.probing
            && !state.v6.determined),
{
}

} // verus!
