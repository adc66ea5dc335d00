//! Recent reports, the choice of the preferred relay, and the cadence of full
//! cycles.

use crate::net_report::latencies::{
    best, best_is_least, best_of_merged, measured, LatencySample, RelayLatencies,
    RelayUrl,
};
use crate::net_report::report::{Report, ReportView};
use crate::net_report::request::ProbeScope;
use crate::time::{duration_since, elapsed, Duration, Instant, SECOND};
use std::collections::BTreeMap;
use vstd::prelude::*;
use vstd::std_specs::iter::IteratorSpec;

verus! {

broadcast use {
    vstd::std_specs::btree::group_btree_axioms,
    vstd::laws_eq::group_laws_eq,
    vstd::laws_cmp::group_laws_cmp,
};

/// How long a report counts towards the choice of the preferred relay.
pub const MAX_AGE: Duration = 300 * SECOND;

/// Tracks recent reports for preferred-relay selection and full-cycle
/// cadence.
pub struct ReportHistory {
    /// When true, the next cycle is forced to be `Full` rather than `Refresh`.
    pub next_full: bool,
    /// Reports from the last five minutes, keyed by completion time.
    pub prev: BTreeMap<Instant, Report>,
    /// The most recent completed report.
    pub last: Option<Report>,
    /// Time of the last `Full` report.
    pub last_full: Instant,
}

/// The mathematical value of a [`ReportHistory`].
pub struct HistoryView {
    pub next_full: bool,
    pub prev: Map<Instant, ReportView>,
    pub last: Option<ReportView>,
    pub last_full: Instant,
}

/// The value of a report that may be missing.
pub open spec fn view_of(r: Option<Report>) -> Option<ReportView> {
    match r {
        Some(r) => Some(r@),
        None => None,
    }
}

impl View for ReportHistory {
    type V = HistoryView;

    open spec fn view(&self) -> HistoryView {
        HistoryView {
            next_full: self.next_full,
            prev: self.prev@.map_values(|r: Report| r@),
            last: view_of(self.last),
            last_full: self.last_full,
        }
    }
}

/// Whether a report completed at `t` still counts at `now`.
pub open spec fn is_recent(now: Instant, t: Instant) -> bool {
    elapsed(now, t) <= MAX_AGE
}

/// The reports of `prev` that still count at `now`.
pub open spec fn recent(prev: Map<Instant, ReportView>, now: Instant) -> Map<Instant, ReportView> {
    prev.filter_keys(|t: Instant| is_recent(now, t))
}

/// Whether latency `l` to `url` was measured for a report of `prev` that still
/// counts at `now`.
pub open spec fn remembered(
    prev: Map<Instant, ReportView>,
    now: Instant,
    url: RelayUrl,
    l: Duration,
) -> bool {
    exists|t: Instant|
        prev.contains_key(t) && is_recent(now, t) && #[trigger] measured(
            prev[t].relay_latency,
            url,
            l,
        )
}

/// Whether latency `l` to `url` was measured for `r` or for a report of `prev`
/// that still counts at `now`.
pub open spec fn recently_measured(
    prev: Map<Instant, ReportView>,
    s: Seq<LatencySample>,
    now: Instant,
    url: RelayUrl,
    l: Duration,
) -> bool {
    measured(s, url, l) || remembered(prev, now, url, l)
}

/// Whether `b` is the least latency to `url` that was recently measured.
pub open spec fn is_recent_best(
    prev: Map<Instant, ReportView>,
    s: Seq<LatencySample>,
    now: Instant,
    url: RelayUrl,
    b: Duration,
) -> bool {
    &&& recently_measured(prev, s, now, url, b)
    &&& forall|l: Duration| #[trigger] recently_measured(prev, s, now, url, l) ==> b <= l
}

/// Whether `b` is the least latency to `url` that was recently measured, or
/// is missing and none was.
pub open spec fn is_recent_best_or_none(
    prev: Map<Instant, ReportView>,
    s: Seq<LatencySample>,
    now: Instant,
    url: RelayUrl,
    b: Option<Duration>,
) -> bool {
    if b is Some {
        is_recent_best(prev, s, now, url, b->0)
    } else {
        forall|l: Duration| !recently_measured(prev, s, now, url, l)
    }
}

/// The least latency to `url` that was recently measured.
pub open spec fn recent_best(
    prev: Map<Instant, ReportView>,
    s: Seq<LatencySample>,
    now: Instant,
    url: RelayUrl,
) -> Duration {
    choose|b: Duration| is_recent_best(prev, s, now, url, b)
}

/// Whether `s[i]` is the first of the samples in `s` to a relay that no other
/// relay in `s` was recently faster than.
pub open spec fn is_fastest(
    prev: Map<Instant, ReportView>,
    s: Seq<LatencySample>,
    now: Instant,
    i: int,
) -> bool {
    &&& 0 <= i < s.len()
    &&& forall|j: int|
        0 <= j < s.len() ==> recent_best(prev, s, now, s[i].url) <= recent_best(
            prev,
            s,
            now,
            (#[trigger] s[j]).url,
        )
    &&& forall|j: int|
        0 <= j < i ==> recent_best(prev, s, now, s[i].url) < recent_best(
            prev,
            s,
            now,
            (#[trigger] s[j]).url,
        )
}

/// The relay that speaks for itself, with the latency that counts for it: the
/// fastest recent one among those that `r` measured. A report that already
/// names a relay keeps it.
pub open spec fn candidate(
    prev: Map<Instant, ReportView>,
    r: ReportView,
    now: Instant,
) -> (Option<RelayUrl>, Duration) {
    let s = r.relay_latency;
    if r.preferred_relay is Some || s.len() == 0 {
        (r.preferred_relay, 0)
    } else {
        let i = choose|i: int| is_fastest(prev, s, now, i);
        let url = s[i].url;
        (Some(url), recent_best(prev, s, now, url))
    }
}

/// The latency to `url` in the last of the samples `s` to it, or zero where
/// there is none.
pub open spec fn current_latency(s: Seq<LatencySample>, url: Option<RelayUrl>) -> Duration
    decreases s.len(),
{
    if s.len() == 0 {
        0
    } else if Some(s.last().url) == url {
        s.last().latency
    } else {
        current_latency(s.drop_last(), url)
    }
}

/// Whether the relay preferred so far stays, although `best` is the latency of
/// another candidate: it was measured again, and the candidate takes more
/// than two thirds of its time.
pub open spec fn not_much_better(current: Duration, best: Duration) -> bool {
    current != 0 && best > current / 3 * 2
}

impl HistoryView {
    /// The relay preferred by the last report.
    pub open spec fn prev_relay(self) -> Option<RelayUrl> {
        match self.last {
            Some(last) => last.preferred_relay,
            None => None,
        }
    }

    /// The report `r` with what it leaves open of the mapping filled in from
    /// the last report.
    pub open spec fn filled_in(self, r: ReportView) -> ReportView {
        match self.last {
            Some(last) => ReportView {
                mapping_varies_by_dest_ipv4: if r.mapping_varies_by_dest_ipv4 is None {
                    last.mapping_varies_by_dest_ipv4
                } else {
                    r.mapping_varies_by_dest_ipv4
                },
                mapping_varies_by_dest_ipv6: if r.mapping_varies_by_dest_ipv6 is None {
                    last.mapping_varies_by_dest_ipv6
                } else {
                    r.mapping_varies_by_dest_ipv6
                },
                ..r
            },
            None => r,
        }
    }

    /// The preferred relay of `r` when it is recorded at `now`.
    pub open spec fn preferred(self, r: ReportView, now: Instant) -> Option<RelayUrl> {
        let (relay, best) = candidate(self.prev, r, now);
        let current = current_latency(r.relay_latency, self.prev_relay());
        if self.prev_relay() is Some && relay != self.prev_relay() && not_much_better(
            current,
            best,
        ) {
            self.prev_relay()
        } else {
            relay
        }
    }

    /// The report `r` as it is recorded at `now`.
    pub open spec fn stamped(self, r: ReportView, now: Instant) -> ReportView {
        ReportView { preferred_relay: self.preferred(r, now), ..self.filled_in(r) }
    }

    /// The history after `r` was recorded at `now`.
    pub open spec fn after_record(self, r: ReportView, now: Instant) -> HistoryView {
        HistoryView {
            prev: recent(self.prev, now).insert(now, self.stamped(r, now)),
            last: Some(self.stamped(r, now)),
            ..self
        }
    }

    /// The scope of the next cycle, for a request of scope `request`.
    pub open spec fn next_scope(
        self,
        request: ProbeScope,
        now: Instant,
        full_report_interval: Duration,
    ) -> ProbeScope {
        ProbeScope::of(
            {
                ||| request == ProbeScope::Full
                ||| self.next_full
                ||| elapsed(now, self.last_full) > full_report_interval
                ||| self.last matches Some(last) && !last.has_udp() && last.captive_portal == Some(
                    true,
                )
            },
        )
    }
}

/// A relay that was recently measured has exactly one recent best.
pub proof fn recent_best_exists(
    prev: Map<Instant, ReportView>,
    s: Seq<LatencySample>,
    now: Instant,
    url: RelayUrl,
    b: Duration,
)
    requires
        is_recent_best(prev, s, now, url, b),
    ensures
        recent_best(prev, s, now, url) == b,
{
    let c = recent_best(prev, s, now, url);
    assert(is_recent_best(prev, s, now, url, c));
    assert(recently_measured(prev, s, now, url, b));
    assert(recently_measured(prev, s, now, url, c));
}

impl ReportHistory {
    /// A history without reports, as of `now`.
    pub fn new(now: Instant) -> (r: Self)
        ensures
            r@ == (HistoryView {
                next_full: true,
                prev: Map::empty(),
                last: None,
                last_full: now,
            }),
    {
        let r = ReportHistory { next_full: true, prev: BTreeMap::new(), last: None, last_full: now };
        assert(r@.prev =~= Map::empty());
        r
    }

    /// The best latencies over `r` and the reports that still count at `now`.
    fn recent_latencies(&self, r: &Report, now: Instant) -> (b: RelayLatencies)
        ensures
            forall|url: RelayUrl|
                is_recent_best_or_none(self@.prev, r@.relay_latency, now, url, #[trigger] best(b@, url)),
    {
        let mut b = RelayLatencies::default();
        let ghost prev = self@.prev;
        let ghost entries = self.prev.iter().remaining();
        for kv in it: self.prev.iter()
            invariant
                prev == self@.prev,
                it.seq() == entries,
                entries == self.prev.iter().remaining(),
                forall|url: RelayUrl| #[trigger]
                    best(b@, url) is Some ==> remembered(prev, now, url, best(b@, url)->0),
                forall|j: int, url: RelayUrl, l: Duration|
                    0 <= j < it.index() && is_recent(now, *it.seq()[j].0) && #[trigger] measured(
                        it.seq()[j].1@.relay_latency,
                        url,
                        l,
                    ) ==> best(b@, url) is Some && best(b@, url)->0 <= l,
        {
            let (t, pr) = kv;
            if duration_since(now, *t) <= MAX_AGE {
                let ghost before = b@;
                b.merge(&pr.relay_latency);
                proof {
                    assert(self.prev@.contains_key(*t) && self.prev@[*t] == *pr);
                    let new = pr@.relay_latency;
                    assert(prev[*t].relay_latency == new);
                    assert forall|url: RelayUrl| #[trigger]
                        best(b@, url) is Some implies remembered(
                        prev,
                        now,
                        url,
                        best(b@, url)->0,
                    ) by {
                        best_of_merged(before, new, url);
                        best_is_least(new, url);
                    }
                    assert forall|j: int, url: RelayUrl, l: Duration|
                        0 <= j < it.index() + 1 && is_recent(now, *it.seq()[j].0)
                            && #[trigger] measured(
                            it.seq()[j].1@.relay_latency,
                            url,
                            l,
                        ) implies best(b@, url) is Some && best(b@, url)->0 <= l by {
                        best_of_merged(before, new, url);
                        best_is_least(new, url);
                    }
                }
            }
        }
        let ghost before = b@;
        b.merge(&r.relay_latency);
        proof {
            assert forall|url: RelayUrl|
                is_recent_best_or_none(prev, r@.relay_latency, now, url, #[trigger] best(b@, url)) by {
                best_of_merged(before, r@.relay_latency, url);
                best_is_least(r@.relay_latency, url);
                assert forall|l: Duration| remembered(prev, now, url, l) implies best(
                    before,
                    url,
                ) is Some && best(before, url)->0 <= l by {
                    let t = choose|t: Instant|
                        prev.contains_key(t) && is_recent(now, t) && #[trigger] measured(
                            prev[t].relay_latency,
                            url,
                            l,
                        );
                    assert(self.prev@.contains_key(t));
                    let j = entries.index_of((&t, &self.prev@[t]));
                    assert(entries[j] == (&t, &self.prev@[t]));
                    assert(measured(entries[j].1@.relay_latency, url, l));
                }
            }
        }
        b
    }

    /// Drops the reports that no longer count at `now`.
    fn forget_expired(&mut self, now: Instant)
        ensures
            final(self)@ == (HistoryView { prev: recent(old(self)@.prev, now), ..old(self)@ }),
    {
        let mut to_remove: Vec<Instant> = Vec::new();
        let ghost entries = self.prev.iter().remaining();
        for kv in it: self.prev.iter()
            invariant
                it.seq() == entries,
                forall|t: Instant| to_remove@.contains(t) ==> !is_recent(now, t),
                forall|j: int|
                    0 <= j < it.index() && !is_recent(now, *(#[trigger] entries[j]).0)
                        ==> to_remove@.contains(*entries[j].0),
        {
            let (t, pr) = kv;
            let ghost seen = to_remove@;
            if duration_since(now, *t) > MAX_AGE {
                to_remove.push(*t);
                proof {
                    assert(to_remove@.last() == *t);
                    assert forall|u: Instant| seen.contains(u) implies to_remove@.contains(u) by {
                        let k = seen.index_of(u);
                        assert(to_remove@[k] == u);
                    }
                }
            }
        }
        let ghost before = self.prev@;
        let ghost expired = to_remove@;
        proof {
            assert forall|t: Instant| before.contains_key(t) && !is_recent(now, t) implies
                expired.contains(t) by {
                let j = entries.index_of((&t, &before[t]));
                assert(entries[j] == (&t, &before[t]));
            }
        }
        let n = to_remove.len();
        let mut k: usize = 0;
        while k < n
            invariant
                k <= n == to_remove@.len(),
                to_remove@ == expired,
                forall|t: Instant|
                    self.prev@.contains_key(t) <==> before.contains_key(t) && !expired.take(
                        k as int,
                    ).contains(t),
                forall|t: Instant| self.prev@.contains_key(t) ==> self.prev@[t] == before[t],
                self.next_full == old(self).next_full,
                self.last == old(self).last,
                self.last_full == old(self).last_full,
            decreases n - k,
        {
            let t = to_remove[k];
            let ghost held = self.prev@;
            self.prev.remove(&t);
            proof {
                assert(self.prev@ == held.remove(t));
                let done = expired.take(k as int);
                let next = expired.take(k + 1);
                assert(next =~= done.push(t));
                assert(next[k as int] == t);
                assert forall|u: Instant|
                    self.prev@.contains_key(u) <==> before.contains_key(u) && !next.contains(u) by {
                    assert(held.contains_key(u) <==> before.contains_key(u) && !done.contains(u));
                    if done.contains(u) {
                        let i = done.index_of(u);
                        assert(next[i] == u);
                    }
                    if next.contains(u) && u != t {
                        let i = next.index_of(u);
                        assert(done[i] == u);
                    }
                }
            }
            k += 1;
        }
        proof {
            assert(expired.take(n as int) =~= expired);
            assert(self@.prev =~= recent(old(self)@.prev, now));
        }
    }

    /// Finds the candidate among the relays that `r` measured, and the current
    /// latency of the relay preferred so far.
    fn find_candidate(r: &Report, prev_relay: Option<RelayUrl>, recent: &RelayLatencies, prev: Ghost<
        Map<Instant, ReportView>,
    >, now: Instant) -> (c: (Option<RelayUrl>, Duration, Duration))
        requires
            forall|url: RelayUrl|
                is_recent_best_or_none(prev@, r@.relay_latency, now, url, #[trigger] best(recent@, url)),
        ensures
            (c.0, c.1) == candidate(prev@, r@, now),
            c.2 == current_latency(r@.relay_latency, prev_relay),
    {
        let ghost s = r@.relay_latency;
        let mut best_any: Duration = 0;
        let mut current: Duration = 0;
        let mut preferred = r.preferred_relay;
        let samples = r.relay_latency.iter();
        let n = samples.len();
        let mut i: usize = 0;
        let ghost mut at: int = 0;
        while i < n
            invariant
                i <= n == s.len(),
                samples@ == s,
                s == r@.relay_latency,
                forall|url: RelayUrl|
                    is_recent_best_or_none(prev@, s, now, url, #[trigger] best(recent@, url)),
                current == current_latency(s.take(i as int), prev_relay),
                r@.preferred_relay is Some || i == 0 ==> preferred == r@.preferred_relay && best_any == 0,
                r@.preferred_relay is None && i > 0 ==> {
                    &&& 0 <= at < i
                    &&& preferred == Some(s[at].url)
                    &&& best_any == recent_best(prev@, s, now, s[at].url)
                    &&& forall|j: int|
                        0 <= j < i ==> best_any <= recent_best(
                            prev@,
                            s,
                            now,
                            (#[trigger] s[j]).url,
                        )
                    &&& forall|j: int|
                        0 <= j < at ==> best_any < recent_best(
                            prev@,
                            s,
                            now,
                            (#[trigger] s[j]).url,
                        )
                },
            decreases n - i,
        {
            let x = samples[i];
            if Some(x.url) == prev_relay {
                current = x.latency;
            }
            proof {
                assert(s.take(i + 1).drop_last() =~= s.take(i as int));
                assert(measured(s, x.url, x.latency)) by {
                    assert(s[i as int] == x);
                }
                assert(recently_measured(prev@, s, now, x.url, x.latency));
            }
            if let Some(b) = recent.get(x.url) {
                proof {
                    recent_best_exists(prev@, s, now, x.url, b);
                }
                if preferred.is_none() || b < best_any {
                    best_any = b;
                    preferred = Some(x.url);
                    proof {
                        at = i as int;
                    }
                }
            }
            i += 1;
        }
        proof {
            assert(s.take(n as int) =~= s);
            if r@.preferred_relay is None && n > 0 {
                assert(is_fastest(prev@, s, now, at));
                let c = choose|c: int| is_fastest(prev@, s, now, c);
                assert(is_fastest(prev@, s, now, c));
                assert(s[c].url == s[c].url && s[at].url == s[at].url);
                assert(c == at);
            }
        }
        (preferred, best_any, current)
    }

    /// Records `r` at `now` and sets its preferred relay to the best candidate
    /// across the last five minutes of reports.
    ///
    /// Applies hysteresis: the preferred relay only changes when the new
    /// candidate is at least a third faster than the current one.
    pub fn record(&mut self, r: &mut Report, now: Instant)
        ensures
            final(r)@ == old(self)@.stamped(old(r)@, now),
            final(self)@ == old(self)@.after_record(old(r)@, now),
    {
        let mut prev_relay: Option<RelayUrl> = None;
        if let Some(last) = &self.last {
            prev_relay = last.preferred_relay;
            if r.mapping_varies_by_dest_ipv4.is_none() {
                r.mapping_varies_by_dest_ipv4 = last.mapping_varies_by_dest_ipv4;
            }
            if r.mapping_varies_by_dest_ipv6.is_none() {
                r.mapping_varies_by_dest_ipv6 = last.mapping_varies_by_dest_ipv6;
            }
        }
        let recent = self.recent_latencies(r, now);
        let (preferred, best_any, current) = Self::find_candidate(
            r,
            prev_relay,
            &recent,
            Ghost(self@.prev),
            now,
        );
        self.forget_expired(now);
        r.preferred_relay = preferred;
        // Hysteresis: do not switch if the new relay is not much better.
        if prev_relay.is_some() && preferred != prev_relay && current != 0 && best_any > current / 3
            * 2 {
            r.preferred_relay = prev_relay;
        }
        self.prev.insert(now, r.clone());
        self.last = Some(r.clone());
        assert(self@.prev =~= old(self)@.after_record(old(r)@, now).prev);
    }

    /// Decides the scope of the next cycle.
    ///
    /// A `Full` request always yields a `Full` cycle. A `Refresh` request is
    /// promoted to `Full` on the first cycle, once the full-report interval has
    /// elapsed, or when the last report saw a captive portal without UDP.
    pub fn scope_for(
        &self,
        request: ProbeScope,
        now: Instant,
        full_report_interval: Duration,
    ) -> (s: ProbeScope)
        ensures
            s == self@.next_scope(request, now, full_report_interval),
    {
        let no_udp_behind_portal = match &self.last {
            Some(last) => !last.has_udp() && last.captive_portal == Some(true),
            None => false,
        };
        ProbeScope::from_major(
            request == ProbeScope::Full || self.next_full || duration_since(now, self.last_full)
                > full_report_interval || no_udp_behind_portal,
        )
    }
}

/// Whatever was recently measured has a least among it.
proof fn recent_best_is_least(
    prev: Map<Instant, ReportView>,
    s: Seq<LatencySample>,
    now: Instant,
    url: RelayUrl,
    l: Duration,
)
    requires
        recently_measured(prev, s, now, url, l),
    ensures
        is_recent_best(prev, s, now, url, recent_best(prev, s, now, url)),
    decreases l,
{
    if forall|m: Duration| #[trigger] recently_measured(prev, s, now, url, m) ==> l <= m {
        assert(is_recent_best(prev, s, now, url, l));
    } else {
        let m = choose|m: Duration| #[trigger] recently_measured(prev, s, now, url, m) && m < l;
        recent_best_is_least(prev, s, now, url, m);
    }
}

/// Among the first `n` samples there is a first fastest one.
pub(crate) proof fn fastest_of_first(
    prev: Map<Instant, ReportView>,
    s: Seq<LatencySample>,
    now: Instant,
    n: int,
) -> (i: int)
    requires
        0 < n <= s.len(),
    ensures
        0 <= i < n,
        forall|j: int|
            0 <= j < n ==> recent_best(prev, s, now, s[i].url) <= recent_best(
                prev,
                s,
                now,
                (#[trigger] s[j]).url,
            ),
        forall|j: int|
            0 <= j < i ==> recent_best(prev, s, now, s[i].url) < recent_best(
                prev,
                s,
                now,
                (#[trigger] s[j]).url,
            ),
    decreases n,
{
    if n == 1 {
        0
    } else {
        let i = fastest_of_first(prev, s, now, n - 1);
        if recent_best(prev, s, now, s[n - 1].url) < recent_best(prev, s, now, s[i].url) {
            n - 1
        } else {
            i
        }
    }
}

/// A relay whose current latency is not zero was measured.
proof fn current_latency_was_measured(s: Seq<LatencySample>, url: RelayUrl)
    requires
        current_latency(s, Some(url)) != 0,
    ensures
        measured(s, url, current_latency(s, Some(url))),
    decreases s.len(),
{
    if s.len() > 0 {
        if s.last().url == url {
            assert(s[s.len() - 1] == s.last());
        } else {
            let t = s.drop_last();
            current_latency_was_measured(t, url);
            let l = current_latency(t, Some(url));
            let i = choose|i: int| 0 <= i < t.len() && (#[trigger] t[i]).url == url && t[i].latency == l;
            assert(s[i] == t[i]);
        }
    }
}

/// A fresh report is stamped with a preferred relay exactly when it measured
/// a relay, and the preferred one is among those it measured.
pub proof fn preferred_relay_was_measured(h: HistoryView, r: ReportView, now: Instant)
    requires
        r.preferred_relay is None,
    ensures
        h.stamped(r, now).preferred_relay is Some <==> r.relay_latency.len() > 0,
        h.stamped(r, now).preferred_relay matches Some(url) ==> exists|i: int|
            0 <= i < r.relay_latency.len() && (#[trigger] r.relay_latency[i]).url == url,
{
    let s = r.relay_latency;
    if s.len() > 0 {
        let i = fastest_of_first(h.prev, s, now, s.len() as int);
        assert(is_fastest(h.prev, s, now, i));
        let c = choose|c: int| is_fastest(h.prev, s, now, c);
        assert(is_fastest(h.prev, s, now, c));
        assert(measured(s, s[c].url, s[c].latency));
        if h.stamped(r, now).preferred_relay != Some(s[c].url) {
            current_latency_was_measured(s, h.prev_relay()->0);
        }
    }
}

/// Without a relay to stick to, because none was preferred or because the
/// preferred one was not measured again, a fresh report prefers a relay that
/// no other measured one was recently faster than.
pub proof fn fastest_relay_is_preferred(h: HistoryView, r: ReportView, now: Instant, j: int)
    requires
        r.preferred_relay is None,
        h.prev_relay() is None || current_latency(r.relay_latency, h.prev_relay()) == 0,
        0 <= j < r.relay_latency.len(),
    ensures
        h.stamped(r, now).preferred_relay matches Some(url) && recent_best(
            h.prev,
            r.relay_latency,
            now,
            url,
        ) <= recent_best(h.prev, r.relay_latency, now, r.relay_latency[j].url),
{
    let s = r.relay_latency;
    let i = fastest_of_first(h.prev, s, now, s.len() as int);
    assert(is_fastest(h.prev, s, now, i));
    let c = choose|c: int| is_fastest(h.prev, s, now, c);
    assert(is_fastest(h.prev, s, now, c));
    assert(s[j].url == s[j].url);
}

/// Hysteresis: while the preferred relay is still measured, a fresh report
/// moves to another one only if the recent best of that one is at most two
/// thirds of the current latency of the relay that is left.
pub proof fn preferred_relay_changes_only_for_a_third(h: HistoryView, r: ReportView, now: Instant)
    requires
        r.preferred_relay is None,
        h.prev_relay() is Some,
        current_latency(r.relay_latency, h.prev_relay()) != 0,
        h.stamped(r, now).preferred_relay != h.prev_relay(),
    ensures
        h.stamped(r, now).preferred_relay matches Some(url) && 3 * recent_best(
            h.prev,
            r.relay_latency,
            now,
            url,
        ) <= 2 * current_latency(r.relay_latency, h.prev_relay()),
{
    preferred_relay_was_measured(h, r, now);
    current_latency_was_measured(r.relay_latency, h.prev_relay()->0);
}

/// What counts for a measured relay is the least latency to it in the report
/// and in the reports of the last five minutes.
pub proof fn recent_best_is_best_of_five_minutes(
    h: HistoryView,
    r: ReportView,
    now: Instant,
    i: int,
)
    requires
        0 <= i < r.relay_latency.len(),
    ensures
        is_recent_best(
            h.prev,
            r.relay_latency,
            now,
            r.relay_latency[i].url,
            recent_best(h.prev, r.relay_latency, now, r.relay_latency[i].url),
        ),
{
    let s = r.relay_latency;
    assert(measured(s, s[i].url, s[i].latency));
    recent_best_is_least(h.prev, s, now, s[i].url, s[i].latency);
}

/// The history holds reports of the last five minutes only, among them the
/// one just recorded.
pub proof fn history_spans_five_minutes(h: HistoryView, r: ReportView, now: Instant, t: Instant)
    requires
        h.after_record(r, now).prev.contains_key(t),
    ensures
        elapsed(now, t) <= MAX_AGE,
        h.after_record(r, now).prev[now] == h.stamped(r, now),
        h.after_record(r, now).last == Some(h.stamped(r, now)),
{
}

/// What is known of the mapping is not lost by a report that leaves it open.
pub proof fn mapping_is_remembered(h: HistoryView, r: ReportView, now: Instant)
    requires
        h.last is Some,
    ensures
        h.last->0.mapping_varies_by_dest_ipv4 is Some ==> h.stamped(
            r,
            now,
        ).mapping_varies_by_dest_ipv4 is Some,
        h.last->0.mapping_varies_by_dest_ipv6 is Some ==> h.stamped(
            r,
            now,
        ).mapping_varies_by_dest_ipv6 is Some,
{
}

/// A `Full` request always yields a `Full` cycle.
pub proof fn full_request_is_full(h: HistoryView, now: Instant, full_report_interval: Duration)
    ensures
        h.next_scope(ProbeScope::Full, now, full_report_interval) == ProbeScope::Full,
{
}

/// A report counts for five minutes.
pub proof fn reports_count_for_five_minutes(now: Instant, t: Instant)
    ensures
        is_recent(now, t) <==> now <= t + 300_000_000_000,
{
}

} // verus!
