//! Relay latencies measured by the probes.

use crate::time::Duration;
use vstd::prelude::*;

verus! {

/// A relay, named by the index of its URL in the endpoint's relay table.
///
/// Two URLs are equal exactly when their indices are.
#[derive(Debug, Clone, Copy, PartialEq, Eq, PartialOrd, Ord, Hash, Structural)]
pub struct RelayUrl(pub u64);

/// The kinds of probe that measure a relay's latency.
#[derive(Debug, Clone, Copy, PartialEq, Eq, PartialOrd, Ord, Hash, Structural)]
pub enum Probe {
    /// A plain GET request.
    Https,
    /// QUIC Address Discovery over IPv4.
    QadIpv4,
    /// QUIC Address Discovery over IPv6.
    QadIpv6,
}

/// The latency that one kind of probe measured to one relay.
#[derive(Debug, Clone, Copy, PartialEq, Eq, Structural)]
pub struct LatencySample {
    pub probe: Probe,
    pub url: RelayUrl,
    pub latency: Duration,
}

/// The smaller of two latencies.
pub open spec fn faster(a: Duration, b: Duration) -> Duration {
    if a <= b {
        a
    } else {
        b
    }
}

/// The smaller of two latencies, either of which may be missing.
pub open spec fn faster_of(a: Option<Duration>, b: Option<Duration>) -> Option<Duration> {
    match (a, b) {
        (Some(x), Some(y)) => Some(faster(x, y)),
        (Some(x), None) => Some(x),
        (None, y) => y,
    }
}

/// Whether `s[i]` is a sample of `probe` to `url`.
pub open spec fn is_sample_of(s: Seq<LatencySample>, i: int, probe: Probe, url: RelayUrl) -> bool {
    0 <= i < s.len() && s[i].probe == probe && s[i].url == url
}

/// Whether `s[i]` is the first sample of `probe` to `url`.
pub open spec fn is_first_sample_of(
    s: Seq<LatencySample>,
    i: int,
    probe: Probe,
    url: RelayUrl,
) -> bool {
    is_sample_of(s, i, probe, url) && forall|j: int| 0 <= j < i ==> !is_sample_of(s, j, probe, url)
}

/// Whether each probe has at most one sample per relay.
pub open spec fn one_sample_each(s: Seq<LatencySample>) -> bool {
    forall|i: int, j: int|
        0 <= i < s.len() && 0 <= j < s.len() && s[i].probe == s[j].probe && s[i].url == s[j].url
            ==> i == j
}

/// The samples `s` with `x` taken in: a faster `x` replaces the sample of the
/// same probe to the same relay, a slower one changes nothing, and the first
/// of its kind is appended.
pub open spec fn with_sample(s: Seq<LatencySample>, x: LatencySample) -> Seq<LatencySample> {
    if exists|i: int| is_first_sample_of(s, i, x.probe, x.url) {
        let i = choose|i: int| is_first_sample_of(s, i, x.probe, x.url);
        s.update(i, LatencySample { latency: faster(s[i].latency, x.latency), ..x })
    } else {
        s.push(x)
    }
}

/// The samples `a` with all of `b` taken in, one after the other.
pub open spec fn merged(a: Seq<LatencySample>, b: Seq<LatencySample>) -> Seq<LatencySample>
    decreases b.len(),
{
    if b.len() == 0 {
        a
    } else {
        with_sample(merged(a, b.drop_last()), b.last())
    }
}

/// Whether `s` holds a sample of latency `l` to `url`.
pub open spec fn measured(s: Seq<LatencySample>, url: RelayUrl, l: Duration) -> bool {
    exists|i: int| 0 <= i < s.len() && (#[trigger] s[i]).url == url && s[i].latency == l
}

/// The smallest latency to `url` in `s`, over all kinds of probe.
pub open spec fn best(s: Seq<LatencySample>, url: RelayUrl) -> Option<Duration>
    decreases s.len(),
{
    if s.len() == 0 {
        None
    } else if s.last().url == url {
        faster_of(best(s.drop_last(), url), Some(s.last().latency))
    } else {
        best(s.drop_last(), url)
    }
}

/// However samples are taken in, each probe has at most one per relay.
pub proof fn samples_stay_unique(s: Seq<LatencySample>, x: LatencySample)
    requires
        one_sample_each(s),
    ensures
        one_sample_each(with_sample(s, x)),
{
    if exists|i: int| is_first_sample_of(s, i, x.probe, x.url) {
        let k = choose|i: int| is_first_sample_of(s, i, x.probe, x.url);
        let t = with_sample(s, x);
        assert forall|i: int, j: int|
            0 <= i < t.len() && 0 <= j < t.len() && t[i].probe == t[j].probe && t[i].url
                == t[j].url implies i == j by {
            assert(t[i].probe == s[i].probe && t[i].url == s[i].url);
            assert(t[j].probe == s[j].probe && t[j].url == s[j].url);
        }
    } else {
        assert forall|i: int| 0 <= i < s.len() implies !(s[i].probe == x.probe && s[i].url
            == x.url) by {
            if s[i].probe == x.probe && s[i].url == x.url {
                first_of(s, i, x);
            }
        }
    }
}

/// A sample of a kind is preceded by a first one, or is it.
proof fn first_of(s: Seq<LatencySample>, i: int, x: LatencySample)
    requires
        is_sample_of(s, i, x.probe, x.url),
    ensures
        exists|k: int| is_first_sample_of(s, k, x.probe, x.url),
    decreases i,
{
    if exists|j: int| 0 <= j < i && is_sample_of(s, j, x.probe, x.url) {
        let j = choose|j: int| 0 <= j < i && is_sample_of(s, j, x.probe, x.url);
        first_of(s, j, x);
    } else {
        assert(is_first_sample_of(s, i, x.probe, x.url));
    }
}

/// `best` is the least of the measured latencies, and is missing only where
/// nothing was measured.
pub proof fn best_is_least(s: Seq<LatencySample>, url: RelayUrl)
    ensures
        best(s, url) matches Some(b) ==> measured(s, url, b),
        forall|l: Duration| #[trigger] measured(s, url, l) ==> best(s, url) is Some && best(
            s,
            url,
        )->0 <= l,
    decreases s.len(),
{
    if s.len() > 0 {
        let t = s.drop_last();
        best_is_least(t, url);
        if let Some(b) = best(t, url) {
            let i = choose|i: int| 0 <= i < t.len() && (#[trigger] t[i]).url == url && t[i].latency == b;
            assert(s[i] == t[i]);
        }
        if s.last().url == url {
            assert(s[s.len() - 1].latency == s.last().latency);
        }
        assert forall|l: Duration| #[trigger] measured(s, url, l) implies best(s, url) is Some
            && best(s, url)->0 <= l by {
            let i = choose|i: int| 0 <= i < s.len() && (#[trigger] s[i]).url == url && s[i].latency == l;
            if i < t.len() {
                assert(t[i] == s[i]);
                assert(measured(t, url, l));
            }
        }
    }
}

/// Two sample lists that agree but for the element at `i`, which `b` has
/// replaced by a faster one to the same relay, have the same best latencies
/// but to that relay, where the replacement counts too.
proof fn best_of_update(s: Seq<LatencySample>, i: int, x: LatencySample, url: RelayUrl)
    requires
        0 <= i < s.len(),
        s[i].url == x.url,
        x.latency <= s[i].latency,
    ensures
        best(s.update(i, x), url) == if url == x.url {
            faster_of(best(s, url), Some(x.latency))
        } else {
            best(s, url)
        },
    decreases s.len(),
{
    let t = s.drop_last();
    let u = s.update(i, x);
    if i == s.len() - 1 {
        assert(u.drop_last() =~= t);
    } else {
        assert(u.drop_last() =~= t.update(i, x));
        best_of_update(t, i, x, url);
    }
}

/// Taking in a sample makes it count towards the best latency to its relay,
/// and touches no other relay.
pub proof fn best_with_sample(s: Seq<LatencySample>, x: LatencySample, url: RelayUrl)
    ensures
        best(with_sample(s, x), url) == if url == x.url {
            faster_of(best(s, url), Some(x.latency))
        } else {
            best(s, url)
        },
{
    if exists|i: int| is_first_sample_of(s, i, x.probe, x.url) {
        let i = choose|i: int| is_first_sample_of(s, i, x.probe, x.url);
        let y = LatencySample { latency: faster(s[i].latency, x.latency), ..x };
        best_of_update(s, i, y, url);
        if url == x.url {
            best_is_least(s, url);
            assert(measured(s, url, s[i].latency));
        }
    } else {
        assert(s.push(x).drop_last() =~= s);
    }
}

/// Merging two sample lists yields, to every relay, the better of what either
/// of them had.
pub proof fn best_of_merged(a: Seq<LatencySample>, b: Seq<LatencySample>, url: RelayUrl)
    ensures
        best(merged(a, b), url) == faster_of(best(a, url), best(b, url)),
    decreases b.len(),
{
    if b.len() > 0 {
        best_of_merged(a, b.drop_last(), url);
        best_with_sample(merged(a, b.drop_last()), b.last(), url);
    }
}

/// Latencies per relay, one sample for each kind of probe.
pub struct RelayLatencies {
    samples: Vec<LatencySample>,
}

impl View for RelayLatencies {
    type V = Seq<LatencySample>;

    closed spec fn view(&self) -> Seq<LatencySample> {
        self.samples@
    }
}

impl Default for RelayLatencies {
    fn default() -> (r: Self)
        ensures
            r@ == Seq::<LatencySample>::empty(),
    {
        RelayLatencies { samples: Vec::new() }
    }
}

impl Clone for RelayLatencies {
    fn clone(&self) -> (r: Self)
        ensures
            r@ == self@,
    {
        let samples = self.samples.clone();
        assert(samples@ =~= self.samples@);
        RelayLatencies { samples }
    }
}

impl RelayLatencies {
    /// Takes in the latency that `probe` measured to `url`: it is kept if it
    /// is the first of its kind, or faster than the one kept before.
    pub fn update_relay(&mut self, url: RelayUrl, latency: Duration, probe: Probe)
        ensures
            final(self)@ == with_sample(old(self)@, (LatencySample { probe, url, latency })),
    {
        let ghost before = self.samples@;
        let ghost x = LatencySample { probe, url, latency };
        let n = self.samples.len();
        let mut i: usize = 0;
        while i < n
            invariant
                i <= n == before.len(),
                self.samples@ == before,
                before == old(self)@,
                x == (LatencySample { probe, url, latency }),
                forall|j: int| 0 <= j < i ==> !is_sample_of(before, j, probe, url),
            decreases n - i,
        {
            if self.samples[i].probe == probe && self.samples[i].url == url {
                assert(is_first_sample_of(before, i as int, probe, url));
                if latency < self.samples[i].latency {
                    self.samples.set(i, LatencySample { probe, url, latency });
                }
                assert(self.samples@ =~= with_sample(before, x));
                return ;
            }
            i += 1;
        }
        self.samples.push(LatencySample { probe, url, latency });
    }

    /// Takes in every sample of `other`.
    pub fn merge(&mut self, other: &RelayLatencies)
        ensures
            final(self)@ == merged(old(self)@, other@),
    {
        let n = other.samples.len();
        let mut i: usize = 0;
        assert(other@.take(0) =~= Seq::<LatencySample>::empty());
        while i < n
            invariant
                i <= n == other@.len(),
                other@ == other.samples@,
                self@ == merged(old(self)@, other@.take(i as int)),
            decreases n - i,
        {
            let x = other.samples[i];
            self.update_relay(x.url, x.latency, x.probe);
            assert(other@.take(i + 1).drop_last() =~= other@.take(i as int));
            i += 1;
        }
        assert(other@.take(n as int) =~= other@);
    }

    /// Returns the smallest latency to `url`, over all kinds of probe.
    pub fn get(&self, url: RelayUrl) -> (r: Option<Duration>)
        ensures
            r == best(self@, url),
    {
        let mut r: Option<Duration> = None;
        let n = self.samples.len();
        let mut i: usize = 0;
        while i < n
            invariant
                i <= n == self@.len(),
                self@ == self.samples@,
                r == best(self@.take(i as int), url),
            decreases n - i,
        {
            let x = self.samples[i];
            if x.url == url {
                r = match r {
                    Some(b) if b <= x.latency => Some(b),
                    _ => Some(x.latency),
                };
            }
            assert(self@.take(i + 1).drop_last() =~= self@.take(i as int));
            i += 1;
        }
        assert(self@.take(n as int) =~= self@);
        r
    }

    /// The number of samples.
    pub fn len(&self) -> (n: usize)
        ensures
            n == self@.len(),
    {
        self.samples.len()
    }

    /// The samples, in the order in which their kinds were first taken in.
    pub fn iter(&self) -> (r: &Vec<LatencySample>)
        ensures
            r@ == self@,
    {
        &self.samples
    }
}

} // verus!
