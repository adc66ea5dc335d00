//! Connections to a remote endpoint: what is kept about each, and what it
//! currently looks like from outside.

use crate::addr::{canonical_is_idempotent, SocketAddr};
use crate::remote_state::fx_map::{ascending, empty_map, lists, sorted_keys, FxMap};
use crate::remote_state::paths::FourTuple;
use crate::time::{Duration, Instant, SECOND};
use vstd::prelude::*;

verus! {

/// Statistics that the QUIC implementation keeps of a path.
#[verifier::external_type_specification]
#[verifier::external_body]
pub struct ExPathStats(noq::PathStats);

/// Identifies an active connection.
pub type ConnId = u64;

/// Identifies a path of a connection.
pub type PathId = u64;

/// The path over which a connection was established.
pub const BOOTSTRAP_PATH: PathId = 0;

/// How often to attempt holepunching.
///
/// If there have been no changes to the NAT address candidates, holepunching
/// will not be attempted more frequently than at this interval.
pub const HOLEPUNCH_ATTEMPTS_INTERVAL: Duration = 5 * SECOND;

/// Information about a holepunch attempt.
///
/// Addresses are always stored in canonical form.
#[derive(Debug)]
pub struct HolepunchAttempt {
    when: Instant,
    /// The local addresses which could take part in holepunching. This does
    /// not mean that every one of them took part.
    local_candidates: Vec<SocketAddr>,
    /// The remote addresses which could take part in holepunching.
    remote_candidates: Vec<SocketAddr>,
}

/// The mathematical value of a [`HolepunchAttempt`].
#[verifier::ext_equal]
pub struct AttemptView {
    pub when: Instant,
    pub local_candidates: Set<SocketAddr>,
    pub remote_candidates: Set<SocketAddr>,
}

impl View for HolepunchAttempt {
    type V = AttemptView;

    closed spec fn view(&self) -> AttemptView {
        AttemptView {
            when: self.when,
            local_candidates: self.local_candidates@.to_set(),
            remote_candidates: self.remote_candidates@.to_set(),
        }
    }
}

/// The canonical forms of addresses.
pub open spec fn canonical_set(addrs: Seq<SocketAddr>) -> Set<SocketAddr> {
    addrs.map_values(|a: SocketAddr| a.canonical()).to_set()
}

/// Returns the canonical forms of addresses.
fn to_canonical_all(addrs: &Vec<SocketAddr>) -> (r: Vec<SocketAddr>)
    ensures
        r@ == addrs@.map_values(|a: SocketAddr| a.canonical()),
        forall|i: int| 0 <= i < r@.len() ==> (#[trigger] r@[i]).canonical() == r@[i],
{
    let mut r: Vec<SocketAddr> = Vec::new();
    let n = addrs.len();
    let mut i: usize = 0;
    let ghost all = addrs@.map_values(|a: SocketAddr| a.canonical());
    while i < n
        invariant
            i <= n == addrs@.len(),
            all == addrs@.map_values(|a: SocketAddr| a.canonical()),
            r@ == all.take(i as int),
        decreases n - i,
    {
        r.push(addrs[i].to_canonical());
        i += 1;
        assert(all.take(i as int) =~= all.take(i - 1).push(all[i - 1]));
    }
    assert(all.take(n as int) =~= all);
    assert forall|i: int| 0 <= i < r@.len() implies (#[trigger] r@[i]).canonical() == r@[i] by {
        canonical_is_idempotent(addrs@[i]);
    }
    r
}

/// Returns `true` if an address is among others.
pub fn contains_addr(addrs: &Vec<SocketAddr>, addr: SocketAddr) -> (r: bool)
    ensures
        r == addrs@.contains(addr),
{
    let n = addrs.len();
    let mut i: usize = 0;
    while i < n
        invariant
            i <= n == addrs@.len(),
            forall|j: int| 0 <= j < i ==> addrs@[j] != addr,
        decreases n - i,
    {
        if addrs[i] == addr {
            assert(addrs@[i as int] == addr);
            return true;
        }
        i += 1;
    }
    false
}

/// Addresses without those that occur earlier already.
pub open spec fn distinct(addrs: Seq<SocketAddr>) -> Seq<SocketAddr>
    decreases addrs.len(),
{
    if addrs.len() == 0 {
        Seq::empty()
    } else {
        let before = distinct(addrs.drop_last());
        if addrs.drop_last().contains(addrs.last()) {
            before
        } else {
            before.push(addrs.last())
        }
    }
}

/// The distinct addresses are the same addresses, each of them once.
pub proof fn distinct_addrs_are_the_same(addrs: Seq<SocketAddr>)
    ensures
        distinct(addrs).no_duplicates(),
        forall|a: SocketAddr| #[trigger] distinct(addrs).contains(a) <==> addrs.contains(a),
    decreases addrs.len(),
{
    if addrs.len() > 0 {
        let rest = addrs.drop_last();
        let last = addrs.last();
        let before = distinct(rest);
        distinct_addrs_are_the_same(rest);
        assert(addrs =~= rest.push(last));
        assert forall|a: SocketAddr| #[trigger]
            distinct(addrs).contains(a) <==> addrs.contains(a) by {
            assert(before.contains(a) <==> rest.contains(a));
            pushed_contains(rest, last, a);
            pushed_contains(before, last, a);
        }
        assert(before.contains(last) <==> rest.contains(last));
    }
}

/// One more address.
proof fn pushed_contains(addrs: Seq<SocketAddr>, last: SocketAddr, a: SocketAddr)
    ensures
        addrs.push(last).contains(a) <==> addrs.contains(a) || a == last,
{
    let all = addrs.push(last);
    if all.contains(a) && a != last {
        assert(addrs[all.index_of(a)] == a);
    }
    if addrs.contains(a) {
        assert(all[addrs.index_of(a)] == a);
    }
    assert(all[addrs.len() as int] == last);
}

/// Returns the addresses without those that occur earlier already.
pub fn distinct_addrs(addrs: &Vec<SocketAddr>) -> (r: Vec<SocketAddr>)
    ensures
        r@ == distinct(addrs@),
{
    let mut r: Vec<SocketAddr> = Vec::new();
    let n = addrs.len();
    let mut i: usize = 0;
    while i < n
        invariant
            i <= n == addrs@.len(),
            r@ == distinct(addrs@.take(i as int)),
        decreases n - i,
    {
        let addr = addrs[i];
        proof {
            assert(addrs@.take(i + 1).drop_last() =~= addrs@.take(i as int));
            distinct_addrs_are_the_same(addrs@.take(i as int));
            assert(r@.contains(addr) <==> addrs@.take(i as int).contains(addr));
        }
        if !contains_addr(&r, addr) {
            r.push(addr);
        }
        i += 1;
    }
    assert(addrs@.take(n as int) =~= addrs@);
    r
}

/// Returns `true` if the canonical form of every address is among others.
fn canonical_subset(addrs: &Vec<SocketAddr>, of: &Vec<SocketAddr>) -> (r: bool)
    ensures
        r == canonical_set(addrs@).subset_of(of@.to_set()),
{
    let n = addrs.len();
    let mut i: usize = 0;
    let ghost all = addrs@.map_values(|a: SocketAddr| a.canonical());
    while i < n
        invariant
            i <= n == addrs@.len(),
            all == addrs@.map_values(|a: SocketAddr| a.canonical()),
            forall|j: int| 0 <= j < i ==> of@.contains(#[trigger] all[j]),
        decreases n - i,
    {
        if !contains_addr(of, addrs[i].to_canonical()) {
            proof {
                assert(all[i as int] == addrs@[i as int].canonical());
                assert(canonical_set(addrs@).contains(all[i as int]));
                assert(!of@.to_set().contains(all[i as int]));
            }
            return false;
        }
        i += 1;
    }
    assert forall|a: SocketAddr| canonical_set(addrs@).contains(a) implies of@.to_set().contains(
        a,
    ) by {
        let j = all.index_of(a);
        assert(of@.contains(all[j]));
    }
    true
}

impl AttemptView {
    /// Whether all addresses are in canonical form.
    pub open spec fn is_canonical(self) -> bool {
        &&& forall|a: SocketAddr| #[trigger]
            self.local_candidates.contains(a) ==> a.canonical() == a
        &&& forall|a: SocketAddr| #[trigger]
            self.remote_candidates.contains(a) ==> a.canonical() == a
    }

    /// Whether the attempt covers all of the candidates. Addresses may
    /// disappear, but new ones call for another attempt.
    pub open spec fn covers(self, local: Seq<SocketAddr>, remote: Seq<SocketAddr>) -> bool {
        &&& canonical_set(remote).subset_of(self.remote_candidates)
        &&& canonical_set(local).subset_of(self.local_candidates)
    }

    /// The earliest time for the next attempt on the same candidates.
    pub open spec fn next(self) -> Instant {
        (self.when + HOLEPUNCH_ATTEMPTS_INTERVAL) as Instant
    }
}

impl HolepunchAttempt {
    /// The time of the next attempt can be expressed, and all addresses are in
    /// canonical form.
    #[verifier::type_invariant]
    spec fn is_well_formed(self) -> bool {
        &&& self.when + HOLEPUNCH_ATTEMPTS_INTERVAL <= Instant::MAX
        &&& forall|i: int|
            0 <= i < self.local_candidates@.len() ==> (
            #[trigger] self.local_candidates@[i]).canonical() == self.local_candidates@[i]
        &&& forall|i: int|
            0 <= i < self.remote_candidates@.len() ==> (
            #[trigger] self.remote_candidates@[i]).canonical() == self.remote_candidates@[i]
    }

    /// Records an attempt at `now` on the given candidates.
    pub fn new(now: Instant, local: &Vec<SocketAddr>, remote: &Vec<SocketAddr>) -> (r: Self)
        requires
            now + HOLEPUNCH_ATTEMPTS_INTERVAL <= Instant::MAX,
        ensures
            r@ == (AttemptView {
                when: now,
                local_candidates: canonical_set(local@),
                remote_candidates: canonical_set(remote@),
            }),
            r@.is_canonical(),
    {
        HolepunchAttempt {
            when: now,
            local_candidates: to_canonical_all(local),
            remote_candidates: to_canonical_all(remote),
        }
    }

    /// Returns `true` if the attempt covers all of the candidates.
    pub fn covers(&self, local: &Vec<SocketAddr>, remote: &Vec<SocketAddr>) -> (r: bool)
        ensures
            r == self@.covers(local@, remote@),
            self@.is_canonical(),
    {
        proof {
            use_type_invariant(self);
        }
        canonical_subset(remote, &self.remote_candidates) && canonical_subset(
            local,
            &self.local_candidates,
        )
    }

    /// Returns the earliest time for the next attempt on the same candidates.
    pub fn next(&self) -> (r: Instant)
        ensures
            r == self@.next(),
            r == self@.when + HOLEPUNCH_ATTEMPTS_INTERVAL,
    {
        proof {
            use_type_invariant(self);
        }
        self.when + HOLEPUNCH_ATTEMPTS_INTERVAL
    }
}

/// The value of an attempt that may be missing.
pub open spec fn attempt_of(a: Option<HolepunchAttempt>) -> Option<AttemptView> {
    match a {
        Some(a) => Some(a@),
        None => None,
    }
}

/// State about one connection.
pub struct ConnectionState {
    /// The open paths that exist on this connection.
    pub paths: FxMap<FourTuple>,
    /// Whether this connection has ever had a direct path.
    pub has_been_direct: bool,
    /// Whether the application has authorized NAT traversal for this
    /// connection.
    pub nat_traversal_authorized: bool,
    /// Whether this connection has received candidates proving the peer
    /// released its gate.
    pub peer_candidates_observed: bool,
    /// Last NAT traversal round for this exact deferred connection.
    pub last_holepunch: Option<HolepunchAttempt>,
    /// Scheduled retry for this exact deferred connection.
    pub scheduled_holepunch: Option<Instant>,
}

/// The mathematical value of a [`ConnectionState`].
#[verifier::ext_equal]
pub struct ConnView {
    pub paths: Map<PathId, FourTuple>,
    pub has_been_direct: bool,
    pub nat_traversal_authorized: bool,
    pub peer_candidates_observed: bool,
    pub last_holepunch: Option<AttemptView>,
    pub scheduled_holepunch: Option<Instant>,
}

impl View for ConnectionState {
    type V = ConnView;

    open spec fn view(&self) -> ConnView {
        ConnView {
            paths: self.paths@,
            has_been_direct: self.has_been_direct,
            nat_traversal_authorized: self.nat_traversal_authorized,
            peer_candidates_observed: self.peer_candidates_observed,
            last_holepunch: attempt_of(self.last_holepunch),
            scheduled_holepunch: self.scheduled_holepunch,
        }
    }
}

impl ConnView {
    /// A new connection, authorized or not.
    pub open spec fn fresh(authorized: bool) -> ConnView {
        ConnView {
            paths: Map::empty(),
            has_been_direct: false,
            nat_traversal_authorized: authorized,
            peer_candidates_observed: authorized,
            last_holepunch: None,
            scheduled_holepunch: None,
        }
    }

    /// The identifiers of the open paths, in ascending order.
    pub open spec fn path_ids(self) -> Seq<PathId> {
        ascending(self.paths.dom())
    }

    /// Whether a network path is open on the connection.
    pub open spec fn has_path(self, path: FourTuple) -> bool {
        exists|id: PathId| #[trigger] self.paths.contains_key(id) && self.paths[id] == path
    }
}

impl ConnectionState {
    /// A new connection, authorized or not.
    pub fn fresh(authorized: bool) -> (r: Self)
        ensures
            r@ == ConnView::fresh(authorized),
    {
        ConnectionState {
            paths: empty_map(),
            has_been_direct: false,
            nat_traversal_authorized: authorized,
            peer_candidates_observed: authorized,
            last_holepunch: None,
            scheduled_holepunch: None,
        }
    }

    /// Returns the identifiers of the open paths, in ascending order.
    pub fn path_ids(&self) -> (r: Vec<PathId>)
        ensures
            r@ == self@.path_ids(),
            lists(r@, self@.paths.dom()),
    {
        sorted_keys(&self.paths)
    }

    /// Returns `true` if a network path is open on the connection.
    pub fn has_path(&self, path: FourTuple) -> (r: bool)
        ensures
            r == self@.has_path(path),
    {
        let ids = self.path_ids();
        let n = ids.len();
        let mut i: usize = 0;
        while i < n
            invariant
                i <= n == ids@.len(),
                lists(ids@, self@.paths.dom()),
                forall|j: int| 0 <= j < i ==> self@.paths[#[trigger] ids@[j]] != path,
            decreases n - i,
        {
            assert(ids@.contains(ids@[i as int]));
            if let Some(p) = crate::remote_state::fx_map::fx_get(&self.paths, ids[i]) {
                if *p == path {
                    assert(self@.paths.contains_key(ids@[i as int]));
                    return true;
                }
            }
            i += 1;
        }
        assert forall|id: PathId| #[trigger] self@.paths.contains_key(id) implies self@.paths[id]
            != path by {
            let j = ids@.index_of(id);
            assert(ids@.contains(id));
            assert(ids@[j] == id);
        }
        false
    }
}

/// What is known of a path of a live connection.
#[derive(Clone, Copy)]
pub struct PathSample {
    pub id: PathId,
    pub stats: noq::PathStats,
    /// The round-trip time in the statistics.
    pub rtt: Duration,
}

/// What a connection that has not been dropped currently looks like.
pub struct LiveConn {
    pub id: ConnId,
    /// Whether this side initiated the connection.
    pub is_client: bool,
    /// Whether the connection is closed or closing.
    pub is_closed: bool,
    /// The paths that the connection still knows.
    pub open_paths: Vec<PathId>,
    /// Statistics of paths.
    pub samples: Vec<PathSample>,
    /// The candidate addresses that the peer announced, if it takes part in
    /// NAT traversal.
    pub remote_candidates: Option<Vec<SocketAddr>>,
    /// The candidate addresses announced to the peer, if NAT traversal is
    /// possible.
    pub local_candidates: Option<Vec<SocketAddr>>,
}

/// The first sample of a path.
pub open spec fn sample_of(samples: Seq<PathSample>, id: PathId) -> Option<PathSample>
    decreases samples.len(),
{
    if samples.len() == 0 {
        None
    } else if samples.first().id == id {
        Some(samples.first())
    } else {
        sample_of(samples.drop_first(), id)
    }
}

impl LiveConn {
    /// Whether the connection still knows a path.
    pub open spec fn knows(&self, id: PathId) -> bool {
        self.open_paths@.contains(id)
    }

    /// Returns `true` if the connection still knows a path.
    pub fn has_open(&self, id: PathId) -> (r: bool)
        ensures
            r == self.knows(id),
    {
        let n = self.open_paths.len();
        let mut i: usize = 0;
        while i < n
            invariant
                i <= n == self.open_paths@.len(),
                forall|j: int| 0 <= j < i ==> self.open_paths@[j] != id,
            decreases n - i,
        {
            if self.open_paths[i] == id {
                assert(self.open_paths@[i as int] == id);
                return true;
            }
            i += 1;
        }
        false
    }

    /// Returns the first sample of a path.
    pub fn sample(&self, id: PathId) -> (r: Option<PathSample>)
        ensures
            r == sample_of(self.samples@, id),
    {
        let n = self.samples.len();
        let mut i: usize = 0;
        assert(self.samples@.skip(0) =~= self.samples@);
        while i < n
            invariant
                i <= n == self.samples@.len(),
                sample_of(self.samples@, id) == sample_of(self.samples@.skip(i as int), id),
            decreases n - i,
        {
            assert(self.samples@.skip(i as int).drop_first() =~= self.samples@.skip(i + 1));
            if self.samples[i].id == id {
                return Some(self.samples[i]);
            }
            i += 1;
        }
        None
    }
}

/// What surrounds the state of a remote endpoint when something happens.
pub struct Surroundings {
    /// The current time.
    pub now: Instant,
    /// The connections that have not been dropped.
    pub conns: Vec<LiveConn>,
    /// The local direct addresses.
    pub local_addrs: Vec<SocketAddr>,
}

/// The first of the connections with an identifier.
pub open spec fn conn_of(conns: Seq<LiveConn>, id: ConnId) -> Option<LiveConn>
    decreases conns.len(),
{
    if conns.len() == 0 {
        None
    } else if conns.first().id == id {
        Some(conns.first())
    } else {
        conn_of(conns.drop_first(), id)
    }
}

impl Surroundings {
    /// What a connection looks like, unless it was dropped.
    pub open spec fn conn(&self, id: ConnId) -> Option<LiveConn> {
        conn_of(self.conns@, id)
    }

    /// Returns what a connection looks like, unless it was dropped.
    pub fn live(&self, id: ConnId) -> (r: Option<&LiveConn>)
        ensures
            match r {
                Some(c) => self.conn(id) == Some(*c),
                None => self.conn(id) is None,
            },
    {
        let n = self.conns.len();
        let mut i: usize = 0;
        assert(self.conns@.skip(0) =~= self.conns@);
        while i < n
            invariant
                i <= n == self.conns@.len(),
                conn_of(self.conns@, id) == conn_of(self.conns@.skip(i as int), id),
            decreases n - i,
        {
            assert(self.conns@.skip(i as int).drop_first() =~= self.conns@.skip(i + 1));
            if self.conns[i].id == id {
                return Some(&self.conns[i]);
            }
            i += 1;
        }
        None
    }
}

} // verus!
