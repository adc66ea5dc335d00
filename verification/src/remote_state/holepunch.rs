//! When and on which connection to holepunch.

use crate::addr::SocketAddr;
use crate::remote_state::actor::{
    at, candidate_updates, Metric, RemoteAction, RemoteStateActor, RemoteStep,
    RemoteView, GOOD_ENOUGH_LATENCY, HOLEPUNCH_RETRY,
};
use crate::remote_state::connection::{
    canonical_set, contains_addr, distinct_addrs, sample_of, AttemptView, ConnId, ConnView,
    ConnectionState, HolepunchAttempt, LiveConn, PathId, PathSample, Surroundings,
    HOLEPUNCH_ATTEMPTS_INTERVAL,
};
use crate::flat::{flat, flat_step};
use crate::remote_state::fx_map::{fx_get, fx_insert, fx_remove, lists};
use crate::remote_state::laws::only_ready_clients_holepunch;
use crate::time::Instant;
use vstd::prelude::*;

verus! {

/// What came of an attempt to initiate a round of NAT traversal.
#[derive(Debug)]
pub enum RoundResult {
    /// The round started, with these candidates of the remote endpoint.
    Started(Vec<SocketAddr>),
    /// The connection could not open further paths.
    Multipath,
    /// Not enough addresses are known yet.
    NotEnoughAddresses,
    /// The round failed for another reason.
    Failed,
}

/// Whether a path is known to have good enough latency.
pub open spec fn is_fast(samples: Seq<PathSample>, id: PathId) -> bool {
    sample_of(samples, id) matches Some(sample) && sample.rtt <= GOOD_ENOUGH_LATENCY
}

impl RemoteView {
    /// Whether a connection can initiate holepunching: NAT traversal is
    /// authorized, it was not dropped, and this side is the client.
    pub open spec fn is_ready_client(self, id: ConnId, around: Surroundings) -> bool {
        &&& self.conns.contains_key(id)
        &&& self.conns[id].nat_traversal_authorized
        &&& around.conn(id) matches Some(l) && l.is_client
    }

    /// The connections that can initiate holepunching, in ascending order.
    pub open spec fn ready_clients(self, around: Surroundings) -> Seq<ConnId> {
        flat(
            self.ids(),
            |id: ConnId|
                if self.is_ready_client(id, around) {
                    seq![id]
                } else {
                    Seq::empty()
                },
        )
    }

    /// The connection to holepunch on: with deferred authorization exactly the
    /// one asked for, otherwise the lowest one that can.
    pub open spec fn holepunch_conn(
        self,
        preferred: Option<ConnId>,
        around: Surroundings,
    ) -> Option<ConnId> {
        match preferred {
            Some(id) if self.deferred => if self.is_ready_client(id, around) {
                Some(id)
            } else {
                None
            },
            _ => if self.ready_clients(around).len() > 0 {
                Some(self.ready_clients(around)[0])
            } else {
                None
            },
        }
    }

    /// The last attempt that counts for a connection: with deferred
    /// authorization its own, otherwise that on any connection.
    pub open spec fn last_attempt(self, id: ConnId) -> Option<AttemptView> {
        if self.deferred {
            self.conns[id].last_holepunch
        } else {
            self.last_holepunch
        }
    }

    /// The state after an attempt on a connection is scheduled.
    pub open spec fn scheduled(self, id: ConnId, time: Instant) -> RemoteView {
        if !self.deferred {
            RemoteView { scheduled_holepunch: Some(time), ..self }
        } else if self.conns.contains_key(id) {
            self.with_conn(id, ConnView { scheduled_holepunch: Some(time), ..self.conns[id] })
        } else {
            self
        }
    }

    /// The state after an attempt on a connection.
    pub open spec fn attempted(self, id: ConnId, attempt: AttemptView) -> RemoteView {
        if !self.deferred {
            RemoteView { last_holepunch: Some(attempt), scheduled_holepunch: None, ..self }
        } else if self.conns.contains_key(id) {
            self.with_conn(
                id,
                ConnView {
                    last_holepunch: Some(attempt),
                    scheduled_holepunch: None,
                    ..self.conns[id]
                },
            )
        } else {
            self
        }
    }

    /// The state after a round of NAT traversal on a connection started or
    /// failed.
    pub open spec fn after_round(
        self,
        id: ConnId,
        result: RoundResult,
        now: Instant,
        local: Seq<SocketAddr>,
    ) -> RemoteView {
        match result {
            RoundResult::Started(remote) => self.attempted(
                id,
                AttemptView {
                    when: now,
                    local_candidates: canonical_set(local),
                    remote_candidates: canonical_set(remote@),
                },
            ),
            RoundResult::Multipath | RoundResult::NotEnoughAddresses => self.scheduled(
                id,
                (now + HOLEPUNCH_RETRY) as Instant,
            ),
            RoundResult::Failed => self,
        }
    }

    /// Whether an attempt on a connection is too early: the last one covered
    /// the same candidates, and the interval has not passed since.
    pub open spec fn is_too_early(
        self,
        id: ConnId,
        local: Seq<SocketAddr>,
        remote: Seq<SocketAddr>,
        now: Instant,
    ) -> bool {
        self.last_attempt(id) matches Some(last) && last.covers(local, remote) && last.next() > now
    }

    /// The earliest attempt that is scheduled on one of the connections, and
    /// the first of the connections on which it is.
    pub open spec fn earliest(self, ids: Seq<ConnId>) -> Option<(ConnId, Instant)>
        decreases ids.len(),
    {
        if ids.len() == 0 {
            None
        } else {
            let before = self.earliest(ids.drop_last());
            match (self.conns[ids.last()].scheduled_holepunch, before) {
                (Some(time), Some((id, earliest))) => if time < earliest {
                    Some((ids.last(), time))
                } else {
                    before
                },
                (Some(time), None) => Some((ids.last(), time)),
                (None, _) => before,
            }
        }
    }

    /// The next scheduled attempt: with deferred authorization the earliest
    /// one on any connection, otherwise the one that is scheduled at all.
    pub open spec fn next_scheduled(self) -> Option<(Option<ConnId>, Instant)> {
        if self.deferred {
            match self.earliest(self.ids()) {
                Some((id, time)) => Some((Some(id), time)),
                None => None,
            }
        } else {
            match self.scheduled_holepunch {
                Some(time) => Some((None, time)),
                None => None,
            }
        }
    }

    /// What makes the announced candidates of all connections that take part
    /// in NAT traversal the local direct addresses.
    pub open spec fn announce_on_all(self, around: Surroundings) -> Seq<RemoteAction> {
        flat(
            self.ids(),
            |id: ConnId|
                match around.conn(id) {
                    Some(l) if self.conns[id].nat_traversal_authorized => candidate_updates(
                        id,
                        l.local_candidates,
                        around.local_addrs@,
                    ),
                    _ => Seq::empty(),
                },
        )
    }

    /// Whether a connection has an IP path of good enough latency.
    pub open spec fn is_good_enough(self, id: ConnId, around: Surroundings) -> bool {
        let c = self.conns[id];
        &&& around.conn(id) is Some
        &&& exists|p: PathId|
            {
                &&& #[trigger] c.paths.contains_key(p)
                &&& c.paths[p] is Ip
                &&& is_fast(around.conn(id)->0.samples@, p)
            }
    }

    /// Whether every connection that takes part in NAT traversal has an IP
    /// path of good enough latency.
    pub open spec fn all_good_enough(self, around: Surroundings) -> bool {
        forall|id: ConnId| #[trigger]
            self.conns.contains_key(id) && self.conns[id].nat_traversal_authorized
                ==> self.is_good_enough(id, around)
    }
}

impl RemoteStep {
    /// Holepunching is initiated on a connection, or scheduled where it is
    /// too early.
    pub open spec fn holepunch_on(self, id: ConnId, around: Surroundings) -> RemoteStep {
        match around.conn(id)->0.remote_candidates {
            None => self,
            Some(remote) => if self.state.is_too_early(
                id,
                around.local_addrs@,
                remote@,
                around.now,
            ) {
                self.with(self.state.scheduled(id, self.state.last_attempt(id)->0.next()))
            } else {
                self.did(RemoteAction::Count(Metric::HolepunchAttempts)).did(
                    RemoteAction::InitiateRound(id),
                )
            },
        }
    }

    /// Holepunching is triggered.
    pub open spec fn trigger(self, preferred: Option<ConnId>, around: Surroundings) -> RemoteStep {
        match self.state.holepunch_conn(preferred, around) {
            Some(id) => self.holepunch_on(id, around),
            None => self,
        }
    }

    /// Holepunching is triggered on one connection after the other.
    pub open spec fn trigger_each(self, ids: Seq<ConnId>, around: Surroundings) -> RemoteStep
        decreases ids.len(),
    {
        if ids.len() == 0 {
            self
        } else {
            self.trigger_each(ids.drop_last(), around).trigger(Some(ids.last()), around)
        }
    }

    /// Holepunching is triggered: with deferred authorization on each
    /// connection that can, otherwise on the lowest one.
    pub open spec fn trigger_all(self, around: Surroundings) -> RemoteStep {
        if self.state.deferred {
            self.trigger_each(self.state.ready_clients(around), around)
        } else {
            self.trigger(None, around)
        }
    }

    /// Holepunching is triggered unless all connections are good enough.
    pub open spec fn check_connections(self, around: Surroundings) -> RemoteStep {
        if self.state.all_good_enough(around) {
            self
        } else {
            self.trigger_all(around)
        }
    }

    /// A scheduled attempt is due.
    pub open spec fn on_scheduled_holepunch(
        self,
        conn: Option<ConnId>,
        around: Surroundings,
    ) -> RemoteStep {
        match conn {
            Some(id) => if self.state.conns.contains_key(id) {
                self.with(
                    self.state.with_conn(
                        id,
                        ConnView { scheduled_holepunch: None, ..self.state.conns[id] },
                    ),
                )
            } else {
                self
            },
            None => self.with(RemoteView { scheduled_holepunch: None, ..self.state }),
        }.trigger(conn, around)
    }
}

/// Makes the announced candidates of a connection the direct addresses.
pub fn update_qnt_candidates(
    conn: ConnId,
    l: &LiveConn,
    direct: &Vec<SocketAddr>,
    out: &mut Vec<RemoteAction>,
)
    ensures
        final(out)@ == old(out)@ + candidate_updates(conn, l.local_candidates, direct@),
{
    if let Some(current) = &l.local_candidates {
        let ghost before = out@;
        let ghost f = |addr: SocketAddr|
            if current@.contains(addr) {
                Seq::empty()
            } else {
                seq![RemoteAction::AddCandidate { conn, addr }]
            };
        let wanted = distinct_addrs(direct);
        let n = wanted.len();
        let mut i: usize = 0;
        while i < n
            invariant
                i <= n == wanted@.len(),
                f == (|addr: SocketAddr|
                    if current@.contains(addr) {
                        Seq::empty()
                    } else {
                        seq![RemoteAction::AddCandidate { conn, addr }]
                    }),
                out@ == before + flat(wanted@.take(i as int), f),
            decreases n - i,
        {
            proof {
                flat_step(wanted@, f, i as int);
            }
            let addr = wanted[i];
            if !contains_addr(current, addr) {
                out.push(RemoteAction::AddCandidate { conn, addr });
            }
            i += 1;
            assert(out@ =~= before + flat(wanted@.take(i as int), f));
        }
        assert(wanted@.take(n as int) =~= wanted@);
        let ghost added = out@;
        let ghost g = |addr: SocketAddr|
            if direct@.contains(addr) {
                Seq::empty()
            } else {
                seq![RemoteAction::RemoveCandidate { conn, addr }]
            };
        let announced = distinct_addrs(current);
        let m = announced.len();
        let mut i: usize = 0;
        while i < m
            invariant
                i <= m == announced@.len(),
                g == (|addr: SocketAddr|
                    if direct@.contains(addr) {
                        Seq::empty()
                    } else {
                        seq![RemoteAction::RemoveCandidate { conn, addr }]
                    }),
                out@ == added + flat(announced@.take(i as int), g),
            decreases m - i,
        {
            proof {
                flat_step(announced@, g, i as int);
            }
            let addr = announced[i];
            if !contains_addr(direct, addr) {
                out.push(RemoteAction::RemoveCandidate { conn, addr });
            }
            i += 1;
            assert(out@ =~= added + flat(announced@.take(i as int), g));
        }
        assert(announced@.take(m as int) =~= announced@);
    }
    assert(out@ =~= old(out)@ + candidate_updates(conn, l.local_candidates, direct@));
}

impl RemoteStateActor {
    /// Returns `true` if a connection can initiate holepunching.
    fn is_ready_client(&self, id: ConnId, around: &Surroundings) -> (r: bool)
        ensures
            r == self@.is_ready_client(id, *around),
    {
        match fx_get(&self.connections, id) {
            Some(c) => c.nat_traversal_authorized && match around.live(id) {
                Some(l) => l.is_client,
                None => false,
            },
            None => false,
        }
    }

    /// Returns the connections that can initiate holepunching, in ascending
    /// order.
    fn ready_clients(&self, around: &Surroundings) -> (r: Vec<ConnId>)
        ensures
            r@ == self@.ready_clients(*around),
    {
        let ghost view = self@;
        let ghost f = |id: ConnId|
            if view.is_ready_client(id, *around) {
                seq![id]
            } else {
                Seq::empty()
            };
        let ids = self.ids();
        let mut r: Vec<ConnId> = Vec::new();
        let n = ids.len();
        let mut i: usize = 0;
        while i < n
            invariant
                i <= n == ids@.len(),
                view == self@,
                f == (|id: ConnId|
                    if view.is_ready_client(id, *around) {
                        seq![id]
                    } else {
                        Seq::empty()
                    }),
                r@ == flat(ids@.take(i as int), f),
            decreases n - i,
        {
            let id = ids[i];
            proof {
                flat_step(ids@, f, i as int);
            }
            if self.is_ready_client(id, around) {
                r.push(id);
            }
            i += 1;
            assert(r@ =~= flat(ids@.take(i as int), f));
        }
        assert(ids@.take(n as int) =~= ids@);
        r
    }

    /// Finds the connection to holepunch on.
    pub fn holepunch_conn(&self, preferred: Option<ConnId>, around: &Surroundings) -> (r: Option<
        ConnId,
    >)
        ensures
            r == self@.holepunch_conn(preferred, *around),
    {
        if self.state.defer_nat_traversal_until_authorized {
            if let Some(id) = preferred {
                return if self.is_ready_client(id, around) {
                    Some(id)
                } else {
                    None
                };
            }
        }
        let ready = self.ready_clients(around);
        if ready.len() > 0 {
            Some(ready[0])
        } else {
            None
        }
    }

    /// Schedules an attempt on a connection.
    fn schedule(&mut self, id: ConnId, time: Instant)
        ensures
            final(self)@ == old(self)@.scheduled(id, time),
    {
        if !self.state.defer_nat_traversal_until_authorized {
            self.state.scheduled_holepunch = Some(time);
        } else if let Some(c) = fx_remove(&mut self.connections, id) {
            let c = ConnectionState { scheduled_holepunch: Some(time), ..c };
            fx_insert(&mut self.connections, id, c);
            assert(self@.conns =~= old(self)@.scheduled(id, time).conns);
        } else {
            assert(self@.conns =~= old(self)@.conns);
        }
    }

    /// Triggers holepunching: on an exact connection when authorization is
    /// deferred and one is given, otherwise on the lowest connection that can.
    pub fn trigger_holepunching_for(
        &mut self,
        preferred: Option<ConnId>,
        around: &Surroundings,
        out: &mut Vec<RemoteAction>,
    )
        ensures
            at(final(self), final(out)) == at(old(self), old(out)).trigger(preferred, *around),
    {
        let id = match self.holepunch_conn(preferred, around) {
            Some(id) => id,
            None => return,
        };
        proof {
            only_ready_clients_holepunch(self@, preferred, *around);
        }
        let l = match around.live(id) {
            Some(l) => l,
            None => return,
        };
        let remote = match &l.remote_candidates {
            Some(remote) => remote,
            None => return,
        };
        // Addresses are allowed to disappear, but if there are new ones it is
        // time to holepunch again.
        let mut early: Option<Instant> = None;
        if self.state.defer_nat_traversal_until_authorized {
            if let Some(c) = fx_get(&self.connections, id) {
                if let Some(last) = &c.last_holepunch {
                    if last.covers(&around.local_addrs, remote) && last.next() > around.now {
                        early = Some(last.next());
                    }
                }
            }
        } else if let Some(last) = &self.state.last_holepunch {
            if last.covers(&around.local_addrs, remote) && last.next() > around.now {
                early = Some(last.next());
            }
        }
        assert(early is Some == self@.is_too_early(
            id,
            around.local_addrs@,
            remote@,
            around.now,
        ));
        match early {
            Some(time) => self.schedule(id, time),
            None => {
                out.push(RemoteAction::Count(Metric::HolepunchAttempts));
                out.push(RemoteAction::InitiateRound(id));
            },
        }
    }

    /// Takes in what came of an attempt to initiate a round of NAT traversal
    /// on a connection: it is remembered, or tried again soon where that may
    /// help.
    pub fn on_round_result(
        &mut self,
        id: ConnId,
        result: &RoundResult,
        now: Instant,
        local: &Vec<SocketAddr>,
    )
        requires
            now + HOLEPUNCH_ATTEMPTS_INTERVAL <= Instant::MAX,
        ensures
            final(self)@ == old(self)@.after_round(id, *result, now, local@),
    {
        match result {
            RoundResult::Started(remote) => {
                let attempt = HolepunchAttempt::new(now, local, remote);
                if !self.state.defer_nat_traversal_until_authorized {
                    self.state.last_holepunch = Some(attempt);
                    self.state.scheduled_holepunch = None;
                } else if let Some(c) = fx_remove(&mut self.connections, id) {
                    let c = ConnectionState {
                        last_holepunch: Some(attempt),
                        scheduled_holepunch: None,
                        ..c
                    };
                    fx_insert(&mut self.connections, id, c);
                    assert(self@.conns =~= old(self)@.attempted(id, attempt@).conns);
                } else {
                    assert(self@.conns =~= old(self)@.conns);
                }
            },
            RoundResult::Multipath | RoundResult::NotEnoughAddresses => {
                self.schedule(id, now + HOLEPUNCH_RETRY);
            },
            RoundResult::Failed => {},
        }
    }

    /// Triggers holepunching on every connection that can when authorization
    /// is deferred, and on the lowest one otherwise.
    pub fn trigger_holepunching_all(&mut self, around: &Surroundings, out: &mut Vec<RemoteAction>)
        ensures
            at(final(self), final(out)) == at(old(self), old(out)).trigger_all(*around),
    {
        if !self.state.defer_nat_traversal_until_authorized {
            self.trigger_holepunching_for(None, around, out);
            return;
        }
        let ids = self.ready_clients(around);
        let n = ids.len();
        let mut i: usize = 0;
        let ghost start = at(self, out);
        while i < n
            invariant
                i <= n == ids@.len(),
                at(self, out) == start.trigger_each(ids@.take(i as int), *around),
            decreases n - i,
        {
            self.trigger_holepunching_for(Some(ids[i]), around, out);
            i += 1;
            assert(ids@.take(i as int).drop_last() =~= ids@.take(i - 1));
        }
        assert(ids@.take(n as int) =~= ids@);
    }

    /// Returns the next scheduled attempt, and the connection on which it is
    /// when authorization is deferred.
    pub fn next_scheduled_holepunch(&self) -> (r: Option<(Option<ConnId>, Instant)>)
        ensures
            r == self@.next_scheduled(),
    {
        if !self.state.defer_nat_traversal_until_authorized {
            return match self.state.scheduled_holepunch {
                Some(time) => Some((None, time)),
                None => None,
            };
        }
        let ids = self.ids();
        let mut best: Option<(ConnId, Instant)> = None;
        let n = ids.len();
        let mut i: usize = 0;
        while i < n
            invariant
                i <= n == ids@.len(),
                lists(ids@, self@.conns.dom()),
                best == self@.earliest(ids@.take(i as int)),
            decreases n - i,
        {
            let id = ids[i];
            assert(ids@.contains(id));
            assert(ids@.take(i + 1).drop_last() =~= ids@.take(i as int));
            if let Some(c) = fx_get(&self.connections, id) {
                if let Some(time) = c.scheduled_holepunch {
                    let earlier = match best {
                        Some((_, t)) => time < t,
                        None => true,
                    };
                    if earlier {
                        best = Some((id, time));
                    }
                }
            }
            i += 1;
        }
        assert(ids@.take(n as int) =~= ids@);
        match best {
            Some((id, time)) => Some((Some(id), time)),
            None => None,
        }
    }

    /// Makes the announced candidates of all connections that take part in
    /// NAT traversal the local direct addresses.
    pub fn update_local_direct_address(&self, around: &Surroundings, out: &mut Vec<RemoteAction>)
        ensures
            final(out)@ == old(out)@ + self@.announce_on_all(*around),
    {
        let ghost before = out@;
        let ghost view = self@;
        let ghost f = |id: ConnId|
            match around.conn(id) {
                Some(l) if view.conns[id].nat_traversal_authorized => candidate_updates(
                    id,
                    l.local_candidates,
                    around.local_addrs@,
                ),
                _ => Seq::empty(),
            };
        let ids = self.ids();
        let n = ids.len();
        let mut i: usize = 0;
        while i < n
            invariant
                i <= n == ids@.len(),
                lists(ids@, view.conns.dom()),
                view == self@,
                f == (|id: ConnId|
                    match around.conn(id) {
                        Some(l) if view.conns[id].nat_traversal_authorized => candidate_updates(
                            id,
                            l.local_candidates,
                            around.local_addrs@,
                        ),
                        _ => Seq::empty(),
                    }),
                out@ == before + flat(ids@.take(i as int), f),
            decreases n - i,
        {
            let id = ids[i];
            proof {
                assert(ids@.contains(id));
                flat_step(ids@, f, i as int);
            }
            if let Some(c) = fx_get(&self.connections, id) {
                if c.nat_traversal_authorized {
                    if let Some(l) = around.live(id) {
                        update_qnt_candidates(id, l, &around.local_addrs, out);
                    }
                }
            }
            i += 1;
            assert(out@ =~= before + flat(ids@.take(i as int), f));
        }
        assert(ids@.take(n as int) =~= ids@);
    }

    /// Returns `true` if a connection has an IP path of good enough latency.
    fn is_good_enough(&self, id: ConnId, c: &ConnectionState, around: &Surroundings) -> (r: bool)
        requires
            self@.conns[id] == c@,
        ensures
            r == self@.is_good_enough(id, *around),
    {
        let l = match around.live(id) {
            Some(l) => l,
            None => return false,
        };
        let ids = c.path_ids();
        let n = ids.len();
        let mut i: usize = 0;
        while i < n
            invariant
                i <= n == ids@.len(),
                lists(ids@, c@.paths.dom()),
                forall|j: int|
                    0 <= j < i ==> !(c@.paths[#[trigger] ids@[j]] is Ip && is_fast(
                        l.samples@,
                        ids@[j],
                    )),
                self@.conns[id] == c@,
                around.conn(id) == Some(*l),
            decreases n - i,
        {
            let p = ids[i];
            assert(ids@.contains(p));
            if let Some(path) = fx_get(&c.paths, p) {
                if path.is_ip() {
                    if let Some(sample) = l.sample(p) {
                        if sample.rtt <= GOOD_ENOUGH_LATENCY {
                            assert(c@.paths.contains_key(p));
                            return true;
                        }
                    }
                }
            }
            i += 1;
        }
        assert forall|p: PathId| #[trigger] c@.paths.contains_key(p) implies !(c@.paths[p] is Ip
            && is_fast(l.samples@, p)) by {
            assert(ids@.contains(p));
            let j = ids@.index_of(p);
            assert(ids@[j] == p);
        }
        false
    }

    /// Handles regularly checking if any paths need holepunching currently:
    /// each connection needs to have an IP path with a good enough latency.
    pub fn check_connections(&mut self, around: &Surroundings, out: &mut Vec<RemoteAction>)
        ensures
            at(final(self), final(out)) == at(old(self), old(out)).check_connections(*around),
    {
        let ids = self.ids();
        let n = ids.len();
        let mut i: usize = 0;
        while i < n
            invariant
                i <= n == ids@.len(),
                *self == *old(self),
                *out == *old(out),
                lists(ids@, self@.conns.dom()),
                forall|j: int|
                    0 <= j < i && self@.conns[#[trigger] ids@[j]].nat_traversal_authorized
                        ==> self@.is_good_enough(ids@[j], *around),
            decreases n - i,
        {
            let id = ids[i];
            assert(ids@.contains(id));
            if let Some(c) = fx_get(&self.connections, id) {
                if c.nat_traversal_authorized && !self.is_good_enough(id, c, around) {
                    assert(self@.conns.contains_key(id));
                    self.trigger_holepunching_all(around, out);
                    return;
                }
            }
            i += 1;
        }
        assert forall|id: ConnId| #[trigger]
            self@.conns.contains_key(id) && self@.conns[id].nat_traversal_authorized implies self@.is_good_enough(
        id, *around) by {
            assert(ids@.contains(id));
            let j = ids@.index_of(id);
            assert(ids@[j] == id);
        }
    }

    /// A scheduled attempt is due: it is scheduled no longer, and made.
    pub fn on_scheduled_holepunch(
        &mut self,
        conn: Option<ConnId>,
        around: &Surroundings,
        out: &mut Vec<RemoteAction>,
    )
        ensures
            at(final(self), final(out)) == at(old(self), old(out)).on_scheduled_holepunch(
                conn,
                *around,
            ),
    {
        match conn {
            Some(id) => {
                if let Some(c) = fx_remove(&mut self.connections, id) {
                    let c = ConnectionState { scheduled_holepunch: None, ..c };
                    fx_insert(&mut self.connections, id, c);
                    assert(self@.conns =~= old(self)@.conns.insert(id, c@));
                } else {
                    assert(self@.conns =~= old(self)@.conns);
                }
            },
            None => {
                self.state.scheduled_holepunch = None;
            },
        }
        self.trigger_holepunching_for(conn, around, out);
    }
}

} // verus!
