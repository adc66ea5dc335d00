//! What the steps of the actor bring about: for each thing that may happen,
//! what is done about it and how the state changes.

use crate::addr::SocketAddr;
use crate::flat::{flat, flat_comes_from, flat_holds};
use crate::remote_state::actor::{
    candidate_updates, RemoteAction, RemoteStep, RemoteView, ACTOR_MAX_IDLE_TIMEOUT,
    GOOD_ENOUGH_LATENCY, HOLEPUNCH_RETRY, OPEN_PATH_RETRY, UPGRADE_INTERVAL,
};
use crate::remote_state::connection::{
    conn_of, distinct, distinct_addrs_are_the_same, sample_of, AttemptView, ConnId, ConnView,
    LiveConn, PathId, PathSample, Surroundings, HOLEPUNCH_ATTEMPTS_INTERVAL,
};
use crate::remote_state::fx_map::finite_set_is_listed;
use crate::remote_state::laws::{lowest_client_holepunches, only_ready_clients_holepunch};
use crate::remote_state::paths::Addr;
use crate::remote_state::run::{RemoteEvent, RemoteStateMessage};
use crate::remote_state::selection::PathSelector;
use vstd::prelude::*;

verus! {

/// Whether a step led to another one and did something on the way.
pub open spec fn does(s: RemoteStep, next: RemoteStep, action: RemoteAction) -> bool {
    &&& s.actions.is_prefix_of(next.actions)
    &&& exists|i: int|
        s.actions.len() <= i < next.actions.len() && #[trigger] next.actions[i] == action
}

/// Whether a connection takes part in NAT traversal, was not dropped and was
/// initiated by this side, and looks like `l`.
pub open spec fn is_client_conn(
    v: RemoteView,
    around: Surroundings,
    id: ConnId,
    l: LiveConn,
) -> bool {
    &&& v.conns.contains_key(id)
    &&& v.conns[id].nat_traversal_authorized
    &&& around.conn(id) == Some(l)
    &&& l.is_client
}

/// Whether another round of NAT traversal is due after the last one: the peer
/// announced candidates, and there was no round yet, or there is a candidate
/// that it did not cover, or the interval since then has passed.
pub open spec fn is_due(last: Option<AttemptView>, l: LiveConn, around: Surroundings) -> bool {
    &&& l.remote_candidates is Some
    &&& match last {
        None => true,
        Some(last) => {
            ||| exists|a: SocketAddr| #[trigger]
                l.remote_candidates->0@.contains(a) && !last.remote_candidates.contains(
                    a.canonical(),
                )
            ||| exists|a: SocketAddr| #[trigger]
                around.local_addrs@.contains(a) && !last.local_candidates.contains(a.canonical())
            ||| last.when + HOLEPUNCH_ATTEMPTS_INTERVAL <= around.now
        },
    }
}

/// Whether a connection is the one to be holepunched on: where authorization
/// is deferred any that can be, otherwise the lowest one.
pub open spec fn is_to_be_holepunched(
    v: RemoteView,
    around: Surroundings,
    id: ConnId,
    l: LiveConn,
) -> bool {
    &&& is_client_conn(v, around, id, l)
    &&& if v.deferred {
        is_due(v.conns[id].last_holepunch, l, around)
    } else {
        &&& is_due(v.last_holepunch, l, around)
        &&& forall|other: ConnId, m: LiveConn| #[trigger]
            is_client_conn(v, around, other, m) ==> id <= other
    }
}

/// What was done stays done.
pub(crate) proof fn still_does(s: RemoteStep, mid: RemoteStep, next: RemoteStep, action: RemoteAction)
    requires
        mid.actions.is_prefix_of(next.actions),
        s.actions.is_prefix_of(mid.actions),
        does(s, mid, action) || does(mid, next, action),
    ensures
        does(s, next, action),
{
    if does(s, mid, action) {
        let i = choose|i: int|
            s.actions.len() <= i < mid.actions.len() && #[trigger] mid.actions[i] == action;
        assert(next.actions[i] == action);
    } else {
        let i = choose|i: int|
            mid.actions.len() <= i < next.actions.len() && #[trigger] next.actions[i] == action;
        assert(next.actions[i] == action);
    }
}

/// Actions that are done are done.
pub(crate) proof fn did_all_does(s: RemoteStep, actions: Seq<RemoteAction>, action: RemoteAction)
    requires
        actions.contains(action),
    ensures
        does(s, s.did_all(actions), action),
{
    let i = actions.index_of(action);
    assert(s.did_all(actions).actions[s.actions.len() + i] == action);
}

/// A round that is due is initiated.
proof fn due_round_is_initiated(s: RemoteStep, around: Surroundings, id: ConnId, l: LiveConn)
    requires
        around.conn(id) == Some(l),
        is_due(s.state.last_attempt(id), l, around),
    ensures
        does(s, s.holepunch_on(id, around), RemoteAction::InitiateRound(id)),
{
    let remote = l.remote_candidates->0@;
    let local = around.local_addrs@;
    if let Some(last) = s.state.last_attempt(id) {
        if exists|a: SocketAddr| #[trigger]
            remote.contains(a) && !last.remote_candidates.contains(a.canonical()) {
            let a = choose|a: SocketAddr| #[trigger]
                remote.contains(a) && !last.remote_candidates.contains(a.canonical());
            let all = remote.map_values(|a: SocketAddr| a.canonical());
            assert(all[remote.index_of(a)] == a.canonical());
            assert(crate::remote_state::connection::canonical_set(remote).contains(a.canonical()));
        }
        if exists|a: SocketAddr| #[trigger]
            local.contains(a) && !last.local_candidates.contains(a.canonical()) {
            let a = choose|a: SocketAddr| #[trigger]
                local.contains(a) && !last.local_candidates.contains(a.canonical());
            let all = local.map_values(|a: SocketAddr| a.canonical());
            assert(all[local.index_of(a)] == a.canonical());
            assert(crate::remote_state::connection::canonical_set(local).contains(a.canonical()));
        }
    }
    let next = s.holepunch_on(id, around);
    assert(next.actions[next.actions.len() - 1] == RemoteAction::InitiateRound(id));
}

/// Holepunching on a connection does not change what others are to be
/// holepunched by.
pub(crate) proof fn triggers_keep_the_rest(
    s: RemoteStep,
    preferred: Option<ConnId>,
    around: Surroundings,
    id: ConnId,
)
    ensures
        ({
            let next = s.trigger(preferred, around);
            &&& s.actions.is_prefix_of(next.actions)
            &&& next.state.deferred == s.state.deferred
            &&& next.state.conns.dom() == s.state.conns.dom()
            &&& next.state.conns[id].nat_traversal_authorized
                == s.state.conns[id].nat_traversal_authorized
            &&& next.state.conns[id].last_holepunch == s.state.conns[id].last_holepunch
            &&& next.state.conns[id].paths == s.state.conns[id].paths
            &&& next.state.conns[id].peer_candidates_observed
                == s.state.conns[id].peer_candidates_observed
        }),
{
    only_ready_clients_holepunch(s.state, preferred, around);
    let next = s.trigger(preferred, around);
    assert(next.state.conns.dom() =~= s.state.conns.dom());
}

/// One round after the other is initiated.
proof fn each_due_round_is_initiated(
    s: RemoteStep,
    ids: Seq<ConnId>,
    around: Surroundings,
    id: ConnId,
    l: LiveConn,
)
    requires
        s.state.deferred,
    ensures
        ({
            let next = s.trigger_each(ids, around);
            &&& s.actions.is_prefix_of(next.actions)
            &&& next.state.deferred
            &&& next.state.conns.dom() == s.state.conns.dom()
            &&& next.state.conns[id].nat_traversal_authorized
                == s.state.conns[id].nat_traversal_authorized
            &&& next.state.conns[id].last_holepunch == s.state.conns[id].last_holepunch
            &&& next.state.conns[id].paths == s.state.conns[id].paths
            &&& next.state.conns[id].peer_candidates_observed
                == s.state.conns[id].peer_candidates_observed
            &&& ids.contains(id) && is_client_conn(s.state, around, id, l) && is_due(
                s.state.conns[id].last_holepunch,
                l,
                around,
            ) ==> does(s, next, RemoteAction::InitiateRound(id))
        }),
    decreases ids.len(),
{
    if ids.len() > 0 {
        let rest = ids.drop_last();
        let mid = s.trigger_each(rest, around);
        let next = mid.trigger(Some(ids.last()), around);
        each_due_round_is_initiated(s, rest, around, id, l);
        triggers_keep_the_rest(mid, Some(ids.last()), around, id);
        if ids.contains(id) && is_client_conn(s.state, around, id, l) && is_due(
            s.state.conns[id].last_holepunch,
            l,
            around,
        ) {
            if rest.contains(id) {
                still_does(s, mid, next, RemoteAction::InitiateRound(id));
            } else {
                let k = ids.index_of(id);
                assert(k == ids.len() - 1) by {
                    if k < rest.len() {
                        assert(rest[k] == id);
                    }
                }
                assert(is_client_conn(mid.state, around, id, l));
                due_round_is_initiated(mid, around, id, l);
                still_does(s, mid, next, RemoteAction::InitiateRound(id));
            }
        }
    }
}

/// Where holepunching is triggered at large, it starts on every connection
/// that it is due on where authorization is deferred, and on the lowest one
/// otherwise.
proof fn trigger_all_initiates(s: RemoteStep, around: Surroundings, id: ConnId, l: LiveConn)
    requires
        s.state.conns.dom().finite(),
        is_to_be_holepunched(s.state, around, id, l),
    ensures
        does(s, s.trigger_all(around), RemoteAction::InitiateRound(id)),
{
    let v = s.state;
    finite_set_is_listed(v.conns.dom());
    assert(v.ids().contains(id));
    if v.deferred {
        let f = |id: ConnId|
            if v.is_ready_client(id, around) {
                seq![id]
            } else {
                Seq::empty()
            };
        let k = v.ids().index_of(id);
        assert(f(v.ids()[k])[0] == id);
        flat_holds(v.ids(), f, k, id);
        each_due_round_is_initiated(s, v.ready_clients(around), around, id, l);
    } else {
        trigger_initiates(s, None, around, id, l);
    }
}

/// Where holepunching is triggered, it starts on the connection asked for
/// where authorization is deferred, and on the lowest one otherwise.
pub(crate) proof fn trigger_initiates(
    s: RemoteStep,
    preferred: Option<ConnId>,
    around: Surroundings,
    id: ConnId,
    l: LiveConn,
)
    requires
        s.state.conns.dom().finite(),
        is_to_be_holepunched(s.state, around, id, l),
        s.state.deferred ==> preferred == Some(id),
    ensures
        does(s, s.trigger(preferred, around), RemoteAction::InitiateRound(id)),
{
    let v = s.state;
    if !v.deferred {
        lowest_client_holepunches(v, preferred, around, id);
        only_ready_clients_holepunch(v, preferred, around);
        let lowest = v.holepunch_conn(preferred, around)->0;
        assert(is_client_conn(v, around, lowest, around.conn(lowest)->0));
    }
    due_round_is_initiated(s, around, id, l);
}

/// What pings the paths contains a ping of each path that a connection which
/// takes part in NAT traversal has and still knows, and nothing else.
proof fn pings_reach_every_path(v: RemoteView, around: Surroundings, id: ConnId, p: PathId)
    requires
        v.conns.dom().finite(),
        v.conns.contains_key(id) ==> v.conns[id].paths.dom().finite(),
    ensures
        v.ping_all(around).contains(RemoteAction::Ping { conn: id, id: p }) <==> {
            &&& v.conns.contains_key(id)
            &&& v.conns[id].nat_traversal_authorized
            &&& v.conns[id].paths.contains_key(p)
            &&& around.conn(id) matches Some(l) && l.open_paths@.contains(p)
        },
        forall|i: int| 0 <= i < v.ping_all(around).len() ==> #[trigger] v.ping_all(around)[i] is Ping,
{
    finite_set_is_listed(v.conns.dom());
    let all = v.ping_all(around);
    let ping = RemoteAction::Ping { conn: id, id: p };
    let f = |id: ConnId| v.ping_on(id, around);
    assert forall|i: int| 0 <= i < all.len() implies {
        &&& #[trigger] all[i] is Ping
        &&& all[i] == ping ==> {
            &&& v.conns.contains_key(id)
            &&& v.conns[id].nat_traversal_authorized
            &&& v.conns[id].paths.contains_key(p)
            &&& around.conn(id) matches Some(l) && l.open_paths@.contains(p)
        }
    } by {
        let k = flat_comes_from(v.ids(), f, i);
        let conn = v.ids()[k];
        assert(v.ids().contains(conn));
        let l = around.conn(conn)->0;
        let g = |id: PathId|
            if l.knows(id) {
                seq![RemoteAction::Ping { conn, id }]
            } else {
                Seq::empty()
            };
        let paths = v.conns[conn].path_ids();
        let j = v.ping_on(conn, around).index_of(all[i]);
        let m = flat_comes_from(paths, g, j);
        if conn == id {
            finite_set_is_listed(v.conns[id].paths.dom());
            assert(paths.contains(paths[m]));
        }
    }
    if all.contains(ping) {
        let i = all.index_of(ping);
        assert(all[i] == ping);
    }
    if v.conns.contains_key(id) && v.conns[id].nat_traversal_authorized
        && v.conns[id].paths.contains_key(p) && around.conn(id) is Some && around.conn(
        id,
    )->0.open_paths@.contains(p) {
        finite_set_is_listed(v.conns[id].paths.dom());
        let l = around.conn(id)->0;
        let conn = id;
        let g = |id: PathId|
            if l.knows(id) {
                seq![RemoteAction::Ping { conn, id }]
            } else {
                Seq::empty()
            };
        let paths = v.conns[id].path_ids();
        assert(paths.contains(p));
        let m = paths.index_of(p);
        assert(g(paths[m])[0] == ping);
        flat_holds(paths, g, m, ping);
        assert(v.ids().contains(id));
        let k = v.ids().index_of(id);
        assert(f(v.ids()[k]).contains(ping));
        flat_holds(v.ids(), f, k, ping);
    }
}

/// After a change of the network every path that is up is pinged, on every
/// connection that takes part in NAT traversal. After a major one holepunching
/// starts too wherever it is due, whether or not a path is selected; after a
/// minor one it does not, and nothing else changes.
pub proof fn network_change_pings_and_holepunches<S: PathSelector>(
    s: RemoteStep,
    is_major: bool,
    known: Seq<Addr>,
    selector: &S,
    around: Surroundings,
    next: RemoteStep,
    id: ConnId,
    l: LiveConn,
    p: PathId,
    i: int,
)
    requires
        s.state.conns.dom().finite(),
        s.state.conns.contains_key(id) ==> s.state.conns[id].paths.dom().finite(),
        s.may_follow(
            RemoteEvent::Message(RemoteStateMessage::NetworkChange { is_major }),
            known,
            selector,
            around,
            next,
        ),
    ensures
        s.state.conns.contains_key(id) && s.state.conns[id].nat_traversal_authorized
            && s.state.conns[id].paths.contains_key(p) && around.conn(id) == Some(l)
            && l.open_paths@.contains(p) ==> does(s, next, RemoteAction::Ping { conn: id, id: p }),
        is_major && is_to_be_holepunched(s.state, around, id, l) ==> does(
            s,
            next,
            RemoteAction::InitiateRound(id),
        ),
        !is_major ==> next.state == s.state,
        !is_major && s.actions.len() <= i < next.actions.len() ==> next.actions[i] is Ping,
{
    let v = s.state;
    let all = v.ping_all(around);
    let mid = s.did_all(all);
    let ping = RemoteAction::Ping { conn: id, id: p };
    pings_reach_every_path(v, around, id, p);
    if is_major {
        if is_to_be_holepunched(v, around, id, l) {
            trigger_all_initiates(mid, around, id, l);
            still_does(s, mid, next, RemoteAction::InitiateRound(id));
        }
        trigger_all_keeps(mid, around, id);
    } else if s.actions.len() <= i < next.actions.len() {
        assert(next.actions[i] == all[i - s.actions.len()]);
    }
    if all.contains(ping) {
        did_all_does(s, all, ping);
        still_does(s, mid, next, ping);
    }
}

/// To trigger holepunching at large keeps what was done.
proof fn trigger_all_keeps(s: RemoteStep, around: Surroundings, id: ConnId)
    ensures
        s.actions.is_prefix_of(s.trigger_all(around).actions),
{
    triggers_keep_the_rest(s, None, around, id);
    if s.state.deferred {
        each_due_round_is_initiated(
            s,
            s.state.ready_clients(around),
            around,
            id,
            around.conn(id)->0,
        );
    }
}

/// The update of candidates announces each direct address that is not
/// announced, and withdraws each announced one that is none.
pub(crate) proof fn updates_are_complete(
    conn: ConnId,
    current: Vec<SocketAddr>,
    direct: Seq<SocketAddr>,
    addr: SocketAddr,
)
    ensures
        direct.contains(addr) && !current@.contains(addr) ==> candidate_updates(
            conn,
            Some(current),
            direct,
        ).contains(RemoteAction::AddCandidate { conn, addr }),
        current@.contains(addr) && !direct.contains(addr) ==> candidate_updates(
            conn,
            Some(current),
            direct,
        ).contains(RemoteAction::RemoveCandidate { conn, addr }),
{
    let f = |addr: SocketAddr|
        if current@.contains(addr) {
            Seq::empty()
        } else {
            seq![RemoteAction::AddCandidate { conn, addr }]
        };
    let g = |addr: SocketAddr|
        if direct.contains(addr) {
            Seq::empty()
        } else {
            seq![RemoteAction::RemoveCandidate { conn, addr }]
        };
    let wanted = distinct(direct);
    let listed = distinct(current@);
    distinct_addrs_are_the_same(direct);
    distinct_addrs_are_the_same(current@);
    let all = candidate_updates(conn, Some(current), direct);
    let added = flat(wanted, f);
    if direct.contains(addr) && !current@.contains(addr) {
        assert(wanted.contains(addr));
        let k = wanted.index_of(addr);
        let a = RemoteAction::AddCandidate { conn, addr };
        assert(f(wanted[k])[0] == a);
        flat_holds(wanted, f, k, a);
        assert(all[added.index_of(a)] == a);
    }
    if current@.contains(addr) && !direct.contains(addr) {
        assert(listed.contains(addr));
        let k = listed.index_of(addr);
        let a = RemoteAction::RemoveCandidate { conn, addr };
        assert(g(listed[k])[0] == a);
        flat_holds(listed, g, k, a);
        assert(all[added.len() + flat(listed, g).index_of(a)] == a);
    }
}

/// Whether the candidates of a connection come to be the direct addresses:
/// what is not announced is, and what should not be is withdrawn.
pub open spec fn announces(
    s: RemoteStep,
    next: RemoteStep,
    conn: ConnId,
    l: LiveConn,
    direct: Seq<SocketAddr>,
) -> bool {
    l.local_candidates matches Some(current) ==> {
        &&& forall|addr: SocketAddr| #[trigger]
            direct.contains(addr) && !current@.contains(addr) ==> does(
                s,
                next,
                RemoteAction::AddCandidate { conn, addr },
            )
        &&& forall|addr: SocketAddr| #[trigger]
            current@.contains(addr) && !direct.contains(addr) ==> does(
                s,
                next,
                RemoteAction::RemoveCandidate { conn, addr },
            )
    }
}

/// Updates that are done announce.
pub(crate) proof fn updating_announces(
    s: RemoteStep,
    mid: RemoteStep,
    next: RemoteStep,
    all: Seq<RemoteAction>,
    conn: ConnId,
    l: LiveConn,
    direct: Seq<SocketAddr>,
)
    requires
        s.actions.is_prefix_of(mid.actions),
        (mid.actions + all).is_prefix_of(next.actions),
        forall|a: RemoteAction| #[trigger]
            candidate_updates(conn, l.local_candidates, direct).contains(a) ==> all.contains(a),
    ensures
        announces(s, next, conn, l, direct),
        s.actions.is_prefix_of(next.actions),
{
    let done = mid.did_all(all);
    if let Some(current) = l.local_candidates {
        assert forall|addr: SocketAddr| #[trigger]
            direct.contains(addr) && !current@.contains(addr) implies does(
            s,
            next,
            RemoteAction::AddCandidate { conn, addr },
        ) by {
            let a = RemoteAction::AddCandidate { conn, addr };
            updates_are_complete(conn, current, direct, addr);
            did_all_does(mid, all, a);
            still_does(s, mid, done, a);
            still_does(s, done, next, a);
        }
        assert forall|addr: SocketAddr| #[trigger]
            current@.contains(addr) && !direct.contains(addr) implies does(
            s,
            next,
            RemoteAction::RemoveCandidate { conn, addr },
        ) by {
            let a = RemoteAction::RemoveCandidate { conn, addr };
            updates_are_complete(conn, current, direct, addr);
            did_all_does(mid, all, a);
            still_does(s, mid, done, a);
            still_does(s, done, next, a);
        }
    }
}

/// When the local direct addresses change, they come to be the candidates of
/// every connection that takes part in NAT traversal, and holepunching starts
/// wherever it is due.
pub proof fn new_local_addresses_are_announced<S: PathSelector>(
    s: RemoteStep,
    known: Seq<Addr>,
    selector: &S,
    around: Surroundings,
    next: RemoteStep,
    id: ConnId,
    l: LiveConn,
)
    requires
        s.state.conns.dom().finite(),
        s.may_follow(RemoteEvent::LocalAddrsChanged, known, selector, around, next),
    ensures
        s.state.conns.contains_key(id) && s.state.conns[id].nat_traversal_authorized
            && around.conn(id) == Some(l) ==> announces(s, next, id, l, around.local_addrs@),
        is_to_be_holepunched(s.state, around, id, l) ==> does(
            s,
            next,
            RemoteAction::InitiateRound(id),
        ),
{
    let v = s.state;
    let direct = around.local_addrs@;
    let all = v.announce_on_all(around);
    let mid = s.did_all(all);
    trigger_all_keeps(mid, around, id);
    if is_to_be_holepunched(v, around, id, l) {
        trigger_all_initiates(mid, around, id, l);
        still_does(s, mid, next, RemoteAction::InitiateRound(id));
    }
    if v.conns.contains_key(id) && v.conns[id].nat_traversal_authorized && around.conn(id) == Some(
        l,
    ) {
        finite_set_is_listed(v.conns.dom());
        let f = |id: ConnId|
            match around.conn(id) {
                Some(l) if v.conns[id].nat_traversal_authorized => candidate_updates(
                    id,
                    l.local_candidates,
                    around.local_addrs@,
                ),
                _ => Seq::empty(),
            };
        assert(v.ids().contains(id));
        let k = v.ids().index_of(id);
        assert forall|a: RemoteAction| #[trigger]
            candidate_updates(id, l.local_candidates, direct).contains(a) implies all.contains(
            a,
        ) by {
            assert(f(v.ids()[k]).contains(a));
            flat_holds(v.ids(), f, k, a);
        }
        updating_announces(s, s, next, all, id, l, direct);
    }
}

/// Whether a connection has a direct path that is fast enough, given what is
/// known of its paths.
pub open spec fn has_fast_path(v: RemoteView, id: ConnId, l: LiveConn) -> bool {
    exists|p: PathId, i: int|
        {
            &&& #[trigger] v.conns[id].paths.contains_key(p)
            &&& v.conns[id].paths[p] is Ip
            &&& 0 <= i < l.samples@.len()
            &&& (#[trigger] l.samples@[i]).id == p
            &&& l.samples@[i].rtt <= GOOD_ENOUGH_LATENCY
            &&& forall|j: int| 0 <= j < i ==> l.samples@[j].id != p
        }
}

/// The sample that counts for a path is the first one of it.
pub proof fn first_sample_counts(samples: Seq<PathSample>, id: PathId)
    ensures
        sample_of(samples, id) is None <==> forall|i: int|
            0 <= i < samples.len() ==> (#[trigger] samples[i]).id != id,
        forall|i: int|
            0 <= i < samples.len() && (#[trigger] samples[i]).id == id && (forall|j: int|
                0 <= j < i ==> samples[j].id != id) ==> sample_of(samples, id) == Some(samples[i]),
        sample_of(samples, id) is Some ==> exists|i: int|
            0 <= i < samples.len() && #[trigger] samples[i] == sample_of(samples, id)->0
                && samples[i].id == id && forall|j: int| 0 <= j < i ==> samples[j].id != id,
    decreases samples.len(),
{
    if samples.len() > 0 {
        let rest = samples.drop_first();
        first_sample_counts(rest, id);
        assert forall|i: int| 0 <= i < rest.len() implies #[trigger] rest[i] == samples[i + 1] by {}
        assert(samples[0] == samples.first());
        if samples.first().id != id {
            if sample_of(rest, id) is Some {
                let i = choose|i: int|
                    0 <= i < rest.len() && #[trigger] rest[i] == sample_of(rest, id)->0 && rest[i].id
                        == id && forall|j: int| 0 <= j < i ==> rest[j].id != id;
                assert(samples[i + 1] == sample_of(samples, id)->0);
                assert forall|j: int| 0 <= j < i + 1 implies samples[j].id != id by {
                    if j > 0 {
                        assert(rest[j - 1] == samples[j]);
                    }
                }
            }
            assert forall|i: int|
                0 <= i < samples.len() && (#[trigger] samples[i]).id == id && (forall|j: int|
                    0 <= j < i ==> samples[j].id != id) implies sample_of(samples, id) == Some(
                samples[i],
            ) by {
                assert(rest[i - 1] == samples[i]);
                assert forall|j: int| 0 <= j < i - 1 implies rest[j].id != id by {
                    assert(rest[j] == samples[j + 1]);
                }
            }
            if sample_of(samples, id) is None {
                assert forall|i: int| 0 <= i < samples.len() implies (#[trigger] samples[i]).id
                    != id by {
                    if i > 0 {
                        assert(rest[i - 1] == samples[i]);
                    }
                }
            }
        }
    }
}

/// A live connection is found by its identifier: the first one that has it.
pub proof fn live_connection_is_found(conns: Seq<LiveConn>, id: ConnId, i: int)
    ensures
        0 <= i < conns.len() && conns[i].id == id && (forall|j: int|
            0 <= j < i ==> conns[j].id != id) ==> conn_of(conns, id) == Some(conns[i]),
        (forall|j: int| 0 <= j < conns.len() ==> conns[j].id != id) ==> conn_of(conns, id) is None,
    decreases conns.len(),
{
    if conns.len() > 0 {
        let rest = conns.drop_first();
        live_connection_is_found(rest, id, i - 1);
        assert forall|j: int| 0 <= j < rest.len() implies rest[j] == conns[j + 1] by {}
        if conns.first().id == id {
            assert(conns[0].id == id);
        }
    }
}

/// The regular check starts holepunching wherever it is due, as soon as one
/// connection that takes part in NAT traversal has no direct path that is fast
/// enough. Otherwise it does nothing.
pub proof fn check_holepunches_slow_connections<S: PathSelector>(
    s: RemoteStep,
    known: Seq<Addr>,
    selector: &S,
    around: Surroundings,
    next: RemoteStep,
    slow: ConnId,
    id: ConnId,
    l: LiveConn,
)
    requires
        s.state.conns.dom().finite(),
        s.may_follow(RemoteEvent::CheckDue, known, selector, around, next),
    ensures
        s.state.conns.contains_key(slow) && s.state.conns[slow].nat_traversal_authorized && (
        around.conn(slow) is None || !has_fast_path(s.state, slow, around.conn(slow)->0))
            && is_to_be_holepunched(s.state, around, id, l) ==> does(
            s,
            next,
            RemoteAction::InitiateRound(id),
        ),
        (forall|c: ConnId| #[trigger]
            s.state.conns.contains_key(c) && s.state.conns[c].nat_traversal_authorized
                ==> around.conn(c) is Some && has_fast_path(s.state, c, around.conn(c)->0)) ==> next
            == s,
{
    let v = s.state;
    if v.conns.contains_key(slow) && v.conns[slow].nat_traversal_authorized && (around.conn(
        slow,
    ) is None || !has_fast_path(v, slow, around.conn(slow)->0)) && is_to_be_holepunched(
        v,
        around,
        id,
        l,
    ) {
        if v.is_good_enough(slow, around) {
            let m = around.conn(slow)->0;
            let p = choose|p: PathId|
                {
                    &&& #[trigger] v.conns[slow].paths.contains_key(p)
                    &&& v.conns[slow].paths[p] is Ip
                    &&& crate::remote_state::holepunch::is_fast(m.samples@, p)
                };
            first_sample_counts(m.samples@, p);
            let i = choose|i: int|
                0 <= i < m.samples@.len() && #[trigger] m.samples@[i] == sample_of(m.samples@, p)->0
                    && m.samples@[i].id == p && forall|j: int| 0 <= j < i ==> m.samples@[j].id != p;
            assert(v.conns[slow].paths.contains_key(p) && m.samples@[i].id == p);
            assert(has_fast_path(v, slow, m));
        }
        assert(!v.all_good_enough(around));
        trigger_all_initiates(s, around, id, l);
    }
    if forall|c: ConnId| #[trigger]
        v.conns.contains_key(c) && v.conns[c].nat_traversal_authorized ==> around.conn(c) is Some
            && has_fast_path(v, c, around.conn(c)->0) {
        assert forall|c: ConnId| #[trigger]
            v.conns.contains_key(c) && v.conns[c].nat_traversal_authorized implies v.is_good_enough(
            c,
            around,
        ) by {
            let m = around.conn(c)->0;
            let (p, i) = choose|p: PathId, i: int|
                {
                    &&& #[trigger] v.conns[c].paths.contains_key(p)
                    &&& v.conns[c].paths[p] is Ip
                    &&& 0 <= i < m.samples@.len()
                    &&& (#[trigger] m.samples@[i]).id == p
                    &&& m.samples@[i].rtt <= GOOD_ENOUGH_LATENCY
                    &&& forall|j: int| 0 <= j < i ==> m.samples@[j].id != p
                };
            first_sample_counts(m.samples@, p);
            assert(v.conns[c].paths.contains_key(p));
        }
    }
}

/// A scheduled attempt that is due is made, on the connection that it was
/// scheduled for where authorization is deferred and on the lowest one
/// otherwise, and it is scheduled no longer.
pub proof fn scheduled_attempt_is_made<S: PathSelector>(
    s: RemoteStep,
    known: Seq<Addr>,
    selector: &S,
    around: Surroundings,
    next: RemoteStep,
    conn: Option<ConnId>,
    id: ConnId,
    l: LiveConn,
)
    requires
        s.state.conns.dom().finite(),
        s.may_follow(RemoteEvent::HolepunchDue(conn), known, selector, around, next),
        is_to_be_holepunched(s.state, around, id, l),
        s.state.deferred ==> conn == Some(id),
    ensures
        does(s, next, RemoteAction::InitiateRound(id)),
        s.state.deferred ==> next.state.conns[id].scheduled_holepunch is None,
        conn is None ==> next.state.scheduled_holepunch is None,
{
    let v = s.state;
    let cleared = match conn {
        Some(c) => if v.conns.contains_key(c) {
            v.with_conn(c, ConnView { scheduled_holepunch: None, ..v.conns[c] })
        } else {
            v
        },
        None => RemoteView { scheduled_holepunch: None, ..v },
    };
    let mid = s.with(cleared);
    assert forall|other: ConnId, m: LiveConn| #[trigger]
        is_client_conn(cleared, around, other, m) implies is_client_conn(v, around, other, m) by {}
    assert(is_to_be_holepunched(cleared, around, id, l));
    trigger_initiates(mid, conn, around, id, l);
    still_does(s, mid, next, RemoteAction::InitiateRound(id));
    due_is_not_too_early(cleared, around, conn, id, l);
}

/// What is due is not scheduled.
proof fn due_is_not_too_early(
    v: RemoteView,
    around: Surroundings,
    preferred: Option<ConnId>,
    id: ConnId,
    l: LiveConn,
)
    requires
        v.conns.dom().finite(),
        is_to_be_holepunched(v, around, id, l),
        v.deferred ==> preferred == Some(id),
    ensures
        forall|actions: Seq<RemoteAction>|
            (#[trigger] (RemoteStep { state: v, actions }).trigger(preferred, around)).state == v,
{
    assert forall|actions: Seq<RemoteAction>|
        (#[trigger] (RemoteStep { state: v, actions }).trigger(preferred, around)).state == v by {
        let s = RemoteStep { state: v, actions };
        trigger_initiates(s, preferred, around, id, l);
    }
}

/// How long things take, in nanoseconds: holepunching is repeated after five
/// seconds and retried after a tenth of one, paths are retried after a third of
/// one; a path of ten milliseconds is good enough; connections are checked
/// every minute, and an idle actor stops after one.
pub proof fn times_are_as_they_should_be()
    ensures
        HOLEPUNCH_ATTEMPTS_INTERVAL == 5_000_000_000,
        HOLEPUNCH_RETRY == 100_000_000,
        OPEN_PATH_RETRY == 333_000_000,
        GOOD_ENOUGH_LATENCY == 10_000_000,
        UPGRADE_INTERVAL == 60_000_000_000,
        ACTOR_MAX_IDLE_TIMEOUT == 60_000_000_000,
{
}

} // verus!
