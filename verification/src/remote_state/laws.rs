//! What holds of the management of a remote endpoint as a whole.

use crate::addr::SocketAddr;
use crate::remote_state::actor::{
    candidate_updates, ip_paths_up, spare_path, PathStatus, RemoteAction, RemoteStep, RemoteView,
};
use crate::remote_state::connection::{
    canonical_set, distinct, distinct_addrs_are_the_same, ConnId, ConnView, LiveConn, PathId,
    Surroundings, HOLEPUNCH_ATTEMPTS_INTERVAL,
};
use crate::remote_state::events::{ConnPathEvent, OpenPathError};
use crate::flat::{flat, flat_comes_from, flat_holds, flat_has_no_duplicates};
use crate::remote_state::fx_map::finite_set_is_listed;
use crate::remote_state::holepunch::RoundResult;
use crate::remote_state::lookup::{is_local, BootstrapAuthority, LookupResult};
use crate::remote_state::paths::{is_bounded, pending_paths_are_bounded, Addr, FourTuple};
use crate::time::Instant;
use vstd::prelude::*;

verus! {

/// The connection that an action manages: on which it opens, closes, pings or
/// marks a path, announces or withdraws a candidate, or initiates
/// holepunching.
pub open spec fn manages(action: RemoteAction) -> Option<ConnId> {
    match action {
        RemoteAction::AddCandidate { conn, .. } => Some(conn),
        RemoteAction::RemoveCandidate { conn, .. } => Some(conn),
        RemoteAction::InitiateRound(conn) => Some(conn),
        RemoteAction::OpenPath { conn, .. } => Some(conn),
        RemoteAction::ClosePath { conn, .. } => Some(conn),
        RemoteAction::SetStatus { conn, .. } => Some(conn),
        RemoteAction::Ping { conn, .. } => Some(conn),
        _ => None,
    }
}

/// Whether a connection exists and takes part in NAT traversal.
pub open spec fn takes_part(v: RemoteView, conn: ConnId) -> bool {
    v.conns.contains_key(conn) && v.conns[conn].nat_traversal_authorized
}

/// A connection that the application has not authorized is left alone: neither
/// the selected path nor a retry nor a change of the network nor new local
/// addresses touch its paths or its candidates.
pub proof fn unauthorized_connections_are_left_alone(
    v: RemoteView,
    path: FourTuple,
    around: Surroundings,
    i: int,
)
    requires
        v.conns.dom().finite(),
    ensures
        0 <= i < v.apply(around).len() ==> (manages(v.apply(around)[i]) matches Some(conn)
            ==> takes_part(v, conn)),
        0 <= i < v.open_on_all(path, around).len() ==> (manages(
            v.open_on_all(path, around)[i],
        ) matches Some(conn) ==> takes_part(v, conn)),
        0 <= i < v.ping_all(around).len() ==> (manages(v.ping_all(around)[i]) matches Some(conn)
            ==> takes_part(v, conn)),
        0 <= i < v.announce_on_all(around).len() ==> (manages(
            v.announce_on_all(around)[i],
        ) matches Some(conn) ==> takes_part(v, conn)),
{
    finite_set_is_listed(v.conns.dom());
    if 0 <= i < v.apply(around).len() {
        let selected = v.selected_path->0;
        let f = |id: ConnId| v.apply_on(id, around, selected);
        let k = flat_comes_from(v.ids(), f, i);
        let conn = v.ids()[k];
        assert(v.ids().contains(conn));
        applied_on_manages(v, conn, around, selected, v.apply(around)[i]);
    }
    if 0 <= i < v.open_on_all(path, around).len() {
        let f = |id: ConnId|
            if v.is_managed(id, around) {
                v.open_on(id, around.conn(id)->0, path)
            } else {
                Seq::empty()
            };
        let k = flat_comes_from(v.ids(), f, i);
        assert(v.ids().contains(v.ids()[k]));
    }
    if 0 <= i < v.ping_all(around).len() {
        let f = |id: ConnId| v.ping_on(id, around);
        let k = flat_comes_from(v.ids(), f, i);
        let conn = v.ids()[k];
        assert(v.ids().contains(conn));
        let l = around.conn(conn)->0;
        let g = |id: PathId|
            if l.knows(id) {
                seq![RemoteAction::Ping { conn, id }]
            } else {
                Seq::empty()
            };
        let j = v.ping_on(conn, around).index_of(v.ping_all(around)[i]);
        let m = flat_comes_from(v.conns[conn].path_ids(), g, j);
    }
    if 0 <= i < v.announce_on_all(around).len() {
        let f = |id: ConnId|
            match around.conn(id) {
                Some(l) if v.conns[id].nat_traversal_authorized => candidate_updates(
                    id,
                    l.local_candidates,
                    around.local_addrs@,
                ),
                _ => Seq::empty(),
            };
        let k = flat_comes_from(v.ids(), f, i);
        let conn = v.ids()[k];
        assert(v.ids().contains(conn));
        let l = around.conn(conn)->0;
        let all = candidate_updates(conn, l.local_candidates, around.local_addrs@);
        let j = all.index_of(v.announce_on_all(around)[i]);
        update_concerns(conn, l.local_candidates, around.local_addrs@, j);
    }
}

/// An update of candidates concerns its connection.
pub(crate) proof fn update_concerns(
    conn: ConnId,
    announced: Option<Vec<SocketAddr>>,
    direct: Seq<SocketAddr>,
    j: int,
)
    requires
        0 <= j < candidate_updates(conn, announced, direct).len(),
    ensures
        ({
            let update = candidate_updates(conn, announced, direct)[j];
            manages(update) == Some(conn) && (update is AddCandidate || update is RemoveCandidate)
        }),
{
    let current = announced->0;
    let f = |addr: SocketAddr|
        if current@.contains(addr) {
            Seq::empty()
        } else {
            seq![RemoteAction::AddCandidate { conn, addr }]
        };
    let g = |addr: SocketAddr|
        if direct.contains(addr) {
            Seq::empty()
        } else {
            seq![RemoteAction::RemoveCandidate { conn, addr }]
        };
    let added = flat(distinct(direct), f);
    if j < added.len() {
        let k = flat_comes_from(distinct(direct), f, j);
    } else {
        let k = flat_comes_from(distinct(current@), g, j - added.len());
    }
}

/// What is done to apply a path to a connection concerns that connection. It
/// opens or closes a path only where paths may be managed and this side is
/// the client.
proof fn applied_on_manages(
    v: RemoteView,
    conn: ConnId,
    around: Surroundings,
    selected: FourTuple,
    action: RemoteAction,
)
    requires
        v.apply_on(conn, around, selected).contains(action),
    ensures
        v.conns[conn].nat_traversal_authorized,
        manages(action) matches Some(c) ==> c == conn,
        action is OpenPath || action is ClosePath ==> v.is_managed(conn, around) && around.conn(
            conn,
        )->0.is_client,
        action matches RemoteAction::OpenPath { path, .. } ==> path == selected,
{
    let l = around.conn(conn)->0;
    let ids = v.conns[conn].path_ids();
    let all = v.apply_on(conn, around, selected);
    let j = all.index_of(action);
    if v.is_managed(conn, around) {
        let opened = v.open_on(conn, l, selected);
        let f = |id: PathId| v.settle(conn, l, selected, id);
        let settled = flat(ids, f);
        if j < opened.len() {
        } else if j < opened.len() + settled.len() {
            let k = flat_comes_from(ids, f, j - opened.len());
        } else {
            assert(action == RemoteAction::RecordSelected { conn, path: selected });
        }
    } else {
        let f = |id: PathId| v.set_status(conn, l, id);
        let settled = flat(ids, f);
        if j < settled.len() {
            let k = flat_comes_from(ids, f, j);
        } else {
            assert(action == RemoteAction::RecordSelected { conn, path: selected });
        }
    }
}

/// Where authorization is deferred, no path is opened or closed on a
/// connection before the peer has released its gate, and only the client
/// opens and closes paths.
pub proof fn paths_wait_for_the_peer(
    v: RemoteView,
    path: FourTuple,
    around: Surroundings,
    i: int,
)
    ensures
        0 <= i < v.apply(around).len() ==> may_change_paths(v, v.apply(around)[i], around),
        0 <= i < v.open_on_all(path, around).len() ==> may_change_paths(
            v,
            v.open_on_all(path, around)[i],
            around,
        ),
        0 <= i < v.ping_all(around).len() ==> may_change_paths(v, v.ping_all(around)[i], around),
        0 <= i < v.announce_on_all(around).len() ==> may_change_paths(
            v,
            v.announce_on_all(around)[i],
            around,
        ),
{
    if 0 <= i < v.apply(around).len() {
        let selected = v.selected_path->0;
        let f = |id: ConnId| v.apply_on(id, around, selected);
        let k = flat_comes_from(v.ids(), f, i);
        applied_on_manages(v, v.ids()[k], around, selected, v.apply(around)[i]);
    }
    if 0 <= i < v.open_on_all(path, around).len() {
        let f = |id: ConnId|
            if v.is_managed(id, around) {
                v.open_on(id, around.conn(id)->0, path)
            } else {
                Seq::empty()
            };
        let k = flat_comes_from(v.ids(), f, i);
    }
    if 0 <= i < v.ping_all(around).len() {
        let f = |id: ConnId| v.ping_on(id, around);
        let k = flat_comes_from(v.ids(), f, i);
        let conn = v.ids()[k];
        let l = around.conn(conn)->0;
        let g = |id: PathId|
            if l.knows(id) {
                seq![RemoteAction::Ping { conn, id }]
            } else {
                Seq::empty()
            };
        let j = v.ping_on(conn, around).index_of(v.ping_all(around)[i]);
        let m = flat_comes_from(v.conns[conn].path_ids(), g, j);
    }
    if 0 <= i < v.announce_on_all(around).len() {
        let f = |id: ConnId|
            match around.conn(id) {
                Some(l) if v.conns[id].nat_traversal_authorized => candidate_updates(
                    id,
                    l.local_candidates,
                    around.local_addrs@,
                ),
                _ => Seq::empty(),
            };
        let k = flat_comes_from(v.ids(), f, i);
        let conn = v.ids()[k];
        let l = around.conn(conn)->0;
        let all = candidate_updates(conn, l.local_candidates, around.local_addrs@);
        let j = all.index_of(v.announce_on_all(around)[i]);
        update_concerns(conn, l.local_candidates, around.local_addrs@, j);
    }
}

/// Whether an action, if it opens or closes a path, may do so: this side is
/// the client, and the peer has released its gate where there is one.
pub open spec fn may_change_paths(
    v: RemoteView,
    action: RemoteAction,
    around: Surroundings,
) -> bool {
    action is OpenPath || action is ClosePath ==> {
        &&& manages(action) matches Some(conn)
        &&& around.conn(conn) matches Some(l)
        &&& l.is_client
        &&& v.deferred ==> v.conns[conn].peer_candidates_observed
    }
}

/// Holepunching is initiated only on a connection that takes part in NAT
/// traversal and on which this side is the client.
pub proof fn only_ready_clients_holepunch(
    v: RemoteView,
    preferred: Option<ConnId>,
    around: Surroundings,
)
    ensures
        v.holepunch_conn(preferred, around) matches Some(id) ==> v.is_ready_client(id, around),
        v.deferred && preferred is Some ==> (v.holepunch_conn(preferred, around) matches Some(id)
            ==> Some(id) == preferred),
{
    let f = |id: ConnId|
        if v.is_ready_client(id, around) {
            seq![id]
        } else {
            Seq::empty()
        };
    if v.ready_clients(around).len() > 0 {
        let i = flat_comes_from(v.ids(), f, 0);
    }
}

/// Of numbers in ascending order that are picked, the first is the least.
proof fn first_pick_is_least(
    ids: Seq<ConnId>,
    v: RemoteView,
    around: Surroundings,
    id: ConnId,
)
    requires
        forall|i: int, j: int| 0 <= i < j < ids.len() ==> ids[i] < ids[j],
        ids.contains(id),
        v.is_ready_client(id, around),
    ensures
        ({
            let picked = flat(
                ids,
                |id: ConnId|
                    if v.is_ready_client(id, around) {
                        seq![id]
                    } else {
                        Seq::empty()
                    },
            );
            picked.len() > 0 && picked[0] <= id
        }),
    decreases ids.len(),
{
    let f = |id: ConnId|
        if v.is_ready_client(id, around) {
            seq![id]
        } else {
            Seq::empty()
        };
    let rest = ids.drop_last();
    let k = ids.index_of(id);
    assert(f(ids[k]) == seq![id]);
    assert(f(ids[k])[0] == id);
    if k < rest.len() {
        assert(rest[k] == id);
        first_pick_is_least(rest, v, around, id);
    } else if flat(rest, f).len() > 0 {
        let j = flat_comes_from(rest, f, 0);
        assert(f(rest[j]).contains(flat(rest, f)[0]));
        assert(rest[j] == ids[j]);
    }
}

/// Where authorization is not deferred, or no connection is asked for,
/// holepunching goes over the lowest connection that can, if there is one.
pub proof fn lowest_client_holepunches(
    v: RemoteView,
    preferred: Option<ConnId>,
    around: Surroundings,
    id: ConnId,
)
    requires
        v.conns.dom().finite(),
        !v.deferred || preferred is None,
        v.is_ready_client(id, around),
    ensures
        v.holepunch_conn(preferred, around) matches Some(lowest) && lowest <= id,
{
    finite_set_is_listed(v.conns.dom());
    assert(v.ids().contains(id));
    first_pick_is_least(v.ids(), v, around, id);
}

/// If there have been no changes to the candidates, holepunching is not
/// attempted more frequently than at its interval: after a round that started
/// at `t`, no other one is initiated on the same candidates, or on fewer,
/// before the interval has passed. It is scheduled for then.
pub proof fn holepunching_waits_for_the_interval(
    v: RemoteView,
    id: ConnId,
    t: Instant,
    local: Seq<SocketAddr>,
    remote: Vec<SocketAddr>,
    around: Surroundings,
    actions: Seq<RemoteAction>,
)
    requires
        v.conns.contains_key(id),
        t + HOLEPUNCH_ATTEMPTS_INTERVAL <= Instant::MAX,
        around.now < t + HOLEPUNCH_ATTEMPTS_INTERVAL,
        around.conn(id) is Some,
        around.conn(id)->0.remote_candidates is Some,
        canonical_set(around.conn(id)->0.remote_candidates->0@).subset_of(canonical_set(remote@)),
        canonical_set(around.local_addrs@).subset_of(canonical_set(local)),
    ensures
        ({
            let after = v.after_round(id, RoundResult::Started(remote), t, local);
            let next = RemoteStep { state: after, actions }.holepunch_on(id, around);
            let time = (t + HOLEPUNCH_ATTEMPTS_INTERVAL) as Instant;
            &&& next.actions == actions
            &&& if v.deferred {
                next.state.conns[id].scheduled_holepunch == Some(time)
            } else {
                next.state.scheduled_holepunch == Some(time)
            }
        }),
{
}

/// A new candidate calls for another round at once.
pub proof fn new_candidate_calls_for_holepunching(
    s: RemoteStep,
    id: ConnId,
    around: Surroundings,
    addr: SocketAddr,
)
    requires
        around.conn(id) is Some,
        around.conn(id)->0.remote_candidates is Some,
        s.state.last_attempt(id) matches Some(last) ==> {
            ||| around.local_addrs@.contains(addr) && !last.local_candidates.contains(
                addr.canonical(),
            )
            ||| around.conn(id)->0.remote_candidates->0@.contains(addr)
                && !last.remote_candidates.contains(addr.canonical())
        },
    ensures
        s.holepunch_on(id, around).actions.last() == RemoteAction::InitiateRound(id),
{
    if s.state.last_attempt(id) is Some {
        let remote = around.conn(id)->0.remote_candidates->0@;
        let local = around.local_addrs@;
        if remote.contains(addr) {
            in_canonical_set(remote, addr);
        }
        if local.contains(addr) {
            in_canonical_set(local, addr);
        }
    }
}

/// The canonical form of an address is among the canonical forms.
proof fn in_canonical_set(addrs: Seq<SocketAddr>, addr: SocketAddr)
    requires
        addrs.contains(addr),
    ensures
        canonical_set(addrs).contains(addr.canonical()),
{
    let all = addrs.map_values(|a: SocketAddr| a.canonical());
    let i = addrs.index_of(addr);
    assert(all[i] == addr.canonical());
}

/// The next scheduled attempt on a connection is the earliest one, and there
/// is none only if none is scheduled.
pub proof fn next_scheduled_is_earliest(v: RemoteView, id: ConnId)
    requires
        v.conns.dom().finite(),
        v.deferred,
        v.conns.contains_key(id),
        v.conns[id].scheduled_holepunch is Some,
    ensures
        v.next_scheduled() matches Some((Some(conn), time)) && time
            <= v.conns[id].scheduled_holepunch->0 && v.conns[conn].scheduled_holepunch == Some(time),
{
    finite_set_is_listed(v.conns.dom());
    assert(v.ids().contains(id));
    earliest_of_listed(v, v.ids(), id);
}

/// The earliest of the attempts on some connections.
proof fn earliest_of_listed(v: RemoteView, ids: Seq<ConnId>, id: ConnId)
    requires
        ids.contains(id),
        v.conns[id].scheduled_holepunch is Some,
    ensures
        v.earliest(ids) matches Some((conn, time)) && time <= v.conns[id].scheduled_holepunch->0
            && v.conns[conn].scheduled_holepunch == Some(time),
    decreases ids.len(),
{
    let rest = ids.drop_last();
    let k = ids.index_of(id);
    if k < rest.len() {
        assert(rest[k] == id);
        earliest_of_listed(v, rest, id);
    } else {
        earliest_is_scheduled(v, rest);
    }
}

/// The earliest attempt is scheduled.
proof fn earliest_is_scheduled(v: RemoteView, ids: Seq<ConnId>)
    ensures
        v.earliest(ids) matches Some((conn, time)) ==> v.conns[conn].scheduled_holepunch == Some(
            time,
        ),
    decreases ids.len(),
{
    if ids.len() > 0 {
        earliest_is_scheduled(v, ids.drop_last());
    }
}

/// The selected path goes with the last connection that takes part in NAT
/// traversal, and only then.
pub proof fn selected_path_goes_with_the_last_connection(s: RemoteStep, conn: ConnId)
    ensures
        ({
            let next = s.connection_closed(conn).state;
            &&& next.any_authorized() ==> next.selected_path == s.state.selected_path
            &&& !next.any_authorized() ==> next.selected_path is None
            &&& !next.conns.contains_key(conn)
        }),
{
    let next = s.connection_closed(conn).state;
    let gone = RemoteView { conns: s.state.conns.remove(conn), ..s.state };
    if next.any_authorized() {
        let id = choose|id: ConnId| #[trigger]
            next.conns.contains_key(id) && next.conns[id].nat_traversal_authorized;
        assert(gone.conns.contains_key(id));
    }
    if gone.any_authorized() {
        let id = choose|id: ConnId| #[trigger]
            gone.conns.contains_key(id) && gone.conns[id].nat_traversal_authorized;
        assert(next.conns.contains_key(id));
    }
}

/// An empty selection keeps the current path; any other replaces it.
pub proof fn empty_selection_keeps_the_path(
    s: RemoteStep,
    chosen: Option<FourTuple>,
    around: Surroundings,
)
    ensures
        chosen is None ==> s.select(chosen, around).state == s.state,
        chosen is Some ==> s.select(chosen, around).state.selected_path == chosen,
        s.select(chosen, around).state.conns == s.state.conns,
{
}

/// Whether applying the selection to a managed connection closes a path.
pub open spec fn closes(
    v: RemoteView,
    conn: ConnId,
    l: LiveConn,
    selected: FourTuple,
    id: PathId,
) -> bool {
    v.apply_managed(conn, l, selected).contains(RemoteAction::ClosePath { conn, id })
}

/// Whether an IP path of a connection is up.
pub open spec fn is_ip_up(c: ConnView, l: LiveConn, id: PathId) -> bool {
    c.paths.contains_key(id) && c.paths[id] is Ip && l.knows(id)
}

/// A path of a managed connection is closed exactly if it is up and redundant.
proof fn closed_if_redundant(
    v: RemoteView,
    conn: ConnId,
    l: LiveConn,
    selected: FourTuple,
    id: PathId,
)
    requires
        v.conns[conn].paths.dom().finite(),
    ensures
        closes(v, conn, l, selected, id) <==> v.conns[conn].paths.contains_key(id) && l.knows(id)
            && v.is_redundant(conn, l, selected, id),
{
    finite_set_is_listed(v.conns[conn].paths.dom());
    let c = v.conns[conn];
    let ids = c.path_ids();
    let all = v.apply_managed(conn, l, selected);
    let opened = v.open_on(conn, l, selected);
    let f = |id: PathId| v.settle(conn, l, selected, id);
    let settled = flat(ids, f);
    let close = RemoteAction::ClosePath { conn, id };
    if closes(v, conn, l, selected, id) {
        let j = all.index_of(close);
        assert(opened.len() <= j < opened.len() + settled.len());
        let k = flat_comes_from(ids, f, j - opened.len());
        assert(f(ids[k]).contains(close));
        let m = f(ids[k]).index_of(close);
        assert(ids[k] == id);
        assert(ids.contains(id));
    }
    if c.paths.contains_key(id) && l.knows(id) && v.is_redundant(conn, l, selected, id) {
        assert(ids.contains(id));
        let k = ids.index_of(id);
        assert(f(ids[k]) == seq![close]);
        assert(f(ids[k])[0] == close);
        flat_holds(ids, f, k, close);
        let m = settled.index_of(close);
        assert(all[opened.len() + m] == close);
    }
}

/// The first IP path that is up is one.
proof fn first_ip_path_is_up(c: ConnView, l: LiveConn, i: int)
    requires
        c.paths.dom().finite(),
        0 <= i < ip_paths_up(c, l).len(),
    ensures
        is_ip_up(c, l, ip_paths_up(c, l)[i]),
{
    finite_set_is_listed(c.paths.dom());
    let f = |id: PathId|
        if l.knows(id) && c.paths[id] is Ip {
            seq![id]
        } else {
            Seq::empty()
        };
    let k = flat_comes_from(c.path_ids(), f, i);
    assert(c.path_ids().contains(c.path_ids()[k]));
}

/// An IP path that is up is among those that are.
proof fn ip_path_is_listed(c: ConnView, l: LiveConn, id: PathId)
    requires
        c.paths.dom().finite(),
        is_ip_up(c, l, id),
    ensures
        ip_paths_up(c, l).contains(id),
{
    finite_set_is_listed(c.paths.dom());
    let f = |id: PathId|
        if l.knows(id) && c.paths[id] is Ip {
            seq![id]
        } else {
            Seq::empty()
        };
    assert(c.path_ids().contains(id));
    let k = c.path_ids().index_of(id);
    assert(f(c.path_ids()[k])[0] == id);
    flat_holds(c.path_ids(), f, k, id);
}

/// Applying the selected path closes only IP paths other than the selected
/// one, only on the client, and never the last IP path that is up. Relay and
/// custom paths stay open.
pub proof fn one_ip_path_stays_open(
    v: RemoteView,
    conn: ConnId,
    l: LiveConn,
    selected: FourTuple,
    id: PathId,
)
    requires
        v.conns[conn].paths.dom().finite(),
        closes(v, conn, l, selected, id),
    ensures
        l.is_client,
        is_ip_up(v.conns[conn], l, id),
        v.conns[conn].paths[id] != selected,
        exists|kept: PathId| #[trigger]
            is_ip_up(v.conns[conn], l, kept) && !closes(v, conn, l, selected, kept),
{
    let c = v.conns[conn];
    closed_if_redundant(v, conn, l, selected, id);
    ip_path_is_listed(c, l, id);
    let up = ip_paths_up(c, l);
    let kept = if spare_path(c, l, selected) is Some {
        first_ip_path_is_up(c, l, 0);
        up[0]
    } else {
        let i = choose|i: int| 0 <= i < up.len() && c.paths[#[trigger] up[i]] == selected;
        first_ip_path_is_up(c, l, i);
        up[i]
    };
    closed_if_redundant(v, conn, l, selected, kept);
    assert(is_ip_up(c, l, kept) && !closes(v, conn, l, selected, kept));
}

/// On the client, all but one of the IP paths that are up are closed: two
/// that stay are both the selected path.
pub proof fn redundant_ip_paths_are_closed(
    v: RemoteView,
    conn: ConnId,
    l: LiveConn,
    selected: FourTuple,
    a: PathId,
    b: PathId,
)
    requires
        v.conns[conn].paths.dom().finite(),
        l.is_client,
        a != b,
        is_ip_up(v.conns[conn], l, a),
        is_ip_up(v.conns[conn], l, b),
        !closes(v, conn, l, selected, a),
        !closes(v, conn, l, selected, b),
    ensures
        v.conns[conn].paths[a] == selected,
        v.conns[conn].paths[b] == selected,
{
    let c = v.conns[conn];
    closed_if_redundant(v, conn, l, selected, a);
    closed_if_redundant(v, conn, l, selected, b);
    ip_path_is_listed(c, l, a);
    ip_path_is_listed(c, l, b);
    let up = ip_paths_up(c, l);
    if c.paths[a] == selected {
        let i = up.index_of(a);
        assert(c.paths[up[i]] == selected);
    }
    if c.paths[b] == selected {
        let i = up.index_of(b);
        assert(c.paths[up[i]] == selected);
    }
}

/// The selected path is opened on every managed client connection that does
/// not have it, as available; every other status is that of a backup.
pub proof fn selected_path_is_available(v: RemoteView, conn: ConnId, l: LiveConn, id: PathId)
    requires
        v.selected_path is Some,
    ensures
        l.is_client && !v.conns[conn].has_path(v.selected_path->0) ==> v.apply_managed(
            conn,
            l,
            v.selected_path->0,
        )[0] == (RemoteAction::OpenPath {
            conn,
            path: v.selected_path->0,
            status: PathStatus::Available,
        }),
        l.knows(id) ==> v.set_status(conn, l, id)[0] == (RemoteAction::SetStatus {
            conn,
            id,
            status: if v.conns[conn].paths[id] == v.selected_path->0 {
                PathStatus::Available
            } else {
                PathStatus::Backup
            },
        }),
{
}

/// An address is abandoned only once no connection has any path to it.
pub proof fn reachable_address_is_not_abandoned(s: RemoteStep, conn: ConnId, id: PathId)
    requires
        s.state.conns.contains_key(conn),
        s.state.conns[conn].paths.contains_key(id),
    ensures
        ({
            let next = s.path_abandoned(conn, id);
            let addr = s.state.conns[conn].paths[id].remote_addr();
            &&& !next.state.conns[conn].paths.contains_key(id)
            &&& next.actions.last() == RemoteAction::AbandonAddr(addr) <==> !next.state.reaches(
                addr,
            )
        }),
{
}

/// Before authorization a connection has only the path over which it was
/// established: events of other paths are ignored.
pub proof fn premature_path_event_is_ignored(
    s: RemoteStep,
    conn: ConnId,
    event: ConnPathEvent,
    around: Surroundings,
)
    requires
        !s.state.conns[conn].nat_traversal_authorized,
        event.path() matches Some(id) && id != 0,
    ensures
        s.path_event(conn, event, around) is None,
        s.candidates_announced(conn, around) is None,
{
}

/// However many paths fail to open, those that wait stay bounded.
pub proof fn waiting_paths_stay_bounded(
    v: RemoteView,
    path: FourTuple,
    error: OpenPathError,
    now: Instant,
    around: Surroundings,
)
    requires
        is_bounded(v.pending_open_paths),
    ensures
        is_bounded(v.open_failed(path, error, now).pending_open_paths),
        is_bounded(
            (RemoteStep { state: v, actions: Seq::empty() }).open_pending(
                around,
            ).state.pending_open_paths,
        ),
{
    pending_paths_are_bounded(v.pending_open_paths, path);
}

/// No lookup starts while a path is selected or while one runs, and a lookup
/// that came to its end or failed does not run on.
pub proof fn lookups_do_not_overlap(s: RemoteStep, item: LookupResult)
    ensures
        s.state.selected_path is Some || s.state.lookup_running ==> s.trigger_address_lookup() == s,
        s.state.selected_path is None ==> s.trigger_address_lookup().state.lookup_running,
        !(item is Found) ==> !s.lookup_item(item).state.lookup_running,
        item is Found ==> s.lookup_item(item).state == s.state,
{
}

/// What a lookup finds about another endpoint is ignored.
pub proof fn foreign_lookup_item_is_ignored(s: RemoteStep, item: LookupResult)
    requires
        item matches LookupResult::Found(found) && found.endpoint_id != s.state.endpoint_id,
    ensures
        s.lookup_item(item) == s,
{
}

/// Datagrams go only to addresses to which the dial permits them to go, and,
/// unless a path is selected, never to a local address. Nothing goes anywhere
/// for a dial to another endpoint.
pub proof fn datagrams_go_where_permitted(
    v: RemoteView,
    authority: BootstrapAuthority,
    known: Seq<Addr>,
    local: Seq<SocketAddr>,
    i: int,
)
    requires
        0 <= i < v.datagram_targets(authority, known, local).len(),
    ensures
        authority.endpoint_id == v.endpoint_id,
        ({
            let sent = v.datagram_targets(authority, known, local)[i];
            exists|addr: Addr|
                {
                    &&& #[trigger] FourTuple::to(addr) == sent->SendDatagram_0
                    &&& sent is SendDatagram
                    &&& v.deferred ==> authority.allows(v.endpoint_id, addr)
                    &&& v.selected_path is None ==> known.contains(addr) && !is_local(addr, local)
                }
        }),
{
    let all = v.datagram_targets(authority, known, local);
    if v.selected_path is Some && v.may_bootstrap(authority, v.selected_path->0.remote_addr()) {
        let addr = v.selected_path->0.remote_addr();
        assert(all[i] == RemoteAction::SendDatagram(FourTuple::to(addr)));
    } else {
        let f = |addr: Addr|
            if v.may_bootstrap(authority, addr) && !is_local(addr, local) {
                seq![RemoteAction::SendDatagram(FourTuple::to(addr))]
            } else {
                Seq::empty()
            };
        let k = flat_comes_from(known, f, i);
        let addr = known[k];
        assert(known.contains(addr));
        let m = f(addr).index_of(all[i]);
        assert(all[i] == RemoteAction::SendDatagram(FourTuple::to(addr)));
    }
}

/// The candidates announced on a connection after some actions.
pub open spec fn announced_after(
    announced: Set<SocketAddr>,
    conn: ConnId,
    actions: Seq<RemoteAction>,
) -> Set<SocketAddr>
    decreases actions.len(),
{
    if actions.len() == 0 {
        announced
    } else {
        let before = announced_after(announced, conn, actions.drop_last());
        match actions.last() {
            RemoteAction::AddCandidate { conn: c, addr } if c == conn => before.insert(addr),
            RemoteAction::RemoveCandidate { conn: c, addr } if c == conn => before.remove(addr),
            _ => before,
        }
    }
}

/// Actions one after the other.
proof fn announced_after_both(
    announced: Set<SocketAddr>,
    conn: ConnId,
    a: Seq<RemoteAction>,
    b: Seq<RemoteAction>,
)
    ensures
        announced_after(announced, conn, a + b) == announced_after(
            announced_after(announced, conn, a),
            conn,
            b,
        ),
    decreases b.len(),
{
    if b.len() == 0 {
        assert(a + b =~= a);
    } else {
        announced_after_both(announced, conn, a, b.drop_last());
        assert((a + b).drop_last() =~= a + b.drop_last());
    }
}

/// To announce what is missing adds it.
proof fn announcing_adds(
    announced: Set<SocketAddr>,
    conn: ConnId,
    current: Seq<SocketAddr>,
    direct: Seq<SocketAddr>,
)
    ensures
        ({
            let f = |addr: SocketAddr|
                if current.contains(addr) {
                    Seq::empty()
                } else {
                    seq![RemoteAction::AddCandidate { conn, addr }]
                };
            let after = announced_after(announced, conn, flat(direct, f));
            forall|a: SocketAddr| #[trigger]
                after.contains(a) <==> announced.contains(a) || (direct.contains(a)
                    && !current.contains(a))
        }),
    decreases direct.len(),
{
    let f = |addr: SocketAddr|
        if current.contains(addr) {
            Seq::empty()
        } else {
            seq![RemoteAction::AddCandidate { conn, addr }]
        };
    let after = announced_after(announced, conn, flat(direct, f));
    if direct.len() > 0 {
        let rest = direct.drop_last();
        let last = direct.last();
        announcing_adds(announced, conn, current, rest);
        announced_after_both(announced, conn, flat(rest, f), f(last));
        let mid = announced_after(announced, conn, flat(rest, f));
        assert(f(last).len() > 0 ==> f(last).drop_last() =~= Seq::empty());
        assert(after == if current.contains(last) {
            mid
        } else {
            mid.insert(last)
        }) by {
            reveal_with_fuel(announced_after, 2);
        }
        assert forall|a: SocketAddr| #[trigger]
            after.contains(a) <==> announced.contains(a) || (direct.contains(a)
                && !current.contains(a)) by {
            assert(mid.contains(a) <==> announced.contains(a) || (rest.contains(a)
                && !current.contains(a)));
            contains_of_last(direct, a);
        }
    }
}

/// To withdraw what is too many removes it.
proof fn withdrawing_removes(
    announced: Set<SocketAddr>,
    conn: ConnId,
    current: Seq<SocketAddr>,
    direct: Seq<SocketAddr>,
)
    ensures
        ({
            let g = |addr: SocketAddr|
                if direct.contains(addr) {
                    Seq::empty()
                } else {
                    seq![RemoteAction::RemoveCandidate { conn, addr }]
                };
            let after = announced_after(announced, conn, flat(current, g));
            forall|a: SocketAddr| #[trigger]
                after.contains(a) <==> announced.contains(a) && (direct.contains(a)
                    || !current.contains(a))
        }),
    decreases current.len(),
{
    let g = |addr: SocketAddr|
        if direct.contains(addr) {
            Seq::empty()
        } else {
            seq![RemoteAction::RemoveCandidate { conn, addr }]
        };
    let after = announced_after(announced, conn, flat(current, g));
    if current.len() > 0 {
        let rest = current.drop_last();
        let last = current.last();
        withdrawing_removes(announced, conn, rest, direct);
        announced_after_both(announced, conn, flat(rest, g), g(last));
        let mid = announced_after(announced, conn, flat(rest, g));
        assert(g(last).len() > 0 ==> g(last).drop_last() =~= Seq::empty());
        assert(after == if direct.contains(last) {
            mid
        } else {
            mid.remove(last)
        }) by {
            reveal_with_fuel(announced_after, 2);
        }
        assert forall|a: SocketAddr| #[trigger]
            after.contains(a) <==> announced.contains(a) && (direct.contains(a)
                || !current.contains(a)) by {
            assert(mid.contains(a) <==> announced.contains(a) && (direct.contains(a)
                || !rest.contains(a)));
            contains_of_last(current, a);
        }
    }
}

/// A sequence contains its last element and what precedes it.
proof fn contains_of_last(s: Seq<SocketAddr>, a: SocketAddr)
    requires
        s.len() > 0,
    ensures
        s.contains(a) <==> s.drop_last().contains(a) || s.last() == a,
{
    let rest = s.drop_last();
    if s.contains(a) && s.last() != a {
        let i = s.index_of(a);
        assert(rest[i] == a);
    }
    if rest.contains(a) {
        let i = rest.index_of(a);
        assert(s[i] == a);
    }
    assert(s[s.len() - 1] == s.last());
}

/// After an update the announced candidates are exactly the direct addresses.
pub proof fn candidates_become_the_direct_addresses(
    conn: ConnId,
    current: Vec<SocketAddr>,
    direct: Seq<SocketAddr>,
)
    ensures
        announced_after(current@.to_set(), conn, candidate_updates(conn, Some(current), direct))
            == direct.to_set(),
{
    let f = |addr: SocketAddr|
        if current@.contains(addr) {
            Seq::empty()
        } else {
            seq![RemoteAction::AddCandidate { conn, addr }]
        };
    let g = |addr: SocketAddr|
        if direct.contains(addr) {
            Seq::empty()
        } else {
            seq![RemoteAction::RemoveCandidate { conn, addr }]
        };
    let start = current@.to_set();
    let wanted = distinct(direct);
    let listed = distinct(current@);
    distinct_addrs_are_the_same(direct);
    distinct_addrs_are_the_same(current@);
    announcing_adds(start, conn, current@, wanted);
    let mid = announced_after(start, conn, flat(wanted, f));
    withdrawing_removes(mid, conn, listed, direct);
    announced_after_both(start, conn, flat(wanted, f), flat(listed, g));
    let end = announced_after(
        start,
        conn,
        candidate_updates(conn, Some(current), direct),
    );
    assert forall|a: SocketAddr| end.contains(a) <==> direct.to_set().contains(a) by {
        assert(mid.contains(a) <==> start.contains(a) || (wanted.contains(a) && !current@.contains(
            a,
        )));
        assert(wanted.contains(a) <==> direct.contains(a));
        assert(listed.contains(a) <==> current@.contains(a));
    }
    assert(end =~= direct.to_set());
}

/// No candidate is announced or withdrawn twice in one update, however often
/// an address is listed.
pub proof fn candidates_are_updated_once(
    conn: ConnId,
    current: Vec<SocketAddr>,
    direct: Seq<SocketAddr>,
)
    ensures
        candidate_updates(conn, Some(current), direct).no_duplicates(),
{
    let f = |addr: SocketAddr|
        if current@.contains(addr) {
            Seq::empty()
        } else {
            seq![RemoteAction::AddCandidate { conn, addr }]
        };
    let g = |addr: SocketAddr|
        if direct.contains(addr) {
            Seq::empty()
        } else {
            seq![RemoteAction::RemoveCandidate { conn, addr }]
        };
    let wanted = distinct(direct);
    let listed = distinct(current@);
    distinct_addrs_are_the_same(direct);
    distinct_addrs_are_the_same(current@);
    let added = flat(wanted, f);
    let removed = flat(listed, g);
    flat_has_no_duplicates(wanted, f);
    flat_has_no_duplicates(listed, g);
    assert forall|i: int| 0 <= i < added.len() implies #[trigger] added[i] is AddCandidate by {
        let k = flat_comes_from(wanted, f, i);
    }
    assert forall|i: int| 0 <= i < removed.len() implies #[trigger] removed[i] is RemoveCandidate by {
        let k = flat_comes_from(listed, g, i);
    }
}

} // verus!
