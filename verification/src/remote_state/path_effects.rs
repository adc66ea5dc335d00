//! What becomes of the paths of connections: which of them the selector sees,
//! how its choice is applied, and what follows when paths and connections come
//! and go.

use crate::addr::SocketAddr;
use crate::flat::{flat, flat_comes_from, flat_holds};
use crate::remote_state::actor::{
    candidate_updates, Metric, PathStatus, RemoteAction, RemoteStep, RemoteView,
    HOLEPUNCH_RETRY, OPEN_PATH_RETRY,
};
use crate::remote_state::connection::{
    canonical_set, sample_of, ConnId, ConnView, LiveConn, PathId, Surroundings, BOOTSTRAP_PATH,
};
use crate::remote_state::effects::{
    announces, did_all_does, does, is_client_conn, is_to_be_holepunched, still_does,
    trigger_initiates, triggers_keep_the_rest, updating_announces,
};
use crate::remote_state::events::{ConnPathEvent, InboxState, OpenPathError};
use crate::remote_state::fx_map::{ascending, finite_set_is_listed};
use crate::remote_state::holepunch::RoundResult;
use crate::remote_state::paths::{Addr, FourTuple, MAX_PENDING_OPEN_PATHS};
use crate::remote_state::run::{RemoteEvent, RemoteStateMessage};
use crate::remote_state::selection::{
    candidate_is_described, candidates, conn_candidates, PathSelection, PathSelectionContext,
    PathSelectionData, PathSelector,
};
use crate::time::Instant;
use vstd::prelude::*;

verus! {

/// The path to an address leads there, whatever kind of address it is, and
/// says nothing about where it starts.
pub proof fn path_leads_to_its_address(addr: Addr)
    ensures
        FourTuple::to(addr).remote_addr() == addr,
        addr is Ip <==> FourTuple::to(addr) is Ip,
        addr is Relay <==> FourTuple::to(addr) is Relay,
        addr is Custom <==> FourTuple::to(addr) is Custom,
        FourTuple::to(addr) matches FourTuple::Ip { local, .. } ==> local is None,
        FourTuple::to(addr) matches FourTuple::Custom { local, .. } ==> local is None,
{
}

/// Whether a live connection that takes part in NAT traversal has a path.
pub open spec fn has_open_path(
    conns: Map<ConnId, ConnView>,
    around: Surroundings,
    id: ConnId,
    p: PathId,
    path: FourTuple,
) -> bool {
    &&& conns.contains_key(id)
    &&& conns[id].nat_traversal_authorized
    &&& around.conn(id) is Some
    &&& conns[id].paths.contains_key(p)
    &&& conns[id].paths[p] == path
}

/// The selector sees every path of every live connection that takes part in
/// NAT traversal, with its statistics where there are any, and no other.
pub proof fn selector_sees_every_open_path(
    conns: Map<ConnId, ConnView>,
    around: Surroundings,
    id: ConnId,
    l: LiveConn,
    p: PathId,
)
    requires
        conns.dom().finite(),
        forall|c: ConnId| #[trigger] conns.contains_key(c) ==> conns[c].paths.dom().finite(),
    ensures
        conns.contains_key(id) && conns[id].nat_traversal_authorized && around.conn(id) == Some(l)
            && conns[id].paths.contains_key(p) ==> exists|i: int|
            {
                &&& 0 <= i < candidates(conns, around).len()
                &&& (#[trigger] candidates(conns, around)[i]).path() == conns[id].paths[p]
                &&& candidates(conns, around)[i].known_stats() == match sample_of(l.samples@, p) {
                    Some(sample) => Some(sample.stats),
                    None => None,
                }
            },
        forall|i: int|
            #![trigger candidates(conns, around)[i]]
            0 <= i < candidates(conns, around).len() ==> exists|c: ConnId, q: PathId| #[trigger]
                has_open_path(conns, around, c, q, candidates(conns, around)[i].path()),
{
    finite_set_is_listed(conns.dom());
    let ids = ascending(conns.dom());
    let f = |id: u64| conn_candidates(conns[id], around.conn(id));
    let all = candidates(conns, around);
    if conns.contains_key(id) && conns[id].nat_traversal_authorized && around.conn(id) == Some(l)
        && conns[id].paths.contains_key(p) {
        finite_set_is_listed(conns[id].paths.dom());
        let paths = conns[id].path_ids();
        assert(paths.contains(p));
        let m = paths.index_of(p);
        let data = f(id)[m];
        let stats = match sample_of(l.samples@, p) {
            Some(sample) => Some(sample.stats),
            None => None,
        };
        assert(data == PathSelectionData::of(conns[id].paths[p], stats));
        candidate_is_described(conns[id].paths[p], stats);
        assert(f(id).contains(data));
        assert(ids.contains(id));
        let k = ids.index_of(id);
        flat_holds(ids, f, k, data);
        assert(all[all.index_of(data)] == data);
    }
    assert forall|i: int|
        #![trigger candidates(conns, around)[i]]
        0 <= i < candidates(conns, around).len() implies exists|c: ConnId, q: PathId| #[trigger]
        has_open_path(conns, around, c, q, candidates(conns, around)[i].path()) by {
        let k = flat_comes_from(ids, f, i);
        let c = ids[k];
        assert(ids.contains(c));
        finite_set_is_listed(conns[c].paths.dom());
        let m = f(c).index_of(all[i]);
        let q = conns[c].path_ids()[m];
        assert(conns[c].path_ids().contains(q));
        let stats = match sample_of(around.conn(c)->0.samples@, q) {
            Some(sample) => Some(sample.stats),
            None => None,
        };
        candidate_is_described(conns[c].paths[q], stats);
        assert(has_open_path(conns, around, c, q, all[i].path()));
    }
}

/// Whether the selector, asked about the paths of `conns` while `current` was
/// selected, may have led to `selected`: what it chose, or `current` still
/// where it chose nothing.
pub open spec fn selector_chose<S: PathSelector>(
    selector: &S,
    current: Option<FourTuple>,
    conns: Map<ConnId, ConnView>,
    around: Surroundings,
    selected: Option<FourTuple>,
) -> bool {
    exists|ctx: PathSelectionContext, selection: PathSelection|
        {
            &&& ctx.current_path() == current
            &&& ctx.candidate_paths() == candidates(conns, around)
            &&& #[trigger] call_ensures(S::select, (selector, &ctx), selection)
            &&& selected == if selection.chosen() is Some {
                selection.chosen()
            } else {
                current
            }
        }
}

/// Whether the selector was asked about the paths of `conns`, and these are
/// the connections.
pub open spec fn selector_was_asked<S: PathSelector>(
    selector: &S,
    current: Option<FourTuple>,
    conns: Map<ConnId, ConnView>,
    around: Surroundings,
    next: RemoteView,
) -> bool {
    next.conns == conns && selector_chose(selector, current, conns, around, next.selected_path)
}

/// A choice of the selector changes nothing but the selected path.
proof fn choice_changes_the_selection<S: PathSelector>(
    s: RemoteStep,
    selector: &S,
    around: Surroundings,
    next: RemoteStep,
)
    requires
        s.may_become(selector, around, next),
    ensures
        selector_was_asked(selector, s.state.selected_path, s.state.conns, around, next.state),
        next.state == (RemoteView { selected_path: next.state.selected_path, ..s.state }),
        s.actions.is_prefix_of(next.actions),
{
    let chosen = choose|chosen: Option<FourTuple>|
        #[trigger] s.selects(selector, around, chosen) && next == s.select(chosen, around);
    let (ctx, selection) = choose|ctx: PathSelectionContext, selection: PathSelection|
        {
            &&& ctx.current_path() == s.state.selected_path
            &&& ctx.candidate_paths() == candidates(s.state.conns, around)
            &&& #[trigger] call_ensures(S::select, (selector, &ctx), selection)
            &&& selection.chosen() == chosen
        };
    assert(call_ensures(S::select, (selector, &ctx), selection));
}

/// Whether paths of a connection may be opened and closed: it takes part in
/// NAT traversal, and where authorization is deferred the peer has announced
/// candidates.
pub open spec fn paths_may_change(v: RemoteView, id: ConnId) -> bool {
    &&& v.conns.contains_key(id)
    &&& v.conns[id].nat_traversal_authorized
    &&& !v.deferred || v.conns[id].peer_candidates_observed
}

/// Whether no path of a connection is a given network path.
pub open spec fn lacks(c: ConnView, path: FourTuple) -> bool {
    forall|p: PathId| #[trigger] c.paths.contains_key(p) ==> c.paths[p] != path
}

/// The selected path is applied to every live connection that takes part in
/// NAT traversal. It is opened where this side is the client, the paths may
/// change and it is missing. On every connection that has it or whose paths
/// may change, those who watch are told; every path that is up is made
/// available if it is the selected one, and otherwise a backup or closed.
pub proof fn selection_is_applied_everywhere(
    s: RemoteStep,
    chosen: Option<FourTuple>,
    around: Surroundings,
    id: ConnId,
    l: LiveConn,
    p: PathId,
    selected: FourTuple,
)
    requires
        s.state.conns.dom().finite(),
        s.state.conns.contains_key(id),
        s.state.conns[id].paths.dom().finite(),
        s.state.conns[id].nat_traversal_authorized,
        around.conn(id) == Some(l),
        chosen == Some(selected) || chosen is None && s.state.selected_path == Some(selected),
    ensures
        ({
            let next = s.select(chosen, around);
            let c = s.state.conns[id];
            let up = c.paths.contains_key(p) && l.open_paths@.contains(p);
            &&& next.state == (RemoteView { selected_path: Some(selected), ..s.state })
            &&& paths_may_change(s.state, id) && l.is_client && lacks(c, selected) ==> does(
                s,
                next,
                RemoteAction::OpenPath { conn: id, path: selected, status: PathStatus::Available },
            )
            &&& paths_may_change(s.state, id) || !lacks(c, selected) ==> {
                &&& does(s, next, RemoteAction::RecordSelected { conn: id, path: selected })
                &&& up && c.paths[p] == selected ==> does(
                    s,
                    next,
                    RemoteAction::SetStatus { conn: id, id: p, status: PathStatus::Available },
                )
                &&& up && c.paths[p] != selected ==> does(
                    s,
                    next,
                    RemoteAction::SetStatus { conn: id, id: p, status: PathStatus::Backup },
                ) || does(s, next, RemoteAction::ClosePath { conn: id, id: p })
            }
            &&& !paths_may_change(s.state, id) && up && c.paths[p] != selected && !lacks(
                c,
                selected,
            ) ==> does(
                s,
                next,
                RemoteAction::SetStatus { conn: id, id: p, status: PathStatus::Backup },
            )
        }),
{
    let next = s.select(chosen, around);
    let mid = s.with(next.state);
    let v = next.state;
    let c = v.conns[id];
    let all = v.apply(around);
    let f = |id: ConnId| v.apply_on(id, around, selected);
    finite_set_is_listed(v.conns.dom());
    finite_set_is_listed(c.paths.dom());
    assert(v.ids().contains(id));
    let k = v.ids().index_of(id);
    assert(next.state =~= RemoteView { selected_path: Some(selected), ..s.state });
    assert forall|a: RemoteAction| #[trigger] f(id).contains(a) implies does(s, next, a) by {
        assert(f(v.ids()[k]).contains(a));
        flat_holds(v.ids(), f, k, a);
        did_all_does(mid, all, a);
        still_does(s, mid, next, a);
    }
    let here = f(id);
    let ids = c.path_ids();
    let managed = v.is_managed(id, around);
    assert(managed == paths_may_change(s.state, id));
    assert(c.has_path(selected) == !lacks(c, selected));
    if managed || c.has_path(selected) {
        let record = RemoteAction::RecordSelected { conn: id, path: selected };
        assert(here[here.len() - 1] == record);
        assert(here.contains(record));
    }
    if managed && l.is_client && lacks(c, selected) {
        let open = RemoteAction::OpenPath {
            conn: id,
            path: selected,
            status: PathStatus::Available,
        };
        assert(here[0] == open);
        assert(here.contains(open));
    }
    if c.paths.contains_key(p) && l.open_paths@.contains(p) && (managed || c.has_path(selected)) {
        assert(ids.contains(p));
        let m = ids.index_of(p);
        let status = if c.paths[p] == selected {
            PathStatus::Available
        } else {
            PathStatus::Backup
        };
        let set = RemoteAction::SetStatus { conn: id, id: p, status };
        if managed {
            let opened = v.open_on(id, l, selected);
            let g = |q: PathId| v.settle(id, l, selected, q);
            let a = if v.is_redundant(id, l, selected, p) {
                RemoteAction::ClosePath { conn: id, id: p }
            } else {
                set
            };
            assert(g(ids[m])[0] == a);
            flat_holds(ids, g, m, a);
            assert(here[opened.len() + flat(ids, g).index_of(a)] == a);
            assert(here.contains(a));
        } else {
            let g = |q: PathId| v.set_status(id, l, q);
            assert(g(ids[m])[0] == set);
            flat_holds(ids, g, m, set);
            assert(here[flat(ids, g).index_of(set)] == set);
            assert(here.contains(set));
        }
    }
}

/// What is counted for a path of a kind.
pub open spec fn counts_path(metric: Metric, path: FourTuple) -> bool {
    match metric {
        Metric::PathsDirect => path is Ip,
        Metric::PathsRelay => path is Relay,
        Metric::PathsCustom => path is Custom,
        _ => false,
    }
}

/// Whether a network path leads to an address.
pub open spec fn reaches_addr(path: FourTuple, addr: Addr) -> bool {
    match (path, addr) {
        (FourTuple::Ip { remote, .. }, Addr::Ip(to)) => remote == to,
        (FourTuple::Relay { url, endpoint_id }, Addr::Relay(relay, id)) => url == relay
            && endpoint_id == id,
        (FourTuple::Custom { remote, .. }, Addr::Custom(to)) => remote == to,
        _ => false,
    }
}

/// Whether all that goes with a new path of a connection is done: it is
/// counted by its kind, and the connection as direct with its first direct
/// path; those who watch are told; its address is remembered as open; a relay
/// path gets its idle timeout; and where the connection takes part in NAT
/// traversal, the path gets its status.
pub open spec fn opens(
    s: RemoteStep,
    next: RemoteStep,
    c: ConnView,
    selected: Option<FourTuple>,
    conn: ConnId,
    id: PathId,
    path: FourTuple,
) -> bool {
    &&& exists|metric: Metric| #[trigger]
        counts_path(metric, path) && does(s, next, RemoteAction::Count(metric))
    &&& path is Ip && !c.has_been_direct ==> does(
        s,
        next,
        RemoteAction::Count(Metric::ConnsDirect),
    )
    &&& does(s, next, RemoteAction::RecordOpened { conn, id, path })
    &&& exists|addr: Addr| #[trigger]
        reaches_addr(path, addr) && does(s, next, RemoteAction::InsertOpenAddr(addr))
    &&& path is Relay ==> does(s, next, RemoteAction::SetRelayIdleTimeout { conn, id })
    &&& c.nat_traversal_authorized ==> does(
        s,
        next,
        RemoteAction::SetStatus {
            conn,
            id,
            status: if selected == Some(path) {
                PathStatus::Available
            } else {
                PathStatus::Backup
            },
        },
    )
    &&& !c.nat_traversal_authorized && id == BOOTSTRAP_PATH ==> does(
        s,
        next,
        RemoteAction::RecordSelected { conn, path },
    )
}

/// An action at a place is there.
proof fn does_at(s: RemoteStep, next: RemoteStep, i: int)
    requires
        s.actions.is_prefix_of(next.actions),
        s.actions.len() <= i < next.actions.len(),
    ensures
        does(s, next, next.actions[i]),
{
    assert(next.actions[i] == next.actions[i]);
}

/// To register a path does all that goes with it.
proof fn registering_opens(
    s: RemoteStep,
    mid: RemoteStep,
    next: RemoteStep,
    conn: ConnId,
    id: PathId,
    path: FourTuple,
)
    requires
        s.actions.is_prefix_of(mid.actions),
        mid.state.conns.contains_key(conn),
        mid.registered(conn, id, path).actions.is_prefix_of(next.actions),
    ensures
        opens(s, next, mid.state.conns[conn], mid.state.selected_path, conn, id, path),
        s.actions.is_prefix_of(next.actions),
{
    let v = mid.state;
    let c = v.conns[conn];
    let all = v.register(conn, id, path);
    let done = mid.registered(conn, id, path);
    assert forall|a: RemoteAction| #[trigger] all.contains(a) implies does(s, next, a) by {
        did_all_does(mid, all, a);
        assert(done.actions == mid.did_all(all).actions);
        assert(does(mid, done, a)) by {
            let i = choose|i: int|
                mid.actions.len() <= i < mid.did_all(all).actions.len() && #[trigger] mid.did_all(
                    all,
                ).actions[i] == a;
            assert(done.actions[i] == a);
        }
        still_does(s, mid, done, a);
        still_does(s, done, next, a);
    }
    let metric = crate::remote_state::actor::path_metric(path);
    let one = seq![RemoteAction::Count(metric)];
    assert(all[0] == RemoteAction::Count(metric));
    assert(counts_path(metric, path));
    assert(all.contains(RemoteAction::Count(metric)));
    let direct = path is Ip && !c.has_been_direct;
    let n: int = if direct {
        2
    } else {
        1
    };
    if direct {
        assert(all[1] == RemoteAction::Count(Metric::ConnsDirect));
        assert(all.contains(RemoteAction::Count(Metric::ConnsDirect)));
    }
    assert(all[n] == RemoteAction::RecordOpened { conn, id, path });
    assert(all.contains(RemoteAction::RecordOpened { conn, id, path }));
    let n2: int = if path is Relay {
        n + 2
    } else {
        n + 1
    };
    if path is Relay {
        assert(all[n + 1] == RemoteAction::SetRelayIdleTimeout { conn, id });
        assert(all.contains(RemoteAction::SetRelayIdleTimeout { conn, id }));
    }
    let n3: int = if c.nat_traversal_authorized {
        n2 + 1
    } else {
        n2
    };
    if c.nat_traversal_authorized {
        let a = RemoteAction::SetStatus { conn, id, status: v.status_for(path) };
        assert(all[n2] == a);
        assert(all.contains(a));
    }
    let addr = path.remote_addr();
    assert(all[n3] == RemoteAction::InsertOpenAddr(addr));
    assert(all.contains(RemoteAction::InsertOpenAddr(addr)));
    assert(reaches_addr(path, addr));
    if !c.nat_traversal_authorized && id == BOOTSTRAP_PATH {
        assert(all[n3 + 1] == RemoteAction::RecordSelected { conn, path });
        assert(all.contains(RemoteAction::RecordSelected { conn, path }));
    }
}

/// Whether path events of a connection count: it is there and was not
/// dropped, and it takes part in NAT traversal or the event is about the path
/// over which it was established.
pub open spec fn listens(v: RemoteView, around: Surroundings, conn: ConnId, id: PathId) -> bool {
    &&& v.conns.contains_key(conn)
    &&& around.conn(conn) is Some
    &&& v.conns[conn].nat_traversal_authorized || id == BOOTSTRAP_PATH
}

/// A path that is established is kept by its connection, in place of what had
/// its number before; all that goes with a new path is done, and the selector
/// is asked about the paths that there are now.
pub proof fn established_path_is_kept<S: PathSelector>(
    s: RemoteStep,
    known: Seq<Addr>,
    selector: &S,
    around: Surroundings,
    next: RemoteStep,
    conn: ConnId,
    id: PathId,
    path: FourTuple,
)
    requires
        s.may_follow(
            RemoteEvent::Path(conn, ConnPathEvent::Established(id, Some(path))),
            known,
            selector,
            around,
            next,
        ),
        listens(s.state, around, conn, id),
    ensures
        ({
            let c = s.state.conns[conn];
            let now = ConnView {
                paths: c.paths.insert(id, path),
                has_been_direct: c.has_been_direct || path is Ip,
                ..c
            };
            &&& selector_was_asked(
                selector,
                s.state.selected_path,
                s.state.conns.insert(conn, now),
                around,
                next.state,
            )
            &&& opens(s, next, c, s.state.selected_path, conn, id, path)
        }),
{
    let mid = s.registered(conn, id, path);
    choice_changes_the_selection(mid, selector, around, next);
    registering_opens(s, s, next, conn, id, path);
}

/// To apply the selected path abandons no address.
proof fn applying_abandons_nothing(v: RemoteView, around: Surroundings, i: int)
    requires
        0 <= i < v.apply(around).len(),
    ensures
        !(v.apply(around)[i] is AbandonAddr),
{
    let selected = v.selected_path->0;
    let f = |id: ConnId| v.apply_on(id, around, selected);
    let k = flat_comes_from(v.ids(), f, i);
    let conn = v.ids()[k];
    let l = around.conn(conn)->0;
    let here = f(conn);
    let ids = v.conns[conn].path_ids();
    let j = here.index_of(v.apply(around)[i]);
    if v.is_managed(conn, around) {
        let opened = v.open_on(conn, l, selected);
        let g = |q: PathId| v.settle(conn, l, selected, q);
        if opened.len() <= j < opened.len() + flat(ids, g).len() {
            let m = flat_comes_from(ids, g, j - opened.len());
        }
    } else {
        let g = |q: PathId| v.set_status(conn, l, q);
        if j < flat(ids, g).len() {
            let m = flat_comes_from(ids, g, j);
        }
    }
}

/// A path that is abandoned is gone from its connection, whichever path of the
/// connection it was, and no other path is. Those who watch are told; its
/// address is abandoned exactly if no connection has a path to it any more;
/// and the selector is asked about the paths that are left.
pub proof fn abandoned_path_is_gone<S: PathSelector>(
    s: RemoteStep,
    known: Seq<Addr>,
    selector: &S,
    around: Surroundings,
    next: RemoteStep,
    conn: ConnId,
    id: PathId,
    addr: Addr,
)
    requires
        s.may_follow(
            RemoteEvent::Path(conn, ConnPathEvent::Abandoned(id)),
            known,
            selector,
            around,
            next,
        ),
        listens(s.state, around, conn, id),
        s.state.conns[conn].paths.contains_key(id),
        reaches_addr(s.state.conns[conn].paths[id], addr),
    ensures
        ({
            let c = s.state.conns[conn];
            &&& !next.state.conns[conn].paths.contains_key(id)
            &&& selector_was_asked(
                selector,
                s.state.selected_path,
                s.state.conns.insert(conn, ConnView { paths: c.paths.remove(id), ..c }),
                around,
                next.state,
            )
            &&& does(s, next, RemoteAction::RecordAbandoned { conn, id })
            &&& (forall|other: ConnId, p: PathId|
                next.state.conns.contains_key(other)
                    && #[trigger] next.state.conns[other].paths.contains_key(p) ==> !reaches_addr(
                    next.state.conns[other].paths[p],
                    addr,
                )) ==> does(s, next, RemoteAction::AbandonAddr(addr))
            &&& (exists|other: ConnId, p: PathId|
                next.state.conns.contains_key(other)
                    && #[trigger] next.state.conns[other].paths.contains_key(p) && reaches_addr(
                    next.state.conns[other].paths[p],
                    addr,
                )) ==> !does(s, next, RemoteAction::AbandonAddr(addr))
        }),
{
    let mid = s.path_abandoned(conn, id);
    choice_changes_the_selection(mid, selector, around, next);
    let c = s.state.conns[conn];
    assert(addr == c.paths[id].remote_addr());
    assert(mid.actions[s.actions.len() as int] == RemoteAction::RecordAbandoned { conn, id });
    does_at(s, mid, s.actions.len() as int);
    still_does(s, mid, next, RemoteAction::RecordAbandoned { conn, id });
    let v = mid.state;
    if v.reaches(addr) {
        let (other, p) = choose|other: ConnId, p: PathId|
            v.conns.contains_key(other) && #[trigger] v.conns[other].paths.contains_key(p)
                && v.conns[other].paths[p].remote_addr() == addr;
        assert(v.conns[other].paths.contains_key(p));
        assert(reaches_addr(v.conns[other].paths[p], addr));
        let chosen = choose|chosen: Option<FourTuple>|
            #[trigger] mid.selects(selector, around, chosen) && next == mid.select(chosen, around);
        assert forall|i: int| s.actions.len() <= i < next.actions.len() implies #[trigger] next.actions[i]
            != RemoteAction::AbandonAddr(addr) by {
            if i >= mid.actions.len() {
                applying_abandons_nothing(next.state, around, i - mid.actions.len());
            } else {
                assert(next.actions[i] == mid.actions[i]);
            }
        }
    } else {
        let n = s.actions.len() as int;
        assert(mid.actions[n + 1] == RemoteAction::AbandonAddr(addr));
        does_at(s, mid, n + 1);
        still_does(s, mid, next, RemoteAction::AbandonAddr(addr));
        assert forall|other: ConnId, p: PathId|
            v.conns.contains_key(other) && #[trigger] v.conns[other].paths.contains_key(
                p,
            ) implies !reaches_addr(v.conns[other].paths[p], addr) by {
            assert(v.conns[other].paths[p].remote_addr() != addr);
        }
    }
}

/// A path event changes nothing if the connection is not there, was dropped,
/// or has no business with the path; or if an abandoned path is none of it;
/// or if the event is neither that a path was established nor abandoned.
pub proof fn other_path_events_change_nothing<S: PathSelector>(
    s: RemoteStep,
    known: Seq<Addr>,
    selector: &S,
    around: Surroundings,
    next: RemoteStep,
    conn: ConnId,
    event: ConnPathEvent,
)
    requires
        s.may_follow(RemoteEvent::Path(conn, event), known, selector, around, next),
        match event {
            ConnPathEvent::Established(id, _) => !listens(s.state, around, conn, id),
            ConnPathEvent::Abandoned(id) => !listens(s.state, around, conn, id)
                || !s.state.conns[conn].paths.contains_key(id),
            _ => true,
        },
    ensures
        next == s,
{
}

/// Where an established path has no known network path, the selector is asked
/// all the same.
pub proof fn nameless_path_asks_the_selector<S: PathSelector>(
    s: RemoteStep,
    known: Seq<Addr>,
    selector: &S,
    around: Surroundings,
    next: RemoteStep,
    conn: ConnId,
    id: PathId,
)
    requires
        s.may_follow(
            RemoteEvent::Path(conn, ConnPathEvent::Established(id, None)),
            known,
            selector,
            around,
            next,
        ),
        listens(s.state, around, conn, id),
    ensures
        selector_was_asked(selector, s.state.selected_path, s.state.conns, around, next.state),
{
    choice_changes_the_selection(s, selector, around, next);
}

/// What a new connection starts from.
pub open spec fn is_new(c: ConnView, authorized: bool) -> bool {
    &&& c.nat_traversal_authorized == authorized
    &&& c.peer_candidates_observed == authorized
    &&& c.last_holepunch is None
}

/// A connection that is added is there, counted and watched, with the path
/// over which it was established, if that is known. Where authorization is
/// not deferred it takes part in NAT traversal at once: its candidates become
/// the local addresses; paths via all known relays are opened, if this side is
/// the client and it was not established over a relay; holepunching starts on
/// the lowest connection if it is due. In any case the selector is asked.
pub proof fn added_connection_is_hooked_up<S: PathSelector>(
    s: RemoteStep,
    known: Seq<Addr>,
    selector: &S,
    around: Surroundings,
    next: RemoteStep,
    conn: ConnId,
    l: LiveConn,
    path: Option<FourTuple>,
    relay: Addr,
)
    requires
        s.state.conns.dom().finite(),
        around.conn(conn) == Some(l),
        s.may_follow(
            RemoteEvent::Message(RemoteStateMessage::AddConnection(conn, path)),
            known,
            selector,
            around,
            next,
        ),
    ensures
        next.state.conns.contains_key(conn),
        is_new(next.state.conns[conn], !s.state.deferred),
        match path {
            Some(path) => {
                &&& next.state.conns[conn].paths == Map::empty().insert(BOOTSTRAP_PATH, path)
                &&& next.state.conns[conn].has_been_direct == (path is Ip)
                &&& exists|before: ConnView|
                    is_new(before, !s.state.deferred) && !before.has_been_direct && #[trigger] opens(
                        s,
                        next,
                        before,
                        s.state.selected_path,
                        conn,
                        BOOTSTRAP_PATH,
                        path,
                    )
            },
            None => next.state.conns[conn].paths == Map::<PathId, FourTuple>::empty(),
        },
        does(s, next, RemoteAction::Count(Metric::ConnsOpened)),
        does(s, next, RemoteAction::Watch(conn)),
        !s.state.deferred ==> announces(s, next, conn, l, around.local_addrs@),
        !s.state.deferred && l.is_client && path is Some && !(path->0 is Relay) && relay is Relay
            && known.contains(relay) ==> exists|to: FourTuple, status: PathStatus|
            reaches_addr(to, relay) && #[trigger] does(
                s,
                next,
                RemoteAction::OpenPath { conn, path: to, status },
            ),
        selector_was_asked(
            selector,
            s.state.selected_path,
            next.state.conns,
            around,
            next.state,
        ),
        forall|other: ConnId|
            other != conn ==> (#[trigger] next.state.conns.contains_key(other)
                == s.state.conns.contains_key(other)) && next.state.conns[other].paths
                == s.state.conns[other].paths && next.state.conns[other].nat_traversal_authorized
                == s.state.conns[other].nat_traversal_authorized,
{
    let hooked = s.hooked_up(conn, l, around);
    let mid = hooked.bootstrapped(conn, l, path, known);
    let added = s.connection_added(conn, l, path, known, around);
    choice_changes_the_selection(added, selector, around, next);
    triggers_keep_the_rest(mid, None, around, conn);
    let begun = s.did(RemoteAction::Count(Metric::ConnsOpened)).did(RemoteAction::Watch(conn));
    let updates = if s.state.deferred {
        Seq::empty()
    } else {
        candidate_updates(conn, l.local_candidates, around.local_addrs@)
    };
    assert(hooked.actions == begun.actions + updates);
    assert(hooked.actions.is_prefix_of(next.actions));
    let n = s.actions.len() as int;
    assert(begun.actions[n] == RemoteAction::Count(Metric::ConnsOpened));
    assert(begun.actions[n + 1] == RemoteAction::Watch(conn));
    does_at(s, begun, n);
    does_at(s, begun, n + 1);
    still_does(s, begun, next, RemoteAction::Count(Metric::ConnsOpened));
    still_does(s, begun, next, RemoteAction::Watch(conn));
    if !s.state.deferred {
        updating_announces(s, begun, next, updates, conn, l, around.local_addrs@);
    }
    if let Some(path) = path {
        let registered = hooked.registered(conn, BOOTSTRAP_PATH, path);
        assert(registered.actions.is_prefix_of(next.actions));
        registering_opens(s, hooked, next, conn, BOOTSTRAP_PATH, path);
        assert(is_new(hooked.state.conns[conn], !s.state.deferred));
        let v = registered.state;
        if !s.state.deferred && l.is_client && !(path is Relay) && relay is Relay && known.contains(
            relay,
        ) {
            let f = |addr: Addr|
                if addr is Relay {
                    v.open_on(conn, l, FourTuple::to(addr))
                } else {
                    Seq::empty()
                };
            let to = FourTuple::to(relay);
            let open = RemoteAction::OpenPath { conn, path: to, status: v.status_for(to) };
            assert(!v.conns[conn].has_path(to)) by {
                if v.conns[conn].has_path(to) {
                    let q = choose|q: PathId| #[trigger]
                        v.conns[conn].paths.contains_key(q) && v.conns[conn].paths[q] == to;
                    assert(q == BOOTSTRAP_PATH);
                }
            }
            let k = known.index_of(relay);
            assert(f(known[k])[0] == open);
            flat_holds(known, f, k, open);
            did_all_does(registered, v.open_relays(conn, l, known), open);
            still_does(s, registered, mid, open);
            still_does(s, mid, next, open);
            assert(reaches_addr(to, relay));
        }
    }
    assert forall|other: ConnId| other != conn implies (#[trigger] next.state.conns.contains_key(
        other,
    ) == s.state.conns.contains_key(other)) && next.state.conns[other].paths
        == s.state.conns[other].paths && next.state.conns[other].nat_traversal_authorized
        == s.state.conns[other].nat_traversal_authorized by {
        triggers_keep_the_rest(mid, None, around, other);
        assert(next.state.conns.dom() == mid.state.conns.dom());
        assert(next.state.conns.contains_key(other) == mid.state.conns.dom().contains(other));
    }
    assert(next.state.conns.dom() == mid.state.conns.dom());
    assert(mid.state.conns.dom().contains(conn));
}

/// Where authorization is not deferred, an added connection starts
/// holepunching on the lowest connection if it is due, counting itself.
pub proof fn added_connection_holepunches<S: PathSelector>(
    s: RemoteStep,
    known: Seq<Addr>,
    selector: &S,
    around: Surroundings,
    next: RemoteStep,
    conn: ConnId,
    path: Option<FourTuple>,
    with_conn: RemoteView,
    id: ConnId,
    l: LiveConn,
)
    requires
        s.state.conns.dom().finite(),
        !s.state.deferred,
        around.conn(conn) is Some,
        s.may_follow(
            RemoteEvent::Message(RemoteStateMessage::AddConnection(conn, path)),
            known,
            selector,
            around,
            next,
        ),
        with_conn == (RemoteView { conns: next.state.conns, ..s.state }),
        is_to_be_holepunched(with_conn, around, id, l),
    ensures
        does(s, next, RemoteAction::InitiateRound(id)),
{
    let mid = s.hooked_up(conn, around.conn(conn)->0, around).bootstrapped(
        conn,
        around.conn(conn)->0,
        path,
        known,
    );
    let added = mid.trigger(None, around);
    choice_changes_the_selection(added, selector, around, next);
    triggers_keep_the_rest(mid, None, around, id);
    assert forall|other: ConnId, m: LiveConn| #[trigger]
        is_client_conn(mid.state, around, other, m) implies is_client_conn(
        with_conn,
        around,
        other,
        m,
    ) by {
        triggers_keep_the_rest(mid, None, around, other);
        assert(next.state.conns.dom() == mid.state.conns.dom());
        assert(mid.state.conns.dom().contains(other));
    }
    assert(mid.state.conns.dom() =~= s.state.conns.dom().insert(conn));
    assert(next.state.conns.dom() == mid.state.conns.dom());
    assert(next.state.conns.dom().contains(id));
    assert(is_to_be_holepunched(mid.state, around, id, l));
    trigger_initiates(mid, None, around, id, l);
    still_does(s, mid, added, RemoteAction::InitiateRound(id));
    still_does(s, added, next, RemoteAction::InitiateRound(id));
}

/// To authorize an active connection makes it take part in NAT traversal: it is
/// permitted to, its candidates become the local addresses, and the selector is
/// asked about its paths too. Where authorization is deferred, holepunching
/// starts on it at once if this side is the client and the peer announced
/// candidates, whatever was attempted before.
pub proof fn authorized_connection_takes_part<S: PathSelector>(
    s: RemoteStep,
    known: Seq<Addr>,
    selector: &S,
    around: Surroundings,
    next: RemoteStep,
    conn: ConnId,
    l: LiveConn,
)
    requires
        s.state.conns.dom().finite(),
        s.may_follow(
            RemoteEvent::Message(RemoteStateMessage::AuthorizeNatTraversal(conn)),
            known,
            selector,
            around,
            next,
        ),
        s.state.conns.contains_key(conn),
        !s.state.conns[conn].nat_traversal_authorized,
        around.conn(conn) == Some(l),
        !l.is_closed,
    ensures
        next.state.conns.contains_key(conn),
        next.state.conns[conn].nat_traversal_authorized,
        next.state.conns[conn].paths == s.state.conns[conn].paths,
        next.state.conns[conn].peer_candidates_observed
            == s.state.conns[conn].peer_candidates_observed,
        does(s, next, RemoteAction::Authorize(conn)),
        announces(s, next, conn, l, around.local_addrs@),
        s.state.deferred && l.is_client && l.remote_candidates is Some ==> does(
            s,
            next,
            RemoteAction::InitiateRound(conn),
        ),
        selector_chose(
            selector,
            s.state.selected_path,
            s.state.conns.insert(
                conn,
                ConnView {
                    nat_traversal_authorized: true,
                    last_holepunch: None,
                    scheduled_holepunch: None,
                    ..s.state.conns[conn]
                },
            ),
            around,
            next.state.selected_path,
        ),
{
    let start = s.authorized(conn, l, around);
    let mid = choose|mid: RemoteStep|
        #[trigger] start.may_become(selector, around, mid) && next == mid.trigger(
            Some(conn),
            around,
        );
    choice_changes_the_selection(start, selector, around, mid);
    triggers_keep_the_rest(mid, Some(conn), around, conn);
    let updates = candidate_updates(conn, l.local_candidates, around.local_addrs@);
    let begun = s.did(RemoteAction::Authorize(conn));
    assert(start.actions == begun.actions + updates);
    assert(start.actions.is_prefix_of(next.actions));
    let n = s.actions.len() as int;
    assert(begun.actions[n] == RemoteAction::Authorize(conn));
    does_at(s, begun, n);
    still_does(s, begun, next, RemoteAction::Authorize(conn));
    updating_announces(s, begun, next, updates, conn, l, around.local_addrs@);
    if s.state.deferred && l.is_client && l.remote_candidates is Some {
        assert(mid.state.conns.dom() =~= s.state.conns.dom());
        assert(is_to_be_holepunched(mid.state, around, conn, l));
        trigger_initiates(mid, Some(conn), around, conn, l);
        still_does(s, mid, next, RemoteAction::InitiateRound(conn));
    }
    assert(next.state.conns.dom().contains(conn));
}

/// A request to authorize changes nothing if the connection is not there, was
/// dropped, is closed or is authorized already.
pub proof fn needless_authorization_changes_nothing<S: PathSelector>(
    s: RemoteStep,
    known: Seq<Addr>,
    selector: &S,
    around: Surroundings,
    next: RemoteStep,
    conn: ConnId,
)
    requires
        s.may_follow(
            RemoteEvent::Message(RemoteStateMessage::AuthorizeNatTraversal(conn)),
            known,
            selector,
            around,
            next,
        ),
        !s.state.conns.contains_key(conn) || s.state.conns[conn].nat_traversal_authorized
            || around.conn(conn) is None || around.conn(conn)->0.is_closed,
    ensures
        next == s,
{
}

/// When the peer announces candidates on a connection that takes part in NAT
/// traversal, this is remembered if there are any, the selector is asked, and
/// holepunching starts if it is due: on this connection where authorization is
/// deferred, otherwise on the lowest one. On any other connection nothing
/// happens.
pub proof fn announced_candidates_are_tried<S: PathSelector>(
    s: RemoteStep,
    known: Seq<Addr>,
    selector: &S,
    around: Surroundings,
    next: RemoteStep,
    conn: ConnId,
    id: ConnId,
    l: LiveConn,
)
    requires
        s.state.conns.dom().finite(),
        s.may_follow(RemoteEvent::CandidatesAnnounced(conn), known, selector, around, next),
    ensures
        !s.state.conns.contains_key(conn) || !s.state.conns[conn].nat_traversal_authorized ==> next
            == s,
        s.state.conns.contains_key(conn) && s.state.conns[conn].nat_traversal_authorized ==> {
            let observed = around.conn(conn) is Some && around.conn(
                conn,
            )->0.remote_candidates is Some && around.conn(conn)->0.remote_candidates->0@.len() > 0;
            let c = s.state.conns[conn];
            let now = ConnView {
                peer_candidates_observed: c.peer_candidates_observed || observed,
                ..c
            };
            &&& next.state.conns[conn].peer_candidates_observed == (c.peer_candidates_observed
                || observed)
            &&& is_to_be_holepunched(s.state, around, id, l) && (s.state.deferred ==> id == conn)
                ==> does(s, next, RemoteAction::InitiateRound(id))
            &&& selector_chose(
                selector,
                s.state.selected_path,
                s.state.conns.insert(conn, now),
                around,
                next.state.selected_path,
            )
        },
{
    if s.state.conns.contains_key(conn) && s.state.conns[conn].nat_traversal_authorized {
        let start = s.candidates_announced(conn, around)->0;
        let mid = choose|mid: RemoteStep|
            #[trigger] start.may_become(selector, around, mid) && next == mid.trigger(
                Some(conn),
                around,
            );
        choice_changes_the_selection(start, selector, around, mid);
        triggers_keep_the_rest(mid, Some(conn), around, conn);
        if is_to_be_holepunched(s.state, around, id, l) && (s.state.deferred ==> id == conn) {
            assert(mid.state.conns.dom() =~= s.state.conns.dom());
            assert forall|other: ConnId, m: LiveConn| #[trigger]
                is_client_conn(mid.state, around, other, m) implies is_client_conn(
                s.state,
                around,
                other,
                m,
            ) by {}
            assert(is_to_be_holepunched(mid.state, around, id, l));
            trigger_initiates(mid, Some(conn), around, id, l);
            still_does(s, mid, next, RemoteAction::InitiateRound(id));
        }
    }
}

/// When it is time, every path that waits is opened on every connection where
/// paths may change, this side is the client and the path is missing. Then
/// none waits any more.
pub proof fn waiting_paths_are_opened<S: PathSelector>(
    s: RemoteStep,
    known: Seq<Addr>,
    selector: &S,
    around: Surroundings,
    next: RemoteStep,
    path: FourTuple,
    id: ConnId,
    l: LiveConn,
)
    requires
        s.state.conns.dom().finite(),
        s.may_follow(RemoteEvent::OpenPathsDue, known, selector, around, next),
    ensures
        next.state == (RemoteView {
            scheduled_open_path: None,
            pending_open_paths: Seq::empty(),
            ..s.state
        }),
        s.state.pending_open_paths.contains(path) && paths_may_change(s.state, id) && around.conn(
            id,
        ) == Some(l) && l.is_client && lacks(s.state.conns[id], path) ==> does(
            s,
            next,
            RemoteAction::OpenPath {
                conn: id,
                path,
                status: if s.state.selected_path == Some(path) {
                    PathStatus::Available
                } else {
                    PathStatus::Backup
                },
            },
        ),
{
    let v = s.state;
    let waiting = v.pending_open_paths;
    if waiting.contains(path) && paths_may_change(v, id) && around.conn(id) == Some(l)
        && l.is_client && lacks(v.conns[id], path) {
        finite_set_is_listed(v.conns.dom());
        let open = RemoteAction::OpenPath { conn: id, path, status: v.status_for(path) };
        let f = |id: ConnId|
            if v.is_managed(id, around) {
                v.open_on(id, around.conn(id)->0, path)
            } else {
                Seq::empty()
            };
        assert(v.ids().contains(id));
        let k = v.ids().index_of(id);
        assert(f(v.ids()[k])[0] == open);
        flat_holds(v.ids(), f, k, open);
        let g = |path: FourTuple| v.open_on_all(path, around);
        let m = waiting.index_of(path);
        assert(g(waiting[m]).contains(open));
        flat_holds(waiting, g, m, open);
        let mid = s.with(next.state);
        did_all_does(mid, flat(waiting, g), open);
        still_does(s, mid, next, open);
    }
}

/// A connection that has closed is gone and no other one is. Those who watch
/// it are told and it is counted, if it was there.
pub proof fn closed_connection_is_gone<S: PathSelector>(
    s: RemoteStep,
    known: Seq<Addr>,
    selector: &S,
    around: Surroundings,
    next: RemoteStep,
    conn: ConnId,
)
    requires
        s.may_follow(RemoteEvent::ConnectionClosed(conn), known, selector, around, next),
    ensures
        next.state.conns == s.state.conns.remove(conn),
        next.state == (RemoteView {
            conns: next.state.conns,
            selected_path: next.state.selected_path,
            ..s.state
        }),
        s.state.conns.contains_key(conn) ==> does(s, next, RemoteAction::RecordClosed(conn))
            && does(s, next, RemoteAction::Count(Metric::ConnsClosed)),
        !s.state.conns.contains_key(conn) ==> next.actions == s.actions,
        (exists|id: ConnId| #[trigger]
            s.state.conns.contains_key(id) && id != conn
                && s.state.conns[id].nat_traversal_authorized) ==> next.state.selected_path
            == s.state.selected_path,
        (forall|id: ConnId| #[trigger]
            s.state.conns.contains_key(id) && id != conn
                ==> !s.state.conns[id].nat_traversal_authorized)
            ==> next.state.selected_path is None,
{
    let gone = RemoteView { conns: s.state.conns.remove(conn), ..s.state };
    let n = s.actions.len() as int;
    if s.state.conns.contains_key(conn) {
        assert(next.actions[n] == RemoteAction::Count(Metric::ConnsClosed));
        assert(next.actions[n + 1] == RemoteAction::RecordClosed(conn));
        does_at(s, next, n);
        does_at(s, next, n + 1);
    }
    if exists|id: ConnId| #[trigger]
        s.state.conns.contains_key(id) && id != conn && s.state.conns[id].nat_traversal_authorized {
        let id = choose|id: ConnId| #[trigger]
            s.state.conns.contains_key(id) && id != conn
                && s.state.conns[id].nat_traversal_authorized;
        assert(gone.conns.contains_key(id));
    }
    if gone.any_authorized() {
        let id = choose|id: ConnId| #[trigger]
            gone.conns.contains_key(id) && gone.conns[id].nat_traversal_authorized;
        assert(s.state.conns.contains_key(id));
    }
}

/// A path that could not be opened because the remote does not permit it yet
/// waits, behind those that wait already, and is tried again after the time
/// for that; other failures change nothing. What waited before still waits,
/// but for the oldest where there is no room.
pub proof fn refused_path_waits(
    v: RemoteView,
    path: FourTuple,
    error: OpenPathError,
    now: Instant,
)
    requires
        now + OPEN_PATH_RETRY <= Instant::MAX,
    ensures
        ({
            let next = v.open_failed(path, error, now);
            let room = v.pending_open_paths.len() < MAX_PENDING_OPEN_PATHS;
            &&& error is Failed ==> next == v
            &&& !(error is Failed) ==> {
                &&& next.pending_open_paths.contains(path)
                &&& next.scheduled_open_path == Some((now + OPEN_PATH_RETRY) as Instant)
                &&& next == (RemoteView {
                    pending_open_paths: next.pending_open_paths,
                    scheduled_open_path: next.scheduled_open_path,
                    ..v
                })
                &&& v.pending_open_paths.contains(path) ==> next.pending_open_paths
                    == v.pending_open_paths
                &&& !v.pending_open_paths.contains(path) ==> next.pending_open_paths.last() == path
                    && next.pending_open_paths.drop_last() == if room {
                    v.pending_open_paths
                } else {
                    v.pending_open_paths.drop_first()
                }
            }
        }),
{
    let next = v.open_failed(path, error, now).pending_open_paths;
    if !(error is Failed) && !v.pending_open_paths.contains(path) {
        assert(next[next.len() - 1] == path);
        assert(next.drop_last() =~= if v.pending_open_paths.len() < MAX_PENDING_OPEN_PATHS {
            v.pending_open_paths
        } else {
            v.pending_open_paths.drop_first()
        });
    }
}

/// A round that started is remembered with its time and the candidates that it
/// covered, and nothing is scheduled any more: for its connection where
/// authorization is deferred, otherwise for all. One that failed for want of
/// paths or addresses is tried again after the time for that; any other
/// failure changes nothing. Whatever came of it, no path and no other
/// connection changes.
pub proof fn round_is_remembered(
    v: RemoteView,
    id: ConnId,
    result: RoundResult,
    now: Instant,
    local: Seq<SocketAddr>,
    addr: SocketAddr,
)
    requires
        now + HOLEPUNCH_RETRY <= Instant::MAX,
    ensures
        ({
            let next = v.after_round(id, result, now, local);
            let own = v.deferred && v.conns.contains_key(id);
            let (last, scheduled) = if v.deferred {
                (next.conns[id].last_holepunch, next.conns[id].scheduled_holepunch)
            } else {
                (next.last_holepunch, next.scheduled_holepunch)
            };
            &&& result is Failed ==> next == v
            &&& v.deferred && !v.conns.contains_key(id) ==> next == v
            &&& (own || !v.deferred) && !(result is Failed) ==> match result {
                RoundResult::Started(remote) => {
                    &&& last is Some
                    &&& last->0.when == now
                    &&& local.contains(addr) ==> last->0.local_candidates.contains(
                        addr.canonical(),
                    )
                    &&& remote@.contains(addr) ==> last->0.remote_candidates.contains(
                        addr.canonical(),
                    )
                    &&& last->0.local_candidates.contains(addr) ==> exists|a: SocketAddr|
                        local.contains(a) && #[trigger] a.canonical() == addr
                    &&& last->0.remote_candidates.contains(addr) ==> exists|a: SocketAddr|
                        remote@.contains(a) && #[trigger] a.canonical() == addr
                    &&& scheduled is None
                },
                _ => scheduled == Some((now + HOLEPUNCH_RETRY) as Instant) && last
                    == v.last_attempt(id),
            }
            &&& next.selected_path == v.selected_path
            &&& next.pending_open_paths == v.pending_open_paths
            &&& forall|other: ConnId|
                (#[trigger] next.conns.contains_key(other) == v.conns.contains_key(other)) && (
                other != id ==> next.conns[other] == v.conns[other]) && next.conns[other].paths
                    == v.conns[other].paths && next.conns[other].nat_traversal_authorized
                    == v.conns[other].nat_traversal_authorized
        }),
{
    if let RoundResult::Started(remote) = result {
        in_canonical_form(local, addr);
        in_canonical_form(remote@, addr);
    }
}

/// The canonical forms of addresses are those of addresses among them.
proof fn in_canonical_form(addrs: Seq<SocketAddr>, addr: SocketAddr)
    ensures
        addrs.contains(addr) ==> canonical_set(addrs).contains(addr.canonical()),
        canonical_set(addrs).contains(addr) ==> exists|a: SocketAddr|
            addrs.contains(a) && #[trigger] a.canonical() == addr,
{
    let all = addrs.map_values(|a: SocketAddr| a.canonical());
    if addrs.contains(addr) {
        assert(all[addrs.index_of(addr)] == addr.canonical());
    }
    if canonical_set(addrs).contains(addr) {
        let i = all.index_of(addr);
        assert(addrs.contains(addrs[i]));
        assert(addrs[i].canonical() == addr);
    }
}

/// The actor may stop exactly if there is no connection, no message waits,
/// nobody else could send one, and nobody waits for an answer. To ask changes
/// nothing.
pub proof fn actor_stops_when_idle<S: PathSelector>(
    s: RemoteStep,
    known: Seq<Addr>,
    selector: &S,
    around: Surroundings,
    next: RemoteStep,
    inbox: InboxState,
    requests_is_empty: bool,
)
    requires
        s.may_follow(
            RemoteEvent::IdleTimeout { inbox, requests_is_empty },
            known,
            selector,
            around,
            next,
        ),
    ensures
        next == s,
        s.state.is_idle(inbox, requests_is_empty) <==> (forall|id: ConnId|
            !s.state.conns.contains_key(id)) && inbox.is_empty && !inbox.has_other_senders
            && requests_is_empty,
{
    if forall|id: ConnId| !s.state.conns.contains_key(id) {
        assert(s.state.conns.dom() =~= Set::empty());
    }
    if s.state.conns.dom().is_empty() {
        assert forall|id: ConnId| !s.state.conns.contains_key(id) by {
            assert(!s.state.conns.dom().contains(id));
        }
    }
}

/// Where authorization is not deferred, the next attempt is the one that is
/// scheduled at all; otherwise there is none if no connection has one.
pub proof fn nothing_scheduled_is_no_attempt(v: RemoteView)
    requires
        v.conns.dom().finite(),
    ensures
        !v.deferred ==> match v.scheduled_holepunch {
            Some(time) => v.next_scheduled() == Some((None::<ConnId>, time)),
            None => v.next_scheduled() is None,
        },
        v.deferred && (forall|id: ConnId| #[trigger]
            v.conns.contains_key(id) ==> v.conns[id].scheduled_holepunch is None)
            ==> v.next_scheduled() is None,
{
    if v.deferred && forall|id: ConnId| #[trigger]
        v.conns.contains_key(id) ==> v.conns[id].scheduled_holepunch is None {
        finite_set_is_listed(v.conns.dom());
        assert forall|i: int|
            0 <= i < v.ids().len() implies v.conns[#[trigger] v.ids()[i]].scheduled_holepunch is None by {
            assert(v.ids().contains(v.ids()[i]));
            assert(v.conns.contains_key(v.ids()[i]));
        }
        none_is_earliest(v, v.ids());
    }
}

/// Of connections without an attempt none is the earliest.
proof fn none_is_earliest(v: RemoteView, ids: Seq<ConnId>)
    requires
        forall|i: int|
            0 <= i < ids.len() ==> v.conns[#[trigger] ids[i]].scheduled_holepunch is None,
    ensures
        v.earliest(ids) is None,
    decreases ids.len(),
{
    if ids.len() > 0 {
        let rest = ids.drop_last();
        assert forall|i: int|
            0 <= i < rest.len() implies v.conns[#[trigger] rest[i]].scheduled_holepunch is None by {
            assert(rest[i] == ids[i]);
        }
        none_is_earliest(v, rest);
        assert(ids[ids.len() - 1] == ids.last());
    }
}

} // verus!
