//! Why the actor does what it does: every action has its cause in the event at
//! hand, in the selected path or in the local addresses.

use crate::addr::SocketAddr;
use crate::flat::{flat, flat_comes_from};
use crate::remote_state::actor::{
    candidate_updates, Metric, PathStatus, RemoteAction, RemoteStep, RemoteView, Source,
};
use crate::remote_state::connection::{
    distinct, distinct_addrs_are_the_same, ConnId, ConnView, PathId, Surroundings,
    BOOTSTRAP_PATH,
};
use crate::remote_state::events::ConnPathEvent;
use crate::remote_state::lookup::{insert_all, LookupResult};
use crate::remote_state::paths::{Addr, FourTuple};
use crate::remote_state::run::{RemoteEvent, RemoteStateMessage};
use crate::remote_state::selection::PathSelector;
use vstd::prelude::*;

verus! {

/// Whether an event is that a connection is added.
pub open spec fn adds(event: RemoteEvent, conn: ConnId) -> bool {
    event matches RemoteEvent::Message(RemoteStateMessage::AddConnection(id, _)) && id == conn
}

/// The path of a connection that an event brings: it is established, or the
/// connection is added over it.
pub open spec fn brought(event: RemoteEvent) -> Option<(ConnId, PathId, FourTuple)> {
    match event {
        RemoteEvent::Message(RemoteStateMessage::AddConnection(conn, Some(path))) => Some(
            (conn, BOOTSTRAP_PATH, path),
        ),
        RemoteEvent::Path(conn, ConnPathEvent::Established(id, Some(path))) => Some(
            (conn, id, path),
        ),
        _ => None,
    }
}

/// Whether a status is that for a path: available if it is selected, otherwise
/// that of a backup.
pub open spec fn is_status(
    status: PathStatus,
    selected: Option<FourTuple>,
    path: FourTuple,
) -> bool {
    status == if selected == Some(path) {
        PathStatus::Available
    } else {
        PathStatus::Backup
    }
}

/// Whether an action has its cause. A path is opened because it is selected,
/// because a connection was added and it leads over a known relay, or because
/// it waited and it is time. A path is closed only by the client, and only a
/// direct one that is not selected. A candidate is announced because it is a
/// local address, and withdrawn because it is none. A path gets the status that
/// it should have. Anything else is done, and counted, only where the event at
/// hand calls for it.
pub open spec fn has_cause(
    action: RemoteAction,
    event: RemoteEvent,
    known: Seq<Addr>,
    around: Surroundings,
    before: RemoteView,
    after: RemoteView,
) -> bool {
    match action {
        RemoteAction::OpenPath { conn, path, .. } => {
            ||| after.selected_path == Some(path)
            ||| adds(event, conn) && exists|addr: Addr|
                known.contains(addr) && addr is Relay && #[trigger] FourTuple::to(addr) == path
            ||| event is OpenPathsDue && before.pending_open_paths.contains(path)
        },
        RemoteAction::ClosePath { conn, id } => {
            &&& after.conns[conn].paths[id] is Ip
            &&& after.selected_path is Some
            &&& after.selected_path != Some(after.conns[conn].paths[id])
            &&& around.conn(conn) matches Some(l) && l.is_client && l.open_paths@.contains(id)
        },
        RemoteAction::AddCandidate { addr, .. } => around.local_addrs@.contains(addr),
        RemoteAction::RemoveCandidate { addr, .. } => !around.local_addrs@.contains(addr),
        RemoteAction::Ping { .. } => event matches RemoteEvent::Message(
            RemoteStateMessage::NetworkChange { .. },
        ),
        RemoteAction::RecordOpened { conn, id, path } => brought(event) == Some((conn, id, path)),
        RemoteAction::SetRelayIdleTimeout { conn, id } => brought(event) matches Some((c, i, path))
            && c == conn && i == id && path is Relay,
        RemoteAction::InsertOpenAddr(addr) => brought(event) matches Some((c, i, path))
            && path.remote_addr() == addr,
        RemoteAction::RecordAbandoned { conn, id } => event == RemoteEvent::Path(
            conn,
            ConnPathEvent::Abandoned(id),
        ),
        RemoteAction::AbandonAddr(addr) => event matches RemoteEvent::Path(
            conn,
            ConnPathEvent::Abandoned(id),
        ) && before.conns[conn].paths[id].remote_addr() == addr,
        RemoteAction::RecordSelected { conn, path } => after.selected_path == Some(path) || (
        brought(event) matches Some((c, i, p)) && c == conn && p == path),
        RemoteAction::RecordClosed(conn) => event == RemoteEvent::ConnectionClosed(conn),
        RemoteAction::Watch(conn) => adds(event, conn),
        RemoteAction::Authorize(conn) => event matches RemoteEvent::Message(
            RemoteStateMessage::AuthorizeNatTraversal(id),
        ) && id == conn,
        RemoteAction::InsertAddr { source, .. } => match event {
            RemoteEvent::Message(RemoteStateMessage::ResolveRemote(_)) => source == Source::App,
            RemoteEvent::Lookup(LookupResult::Found(found)) => source == Source::AddressLookup {
                name: found.provenance,
            } && found.endpoint_id == before.endpoint_id,
            _ => false,
        },
        RemoteAction::ResolveOrKeep | RemoteAction::StartLookup => event matches RemoteEvent::Message(
            RemoteStateMessage::ResolveRemote(_),
        ),
        RemoteAction::StopLookup => event is ResolveCancelled,
        RemoteAction::FinishLookup { .. } => event is Lookup,
        RemoteAction::SendDatagram(_) => event matches RemoteEvent::Message(
            RemoteStateMessage::SendDatagram(_),
        ),
        RemoteAction::ReplyRemoteInfo(_) => event matches RemoteEvent::Message(
            RemoteStateMessage::RemoteInfo,
        ),
        RemoteAction::InitiateRound(conn) => {
            &&& after.conns.contains_key(conn)
            &&& after.conns[conn].nat_traversal_authorized
            &&& around.conn(conn) matches Some(l) && l.is_client && l.remote_candidates is Some
        },
        RemoteAction::SetStatus { conn, id, status } => {
            ||| is_status(status, after.selected_path, after.conns[conn].paths[id])
            ||| brought(event) matches Some((c, i, path)) && c == conn && i == id && is_status(
                status,
                before.selected_path,
                path,
            )
        },
        RemoteAction::Count(metric) => match metric {
            Metric::ConnsOpened => event matches RemoteEvent::Message(
                RemoteStateMessage::AddConnection(_, _),
            ),
            Metric::ConnsClosed => event matches RemoteEvent::ConnectionClosed(conn)
                && before.conns.contains_key(conn),
            Metric::ConnsDirect => brought(event) matches Some((conn, id, path)) && path is Ip && (
            event is Message || !before.conns[conn].has_been_direct),
            Metric::PathsDirect => brought(event) matches Some((conn, id, path)) && path is Ip,
            Metric::PathsRelay => brought(event) matches Some((conn, id, path)) && path is Relay,
            Metric::PathsCustom => brought(event) matches Some((conn, id, path)) && path is Custom,
            Metric::HolepunchAttempts => true,
        },
    }
}

/// Whether all that was done on the way from a step to another has its cause.
pub open spec fn all_caused(
    s: RemoteStep,
    next: RemoteStep,
    event: RemoteEvent,
    known: Seq<Addr>,
    around: Surroundings,
    before: RemoteView,
    after: RemoteView,
) -> bool {
    &&& s.actions.is_prefix_of(next.actions)
    &&& forall|i: int|
        s.actions.len() <= i < next.actions.len() ==> has_cause(
            #[trigger] next.actions[i],
            event,
            known,
            around,
            before,
            after,
        )
}

/// Two steps one after the other.
proof fn both_caused(
    a: RemoteStep,
    b: RemoteStep,
    c: RemoteStep,
    event: RemoteEvent,
    known: Seq<Addr>,
    around: Surroundings,
    before: RemoteView,
    after: RemoteView,
)
    requires
        all_caused(a, b, event, known, around, before, after),
        all_caused(b, c, event, known, around, before, after),
    ensures
        all_caused(a, c, event, known, around, before, after),
{
    assert forall|i: int| a.actions.len() <= i < c.actions.len() implies has_cause(
        #[trigger] c.actions[i],
        event,
        known,
        around,
        before,
        after,
    ) by {
        if i < b.actions.len() {
            assert(c.actions[i] == b.actions[i]);
        }
    }
}

/// More actions that have their cause.
proof fn doing_caused(
    s: RemoteStep,
    actions: Seq<RemoteAction>,
    event: RemoteEvent,
    known: Seq<Addr>,
    around: Surroundings,
    before: RemoteView,
    after: RemoteView,
)
    requires
        forall|i: int|
            0 <= i < actions.len() ==> has_cause(
                #[trigger] actions[i],
                event,
                known,
                around,
                before,
                after,
            ),
    ensures
        all_caused(s, s.did_all(actions), event, known, around, before, after),
{
    let next = s.did_all(actions);
    assert forall|i: int| s.actions.len() <= i < next.actions.len() implies has_cause(
        #[trigger] next.actions[i],
        event,
        known,
        around,
        before,
        after,
    ) by {
        assert(next.actions[i] == actions[i - s.actions.len()]);
    }
}

/// What applies the selected path has its cause.
proof fn applying_caused(
    v: RemoteView,
    i: int,
    event: RemoteEvent,
    known: Seq<Addr>,
    around: Surroundings,
    before: RemoteView,
    after: RemoteView,
)
    requires
        0 <= i < v.apply(around).len(),
        after.selected_path == v.selected_path,
        forall|c: ConnId| #[trigger] after.conns[c].paths == v.conns[c].paths,
    ensures
        has_cause(v.apply(around)[i], event, known, around, before, after),
{
    let selected = v.selected_path->0;
    let f = |id: ConnId| v.apply_on(id, around, selected);
    let k = flat_comes_from(v.ids(), f, i);
    let conn = v.ids()[k];
    let l = around.conn(conn)->0;
    let here = f(conn);
    let ids = v.conns[conn].path_ids();
    let j = here.index_of(v.apply(around)[i]);
    assert(after.conns[conn].paths == v.conns[conn].paths);
    if v.is_managed(conn, around) {
        let opened = v.open_on(conn, l, selected);
        let g = |q: PathId| v.settle(conn, l, selected, q);
        if opened.len() <= j < opened.len() + flat(ids, g).len() {
            let m = flat_comes_from(ids, g, j - opened.len());
        }
    } else {
        let g = |q: PathId| v.set_status(conn, l, q);
        if j < flat(ids, g).len() {
            let m = flat_comes_from(ids, g, j);
        }
    }
}

/// A choice of the selector has its cause.
proof fn choosing_caused<S: PathSelector>(
    s: RemoteStep,
    selector: &S,
    next: RemoteStep,
    event: RemoteEvent,
    known: Seq<Addr>,
    around: Surroundings,
    before: RemoteView,
    after: RemoteView,
)
    requires
        s.may_become(selector, around, next),
        after.selected_path == next.state.selected_path,
        forall|c: ConnId| #[trigger] after.conns[c].paths == s.state.conns[c].paths,
    ensures
        all_caused(s, next, event, known, around, before, after),
        next.state.conns == s.state.conns,
{
    let chosen = choose|chosen: Option<FourTuple>|
        #[trigger] s.selects(selector, around, chosen) && next == s.select(chosen, around);
    let v = next.state;
    let mid = s.with(v);
    assert forall|i: int| 0 <= i < v.apply(around).len() implies has_cause(
        #[trigger] v.apply(around)[i],
        event,
        known,
        around,
        before,
        after,
    ) by {
        applying_caused(v, i, event, known, around, before, after);
    }
    doing_caused(mid, v.apply(around), event, known, around, before, after);
}

/// A round has its cause.
proof fn triggering_caused(
    s: RemoteStep,
    preferred: Option<ConnId>,
    event: RemoteEvent,
    known: Seq<Addr>,
    around: Surroundings,
    before: RemoteView,
    after: RemoteView,
)
    requires
        forall|c: ConnId|
            #![trigger after.conns.contains_key(c)]
            s.state.conns.contains_key(c) && s.state.conns[c].nat_traversal_authorized
                ==> after.conns.contains_key(c) && after.conns[c].nat_traversal_authorized,
    ensures
        ({
            let next = s.trigger(preferred, around);
            &&& all_caused(s, next, event, known, around, before, after)
            &&& next.state.selected_path == s.state.selected_path
            &&& forall|c: ConnId| #[trigger] next.state.conns[c].paths == s.state.conns[c].paths
            &&& forall|c: ConnId|
                #![trigger next.state.conns.contains_key(c)]
                next.state.conns.contains_key(c) == s.state.conns.contains_key(c)
                    && next.state.conns[c].nat_traversal_authorized
                    == s.state.conns[c].nat_traversal_authorized
        }),
{
    crate::remote_state::laws::only_ready_clients_holepunch(s.state, preferred, around);
    if let Some(id) = s.state.holepunch_conn(preferred, around) {
        assert(after.conns.contains_key(id));
    }
}

/// Rounds have their cause.
proof fn triggering_each_caused(
    s: RemoteStep,
    ids: Seq<ConnId>,
    event: RemoteEvent,
    known: Seq<Addr>,
    around: Surroundings,
    before: RemoteView,
    after: RemoteView,
)
    requires
        forall|c: ConnId|
            #![trigger after.conns.contains_key(c)]
            s.state.conns.contains_key(c) && s.state.conns[c].nat_traversal_authorized
                ==> after.conns.contains_key(c) && after.conns[c].nat_traversal_authorized,
    ensures
        ({
            let next = s.trigger_each(ids, around);
            &&& all_caused(s, next, event, known, around, before, after)
            &&& next.state.selected_path == s.state.selected_path
            &&& forall|c: ConnId|
                #![trigger next.state.conns.contains_key(c)]
                next.state.conns.contains_key(c) == s.state.conns.contains_key(c)
                    && next.state.conns[c].nat_traversal_authorized
                    == s.state.conns[c].nat_traversal_authorized
        }),
    decreases ids.len(),
{
    if ids.len() > 0 {
        let mid = s.trigger_each(ids.drop_last(), around);
        let next = mid.trigger(Some(ids.last()), around);
        triggering_each_caused(s, ids.drop_last(), event, known, around, before, after);
        assert forall|c: ConnId|
            #![trigger after.conns.contains_key(c)]
            mid.state.conns.contains_key(c)
                && mid.state.conns[c].nat_traversal_authorized implies after.conns.contains_key(c)
            && after.conns[c].nat_traversal_authorized by {
            assert(mid.state.conns.contains_key(c) == s.state.conns.contains_key(c));
        }
        triggering_caused(mid, Some(ids.last()), event, known, around, before, after);
        both_caused(s, mid, next, event, known, around, before, after);
        assert forall|c: ConnId|
            #![trigger next.state.conns.contains_key(c)]
            next.state.conns.contains_key(c) == s.state.conns.contains_key(c)
                && next.state.conns[c].nat_traversal_authorized
                == s.state.conns[c].nat_traversal_authorized by {
            assert(mid.state.conns.contains_key(c) == s.state.conns.contains_key(c));
        }
    }
}

/// Updates of candidates have their cause.
proof fn updating_caused(
    conn: ConnId,
    announced: Option<Vec<SocketAddr>>,
    i: int,
    event: RemoteEvent,
    known: Seq<Addr>,
    around: Surroundings,
    before: RemoteView,
    after: RemoteView,
)
    requires
        0 <= i < candidate_updates(conn, announced, around.local_addrs@).len(),
    ensures
        has_cause(
            candidate_updates(conn, announced, around.local_addrs@)[i],
            event,
            known,
            around,
            before,
            after,
        ),
{
    let direct = around.local_addrs@;
    let current = announced->0;
    let f = |addr: SocketAddr|
        if current@.contains(addr) {
            Seq::empty()
        } else {
            seq![RemoteAction::AddCandidate { conn, addr }]
        };
    let g = |addr: SocketAddr|
        if direct.contains(addr) {
            Seq::empty()
        } else {
            seq![RemoteAction::RemoveCandidate { conn, addr }]
        };
    let wanted = distinct(direct);
    distinct_addrs_are_the_same(direct);
    let added = flat(wanted, f);
    if i < added.len() {
        let k = flat_comes_from(wanted, f, i);
        assert(wanted.contains(wanted[k]));
    } else {
        let k = flat_comes_from(distinct(current@), g, i - added.len());
    }
}

/// What goes with a new path has its cause.
proof fn registering_caused(
    s: RemoteStep,
    conn: ConnId,
    id: PathId,
    path: FourTuple,
    event: RemoteEvent,
    known: Seq<Addr>,
    around: Surroundings,
    before: RemoteView,
    after: RemoteView,
)
    requires
        brought(event) == Some((conn, id, path)),
        s.state.selected_path == before.selected_path,
        event is Message || s.state.conns[conn].has_been_direct
            == before.conns[conn].has_been_direct,
    ensures
        all_caused(s, s.registered(conn, id, path), event, known, around, before, after),
{
    let all = s.state.register(conn, id, path);
    assert forall|i: int| 0 <= i < all.len() implies has_cause(
        #[trigger] all[i],
        event,
        known,
        around,
        before,
        after,
    ) by {
        let a = all[i];
        assert({
            ||| path is Ip && !s.state.conns[conn].has_been_direct && a == RemoteAction::Count(
                Metric::ConnsDirect,
            )
            ||| a == RemoteAction::Count(crate::remote_state::actor::path_metric(path))
            ||| a == RemoteAction::SetStatus { conn, id, status: s.state.status_for(path) }
            ||| a == RemoteAction::RecordOpened { conn, id, path }
            ||| path is Relay && a == RemoteAction::SetRelayIdleTimeout { conn, id }
            ||| a == RemoteAction::InsertOpenAddr(path.remote_addr())
            ||| a == RemoteAction::RecordSelected { conn, path }
        });
    }
    doing_caused(s, all, event, known, around, before, after);
}

/// What is done when a connection is added has its cause.
proof fn adding_caused<S: PathSelector>(
    s: RemoteStep,
    selector: &S,
    next: RemoteStep,
    conn: ConnId,
    path: Option<FourTuple>,
    known: Seq<Addr>,
    around: Surroundings,
)
    requires
        s.connection_added(conn, around.conn(conn)->0, path, known, around).may_become(
            selector,
            around,
            next,
        ),
    ensures
        all_caused(
            s,
            next,
            RemoteEvent::Message(RemoteStateMessage::AddConnection(conn, path)),
            known,
            around,
            s.state,
            next.state,
        ),
{
    let event = RemoteEvent::Message(RemoteStateMessage::AddConnection(conn, path));
    let l = around.conn(conn)->0;
    let before = s.state;
    let after = next.state;
    let hooked = s.hooked_up(conn, l, around);
    let mid = hooked.bootstrapped(conn, l, path, known);
    let added = s.connection_added(conn, l, path, known, around);
    let begun = s.did(RemoteAction::Count(Metric::ConnsOpened)).did(RemoteAction::Watch(conn));
    let updates = if s.state.deferred {
        Seq::empty()
    } else {
        candidate_updates(conn, l.local_candidates, around.local_addrs@)
    };
    assert(all_caused(s, begun, event, known, around, before, after));
    assert forall|i: int| 0 <= i < updates.len() implies has_cause(
        #[trigger] updates[i],
        event,
        known,
        around,
        before,
        after,
    ) by {
        updating_caused(conn, l.local_candidates, i, event, known, around, before, after);
    }
    doing_caused(begun, updates, event, known, around, before, after);
    assert(hooked.actions == begun.did_all(updates).actions);
    both_caused(s, begun, hooked, event, known, around, before, after);
    if let Some(path) = path {
        let registered = hooked.registered(conn, BOOTSTRAP_PATH, path);
        registering_caused(
            hooked,
            conn,
            BOOTSTRAP_PATH,
            path,
            event,
            known,
            around,
            before,
            after,
        );
        both_caused(s, hooked, registered, event, known, around, before, after);
        let v = registered.state;
        let all = v.open_relays(conn, l, known);
        let f = |addr: Addr|
            if addr is Relay {
                v.open_on(conn, l, FourTuple::to(addr))
            } else {
                Seq::empty()
            };
        assert forall|i: int| 0 <= i < all.len() implies has_cause(
            #[trigger] all[i],
            event,
            known,
            around,
            before,
            after,
        ) by {
            let k = flat_comes_from(known, f, i);
            assert(known.contains(known[k]));
            assert(FourTuple::to(known[k]) == FourTuple::to(known[k]));
        }
        doing_caused(registered, all, event, known, around, before, after);
        both_caused(s, registered, registered.did_all(all), event, known, around, before, after);
    }
    assert(all_caused(s, mid, event, known, around, before, after));
    triggering_caused(mid, None, event, known, around, before, mid.state);
    choosing_caused(added, selector, next, event, known, around, before, after);
    assert forall|c: ConnId|
        #![trigger after.conns.contains_key(c)]
        mid.state.conns.contains_key(c)
            && mid.state.conns[c].nat_traversal_authorized implies after.conns.contains_key(c)
        && after.conns[c].nat_traversal_authorized by {
        assert(added.state.conns.contains_key(c) == mid.state.conns.contains_key(c));
    }
    triggering_caused(mid, None, event, known, around, before, after);
    both_caused(s, mid, added, event, known, around, before, after);
    both_caused(s, added, next, event, known, around, before, after);
}

/// Whatever happens, all that is done about it has its cause.
pub proof fn every_action_has_its_cause<S: PathSelector>(
    s: RemoteStep,
    event: RemoteEvent,
    known: Seq<Addr>,
    selector: &S,
    around: Surroundings,
    next: RemoteStep,
)
    requires
        s.state.conns.dom().finite(),
        s.may_follow(event, known, selector, around, next),
    ensures
        all_caused(s, next, event, known, around, s.state, next.state),
{
    let before = s.state;
    let after = next.state;
    let v = s.state;
    match event {
        RemoteEvent::Message(msg) => match msg {
            RemoteStateMessage::SendDatagram(authority) => {
                let all = v.datagram_targets(authority, known, around.local_addrs@);
                assert forall|i: int| 0 <= i < all.len() implies has_cause(
                    #[trigger] all[i],
                    event,
                    known,
                    around,
                    before,
                    after,
                ) by {
                    crate::remote_state::laws::datagrams_go_where_permitted(
                        v,
                        authority,
                        known,
                        around.local_addrs@,
                        i,
                    );
                }
                doing_caused(s, all, event, known, around, before, after);
            },
            RemoteStateMessage::AddConnection(conn, path) => {
                adding_caused(s, selector, next, conn, path, known, around);
            },
            RemoteStateMessage::AuthorizeNatTraversal(conn) => {
                if v.needs_authorization(conn, around) {
                    let l = around.conn(conn)->0;
                    let start = s.authorized(conn, l, around);
                    let begun = s.did(RemoteAction::Authorize(conn));
                    let updates = candidate_updates(conn, l.local_candidates, around.local_addrs@);
                    assert(all_caused(s, begun, event, known, around, before, after));
                    assert forall|i: int| 0 <= i < updates.len() implies has_cause(
                        #[trigger] updates[i],
                        event,
                        known,
                        around,
                        before,
                        after,
                    ) by {
                        updating_caused(
                            conn,
                            l.local_candidates,
                            i,
                            event,
                            known,
                            around,
                            before,
                            after,
                        );
                    }
                    doing_caused(begun, updates, event, known, around, before, after);
                    assert(start.actions == begun.did_all(updates).actions);
                    both_caused(s, begun, start, event, known, around, before, after);
                    choosing_and_triggering_caused(start, selector, conn, next, event, known, around, before);
                    both_caused(s, start, next, event, known, around, before, after);
                }
            },
            RemoteStateMessage::ResolveRemote(addrs) => {
                let all = insert_all(v.endpoint_id, addrs@, Source::App);
                doing_caused(s, all, event, known, around, before, after);
                assert(all_caused(s.did_all(all), next, event, known, around, before, after));
                both_caused(s, s.did_all(all), next, event, known, around, before, after);
            },
            RemoteStateMessage::RemoteInfo => {},
            RemoteStateMessage::NetworkChange { is_major } => {
                let all = v.ping_all(around);
                assert forall|i: int| 0 <= i < all.len() implies has_cause(
                    #[trigger] all[i],
                    event,
                    known,
                    around,
                    before,
                    after,
                ) by {
                    pings_only(v, around, i);
                }
                doing_caused(s, all, event, known, around, before, after);
                if is_major {
                    let pinged = s.did_all(all);
                    triggering_all_caused(pinged, event, known, around, before);
                    both_caused(s, pinged, next, event, known, around, before, after);
                }
            },
        },
        RemoteEvent::Path(conn, happened) => {
            if let Some(mid) = s.path_event(conn, happened, around) {
                choosing_caused(mid, selector, next, event, known, around, before, next.state);
                if let ConnPathEvent::Established(id, Some(path)) = happened {
                    registering_caused(
                        s,
                        conn,
                        id,
                        path,
                        event,
                        known,
                        around,
                        before,
                        after,
                    );
                }
                assert(all_caused(s, mid, event, known, around, before, after));
                both_caused(s, mid, next, event, known, around, before, after);
            }
        },
        RemoteEvent::CandidatesAnnounced(conn) => {
            if let Some(mid) = s.candidates_announced(conn, around) {
                choosing_and_triggering_caused(mid, selector, conn, next, event, known, around, before);
                assert(all_caused(s, mid, event, known, around, before, after));
                both_caused(s, mid, next, event, known, around, before, after);
            }
        },
        RemoteEvent::LocalAddrsChanged => {
            let all = v.announce_on_all(around);
            let f = |id: ConnId|
                match around.conn(id) {
                    Some(l) if v.conns[id].nat_traversal_authorized => candidate_updates(
                        id,
                        l.local_candidates,
                        around.local_addrs@,
                    ),
                    _ => Seq::empty(),
                };
            assert forall|i: int| 0 <= i < all.len() implies has_cause(
                #[trigger] all[i],
                event,
                known,
                around,
                before,
                after,
            ) by {
                let k = flat_comes_from(v.ids(), f, i);
                let conn = v.ids()[k];
                let l = around.conn(conn)->0;
                let j = f(conn).index_of(all[i]);
                updating_caused(
                    conn,
                    l.local_candidates,
                    j,
                    event,
                    known,
                    around,
                    before,
                    after,
                );
            }
            doing_caused(s, all, event, known, around, before, after);
            let mid = s.did_all(all);
            triggering_all_caused(mid, event, known, around, before);
            both_caused(s, mid, next, event, known, around, before, after);
        },
        RemoteEvent::OpenPathsDue => {
            let g = |path: FourTuple| v.open_on_all(path, around);
            let waiting = v.pending_open_paths;
            let all = flat(waiting, g);
            assert forall|i: int| 0 <= i < all.len() implies has_cause(
                #[trigger] all[i],
                event,
                known,
                around,
                before,
                after,
            ) by {
                let k = flat_comes_from(waiting, g, i);
                let path = waiting[k];
                assert(waiting.contains(path));
                let j = g(path).index_of(all[i]);
                let f = |id: ConnId|
                    if v.is_managed(id, around) {
                        v.open_on(id, around.conn(id)->0, path)
                    } else {
                        Seq::empty()
                    };
                let m = flat_comes_from(v.ids(), f, j);
            }
            doing_caused(s.with(after), all, event, known, around, before, after);
        },
        RemoteEvent::HolepunchDue(conn) => {
            let cleared = s.with(
                match conn {
                    Some(id) => if v.conns.contains_key(id) {
                        v.with_conn(id, ConnView { scheduled_holepunch: None, ..v.conns[id] })
                    } else {
                        v
                    },
                    None => RemoteView { scheduled_holepunch: None, ..v },
                },
            );
            triggering_itself_caused(cleared, conn, event, known, around, before);
            assert(next == cleared.trigger(conn, around));
        },
        RemoteEvent::CheckDue => {
            triggering_all_caused(s, event, known, around, before);
        },
        RemoteEvent::Lookup(item) => {
            if let LookupResult::Found(found) = item {
                let all = insert_all(
                    v.endpoint_id,
                    found.addrs@,
                    Source::AddressLookup { name: found.provenance },
                );
                if found.endpoint_id == v.endpoint_id {
                    doing_caused(s, all, event, known, around, before, after);
                }
            }
        },
        _ => {},
    }
}

/// What pings the paths does nothing else.
proof fn pings_only(v: RemoteView, around: Surroundings, i: int)
    requires
        0 <= i < v.ping_all(around).len(),
    ensures
        v.ping_all(around)[i] is Ping,
{
    let f = |id: ConnId| v.ping_on(id, around);
    let k = flat_comes_from(v.ids(), f, i);
    let conn = v.ids()[k];
    let l = around.conn(conn)->0;
    let g = |id: PathId|
        if l.knows(id) {
            seq![RemoteAction::Ping { conn, id }]
        } else {
            Seq::empty()
        };
    let j = f(conn).index_of(v.ping_all(around)[i]);
    let m = flat_comes_from(v.conns[conn].path_ids(), g, j);
}

/// A round has its cause in the state that it leads to.
proof fn triggering_itself_caused(
    s: RemoteStep,
    preferred: Option<ConnId>,
    event: RemoteEvent,
    known: Seq<Addr>,
    around: Surroundings,
    before: RemoteView,
)
    ensures
        all_caused(
            s,
            s.trigger(preferred, around),
            event,
            known,
            around,
            before,
            s.trigger(preferred, around).state,
        ),
        s.trigger(preferred, around).state.selected_path == s.state.selected_path,
        forall|c: ConnId| #[trigger]
            s.trigger(preferred, around).state.conns[c].paths == s.state.conns[c].paths,
{
    let after = s.trigger(preferred, around).state;
    triggering_caused(s, preferred, event, known, around, before, s.state);
    assert forall|c: ConnId|
        #![trigger after.conns.contains_key(c)]
        s.state.conns.contains_key(c)
            && s.state.conns[c].nat_traversal_authorized implies after.conns.contains_key(c)
        && after.conns[c].nat_traversal_authorized by {}
    triggering_caused(s, preferred, event, known, around, before, after);
}

/// Rounds at large have their cause in the state that they lead to.
proof fn triggering_all_caused(
    s: RemoteStep,
    event: RemoteEvent,
    known: Seq<Addr>,
    around: Surroundings,
    before: RemoteView,
)
    ensures
        all_caused(
            s,
            s.trigger_all(around),
            event,
            known,
            around,
            before,
            s.trigger_all(around).state,
        ),
{
    if s.state.deferred {
        let ids = s.state.ready_clients(around);
        let after = s.trigger_each(ids, around).state;
        triggering_each_caused(s, ids, event, known, around, before, s.state);
        assert forall|c: ConnId|
            #![trigger after.conns.contains_key(c)]
            s.state.conns.contains_key(c)
                && s.state.conns[c].nat_traversal_authorized implies after.conns.contains_key(c)
            && after.conns[c].nat_traversal_authorized by {
            let next = s.trigger_each(ids, around);
            assert(next.state.conns.contains_key(c) == s.state.conns.contains_key(c));
        }
        triggering_each_caused(s, ids, event, known, around, before, after);
    } else {
        triggering_itself_caused(s, None, event, known, around, before);
    }
}

/// A choice of the selector and a round after it have their cause.
proof fn choosing_and_triggering_caused<S: PathSelector>(
    s: RemoteStep,
    selector: &S,
    conn: ConnId,
    next: RemoteStep,
    event: RemoteEvent,
    known: Seq<Addr>,
    around: Surroundings,
    before: RemoteView,
)
    requires
        s.may_become_and_trigger(selector, around, conn, next),
    ensures
        all_caused(s, next, event, known, around, before, next.state),
{
    let mid = choose|mid: RemoteStep|
        #[trigger] s.may_become(selector, around, mid) && next == mid.trigger(Some(conn), around);
    triggering_itself_caused(mid, Some(conn), event, known, around, before);
    choosing_caused(s, selector, mid, event, known, around, before, mid.state);
    assert forall|c: ConnId| #[trigger]
        next.state.conns[c].paths == s.state.conns[c].paths by {
        assert(next.state.conns[c].paths == mid.state.conns[c].paths);
    }
    choosing_caused(s, selector, mid, event, known, around, before, next.state);
    both_caused(s, mid, next, event, known, around, before, next.state);
}

} // verus!
