//! What holds of a connection until the application authorizes NAT traversal
//! on it, and until its peer does.

use crate::remote_state::actor::{
    candidate_updates, Metric, RemoteAction, RemoteStep, RemoteView, Source,
};
use crate::remote_state::connection::{
    ConnId, ConnView, PathId, Surroundings, BOOTSTRAP_PATH,
};
use crate::remote_state::events::{ConnPathEvent, OpenPathError};
use crate::flat::{flat, flat_comes_from};
use crate::remote_state::holepunch::RoundResult;
use crate::remote_state::laws::{
    datagrams_go_where_permitted, manages, only_ready_clients_holepunch,
    paths_wait_for_the_peer, takes_part, unauthorized_connections_are_left_alone, update_concerns,
};
use crate::remote_state::lookup::{insert_all, LookupResult};
use crate::remote_state::paths::{Addr, FourTuple};
use crate::remote_state::run::{RemoteEvent, RemoteStateMessage};
use crate::remote_state::selection::PathSelector;
use crate::addr::SocketAddr;
use crate::time::Instant;
use vstd::prelude::*;

verus! {

/// What is held back on a connection.
pub enum Hold {
    /// Anything that manages the connection: the application has not
    /// authorized NAT traversal on it.
    Everything,
    /// The opening and closing of paths: where authorization is called for,
    /// the peer has not announced any candidate yet.
    Paths,
}

/// Whether an action does what is held back on a connection.
pub open spec fn touches(action: RemoteAction, conn: ConnId, hold: Hold) -> bool {
    &&& manages(action) == Some(conn)
    &&& hold is Paths ==> action is OpenPath || action is ClosePath
}

/// Whether something is held back on a connection, be it there or not.
pub open spec fn is_held(v: RemoteView, conn: ConnId, hold: Hold) -> bool {
    match hold {
        Hold::Everything => !takes_part(v, conn),
        Hold::Paths => v.deferred && !(v.conns.contains_key(conn)
            && v.conns[conn].peer_candidates_observed),
    }
}

/// Whether an event may end that something is held back on a connection. It
/// is authorized, or added where authorization is not called for; or its peer
/// announces candidates.
pub open spec fn may_release(v: RemoteView, event: RemoteEvent, conn: ConnId, hold: Hold) -> bool {
    match hold {
        Hold::Everything => match event {
            RemoteEvent::Message(RemoteStateMessage::AuthorizeNatTraversal(id)) => id == conn,
            RemoteEvent::Message(RemoteStateMessage::AddConnection(id, _)) => id == conn
                && !v.deferred,
            _ => false,
        },
        Hold::Paths => event == RemoteEvent::CandidatesAnnounced(conn),
    }
}

/// Whether a step led to another one by actions none of which does what is
/// held back on a connection, and it is still held back afterwards.
pub open spec fn spares(s: RemoteStep, next: RemoteStep, conn: ConnId, hold: Hold) -> bool {
    &&& s.actions.is_prefix_of(next.actions)
    &&& forall|i: int|
        s.actions.len() <= i < next.actions.len() ==> !touches(
            #[trigger] next.actions[i],
            conn,
            hold,
        )
    &&& is_held(next.state, conn, hold)
}

/// Two steps one after the other.
proof fn both_spare(a: RemoteStep, b: RemoteStep, c: RemoteStep, conn: ConnId, hold: Hold)
    requires
        spares(a, b, conn, hold),
        spares(b, c, conn, hold),
    ensures
        spares(a, c, conn, hold),
{
    assert forall|i: int| a.actions.len() <= i < c.actions.len() implies !touches(
        #[trigger] c.actions[i],
        conn,
        hold,
    ) by {
        if i < b.actions.len() {
            assert(c.actions[i] == b.actions[i]);
        }
    }
}

/// Actions of which none does what is held back.
proof fn doing_spares(s: RemoteStep, actions: Seq<RemoteAction>, conn: ConnId, hold: Hold)
    requires
        is_held(s.state, conn, hold),
        forall|i: int|
            0 <= i < actions.len() ==> !touches(#[trigger] actions[i], conn, hold),
    ensures
        spares(s, s.did_all(actions), conn, hold),
{
    let next = s.did_all(actions);
    assert forall|i: int| s.actions.len() <= i < next.actions.len() implies !touches(
        #[trigger] next.actions[i],
        conn,
        hold,
    ) by {
        assert(next.actions[i] == actions[i - s.actions.len()]);
    }
}

/// A selection does not do what is held back.
proof fn selecting_spares(
    s: RemoteStep,
    chosen: Option<FourTuple>,
    around: Surroundings,
    conn: ConnId,
    hold: Hold,
)
    requires
        s.state.conns.dom().finite(),
        is_held(s.state, conn, hold),
    ensures
        spares(s, s.select(chosen, around), conn, hold),
        s.select(chosen, around).state.conns == s.state.conns,
{
    let path = if chosen is Some {
        chosen
    } else {
        s.state.selected_path
    };
    let selected = s.with(RemoteView { selected_path: path, ..s.state });
    let v = selected.state;
    assert forall|i: int| 0 <= i < v.apply(around).len() implies !touches(
        #[trigger] v.apply(around)[i],
        conn,
        hold,
    ) by {
        unauthorized_connections_are_left_alone(v, v.selected_path->0, around, i);
        paths_wait_for_the_peer(v, v.selected_path->0, around, i);
    }
    doing_spares(selected, v.apply(around), conn, hold);
}

/// Whatever the selector chooses, what is held back is not done.
proof fn becoming_spares<S: PathSelector>(
    s: RemoteStep,
    selector: &S,
    around: Surroundings,
    next: RemoteStep,
    conn: ConnId,
    hold: Hold,
)
    requires
        s.state.conns.dom().finite(),
        is_held(s.state, conn, hold),
        s.may_become(selector, around, next),
    ensures
        spares(s, next, conn, hold),
        next.state.conns == s.state.conns,
{
    let chosen = choose|chosen: Option<FourTuple>|
        #[trigger] s.selects(selector, around, chosen) && next == s.select(chosen, around);
    selecting_spares(s, chosen, around, conn, hold);
}

/// Holepunching does not do what is held back.
proof fn triggering_spares(
    s: RemoteStep,
    preferred: Option<ConnId>,
    around: Surroundings,
    conn: ConnId,
    hold: Hold,
)
    requires
        is_held(s.state, conn, hold),
    ensures
        spares(s, s.trigger(preferred, around), conn, hold),
{
    only_ready_clients_holepunch(s.state, preferred, around);
}

/// Holepunching on one connection after the other does not do what is held
/// back.
proof fn triggering_each_spares(
    s: RemoteStep,
    ids: Seq<ConnId>,
    around: Surroundings,
    conn: ConnId,
    hold: Hold,
)
    requires
        is_held(s.state, conn, hold),
    ensures
        spares(s, s.trigger_each(ids, around), conn, hold),
    decreases ids.len(),
{
    if ids.len() > 0 {
        let mid = s.trigger_each(ids.drop_last(), around);
        triggering_each_spares(s, ids.drop_last(), around, conn, hold);
        triggering_spares(mid, Some(ids.last()), around, conn, hold);
        both_spare(s, mid, mid.trigger(Some(ids.last()), around), conn, hold);
    }
}

/// Holepunching on all connections that can does not do what is held back.
proof fn triggering_all_spares(s: RemoteStep, around: Surroundings, conn: ConnId, hold: Hold)
    requires
        is_held(s.state, conn, hold),
    ensures
        spares(s, s.trigger_all(around), conn, hold),
{
    triggering_each_spares(s, s.state.ready_clients(around), around, conn, hold);
    triggering_spares(s, None, around, conn, hold);
}

/// A selection with holepunching on one connection does not do what is held
/// back.
proof fn becoming_and_triggering_spares<S: PathSelector>(
    s: RemoteStep,
    selector: &S,
    around: Surroundings,
    id: ConnId,
    next: RemoteStep,
    conn: ConnId,
    hold: Hold,
)
    requires
        s.state.conns.dom().finite(),
        is_held(s.state, conn, hold),
        s.may_become_and_trigger(selector, around, id, next),
    ensures
        spares(s, next, conn, hold),
{
    let mid = choose|mid: RemoteStep|
        #[trigger] s.may_become(selector, around, mid) && next == mid.trigger(Some(id), around);
    becoming_spares(s, selector, around, mid, conn, hold);
    triggering_spares(mid, Some(id), around, conn, hold);
    both_spare(s, mid, next, conn, hold);
}

/// A connection that is added releases no other one, and itself only where
/// authorization is not called for.
proof fn adding_spares(
    s: RemoteStep,
    id: ConnId,
    path: Option<FourTuple>,
    known: Seq<Addr>,
    around: Surroundings,
    conn: ConnId,
    hold: Hold,
)
    requires
        is_held(s.state, conn, hold),
        id == conn ==> s.state.deferred,
    ensures
        spares(s, s.connection_added(id, around.conn(id)->0, path, known, around), conn, hold),
{
    let l = around.conn(id)->0;
    let updates = if s.state.deferred {
        Seq::empty()
    } else {
        candidate_updates(id, l.local_candidates, around.local_addrs@)
    };
    updates_spare(id, l.local_candidates, around.local_addrs@, conn, hold);
    let hooked = s.hooked_up(id, l, around);
    let begun = s.with(hooked.state).did(
        RemoteAction::Count(Metric::ConnsOpened),
    ).did(RemoteAction::Watch(id));
    doing_spares(begun, updates, conn, hold);
    assert(spares(s, begun, conn, hold));
    both_spare(s, begun, hooked, conn, hold);
    let next = hooked.bootstrapped(id, l, path, known);
    if path is Some {
        let registered = hooked.registered(id, BOOTSTRAP_PATH, path->0);
        registering_spares(hooked, id, BOOTSTRAP_PATH, path->0, conn, hold);
        both_spare(s, hooked, registered, conn, hold);
        if !(path->0 is Relay) && hooked.state.conns[id].nat_traversal_authorized {
            let v = registered.state;
            let relays = v.open_relays(id, l, known);
            let f = |addr: Addr|
                if addr is Relay {
                    v.open_on(id, l, FourTuple::to(addr))
                } else {
                    Seq::empty()
                };
            assert forall|i: int| 0 <= i < relays.len() implies !touches(
                #[trigger] relays[i],
                conn,
                hold,
            ) by {
                let k = flat_comes_from(known, f, i);
            }
            doing_spares(registered, relays, conn, hold);
            both_spare(s, registered, next, conn, hold);
        }
    }
    if !s.state.deferred {
        triggering_spares(next, None, around, conn, hold);
        both_spare(s, next, next.trigger(None, around), conn, hold);
    }
}

/// The candidates of a connection concern no other one, and no path.
proof fn updates_spare(
    id: ConnId,
    announced: Option<Vec<SocketAddr>>,
    direct: Seq<SocketAddr>,
    conn: ConnId,
    hold: Hold,
)
    ensures
        id != conn || hold is Paths ==> forall|i: int|
            0 <= i < candidate_updates(id, announced, direct).len() ==> !touches(
                #[trigger] candidate_updates(id, announced, direct)[i],
                conn,
                hold,
            ),
{
    assert forall|i: int| 0 <= i < candidate_updates(id, announced, direct).len() implies ({
        let update = #[trigger] candidate_updates(id, announced, direct)[i];
        manages(update) == Some(id) && !(update is OpenPath) && !(update is ClosePath)
    }) by {
        update_concerns(id, announced, direct, i);
    }
}

/// A path is marked only on a connection that takes part in NAT traversal.
proof fn registering_spares(
    s: RemoteStep,
    id: ConnId,
    p: PathId,
    path: FourTuple,
    conn: ConnId,
    hold: Hold,
)
    requires
        is_held(s.state, conn, hold),
        s.state.conns.contains_key(id),
    ensures
        spares(s, s.registered(id, p, path), conn, hold),
{
    let all = s.state.register(id, p, path);
    assert forall|i: int| 0 <= i < all.len() implies !touches(
        #[trigger] all[i],
        conn,
        hold,
    ) by {}
    doing_spares(s, all, conn, hold);
}

/// Messages do not touch what is held back.
proof fn messages_spare<S: PathSelector>(
    s: RemoteStep,
    msg: RemoteStateMessage,
    known: Seq<Addr>,
    selector: &S,
    around: Surroundings,
    next: RemoteStep,
    conn: ConnId,
    hold: Hold,
)
    requires
        s.state.conns.dom().finite(),
        s.may_follow_message(msg, known, selector, around, next),
        is_held(s.state, conn, hold),
        !may_release(s.state, RemoteEvent::Message(msg), conn, hold),
    ensures
        spares(s, next, conn, hold),
{
    let v = s.state;
    match msg {
        RemoteStateMessage::SendDatagram(authority) => {
            let all = v.datagram_targets(authority, known, around.local_addrs@);
            assert forall|i: int| 0 <= i < all.len() implies !touches(
                #[trigger] all[i],
                conn,
                hold,
            ) by {
                datagrams_go_where_permitted(v, authority, known, around.local_addrs@, i);
            }
            doing_spares(s, all, conn, hold);
        },
        RemoteStateMessage::AddConnection(id, path) => {
            adding_spares(s, id, path, known, around, conn, hold);
            let added = s.connection_added(id, around.conn(id)->0, path, known, around);
            becoming_spares(added, selector, around, next, conn, hold);
            both_spare(s, added, next, conn, hold);
        },
        RemoteStateMessage::AuthorizeNatTraversal(id) => {
            if v.needs_authorization(id, around) {
                let l = around.conn(id)->0;
                let authorized = s.authorized(id, l, around);
                let begun = s.with(authorized.state).did(RemoteAction::Authorize(id));
                updates_spare(id, l.local_candidates, around.local_addrs@, conn, hold);
                doing_spares(
                    begun,
                    candidate_updates(id, l.local_candidates, around.local_addrs@),
                    conn,
                    hold,
                );
                assert(spares(s, begun, conn, hold));
                both_spare(s, begun, authorized, conn, hold);
                becoming_and_triggering_spares(authorized, selector, around, id, next, conn, hold);
                both_spare(s, authorized, next, conn, hold);
            }
        },
        RemoteStateMessage::ResolveRemote(addrs) => {
            let all = insert_all(v.endpoint_id, addrs@, Source::App);
            doing_spares(s, all, conn, hold);
            assert(spares(s, s.did_all(all), conn, hold));
            both_spare(s, s.did_all(all), next, conn, hold);
        },
        RemoteStateMessage::RemoteInfo => {},
        RemoteStateMessage::NetworkChange { is_major } => {
            let all = v.ping_all(around);
            assert forall|i: int| 0 <= i < all.len() implies !touches(
                #[trigger] all[i],
                conn,
                hold,
            ) by {
                unauthorized_connections_are_left_alone(v, v.selected_path->0, around, i);
                paths_wait_for_the_peer(v, v.selected_path->0, around, i);
            }
            doing_spares(s, all, conn, hold);
            let pinged = s.did_all(all);
            triggering_all_spares(pinged, around, conn, hold);
            both_spare(s, pinged, pinged.trigger_all(around), conn, hold);
        },
    }
}

/// What is held back on a connection is not done, whatever happens but what
/// releases it, and stays held back.
///
/// Until NAT traversal is authorized for a connection, nothing is done that
/// manages it. Where authorization is called for, no path is opened or closed
/// on it until its peer has announced candidates.
pub proof fn steps_do_not_touch_what_is_held<S: PathSelector>(
    s: RemoteStep,
    event: RemoteEvent,
    known: Seq<Addr>,
    selector: &S,
    around: Surroundings,
    next: RemoteStep,
    conn: ConnId,
    hold: Hold,
)
    requires
        s.state.conns.dom().finite(),
        s.may_follow(event, known, selector, around, next),
        is_held(s.state, conn, hold),
        !may_release(s.state, event, conn, hold),
    ensures
        spares(s, next, conn, hold),
{
    let v = s.state;
    match event {
        RemoteEvent::Message(msg) => {
            messages_spare(s, msg, known, selector, around, next, conn, hold);
        },
        RemoteEvent::Path(id, event) => {
            if let Some(mid) = s.path_event(id, event, around) {
                if let ConnPathEvent::Established(p, Some(path)) = event {
                    registering_spares(s, id, p, path, conn, hold);
                }
                assert(spares(s, mid, conn, hold));
                becoming_spares(mid, selector, around, next, conn, hold);
                both_spare(s, mid, next, conn, hold);
            }
        },
        RemoteEvent::CandidatesAnnounced(id) => {
            if let Some(mid) = s.candidates_announced(id, around) {
                assert(spares(s, mid, conn, hold));
                becoming_and_triggering_spares(mid, selector, around, id, next, conn, hold);
                both_spare(s, mid, next, conn, hold);
            }
        },
        RemoteEvent::LocalAddrsChanged => {
            let all = v.announce_on_all(around);
            assert forall|i: int| 0 <= i < all.len() implies !touches(
                #[trigger] all[i],
                conn,
                hold,
            ) by {
                unauthorized_connections_are_left_alone(v, v.selected_path->0, around, i);
                paths_wait_for_the_peer(v, v.selected_path->0, around, i);
            }
            doing_spares(s, all, conn, hold);
            let announced = s.did_all(all);
            triggering_all_spares(announced, around, conn, hold);
            both_spare(s, announced, next, conn, hold);
        },
        RemoteEvent::OpenPathsDue => {
            let f = |path: FourTuple| v.open_on_all(path, around);
            let all = flat(v.pending_open_paths, f);
            assert forall|i: int| 0 <= i < all.len() implies !touches(
                #[trigger] all[i],
                conn,
                hold,
            ) by {
                let k = flat_comes_from(v.pending_open_paths, f, i);
                let path = v.pending_open_paths[k];
                let j = v.open_on_all(path, around).index_of(all[i]);
                unauthorized_connections_are_left_alone(v, path, around, j);
                paths_wait_for_the_peer(v, path, around, j);
            }
            doing_spares(
                s.with(
                    RemoteView {
                        scheduled_open_path: None,
                        pending_open_paths: Seq::empty(),
                        ..v
                    },
                ),
                all,
                conn,
                hold,
            );
        },
        RemoteEvent::HolepunchDue(id) => {
            let cleared = s.with(
                match id {
                    Some(id) => if v.conns.contains_key(id) {
                        v.with_conn(id, ConnView { scheduled_holepunch: None, ..v.conns[id] })
                    } else {
                        v
                    },
                    None => RemoteView { scheduled_holepunch: None, ..v },
                },
            );
            assert(spares(s, cleared, conn, hold));
            triggering_spares(cleared, id, around, conn, hold);
            both_spare(s, cleared, next, conn, hold);
        },
        RemoteEvent::Lookup(item) => {
            if let LookupResult::Found(found) = item {
                let all = insert_all(
                    v.endpoint_id,
                    found.addrs@,
                    Source::AddressLookup { name: found.provenance },
                );
                doing_spares(s, all, conn, hold);
            }
        },
        RemoteEvent::CheckDue => {
            triggering_all_spares(s, around, conn, hold);
        },
        _ => {},
    }
}

/// What came of a round of NAT traversal or of an attempt to open a path
/// releases no connection.
pub proof fn results_release_no_connection(
    v: RemoteView,
    id: ConnId,
    round: RoundResult,
    now: Instant,
    local: Seq<SocketAddr>,
    path: FourTuple,
    error: OpenPathError,
    conn: ConnId,
    hold: Hold,
)
    requires
        is_held(v, conn, hold),
    ensures
        is_held(v.after_round(id, round, now, local), conn, hold),
        is_held(v.open_failed(path, error, now), conn, hold),
{
}

} // verus!
