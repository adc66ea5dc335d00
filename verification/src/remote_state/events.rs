//! What happens to connections and their paths.

use crate::addr::EndpointId;
use crate::remote_state::actor::{
    at, candidate_updates, path_metric, Metric, RemoteAction, RemoteStateActor, RemoteStep,
    RemoteView, State, OPEN_PATH_RETRY,
};
use crate::remote_state::connection::{
    ConnId, ConnView, ConnectionState, LiveConn, PathId, Surroundings, BOOTSTRAP_PATH,
};
use crate::flat::{flat, flat_step};
use crate::remote_state::fx_map::{empty_map, fx_get, fx_insert, fx_remove, lists};
use crate::remote_state::holepunch::update_qnt_candidates;
use crate::remote_state::paths::{enqueued, Addr, FourTuple, PendingOpenPaths};
use crate::remote_state::selection::PathSelector;
use crate::time::Instant;
use vstd::prelude::*;

verus! {

/// Something that happened to a path of a connection.
#[derive(Debug, Clone, Copy, PartialEq, Eq, Structural)]
pub enum ConnPathEvent {
    /// A path was established that the connection no longer knows.
    EstablishedUnknown(PathId),
    /// A path was established. It comes without a network path if that is not
    /// known.
    Established(PathId, Option<FourTuple>),
    /// A path was abandoned.
    Abandoned(PathId),
    /// What was kept of an abandoned path was discarded.
    Discarded(PathId),
    /// Anything else.
    Other,
    /// Events were missed.
    Lagged,
}

impl ConnPathEvent {
    /// The path that was established, abandoned or discarded.
    pub open spec fn path(self) -> Option<PathId> {
        match self {
            ConnPathEvent::EstablishedUnknown(id) => Some(id),
            ConnPathEvent::Established(id, _) => Some(id),
            ConnPathEvent::Abandoned(id) => Some(id),
            ConnPathEvent::Discarded(id) => Some(id),
            ConnPathEvent::Other => None,
            ConnPathEvent::Lagged => None,
        }
    }

    /// Returns the path that was established, abandoned or discarded.
    fn path_id(&self) -> (r: Option<PathId>)
        ensures
            r == self.path(),
    {
        match *self {
            ConnPathEvent::EstablishedUnknown(id) => Some(id),
            ConnPathEvent::Established(id, _) => Some(id),
            ConnPathEvent::Abandoned(id) => Some(id),
            ConnPathEvent::Discarded(id) => Some(id),
            ConnPathEvent::Other => None,
            ConnPathEvent::Lagged => None,
        }
    }
}

/// What the inbox of the actor looks like.
#[derive(Debug, Clone, Copy, PartialEq, Eq, Structural)]
pub struct InboxState {
    /// Whether no message waits.
    pub is_empty: bool,
    /// Whether anyone can send messages besides the map of remote endpoints.
    pub has_other_senders: bool,
}

/// Why a path could not be opened.
#[derive(Debug, Clone, Copy, PartialEq, Eq, Structural)]
pub enum OpenPathError {
    /// The remote has not issued enough connection identifiers.
    RemoteCidsExhausted,
    /// The remote permits no further path yet.
    MaxPathIdReached,
    /// Anything else.
    Failed,
}

impl RemoteView {
    /// The state of an actor without connections.
    pub open spec fn initial(endpoint_id: EndpointId, deferred: bool) -> RemoteView {
        RemoteView {
            endpoint_id,
            deferred,
            conns: Map::empty(),
            last_holepunch: None,
            selected_path: None,
            scheduled_holepunch: None,
            scheduled_open_path: None,
            pending_open_paths: Seq::empty(),
            lookup_running: false,
        }
    }

    /// The state after a path of a connection was registered.
    pub open spec fn with_path(self, conn: ConnId, id: PathId, path: FourTuple) -> RemoteView {
        let c = self.conns[conn];
        self.with_conn(
            conn,
            ConnView {
                paths: c.paths.insert(id, path),
                has_been_direct: c.has_been_direct || path is Ip,
                ..c
            },
        )
    }

    /// What registers and configures a path of a connection. The path of a
    /// connection without authorization gets no status; if the connection was
    /// established over it, it is made known as the selected one, which it is.
    pub open spec fn register(self, conn: ConnId, id: PathId, path: FourTuple) -> Seq<
        RemoteAction,
    > {
        let c = self.conns[conn];
        seq![RemoteAction::Count(path_metric(path))] + if path is Ip && !c.has_been_direct {
            seq![RemoteAction::Count(Metric::ConnsDirect)]
        } else {
            Seq::empty()
        } + seq![RemoteAction::RecordOpened { conn, id, path }] + if path is Relay {
            seq![RemoteAction::SetRelayIdleTimeout { conn, id }]
        } else {
            Seq::empty()
        } + if c.nat_traversal_authorized {
            seq![RemoteAction::SetStatus { conn, id, status: self.status_for(path) }]
        } else {
            Seq::empty()
        } + seq![RemoteAction::InsertOpenAddr(path.remote_addr())] + if !c.nat_traversal_authorized
            && id == BOOTSTRAP_PATH {
            seq![RemoteAction::RecordSelected { conn, path }]
        } else {
            Seq::empty()
        }
    }

    /// What opens paths via the known relays on a connection.
    pub open spec fn open_relays(self, conn: ConnId, l: LiveConn, known: Seq<Addr>) -> Seq<
        RemoteAction,
    > {
        flat(
            known,
            |addr: Addr|
                if addr is Relay {
                    self.open_on(conn, l, FourTuple::to(addr))
                } else {
                    Seq::empty()
                },
        )
    }

    /// Whether some connection takes part in NAT traversal.
    pub open spec fn any_authorized(self) -> bool {
        exists|id: ConnId| #[trigger]
            self.conns.contains_key(id) && self.conns[id].nat_traversal_authorized
    }

    /// Whether some connection has a path to an address.
    pub open spec fn reaches(self, addr: Addr) -> bool {
        exists|conn: ConnId, id: PathId|
            self.conns.contains_key(conn) && #[trigger] self.conns[conn].paths.contains_key(id)
                && self.conns[conn].paths[id].remote_addr() == addr
    }

    /// What pings the paths of a connection that takes part in NAT traversal.
    pub open spec fn ping_on(self, conn: ConnId, around: Surroundings) -> Seq<RemoteAction> {
        match around.conn(conn) {
            Some(l) if self.conns[conn].nat_traversal_authorized => flat(
                self.conns[conn].path_ids(),
                |id: PathId|
                    if l.knows(id) {
                        seq![RemoteAction::Ping { conn, id }]
                    } else {
                        Seq::empty()
                    },
            ),
            _ => Seq::empty(),
        }
    }

    /// What pings all paths.
    pub open spec fn ping_all(self, around: Surroundings) -> Seq<RemoteAction> {
        flat(self.ids(), |id: ConnId| self.ping_on(id, around))
    }

    /// Whether a path event concerns a path that a connection without
    /// authorization has no business with.
    pub open spec fn is_premature(self, conn: ConnId, event: ConnPathEvent) -> bool {
        &&& !self.conns[conn].nat_traversal_authorized
        &&& event.path() matches Some(id) && id != BOOTSTRAP_PATH
    }
}

impl RemoteStep {
    /// A path of a connection is registered and configured.
    pub open spec fn registered(self, conn: ConnId, id: PathId, path: FourTuple) -> RemoteStep {
        self.did_all(self.state.register(conn, id, path)).with(
            self.state.with_path(conn, id, path),
        )
    }

    /// A connection is hooked up, and its candidates announced if it takes
    /// part in NAT traversal.
    pub open spec fn hooked_up(self, conn: ConnId, l: LiveConn, around: Surroundings) -> RemoteStep {
        let authorized = !self.state.deferred;
        self.did(RemoteAction::Count(Metric::ConnsOpened)).did(RemoteAction::Watch(conn)).did_all(
            if authorized {
                candidate_updates(conn, l.local_candidates, around.local_addrs@)
            } else {
                Seq::empty()
            },
        ).with(self.state.with_conn(conn, ConnView::fresh(authorized)))
    }

    /// The path over which a connection was established is registered. If it
    /// is no relay path, relay paths are added, since they may have lost a
    /// race.
    pub open spec fn bootstrapped(
        self,
        conn: ConnId,
        l: LiveConn,
        path: Option<FourTuple>,
        known: Seq<Addr>,
    ) -> RemoteStep {
        match path {
            None => self,
            Some(path) => {
                let next = self.registered(conn, BOOTSTRAP_PATH, path);
                if !(path is Relay) && self.state.conns[conn].nat_traversal_authorized {
                    next.did_all(next.state.open_relays(conn, l, known))
                } else {
                    next
                }
            },
        }
    }

    /// A connection was added, up to the selection of a path.
    pub open spec fn connection_added(
        self,
        conn: ConnId,
        l: LiveConn,
        path: Option<FourTuple>,
        known: Seq<Addr>,
        around: Surroundings,
    ) -> RemoteStep {
        let next = self.hooked_up(conn, l, around).bootstrapped(conn, l, path, known);
        if self.state.deferred {
            next
        } else {
            next.trigger(None, around)
        }
    }

    /// NAT traversal was authorized for a connection, up to the selection of a
    /// path.
    pub open spec fn authorized(self, conn: ConnId, l: LiveConn, around: Surroundings) -> RemoteStep {
        self.did(RemoteAction::Authorize(conn)).did_all(
            candidate_updates(conn, l.local_candidates, around.local_addrs@),
        ).with(
            self.state.with_conn(
                conn,
                ConnView {
                    nat_traversal_authorized: true,
                    last_holepunch: None,
                    scheduled_holepunch: None,
                    ..self.state.conns[conn]
                },
            ),
        )
    }

    /// The network has changed: paths are pinged so that loss is detected
    /// soon, and after a major change holepunching is triggered.
    pub open spec fn network_changed(self, is_major: bool, around: Surroundings) -> RemoteStep {
        let next = self.did_all(self.state.ping_all(around));
        if is_major {
            next.trigger_all(around)
        } else {
            next
        }
    }

    /// A connection has closed. With the last one that takes part in NAT
    /// traversal goes the selected path.
    pub open spec fn connection_closed(self, conn: ConnId) -> RemoteStep {
        let gone = RemoteView { conns: self.state.conns.remove(conn), ..self.state };
        let next = if self.state.conns.contains_key(conn) {
            self.did(RemoteAction::Count(Metric::ConnsClosed)).did(RemoteAction::RecordClosed(conn))
        } else {
            self
        };
        next.with(
            RemoteView {
                selected_path: if gone.any_authorized() {
                    gone.selected_path
                } else {
                    None
                },
                ..gone
            },
        )
    }

    /// A path of a connection was abandoned. Its address is abandoned once no
    /// connection has any path to it.
    pub open spec fn path_abandoned(self, conn: ConnId, id: PathId) -> RemoteStep {
        let c = self.state.conns[conn];
        let addr = c.paths[id].remote_addr();
        let state = self.state.with_conn(conn, ConnView { paths: c.paths.remove(id), ..c });
        let next = self.did(RemoteAction::RecordAbandoned { conn, id }).with(state);
        if state.reaches(addr) {
            next
        } else {
            next.did(RemoteAction::AbandonAddr(addr))
        }
    }

    /// A path event, up to the selection of a path that follows: `None` if
    /// none does.
    pub open spec fn path_event(
        self,
        conn: ConnId,
        event: ConnPathEvent,
        around: Surroundings,
    ) -> Option<RemoteStep> {
        if !self.state.conns.contains_key(conn) || around.conn(conn) is None
            || self.state.is_premature(conn, event) {
            None
        } else {
            match event {
                ConnPathEvent::Established(id, Some(path)) => Some(
                    self.registered(conn, id, path),
                ),
                ConnPathEvent::Established(id, None) => Some(self),
                ConnPathEvent::Abandoned(id) => if self.state.conns[conn].paths.contains_key(id) {
                    Some(self.path_abandoned(conn, id))
                } else {
                    None
                },
                _ => None,
            }
        }
    }

    /// The peer announced candidate addresses, up to the selection of a path
    /// that follows: `None` if none does.
    pub open spec fn candidates_announced(self, conn: ConnId, around: Surroundings) -> Option<
        RemoteStep,
    > {
        if !self.state.conns.contains_key(conn)
            || !self.state.conns[conn].nat_traversal_authorized {
            None
        } else {
            let c = self.state.conns[conn];
            let observed = around.conn(conn) is Some && around.conn(
                conn,
            )->0.remote_candidates is Some && around.conn(conn)->0.remote_candidates->0@.len() > 0;
            Some(
                self.with(
                    self.state.with_conn(
                        conn,
                        ConnView {
                            peer_candidates_observed: c.peer_candidates_observed || observed,
                            ..c
                        },
                    ),
                ),
            )
        }
    }

    /// Whether this step may become another one by a choice of the selector
    /// and a trigger of holepunching on a connection.
    pub open spec fn may_become_and_trigger<S: PathSelector>(
        self,
        selector: &S,
        around: Surroundings,
        conn: ConnId,
        next: RemoteStep,
    ) -> bool {
        exists|mid: RemoteStep|
            #[trigger] self.may_become(selector, around, mid) && next == mid.trigger(
                Some(conn),
                around,
            )
    }

    /// It is time to try again to open the paths that wait.
    pub open spec fn open_pending(self, around: Surroundings) -> RemoteStep {
        self.with(
            RemoteView {
                scheduled_open_path: None,
                pending_open_paths: Seq::empty(),
                ..self.state
            },
        ).did_all(
            flat(
                self.state.pending_open_paths,
                |path: FourTuple| self.state.open_on_all(path, around),
            ),
        )
    }
}

impl RemoteView {
    /// Whether there is such an active connection.
    pub open spec fn is_active(self, conn: ConnId, around: Surroundings) -> bool {
        &&& self.conns.contains_key(conn)
        &&& around.conn(conn) matches Some(l) && !l.is_closed
    }

    /// Whether there is such an active connection and NAT traversal is not
    /// authorized for it yet.
    pub open spec fn needs_authorization(self, conn: ConnId, around: Surroundings) -> bool {
        self.is_active(conn, around) && !self.conns[conn].nat_traversal_authorized
    }

    /// The state after a path could not be opened: it waits to be tried again
    /// where that may help.
    pub open spec fn open_failed(self, path: FourTuple, error: OpenPathError, now: Instant) -> RemoteView {
        match error {
            OpenPathError::RemoteCidsExhausted | OpenPathError::MaxPathIdReached => RemoteView {
                scheduled_open_path: Some((now + OPEN_PATH_RETRY) as Instant),
                pending_open_paths: enqueued(self.pending_open_paths, path),
                ..self
            },
            OpenPathError::Failed => self,
        }
    }
}

impl RemoteStateActor {
    /// An actor without connections.
    pub fn new(endpoint_id: EndpointId, defer_nat_traversal_until_authorized: bool) -> (r: Self)
        ensures
            r@ == RemoteView::initial(endpoint_id, defer_nat_traversal_until_authorized),
    {
        let r = RemoteStateActor {
            connections: empty_map(),
            state: State {
                endpoint_id,
                defer_nat_traversal_until_authorized,
                last_holepunch: None,
                selected_path: None,
                scheduled_holepunch: None,
                scheduled_open_path: None,
                pending_open_paths: PendingOpenPaths::default(),
                address_lookup_running: false,
            },
        };
        assert(r@.conns =~= Map::empty());
        r
    }

    /// Returns `true` if there are no connections.
    pub(crate) fn is_unconnected(&self) -> (r: bool)
        ensures
            r == self@.conns.dom().is_empty(),
    {
        let ids = self.ids();
        proof {
            if ids@.len() == 0 {
                assert forall|id: ConnId| !self@.conns.dom().contains(id) by {
                    assert(!ids@.contains(id));
                }
                assert(self@.conns.dom() =~= Set::empty());
            } else {
                assert(ids@.contains(ids@[0]));
                assert(self@.conns.dom().contains(ids@[0]));
            }
        }
        ids.len() == 0
    }

    /// Returns `true` if the actor is fully idle: there are no connections, no
    /// message or resolve request waits, and nobody holds on to the inbox in
    /// order to send one.
    pub fn is_idle(&self, inbox: InboxState, resolve_requests_is_empty: bool) -> (r: bool)
        ensures
            r == self@.is_idle(inbox, resolve_requests_is_empty),
    {
        self.is_unconnected() && inbox.is_empty && !inbox.has_other_senders
            && resolve_requests_is_empty
    }

    /// Registers a path of a connection and configures it: it gets the status
    /// that it should have, and paths via a relay a longer idle timeout.
    pub fn register_and_configure_path(
        &mut self,
        conn: ConnId,
        id: PathId,
        path: FourTuple,
        out: &mut Vec<RemoteAction>,
    )
        requires
            old(self)@.conns.contains_key(conn),
        ensures
            at(final(self), final(out)) == at(old(self), old(out)).registered(conn, id, path),
    {
        if let Some(c) = fx_remove(&mut self.connections, conn) {
            out.push(
                RemoteAction::Count(
                    match path {
                        FourTuple::Ip { .. } => Metric::PathsDirect,
                        FourTuple::Relay { .. } => Metric::PathsRelay,
                        FourTuple::Custom { .. } => Metric::PathsCustom,
                    },
                ),
            );
            let mut c = c;
            if !c.has_been_direct && path.is_ip() {
                c.has_been_direct = true;
                out.push(RemoteAction::Count(Metric::ConnsDirect));
            }
            fx_insert(&mut c.paths, id, path);
            out.push(RemoteAction::RecordOpened { conn, id, path });
            if path.is_relay() {
                out.push(RemoteAction::SetRelayIdleTimeout { conn, id });
            }
            if c.nat_traversal_authorized {
                let status = self.path_status_for_addr(path);
                out.push(RemoteAction::SetStatus { conn, id, status });
            }
            out.push(RemoteAction::InsertOpenAddr(path.remote()));
            if !c.nat_traversal_authorized && id == BOOTSTRAP_PATH {
                out.push(RemoteAction::RecordSelected { conn, path });
            }
            fx_insert(&mut self.connections, conn, c);
        }
        assert(self@.conns =~= old(self)@.with_path(conn, id, path).conns);
        assert(out@ =~= old(out)@ + old(self)@.register(conn, id, path));
    }

    /// Opens paths via the known relays on a connection.
    fn open_relay_paths(
        &self,
        conn: ConnId,
        l: &LiveConn,
        known: &Vec<Addr>,
        out: &mut Vec<RemoteAction>,
    )
        requires
            self@.conns.contains_key(conn),
        ensures
            final(out)@ == old(out)@ + self@.open_relays(conn, *l, known@),
    {
        let ghost before = out@;
        let ghost view = self@;
        let ghost f = |addr: Addr|
            if addr is Relay {
                view.open_on(conn, *l, FourTuple::to(addr))
            } else {
                Seq::empty()
            };
        let n = known.len();
        let mut i: usize = 0;
        while i < n
            invariant
                i <= n == known@.len(),
                view == self@,
                view.conns.contains_key(conn),
                f == (|addr: Addr|
                    if addr is Relay {
                        view.open_on(conn, *l, FourTuple::to(addr))
                    } else {
                        Seq::empty()
                    }),
                out@ == before + flat(known@.take(i as int), f),
            decreases n - i,
        {
            proof {
                flat_step(known@, f, i as int);
            }
            let addr = known[i];
            if addr.is_relay() {
                if let Some(c) = fx_get(&self.connections, conn) {
                    self.open_path_on_conn(conn, c, l, FourTuple::from_remote(addr), out);
                }
            }
            i += 1;
            assert(out@ =~= before + flat(known@.take(i as int), f));
        }
        assert(known@.take(n as int) =~= known@);
    }

    /// Handles a new connection: hooks it up, registers the path over which it
    /// was established, triggers holepunching and selects a path.
    ///
    /// `path` is the network path over which the connection was established,
    /// if it is known, and `known` are the addresses that might lead to the
    /// remote endpoint.
    pub fn handle_msg_add_connection<S: PathSelector>(
        &mut self,
        conn: ConnId,
        path: Option<FourTuple>,
        known: &Vec<Addr>,
        selector: &S,
        around: &Surroundings,
        out: &mut Vec<RemoteAction>,
    )
        requires
            around.conn(conn) is Some,
        ensures
            at(old(self), old(out)).connection_added(
                conn,
                around.conn(conn)->0,
                path,
                known@,
                *around,
            ).may_become(selector, *around, at(final(self), final(out))),
    {
        let l = match around.live(conn) {
            Some(l) => l,
            None => return,
        };
        let ghost start = at(self, out);
        out.push(RemoteAction::Count(Metric::ConnsOpened));
        out.push(RemoteAction::Watch(conn));
        let authorized = !self.state.defer_nat_traversal_until_authorized;
        if authorized {
            update_qnt_candidates(conn, l, &around.local_addrs, out);
        }
        fx_insert(&mut self.connections, conn, ConnectionState::fresh(authorized));
        assert(at(self, out) == start.hooked_up(conn, *l, *around)) by {
            assert(self@.conns =~= start.state.conns.insert(conn, ConnView::fresh(authorized)));
            assert(out@ =~= start.hooked_up(conn, *l, *around).actions);
        }
        if let Some(path) = path {
            self.register_and_configure_path(conn, BOOTSTRAP_PATH, path, out);
            if !path.is_relay() && authorized {
                // This may have raced with a relay address, so any relay
                // addresses are added back.
                self.open_relay_paths(conn, l, known, out);
            }
        }
        assert(at(self, out) == start.hooked_up(conn, *l, *around).bootstrapped(
            conn,
            *l,
            path,
            known@,
        ));
        if authorized {
            self.trigger_holepunching_for(None, around, out);
        }
        self.select_path(selector, around, out);
    }

    /// Returns `true` if there is such an active connection and NAT traversal
    /// is not authorized for it yet.
    pub fn needs_authorization(&self, conn: ConnId, around: &Surroundings) -> (r: bool)
        ensures
            r == self@.needs_authorization(conn, *around),
    {
        match (fx_get(&self.connections, conn), around.live(conn)) {
            (Some(c), Some(l)) => !l.is_closed && !c.nat_traversal_authorized,
            _ => false,
        }
    }

    /// Authorizes NAT traversal for one exact active connection. Returns
    /// `false` if there is none.
    ///
    /// The candidates of the connection are those that it has once it is
    /// authorized.
    pub fn handle_msg_authorize_nat_traversal<S: PathSelector>(
        &mut self,
        conn: ConnId,
        selector: &S,
        around: &Surroundings,
        out: &mut Vec<RemoteAction>,
    ) -> (r: bool)
        ensures
            r == old(self)@.is_active(conn, *around),
            if old(self)@.needs_authorization(conn, *around) {
                at(old(self), old(out)).authorized(
                    conn,
                    around.conn(conn)->0,
                    *around,
                ).may_become_and_trigger(selector, *around, conn, at(final(self), final(out)))
            } else {
                at(final(self), final(out)) == at(old(self), old(out))
            },
    {
        let l = match around.live(conn) {
            Some(l) => l,
            None => return false,
        };
        let authorized = match fx_get(&self.connections, conn) {
            Some(c) => c.nat_traversal_authorized,
            None => return false,
        };
        if l.is_closed {
            return false;
        }
        if authorized {
            return true;
        }
        let ghost start = at(self, out);
        out.push(RemoteAction::Authorize(conn));
        update_qnt_candidates(conn, l, &around.local_addrs, out);
        if let Some(c) = fx_remove(&mut self.connections, conn) {
            // A prior attempt must not delay the activation of this
            // connection.
            let c = ConnectionState {
                nat_traversal_authorized: true,
                last_holepunch: None,
                scheduled_holepunch: None,
                ..c
            };
            fx_insert(&mut self.connections, conn, c);
        }
        assert(at(self, out) == start.authorized(conn, *l, *around)) by {
            assert(self@.conns =~= start.authorized(conn, *l, *around).state.conns);
            assert(out@ =~= start.authorized(conn, *l, *around).actions);
        }
        self.select_path_and_trigger(conn, selector, around, out);
        true
    }

    /// Selects a path, then triggers holepunching on a connection.
    fn select_path_and_trigger<S: PathSelector>(
        &mut self,
        conn: ConnId,
        selector: &S,
        around: &Surroundings,
        out: &mut Vec<RemoteAction>,
    )
        ensures
            at(old(self), old(out)).may_become_and_trigger(
                selector,
                *around,
                conn,
                at(final(self), final(out)),
            ),
    {
        self.select_path(selector, around, out);
        let ghost mid = at(self, out);
        self.trigger_holepunching_for(Some(conn), around, out);
        assert(at(old(self), old(out)).may_become(selector, *around, mid));
    }

    /// Handles a change of the network: pings all paths so that loss detection
    /// starts soon, and triggers holepunching after a major change.
    pub fn handle_msg_network_change(
        &mut self,
        is_major: bool,
        around: &Surroundings,
        out: &mut Vec<RemoteAction>,
    )
        ensures
            at(final(self), final(out)) == at(old(self), old(out)).network_changed(
                is_major,
                *around,
            ),
    {
        let ghost before = out@;
        let ghost view = self@;
        let ghost f = |id: ConnId| view.ping_on(id, *around);
        let ids = self.ids();
        let n = ids.len();
        let mut i: usize = 0;
        while i < n
            invariant
                i <= n == ids@.len(),
                lists(ids@, view.conns.dom()),
                view == self@,
                *self == *old(self),
                f == (|id: ConnId| view.ping_on(id, *around)),
                out@ == before + flat(ids@.take(i as int), f),
            decreases n - i,
        {
            let id = ids[i];
            proof {
                assert(ids@.contains(id));
                flat_step(ids@, f, i as int);
            }
            if let Some(c) = fx_get(&self.connections, id) {
                self.ping_paths(id, c, around, out);
            }
            i += 1;
            assert(out@ =~= before + flat(ids@.take(i as int), f));
        }
        assert(ids@.take(n as int) =~= ids@);
        if is_major {
            self.trigger_holepunching_all(around, out);
        }
    }

    /// Pings the paths of a connection that takes part in NAT traversal.
    fn ping_paths(
        &self,
        conn: ConnId,
        c: &ConnectionState,
        around: &Surroundings,
        out: &mut Vec<RemoteAction>,
    )
        requires
            self@.conns[conn] == c@,
        ensures
            final(out)@ == old(out)@ + self@.ping_on(conn, *around),
    {
        let ghost before = out@;
        if c.nat_traversal_authorized {
            if let Some(l) = around.live(conn) {
                let ghost f = |id: PathId|
                    if l.knows(id) {
                        seq![RemoteAction::Ping { conn, id }]
                    } else {
                        Seq::empty()
                    };
                let ids = c.path_ids();
                let n = ids.len();
                let mut i: usize = 0;
                while i < n
                    invariant
                        i <= n == ids@.len(),
                        f == (|id: PathId|
                            if l.knows(id) {
                                seq![RemoteAction::Ping { conn, id }]
                            } else {
                                Seq::empty()
                            }),
                        out@ == before + flat(ids@.take(i as int), f),
                    decreases n - i,
                {
                    let id = ids[i];
                    proof {
                        flat_step(ids@, f, i as int);
                    }
                    if l.has_open(id) {
                        out.push(RemoteAction::Ping { conn, id });
                    }
                    i += 1;
                    assert(out@ =~= before + flat(ids@.take(i as int), f));
                }
                assert(ids@.take(n as int) =~= ids@);
            }
        }
        assert(out@ =~= before + self@.ping_on(conn, *around));
    }

    /// Returns `true` if some connection takes part in NAT traversal.
    fn any_authorized(&self) -> (r: bool)
        ensures
            r == self@.any_authorized(),
    {
        let ids = self.ids();
        let n = ids.len();
        let mut i: usize = 0;
        while i < n
            invariant
                i <= n == ids@.len(),
                lists(ids@, self@.conns.dom()),
                forall|j: int|
                    0 <= j < i ==> !self@.conns[#[trigger] ids@[j]].nat_traversal_authorized,
            decreases n - i,
        {
            let id = ids[i];
            assert(ids@.contains(id));
            if let Some(c) = fx_get(&self.connections, id) {
                if c.nat_traversal_authorized {
                    assert(self@.conns.contains_key(id));
                    return true;
                }
            }
            i += 1;
        }
        assert forall|id: ConnId| #[trigger]
            self@.conns.contains_key(id) implies !self@.conns[id].nat_traversal_authorized by {
            assert(ids@.contains(id));
            let j = ids@.index_of(id);
            assert(ids@[j] == id);
        }
        false
    }

    /// Handles the end of a connection.
    pub fn handle_connection_close(&mut self, conn: ConnId, out: &mut Vec<RemoteAction>)
        ensures
            at(final(self), final(out)) == at(old(self), old(out)).connection_closed(conn),
    {
        if fx_remove(&mut self.connections, conn).is_some() {
            out.push(RemoteAction::Count(Metric::ConnsClosed));
            out.push(RemoteAction::RecordClosed(conn));
        }
        assert(self@.conns =~= old(self)@.conns.remove(conn));
        if !self.any_authorized() {
            self.state.selected_path = None;
        }
    }

    /// Returns `true` if some connection has a path to an address.
    fn reaches(&self, addr: Addr) -> (r: bool)
        ensures
            r == self@.reaches(addr),
    {
        let ids = self.ids();
        let n = ids.len();
        let mut i: usize = 0;
        while i < n
            invariant
                i <= n == ids@.len(),
                lists(ids@, self@.conns.dom()),
                forall|j: int, id: PathId|
                    0 <= j < i && #[trigger] self@.conns[ids@[j]].paths.contains_key(id)
                        ==> self@.conns[ids@[j]].paths[id].remote_addr() != addr,
            decreases n - i,
        {
            let conn = ids[i];
            assert(ids@.contains(conn));
            if let Some(c) = fx_get(&self.connections, conn) {
                let paths = c.path_ids();
                let m = paths.len();
                let mut k: usize = 0;
                while k < m
                    invariant
                        k <= m == paths@.len(),
                        self@.conns.contains_key(conn),
                        self@.conns[conn] == c@,
                        lists(paths@, c@.paths.dom()),
                        forall|j: int|
                            0 <= j < k ==> c@.paths[#[trigger] paths@[j]].remote_addr() != addr,
                    decreases m - k,
                {
                    let id = paths[k];
                    assert(paths@.contains(id));
                    if let Some(path) = fx_get(&c.paths, id) {
                        if path.remote() == addr {
                            assert(self@.conns[conn].paths.contains_key(id));
                            return true;
                        }
                    }
                    k += 1;
                }
                assert forall|id: PathId| #[trigger]
                    c@.paths.contains_key(id) implies c@.paths[id].remote_addr() != addr by {
                    assert(paths@.contains(id));
                    let j = paths@.index_of(id);
                    assert(paths@[j] == id);
                }
            }
            i += 1;
        }
        assert forall|conn: ConnId, id: PathId|
            self@.conns.contains_key(conn) && #[trigger] self@.conns[conn].paths.contains_key(
                id,
            ) implies self@.conns[conn].paths[id].remote_addr() != addr by {
            assert(ids@.contains(conn));
            let j = ids@.index_of(conn);
            assert(self@.conns[ids@[j]].paths.contains_key(id));
        }
        false
    }

    /// Removes an abandoned path from its connection. Addresses are tracked
    /// for all connections together, so that of the path is abandoned once no
    /// connection has any path to it.
    fn abandon_path(&mut self, conn: ConnId, id: PathId, out: &mut Vec<RemoteAction>) -> (r: bool)
        requires
            old(self)@.conns.contains_key(conn),
        ensures
            r == old(self)@.conns[conn].paths.contains_key(id),
            at(final(self), final(out)) == if r {
                at(old(self), old(out)).path_abandoned(conn, id)
            } else {
                at(old(self), old(out))
            },
    {
        let c = match fx_remove(&mut self.connections, conn) {
            Some(c) => c,
            None => return false,
        };
        let mut c = c;
        let removed = fx_remove(&mut c.paths, id);
        fx_insert(&mut self.connections, conn, c);
        match removed {
            Some(path) => {
                assert(self@.conns =~= at(old(self), old(out)).path_abandoned(
                    conn,
                    id,
                ).state.conns);
                out.push(RemoteAction::RecordAbandoned { conn, id });
                if !self.reaches(path.remote()) {
                    out.push(RemoteAction::AbandonAddr(path.remote()));
                }
                true
            },
            None => {
                assert(c@.paths =~= old(self)@.conns[conn].paths);
                assert(self@.conns =~= old(self)@.conns);
                false
            },
        }
    }

    /// Handles an event of a path of a connection.
    pub fn handle_path_event<S: PathSelector>(
        &mut self,
        conn: ConnId,
        event: ConnPathEvent,
        selector: &S,
        around: &Surroundings,
        out: &mut Vec<RemoteAction>,
    )
        ensures
            match at(old(self), old(out)).path_event(conn, event, *around) {
                Some(next) => next.may_become(selector, *around, at(final(self), final(out))),
                None => at(final(self), final(out)) == at(old(self), old(out)),
            },
    {
        let authorized = match fx_get(&self.connections, conn) {
            Some(c) => c.nat_traversal_authorized,
            None => return,
        };
        if around.live(conn).is_none() {
            return;
        }
        if !authorized {
            if let Some(id) = event.path_id() {
                if id != BOOTSTRAP_PATH {
                    return;
                }
            }
        }
        match event {
            ConnPathEvent::Established(id, path) => {
                if let Some(path) = path {
                    self.register_and_configure_path(conn, id, path, out);
                }
                self.select_path(selector, around, out);
            },
            ConnPathEvent::Abandoned(id) => {
                if self.abandon_path(conn, id, out) {
                    // If the remote closed the selected path, select a new
                    // one.
                    self.select_path(selector, around, out);
                }
            },
            ConnPathEvent::EstablishedUnknown(_) | ConnPathEvent::Discarded(_)
            | ConnPathEvent::Other | ConnPathEvent::Lagged => {},
        }
    }

    /// Handles an announcement of candidate addresses by the peer. It is
    /// ignored before authorization.
    pub fn handle_addr_event<S: PathSelector>(
        &mut self,
        conn: ConnId,
        selector: &S,
        around: &Surroundings,
        out: &mut Vec<RemoteAction>,
    )
        ensures
            match at(old(self), old(out)).candidates_announced(conn, *around) {
                Some(next) => next.may_become_and_trigger(
                    selector,
                    *around,
                    conn,
                    at(final(self), final(out)),
                ),
                None => at(final(self), final(out)) == at(old(self), old(out)),
            },
    {
        match fx_get(&self.connections, conn) {
            Some(c) => {
                if !c.nat_traversal_authorized {
                    return;
                }
            },
            None => return,
        }
        let observed = match around.live(conn) {
            Some(l) => match &l.remote_candidates {
                Some(addrs) => addrs.len() > 0,
                None => false,
            },
            None => false,
        };
        let ghost start = at(self, out);
        if let Some(c) = fx_remove(&mut self.connections, conn) {
            let mut c = c;
            if observed {
                c.peer_candidates_observed = true;
            }
            fx_insert(&mut self.connections, conn, c);
        }
        assert(at(self, out) == start.candidates_announced(conn, *around)->0) by {
            assert(self@.conns =~= start.candidates_announced(conn, *around)->0.state.conns);
        }
        self.select_path_and_trigger(conn, selector, around, out);
    }

    /// Tries again to open the paths that wait, on all connections.
    pub fn open_pending_paths(&mut self, around: &Surroundings, out: &mut Vec<RemoteAction>)
        ensures
            at(final(self), final(out)) == at(old(self), old(out)).open_pending(*around),
    {
        let ghost before = out@;
        let ghost view = self@;
        let ghost f = |path: FourTuple| view.open_on_all(path, *around);
        let ghost waiting = self@.pending_open_paths;
        let ghost mut done: int = 0;
        self.state.scheduled_open_path = None;
        loop
            invariant
                0 <= done <= waiting.len(),
                self@.pending_open_paths == waiting.skip(done),
                self@ == (RemoteView {
                    scheduled_open_path: None,
                    pending_open_paths: waiting.skip(done),
                    ..view
                }),
                f == (|path: FourTuple| view.open_on_all(path, *around)),
                out@ == before + flat(waiting.take(done), f),
            ensures
                done == waiting.len(),
            decreases waiting.len() - done,
        {
            match self.state.pending_open_paths.pop_front() {
                Some(path) => {
                    proof {
                        flat_step(waiting, f, done);
                        assert(waiting.skip(done).first() == waiting[done]);
                        assert(waiting.skip(done).drop_first() =~= waiting.skip(done + 1));
                        open_on_all_ignores_waiting(self@, view, path, *around);
                        done = done + 1;
                    }
                    self.open_path_on_all_conns(path, around, out);
                    assert(out@ =~= before + flat(waiting.take(done), f));
                },
                None => {
                    break;
                },
            }
        }
        assert(waiting.take(done) =~= waiting);
        assert(waiting.skip(done) =~= Seq::empty());
    }

    /// Takes in that a path could not be opened on a connection. If the remote
    /// may permit it later, it waits to be tried again.
    pub fn on_open_failed(&mut self, path: FourTuple, error: OpenPathError, now: Instant)
        requires
            now + OPEN_PATH_RETRY <= Instant::MAX,
        ensures
            final(self)@ == old(self)@.open_failed(path, error, now),
    {
        match error {
            OpenPathError::RemoteCidsExhausted | OpenPathError::MaxPathIdReached => {
                self.state.scheduled_open_path = Some(now + OPEN_PATH_RETRY);
                self.state.pending_open_paths.enqueue(path);
            },
            OpenPathError::Failed => {},
        }
    }
}

/// What opens a path does not depend on the paths that wait.
proof fn open_on_all_ignores_waiting(
    a: RemoteView,
    b: RemoteView,
    path: FourTuple,
    around: Surroundings,
)
    requires
        a.conns == b.conns,
        a.deferred == b.deferred,
        a.selected_path == b.selected_path,
    ensures
        a.open_on_all(path, around) == b.open_on_all(path, around),
{
    let f = |id: ConnId|
        if a.is_managed(id, around) {
            a.open_on(id, around.conn(id)->0, path)
        } else {
            Seq::empty()
        };
    let g = |id: ConnId|
        if b.is_managed(id, around) {
            b.open_on(id, around.conn(id)->0, path)
        } else {
            Seq::empty()
        };
    crate::flat::flat_agrees(a.ids(), f, g);
}

} // verus!
