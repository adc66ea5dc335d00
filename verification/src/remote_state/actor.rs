//! The decisions of the actor that manages all connections to a remote
//! endpoint: when to holepunch, which path to select, which paths to open and
//! which to close.
//!
//! The actor does none of this work itself. Each of its steps is a function of
//! its state, of what happened and of what surrounds it, and yields a list of
//! [`RemoteAction`]s to be carried out in order.

use crate::addr::{EndpointId, SocketAddr};
use crate::remote_state::connection::{
    attempt_of, distinct, AttemptView, ConnId, ConnView, ConnectionState,
    HolepunchAttempt, LiveConn, PathId, Surroundings, };
use crate::flat::{flat, flat_step};
use crate::remote_state::fx_map::{
    ascending, fx_get, lists, sorted_keys, FxMap,
};
use crate::remote_state::paths::{
    Addr, FourTuple, PendingOpenPaths, };
use crate::remote_state::selection::{ask, conns_of, may_select, PathSelector};
use crate::time::{Duration, Instant, MILLISECOND, SECOND};
use vstd::prelude::*;

verus! {

/// The latency at or under which no better path is tried for.
pub const GOOD_ENOUGH_LATENCY: Duration = 10 * MILLISECOND;

/// How often a better path is tried for, even if some direct path works.
pub const UPGRADE_INTERVAL: Duration = 60 * SECOND;

/// The time after which an idle actor stops.
///
/// The actor is only idle if there are no connections and nobody could send it
/// messages but the map of remote endpoints.
pub const ACTOR_MAX_IDLE_TIMEOUT: Duration = 60 * SECOND;

/// How long after a failure holepunching is tried again.
pub const HOLEPUNCH_RETRY: Duration = 100 * MILLISECOND;

/// How long after a failure opening a path is tried again.
pub const OPEN_PATH_RETRY: Duration = 333 * MILLISECOND;

/// How a path is to be used.
#[derive(Debug, Clone, Copy, PartialEq, Eq, Structural)]
pub enum PathStatus {
    /// The path carries application data.
    Available,
    /// The path is kept for when no available path works.
    Backup,
}

/// The name of a service that looks up addresses.
///
/// Names are held apart from the actor; a number stands for each.
#[derive(Debug, Clone, Copy, PartialEq, Eq, PartialOrd, Ord, Hash, Structural)]
pub struct ServiceName(pub u64);

/// Where an address was learned from.
#[derive(Debug, Clone, Copy, PartialEq, Eq, Structural)]
pub enum Source {
    /// The application.
    App,
    /// A lookup of addresses, by the service of this name.
    AddressLookup { name: ServiceName },
}

/// Something that is counted.
#[derive(Debug, Clone, Copy, PartialEq, Eq, Structural)]
pub enum Metric {
    ConnsOpened,
    ConnsClosed,
    ConnsDirect,
    PathsDirect,
    PathsRelay,
    PathsCustom,
    HolepunchAttempts,
}

/// Something to be done for the actor.
#[allow(inconsistent_fields)]
#[derive(Debug, Clone, Copy, PartialEq, Eq, Structural)]
pub enum RemoteAction {
    /// Count something.
    Count(Metric),
    /// Watch a connection for path events, for announced candidate addresses
    /// and for its end.
    Watch(ConnId),
    /// Permit a connection to take part in NAT traversal, unless it is
    /// permitted already.
    Authorize(ConnId),
    /// Announce a local candidate address to the peer.
    AddCandidate { conn: ConnId, addr: SocketAddr },
    /// Withdraw a local candidate address from the peer.
    RemoveCandidate { conn: ConnId, addr: SocketAddr },
    /// Initiate a round of NAT traversal on a connection.
    InitiateRound(ConnId),
    /// Open a path on a connection, unless it is being opened already.
    OpenPath { conn: ConnId, path: FourTuple, status: PathStatus },
    /// Close a path of a connection.
    ClosePath { conn: ConnId, id: PathId },
    /// Set the status of a path of a connection.
    SetStatus { conn: ConnId, id: PathId, status: PathStatus },
    /// Give a path the idle timeout for paths via a relay, long enough for the
    /// relay connection to be reestablished.
    SetRelayIdleTimeout { conn: ConnId, id: PathId },
    /// Ping a path of a connection.
    Ping { conn: ConnId, id: PathId },
    /// Tell those who watch a connection that a path has opened.
    RecordOpened { conn: ConnId, id: PathId, path: FourTuple },
    /// Tell those who watch a connection that a path was abandoned.
    RecordAbandoned { conn: ConnId, id: PathId },
    /// Tell those who watch a connection which path is selected.
    RecordSelected { conn: ConnId, path: FourTuple },
    /// Tell those who watch a connection that it has closed.
    RecordClosed(ConnId),
    /// Remember an address that might lead to the remote endpoint.
    InsertAddr { addr: Addr, source: Source },
    /// Remember an address to which a path is open.
    InsertOpenAddr(Addr),
    /// Remember that no path to an address is left.
    AbandonAddr(Addr),
    /// Answer the resolve request at hand if an address is known, or keep it
    /// and watch for its cancellation.
    ResolveOrKeep,
    /// Start to look up addresses.
    StartLookup,
    /// Stop to look up addresses.
    StopLookup,
    /// Answer the resolve requests that were kept: the lookup came to its end
    /// or failed.
    FinishLookup { failed: bool },
    /// Send the datagram at hand.
    SendDatagram(FourTuple),
    /// Answer the request at hand for what is known about an endpoint: it and
    /// all its known addresses.
    ReplyRemoteInfo(EndpointId),
}

/// State of the actor apart from its connections.
pub struct State {
    /// The identity of the remote endpoint.
    pub endpoint_id: EndpointId,
    /// Whether each connection requires authorization by the application
    /// before NAT traversal.
    pub defer_nat_traversal_until_authorized: bool,
    /// Information about the last holepunching attempt.
    pub last_holepunch: Option<HolepunchAttempt>,
    /// The path currently considered the preferred path to the remote
    /// endpoint.
    pub selected_path: Option<FourTuple>,
    /// Time of the next holepunch attempt.
    pub scheduled_holepunch: Option<Instant>,
    /// When to next attempt opening the paths that wait.
    pub scheduled_open_path: Option<Instant>,
    /// Paths that failed to open because the remote had not issued enough
    /// connection identifiers.
    pub pending_open_paths: PendingOpenPaths,
    /// Whether addresses are being looked up.
    pub address_lookup_running: bool,
}

/// What is known of a single remote endpoint. This manages all connections to
/// it.
pub struct RemoteStateActor {
    /// All connections to the remote endpoint.
    pub connections: FxMap<ConnectionState>,
    pub state: State,
}

/// The mathematical value of a [`RemoteStateActor`].
#[verifier::ext_equal]
pub struct RemoteView {
    pub endpoint_id: EndpointId,
    pub deferred: bool,
    pub conns: Map<ConnId, ConnView>,
    pub last_holepunch: Option<AttemptView>,
    pub selected_path: Option<FourTuple>,
    pub scheduled_holepunch: Option<Instant>,
    pub scheduled_open_path: Option<Instant>,
    pub pending_open_paths: Seq<FourTuple>,
    pub lookup_running: bool,
}

impl View for RemoteStateActor {
    type V = RemoteView;

    open spec fn view(&self) -> RemoteView {
        RemoteView {
            endpoint_id: self.state.endpoint_id,
            deferred: self.state.defer_nat_traversal_until_authorized,
            conns: conns_of(self.connections@),
            last_holepunch: attempt_of(self.state.last_holepunch),
            selected_path: self.state.selected_path,
            scheduled_holepunch: self.state.scheduled_holepunch,
            scheduled_open_path: self.state.scheduled_open_path,
            pending_open_paths: self.state.pending_open_paths@,
            lookup_running: self.state.address_lookup_running,
        }
    }
}

/// A state of the actor, with the actions that led to it.
#[verifier::ext_equal]
pub struct RemoteStep {
    pub state: RemoteView,
    pub actions: Seq<RemoteAction>,
}

/// Where an actor stands when it has yielded the actions `out`.
pub open spec fn at(actor: &RemoteStateActor, out: &Vec<RemoteAction>) -> RemoteStep {
    RemoteStep { state: actor@, actions: out@ }
}

/// The actions that make the announced candidates of a connection the direct
/// addresses: what is missing is announced, and what is too many withdrawn,
/// each address once.
pub open spec fn candidate_updates(
    conn: ConnId,
    announced: Option<Vec<SocketAddr>>,
    direct: Seq<SocketAddr>,
) -> Seq<RemoteAction> {
    match announced {
        None => Seq::empty(),
        Some(current) => flat(
            distinct(direct),
            |addr: SocketAddr|
                if current@.contains(addr) {
                    Seq::empty()
                } else {
                    seq![RemoteAction::AddCandidate { conn, addr }]
                },
        ) + flat(
            distinct(current@),
            |addr: SocketAddr|
                if direct.contains(addr) {
                    Seq::empty()
                } else {
                    seq![RemoteAction::RemoveCandidate { conn, addr }]
                },
        ),
    }
}

/// What counts an open path.
pub open spec fn path_metric(path: FourTuple) -> Metric {
    match path {
        FourTuple::Ip { .. } => Metric::PathsDirect,
        FourTuple::Relay { .. } => Metric::PathsRelay,
        FourTuple::Custom { .. } => Metric::PathsCustom,
    }
}

/// The IP paths of a connection that are up, in ascending order.
pub open spec fn ip_paths_up(c: ConnView, l: LiveConn) -> Seq<PathId> {
    flat(
        c.path_ids(),
        |id: PathId|
            if l.knows(id) && c.paths[id] is Ip {
                seq![id]
            } else {
                Seq::empty()
            },
    )
}

/// The IP path of a connection that is kept although it is not selected: the
/// first one, unless the selected path is up.
pub open spec fn spare_path(c: ConnView, l: LiveConn, selected: FourTuple) -> Option<PathId> {
    let up = ip_paths_up(c, l);
    if up.len() == 0 || exists|i: int| 0 <= i < up.len() && c.paths[#[trigger] up[i]] == selected {
        None
    } else {
        Some(up[0])
    }
}

impl RemoteView {
    /// The connections, in ascending order.
    pub open spec fn ids(self) -> Seq<ConnId> {
        ascending(self.conns.dom())
    }

    /// The state with a connection added or replaced.
    pub open spec fn with_conn(self, id: ConnId, c: ConnView) -> RemoteView {
        RemoteView { conns: self.conns.insert(id, c), ..self }
    }

    /// The status for a path: the selected one is available, any other a
    /// backup.
    pub open spec fn status_for(self, path: FourTuple) -> PathStatus {
        if self.selected_path == Some(path) {
            PathStatus::Available
        } else {
            PathStatus::Backup
        }
    }

    /// What opens a path on a connection. Only the client opens paths, and
    /// none that is open already.
    pub open spec fn open_on(self, conn: ConnId, l: LiveConn, path: FourTuple) -> Seq<RemoteAction> {
        if !l.is_client || self.conns[conn].has_path(path) {
            Seq::empty()
        } else {
            seq![RemoteAction::OpenPath { conn, path, status: self.status_for(path) }]
        }
    }

    /// Whether paths may be managed on a connection: the application has
    /// authorized it, it was not dropped and, where authorization is called
    /// for, the peer has released its gate too.
    pub open spec fn is_managed(self, conn: ConnId, around: Surroundings) -> bool {
        &&& self.conns[conn].nat_traversal_authorized
        &&& around.conn(conn) is Some
        &&& !self.deferred || self.conns[conn].peer_candidates_observed
    }

    /// What opens a path on all connections.
    pub open spec fn open_on_all(self, path: FourTuple, around: Surroundings) -> Seq<RemoteAction> {
        flat(
            self.ids(),
            |id: ConnId|
                if self.is_managed(id, around) {
                    self.open_on(id, around.conn(id)->0, path)
                } else {
                    Seq::empty()
                },
        )
    }

    /// What sets the status of a path that a connection still knows.
    pub open spec fn set_status(self, conn: ConnId, l: LiveConn, id: PathId) -> Seq<RemoteAction> {
        if l.knows(id) {
            seq![
                RemoteAction::SetStatus {
                    conn,
                    id,
                    status: self.status_for(self.conns[conn].paths[id]),
                },
            ]
        } else {
            Seq::empty()
        }
    }

    /// Whether a path is redundant: an IP path that is neither selected nor
    /// the one to be kept. Only the client closes paths.
    pub open spec fn is_redundant(
        self,
        conn: ConnId,
        l: LiveConn,
        selected: FourTuple,
        id: PathId,
    ) -> bool {
        let c = self.conns[conn];
        &&& l.is_client
        &&& c.paths[id] is Ip
        &&& c.paths[id] != selected
        &&& spare_path(c, l, selected) != Some(id)
    }

    /// What brings a path of a connection in line with the selection: a
    /// redundant one is closed, any other gets its status.
    pub open spec fn settle(
        self,
        conn: ConnId,
        l: LiveConn,
        selected: FourTuple,
        id: PathId,
    ) -> Seq<RemoteAction> {
        if l.knows(id) && self.is_redundant(conn, l, selected, id) {
            seq![RemoteAction::ClosePath { conn, id }]
        } else {
            self.set_status(conn, l, id)
        }
    }

    /// What applies the selected path to a connection on which paths may be
    /// managed.
    pub open spec fn apply_managed(self, conn: ConnId, l: LiveConn, selected: FourTuple) -> Seq<
        RemoteAction,
    > {
        self.open_on(conn, l, selected) + flat(
            self.conns[conn].path_ids(),
            |id: PathId| self.settle(conn, l, selected, id),
        ).push(RemoteAction::RecordSelected { conn, path: selected })
    }

    /// What applies the selected path to a connection where it is open
    /// already, without opening or closing any path.
    pub open spec fn apply_existing(self, conn: ConnId, l: LiveConn, selected: FourTuple) -> Seq<
        RemoteAction,
    > {
        if self.conns[conn].has_path(selected) {
            flat(
                self.conns[conn].path_ids(),
                |id: PathId| self.set_status(conn, l, id),
            ).push(RemoteAction::RecordSelected { conn, path: selected })
        } else {
            Seq::empty()
        }
    }

    /// What applies the selected path to a connection.
    pub open spec fn apply_on(self, conn: ConnId, around: Surroundings, selected: FourTuple) -> Seq<
        RemoteAction,
    > {
        if !self.conns[conn].nat_traversal_authorized || around.conn(conn) is None {
            Seq::empty()
        } else if self.is_managed(conn, around) {
            self.apply_managed(conn, around.conn(conn)->0, selected)
        } else {
            self.apply_existing(conn, around.conn(conn)->0, selected)
        }
    }

    /// What applies the selected path to all connections.
    pub open spec fn apply(self, around: Surroundings) -> Seq<RemoteAction> {
        match self.selected_path {
            Some(selected) => flat(
                self.ids(),
                |id: ConnId| self.apply_on(id, around, selected),
            ),
            None => Seq::empty(),
        }
    }
}

impl RemoteStep {
    /// The step after one more action.
    pub open spec fn did(self, action: RemoteAction) -> RemoteStep {
        RemoteStep { actions: self.actions.push(action), ..self }
    }

    /// The step after more actions.
    pub open spec fn did_all(self, actions: Seq<RemoteAction>) -> RemoteStep {
        RemoteStep { actions: self.actions + actions, ..self }
    }

    /// The step in another state.
    pub open spec fn with(self, state: RemoteView) -> RemoteStep {
        RemoteStep { state, ..self }
    }

    /// The selected path is applied to all connections.
    pub open spec fn apply_selected_path(self, around: Surroundings) -> RemoteStep {
        self.did_all(self.state.apply(around))
    }

    /// A path is selected, or the selection stays if none was chosen, and
    /// applied to all connections.
    pub open spec fn select(self, chosen: Option<FourTuple>, around: Surroundings) -> RemoteStep {
        self.with(
            RemoteView {
                selected_path: if chosen is Some {
                    chosen
                } else {
                    self.state.selected_path
                },
                ..self.state
            },
        ).apply_selected_path(around)
    }
}

impl RemoteStep {
    /// Whether the selector, asked in this step, may choose `chosen`.
    pub open spec fn selects<S: PathSelector>(
        self,
        selector: &S,
        around: Surroundings,
        chosen: Option<FourTuple>,
    ) -> bool {
        may_select(selector, self.state.selected_path, self.state.conns, around, chosen)
    }

    /// Whether this step may become another one by a choice of the selector.
    pub open spec fn may_become<S: PathSelector>(
        self,
        selector: &S,
        around: Surroundings,
        next: RemoteStep,
    ) -> bool {
        exists|chosen: Option<FourTuple>|
            #[trigger] self.selects(selector, around, chosen) && next == self.select(
                chosen,
                around,
            )
    }
}

impl RemoteStateActor {
    /// Returns the connections, in ascending order. There are finitely many.
    pub fn ids(&self) -> (r: Vec<ConnId>)
        ensures
            r@ == self@.ids(),
            lists(r@, self@.conns.dom()),
            self@.conns.dom().finite(),
    {
        assert(self@.conns.dom() =~= self.connections@.dom());
        sorted_keys(&self.connections)
    }

    /// Returns the status for a path: available if it is the selected one,
    /// backup otherwise.
    pub fn path_status_for_addr(&self, path: FourTuple) -> (r: PathStatus)
        ensures
            r == self@.status_for(path),
    {
        if self.state.selected_path == Some(path) {
            PathStatus::Available
        } else {
            PathStatus::Backup
        }
    }

    /// Opens a path on a connection, if this side is the client and it is not
    /// open yet. The server receives paths from the client.
    pub fn open_path_on_conn(
        &self,
        conn: ConnId,
        c: &ConnectionState,
        l: &LiveConn,
        path: FourTuple,
        out: &mut Vec<RemoteAction>,
    )
        requires
            self@.conns[conn] == c@,
        ensures
            final(out)@ == old(out)@ + self@.open_on(conn, *l, path),
    {
        if l.is_client && !c.has_path(path) {
            out.push(
                RemoteAction::OpenPath { conn, path, status: self.path_status_for_addr(path) },
            );
        }
        assert(out@ =~= old(out)@ + self@.open_on(conn, *l, path));
    }

    /// Opens a path on all connections on which paths may be managed.
    pub fn open_path_on_all_conns(
        &self,
        path: FourTuple,
        around: &Surroundings,
        out: &mut Vec<RemoteAction>,
    )
        ensures
            final(out)@ == old(out)@ + self@.open_on_all(path, *around),
    {
        let ghost before = out@;
        let ghost view = self@;
        let ghost f = |id: ConnId|
            if view.is_managed(id, *around) {
                view.open_on(id, around.conn(id)->0, path)
            } else {
                Seq::empty()
            };
        let ids = self.ids();
        let n = ids.len();
        let mut i: usize = 0;
        while i < n
            invariant
                i <= n == ids@.len(),
                ids@ == view.ids(),
                lists(ids@, view.conns.dom()),
                view == self@,
                f == (|id: ConnId|
                    if view.is_managed(id, *around) {
                        view.open_on(id, around.conn(id)->0, path)
                    } else {
                        Seq::empty()
                    }),
                out@ == before + flat(ids@.take(i as int), f),
            decreases n - i,
        {
            let id = ids[i];
            proof {
                assert(ids@.contains(id));
                flat_step(ids@, f, i as int);
            }
            if let Some(c) = fx_get(&self.connections, id) {
                if c.nat_traversal_authorized && (!self.state.defer_nat_traversal_until_authorized
                    || c.peer_candidates_observed) {
                    if let Some(l) = around.live(id) {
                        self.open_path_on_conn(id, c, l, path, out);
                    }
                }
            }
            i += 1;
            assert(out@ =~= before + flat(ids@.take(i as int), f));
        }
        assert(ids@.take(n as int) =~= ids@);
    }

    /// Sets the status of a path of a connection, if it still knows the path.
    pub fn set_path_status(
        &self,
        conn: ConnId,
        c: &ConnectionState,
        l: &LiveConn,
        id: PathId,
        out: &mut Vec<RemoteAction>,
    )
        requires
            self@.conns[conn] == c@,
            c@.paths.contains_key(id),
        ensures
            final(out)@ == old(out)@ + self@.set_status(conn, *l, id),
    {
        if l.has_open(id) {
            if let Some(path) = fx_get(&c.paths, id) {
                let status = self.path_status_for_addr(*path);
                out.push(RemoteAction::SetStatus { conn, id, status });
            }
        }
        assert(out@ =~= old(out)@ + self@.set_status(conn, *l, id));
    }

    /// Finds the IP path of a connection that is kept although it is not
    /// selected.
    fn find_spare(c: &ConnectionState, l: &LiveConn, selected: FourTuple) -> (r: Option<PathId>)
        ensures
            r == spare_path(c@, *l, selected),
    {
        let ghost view = c@;
        let ghost f = |id: PathId|
            if l.knows(id) && view.paths[id] is Ip {
                seq![id]
            } else {
                Seq::empty()
            };
        let ids = c.path_ids();
        let n = ids.len();
        let mut i: usize = 0;
        let mut first: Option<PathId> = None;
        let mut selected_is_up = false;
        let ghost mut up: Seq<PathId> = Seq::empty();
        while i < n
            invariant
                i <= n == ids@.len(),
                ids@ == view.path_ids(),
                lists(ids@, view.paths.dom()),
                view == c@,
                f == (|id: PathId|
                    if l.knows(id) && view.paths[id] is Ip {
                        seq![id]
                    } else {
                        Seq::empty()
                    }),
                up == flat(ids@.take(i as int), f),
                match first {
                    Some(id) => up.len() > 0 && up[0] == id,
                    None => up.len() == 0,
                },
                selected_is_up <==> exists|k: int|
                    0 <= k < up.len() && view.paths[#[trigger] up[k]] == selected,
            decreases n - i,
        {
            let id = ids[i];
            let ghost before = up;
            proof {
                assert(ids@.contains(id));
                flat_step(ids@, f, i as int);
                up = flat(ids@.take(i + 1), f);
            }
            let mut found = false;
            if l.has_open(id) {
                if let Some(path) = fx_get(&c.paths, id) {
                    if path.is_ip() {
                        found = true;
                        if first.is_none() {
                            first = Some(id);
                        }
                        if *path == selected {
                            selected_is_up = true;
                        }
                    }
                }
            }
            proof {
                if found {
                    assert(up =~= before.push(id));
                    assert(up[before.len() as int] == id);
                    assert forall|k: int| 0 <= k < before.len() implies #[trigger] up[k]
                        == before[k] by {}
                    if exists|k: int|
                        0 <= k < before.len() && view.paths[#[trigger] before[k]] == selected {
                        let k = choose|k: int|
                            0 <= k < before.len() && view.paths[#[trigger] before[k]] == selected;
                        assert(view.paths[up[k]] == selected);
                    }
                    if exists|k: int| 0 <= k < up.len() && view.paths[#[trigger] up[k]] == selected {
                        let k = choose|k: int|
                            0 <= k < up.len() && view.paths[#[trigger] up[k]] == selected;
                        if k < before.len() {
                            assert(view.paths[before[k]] == selected);
                        }
                    }
                } else {
                    assert(up =~= before);
                }
            }
            i += 1;
        }
        assert(ids@.take(n as int) =~= ids@);
        if selected_is_up {
            None
        } else {
            first
        }
    }

    /// Brings the paths of a connection in line with the selection.
    ///
    /// Closes redundant IP paths so that at most one remains. Relay and custom
    /// paths are kept open. Only the client closes paths, to avoid the client
    /// and server independently closing different paths and racing to abandon
    /// the last one. All other paths get their status.
    fn settle_paths(
        &self,
        conn: ConnId,
        c: &ConnectionState,
        l: &LiveConn,
        selected: FourTuple,
        out: &mut Vec<RemoteAction>,
    )
        requires
            self@.conns[conn] == c@,
        ensures
            final(out)@ == old(out)@ + flat(
                c@.path_ids(),
                |id: PathId| self@.settle(conn, *l, selected, id),
            ),
    {
        let ghost before = out@;
        let ghost view = self@;
        let ghost f = |id: PathId| view.settle(conn, *l, selected, id);
        let spare = Self::find_spare(c, l, selected);
        let ids = c.path_ids();
        let n = ids.len();
        let mut i: usize = 0;
        while i < n
            invariant
                i <= n == ids@.len(),
                ids@ == c@.path_ids(),
                lists(ids@, c@.paths.dom()),
                view == self@,
                view.conns[conn] == c@,
                spare == spare_path(c@, *l, selected),
                f == (|id: PathId| view.settle(conn, *l, selected, id)),
                out@ == before + flat(ids@.take(i as int), f),
            decreases n - i,
        {
            let id = ids[i];
            proof {
                assert(ids@.contains(id));
                flat_step(ids@, f, i as int);
            }
            let redundant = match fx_get(&c.paths, id) {
                Some(path) => l.is_client && path.is_ip() && *path != selected && spare != Some(id),
                None => false,
            };
            if redundant && l.has_open(id) {
                out.push(RemoteAction::ClosePath { conn, id });
            } else {
                self.set_path_status(conn, c, l, id, out);
            }
            i += 1;
            assert(out@ =~= before + flat(ids@.take(i as int), f));
        }
        assert(ids@.take(n as int) =~= ids@);
    }

    /// Selects a path that is already open on a connection without opening any
    /// other path.
    ///
    /// Before peer candidates are known, applying the normal selection could
    /// disclose a path learned from another connection. An exact path already
    /// open on this connection is safe to select after local authorization.
    pub fn apply_existing_selected_path(
        &self,
        conn: ConnId,
        c: &ConnectionState,
        l: &LiveConn,
        selected: FourTuple,
        out: &mut Vec<RemoteAction>,
    )
        requires
            self@.conns[conn] == c@,
        ensures
            final(out)@ == old(out)@ + self@.apply_existing(conn, *l, selected),
    {
        let ghost before = out@;
        let ghost view = self@;
        let ghost f = |id: PathId| view.set_status(conn, *l, id);
        if c.has_path(selected) {
            let ids = c.path_ids();
            let n = ids.len();
            let mut i: usize = 0;
            while i < n
                invariant
                    i <= n == ids@.len(),
                    ids@ == c@.path_ids(),
                    lists(ids@, c@.paths.dom()),
                    view == self@,
                    view.conns[conn] == c@,
                    f == (|id: PathId| view.set_status(conn, *l, id)),
                    out@ == before + flat(ids@.take(i as int), f),
                decreases n - i,
            {
                proof {
                    assert(ids@.contains(ids@[i as int]));
                    flat_step(ids@, f, i as int);
                }
                self.set_path_status(conn, c, l, ids[i], out);
                i += 1;
                assert(out@ =~= before + flat(ids@.take(i as int), f));
            }
            assert(ids@.take(n as int) =~= ids@);
            out.push(RemoteAction::RecordSelected { conn, path: selected });
        }
        assert(out@ =~= before + self@.apply_existing(conn, *l, selected));
    }

    /// Propagates the selected path to a connection.
    fn apply_selected_path_on(
        &self,
        conn: ConnId,
        c: &ConnectionState,
        around: &Surroundings,
        selected: FourTuple,
        out: &mut Vec<RemoteAction>,
    )
        requires
            self@.conns[conn] == c@,
        ensures
            final(out)@ == old(out)@ + self@.apply_on(conn, *around, selected),
    {
        if c.nat_traversal_authorized {
            if let Some(l) = around.live(conn) {
                if self.state.defer_nat_traversal_until_authorized && !c.peer_candidates_observed {
                    self.apply_existing_selected_path(conn, c, l, selected, out);
                } else {
                    // Open the path if it does not exist yet.
                    self.open_path_on_conn(conn, c, l, selected, out);
                    self.settle_paths(conn, c, l, selected, out);
                    out.push(RemoteAction::RecordSelected { conn, path: selected });
                }
            }
        }
        assert(out@ =~= old(out)@ + self@.apply_on(conn, *around, selected));
    }

    /// Propagates the selected path to all connections:
    /// - closes non-selected IP paths, but keeps one IP path open still;
    /// - makes all non-selected paths a backup;
    /// - opens the selected path if it does not exist on the connection;
    /// - makes the selected path available.
    pub fn apply_selected_path(&self, around: &Surroundings, out: &mut Vec<RemoteAction>)
        ensures
            final(out)@ == old(out)@ + self@.apply(*around),
    {
        let ghost before = out@;
        let ghost view = self@;
        if let Some(selected) = self.state.selected_path {
            let ghost f = |id: ConnId| view.apply_on(id, *around, selected);
            let ids = self.ids();
            let n = ids.len();
            let mut i: usize = 0;
            while i < n
                invariant
                    i <= n == ids@.len(),
                    ids@ == view.ids(),
                    lists(ids@, view.conns.dom()),
                    view == self@,
                    f == (|id: ConnId| view.apply_on(id, *around, selected)),
                    out@ == before + flat(ids@.take(i as int), f),
                decreases n - i,
            {
                let id = ids[i];
                proof {
                    assert(ids@.contains(id));
                    flat_step(ids@, f, i as int);
                }
                if let Some(c) = fx_get(&self.connections, id) {
                    self.apply_selected_path_on(id, c, around, selected, out);
                }
                i += 1;
                assert(out@ =~= before + flat(ids@.take(i as int), f));
            }
            assert(ids@.take(n as int) =~= ids@);
        }
        assert(out@ =~= before + self@.apply(*around));
    }

    /// Makes a chosen path the selected one, or keeps the selection if none
    /// was chosen, and propagates it.
    pub fn apply_selection(
        &mut self,
        chosen: Option<FourTuple>,
        around: &Surroundings,
        out: &mut Vec<RemoteAction>,
    )
        ensures
            at(final(self), final(out)) == at(old(self), old(out)).select(chosen, *around),
    {
        if chosen.is_some() {
            self.state.selected_path = chosen;
        }
        self.apply_selected_path(around, out);
    }

    /// Selects the preferred path by asking the configured selector.
    ///
    /// The selected path is added to any connections which do not yet have it.
    /// Any unused direct paths are closed for all connections.
    pub fn select_path<S: PathSelector>(
        &mut self,
        selector: &S,
        around: &Surroundings,
        out: &mut Vec<RemoteAction>,
    )
        ensures
            at(old(self), old(out)).may_become(selector, *around, at(final(self), final(out))),
    {
        let chosen = ask(selector, self.state.selected_path, &self.connections, around);
        self.apply_selection(chosen, around, out);
        assert(at(old(self), old(out)).selects(selector, *around, chosen));
    }
}

} // verus!
