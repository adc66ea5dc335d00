//! What wakes the actor up, and what it does then.

use crate::remote_state::actor::{at, RemoteAction, RemoteStateActor, RemoteStep, RemoteView};
use crate::remote_state::connection::{ConnId, Surroundings};
use crate::remote_state::events::{ConnPathEvent, InboxState};
use crate::remote_state::lookup::{BootstrapAuthority, LookupResult};
use crate::remote_state::paths::{Addr, FourTuple, TransportAddr};
use crate::remote_state::selection::PathSelector;
use vstd::prelude::*;

verus! {

/// Messages to the actor.
#[derive(Debug)]
pub enum RemoteStateMessage {
    /// Sends a datagram. Used to send QUIC Initial packets.
    SendDatagram(BootstrapAuthority),
    /// Adds an active connection to the remote endpoint, with the network
    /// path over which it was established, if that is known.
    AddConnection(ConnId, Option<FourTuple>),
    /// Authorizes NAT traversal for one exact active connection.
    AuthorizeNatTraversal(ConnId),
    /// Asks if there is any possible path that could be used, given some
    /// addresses.
    ResolveRemote(Vec<TransportAddr>),
    /// Asks what is known about the remote endpoint: its identity and all its
    /// known addresses.
    RemoteInfo,
    /// The network status has changed in some way.
    NetworkChange { is_major: bool },
}

/// What wakes the actor up.
#[derive(Debug)]
pub enum RemoteEvent {
    /// A message arrived.
    Message(RemoteStateMessage),
    /// Someone who waited for a path has gone. This says whether any address
    /// is known and whether anyone still waits.
    ResolveCancelled { addrs_is_empty: bool, requests_is_empty: bool },
    /// Something happened to a path of a connection.
    Path(ConnId, ConnPathEvent),
    /// The peer announced candidate addresses on a connection.
    CandidatesAnnounced(ConnId),
    /// A connection has closed.
    ConnectionClosed(ConnId),
    /// The local direct addresses have changed.
    LocalAddrsChanged,
    /// It is time to try again to open the paths that wait.
    OpenPathsDue,
    /// A scheduled holepunching attempt is due.
    HolepunchDue(Option<ConnId>),
    /// A lookup of addresses yielded an item.
    Lookup(LookupResult),
    /// It is time to check the connections.
    CheckDue,
    /// The actor has had nothing to do for a while. This says what its inbox
    /// looks like and whether any resolve request waits.
    IdleTimeout { inbox: InboxState, requests_is_empty: bool },
}

impl RemoteView {
    /// Whether the actor may stop: there are no connections, and nobody wants
    /// anything from it.
    pub open spec fn is_idle(self, inbox: InboxState, requests_is_empty: bool) -> bool {
        &&& self.conns.dom().is_empty()
        &&& inbox.is_empty
        &&& !inbox.has_other_senders
        &&& requests_is_empty
    }
}

impl RemoteStep {
    /// Whether this step may become another one by a message.
    pub open spec fn may_follow_message<S: PathSelector>(
        self,
        msg: RemoteStateMessage,
        known: Seq<Addr>,
        selector: &S,
        around: Surroundings,
        next: RemoteStep,
    ) -> bool {
        match msg {
            RemoteStateMessage::SendDatagram(authority) => next == self.did_all(
                self.state.datagram_targets(authority, known, around.local_addrs@),
            ),
            RemoteStateMessage::AddConnection(conn, path) => self.connection_added(
                conn,
                around.conn(conn)->0,
                path,
                known,
                around,
            ).may_become(selector, around, next),
            RemoteStateMessage::AuthorizeNatTraversal(conn) => if self.state.needs_authorization(
                conn,
                around,
            ) {
                self.authorized(conn, around.conn(conn)->0, around).may_become_and_trigger(
                    selector,
                    around,
                    conn,
                    next,
                )
            } else {
                next == self
            },
            RemoteStateMessage::ResolveRemote(addrs) => next == self.resolve_remote(addrs@),
            RemoteStateMessage::RemoteInfo => next == self.did(
                RemoteAction::ReplyRemoteInfo(self.state.endpoint_id),
            ),
            RemoteStateMessage::NetworkChange { is_major } => next == self.network_changed(
                is_major,
                around,
            ),
        }
    }

    /// Whether this step may become another one when the actor wakes up. Where
    /// a path is selected, that is up to the selector; all else is determined.
    pub open spec fn may_follow<S: PathSelector>(
        self,
        event: RemoteEvent,
        known: Seq<Addr>,
        selector: &S,
        around: Surroundings,
        next: RemoteStep,
    ) -> bool {
        match event {
            RemoteEvent::Message(msg) => self.may_follow_message(
                msg,
                known,
                selector,
                around,
                next,
            ),
            RemoteEvent::ResolveCancelled { addrs_is_empty, requests_is_empty } => next
                == self.resolve_cancelled(addrs_is_empty, requests_is_empty),
            RemoteEvent::Path(conn, event) => match self.path_event(conn, event, around) {
                Some(mid) => mid.may_become(selector, around, next),
                None => next == self,
            },
            RemoteEvent::CandidatesAnnounced(conn) => match self.candidates_announced(
                conn,
                around,
            ) {
                Some(mid) => mid.may_become_and_trigger(selector, around, conn, next),
                None => next == self,
            },
            RemoteEvent::ConnectionClosed(conn) => next == self.connection_closed(conn),
            RemoteEvent::LocalAddrsChanged => next == self.did_all(
                self.state.announce_on_all(around),
            ).trigger_all(around),
            RemoteEvent::OpenPathsDue => next == self.open_pending(around),
            RemoteEvent::HolepunchDue(conn) => next == self.on_scheduled_holepunch(conn, around),
            RemoteEvent::Lookup(item) => next == self.lookup_item(item),
            RemoteEvent::CheckDue => next == self.check_connections(around),
            RemoteEvent::IdleTimeout { .. } => next == self,
        }
    }
}

/// Whether a message can be handled: a connection that is added exists.
pub open spec fn is_timely(msg: RemoteStateMessage, around: Surroundings) -> bool {
    msg matches RemoteStateMessage::AddConnection(conn, _) ==> around.conn(conn) is Some
}

impl RemoteStateActor {
    /// Handles a message, given the addresses that might lead to the remote
    /// endpoint. Returns the reply to a request for authorization, and `true`
    /// for any other message.
    pub fn handle_message<S: PathSelector>(
        &mut self,
        msg: RemoteStateMessage,
        known: &Vec<Addr>,
        selector: &S,
        around: &Surroundings,
        out: &mut Vec<RemoteAction>,
    ) -> (reply: bool)
        requires
            is_timely(msg, *around),
        ensures
            at(old(self), old(out)).may_follow_message(
                msg,
                known@,
                selector,
                *around,
                at(final(self), final(out)),
            ),
            reply == (msg matches RemoteStateMessage::AuthorizeNatTraversal(conn) ==> old(
                self,
            )@.is_active(conn, *around)),
    {
        match msg {
            RemoteStateMessage::SendDatagram(authority) => {
                self.handle_msg_send_datagram(&authority, known, &around.local_addrs, out);
            },
            RemoteStateMessage::AddConnection(conn, path) => {
                self.handle_msg_add_connection(conn, path, known, selector, around, out);
            },
            RemoteStateMessage::AuthorizeNatTraversal(conn) => {
                return self.handle_msg_authorize_nat_traversal(conn, selector, around, out);
            },
            RemoteStateMessage::ResolveRemote(addrs) => {
                self.handle_msg_resolve_remote(&addrs, out);
            },
            RemoteStateMessage::RemoteInfo => {
                out.push(RemoteAction::ReplyRemoteInfo(self.state.endpoint_id));
            },
            RemoteStateMessage::NetworkChange { is_major } => {
                self.handle_msg_network_change(is_major, around, out);
            },
        }
        true
    }

    /// Takes the step that an event calls for. Returns `true` if the actor is
    /// to stop.
    pub fn step<S: PathSelector>(
        &mut self,
        event: RemoteEvent,
        known: &Vec<Addr>,
        selector: &S,
        around: &Surroundings,
        out: &mut Vec<RemoteAction>,
    ) -> (stop: bool)
        requires
            event matches RemoteEvent::Message(msg) ==> is_timely(msg, *around),
        ensures
            at(old(self), old(out)).may_follow(
                event,
                known@,
                selector,
                *around,
                at(final(self), final(out)),
            ),
            stop == (event matches RemoteEvent::IdleTimeout { inbox, requests_is_empty }
                && old(self)@.is_idle(inbox, requests_is_empty)),
    {
        match event {
            RemoteEvent::Message(msg) => {
                self.handle_message(msg, known, selector, around, out);
            },
            RemoteEvent::ResolveCancelled { addrs_is_empty, requests_is_empty } => {
                self.handle_resolve_cancellation(addrs_is_empty, requests_is_empty, out);
            },
            RemoteEvent::Path(conn, event) => {
                self.handle_path_event(conn, event, selector, around, out);
            },
            RemoteEvent::CandidatesAnnounced(conn) => {
                self.handle_addr_event(conn, selector, around, out);
            },
            RemoteEvent::ConnectionClosed(conn) => {
                self.handle_connection_close(conn, out);
            },
            RemoteEvent::LocalAddrsChanged => {
                self.update_local_direct_address(around, out);
                self.trigger_holepunching_all(around, out);
            },
            RemoteEvent::OpenPathsDue => {
                self.open_pending_paths(around, out);
            },
            RemoteEvent::HolepunchDue(conn) => {
                self.on_scheduled_holepunch(conn, around, out);
            },
            RemoteEvent::Lookup(item) => {
                self.handle_address_lookup_item(&item, out);
            },
            RemoteEvent::CheckDue => {
                self.check_connections(around, out);
            },
            RemoteEvent::IdleTimeout { inbox, requests_is_empty } => {
                return self.is_idle(inbox, requests_is_empty);
            },
        }
        false
    }
}

/// A trigger of holepunching leaves alone what does not concern it.
proof fn trigger_keeps(s: RemoteStep, preferred: Option<ConnId>, around: Surroundings)
    ensures
        ({
            let next = s.trigger(preferred, around).state;
            &&& next.endpoint_id == s.state.endpoint_id
            &&& next.deferred == s.state.deferred
            &&& next.selected_path == s.state.selected_path
            &&& next.pending_open_paths == s.state.pending_open_paths
        }),
{
}

/// Triggers of holepunching leave alone what does not concern them.
proof fn triggers_keep(s: RemoteStep, ids: Seq<ConnId>, around: Surroundings)
    ensures
        ({
            let next = s.trigger_each(ids, around).state;
            &&& next.endpoint_id == s.state.endpoint_id
            &&& next.deferred == s.state.deferred
            &&& next.selected_path == s.state.selected_path
            &&& next.pending_open_paths == s.state.pending_open_paths
        }),
    decreases ids.len(),
{
    if ids.len() > 0 {
        triggers_keep(s, ids.drop_last(), around);
        trigger_keeps(s.trigger_each(ids.drop_last(), around), Some(ids.last()), around);
    }
}

/// Whatever happens, the actor stays that of its endpoint, whether NAT
/// traversal is deferred does not change, and no path comes to wait but by a
/// failure to open it.
pub proof fn steps_keep_the_identity<S: PathSelector>(
    s: RemoteStep,
    event: RemoteEvent,
    known: Seq<Addr>,
    selector: &S,
    around: Surroundings,
    next: RemoteStep,
)
    requires
        s.may_follow(event, known, selector, around, next),
    ensures
        next.state.endpoint_id == s.state.endpoint_id,
        next.state.deferred == s.state.deferred,
        next.state.pending_open_paths == s.state.pending_open_paths
            || next.state.pending_open_paths.len() == 0,
{
    match event {
        RemoteEvent::Message(msg) => match msg {
            RemoteStateMessage::AddConnection(conn, path) => {
                let hooked = s.hooked_up(conn, around.conn(conn)->0, around).bootstrapped(
                    conn,
                    around.conn(conn)->0,
                    path,
                    known,
                );
                trigger_keeps(hooked, None, around);
            },
            RemoteStateMessage::AuthorizeNatTraversal(conn) => {
                if next != s {
                    let start = s.authorized(conn, around.conn(conn)->0, around);
                    let mid = choose|mid: RemoteStep|
                        #[trigger] start.may_become(selector, around, mid) && next == mid.trigger(
                            Some(conn),
                            around,
                        );
                    trigger_keeps(mid, Some(conn), around);
                }
            },
            RemoteStateMessage::NetworkChange { is_major } => {
                let pinged = s.did_all(s.state.ping_all(around));
                trigger_keeps(pinged, None, around);
                triggers_keep(pinged, pinged.state.ready_clients(around), around);
            },
            _ => {},
        },
        RemoteEvent::CandidatesAnnounced(conn) => {
            if next != s {
                let start = s.candidates_announced(conn, around)->0;
                let mid = choose|mid: RemoteStep|
                    #[trigger] start.may_become(selector, around, mid) && next == mid.trigger(
                        Some(conn),
                        around,
                    );
                trigger_keeps(mid, Some(conn), around);
            }
        },
        RemoteEvent::LocalAddrsChanged => {
            let announced = s.did_all(s.state.announce_on_all(around));
            trigger_keeps(announced, None, around);
            triggers_keep(announced, announced.state.ready_clients(around), around);
        },
        RemoteEvent::HolepunchDue(conn) => {},
        RemoteEvent::CheckDue => {
            trigger_keeps(s, None, around);
            triggers_keep(s, s.state.ready_clients(around), around);
        },
        _ => {},
    }
}

} // verus!
