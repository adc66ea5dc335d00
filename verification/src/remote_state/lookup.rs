//! Addresses of the remote endpoint: where they come from, and where the
//! first datagrams go.

use crate::addr::{EndpointId, SocketAddr};
use crate::remote_state::actor::{
    at, RemoteAction, RemoteStateActor, RemoteStep, RemoteView, ServiceName, Source,
};
use crate::remote_state::connection::contains_addr;
use crate::flat::{flat, flat_step};
use crate::remote_state::paths::{all_sendable, to_transports_addr, Addr, FourTuple, TransportAddr};
use vstd::prelude::*;

verus! {

/// The authority of one exact dial: to which endpoint it is, and over which
/// addresses it may be made while NAT traversal is not authorized.
#[derive(Debug)]
pub struct BootstrapAuthority {
    pub endpoint_id: EndpointId,
    pub permitted: Vec<Addr>,
}

impl BootstrapAuthority {
    /// Whether the authority permits to reach an endpoint over an address.
    pub open spec fn allows(&self, endpoint_id: EndpointId, addr: Addr) -> bool {
        self.endpoint_id == endpoint_id && self.permitted@.contains(addr)
    }

    /// Returns `true` if the authority permits to reach an endpoint over an
    /// address.
    pub fn permits(&self, endpoint_id: EndpointId, addr: Addr) -> (r: bool)
        ensures
            r == self.allows(endpoint_id, addr),
    {
        if self.endpoint_id != endpoint_id {
            return false;
        }
        let n = self.permitted.len();
        let mut i: usize = 0;
        while i < n
            invariant
                i <= n == self.permitted@.len(),
                self.endpoint_id == endpoint_id,
                forall|j: int| 0 <= j < i ==> self.permitted@[j] != addr,
            decreases n - i,
        {
            if self.permitted[i] == addr {
                assert(self.permitted@[i as int] == addr);
                return true;
            }
            i += 1;
        }
        false
    }
}

/// What a lookup of addresses found.
#[derive(Debug)]
pub struct LookupItem {
    pub endpoint_id: EndpointId,
    pub addrs: Vec<TransportAddr>,
    /// The service that found it.
    pub provenance: ServiceName,
}

/// What the next item of a lookup is.
#[derive(Debug)]
pub enum LookupResult {
    /// The lookup came to its end.
    Finished,
    /// The lookup failed.
    Failed,
    /// The lookup found something.
    Found(LookupItem),
}

/// What counts of an item that a lookup yields: what one service found or that
/// the lookup failed, but not that one service failed.
pub open spec fn kept_item<T, E, F>(item: Result<Result<T, E>, F>) -> Option<Result<T, F>> {
    match item {
        Ok(Ok(found)) => Some(Ok(found)),
        Ok(Err(_)) => None,
        Err(failed) => Some(Err(failed)),
    }
}

/// Drops the errors of individual services: the lookup goes on with the
/// others.
pub fn keep_item<T, E, F>(item: Result<Result<T, E>, F>) -> (r: Option<Result<T, F>>)
    ensures
        r == kept_item(item),
{
    match item {
        Ok(Ok(found)) => Some(Ok(found)),
        Ok(Err(_)) => None,
        Err(failed) => Some(Err(failed)),
    }
}

/// What remembers addresses that might lead to endpoint `endpoint_id`.
pub open spec fn insert_all(
    endpoint_id: EndpointId,
    addrs: Seq<TransportAddr>,
    source: Source,
) -> Seq<RemoteAction> {
    all_sendable(endpoint_id, addrs).map_values(
        |addr: Addr| RemoteAction::InsertAddr { addr, source },
    )
}

impl RemoteView {
    /// Whether datagrams may go to an address before a connection exists.
    pub open spec fn may_bootstrap(self, authority: BootstrapAuthority, addr: Addr) -> bool {
        &&& authority.endpoint_id == self.endpoint_id
        &&& !self.deferred || authority.allows(self.endpoint_id, addr)
    }

    /// Where a datagram goes: over the selected path if it may, otherwise to
    /// all known addresses that it may go to, but not to a local one.
    pub open spec fn datagram_targets(
        self,
        authority: BootstrapAuthority,
        known: Seq<Addr>,
        local: Seq<SocketAddr>,
    ) -> Seq<RemoteAction> {
        match self.selected_path {
            Some(path) if self.may_bootstrap(authority, path.remote_addr()) => seq![
                RemoteAction::SendDatagram(FourTuple::to(path.remote_addr())),
            ],
            _ => flat(
                known,
                |addr: Addr|
                    if self.may_bootstrap(authority, addr) && !is_local(addr, local) {
                        seq![RemoteAction::SendDatagram(FourTuple::to(addr))]
                    } else {
                        Seq::empty()
                    },
            ),
        }
    }
}

/// Whether an address is one of the local direct addresses.
pub open spec fn is_local(addr: Addr, local: Seq<SocketAddr>) -> bool {
    addr matches Addr::Ip(sockaddr) && local.contains(sockaddr)
}

impl RemoteStep {
    /// A lookup of addresses starts, unless a path is selected or one runs.
    pub open spec fn trigger_address_lookup(self) -> RemoteStep {
        if self.state.selected_path is Some || self.state.lookup_running {
            self
        } else {
            self.did(RemoteAction::StartLookup).with(
                RemoteView { lookup_running: true, ..self.state },
            )
        }
    }

    /// Someone asks for a path to the remote endpoint.
    pub open spec fn resolve_remote(self, addrs: Seq<TransportAddr>) -> RemoteStep {
        self.did_all(insert_all(self.state.endpoint_id, addrs, Source::App)).did(
            RemoteAction::ResolveOrKeep,
        ).trigger_address_lookup()
    }

    /// Some of those who asked have gone. The lookup stops if it serves
    /// nobody: there is no connection, no path, no address and no request.
    pub open spec fn resolve_cancelled(
        self,
        addrs_is_empty: bool,
        requests_is_empty: bool,
    ) -> RemoteStep {
        if self.state.conns.dom().is_empty() && self.state.selected_path is None && addrs_is_empty
            && requests_is_empty {
            self.did(RemoteAction::StopLookup).with(
                RemoteView { lookup_running: false, ..self.state },
            )
        } else {
            self
        }
    }

    /// The lookup yields its next item. What it found about another endpoint
    /// does not count.
    pub open spec fn lookup_item(self, item: LookupResult) -> RemoteStep {
        let stopped = RemoteView { lookup_running: false, ..self.state };
        match item {
            LookupResult::Finished => self.did(RemoteAction::FinishLookup { failed: false }).with(
                stopped,
            ),
            LookupResult::Failed => self.did(RemoteAction::FinishLookup { failed: true }).with(
                stopped,
            ),
            LookupResult::Found(found) => if found.endpoint_id == self.state.endpoint_id {
                self.did_all(
                    insert_all(
                        self.state.endpoint_id,
                        found.addrs@,
                        Source::AddressLookup { name: found.provenance },
                    ),
                )
            } else {
                self
            },
        }
    }
}

impl RemoteStateActor {
    /// Returns `true` if datagrams may go to an address before a connection
    /// exists.
    pub fn bootstrap_path_allowed(&self, authority: &BootstrapAuthority, addr: Addr) -> (r: bool)
        ensures
            r == self@.may_bootstrap(*authority, addr),
    {
        authority.endpoint_id == self.state.endpoint_id
            && (!self.state.defer_nat_traversal_until_authorized || authority.permits(
            self.state.endpoint_id,
            addr,
        ))
    }

    /// Sends a datagram over the selected path, or to all known addresses of
    /// the remote endpoint. It never goes to a local address.
    ///
    /// This comes before a connection is added, so there is no connection to
    /// holepunch yet.
    pub fn handle_msg_send_datagram(
        &self,
        authority: &BootstrapAuthority,
        known: &Vec<Addr>,
        local: &Vec<SocketAddr>,
        out: &mut Vec<RemoteAction>,
    )
        ensures
            final(out)@ == old(out)@ + self@.datagram_targets(*authority, known@, local@),
    {
        if let Some(path) = self.state.selected_path {
            if self.bootstrap_path_allowed(authority, path.remote()) {
                out.push(RemoteAction::SendDatagram(FourTuple::from_remote(path.remote())));
                assert(out@ =~= old(out)@ + self@.datagram_targets(*authority, known@, local@));
                return;
            }
        }
        let ghost before = out@;
        let ghost view = self@;
        let ghost f = |addr: Addr|
            if view.may_bootstrap(*authority, addr) && !is_local(addr, local@) {
                seq![RemoteAction::SendDatagram(FourTuple::to(addr))]
            } else {
                Seq::empty()
            };
        let n = known.len();
        let mut i: usize = 0;
        while i < n
            invariant
                i <= n == known@.len(),
                view == self@,
                f == (|addr: Addr|
                    if view.may_bootstrap(*authority, addr) && !is_local(addr, local@) {
                        seq![RemoteAction::SendDatagram(FourTuple::to(addr))]
                    } else {
                        Seq::empty()
                    }),
                out@ == before + flat(known@.take(i as int), f),
            decreases n - i,
        {
            proof {
                flat_step(known@, f, i as int);
            }
            let addr = known[i];
            let own = match addr {
                Addr::Ip(sockaddr) => contains_addr(local, sockaddr),
                _ => false,
            };
            if !own && self.bootstrap_path_allowed(authority, addr) {
                out.push(RemoteAction::SendDatagram(FourTuple::from_remote(addr)));
            }
            i += 1;
            assert(out@ =~= before + flat(known@.take(i as int), f));
        }
        assert(known@.take(n as int) =~= known@);
    }

    /// Starts a lookup of addresses, if needed: not if a path is selected or a
    /// lookup is running.
    pub fn trigger_address_lookup(&mut self, out: &mut Vec<RemoteAction>)
        ensures
            at(final(self), final(out)) == at(old(self), old(out)).trigger_address_lookup(),
    {
        if self.state.selected_path.is_some() || self.state.address_lookup_running {
            return;
        }
        out.push(RemoteAction::StartLookup);
        self.state.address_lookup_running = true;
    }

    /// Remembers addresses that might lead to the remote endpoint.
    fn insert_addrs(&self, addrs: &Vec<TransportAddr>, source: Source, out: &mut Vec<RemoteAction>)
        ensures
            final(out)@ == old(out)@ + insert_all(self@.endpoint_id, addrs@, source),
    {
        let sendable = to_transports_addr(self.state.endpoint_id, addrs);
        let ghost before = out@;
        let ghost all = insert_all(self@.endpoint_id, addrs@, source);
        let n = sendable.len();
        let mut i: usize = 0;
        while i < n
            invariant
                i <= n == sendable@.len(),
                sendable@ == all_sendable(self@.endpoint_id, addrs@),
                all == insert_all(self@.endpoint_id, addrs@, source),
                out@ == before + all.take(i as int),
            decreases n - i,
        {
            out.push(RemoteAction::InsertAddr { addr: sendable[i], source });
            i += 1;
            assert(all.take(i as int) =~= all.take(i - 1).push(all[i - 1]));
            assert(out@ =~= before + all.take(i as int));
        }
        assert(all.take(n as int) =~= all);
    }

    /// Handles someone asking for a path to the remote endpoint, with the
    /// addresses that they know.
    pub fn handle_msg_resolve_remote(
        &mut self,
        addrs: &Vec<TransportAddr>,
        out: &mut Vec<RemoteAction>,
    )
        ensures
            at(final(self), final(out)) == at(old(self), old(out)).resolve_remote(addrs@),
    {
        self.insert_addrs(addrs, Source::App, out);
        out.push(RemoteAction::ResolveOrKeep);
        self.trigger_address_lookup(out);
    }

    /// Releases a lookup once every caller waiting on an address has
    /// cancelled. Cancelled requests do not count among those that wait.
    pub fn handle_resolve_cancellation(
        &mut self,
        addrs_is_empty: bool,
        requests_is_empty: bool,
        out: &mut Vec<RemoteAction>,
    )
        ensures
            at(final(self), final(out)) == at(old(self), old(out)).resolve_cancelled(
                addrs_is_empty,
                requests_is_empty,
            ),
    {
        if self.is_unconnected() && self.state.selected_path.is_none() && addrs_is_empty
            && requests_is_empty {
            out.push(RemoteAction::StopLookup);
            self.state.address_lookup_running = false;
        }
    }

    /// Handles an item of a lookup of addresses.
    pub fn handle_address_lookup_item(&mut self, item: &LookupResult, out: &mut Vec<RemoteAction>)
        ensures
            at(final(self), final(out)) == at(old(self), old(out)).lookup_item(*item),
    {
        match item {
            LookupResult::Finished => {
                out.push(RemoteAction::FinishLookup { failed: false });
                self.state.address_lookup_running = false;
            },
            LookupResult::Failed => {
                out.push(RemoteAction::FinishLookup { failed: true });
                self.state.address_lookup_running = false;
            },
            LookupResult::Found(found) => {
                if found.endpoint_id == self.state.endpoint_id {
                    self.insert_addrs(
                        &found.addrs,
                        Source::AddressLookup { name: found.provenance },
                        out,
                    );
                }
            },
        }
    }
}

/// Of what a lookup yields, everything counts but the error of one service.
pub proof fn only_service_errors_are_dropped<T, E, F>(item: Result<Result<T, E>, F>)
    ensures
        kept_item(item) is None <==> item is Ok && item->Ok_0 is Err,
        kept_item(item) matches Some(Ok(found)) ==> item == Ok::<Result<T, E>, F>(Ok(found)),
        kept_item(item) matches Some(Err(failed)) ==> item == Err::<Result<T, E>, F>(failed),
{
}

} // verus!
