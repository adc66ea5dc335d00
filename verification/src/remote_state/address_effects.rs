//! What becomes of the addresses of the remote endpoint: how they are
//! remembered and looked up, and where the first datagrams go.

use crate::addr::EndpointId;
use crate::flat::flat_holds;
use crate::remote_state::actor::{RemoteAction, RemoteStep, RemoteView, Source};
use crate::remote_state::connection::Surroundings;
use crate::remote_state::effects::{did_all_does, does, still_does};
use crate::remote_state::lookup::{insert_all, is_local, BootstrapAuthority, LookupResult};
use crate::remote_state::path_effects::reaches_addr;
use crate::remote_state::paths::{all_sendable, Addr, FourTuple, TransportAddr};
use crate::remote_state::run::{RemoteEvent, RemoteStateMessage};
use crate::remote_state::selection::PathSelector;
use vstd::prelude::*;

verus! {

/// Whether an address is the one to send to for an address of an endpoint as
/// callers know it. There is none for an address that is not supported.
pub open spec fn stands_for(addr: Addr, known: TransportAddr, endpoint_id: EndpointId) -> bool {
    match (addr, known) {
        (Addr::Ip(to), TransportAddr::Ip(sockaddr)) => to == sockaddr,
        (Addr::Relay(url, id), TransportAddr::Relay(relay)) => url == relay && id == endpoint_id,
        (Addr::Custom(to), TransportAddr::Custom(custom)) => to == custom,
        _ => false,
    }
}

/// How many of the addresses are of a supported kind.
pub open spec fn supported(addrs: Seq<TransportAddr>) -> nat
    decreases addrs.len(),
{
    if addrs.len() == 0 {
        0
    } else {
        supported(addrs.drop_last()) + if addrs.last() is Unsupported {
            0nat
        } else {
            1
        }
    }
}

/// To remember addresses remembers each that is supported, and as many.
proof fn inserting_is_complete(
    endpoint_id: EndpointId,
    addrs: Seq<TransportAddr>,
    source: Source,
    known: TransportAddr,
)
    ensures
        insert_all(endpoint_id, addrs, source).len() == supported(addrs),
        addrs.contains(known) && !(known is Unsupported) ==> exists|addr: Addr|
            stands_for(addr, known, endpoint_id) && #[trigger] insert_all(
                endpoint_id,
                addrs,
                source,
            ).contains(RemoteAction::InsertAddr { addr, source }),
        forall|i: int|
            0 <= i < insert_all(endpoint_id, addrs, source).len() ==> #[trigger] insert_all(
                endpoint_id,
                addrs,
                source,
            )[i] is InsertAddr,
    decreases addrs.len(),
{
    let all = insert_all(endpoint_id, addrs, source);
    if addrs.len() > 0 {
        let rest = addrs.drop_last();
        let before = insert_all(endpoint_id, rest, source);
        let last = addrs.last();
        inserting_is_complete(endpoint_id, rest, source, known);
        let form = all_sendable(endpoint_id, addrs);
        if last is Unsupported {
            assert(all =~= before);
        } else {
            let addr = form.last();
            assert(all =~= before.push(RemoteAction::InsertAddr { addr, source }));
            assert(stands_for(addr, last, endpoint_id));
            if last == known {
                assert(all[all.len() - 1] == RemoteAction::InsertAddr { addr, source });
                assert(all.contains(RemoteAction::InsertAddr { addr, source }));
            }
        }
        if addrs.contains(known) && !(known is Unsupported) && last != known {
            let k = addrs.index_of(known);
            assert(rest[k] == known);
            let addr = choose|addr: Addr|
                stands_for(addr, known, endpoint_id) && #[trigger] before.contains(
                    RemoteAction::InsertAddr { addr, source },
                );
            let i = before.index_of(RemoteAction::InsertAddr { addr, source });
            assert(all[i] == RemoteAction::InsertAddr { addr, source });
            assert(all.contains(RemoteAction::InsertAddr { addr, source }));
        }
    }
}

/// Whoever asks for a path to the remote endpoint has every supported address
/// that they give remembered, each of them; then they are answered or kept
/// waiting, and a lookup starts unless a path is selected or one runs.
pub proof fn resolve_request_remembers_every_address<S: PathSelector>(
    s: RemoteStep,
    known: Seq<Addr>,
    selector: &S,
    around: Surroundings,
    next: RemoteStep,
    addrs: Vec<TransportAddr>,
    given: TransportAddr,
    i: int,
)
    requires
        s.may_follow(
            RemoteEvent::Message(RemoteStateMessage::ResolveRemote(addrs)),
            known,
            selector,
            around,
            next,
        ),
    ensures
        ({
            let n = (s.actions.len() + supported(addrs@)) as int;
            let starts = s.state.selected_path is None && !s.state.lookup_running;
            &&& addrs@.contains(given) && !(given is Unsupported) ==> exists|addr: Addr|
                stands_for(addr, given, s.state.endpoint_id) && #[trigger] does(
                    s,
                    next,
                    RemoteAction::InsertAddr { addr, source: Source::App },
                )
            &&& s.actions.is_prefix_of(next.actions)
            &&& s.actions.len() <= i < n ==> next.actions[i] is InsertAddr
            &&& next.actions[n] == RemoteAction::ResolveOrKeep
            &&& starts ==> next.actions.len() == n + 2 && next.actions[n + 1]
                == RemoteAction::StartLookup
            &&& !starts ==> next.actions.len() == n + 1
            &&& next.state == (RemoteView {
                lookup_running: s.state.lookup_running || starts,
                ..s.state
            })
        }),
{
    let id = s.state.endpoint_id;
    let all = insert_all(id, addrs@, Source::App);
    inserting_is_complete(id, addrs@, Source::App, given);
    let mid = s.did_all(all);
    if addrs@.contains(given) && !(given is Unsupported) {
        let addr = choose|addr: Addr|
            stands_for(addr, given, id) && #[trigger] all.contains(
                RemoteAction::InsertAddr { addr, source: Source::App },
            );
        let a = RemoteAction::InsertAddr { addr, source: Source::App };
        did_all_does(s, all, a);
        still_does(s, mid, next, a);
    }
    if s.actions.len() <= i < s.actions.len() + supported(addrs@) {
        assert(next.actions[i] == all[i - s.actions.len()]);
    }
}

/// What a lookup finds about this endpoint is remembered, each supported
/// address of it, with the name of the service that found it. The end of a
/// lookup and its failure are passed on, and then none runs. What is found
/// about another endpoint changes nothing.
pub proof fn lookup_result_is_taken_in<S: PathSelector>(
    s: RemoteStep,
    known: Seq<Addr>,
    selector: &S,
    around: Surroundings,
    next: RemoteStep,
    item: LookupResult,
    given: TransportAddr,
)
    requires
        s.may_follow(RemoteEvent::Lookup(item), known, selector, around, next),
    ensures
        match item {
            LookupResult::Found(found) => {
                &&& next.state == s.state
                &&& found.endpoint_id != s.state.endpoint_id ==> next == s
                &&& found.endpoint_id == s.state.endpoint_id ==> {
                    &&& next.actions.len() == s.actions.len() + supported(found.addrs@)
                    &&& found.addrs@.contains(given) && !(given is Unsupported)
                        ==> exists|addr: Addr|
                        stands_for(addr, given, s.state.endpoint_id) && #[trigger] does(
                            s,
                            next,
                            RemoteAction::InsertAddr {
                                addr,
                                source: Source::AddressLookup { name: found.provenance },
                            },
                        )
                }
            },
            LookupResult::Finished => {
                &&& next.actions == s.actions.push(RemoteAction::FinishLookup { failed: false })
                &&& next.state == (RemoteView { lookup_running: false, ..s.state })
            },
            LookupResult::Failed => {
                &&& next.actions == s.actions.push(RemoteAction::FinishLookup { failed: true })
                &&& next.state == (RemoteView { lookup_running: false, ..s.state })
            },
        },
{
    if let LookupResult::Found(found) = item {
        let id = s.state.endpoint_id;
        let source = Source::AddressLookup { name: found.provenance };
        let all = insert_all(id, found.addrs@, source);
        inserting_is_complete(id, found.addrs@, source, given);
        if found.endpoint_id == id && found.addrs@.contains(given) && !(given is Unsupported) {
            let addr = choose|addr: Addr|
                stands_for(addr, given, id) && #[trigger] all.contains(
                    RemoteAction::InsertAddr { addr, source },
                );
            did_all_does(s, all, RemoteAction::InsertAddr { addr, source });
        }
    }
}

/// When those who asked have gone, a lookup stops exactly if there is no
/// connection, no selected path, no known address and nobody left who waits.
pub proof fn lookup_stops_for_want_of_interest<S: PathSelector>(
    s: RemoteStep,
    known: Seq<Addr>,
    selector: &S,
    around: Surroundings,
    next: RemoteStep,
    addrs_is_empty: bool,
    requests_is_empty: bool,
)
    requires
        s.may_follow(
            RemoteEvent::ResolveCancelled { addrs_is_empty, requests_is_empty },
            known,
            selector,
            around,
            next,
        ),
    ensures
        ({
            let stops = (forall|id: u64| !s.state.conns.contains_key(id))
                && s.state.selected_path is None && addrs_is_empty && requests_is_empty;
            &&& stops ==> next.actions == s.actions.push(RemoteAction::StopLookup) && next.state
                == (RemoteView { lookup_running: false, ..s.state })
            &&& !stops ==> next == s
        }),
{
    if forall|id: u64| !s.state.conns.contains_key(id) {
        assert(s.state.conns.dom() =~= Set::empty());
    }
    if s.state.conns.dom().is_empty() {
        assert forall|id: u64| !s.state.conns.contains_key(id) by {
            assert(!s.state.conns.dom().contains(id));
        }
    }
}

/// Whether a datagram goes out to an address.
pub open spec fn sends_to(s: RemoteStep, next: RemoteStep, addr: Addr) -> bool {
    exists|path: FourTuple|
        reaches_addr(path, addr) && #[trigger] does(s, next, RemoteAction::SendDatagram(path))
}

/// Whether a dial permits datagrams to an address: where authorization is
/// deferred the address has to be among those that it permits.
pub open spec fn dial_permits(v: RemoteView, authority: BootstrapAuthority, addr: Addr) -> bool {
    &&& authority.endpoint_id == v.endpoint_id
    &&& !v.deferred || authority.permitted@.contains(addr)
}

/// A datagram of a dial to this endpoint goes out over the selected path, if
/// there is one and the dial permits its address, and nowhere else. Otherwise
/// it goes to every known address that the dial permits, of whatever kind, but
/// for local ones. For a dial to another endpoint it goes nowhere.
pub proof fn datagram_goes_to_every_permitted_address<S: PathSelector>(
    s: RemoteStep,
    known: Seq<Addr>,
    selector: &S,
    around: Surroundings,
    next: RemoteStep,
    authority: BootstrapAuthority,
    addr: Addr,
    selected: Addr,
)
    requires
        s.may_follow(
            RemoteEvent::Message(RemoteStateMessage::SendDatagram(authority)),
            known,
            selector,
            around,
            next,
        ),
        s.state.selected_path is Some ==> reaches_addr(s.state.selected_path->0, selected),
    ensures
        next.state == s.state,
        s.state.selected_path is Some && dial_permits(s.state, authority, selected) ==> sends_to(
            s,
            next,
            selected,
        ) && next.actions.len() == s.actions.len() + 1,
        (s.state.selected_path is None || !dial_permits(s.state, authority, selected))
            && known.contains(addr) && dial_permits(s.state, authority, addr) && !(addr is Ip
            && around.local_addrs@.contains(addr->Ip_0)) ==> sends_to(s, next, addr),
        authority.endpoint_id != s.state.endpoint_id ==> next == s,
{
    let v = s.state;
    let local = around.local_addrs@;
    let all = v.datagram_targets(authority, known, local);
    let f = |addr: Addr|
        if v.may_bootstrap(authority, addr) && !is_local(addr, local) {
            seq![RemoteAction::SendDatagram(FourTuple::to(addr))]
        } else {
            Seq::empty()
        };
    if v.selected_path is Some && dial_permits(v, authority, selected) {
        let path = FourTuple::to(selected);
        assert(v.selected_path->0.remote_addr() == selected);
        assert(all[0] == RemoteAction::SendDatagram(path));
        assert(all.contains(RemoteAction::SendDatagram(path)));
        did_all_does(s, all, RemoteAction::SendDatagram(path));
        assert(reaches_addr(path, selected));
    } else if known.contains(addr) && dial_permits(v, authority, addr) && !(addr is Ip
        && local.contains(addr->Ip_0)) {
        if v.selected_path is Some {
            assert(v.selected_path->0.remote_addr() == selected);
        }
        let path = FourTuple::to(addr);
        let k = known.index_of(addr);
        assert(f(known[k])[0] == RemoteAction::SendDatagram(path));
        flat_holds(known, f, k, RemoteAction::SendDatagram(path));
        did_all_does(s, all, RemoteAction::SendDatagram(path));
        assert(reaches_addr(path, addr));
    }
    if authority.endpoint_id != v.endpoint_id {
        if all.len() > 0 {
            crate::remote_state::laws::datagrams_go_where_permitted(v, authority, known, local, 0);
        }
        assert(all =~= Seq::empty());
        assert(next.actions =~= s.actions);
    }
}

/// Who asks what is known about the remote endpoint is answered with its
/// identity, and nothing else happens.
pub proof fn remote_info_is_answered<S: PathSelector>(
    s: RemoteStep,
    known: Seq<Addr>,
    selector: &S,
    around: Surroundings,
    next: RemoteStep,
)
    requires
        s.may_follow(
            RemoteEvent::Message(RemoteStateMessage::RemoteInfo),
            known,
            selector,
            around,
            next,
        ),
    ensures
        next.state == s.state,
        next.actions == s.actions.push(RemoteAction::ReplyRemoteInfo(s.state.endpoint_id)),
{
}

} // verus!
