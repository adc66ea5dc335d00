use iroh::addr::{EndpointId, IpAddr, SocketAddr};
use iroh::net_report::latencies::RelayUrl;
use iroh::remote_state::actor::{
    Metric, PathStatus, RemoteAction, RemoteStateActor, ServiceName, Source,
};
use iroh::remote_state::connection::{LiveConn, PathSample, Surroundings};
use iroh::remote_state::events::{ConnPathEvent, InboxState, OpenPathError};
use iroh::remote_state::fx_map::{empty_map, sorted_keys, FxMap};
use iroh::remote_state::holepunch::{update_qnt_candidates, RoundResult};
use iroh::remote_state::lookup::{keep_item, BootstrapAuthority, LookupItem, LookupResult};
use iroh::remote_state::paths::{
    to_transports_addr, Addr, CustomMappedAddr, FourTuple, PendingOpenPaths, TransportAddr,
    MAX_PENDING_OPEN_PATHS,
};
use iroh::remote_state::run::{RemoteEvent, RemoteStateMessage};
use iroh::remote_state::selection::{
    PathSelection, PathSelectionContext, PathSelectionData, PathSelector,
};
use iroh::time::{MILLISECOND, SECOND};

fn ip_path(port: u16) -> FourTuple {
    FourTuple::Ip {
        remote: sockaddr(port),
        local: None,
    }
}

#[test]
fn pending_open_paths_are_bounded_across_multi_connection_retries() {
    let repeated_path = ip_path(1);
    let mut pending = PendingOpenPaths::default();

    // Each retry is fanned out to every connection. Two capped
    // connections must not double the queue on every retry cycle.
    for _ in 0..1_024 {
        for _connection in 0..2 {
            pending.enqueue(repeated_path.clone());
        }
    }
    assert_eq!(pending.len(), 1);
    assert!(pending.contains(&repeated_path));

    // A peer can advertise many distinct unreachable candidates. Retain
    // only a fixed working set and prefer newer observations when full.
    for port in 2..=(MAX_PENDING_OPEN_PATHS as u16 + 10) {
        pending.enqueue(ip_path(port));
    }
    assert_eq!(pending.len(), MAX_PENDING_OPEN_PATHS);
    assert!(!pending.contains(&ip_path(1)));
    assert!(pending.contains(&ip_path(MAX_PENDING_OPEN_PATHS as u16 + 10)));
}

#[test]
fn pending_paths_come_out_in_order() {
    let mut pending = PendingOpenPaths::default();
    assert_eq!(pending.pop_front(), None);
    for port in [3, 1, 2, 1] {
        pending.enqueue(ip_path(port));
    }
    assert_eq!(pending.pop_front(), Some(ip_path(3)));
    assert_eq!(pending.pop_front(), Some(ip_path(1)));
    assert_eq!(pending.pop_front(), Some(ip_path(2)));
    assert_eq!(pending.pop_front(), None);
}

fn sockaddr(port: u16) -> SocketAddr {
    SocketAddr::V4 { ip: 0xc000_0201, port }
}

fn mapped(port: u16) -> SocketAddr {
    SocketAddr::V6 { ip: 0xffff_c000_0201, port, flowinfo: 7, scope_id: 8 }
}

/// The public key of the curve's base point.
fn remote_id() -> EndpointId {
    let mut bytes = [0x66u8; 32];
    bytes[0] = 0x58;
    EndpointId::from_bytes(&bytes).unwrap()
}

/// The public key of the curve's identity.
fn other_id() -> EndpointId {
    let mut bytes = [0u8; 32];
    bytes[0] = 1;
    EndpointId::from_bytes(&bytes).unwrap()
}

fn relay_path(url: u64) -> FourTuple {
    FourTuple::Relay { url: RelayUrl(url), endpoint_id: remote_id() }
}

fn custom_path(id: u64) -> FourTuple {
    FourTuple::Custom { remote: CustomMappedAddr(id), local: None }
}

fn live(id: u64, is_client: bool) -> LiveConn {
    LiveConn {
        id,
        is_client,
        is_closed: false,
        open_paths: vec![0, 1, 2, 3],
        samples: Vec::new(),
        remote_candidates: Some(vec![sockaddr(50)]),
        local_candidates: Some(Vec::new()),
    }
}

fn around(now: u64, conns: Vec<LiveConn>) -> Surroundings {
    Surroundings { now, conns, local_addrs: vec![sockaddr(60)] }
}

/// Chooses the candidate at an index, or none.
#[derive(Debug)]
struct Pick(Option<usize>);

impl PathSelector for Pick {
    fn select(&self, ctx: &PathSelectionContext) -> PathSelection {
        let mut selection = PathSelection::none();
        if let Some(i) = self.0 {
            if let Some(path) = ctx.paths().get(i) {
                selection.set(path);
            }
        }
        selection
    }
}

const NO_PICK: Pick = Pick(None);

fn opened(actor: &mut RemoteStateActor, conn: u64, path: FourTuple, a: &Surroundings) -> Vec<RemoteAction> {
    let mut out = Vec::new();
    actor.handle_msg_add_connection(conn, Some(path), &Vec::new(), &NO_PICK, a, &mut out);
    out
}

fn established(actor: &mut RemoteStateActor, conn: u64, id: u64, path: FourTuple, a: &Surroundings) {
    let event = ConnPathEvent::Established(id, Some(path));
    actor.handle_path_event(conn, event, &NO_PICK, a, &mut Vec::new());
}

#[test]
fn keys_come_sorted() {
    let mut m: FxMap<char> = empty_map();
    for k in [9, 2, 700, 1, 42] {
        m.insert(k, 'x');
    }
    m.remove(&42);
    assert_eq!(sorted_keys(&m), vec![1, 2, 9, 700]);
    assert_eq!(sorted_keys(&empty_map::<u8>()), Vec::<u64>::new());
}

#[test]
fn selection_holds_the_path_set_last() {
    let mut selection = PathSelection::none();
    assert_eq!(selection.selected(), None);
    let mut stats = noq::PathStats::default();
    stats.cwnd = 77;
    let first = PathSelectionData::new(ip_path(1), Some(stats));
    assert_eq!(first.network_path(), &ip_path(1));
    assert_eq!(first.stats().unwrap().cwnd, 77);
    selection.set(&first);
    selection.set(&PathSelectionData::new(ip_path(2), None));
    assert_eq!(selection.selected(), Some(&ip_path(2)));
    let ctx = PathSelectionContext::with_paths(Some(ip_path(3)), vec![first]);
    assert_eq!(ctx.current(), Some(&ip_path(3)));
    assert_eq!(ctx.paths().len(), 1);
}

#[test]
fn new_connection_is_hooked_up() {
    let mut actor = RemoteStateActor::new(remote_id(), false);
    let a = around(0, vec![live(4, true)]);
    let mut out = Vec::new();
    let known = vec![
        Addr::Ip(sockaddr(9)),
        Addr::Relay(RelayUrl(8), remote_id()),
    ];
    actor.handle_msg_add_connection(4, Some(ip_path(1)), &known, &Pick(Some(0)), &a, &mut out);
    assert_eq!(
        out,
        vec![
            RemoteAction::Count(Metric::ConnsOpened),
            RemoteAction::Watch(4),
            RemoteAction::AddCandidate { conn: 4, addr: sockaddr(60) },
            RemoteAction::Count(Metric::PathsDirect),
            RemoteAction::Count(Metric::ConnsDirect),
            RemoteAction::RecordOpened { conn: 4, id: 0, path: ip_path(1) },
            RemoteAction::SetStatus { conn: 4, id: 0, status: PathStatus::Backup },
            RemoteAction::InsertOpenAddr(Addr::Ip(sockaddr(1))),
            RemoteAction::OpenPath { conn: 4, path: relay_path(8), status: PathStatus::Backup },
            RemoteAction::Count(Metric::HolepunchAttempts),
            RemoteAction::InitiateRound(4),
            RemoteAction::SetStatus { conn: 4, id: 0, status: PathStatus::Available },
            RemoteAction::RecordSelected { conn: 4, path: ip_path(1) },
        ]
    );
    assert_eq!(actor.state.selected_path, Some(ip_path(1)));
}

#[test]
fn unauthorized_connection_is_left_alone() {
    let mut actor = RemoteStateActor::new(remote_id(), true);
    let a = around(0, vec![live(4, true)]);
    let out = opened(&mut actor, 4, relay_path(8), &a);
    assert_eq!(
        out,
        vec![
            RemoteAction::Count(Metric::ConnsOpened),
            RemoteAction::Watch(4),
            RemoteAction::Count(Metric::PathsRelay),
            RemoteAction::RecordOpened { conn: 4, id: 0, path: relay_path(8) },
            RemoteAction::SetRelayIdleTimeout { conn: 4, id: 0 },
            RemoteAction::InsertOpenAddr(Addr::Relay(RelayUrl(8), remote_id())),
            RemoteAction::RecordSelected { conn: 4, path: relay_path(8) },
        ]
    );
    let mut out = Vec::new();
    actor.handle_path_event(4, ConnPathEvent::Established(1, Some(ip_path(1))), &NO_PICK, &a, &mut out);
    actor.handle_addr_event(4, &NO_PICK, &a, &mut out);
    actor.handle_msg_network_change(true, &a, &mut out);
    actor.update_local_direct_address(&a, &mut out);
    actor.open_path_on_all_conns(ip_path(1), &a, &mut out);
    assert!(out.is_empty());
    assert_eq!(actor.holepunch_conn(Some(4), &a), None);
}

#[test]
fn authorization_releases_the_connection() {
    let mut actor = RemoteStateActor::new(remote_id(), true);
    let a = around(0, vec![live(4, true)]);
    opened(&mut actor, 4, relay_path(8), &a);
    let mut out = Vec::new();
    assert!(!actor.handle_msg_authorize_nat_traversal(5, &NO_PICK, &a, &mut out));
    assert!(!actor.handle_msg_authorize_nat_traversal(4, &NO_PICK, &around(0, Vec::new()), &mut out));
    let mut closed = live(4, true);
    closed.is_closed = true;
    assert!(!actor.handle_msg_authorize_nat_traversal(4, &NO_PICK, &around(0, vec![closed]), &mut out));
    assert!(out.is_empty());
    assert!(actor.handle_msg_authorize_nat_traversal(4, &NO_PICK, &a, &mut out));
    assert_eq!(
        out,
        vec![
            RemoteAction::Authorize(4),
            RemoteAction::AddCandidate { conn: 4, addr: sockaddr(60) },
            RemoteAction::Count(Metric::HolepunchAttempts),
            RemoteAction::InitiateRound(4),
        ]
    );
    out.clear();
    assert!(actor.handle_msg_authorize_nat_traversal(4, &NO_PICK, &a, &mut out));
    assert!(out.is_empty());
}

#[test]
fn paths_wait_for_the_candidates_of_the_peer() {
    let mut actor = RemoteStateActor::new(remote_id(), true);
    let mut quiet = live(4, true);
    quiet.remote_candidates = Some(Vec::new());
    let a = around(0, vec![quiet]);
    opened(&mut actor, 4, relay_path(8), &a);
    actor.handle_msg_authorize_nat_traversal(4, &NO_PICK, &a, &mut Vec::new());
    // A path that is open already is selected without opening another.
    let mut out = Vec::new();
    actor.apply_selection(Some(relay_path(8)), &a, &mut out);
    assert_eq!(
        out,
        vec![
            RemoteAction::SetStatus { conn: 4, id: 0, status: PathStatus::Available },
            RemoteAction::RecordSelected { conn: 4, path: relay_path(8) },
        ]
    );
    // One that is not open stays closed.
    out.clear();
    actor.apply_selection(Some(ip_path(1)), &a, &mut out);
    actor.open_path_on_all_conns(ip_path(1), &a, &mut out);
    assert!(out.is_empty());
    // An announcement without addresses changes nothing.
    actor.handle_addr_event(4, &NO_PICK, &a, &mut Vec::new());
    actor.open_path_on_all_conns(ip_path(1), &a, &mut out);
    assert!(out.is_empty());
    actor.handle_addr_event(4, &NO_PICK, &around(0, vec![live(4, true)]), &mut Vec::new());
    actor.open_path_on_all_conns(ip_path(1), &around(0, vec![live(4, true)]), &mut out);
    assert_eq!(
        out,
        vec![RemoteAction::OpenPath { conn: 4, path: ip_path(1), status: PathStatus::Available }]
    );
}

#[test]
fn one_ip_path_stays_open() {
    let mut actor = RemoteStateActor::new(remote_id(), false);
    let a = around(0, vec![live(4, true)]);
    opened(&mut actor, 4, relay_path(8), &a);
    established(&mut actor, 4, 1, ip_path(1), &a);
    established(&mut actor, 4, 2, ip_path(2), &a);
    established(&mut actor, 4, 3, custom_path(5), &a);
    let status = |id: u64, status: PathStatus| RemoteAction::SetStatus { conn: 4, id, status };
    // With the relay path selected, the first IP path is kept.
    let mut out = Vec::new();
    actor.apply_selection(Some(relay_path(8)), &a, &mut out);
    assert_eq!(
        out,
        vec![
            status(0, PathStatus::Available),
            status(1, PathStatus::Backup),
            RemoteAction::ClosePath { conn: 4, id: 2 },
            status(3, PathStatus::Backup),
            RemoteAction::RecordSelected { conn: 4, path: relay_path(8) },
        ]
    );
    // With an IP path selected, the other one is closed.
    out.clear();
    actor.apply_selection(Some(ip_path(2)), &a, &mut out);
    assert_eq!(
        out,
        vec![
            status(0, PathStatus::Backup),
            RemoteAction::ClosePath { conn: 4, id: 1 },
            status(2, PathStatus::Available),
            status(3, PathStatus::Backup),
            RemoteAction::RecordSelected { conn: 4, path: ip_path(2) },
        ]
    );
    // While the selected one is not up, one of the others is kept.
    out.clear();
    actor.apply_selection(Some(ip_path(3)), &a, &mut out);
    assert_eq!(
        out[0],
        RemoteAction::OpenPath { conn: 4, path: ip_path(3), status: PathStatus::Available }
    );
    assert_eq!(out[2], status(1, PathStatus::Backup));
    assert_eq!(out[3], RemoteAction::ClosePath { conn: 4, id: 2 });
    // A path that the connection does not know any more is not counted.
    out.clear();
    let mut partial = live(4, true);
    partial.open_paths = vec![2];
    actor.apply_selection(Some(relay_path(8)), &around(0, vec![partial]), &mut out);
    assert_eq!(
        out,
        vec![
            status(2, PathStatus::Backup),
            RemoteAction::RecordSelected { conn: 4, path: relay_path(8) },
        ]
    );
    // The server closes and opens nothing.
    out.clear();
    actor.apply_selection(Some(ip_path(9)), &around(0, vec![live(4, false)]), &mut out);
    assert!(out.iter().all(|x| !matches!(x, RemoteAction::ClosePath { .. } | RemoteAction::OpenPath { .. })));
}

#[test]
fn empty_selection_keeps_the_path() {
    let mut actor = RemoteStateActor::new(remote_id(), false);
    let a = around(0, vec![live(4, true)]);
    opened(&mut actor, 4, ip_path(1), &a);
    actor.select_path(&Pick(Some(0)), &a, &mut Vec::new());
    assert_eq!(actor.state.selected_path, Some(ip_path(1)));
    actor.select_path(&NO_PICK, &a, &mut Vec::new());
    assert_eq!(actor.state.selected_path, Some(ip_path(1)));
}

#[test]
fn selector_sees_authorized_paths_in_order() {
    let mut actor = RemoteStateActor::new(remote_id(), false);
    let mut stats = noq::PathStats::default();
    stats.cwnd = 5;
    let mut first = live(4, true);
    first.samples = vec![PathSample { id: 1, stats, rtt: SECOND }];
    let a = around(0, vec![first, live(3, false)]);
    opened(&mut actor, 4, relay_path(8), &a);
    opened(&mut actor, 3, ip_path(7), &a);
    established(&mut actor, 4, 1, ip_path(1), &a);
    let ctx = PathSelectionContext::new(None, &actor.connections, &a);
    let seen: Vec<_> = ctx.paths().iter().map(|p| (*p.network_path(), p.stats().map(|s| s.cwnd))).collect();
    assert_eq!(
        seen,
        vec![(ip_path(7), None), (relay_path(8), None), (ip_path(1), Some(5))]
    );
}

#[test]
fn holepunching_waits_for_its_interval() {
    for deferred in [false, true] {
        let mut actor = RemoteStateActor::new(remote_id(), deferred);
        let a = around(SECOND, vec![live(4, true)]);
        opened(&mut actor, 4, relay_path(8), &a);
        if deferred {
            actor.handle_msg_authorize_nat_traversal(4, &NO_PICK, &a, &mut Vec::new());
        }
        // What is announced in another form is the same candidate.
        let started = RoundResult::Started(vec![mapped(50)]);
        actor.on_round_result(4, &started, SECOND, &a.local_addrs);
        let mut out = Vec::new();
        actor.trigger_holepunching_for(Some(4), &around(6 * SECOND - 1, vec![live(4, true)]), &mut out);
        assert!(out.is_empty());
        let conn = if deferred { Some(4) } else { None };
        assert_eq!(actor.next_scheduled_holepunch(), Some((conn, 6 * SECOND)));
        let initiated = vec![
            RemoteAction::Count(Metric::HolepunchAttempts),
            RemoteAction::InitiateRound(4),
        ];
        actor.on_scheduled_holepunch(conn, &around(6 * SECOND, vec![live(4, true)]), &mut out);
        assert_eq!(out, initiated);
        assert_eq!(actor.next_scheduled_holepunch(), None);
        // A new candidate does not wait.
        out.clear();
        let mut more = live(4, true);
        more.remote_candidates = Some(vec![sockaddr(50), sockaddr(51)]);
        actor.trigger_holepunching_for(Some(4), &around(2 * SECOND, vec![more]), &mut out);
        assert_eq!(out, initiated);
    }
}

#[test]
fn failed_round_is_tried_again_where_that_may_help() {
    let mut actor = RemoteStateActor::new(remote_id(), false);
    let none = Vec::new();
    actor.on_round_result(4, &RoundResult::Failed, SECOND, &none);
    assert_eq!(actor.next_scheduled_holepunch(), None);
    actor.on_round_result(4, &RoundResult::Multipath, SECOND, &none);
    assert_eq!(actor.next_scheduled_holepunch(), Some((None, SECOND + 100 * MILLISECOND)));
    actor.on_round_result(4, &RoundResult::NotEnoughAddresses, 2 * SECOND, &none);
    assert_eq!(actor.next_scheduled_holepunch(), Some((None, 2 * SECOND + 100 * MILLISECOND)));
    actor.on_round_result(4, &RoundResult::Started(Vec::new()), 3 * SECOND, &none);
    assert_eq!(actor.next_scheduled_holepunch(), None);
}

#[test]
fn lowest_client_holepunches() {
    let mut actor = RemoteStateActor::new(remote_id(), false);
    let a = around(0, vec![live(9, true), live(5, true), live(3, false)]);
    for id in [9, 5, 3] {
        opened(&mut actor, id, relay_path(8), &a);
    }
    assert_eq!(actor.holepunch_conn(None, &a), Some(5));
    assert_eq!(actor.holepunch_conn(Some(9), &a), Some(5));
    assert_eq!(actor.holepunch_conn(None, &around(0, vec![live(9, true)])), Some(9));
    assert_eq!(actor.holepunch_conn(None, &around(0, vec![live(3, false)])), None);
}

#[test]
fn every_deferred_client_holepunches() {
    let mut actor = RemoteStateActor::new(remote_id(), true);
    let a = around(0, vec![live(9, true), live(5, true), live(3, false)]);
    for id in [9, 5, 3] {
        opened(&mut actor, id, relay_path(8), &a);
        actor.handle_msg_authorize_nat_traversal(id, &NO_PICK, &a, &mut Vec::new());
    }
    assert_eq!(actor.holepunch_conn(None, &a), Some(5));
    assert_eq!(actor.holepunch_conn(Some(9), &a), Some(9));
    let mut out = Vec::new();
    actor.trigger_holepunching_all(&a, &mut out);
    let count = RemoteAction::Count(Metric::HolepunchAttempts);
    assert_eq!(
        out,
        vec![count, RemoteAction::InitiateRound(5), count, RemoteAction::InitiateRound(9)]
    );
    // The earliest scheduled attempt is the next.
    actor.on_round_result(9, &RoundResult::Multipath, SECOND, &Vec::new());
    actor.on_round_result(5, &RoundResult::Multipath, 2 * SECOND, &Vec::new());
    let next = actor.next_scheduled_holepunch();
    assert_eq!(next, Some((Some(9), SECOND + 100 * MILLISECOND)));
}

#[test]
fn slow_connections_are_holepunched() {
    let mut actor = RemoteStateActor::new(remote_id(), false);
    let sampled = |id: u64, rtt: u64| {
        let mut l = live(4, true);
        l.samples = vec![PathSample { id, stats: noq::PathStats::default(), rtt }];
        around(0, vec![l])
    };
    let mut out = Vec::new();
    actor.check_connections(&around(0, Vec::new()), &mut out);
    assert!(out.is_empty());
    let a = around(0, vec![live(4, true)]);
    opened(&mut actor, 4, relay_path(8), &a);
    established(&mut actor, 4, 1, ip_path(1), &a);
    actor.check_connections(&sampled(1, 10 * MILLISECOND), &mut out);
    assert!(out.is_empty());
    for bad in [sampled(1, 10 * MILLISECOND + 1), sampled(0, MILLISECOND), a] {
        out.clear();
        actor.check_connections(&bad, &mut out);
        assert_eq!(out.len(), 2);
    }
    // A connection that was dropped is not good enough, but there is none to
    // holepunch on.
    out.clear();
    actor.check_connections(&around(0, Vec::new()), &mut out);
    assert!(out.is_empty());
}

#[test]
fn candidates_become_the_direct_addresses() {
    let mut actor = RemoteStateActor::new(remote_id(), false);
    let mut l = live(4, true);
    l.local_candidates = Some(vec![sockaddr(60), sockaddr(61)]);
    let a = around(0, vec![l]);
    opened(&mut actor, 4, relay_path(8), &a);
    let mut moved = around(0, a.conns);
    moved.local_addrs = vec![sockaddr(62), sockaddr(60)];
    let mut out = Vec::new();
    actor.update_local_direct_address(&moved, &mut out);
    assert_eq!(
        out,
        vec![
            RemoteAction::AddCandidate { conn: 4, addr: sockaddr(62) },
            RemoteAction::RemoveCandidate { conn: 4, addr: sockaddr(61) },
        ]
    );
}

#[test]
fn candidates_are_updated_once() {
    let mut l = live(4, true);
    l.local_candidates = Some(vec![sockaddr(1), sockaddr(2), sockaddr(1), sockaddr(2)]);
    let direct = vec![sockaddr(3), sockaddr(2), sockaddr(3), sockaddr(5), sockaddr(3)];
    let mut out = Vec::new();
    update_qnt_candidates(4, &l, &direct, &mut out);
    assert_eq!(
        out,
        vec![
            RemoteAction::AddCandidate { conn: 4, addr: sockaddr(3) },
            RemoteAction::AddCandidate { conn: 4, addr: sockaddr(5) },
            RemoteAction::RemoveCandidate { conn: 4, addr: sockaddr(1) },
        ]
    );
}

#[test]
fn network_change_pings_open_paths() {
    let mut actor = RemoteStateActor::new(remote_id(), false);
    let a = around(0, vec![live(4, true)]);
    opened(&mut actor, 4, relay_path(8), &a);
    established(&mut actor, 4, 1, ip_path(1), &a);
    established(&mut actor, 4, 7, ip_path(2), &a);
    let mut out = Vec::new();
    actor.handle_msg_network_change(false, &a, &mut out);
    let pings = vec![RemoteAction::Ping { conn: 4, id: 0 }, RemoteAction::Ping { conn: 4, id: 1 }];
    assert_eq!(out, pings);
    actor.handle_msg_network_change(true, &a, &mut out);
    assert_eq!(out.last(), Some(&RemoteAction::InitiateRound(4)));
}

#[test]
fn selected_path_goes_with_the_last_connection() {
    let mut actor = RemoteStateActor::new(remote_id(), false);
    let a = around(0, vec![live(4, true), live(5, true)]);
    opened(&mut actor, 4, ip_path(1), &a);
    opened(&mut actor, 5, ip_path(1), &a);
    actor.select_path(&Pick(Some(0)), &a, &mut Vec::new());
    let mut out = Vec::new();
    actor.handle_connection_close(4, &mut out);
    assert_eq!(out, vec![RemoteAction::Count(Metric::ConnsClosed), RemoteAction::RecordClosed(4)]);
    assert_eq!(actor.state.selected_path, Some(ip_path(1)));
    let idle = InboxState { is_empty: true, has_other_senders: false };
    assert!(!actor.is_idle(idle, true));
    out.clear();
    actor.handle_connection_close(5, &mut out);
    assert_eq!(actor.state.selected_path, None);
    assert!(actor.is_idle(idle, true));
    assert!(!actor.is_idle(idle, false));
    assert!(!actor.is_idle(InboxState { is_empty: false, ..idle }, true));
    assert!(!actor.is_idle(InboxState { has_other_senders: true, ..idle }, true));
    out.clear();
    actor.handle_connection_close(5, &mut out);
    assert!(out.is_empty());
}

#[test]
fn address_is_abandoned_with_its_last_path() {
    let mut actor = RemoteStateActor::new(remote_id(), false);
    let a = around(0, vec![live(4, true), live(5, true)]);
    let from = FourTuple::Ip { remote: sockaddr(1), local: Some(IpAddr::V4(7)) };
    opened(&mut actor, 4, ip_path(1), &a);
    opened(&mut actor, 5, from, &a);
    let mut out = Vec::new();
    actor.handle_path_event(4, ConnPathEvent::Abandoned(0), &NO_PICK, &a, &mut out);
    assert_eq!(out, vec![RemoteAction::RecordAbandoned { conn: 4, id: 0 }]);
    out.clear();
    actor.handle_path_event(5, ConnPathEvent::Abandoned(0), &NO_PICK, &a, &mut out);
    assert_eq!(
        out,
        vec![
            RemoteAction::RecordAbandoned { conn: 5, id: 0 },
            RemoteAction::AbandonAddr(Addr::Ip(sockaddr(1))),
        ]
    );
    out.clear();
    for event in [
        ConnPathEvent::Abandoned(0),
        ConnPathEvent::Discarded(0),
        ConnPathEvent::EstablishedUnknown(3),
        ConnPathEvent::Other,
        ConnPathEvent::Lagged,
    ] {
        actor.handle_path_event(5, event, &Pick(Some(0)), &a, &mut out);
    }
    actor.handle_path_event(6, ConnPathEvent::Established(0, None), &NO_PICK, &a, &mut out);
    assert!(out.is_empty());
}

#[test]
fn failed_paths_are_tried_again() {
    let mut actor = RemoteStateActor::new(remote_id(), false);
    let a = around(0, vec![live(4, true), live(5, true)]);
    opened(&mut actor, 4, relay_path(8), &a);
    opened(&mut actor, 5, relay_path(8), &a);
    actor.on_open_failed(ip_path(9), OpenPathError::Failed, SECOND);
    assert_eq!(actor.state.scheduled_open_path, None);
    actor.on_open_failed(ip_path(1), OpenPathError::RemoteCidsExhausted, SECOND);
    actor.on_open_failed(ip_path(2), OpenPathError::MaxPathIdReached, 2 * SECOND);
    assert_eq!(actor.state.scheduled_open_path, Some(2 * SECOND + 333 * MILLISECOND));
    let mut out = Vec::new();
    actor.open_pending_paths(&a, &mut out);
    let open = |conn: u64, port: u16| RemoteAction::OpenPath {
        conn,
        path: ip_path(port),
        status: PathStatus::Backup,
    };
    assert_eq!(out, vec![open(4, 1), open(5, 1), open(4, 2), open(5, 2)]);
    assert_eq!(actor.state.scheduled_open_path, None);
    assert_eq!(actor.state.pending_open_paths.len(), 0);
}

#[test]
fn unsupported_addresses_are_left_out() {
    let addrs = vec![
        TransportAddr::Unsupported,
        TransportAddr::Relay(RelayUrl(8)),
        TransportAddr::Ip(sockaddr(1)),
        TransportAddr::Custom(CustomMappedAddr(3)),
    ];
    assert_eq!(
        to_transports_addr(remote_id(), &addrs),
        vec![
            Addr::Relay(RelayUrl(8), remote_id()),
            Addr::Ip(sockaddr(1)),
            Addr::Custom(CustomMappedAddr(3)),
        ]
    );
}

#[test]
fn lookup_runs_when_needed() {
    let mut actor = RemoteStateActor::new(remote_id(), false);
    let mut out = Vec::new();
    actor.handle_msg_resolve_remote(&vec![TransportAddr::Ip(sockaddr(1))], &mut out);
    assert_eq!(
        out,
        vec![
            RemoteAction::InsertAddr { addr: Addr::Ip(sockaddr(1)), source: Source::App },
            RemoteAction::ResolveOrKeep,
            RemoteAction::StartLookup,
        ]
    );
    out.clear();
    actor.handle_msg_resolve_remote(&Vec::new(), &mut out);
    assert_eq!(out, vec![RemoteAction::ResolveOrKeep]);
    out.clear();
    let item = |endpoint_id: EndpointId| {
        LookupResult::Found(LookupItem {
            endpoint_id,
            addrs: vec![TransportAddr::Relay(RelayUrl(8))],
            provenance: ServiceName(3),
        })
    };
    actor.handle_address_lookup_item(&item(other_id()), &mut out);
    assert!(out.is_empty());
    actor.handle_address_lookup_item(&item(remote_id()), &mut out);
    let addr = Addr::Relay(RelayUrl(8), remote_id());
    let source = Source::AddressLookup { name: ServiceName(3) };
    assert_eq!(out, vec![RemoteAction::InsertAddr { addr, source }]);
    out.clear();
    actor.handle_address_lookup_item(&LookupResult::Finished, &mut out);
    assert_eq!(out, vec![RemoteAction::FinishLookup { failed: false }]);
    out.clear();
    actor.trigger_address_lookup(&mut out);
    actor.handle_address_lookup_item(&LookupResult::Failed, &mut out);
    assert_eq!(out, vec![RemoteAction::StartLookup, RemoteAction::FinishLookup { failed: true }]);
    out.clear();
    actor.state.selected_path = Some(ip_path(1));
    actor.trigger_address_lookup(&mut out);
    assert!(out.is_empty());
}

#[test]
fn lookup_stops_when_nobody_waits() {
    let mut actor = RemoteStateActor::new(remote_id(), false);
    actor.trigger_address_lookup(&mut Vec::new());
    let mut out = Vec::new();
    actor.handle_resolve_cancellation(false, true, &mut out);
    actor.handle_resolve_cancellation(true, false, &mut out);
    actor.state.selected_path = Some(ip_path(1));
    actor.handle_resolve_cancellation(true, true, &mut out);
    actor.state.selected_path = None;
    assert!(out.is_empty() && actor.state.address_lookup_running);
    actor.handle_resolve_cancellation(true, true, &mut out);
    assert_eq!(out, vec![RemoteAction::StopLookup]);
    assert!(!actor.state.address_lookup_running);
}

#[test]
fn errors_of_one_service_are_dropped() {
    assert_eq!(keep_item::<u8, u8, u8>(Ok(Ok(1))), Some(Ok(1)));
    assert_eq!(keep_item::<u8, u8, u8>(Ok(Err(2))), None);
    assert_eq!(keep_item::<u8, u8, u8>(Err(3)), Some(Err(3)));
}

#[test]
fn datagrams_go_where_permitted() {
    let known = vec![
        Addr::Ip(sockaddr(1)),
        Addr::Ip(sockaddr(60)),
        Addr::Relay(RelayUrl(8), remote_id()),
    ];
    let local = vec![sockaddr(60)];
    let authority = BootstrapAuthority {
        endpoint_id: remote_id(),
        permitted: vec![Addr::Relay(RelayUrl(8), remote_id())],
    };
    let other = BootstrapAuthority { endpoint_id: other_id(), permitted: Vec::new() };
    let mut actor = RemoteStateActor::new(remote_id(), false);
    let mut out = Vec::new();
    actor.handle_msg_send_datagram(&authority, &known, &local, &mut out);
    assert_eq!(
        out,
        vec![RemoteAction::SendDatagram(ip_path(1)), RemoteAction::SendDatagram(relay_path(8))]
    );
    out.clear();
    actor.handle_msg_send_datagram(&other, &known, &local, &mut out);
    assert!(out.is_empty());
    actor.state.selected_path = Some(FourTuple::Ip { remote: sockaddr(3), local: Some(IpAddr::V4(1)) });
    actor.handle_msg_send_datagram(&authority, &known, &local, &mut out);
    assert_eq!(out, vec![RemoteAction::SendDatagram(ip_path(3))]);
    // Where authorization is deferred, only permitted addresses count.
    actor.state.defer_nat_traversal_until_authorized = true;
    out.clear();
    actor.handle_msg_send_datagram(&authority, &known, &local, &mut out);
    assert_eq!(out, vec![RemoteAction::SendDatagram(relay_path(8))]);
    assert!(authority.permits(remote_id(), Addr::Relay(RelayUrl(8), remote_id())));
    assert!(!authority.permits(remote_id(), Addr::Ip(sockaddr(1))));
}

#[test]
fn canonical_form_of_addresses() {
    assert_eq!(mapped(5).to_canonical(), sockaddr(5));
    assert_eq!(sockaddr(5).to_canonical(), sockaddr(5));
    let v6 = SocketAddr::V6 { ip: 1 << 100, port: 5, flowinfo: 1, scope_id: 2 };
    let plain = SocketAddr::V6 { ip: 1 << 100, port: 5, flowinfo: 0, scope_id: 0 };
    assert_eq!(v6.to_canonical(), plain);
}

#[test]
fn steps_follow_events() {
    let mut actor = RemoteStateActor::new(remote_id(), true);
    let a = around(0, vec![live(4, true)]);
    let known = Vec::new();
    let mut out = Vec::new();
    let timeout = |is_empty: bool| RemoteEvent::IdleTimeout {
        inbox: InboxState { is_empty, has_other_senders: false },
        requests_is_empty: true,
    };
    let idle = || timeout(true);
    let busy = timeout(false);
    assert!(actor.step(idle(), &known, &NO_PICK, &a, &mut out));
    assert!(!actor.step(busy, &known, &NO_PICK, &a, &mut out));
    let add = RemoteStateMessage::AddConnection(4, Some(ip_path(1)));
    assert!(actor.handle_message(add, &known, &NO_PICK, &a, &mut out));
    assert!(!actor.step(idle(), &known, &NO_PICK, &a, &mut out));
    let authorize = |conn: u64| RemoteStateMessage::AuthorizeNatTraversal(conn);
    assert!(!actor.handle_message(authorize(5), &known, &NO_PICK, &a, &mut out));
    assert!(actor.handle_message(authorize(4), &known, &Pick(Some(0)), &a, &mut out));
    assert_eq!(actor.state.selected_path, Some(ip_path(1)));
    out.clear();
    actor.step(RemoteEvent::LocalAddrsChanged, &known, &NO_PICK, &a, &mut out);
    assert_eq!(
        out,
        vec![
            RemoteAction::AddCandidate { conn: 4, addr: sockaddr(60) },
            RemoteAction::Count(Metric::HolepunchAttempts),
            RemoteAction::InitiateRound(4),
        ]
    );
    out.clear();
    actor.step(RemoteEvent::ConnectionClosed(4), &known, &NO_PICK, &a, &mut out);
    assert_eq!(actor.state.selected_path, None);
    assert_eq!(actor.state.endpoint_id, remote_id());
}

#[test]
fn remote_info_is_answered() {
    let mut actor = RemoteStateActor::new(remote_id(), false);
    let a = around(0, Vec::new());
    let mut out = Vec::new();
    let known = vec![Addr::Ip(sockaddr(1))];
    assert!(actor.handle_message(RemoteStateMessage::RemoteInfo, &known, &NO_PICK, &a, &mut out));
    assert_eq!(out, vec![RemoteAction::ReplyRemoteInfo(remote_id())]);
}

#[test]
fn authorization_is_needed_once() {
    let mut actor = RemoteStateActor::new(remote_id(), true);
    let a = around(0, vec![live(4, true)]);
    assert!(!actor.needs_authorization(4, &a));
    opened(&mut actor, 4, ip_path(1), &a);
    assert!(actor.needs_authorization(4, &a));
    assert!(!actor.needs_authorization(5, &a));
    let mut closed = live(4, true);
    closed.is_closed = true;
    assert!(!actor.needs_authorization(4, &around(0, vec![closed])));
    actor.handle_msg_authorize_nat_traversal(4, &NO_PICK, &a, &mut Vec::new());
    assert!(!actor.needs_authorization(4, &a));
}

#[test]
fn steps_do_not_touch_what_is_held() {
    let mut actor = RemoteStateActor::new(remote_id(), true);
    let a = around(0, vec![live(4, true), live(5, true)]);
    let known = vec![Addr::Relay(RelayUrl(8), remote_id())];
    opened(&mut actor, 4, ip_path(1), &a);
    opened(&mut actor, 5, ip_path(2), &a);
    let mut out = Vec::new();
    let authorize = RemoteEvent::Message(RemoteStateMessage::AuthorizeNatTraversal(5));
    let major = RemoteEvent::Message(RemoteStateMessage::NetworkChange { is_major: true });
    for event in [
        authorize,
        RemoteEvent::CandidatesAnnounced(5),
        RemoteEvent::CandidatesAnnounced(4),
        RemoteEvent::Path(5, ConnPathEvent::Established(1, Some(ip_path(3)))),
        RemoteEvent::Path(4, ConnPathEvent::Established(1, Some(ip_path(3)))),
        RemoteEvent::LocalAddrsChanged,
        RemoteEvent::HolepunchDue(Some(4)),
        RemoteEvent::CheckDue,
        major,
    ] {
        actor.step(event, &known, &Pick(Some(0)), &a, &mut out);
    }
    let managed = |action: &RemoteAction| match *action {
        RemoteAction::AddCandidate { conn, .. } => conn,
        RemoteAction::RemoveCandidate { conn, .. } => conn,
        RemoteAction::InitiateRound(conn) => conn,
        RemoteAction::OpenPath { conn, .. } => conn,
        RemoteAction::ClosePath { conn, .. } => conn,
        RemoteAction::SetStatus { conn, .. } => conn,
        RemoteAction::Ping { conn, .. } => conn,
        _ => 5,
    };
    assert!(out.contains(&RemoteAction::InitiateRound(5)));
    assert!(out.iter().all(|action| managed(action) == 5));
}
