//! Network paths to a remote endpoint, and the paths that wait to be opened.

use crate::addr::{EndpointId, IpAddr, SocketAddr};
use crate::net_report::latencies::RelayUrl;
use std::collections::VecDeque;
use vstd::prelude::*;

verus! {

/// An address of a custom transport, by its entry in the endpoint's table of
/// such addresses.
#[derive(Debug, Clone, Copy, PartialEq, Eq, PartialOrd, Ord, Hash, Structural)]
pub struct CustomMappedAddr(pub u64);

/// An address of a remote endpoint as callers know it.
#[derive(Debug, Clone, Copy, PartialEq, Eq, PartialOrd, Ord, Hash, Structural)]
pub enum TransportAddr {
    Relay(RelayUrl),
    Ip(SocketAddr),
    Custom(CustomMappedAddr),
    /// An address of a kind that is not supported.
    Unsupported,
}

/// An address to which datagrams can be sent.
#[derive(Debug, Clone, Copy, PartialEq, Eq, PartialOrd, Ord, Hash, Structural)]
pub enum Addr {
    Ip(SocketAddr),
    Relay(RelayUrl, EndpointId),
    Custom(CustomMappedAddr),
}

impl Addr {
    /// Returns `true` for an address via a relay.
    pub fn is_relay(&self) -> (r: bool)
        ensures
            r == (*self is Relay),
    {
        matches!(self, Addr::Relay(_, _))
    }
}

/// A network path: where it leads, and where it starts if that is known.
#[allow(inconsistent_fields)]
#[derive(Debug, Clone, Copy, PartialEq, Eq, PartialOrd, Ord, Hash, Structural)]
pub enum FourTuple {
    Ip { remote: SocketAddr, local: Option<IpAddr> },
    Relay { url: RelayUrl, endpoint_id: EndpointId },
    Custom { remote: CustomMappedAddr, local: Option<CustomMappedAddr> },
}

impl FourTuple {
    /// The address that the path leads to.
    pub open spec fn remote_addr(self) -> Addr {
        match self {
            FourTuple::Ip { remote, .. } => Addr::Ip(remote),
            FourTuple::Relay { url, endpoint_id } => Addr::Relay(url, endpoint_id),
            FourTuple::Custom { remote, .. } => Addr::Custom(remote),
        }
    }

    /// The path to an address from anywhere.
    pub open spec fn to(addr: Addr) -> FourTuple {
        match addr {
            Addr::Ip(remote) => FourTuple::Ip { remote, local: None },
            Addr::Relay(url, endpoint_id) => FourTuple::Relay { url, endpoint_id },
            Addr::Custom(remote) => FourTuple::Custom { remote, local: None },
        }
    }

    /// Returns the path to an address from anywhere.
    pub fn from_remote(addr: Addr) -> (r: FourTuple)
        ensures
            r == FourTuple::to(addr),
    {
        match addr {
            Addr::Ip(remote) => FourTuple::Ip { remote, local: None },
            Addr::Relay(url, endpoint_id) => FourTuple::Relay { url, endpoint_id },
            Addr::Custom(remote) => FourTuple::Custom { remote, local: None },
        }
    }

    /// Returns the address that the path leads to.
    pub fn remote(&self) -> (r: Addr)
        ensures
            r == self.remote_addr(),
    {
        match *self {
            FourTuple::Ip { remote, .. } => Addr::Ip(remote),
            FourTuple::Relay { url, endpoint_id } => Addr::Relay(url, endpoint_id),
            FourTuple::Custom { remote, .. } => Addr::Custom(remote),
        }
    }

    /// Returns `true` for an IP path.
    pub fn is_ip(&self) -> (r: bool)
        ensures
            r == (*self is Ip),
    {
        matches!(self, FourTuple::Ip { .. })
    }

    /// Returns `true` for a path via a relay.
    pub fn is_relay(&self) -> (r: bool)
        ensures
            r == (*self is Relay),
    {
        matches!(self, FourTuple::Relay { .. })
    }
}

/// The address to send to for an address of endpoint `endpoint_id`, if it is
/// of a supported kind.
pub open spec fn sendable(endpoint_id: EndpointId, addr: TransportAddr) -> Option<Addr> {
    match addr {
        TransportAddr::Relay(url) => Some(Addr::Relay(url, endpoint_id)),
        TransportAddr::Ip(sockaddr) => Some(Addr::Ip(sockaddr)),
        TransportAddr::Custom(custom) => Some(Addr::Custom(custom)),
        TransportAddr::Unsupported => None,
    }
}

/// The addresses to send to for addresses of endpoint `endpoint_id`, in their
/// order, without those that are not supported.
pub open spec fn all_sendable(endpoint_id: EndpointId, addrs: Seq<TransportAddr>) -> Seq<Addr>
    decreases addrs.len(),
{
    if addrs.len() == 0 {
        Seq::empty()
    } else {
        let before = all_sendable(endpoint_id, addrs.drop_last());
        match sendable(endpoint_id, addrs.last()) {
            Some(addr) => before.push(addr),
            None => before,
        }
    }
}

/// Converts addresses of endpoint `endpoint_id` into addresses to send to.
pub fn to_transports_addr(endpoint_id: EndpointId, addrs: &Vec<TransportAddr>) -> (r: Vec<Addr>)
    ensures
        r@ == all_sendable(endpoint_id, addrs@),
{
    let mut r: Vec<Addr> = Vec::new();
    let n = addrs.len();
    let mut i: usize = 0;
    while i < n
        invariant
            i <= n == addrs@.len(),
            r@ == all_sendable(endpoint_id, addrs@.take(i as int)),
        decreases n - i,
    {
        match addrs[i] {
            TransportAddr::Relay(url) => r.push(Addr::Relay(url, endpoint_id)),
            TransportAddr::Ip(sockaddr) => r.push(Addr::Ip(sockaddr)),
            TransportAddr::Custom(custom) => r.push(Addr::Custom(custom)),
            TransportAddr::Unsupported => {},
        }
        i += 1;
        assert(addrs@.take(i as int).drop_last() =~= addrs@.take(i - 1));
    }
    assert(addrs@.take(n as int) =~= addrs@);
    r
}

/// Maximum number of distinct paths waiting for a path-open retry.
///
/// A failed retry is attempted on every connection to the remote. Bounding and
/// deduplicating this queue prevents that fan-out from growing it indefinitely.
pub const MAX_PENDING_OPEN_PATHS: usize = 64;

/// Paths that wait to be opened, oldest first.
#[derive(Debug)]
pub struct PendingOpenPaths {
    entries: VecDeque<FourTuple>,
}

impl View for PendingOpenPaths {
    type V = Seq<FourTuple>;

    closed spec fn view(&self) -> Seq<FourTuple> {
        self.entries@
    }
}

/// The queue after `path` came to wait: one that waits already keeps its
/// place, and where the queue is full the oldest makes room.
pub open spec fn enqueued(waiting: Seq<FourTuple>, path: FourTuple) -> Seq<FourTuple> {
    if waiting.contains(path) {
        waiting
    } else if waiting.len() >= MAX_PENDING_OPEN_PATHS {
        waiting.drop_first().push(path)
    } else {
        waiting.push(path)
    }
}

impl Default for PendingOpenPaths {
    fn default() -> (r: Self)
        ensures
            r@ == Seq::<FourTuple>::empty(),
    {
        PendingOpenPaths { entries: VecDeque::new() }
    }
}

impl PendingOpenPaths {
    /// Lets a path wait, unless it waits already.
    pub fn enqueue(&mut self, path: FourTuple)
        ensures
            final(self)@ == enqueued(old(self)@, path),
    {
        if self.contains(&path) {
            return;
        }
        if self.entries.len() >= MAX_PENDING_OPEN_PATHS {
            self.entries.pop_front();
        }
        self.entries.push_back(path);
        assert(self@ =~= enqueued(old(self)@, path));
    }

    /// Hands out the path that has waited longest.
    pub fn pop_front(&mut self) -> (r: Option<FourTuple>)
        ensures
            match r {
                Some(path) => old(self)@.len() > 0 && path == old(self)@.first() && final(self)@
                    == old(self)@.drop_first(),
                None => old(self)@.len() == 0 && final(self)@ == old(self)@,
            },
    {
        let r = self.entries.pop_front();
        assert(r is Some ==> self@ =~= old(self)@.drop_first());
        r
    }

    /// Returns `true` if a path waits.
    pub fn contains(&self, path: &FourTuple) -> (r: bool)
        ensures
            r == self@.contains(*path),
    {
        let n = self.entries.len();
        let mut i: usize = 0;
        while i < n
            invariant
                i <= n == self@.len(),
                forall|j: int| 0 <= j < i ==> self@[j] != *path,
            decreases n - i,
        {
            if self.entries[i] == *path {
                assert(self@[i as int] == *path);
                return true;
            }
            i += 1;
        }
        false
    }

    /// Returns how many paths wait.
    pub fn len(&self) -> (r: usize)
        ensures
            r == self@.len(),
    {
        self.entries.len()
    }
}

/// Whether a queue of waiting paths is within bounds: none waits twice, and
/// not too many wait.
pub open spec fn is_bounded(waiting: Seq<FourTuple>) -> bool {
    waiting.no_duplicates() && waiting.len() <= MAX_PENDING_OPEN_PATHS
}

/// However many paths come to wait, the queue stays within bounds, and the
/// one that came last waits.
pub proof fn pending_paths_are_bounded(waiting: Seq<FourTuple>, path: FourTuple)
    requires
        is_bounded(waiting),
    ensures
        is_bounded(enqueued(waiting, path)),
        enqueued(waiting, path).contains(path),
        waiting.len() > 0 ==> is_bounded(waiting.drop_first()),
        is_bounded(Seq::empty()),
{
    let next = enqueued(waiting, path);
    if !waiting.contains(path) {
        assert(next.last() == path);
        assert forall|i: int, j: int| 0 <= i < j < next.len() implies next[i] != next[j] by {
            let d: int = if waiting.len() >= MAX_PENDING_OPEN_PATHS {
                1
            } else {
                0
            };
            assert(next[i] == waiting[i + d]);
            if j < next.len() - 1 {
                assert(next[j] == waiting[j + d]);
            }
        }
    }
}

/// A path that comes to wait again changes nothing.
pub proof fn enqueue_is_idempotent(waiting: Seq<FourTuple>, path: FourTuple)
    ensures
        enqueued(enqueued(waiting, path), path) == enqueued(waiting, path),
{
    if !waiting.contains(path) {
        let next = enqueued(waiting, path);
        assert(next[next.len() - 1] == path);
    }
}

} // verus!
