//! Requests to probe the network, and the slot in which they wait.

use vstd::prelude::*;

verus! {

/// How much of the probe set a cycle runs.
///
/// On a request the scope says how urgent the trigger is, on a cycle how much
/// to probe. `Full` is the more urgent of the two.
#[derive(Debug, Clone, Copy, PartialEq, Eq, PartialOrd, Ord, Structural)]
pub enum ProbeScope {
    /// Keep the open QAD connections. Re-measure relay latency and reconnect
    /// any family that has no open connection.
    Refresh,
    /// Close the open QAD connections and run every probe from scratch.
    Full,
}

impl ProbeScope {
    /// The scope for a change that is major or not.
    pub open spec fn of(is_major: bool) -> ProbeScope {
        if is_major {
            ProbeScope::Full
        } else {
            ProbeScope::Refresh
        }
    }

    /// The more urgent of two scopes.
    pub open spec fn more_urgent(self, other: ProbeScope) -> ProbeScope {
        ProbeScope::of(self == ProbeScope::Full || other == ProbeScope::Full)
    }

    /// Maps an "is major change" flag to a scope.
    pub fn from_major(is_major: bool) -> (s: Self)
        ensures
            s == ProbeScope::of(is_major),
    {
        if is_major {
            Self::Full
        } else {
            Self::Refresh
        }
    }

    /// Returns the more urgent of the two scopes.
    pub fn max(self, other: ProbeScope) -> (s: ProbeScope)
        ensures
            s == self.more_urgent(other),
    {
        if self == ProbeScope::Full {
            self
        } else {
            other
        }
    }
}

/// Which address families the interfaces offer.
#[derive(Debug, Clone, Copy, PartialEq, Eq, Structural)]
pub struct IfState {
    pub have_v4: bool,
    pub have_v6: bool,
}

/// A probe request waiting to be picked up.
#[derive(Debug, Clone, Copy, PartialEq, Eq, Structural)]
pub struct ProbeRequest {
    pub if_state: IfState,
    pub scope: ProbeScope,
}

/// What a slot holds after `request` arrived while it held `slot`: the
/// latest interface state, with the more urgent of the two scopes.
pub open spec fn merge_request(slot: Option<ProbeRequest>, request: ProbeRequest) -> ProbeRequest {
    match slot {
        Some(pending) => ProbeRequest { scope: pending.scope.more_urgent(request.scope), ..request },
        None => request,
    }
}

/// What an empty slot holds after all of `requests` arrived.
pub open spec fn merge_requests(requests: Seq<ProbeRequest>) -> Option<ProbeRequest>
    decreases requests.len(),
{
    if requests.len() == 0 {
        None
    } else {
        Some(merge_request(merge_requests(requests.drop_last()), requests.last()))
    }
}

/// A one-slot mailbox for probe requests.
///
/// It holds at most one request. A second one that arrives before the first
/// was taken does not queue behind it but merges into it, because one probe
/// with the combined scope does the work of both.
#[derive(Debug)]
pub struct RequestSlot {
    slot: Option<ProbeRequest>,
}

impl RequestSlot {
    /// The request that waits, if any.
    pub closed spec fn pending(&self) -> Option<ProbeRequest> {
        self.slot
    }

    /// Creates an empty slot.
    pub fn new() -> (r: Self)
        ensures
            r.pending() is None,
    {
        RequestSlot { slot: None }
    }

    /// Merges a probe request into the slot.
    ///
    /// If a request is already pending, its scope becomes the more urgent of
    /// the two and its interface state the latest. If none is pending, this
    /// one is from now on.
    pub fn request(&mut self, if_state: IfState, scope: ProbeScope)
        ensures
            final(self).pending() == Some(
                merge_request(old(self).pending(), (ProbeRequest { if_state, scope })),
            ),
    {
        let scope = match self.slot {
            Some(pending) => pending.scope.max(scope),
            None => scope,
        };
        self.slot = Some(ProbeRequest { if_state, scope });
    }

    /// Takes the pending request, leaving the slot empty.
    pub fn take(&mut self) -> (r: Option<ProbeRequest>)
        ensures
            r == old(self).pending(),
            final(self).pending() is None,
    {
        self.slot.take()
    }
}

/// However many requests arrive before the slot is emptied, what is taken out
/// is one request: it has the interface state of the last of them, and it is
/// `Full` exactly when one of them was.
pub proof fn requests_collapse(requests: Seq<ProbeRequest>)
    requires
        requests.len() > 0,
    ensures
        merge_requests(requests) is Some,
        merge_requests(requests)->0.if_state == requests.last().if_state,
        merge_requests(requests)->0.scope == ProbeScope::of(
            exists|i: int|
                0 <= i < requests.len() && (#[trigger] requests[i]).scope == ProbeScope::Full,
        ),
    decreases requests.len(),
{
    let first = requests.drop_last();
    let full = exists|i: int|
        0 <= i < requests.len() && (#[trigger] requests[i]).scope == ProbeScope::Full;
    if requests.last().scope == ProbeScope::Full {
        assert(requests[requests.len() - 1].scope == ProbeScope::Full);
    }
    if first.len() > 0 {
        requests_collapse(first);
        let full_first = exists|i: int|
            0 <= i < first.len() && (#[trigger] first[i]).scope == ProbeScope::Full;
        if full_first {
            let i = choose|i: int|
                0 <= i < first.len() && (#[trigger] first[i]).scope == ProbeScope::Full;
            assert(requests[i].scope == ProbeScope::Full);
        }
        if full {
            let i = choose|i: int|
                0 <= i < requests.len() && (#[trigger] requests[i]).scope == ProbeScope::Full;
            if i < first.len() {
                assert(first[i].scope == ProbeScope::Full);
            }
        }
    } else {
        assert(first =~= Seq::<ProbeRequest>::empty());
    }
}

/// A major change asks for a `Full` cycle and a minor one does not. Of two
/// scopes `Full` is the more urgent.
pub proof fn major_change_is_urgent(is_major: bool, a: ProbeScope, b: ProbeScope)
    ensures
        ProbeScope::of(is_major) == ProbeScope::Full <==> is_major,
        a.more_urgent(b) == ProbeScope::Full <==> a == ProbeScope::Full || b == ProbeScope::Full,
{
}

} // verus!
