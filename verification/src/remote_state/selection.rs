//! The choice of the path that carries application data.

use crate::remote_state::connection::{
    sample_of, ConnView, ConnectionState, LiveConn, PathId, Surroundings,
};
use crate::flat::{flat, flat_step};
use crate::remote_state::fx_map::{ascending, fx_get, lists, sorted_keys, FxMap};
use crate::remote_state::paths::FourTuple;
use vstd::prelude::*;

verus! {

/// Data the selector sees about one candidate path.
#[derive(Clone, Copy)]
pub struct PathSelectionData {
    network_path: FourTuple,
    stats: Option<noq::PathStats>,
}

impl PathSelectionData {
    /// The network path of the candidate.
    pub closed spec fn path(self) -> FourTuple {
        self.network_path
    }

    /// The statistics of the candidate, if available.
    pub closed spec fn known_stats(self) -> Option<noq::PathStats> {
        self.stats
    }

    /// The candidate with a network path and statistics.
    pub closed spec fn of(path: FourTuple, stats: Option<noq::PathStats>) -> PathSelectionData {
        PathSelectionData { network_path: path, stats }
    }

    /// Describes a candidate path.
    pub fn new(network_path: FourTuple, stats: Option<noq::PathStats>) -> (r: Self)
        ensures
            r == PathSelectionData::of(network_path, stats),
            r.path() == network_path,
            r.known_stats() == stats,
    {
        PathSelectionData { network_path, stats }
    }

    /// The network path of the candidate path.
    pub fn network_path(&self) -> (r: &FourTuple)
        ensures
            *r == self.path(),
    {
        &self.network_path
    }

    /// Returns path statistics if available.
    pub fn stats(&self) -> (r: Option<noq::PathStats>)
        ensures
            r == self.known_stats(),
    {
        self.stats
    }
}

/// A candidate is described by its path and its statistics.
pub proof fn candidate_is_described(path: FourTuple, stats: Option<noq::PathStats>)
    ensures
        PathSelectionData::of(path, stats).path() == path,
        PathSelectionData::of(path, stats).known_stats() == stats,
{
}

/// State of the endpoint relevant for path selection.
pub struct PathSelectionContext {
    current: Option<FourTuple>,
    paths: Vec<PathSelectionData>,
}

/// The value of the state of connections.
pub open spec fn conns_of(connections: Map<u64, ConnectionState>) -> Map<u64, ConnView> {
    connections.map_values(|c: ConnectionState| c@)
}

/// The candidates on one connection: its open paths, if it may take part in
/// NAT traversal and was not dropped.
pub open spec fn conn_candidates(c: ConnView, live: Option<LiveConn>) -> Seq<PathSelectionData> {
    match live {
        Some(l) if c.nat_traversal_authorized => c.path_ids().map_values(
            |id: PathId|
                PathSelectionData::of(
                    c.paths[id],
                    match sample_of(l.samples@, id) {
                        Some(sample) => Some(sample.stats),
                        None => None,
                    },
                ),
        ),
        _ => Seq::empty(),
    }
}

/// The candidates on all connections. An address is there more than once when
/// it is a path on several connections.
pub open spec fn candidates(conns: Map<u64, ConnView>, around: Surroundings) -> Seq<
    PathSelectionData,
> {
    flat(ascending(conns.dom()), |id: u64| conn_candidates(conns[id], around.conn(id)))
}

impl PathSelectionContext {
    /// The path that is selected so far.
    pub closed spec fn current_path(self) -> Option<FourTuple> {
        self.current
    }

    /// The candidate paths.
    pub closed spec fn candidate_paths(self) -> Seq<PathSelectionData> {
        self.paths@
    }

    /// Describes what there is to choose from.
    pub fn new(
        current: Option<FourTuple>,
        connections: &FxMap<ConnectionState>,
        around: &Surroundings,
    ) -> (r: Self)
        ensures
            r.current_path() == current,
            r.candidate_paths() == candidates(conns_of(connections@), *around),
    {
        let ghost conns = conns_of(connections@);
        let ghost f = |id: u64| conn_candidates(conns[id], around.conn(id));
        let ids = sorted_keys(connections);
        let mut paths: Vec<PathSelectionData> = Vec::new();
        let n = ids.len();
        let mut i: usize = 0;
        assert(conns.dom() =~= connections@.dom());
        while i < n
            invariant
                i <= n == ids@.len(),
                lists(ids@, connections@.dom()),
                conns == conns_of(connections@),
                f == (|id: u64| conn_candidates(conns[id], around.conn(id))),
                paths@ == flat(ids@.take(i as int), f),
            decreases n - i,
        {
            let id = ids[i];
            assert(ids@.contains(id));
            proof {
                flat_step(ids@, f, i as int);
            }
            if let Some(c) = fx_get(connections, id) {
                let mut found = Self::on_conn(c, around.live(id));
                assert(f(id) == found@);
                paths.append(&mut found);
            }
            i += 1;
        }
        assert(ids@.take(n as int) =~= ids@);
        PathSelectionContext { current, paths }
    }

    /// The candidates on one connection.
    fn on_conn(c: &ConnectionState, live: Option<&LiveConn>) -> (r: Vec<PathSelectionData>)
        ensures
            r@ == conn_candidates(
                c@,
                match live {
                    Some(l) => Some(*l),
                    None => None,
                },
            ),
    {
        let mut r: Vec<PathSelectionData> = Vec::new();
        if let Some(l) = live {
            if c.nat_traversal_authorized {
                let ids = c.path_ids();
                let ghost all = conn_candidates(c@, Some(*l));
                let n = ids.len();
                let mut i: usize = 0;
                while i < n
                    invariant
                        i <= n == ids@.len(),
                        ids@ == c@.path_ids(),
                        lists(ids@, c@.paths.dom()),
                        c.nat_traversal_authorized,
                        all == conn_candidates(c@, Some(*l)),
                        r@ == all.take(i as int),
                    decreases n - i,
                {
                    let id = ids[i];
                    assert(ids@.contains(id));
                    let stats = match l.sample(id) {
                        Some(sample) => Some(sample.stats),
                        None => None,
                    };
                    if let Some(path) = fx_get(&c.paths, id) {
                        r.push(PathSelectionData::new(*path, stats));
                    }
                    i += 1;
                    assert(all.take(i as int) =~= all.take(i - 1).push(all[i - 1]));
                }
                assert(all.take(n as int) =~= all);
            }
        }
        r
    }

    /// Describes what there is to choose from by a list of candidates.
    pub fn with_paths(current: Option<FourTuple>, paths: Vec<PathSelectionData>) -> (r: Self)
        ensures
            r.current_path() == current,
            r.candidate_paths() == paths@,
    {
        PathSelectionContext { current, paths }
    }

    /// The path currently considered the preferred path to the remote
    /// endpoint, if any.
    pub fn current(&self) -> (r: Option<&FourTuple>)
        ensures
            match r {
                Some(path) => self.current_path() == Some(*path),
                None => self.current_path() is None,
            },
    {
        match &self.current {
            Some(path) => Some(path),
            None => None,
        }
    }

    /// The candidate paths.
    ///
    /// The same address may appear more than once when it is a path on
    /// multiple connections to the remote. Selectors that care should
    /// aggregate as appropriate.
    pub fn paths(&self) -> (r: &Vec<PathSelectionData>)
        ensures
            r@ == self.candidate_paths(),
    {
        &self.paths
    }
}

/// The set of paths a [`PathSelector`] has chosen.
///
/// Today this holds at most one path. Build via [`PathSelection::none`] +
/// [`PathSelection::set`].
#[derive(Debug, Clone, Copy)]
pub struct PathSelection {
    selection: Option<FourTuple>,
}

impl PathSelection {
    /// The chosen path, if any.
    pub closed spec fn chosen(self) -> Option<FourTuple> {
        self.selection
    }

    /// An empty selection.
    pub fn none() -> (r: Self)
        ensures
            r.chosen() is None,
    {
        PathSelection { selection: None }
    }

    /// Sets the path as the selected path.
    ///
    /// This discards any previously selected path and sets this one as a
    /// single selected path.
    pub fn set(&mut self, path: &PathSelectionData)
        ensures
            final(self).chosen() == Some(path.path()),
    {
        self.selection = Some(path.network_path);
    }

    /// The selected path: the one data should be sent on.
    ///
    /// Returns `None` when nothing has been selected.
    pub fn selected(&self) -> (r: Option<&FourTuple>)
        ensures
            match r {
                Some(path) => self.chosen() == Some(*path),
                None => self.chosen() is None,
            },
    {
        match &self.selection {
            Some(path) => Some(path),
            None => None,
        }
    }
}

/// Trait to configure path selection.
///
/// Most users do not need to provide their own selector.
pub trait PathSelector: std::fmt::Debug + Send + Sync + 'static {
    /// Pick the selected path to carry application data among the currently
    /// open network paths to the remote endpoint.
    ///
    /// Build the result by starting from [`PathSelection::none`] and calling
    /// [`PathSelection::set`] for the path the selector wants active.
    ///
    /// Returning an empty [`PathSelection`] keeps the current selection
    /// unchanged.
    fn select(&self, ctx: &PathSelectionContext) -> (r: PathSelection);
}

/// Whether a selector may choose `chosen` when asked with `current` selected
/// so far and the paths of `conns` to choose from.
pub open spec fn may_select<S: PathSelector>(
    selector: &S,
    current: Option<FourTuple>,
    conns: Map<u64, ConnView>,
    around: Surroundings,
    chosen: Option<FourTuple>,
) -> bool {
    exists|ctx: PathSelectionContext, selection: PathSelection|
        {
            &&& ctx.current_path() == current
            &&& ctx.candidate_paths() == candidates(conns, around)
            &&& #[trigger] call_ensures(S::select, (selector, &ctx), selection)
            &&& selection.chosen() == chosen
        }
}

/// Asks a selector for a path.
pub fn ask<S: PathSelector>(
    selector: &S,
    current: Option<FourTuple>,
    connections: &FxMap<ConnectionState>,
    around: &Surroundings,
) -> (r: Option<FourTuple>)
    ensures
        may_select(selector, current, conns_of(connections@), *around, r),
{
    let ctx = PathSelectionContext::new(current, connections, around);
    let selection = selector.select(&ctx);
    match selection.selected() {
        Some(path) => Some(*path),
        None => None,
    }
}

} // verus!
