//! The query parameter model: a request's project, its time window with
//! defaults filled in, and its filter sets.

use vstd::prelude::*;
use crate::payloads::{admits, EdgeStatusSet, NodeType, NodeTypeSet, Window};

verus! {

/// The length of the default window, in seconds.
pub const DEFAULT_WINDOW_SECONDS: i64 = 3600;

/// What every query names: a project, and the window's bounds where given.
#[derive(Debug, Copy, Clone, PartialEq, Eq, Structural)]
pub struct CommonQueryParams {
    pub project_id: u64,
    pub start_date: Option<i64>,
    pub end_date: Option<i64>,
}

/// A graph query: filters on the types of the edges' two ends, and on their statuses.
#[derive(Debug, Copy, Clone, PartialEq, Eq, Structural)]
pub struct GraphQueryParams {
    pub common: CommonQueryParams,
    pub from_types: NodeTypeSet,
    pub to_types: NodeTypeSet,
    pub edge_statuses: EdgeStatusSet,
}

/// An active-node query: a filter on node types.
#[derive(Debug, Copy, Clone, PartialEq, Eq, Structural)]
pub struct NodeQueryParams {
    pub common: CommonQueryParams,
    pub types: NodeTypeSet,
}

/// A service-map query: a graph query, and the traffic-volume percentile
/// below which edges are pruned, if any.
#[derive(Debug, Copy, Clone, PartialEq, Eq, Structural)]
pub struct ServiceMapQueryParams {
    pub graph: GraphQueryParams,
    pub traffic_volume: Option<i64>,
}

/// An hour before `now`, or the earliest time if that is earlier still.
pub open spec fn hour_before(now: i64) -> i64 {
    if now - DEFAULT_WINDOW_SECONDS >= i64::MIN {
        (now - DEFAULT_WINDOW_SECONDS) as i64
    } else {
        i64::MIN
    }
}

/// The window a query asks for at time `now`: the bounds it gives, else an
/// hour before `now` for the start and `now` for the end.
pub open spec fn resolved_window(params: CommonQueryParams, now: i64) -> Window {
    Window {
        start: match params.start_date {
            Some(s) => s,
            None => hour_before(now),
        },
        end: match params.end_date {
            Some(e) => e,
            None => now,
        },
    }
}

/// The window a query asks for at time `now`.
pub fn resolve_date_range(params: &CommonQueryParams, now: i64) -> (r: Window)
    ensures
        r == resolved_window(*params, now),
{
    let start = match params.start_date {
        Some(s) => s,
        None => match now.checked_sub(DEFAULT_WINDOW_SECONDS) {
            Some(s) => s,
            None => i64::MIN,
        },
    };
    let end = match params.end_date {
        Some(e) => e,
        None => now,
    };
    Window { start, end }
}

/// Relies on chrono's `Utc::now`, read as whole seconds since the Unix epoch
/// by `DateTime::timestamp`: the current time.
#[verifier::external_body]
pub(crate) fn now_seconds() -> (r: i64) {
    chrono::Utc::now().timestamp()
}

/// The window a query asks for now: its bounds where given, else the hour
/// up to the current time.
pub fn default_date_range(params: &CommonQueryParams) -> (r: Window)
    ensures
        exists|now: i64| r == resolved_window(*params, now),
{
    let now = now_seconds();
    resolve_date_range(params, now)
}

impl vstd::std_specs::convert::FromSpecImpl<ServiceMapQueryParams> for GraphQueryParams {
    open spec fn obeys_from_spec() -> bool {
        true
    }

    open spec fn from_spec(v: ServiceMapQueryParams) -> GraphQueryParams {
        v.graph
    }
}

impl From<ServiceMapQueryParams> for GraphQueryParams {
    /// The graph query behind a service-map query.
    fn from(query: ServiceMapQueryParams) -> GraphQueryParams {
        query.graph
    }
}

/// The node types that either of two type filters admits, as one filter.
pub open spec fn either_types(a: NodeTypeSet, b: NodeTypeSet) -> NodeTypeSet {
    if a@.is_empty() || b@.is_empty() {
        NodeTypeSet { service: false, transaction: false }
    } else {
        NodeTypeSet { service: a.service || b.service, transaction: a.transaction || b.transaction }
    }
}

/// The filter `either_types` gives admits exactly what one of the two admits.
pub proof fn lemma_either_types_admits(a: NodeTypeSet, b: NodeTypeSet, t: NodeType)
    ensures
        admits(either_types(a, b)@, t) == (admits(a@, t) || admits(b@, t)),
{
    let u = either_types(a, b);
    if a@.is_empty() || b@.is_empty() {
        assert(u@ =~= Set::<NodeType>::empty());
    } else {
        assert(a@.contains(NodeType::Service) || a@.contains(NodeType::Transaction));
        assert(b@.contains(NodeType::Service) || b@.contains(NodeType::Transaction));
        assert(u@.contains(NodeType::Service) || u@.contains(NodeType::Transaction));
    }
}

fn either_types_exec(a: &NodeTypeSet, b: &NodeTypeSet) -> (r: NodeTypeSet)
    ensures
        r == either_types(*a, *b),
{
    if a.is_empty() || b.is_empty() {
        NodeTypeSet { service: false, transaction: false }
    } else {
        NodeTypeSet { service: a.service || b.service, transaction: a.transaction || b.transaction }
    }
}

impl vstd::std_specs::convert::FromSpecImpl<ServiceMapQueryParams> for NodeQueryParams {
    open spec fn obeys_from_spec() -> bool {
        true
    }

    open spec fn from_spec(v: ServiceMapQueryParams) -> NodeQueryParams {
        NodeQueryParams {
            common: v.graph.common,
            types: either_types(v.graph.from_types, v.graph.to_types),
        }
    }
}

impl From<ServiceMapQueryParams> for NodeQueryParams {
    /// The active-node query behind a service-map query: a node is asked for
    /// if either end filter admits its type.
    fn from(query: ServiceMapQueryParams) -> NodeQueryParams {
        let types = either_types_exec(&query.graph.from_types, &query.graph.to_types);
        NodeQueryParams { common: query.graph.common, types }
    }
}

} // verus!
