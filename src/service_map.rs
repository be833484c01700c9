//! The service-map view: collapses edges that a finer transaction-level edge
//! already shows, then prunes edges, and the nodes they leave alone, below a
//! traffic-volume percentile.

use vstd::prelude::*;
use crate::prefix::{lemma_take_all, lemma_take_push};
use crate::payloads::{
    edge_volume, ActiveNodes, CombinedEdge, Graph, NodeType, NodeTypeSet, NodeWithStatus,
    ServiceMap,
};

verus! {

broadcast use vstd::seq_lib::group_filter_ensures;

/// The type of the first node of `nodes` with id `id`, if there is one.
pub open spec fn type_of(nodes: Seq<NodeWithStatus>, id: u128) -> Option<NodeType>
    decreases nodes.len(),
{
    if nodes.len() == 0 {
        None
    } else if nodes[0].node.node_id == id {
        Some(nodes[0].node.node_type)
    } else {
        type_of(nodes.drop_first(), id)
    }
}

/// Whether a transaction owned by service `id` is among `nodes`.
pub open spec fn has_child_transaction(nodes: Seq<NodeWithStatus>, id: u128) -> bool {
    exists|k: int|
        0 <= k < nodes.len() && (#[trigger] nodes[k]).node.node_type == NodeType::Transaction
            && nodes[k].node.parent_id == Some(id)
}

/// Whether a type filter is exactly `{Service}`.
pub open spec fn only_services(types: Set<NodeType>) -> bool {
    types.contains(NodeType::Service) && !types.contains(NodeType::Transaction)
}

/// Whether the caller asked for the service-to-service view alone.
pub open spec fn service_view(from_types: Set<NodeType>, to_types: Set<NodeType>) -> bool {
    only_services(from_types) && only_services(to_types)
}

/// Whether type-aware collapsing keeps edge `e` of a graph with nodes `nodes`.
pub open spec fn keeps_edge(nodes: Seq<NodeWithStatus>, services_only: bool, e: CombinedEdge) -> bool {
    let src = type_of(nodes, e.from_node_id);
    let dst = type_of(nodes, e.to_node_id);
    if services_only {
        src == Some(NodeType::Service) && dst == Some(NodeType::Service)
    } else if src is Some && dst is Some {
        if src == Some(NodeType::Service) {
            // service to service, and service to transaction
            false
        } else if dst == Some(NodeType::Service) {
            !has_child_transaction(nodes, e.to_node_id)
        } else {
            true
        }
    } else {
        true
    }
}

pub open spec fn keep_pred(nodes: Seq<NodeWithStatus>, services_only: bool) -> spec_fn(CombinedEdge) -> bool {
    |e: CombinedEdge| keeps_edge(nodes, services_only, e)
}

/// The edges that survive type-aware collapsing, in their order.
pub open spec fn collapsed_edges(
    edges: Seq<CombinedEdge>,
    nodes: Seq<NodeWithStatus>,
    from_types: Set<NodeType>,
    to_types: Set<NodeType>,
) -> Seq<CombinedEdge> {
    edges.filter(keep_pred(nodes, service_view(from_types, to_types)))
}

/// The least volume among `es` (0 for no edges).
pub open spec fn min_volume(es: Seq<CombinedEdge>) -> int
    decreases es.len(),
{
    if es.len() == 0 {
        0
    } else if es.len() == 1 {
        edge_volume(es[0])
    } else {
        let m = min_volume(es.drop_last());
        let v = edge_volume(es.last());
        if v < m { v } else { m }
    }
}

/// The greatest volume among `es` (0 for no edges).
pub open spec fn max_volume(es: Seq<CombinedEdge>) -> int
    decreases es.len(),
{
    if es.len() == 0 {
        0
    } else if es.len() == 1 {
        edge_volume(es[0])
    } else {
        let m = max_volume(es.drop_last());
        let v = edge_volume(es.last());
        if v > m { v } else { m }
    }
}

/// A percentile clamped to `[0, 100]`.
pub open spec fn clamp_percentile(p: i64) -> int {
    if p < 0 {
        0
    } else if p > 100 {
        100
    } else {
        p as int
    }
}

/// Whether an edge's volume, normalised between `lo` and `hi` to a percentage,
/// reaches `p`. With no spread between `lo` and `hi` no edge does.
pub open spec fn reaches_percentile(p: int, lo: int, hi: int, e: CombinedEdge) -> bool {
    hi != lo && 100 * (edge_volume(e) - lo) >= p * (hi - lo)
}

pub open spec fn percentile_pred(p: int, lo: int, hi: int) -> spec_fn(CombinedEdge) -> bool {
    |e: CombinedEdge| reaches_percentile(p, lo, hi, e)
}

/// Whether node `id` is an end of one of `es`.
pub open spec fn is_endpoint(es: Seq<CombinedEdge>, id: u128) -> bool {
    exists|k: int|
        0 <= k < es.len() && ((#[trigger] es[k]).from_node_id == id || es[k].to_node_id == id)
}

pub open spec fn endpoint_pred(es: Seq<CombinedEdge>) -> spec_fn(NodeWithStatus) -> bool {
    |n: NodeWithStatus| is_endpoint(es, n.node.node_id)
}

/// The edges of the service map of a graph.
pub open spec fn service_map_edges(
    edges: Seq<CombinedEdge>,
    nodes: Seq<NodeWithStatus>,
    from_types: Set<NodeType>,
    to_types: Set<NodeType>,
    percentile: Option<i64>,
) -> Seq<CombinedEdge> {
    let a = collapsed_edges(edges, nodes, from_types, to_types);
    match percentile {
        Some(p) if a.len() > 0 => a.filter(
            percentile_pred(clamp_percentile(p), min_volume(a), max_volume(a)),
        ),
        _ => a,
    }
}

/// The nodes of the service map of a graph: all of them, unless percentile
/// pruning ran; then those that are an end of a surviving edge.
pub open spec fn service_map_nodes(
    edges: Seq<CombinedEdge>,
    nodes: Seq<NodeWithStatus>,
    from_types: Set<NodeType>,
    to_types: Set<NodeType>,
    percentile: Option<i64>,
) -> Seq<NodeWithStatus> {
    let a = collapsed_edges(edges, nodes, from_types, to_types);
    match percentile {
        Some(p) if a.len() > 0 => nodes.filter(
            endpoint_pred(service_map_edges(edges, nodes, from_types, to_types, percentile)),
        ),
        _ => nodes,
    }
}

fn only_services_exec(types: &NodeTypeSet) -> (r: bool)
    ensures
        r == only_services(types@),
{
    types.contains(NodeType::Service) && !types.contains(NodeType::Transaction)
}

fn find_type(nodes: &Vec<NodeWithStatus>, id: u128) -> (r: Option<NodeType>)
    ensures
        r == type_of(nodes@, id),
{
    let mut i: usize = 0;
    assert(nodes@.subrange(0, nodes.len() as int) =~= nodes@);
    while i < nodes.len()
        invariant
            i <= nodes.len(),
            type_of(nodes@, id) == type_of(nodes@.subrange(i as int, nodes.len() as int), id),
        decreases nodes.len() - i,
    {
        assert(nodes@.subrange(i as int, nodes.len() as int).drop_first() =~= nodes@.subrange(
            i + 1,
            nodes.len() as int,
        ));
        if nodes[i].node.node_id == id {
            return Some(nodes[i].node.node_type);
        }
        i = i + 1;
    }
    None
}

fn has_child_exec(nodes: &Vec<NodeWithStatus>, id: u128) -> (r: bool)
    ensures
        r == has_child_transaction(nodes@, id),
{
    let mut i: usize = 0;
    while i < nodes.len()
        invariant
            i <= nodes.len(),
            forall|k: int|
                0 <= k < i ==> !((#[trigger] nodes@[k]).node.node_type == NodeType::Transaction
                    && nodes@[k].node.parent_id == Some(id)),
        decreases nodes.len() - i,
    {
        if nodes[i].node.node_type == NodeType::Transaction && nodes[i].node.parent_id == Some(id) {
            return true;
        }
        i = i + 1;
    }
    false
}

fn keeps_edge_exec(nodes: &Vec<NodeWithStatus>, services_only: bool, e: &CombinedEdge) -> (r: bool)
    ensures
        r == keeps_edge(nodes@, services_only, *e),
{
    let src = find_type(nodes, e.from_node_id);
    let dst = find_type(nodes, e.to_node_id);
    if services_only {
        return src == Some(NodeType::Service) && dst == Some(NodeType::Service);
    }
    match (src, dst) {
        (Some(NodeType::Service), Some(_)) => false,
        (Some(_), Some(NodeType::Service)) => !has_child_exec(nodes, e.to_node_id),
        _ => true,
    }
}

fn volume(e: &CombinedEdge) -> (r: u64)
    ensures
        r == edge_volume(*e),
{
    e.status_ok as u64 + e.status_expected_error as u64 + e.status_unexpected_error as u64
}

/// Every volume lies between the least and the greatest.
proof fn lemma_volume_bounds(es: Seq<CombinedEdge>, k: int)
    requires
        0 <= k < es.len(),
    ensures
        min_volume(es) <= edge_volume(es[k]) <= max_volume(es),
    decreases es.len(),
{
    if es.len() > 1 && k < es.len() - 1 {
        lemma_volume_bounds(es.drop_last(), k);
    }
}

/// Volumes lie between 0 and three times the greatest `u32`.
proof fn lemma_volume_limits(es: Seq<CombinedEdge>)
    ensures
        0 <= min_volume(es),
        max_volume(es) <= 3 * 0xffff_ffff,
    decreases es.len(),
{
    if es.len() > 1 {
        lemma_volume_limits(es.drop_last());
    }
}

/// With no spread, the least and the greatest volume are the common one.
proof fn lemma_equal_volumes(es: Seq<CombinedEdge>, c: int)
    requires
        es.len() > 0,
        forall|k: int| 0 <= k < es.len() ==> edge_volume(#[trigger] es[k]) == c,
    ensures
        min_volume(es) == c,
        max_volume(es) == c,
    decreases es.len(),
{
    if es.len() > 1 {
        lemma_equal_volumes(es.drop_last(), c);
    }
}

fn collapse_edges(graph: &Graph, services_only: bool) -> (r: Vec<CombinedEdge>)
    ensures
        r@ == graph.edges@.filter(keep_pred(graph.nodes@, services_only)),
{
    let ghost pred = keep_pred(graph.nodes@, services_only);
    let mut kept: Vec<CombinedEdge> = Vec::new();
    let mut i: usize = 0;
    while i < graph.edges.len()
        invariant
            i <= graph.edges.len(),
            pred == keep_pred(graph.nodes@, services_only),
            kept@ == graph.edges@.take(i as int).filter(pred),
        decreases graph.edges.len() - i,
    {
        proof {
            lemma_take_push(graph.edges@, i as int);
            graph.edges@.take(i as int).lemma_filter_push(graph.edges@[i as int], pred);
        }
        if keeps_edge_exec(&graph.nodes, services_only, &graph.edges[i]) {
            kept.push(graph.edges[i].clone());
        }
        i = i + 1;
    }
    proof {
        lemma_take_all(graph.edges@);
    }
    kept
}

fn volume_range(es: &Vec<CombinedEdge>) -> (r: (u64, u64))
    requires
        es.len() > 0,
    ensures
        r.0 == min_volume(es@),
        r.1 == max_volume(es@),
{
    let mut lo = volume(&es[0]);
    let mut hi = lo;
    let mut i: usize = 1;
    assert(es@.take(1).len() == 1);
    while i < es.len()
        invariant
            1 <= i <= es.len(),
            lo == min_volume(es@.take(i as int)),
            hi == max_volume(es@.take(i as int)),
        decreases es.len() - i,
    {
        proof {
            lemma_take_push(es@, i as int);
        }
        let v = volume(&es[i]);
        if v < lo {
            lo = v;
        }
        if v > hi {
            hi = v;
        }
        i = i + 1;
    }
    proof {
        lemma_take_all(es@);
    }
    (lo, hi)
}

fn is_endpoint_exec(es: &Vec<CombinedEdge>, id: u128) -> (r: bool)
    ensures
        r == is_endpoint(es@, id),
{
    let mut i: usize = 0;
    while i < es.len()
        invariant
            i <= es.len(),
            forall|k: int| 0 <= k < i ==> (#[trigger] es@[k]).from_node_id != id && es@[k].to_node_id != id,
        decreases es.len() - i,
    {
        if es[i].from_node_id == id || es[i].to_node_id == id {
            return true;
        }
        i = i + 1;
    }
    false
}

fn prune_edges(es: &Vec<CombinedEdge>, p: u64, lo: u64, hi: u64) -> (r: Vec<CombinedEdge>)
    requires
        p <= 100,
        lo == min_volume(es@),
        hi == max_volume(es@),
    ensures
        r@ == es@.filter(percentile_pred(p as int, lo as int, hi as int)),
{
    let ghost pred = percentile_pred(p as int, lo as int, hi as int);
    let mut kept: Vec<CombinedEdge> = Vec::new();
    let mut i: usize = 0;
    while i < es.len()
        invariant
            i <= es.len(),
            p <= 100,
            lo == min_volume(es@),
            hi == max_volume(es@),
            pred == percentile_pred(p as int, lo as int, hi as int),
            kept@ == es@.take(i as int).filter(pred),
        decreases es.len() - i,
    {
        proof {
            lemma_take_push(es@, i as int);
            es@.take(i as int).lemma_filter_push(es@[i as int], pred);
            lemma_volume_bounds(es@, i as int);
        }
        let v = volume(&es[i]);
        proof {
            lemma_volume_limits(es@);
            lemma_volume_bounds(es@, 0);
            assert((p as int) * ((hi - lo) as int) <= 100 * ((hi - lo) as int)) by (nonlinear_arith)
                requires
                    p <= 100,
                    hi >= lo,
            ;
        }
        if hi != lo && 100 * (v - lo) >= p * (hi - lo) {
            kept.push(es[i].clone());
        }
        i = i + 1;
    }
    proof {
        lemma_take_all(es@);
    }
    kept
}

fn prune_nodes(nodes: Vec<NodeWithStatus>, es: &Vec<CombinedEdge>) -> (r: Vec<NodeWithStatus>)
    ensures
        r@ == nodes@.filter(endpoint_pred(es@)),
{
    let ghost pred = endpoint_pred(es@);
    let mut kept: Vec<NodeWithStatus> = Vec::new();
    let mut i: usize = 0;
    while i < nodes.len()
        invariant
            i <= nodes.len(),
            pred == endpoint_pred(es@),
            kept@ == nodes@.take(i as int).filter(pred),
        decreases nodes.len() - i,
    {
        proof {
            lemma_take_push(nodes@, i as int);
            nodes@.take(i as int).lemma_filter_push(nodes@[i as int], pred);
        }
        if is_endpoint_exec(es, nodes[i].node.node_id) {
            kept.push(nodes[i].clone());
        }
        i = i + 1;
    }
    proof {
        lemma_take_all(nodes@);
    }
    kept
}

/// Simplifies a graph into a service map.
///
/// First, edges are collapsed by the types of their ends. In the
/// service-to-service view (both type filters exactly `{Service}`) only edges
/// between two services stay. Otherwise edges from a service are dropped, and
/// so is an edge from a transaction to a service that owns a transaction of
/// the graph; all other edges stay, and so do all nodes.
///
/// Then, if a percentile is given (clamped to `[0, 100]`) and edges are left,
/// an edge stays only if its volume, normalised between the least and the
/// greatest volume, reaches the percentile; with no spread no edge stays.
/// The nodes left are those at an end of a surviving edge.
///
/// The active nodes are handed back unchanged.
pub fn build_service_map(
    graph: Graph,
    active_nodes: ActiveNodes,
    from_types: &NodeTypeSet,
    to_types: &NodeTypeSet,
    traffic_volume: Option<i64>,
) -> (r: ServiceMap)
    ensures
        r.graph.edges@ == service_map_edges(
            graph.edges@,
            graph.nodes@,
            from_types@,
            to_types@,
            traffic_volume,
        ),
        r.graph.nodes@ == service_map_nodes(
            graph.edges@,
            graph.nodes@,
            from_types@,
            to_types@,
            traffic_volume,
        ),
        r.active_nodes == active_nodes,
{
    let services_only = only_services_exec(from_types) && only_services_exec(to_types);
    let collapsed = collapse_edges(&graph, services_only);
    let Graph { edges: _, nodes } = graph;
    match traffic_volume {
        Some(p) if collapsed.len() > 0 => {
            let p: u64 = if p < 0 {
                0
            } else if p > 100 {
                100
            } else {
                p as u64
            };
            let (lo, hi) = volume_range(&collapsed);
            let edges = prune_edges(&collapsed, p, lo, hi);
            let nodes = prune_nodes(nodes, &edges);
            ServiceMap { graph: Graph { edges, nodes }, active_nodes }
        },
        _ => ServiceMap { graph: Graph { edges: collapsed, nodes }, active_nodes },
    }
}

/// Raising the percentile never brings an edge back: every edge that a
/// service map keeps at percentile `p2` it also keeps at any `p1 <= p2`
/// (in particular, at 0 it keeps every edge it keeps at 100).
pub proof fn lemma_percentile_monotone(
    edges: Seq<CombinedEdge>,
    nodes: Seq<NodeWithStatus>,
    from_types: Set<NodeType>,
    to_types: Set<NodeType>,
    p1: i64,
    p2: i64,
    e: CombinedEdge,
)
    requires
        p1 <= p2,
        service_map_edges(edges, nodes, from_types, to_types, Some(p2)).contains(e),
    ensures
        service_map_edges(edges, nodes, from_types, to_types, Some(p1)).contains(e),
{
    let a = collapsed_edges(edges, nodes, from_types, to_types);
    if a.len() > 0 {
        let lo = min_volume(a);
        let hi = max_volume(a);
        let q1 = percentile_pred(clamp_percentile(p1), lo, hi);
        let q2 = percentile_pred(clamp_percentile(p2), lo, hi);
        a.lemma_filter_contains_rev(q2, e);
        let k = choose|k: int| 0 <= k < a.len() && a[k] == e;
        let j = choose|j: int| 0 <= j < a.filter(q2).len() && a.filter(q2)[j] == e;
        assert(q2(e));
        lemma_volume_bounds(a, k);
        let c1 = clamp_percentile(p1);
        let c2 = clamp_percentile(p2);
        assert(c1 * (hi - lo) <= c2 * (hi - lo)) by (nonlinear_arith)
            requires
                c1 <= c2,
                hi >= lo,
        ;
        assert(q1(a[k]));
        a.lemma_filter_contains(q1, k);
    }
}

/// With no spread of volume among the edges that survive collapsing, a service
/// map with any percentile keeps no edge and no node.
pub proof fn lemma_no_spread_prunes_all(
    edges: Seq<CombinedEdge>,
    nodes: Seq<NodeWithStatus>,
    from_types: Set<NodeType>,
    to_types: Set<NodeType>,
    p: i64,
    c: int,
)
    requires
        collapsed_edges(edges, nodes, from_types, to_types).len() > 0,
        forall|k: int|
            0 <= k < collapsed_edges(edges, nodes, from_types, to_types).len() ==> edge_volume(
                #[trigger] collapsed_edges(edges, nodes, from_types, to_types)[k],
            ) == c,
    ensures
        service_map_edges(edges, nodes, from_types, to_types, Some(p)).len() == 0,
        service_map_nodes(edges, nodes, from_types, to_types, Some(p)).len() == 0,
{
    let a = collapsed_edges(edges, nodes, from_types, to_types);
    lemma_equal_volumes(a, c);
    let q = percentile_pred(clamp_percentile(p), min_volume(a), max_volume(a));
    let kept = a.filter(q);
    if kept.len() > 0 {
        assert(q(kept[0]));
    }
    let np = endpoint_pred(kept);
    let left = nodes.filter(np);
    if left.len() > 0 {
        assert(np(left[0]));
    }
}

} // verus!
