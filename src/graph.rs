//! The graph builder: from the event store's grouped rows to a graph of
//! combined edges and of nodes with the calls counted against them.

use vstd::prelude::*;
use crate::error::ApiError;
use crate::payloads::{
    admits, clone_text, count_for, meets_statuses, meets_statuses_exec, CombinedEdge, EdgeStatus,
    EdgeStatusSet, Graph, Node, NodeType, NodeTypeSet, NodeWithStatus,
};
use crate::prefix::{lemma_filter_all, lemma_filter_none, lemma_take_all, lemma_take_push};

verus! {

broadcast use vstd::seq_lib::group_filter_ensures;

/// One row of the store's answer to a graph query: the calls from one node to
/// another over the window, counted per status, with both nodes' metadata.
#[derive(Debug)]
pub struct GraphRow {
    pub from_node: Node,
    pub to_node: Node,
    pub description: Option<String>,
    pub status_ok: u32,
    pub status_expected_error: u32,
    pub status_unexpected_error: u32,
}

/// Whether a row passes the type filters on its two ends.
pub open spec fn row_admitted(r: GraphRow, from_types: Set<NodeType>, to_types: Set<NodeType>) -> bool {
    admits(from_types, r.from_node.node_type) && admits(to_types, r.to_node.node_type)
}

pub open spec fn admit_pred(from_types: Set<NodeType>, to_types: Set<NodeType>) -> spec_fn(GraphRow) -> bool {
    |r: GraphRow| row_admitted(r, from_types, to_types)
}

/// The rows that pass the type filters, in their order.
pub open spec fn admitted_rows(
    rows: Seq<GraphRow>,
    from_types: Set<NodeType>,
    to_types: Set<NodeType>,
) -> Seq<GraphRow> {
    rows.filter(admit_pred(from_types, to_types))
}

/// The count of a row for status `s`.
pub open spec fn row_count(r: GraphRow, s: EdgeStatus) -> int {
    count_for(s, r.status_ok as int, r.status_expected_error as int, r.status_unexpected_error as int)
}

/// Whether a row passes a status filter.
pub open spec fn row_meets(statuses: Set<EdgeStatus>, r: GraphRow) -> bool {
    meets_statuses(
        statuses,
        r.status_ok as int,
        r.status_expected_error as int,
        r.status_unexpected_error as int,
    )
}

pub open spec fn status_pred(statuses: Set<EdgeStatus>) -> spec_fn(GraphRow) -> bool {
    |r: GraphRow| row_meets(statuses, r)
}

/// The combined edge a row stands for.
pub open spec fn edge_of(r: GraphRow) -> CombinedEdge {
    CombinedEdge {
        from_node_id: r.from_node.node_id,
        to_node_id: r.to_node.node_id,
        description: r.description,
        status_ok: r.status_ok,
        status_expected_error: r.status_expected_error,
        status_unexpected_error: r.status_unexpected_error,
    }
}

/// The combined edges of rows, one for each row, in order.
pub open spec fn edges_of(rows: Seq<GraphRow>) -> Seq<CombinedEdge> {
    Seq::new(rows.len(), |k: int| edge_of(rows[k]))
}

/// The edges of a graph: one for each row that passes the type filters and
/// the status filter.
pub open spec fn graph_edges(
    rows: Seq<GraphRow>,
    from_types: Set<NodeType>,
    to_types: Set<NodeType>,
    statuses: Set<EdgeStatus>,
) -> Seq<CombinedEdge> {
    edges_of(admitted_rows(rows, from_types, to_types).filter(status_pred(statuses)))
}

/// The metadata of node `id` as the last of `rows` that names it leaves it;
/// within a row the destination is written after the source.
pub open spec fn latest_node(rows: Seq<GraphRow>, id: u128) -> Option<Node>
    decreases rows.len(),
{
    if rows.len() == 0 {
        None
    } else if rows.last().to_node.node_id == id {
        Some(rows.last().to_node)
    } else if rows.last().from_node.node_id == id {
        Some(rows.last().from_node)
    } else {
        latest_node(rows.drop_last(), id)
    }
}

/// The calls with status `s` of the rows that end at node `id`.
pub open spec fn inbound(rows: Seq<GraphRow>, id: u128, s: EdgeStatus) -> int
    decreases rows.len(),
{
    if rows.len() == 0 {
        0
    } else {
        inbound(rows.drop_last(), id, s) + if rows.last().to_node.node_id == id {
            row_count(rows.last(), s)
        } else {
            0
        }
    }
}

/// Whether every node's counters fit in a `u64`.
pub open spec fn counters_fit(rows: Seq<GraphRow>) -> bool {
    forall|id: u128, s: EdgeStatus| #[trigger] inbound(rows, id, s) <= u64::MAX
}

/// Whether node `id`'s counters over `rows` pass a status filter.
pub open spec fn node_meets(rows: Seq<GraphRow>, statuses: Set<EdgeStatus>, id: u128) -> bool {
    meets_statuses(
        statuses,
        inbound(rows, id, EdgeStatus::Success),
        inbound(rows, id, EdgeStatus::ExpectedError),
        inbound(rows, id, EdgeStatus::UnexpectedError),
    )
}

/// Whether `n` is node `n.node.node_id` of a graph built from `rows`: its latest
/// metadata, and the calls that end at it.
pub open spec fn is_node_entry(rows: Seq<GraphRow>, n: NodeWithStatus) -> bool {
    let id = n.node.node_id;
    &&& latest_node(rows, id) == Some(n.node)
    &&& n.status_ok == inbound(rows, id, EdgeStatus::Success)
    &&& n.status_expected_error == inbound(rows, id, EdgeStatus::ExpectedError)
    &&& n.status_unexpected_error == inbound(rows, id, EdgeStatus::UnexpectedError)
}

/// Whether `g` is the graph built from `rows` with the given filters: its
/// edges are `graph_edges`; its nodes are, once each and in some order, the
/// nodes at an end of an admitted row whose own counters pass the status filter.
pub open spec fn is_built_graph(
    g: Graph,
    rows: Seq<GraphRow>,
    from_types: Set<NodeType>,
    to_types: Set<NodeType>,
    statuses: Set<EdgeStatus>,
) -> bool {
    let adm = admitted_rows(rows, from_types, to_types);
    &&& g.edges@ == graph_edges(rows, from_types, to_types, statuses)
    &&& forall|k: int|
        0 <= k < g.nodes.len() ==> is_node_entry(adm, #[trigger] g.nodes@[k]) && node_meets(
            adm,
            statuses,
            g.nodes@[k].node.node_id,
        )
    &&& forall|j: int, k: int|
        0 <= j < k < g.nodes.len() ==> (#[trigger] g.nodes@[j]).node.node_id
            != (#[trigger] g.nodes@[k]).node.node_id
    &&& forall|id: u128|
        (#[trigger] latest_node(adm, id)) is Some && node_meets(adm, statuses, id) ==> exists|k: int|
            0 <= k < g.nodes.len() && (#[trigger] g.nodes@[k]).node.node_id == id
}

proof fn lemma_latest_push(s: Seq<GraphRow>, r: GraphRow, id: u128)
    ensures
        latest_node(s.push(r), id) == if r.to_node.node_id == id {
            Some(r.to_node)
        } else if r.from_node.node_id == id {
            Some(r.from_node)
        } else {
            latest_node(s, id)
        },
        forall|st: EdgeStatus|
            #[trigger] inbound(s.push(r), id, st) == inbound(s, id, st) + if r.to_node.node_id == id {
                row_count(r, st)
            } else {
                0
            },
{
    assert(s.push(r).drop_last() =~= s);
}

/// What `latest_node` finds carries the id it was asked for.
proof fn lemma_latest_id(s: Seq<GraphRow>, id: u128)
    ensures
        latest_node(s, id) is Some ==> latest_node(s, id)->0.node_id == id,
    decreases s.len(),
{
    if s.len() > 0 {
        lemma_latest_id(s.drop_last(), id);
    }
}

/// A node no row names has no calls counted against it.
proof fn lemma_absent_no_inbound(s: Seq<GraphRow>, id: u128, st: EdgeStatus)
    ensures
        latest_node(s, id) is None ==> inbound(s, id, st) == 0,
    decreases s.len(),
{
    if s.len() > 0 {
        lemma_absent_no_inbound(s.drop_last(), id, st);
    }
}

/// Counters only grow as rows are added.
proof fn lemma_inbound_monotone(
    rows: Seq<GraphRow>,
    f: Set<NodeType>,
    t: Set<NodeType>,
    j: int,
    id: u128,
    st: EdgeStatus,
)
    requires
        0 <= j <= rows.len(),
    ensures
        inbound(admitted_rows(rows.take(j), f, t), id, st) <= inbound(admitted_rows(rows, f, t), id, st),
    decreases rows.len() - j,
{
    if j < rows.len() {
        lemma_inbound_monotone(rows, f, t, j + 1, id, st);
        lemma_take_push(rows, j);
        rows.take(j).lemma_filter_push(rows[j], admit_pred(f, t));
        lemma_latest_push(admitted_rows(rows.take(j), f, t), rows[j], id);
    } else {
        lemma_take_all(rows);
    }
}

fn edge_from_row(r: &GraphRow) -> (e: CombinedEdge)
    ensures
        e == edge_of(*r),
{
    CombinedEdge {
        from_node_id: r.from_node.node_id,
        to_node_id: r.to_node.node_id,
        description: clone_text(&r.description),
        status_ok: r.status_ok,
        status_expected_error: r.status_expected_error,
        status_unexpected_error: r.status_unexpected_error,
    }
}

fn row_admitted_exec(r: &GraphRow, from_types: &NodeTypeSet, to_types: &NodeTypeSet) -> (b: bool)
    ensures
        b == row_admitted(*r, from_types@, to_types@),
{
    from_types.admits(r.from_node.node_type) && to_types.admits(r.to_node.node_type)
}

pub(crate) fn contains_id(ids: &Vec<u128>, id: u128) -> (b: bool)
    ensures
        b == ids@.contains(id),
{
    let mut i: usize = 0;
    while i < ids.len()
        invariant
            i <= ids.len(),
            forall|k: int| 0 <= k < i ==> ids@[k] != id,
        decreases ids.len() - i,
    {
        if ids[i] == id {
            return true;
        }
        i = i + 1;
    }
    false
}

pub(crate) fn add_id(ids: &mut Vec<u128>, id: u128)
    requires
        forall|j: int, k: int| 0 <= j < k < old(ids).len() ==> old(ids)@[j] != old(ids)@[k],
    ensures
        forall|j: int, k: int| 0 <= j < k < final(ids).len() ==> final(ids)@[j] != final(ids)@[k],
        forall|y: u128| final(ids)@.contains(y) <==> old(ids)@.contains(y) || y == id,
{
    if !contains_id(ids, id) {
        let ghost before = ids@;
        ids.push(id);
        assert forall|y: u128| ids@.contains(y) <==> before.contains(y) || y == id by {
            if ids@.contains(y) {
                let k = choose|k: int| 0 <= k < ids.len() && ids@[k] == y;
                if k < before.len() {
                    assert(before[k] == y);
                }
            }
            if before.contains(y) {
                let k = choose|k: int| 0 <= k < before.len() && before[k] == y;
                assert(ids@[k] == y);
            }
            if y == id {
                assert(ids@[before.len() as int] == id);
            }
        }
    }
}

/// The edges of the graph, and the ids of the nodes the admitted rows name,
/// once each, in order of first appearance.
fn edges_and_ids(
    rows: &Vec<GraphRow>,
    from_types: &NodeTypeSet,
    to_types: &NodeTypeSet,
    statuses: &EdgeStatusSet,
) -> (r: (Vec<CombinedEdge>, Vec<u128>))
    ensures
        r.0@ == graph_edges(rows@, from_types@, to_types@, statuses@),
        forall|j: int, k: int| 0 <= j < k < r.1.len() ==> r.1@[j] != r.1@[k],
        forall|id: u128|
            r.1@.contains(id) <==> (#[trigger] latest_node(
                admitted_rows(rows@, from_types@, to_types@),
                id,
            )) is Some,
{
    let ghost f = from_types@;
    let ghost t = to_types@;
    let ghost ap = admit_pred(f, t);
    let ghost sp = status_pred(statuses@);
    let mut edges: Vec<CombinedEdge> = Vec::new();
    let mut ids: Vec<u128> = Vec::new();
    let mut i: usize = 0;
    while i < rows.len()
        invariant
            i <= rows.len(),
            f == from_types@,
            t == to_types@,
            ap == admit_pred(f, t),
            sp == status_pred(statuses@),
            edges@ == edges_of(rows@.take(i as int).filter(ap).filter(sp)),
            forall|j: int, k: int| 0 <= j < k < ids.len() ==> ids@[j] != ids@[k],
            forall|id: u128|
                ids@.contains(id) <==> (#[trigger] latest_node(rows@.take(i as int).filter(ap), id)) is Some,
        decreases rows.len() - i,
    {
        let ghost prev = rows@.take(i as int).filter(ap);
        let ghost row = rows@[i as int];
        proof {
            lemma_take_push(rows@, i as int);
            rows@.take(i as int).lemma_filter_push(row, ap);
            prev.lemma_filter_push(row, sp);
        }
        if row_admitted_exec(&rows[i], from_types, to_types) {
            if meets_statuses_exec(
                statuses,
                rows[i].status_ok as u64,
                rows[i].status_expected_error as u64,
                rows[i].status_unexpected_error as u64,
            ) {
                edges.push(edge_from_row(&rows[i]));
                assert(edges@ =~= edges_of(prev.filter(sp).push(row)));
            }
            add_id(&mut ids, rows[i].from_node.node_id);
            add_id(&mut ids, rows[i].to_node.node_id);
            assert forall|id: u128|
                ids@.contains(id) <==> (#[trigger] latest_node(prev.push(row), id)) is Some by {
                lemma_latest_push(prev, row, id);
            }
        }
        i = i + 1;
    }
    proof {
        lemma_take_all(rows@);
    }
    (edges, ids)
}

/// The entry of node `id`, if its counters fit.
fn node_summary(rows: &Vec<GraphRow>, from_types: &NodeTypeSet, to_types: &NodeTypeSet, id: u128) -> (r:
    Option<NodeWithStatus>)
    requires
        latest_node(admitted_rows(rows@, from_types@, to_types@), id) is Some,
    ensures
        r is Some <==> (forall|s: EdgeStatus|
            #[trigger] inbound(admitted_rows(rows@, from_types@, to_types@), id, s) <= u64::MAX),
        r is Some ==> r->0.node.node_id == id && is_node_entry(
            admitted_rows(rows@, from_types@, to_types@),
            r->0,
        ),
{
    let ghost f = from_types@;
    let ghost t = to_types@;
    let ghost ap = admit_pred(f, t);
    let mut latest: Option<Node> = None;
    let mut ok: u64 = 0;
    let mut expected: u64 = 0;
    let mut unexpected: u64 = 0;
    let mut i: usize = 0;
    while i < rows.len()
        invariant
            i <= rows.len(),
            f == from_types@,
            t == to_types@,
            ap == admit_pred(f, t),
            latest == latest_node(rows@.take(i as int).filter(ap), id),
            ok == inbound(rows@.take(i as int).filter(ap), id, EdgeStatus::Success),
            expected == inbound(rows@.take(i as int).filter(ap), id, EdgeStatus::ExpectedError),
            unexpected == inbound(rows@.take(i as int).filter(ap), id, EdgeStatus::UnexpectedError),
        decreases rows.len() - i,
    {
        let ghost prev = rows@.take(i as int).filter(ap);
        let ghost row = rows@[i as int];
        proof {
            lemma_take_push(rows@, i as int);
            rows@.take(i as int).lemma_filter_push(row, ap);
            lemma_latest_push(prev, row, id);
        }
        if row_admitted_exec(&rows[i], from_types, to_types) {
            let r = &rows[i];
            if r.to_node.node_id == id {
                latest = Some(r.to_node.clone());
                let a = ok.checked_add(r.status_ok as u64);
                let b = expected.checked_add(r.status_expected_error as u64);
                let c = unexpected.checked_add(r.status_unexpected_error as u64);
                match (a, b, c) {
                    (Some(a), Some(b), Some(c)) => {
                        ok = a;
                        expected = b;
                        unexpected = c;
                    },
                    _ => {
                        proof {
                            let s = if a is None {
                                EdgeStatus::Success
                            } else if b is None {
                                EdgeStatus::ExpectedError
                            } else {
                                EdgeStatus::UnexpectedError
                            };
                            lemma_inbound_monotone(rows@, f, t, i + 1, id, s);
                        }
                        return None;
                    },
                }
            } else if r.from_node.node_id == id {
                latest = Some(r.from_node.clone());
            }
        }
        i = i + 1;
    }
    proof {
        lemma_take_all(rows@);
        lemma_latest_id(admitted_rows(rows@, f, t), id);
    }
    match latest {
        Some(node) => Some(
            NodeWithStatus {
                node,
                status_ok: ok,
                status_expected_error: expected,
                status_unexpected_error: unexpected,
            },
        ),
        None => None,
    }
}

/// Builds the graph of a window from the store's rows for it.
///
/// Rows whose ends do not pass the type filters are left out. Each remaining
/// row gives one combined edge, kept if it passes the status filter: every
/// requested status has a non-zero count. Each node at an end of a remaining
/// row is listed once, with the metadata of the last row that names it and,
/// for each status, the calls of the rows that end at it; it is kept if those
/// counters pass the status filter. Fails if such a sum does not fit a `u64`.
pub fn build_graph(
    rows: &Vec<GraphRow>,
    from_types: &NodeTypeSet,
    to_types: &NodeTypeSet,
    edge_statuses: &EdgeStatusSet,
) -> (r: Result<Graph, ApiError>)
    ensures
        r is Ok <==> counters_fit(admitted_rows(rows@, from_types@, to_types@)),
        r is Ok ==> is_built_graph(r->Ok_0, rows@, from_types@, to_types@, edge_statuses@),
        r is Err ==> r->Err_0.kind == crate::error::ErrorKind::CounterOverflow,
{
    let ghost adm = admitted_rows(rows@, from_types@, to_types@);
    let (edges, ids) = edges_and_ids(rows, from_types, to_types, edge_statuses);
    let mut nodes: Vec<NodeWithStatus> = Vec::new();
    let mut i: usize = 0;
    while i < ids.len()
        invariant
            i <= ids.len(),
            adm == admitted_rows(rows@, from_types@, to_types@),
            forall|j: int, k: int| 0 <= j < k < ids.len() ==> ids@[j] != ids@[k],
            forall|id: u128| ids@.contains(id) <==> (#[trigger] latest_node(adm, id)) is Some,
            forall|k: int, s: EdgeStatus| 0 <= k < i ==> #[trigger] inbound(adm, ids@[k], s) <= u64::MAX,
            forall|k: int|
                0 <= k < nodes.len() ==> is_node_entry(adm, #[trigger] nodes@[k]) && node_meets(
                    adm,
                    edge_statuses@,
                    nodes@[k].node.node_id,
                ) && exists|j: int| 0 <= j < i && ids@[j] == nodes@[k].node.node_id,
            forall|j: int, k: int|
                0 <= j < k < nodes.len() ==> (#[trigger] nodes@[j]).node.node_id
                    != (#[trigger] nodes@[k]).node.node_id,
            forall|j: int|
                0 <= j < i && node_meets(adm, edge_statuses@, #[trigger] ids@[j]) ==> exists|k: int|
                    0 <= k < nodes.len() && nodes@[k].node.node_id == ids@[j],
        decreases ids.len() - i,
    {
        let id = ids[i];
        assert(ids@.contains(id));
        match node_summary(rows, from_types, to_types, id) {
            None => {
                proof {
                    let s = choose|s: EdgeStatus| !(#[trigger] inbound(adm, id, s) <= u64::MAX);
                    assert(!(inbound(adm, id, s) <= u64::MAX));
                }
                return Err(ApiError::counter_overflow());
            },
            Some(n) => {
                if meets_statuses_exec(
                    edge_statuses,
                    n.status_ok,
                    n.status_expected_error,
                    n.status_unexpected_error,
                ) {
                    let ghost before = nodes@;
                    nodes.push(n);
                    assert forall|k: int| 0 <= k < nodes.len() - 1 implies (#[trigger] nodes@[k]).node.node_id != id by {
                        let j = choose|j: int| 0 <= j < i && ids@[j] == before[k].node.node_id;
                        assert(ids@[j] != ids@[i as int]);
                    }
                    assert forall|j: int|
                        0 <= j <= i && node_meets(adm, edge_statuses@, #[trigger] ids@[j]) implies exists|k: int|
                            0 <= k < nodes.len() && nodes@[k].node.node_id == ids@[j] by {
                        if j < i {
                            let k = choose|k: int| 0 <= k < before.len() && before[k].node.node_id == ids@[j];
                            assert(nodes@[k] == before[k]);
                        } else {
                            assert(nodes@[before.len() as int].node.node_id == ids@[j]);
                        }
                    }
                }
            },
        }
        i = i + 1;
    }
    proof {
        assert forall|id: u128, s: EdgeStatus| #[trigger] inbound(adm, id, s) <= u64::MAX by {
            lemma_absent_no_inbound(adm, id, s);
            if latest_node(adm, id) is Some {
                assert(ids@.contains(id));
                let k = choose|k: int| 0 <= k < ids.len() && ids@[k] == id;
                assert(inbound(adm, ids@[k], s) <= u64::MAX);
            }
        }
        assert forall|id: u128|
            (#[trigger] latest_node(adm, id)) is Some && node_meets(adm, edge_statuses@, id) implies exists|k: int|
                0 <= k < nodes.len() && (#[trigger] nodes@[k]).node.node_id == id by {
            assert(ids@.contains(id));
            let j = choose|j: int| 0 <= j < ids.len() && ids@[j] == id;
            assert(node_meets(adm, edge_statuses@, ids@[j]));
        }
    }
    Ok(Graph { edges, nodes })
}

/// Where no row passes the type filters (in particular, where the window holds
/// no edge at all), the graph has no edge and no node.
pub proof fn lemma_no_matching_rows_empty_graph(
    g: Graph,
    rows: Seq<GraphRow>,
    from_types: Set<NodeType>,
    to_types: Set<NodeType>,
    statuses: Set<EdgeStatus>,
)
    requires
        is_built_graph(g, rows, from_types, to_types, statuses),
        forall|k: int| 0 <= k < rows.len() ==> !row_admitted(#[trigger] rows[k], from_types, to_types),
    ensures
        g.edges.len() == 0,
        g.nodes.len() == 0,
{
    let ap = admit_pred(from_types, to_types);
    assert forall|k: int| 0 <= k < rows.len() implies !ap(#[trigger] rows[k]) by {
        assert(!row_admitted(rows[k], from_types, to_types));
    }
    lemma_filter_none(rows, ap);
    let adm = admitted_rows(rows, from_types, to_types);
    assert(adm.filter(status_pred(statuses)).len() <= adm.len());
    if g.nodes.len() > 0 {
        assert(is_node_entry(adm, g.nodes@[0]));
    }
}

/// Whether a row counts at least one call with status `s`.
pub open spec fn has_status_pred(s: EdgeStatus) -> spec_fn(GraphRow) -> bool {
    |r: GraphRow| row_count(r, s) > 0
}

/// A status filter of the one status `s` keeps exactly the edges and the nodes
/// that counted a call with status `s`; the empty status filter keeps all.
pub proof fn lemma_status_filter_single_and_empty(
    rows: Seq<GraphRow>,
    from_types: Set<NodeType>,
    to_types: Set<NodeType>,
    s: EdgeStatus,
)
    ensures
        graph_edges(rows, from_types, to_types, Set::empty().insert(s)) == edges_of(
            admitted_rows(rows, from_types, to_types).filter(has_status_pred(s)),
        ),
        graph_edges(rows, from_types, to_types, Set::empty()) == edges_of(
            admitted_rows(rows, from_types, to_types),
        ),
        forall|adm: Seq<GraphRow>, id: u128|
            #[trigger] node_meets(adm, Set::empty().insert(s), id) <==> inbound(adm, id, s) > 0,
        forall|adm: Seq<GraphRow>, id: u128| #[trigger] node_meets(adm, Set::empty(), id),
{
    let one = Set::<EdgeStatus>::empty().insert(s);
    assert forall|r: GraphRow| #[trigger] status_pred(one)(r) == has_status_pred(s)(r) by {
        if row_count(r, s) > 0 {
            assert forall|x: EdgeStatus| #[trigger] one.contains(x) implies count_for(
                x,
                r.status_ok as int,
                r.status_expected_error as int,
                r.status_unexpected_error as int,
            ) > 0 by {
                assert(x == s);
            }
        } else {
            assert(one.contains(s));
        }
    }
    assert(status_pred(one) =~= has_status_pred(s));
    let none = Set::<EdgeStatus>::empty();
    assert forall|r: GraphRow| #[trigger] status_pred(none)(r) by {
        assert(row_meets(none, r));
    }
    lemma_filter_all(admitted_rows(rows, from_types, to_types), status_pred(none));
    assert forall|adm: Seq<GraphRow>, id: u128|
        #[trigger] node_meets(adm, one, id) <==> inbound(adm, id, s) > 0 by {
        if !node_meets(adm, one, id) {
            let x = choose|x: EdgeStatus|
                #[trigger] one.contains(x) && !(count_for(
                    x,
                    inbound(adm, id, EdgeStatus::Success),
                    inbound(adm, id, EdgeStatus::ExpectedError),
                    inbound(adm, id, EdgeStatus::UnexpectedError),
                ) > 0);
            assert(x == s);
        } else {
            assert(one.contains(s));
        }
    }
}

/// Building a graph twice from the same rows with the same filters gives the
/// same edges in the same order, and the same nodes, each once, in any order.
pub proof fn lemma_built_graph_unique(
    g1: Graph,
    g2: Graph,
    rows: Seq<GraphRow>,
    from_types: Set<NodeType>,
    to_types: Set<NodeType>,
    statuses: Set<EdgeStatus>,
)
    requires
        is_built_graph(g1, rows, from_types, to_types, statuses),
        is_built_graph(g2, rows, from_types, to_types, statuses),
    ensures
        g1.edges@ == g2.edges@,
        forall|n: NodeWithStatus| g1.nodes@.contains(n) <==> g2.nodes@.contains(n),
{
    assert forall|n: NodeWithStatus| g1.nodes@.contains(n) implies g2.nodes@.contains(n) by {
        lemma_node_in_other(g1, g2, rows, from_types, to_types, statuses, n);
    }
    assert forall|n: NodeWithStatus| g2.nodes@.contains(n) implies g1.nodes@.contains(n) by {
        lemma_node_in_other(g2, g1, rows, from_types, to_types, statuses, n);
    }
}

proof fn lemma_node_in_other(
    g1: Graph,
    g2: Graph,
    rows: Seq<GraphRow>,
    from_types: Set<NodeType>,
    to_types: Set<NodeType>,
    statuses: Set<EdgeStatus>,
    n: NodeWithStatus,
)
    requires
        is_built_graph(g1, rows, from_types, to_types, statuses),
        is_built_graph(g2, rows, from_types, to_types, statuses),
        g1.nodes@.contains(n),
    ensures
        g2.nodes@.contains(n),
{
    let adm = admitted_rows(rows, from_types, to_types);
    let k1 = choose|k: int| 0 <= k < g1.nodes.len() && g1.nodes@[k] == n;
    assert(is_node_entry(adm, g1.nodes@[k1]));
    let id = n.node.node_id;
    assert(latest_node(adm, id) is Some);
    let k2 = choose|k: int| 0 <= k < g2.nodes.len() && (#[trigger] g2.nodes@[k]).node.node_id == id;
    assert(is_node_entry(adm, g2.nodes@[k2]));
    assert(g2.nodes@[k2] == n);
}

} // verus!
