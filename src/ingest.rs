//! Event ingestion: the rows a batch of observations is appended as, each
//! tagged with its project.

use vstd::prelude::*;
use crate::params::now_seconds;
use crate::payloads::{clone_text, status_code, type_code, Edge, Node};

verus! {

/// A batch of observations for one project.
#[derive(Debug)]
pub struct SubmitData {
    pub project_id: u64,
    pub nodes: Vec<Node>,
    pub edges: Vec<Edge>,
}

/// A stored node observation.
#[derive(Debug)]
pub struct NodeRecord {
    pub project_id: u64,
    pub node_id: u128,
    pub node_type: u8,
    pub name: String,
    pub description: Option<String>,
    pub parent_id: Option<u128>,
    pub ts: i64,
}

/// A stored edge observation.
#[derive(Debug)]
pub struct EdgeRecord {
    pub project_id: u64,
    pub ts: i64,
    pub from_node_id: u128,
    pub to_node_id: u128,
    pub status: u8,
    pub n: u32,
    pub description: Option<String>,
}

/// The record of node `n`, observed at `ts` in project `project_id`.
pub open spec fn node_record(project_id: u64, n: Node, ts: i64) -> NodeRecord {
    NodeRecord {
        project_id,
        node_id: n.node_id,
        node_type: type_code(n.node_type),
        name: n.name,
        description: n.description,
        parent_id: n.parent_id,
        ts,
    }
}

pub open spec fn node_records(project_id: u64, nodes: Seq<Node>, ts: i64) -> Seq<NodeRecord> {
    Seq::new(nodes.len(), |k: int| node_record(project_id, nodes[k], ts))
}

/// The record of edge observation `e` in project `project_id`.
pub open spec fn edge_record(project_id: u64, e: Edge) -> EdgeRecord {
    EdgeRecord {
        project_id,
        ts: e.ts,
        from_node_id: e.from_node_id,
        to_node_id: e.to_node_id,
        status: status_code(e.status),
        n: e.n,
        description: e.description,
    }
}

pub open spec fn edge_records(project_id: u64, edges: Seq<Edge>) -> Seq<EdgeRecord> {
    Seq::new(edges.len(), |k: int| edge_record(project_id, edges[k]))
}

/// The records of a batch of nodes observed at `ts`, in order.
pub fn node_rows(project_id: u64, nodes: &Vec<Node>, ts: i64) -> (r: Vec<NodeRecord>)
    ensures
        r@ == node_records(project_id, nodes@, ts),
{
    let mut rows: Vec<NodeRecord> = Vec::new();
    let mut i: usize = 0;
    while i < nodes.len()
        invariant
            i <= nodes.len(),
            rows@ == node_records(project_id, nodes@.take(i as int), ts),
        decreases nodes.len() - i,
    {
        let n = &nodes[i];
        rows.push(
            NodeRecord {
                project_id,
                node_id: n.node_id,
                node_type: n.node_type.as_u8(),
                name: n.name.clone(),
                description: clone_text(&n.description),
                parent_id: n.parent_id,
                ts,
            },
        );
        assert(rows@ =~= node_records(project_id, nodes@.take(i + 1), ts));
        i = i + 1;
    }
    assert(nodes@.take(nodes.len() as int) =~= nodes@);
    rows
}

/// The records of a batch of nodes observed now: all carry the same time.
pub fn stamped_node_rows(project_id: u64, nodes: &Vec<Node>) -> (r: Vec<NodeRecord>)
    ensures
        exists|ts: i64| r@ == node_records(project_id, nodes@, ts),
{
    let now = now_seconds();
    node_rows(project_id, nodes, now)
}

/// The records of a batch of edge observations, in order.
pub fn edge_rows(project_id: u64, edges: &Vec<Edge>) -> (r: Vec<EdgeRecord>)
    ensures
        r@ == edge_records(project_id, edges@),
{
    let mut rows: Vec<EdgeRecord> = Vec::new();
    let mut i: usize = 0;
    while i < edges.len()
        invariant
            i <= edges.len(),
            rows@ == edge_records(project_id, edges@.take(i as int)),
        decreases edges.len() - i,
    {
        let e = &edges[i];
        rows.push(
            EdgeRecord {
                project_id,
                ts: e.ts,
                from_node_id: e.from_node_id,
                to_node_id: e.to_node_id,
                status: e.status.as_u8(),
                n: e.n,
                description: clone_text(&e.description),
            },
        );
        assert(rows@ =~= edge_records(project_id, edges@.take(i + 1)));
        i = i + 1;
    }
    assert(edges@.take(edges.len() as int) =~= edges@);
    rows
}

} // verus!
