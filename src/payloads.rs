//! The data model: node and edge kinds, nodes, edges and query results.

use vstd::prelude::*;

verus! {

/// The outcome of a call from one node to another: it succeeded, or it
/// failed in a way the caller expects, or in a way it does not.
#[derive(Debug, Copy, Clone, PartialEq, Eq, Structural, Hash, PartialOrd, Ord)]
pub enum EdgeStatus {
    Success,
    ExpectedError,
    UnexpectedError,
}

/// The code under which a status is stored.
pub open spec fn status_code(s: EdgeStatus) -> u8 {
    match s {
        EdgeStatus::Success => 1,
        EdgeStatus::ExpectedError => 2,
        EdgeStatus::UnexpectedError => 3,
    }
}

impl EdgeStatus {
    pub fn as_u8(self) -> (r: u8)
        ensures
            r == status_code(self),
    {
        match self {
            EdgeStatus::Success => 1,
            EdgeStatus::ExpectedError => 2,
            EdgeStatus::UnexpectedError => 3,
        }
    }

    /// Decodes a stored status; every code but 1 and 2 reads as an unexpected error.
    pub fn from_u8(value: u8) -> (r: EdgeStatus)
        ensures
            value == 1 ==> r == EdgeStatus::Success,
            value == 2 ==> r == EdgeStatus::ExpectedError,
            value != 1 && value != 2 ==> r == EdgeStatus::UnexpectedError,
    {
        match value {
            1 => EdgeStatus::Success,
            2 => EdgeStatus::ExpectedError,
            _ => EdgeStatus::UnexpectedError,
        }
    }
}

/// The kind of a node: a service, or a transaction owned by a service.
#[derive(Debug, Copy, Clone, PartialEq, Eq, Structural, Hash, PartialOrd, Ord)]
pub enum NodeType {
    Service,
    Transaction,
}

/// The code under which a node type is stored.
pub open spec fn type_code(t: NodeType) -> u8 {
    match t {
        NodeType::Service => 1,
        NodeType::Transaction => 2,
    }
}

impl NodeType {
    pub fn as_u8(self) -> (r: u8)
        ensures
            r == type_code(self),
    {
        match self {
            NodeType::Service => 1,
            NodeType::Transaction => 2,
        }
    }

    /// Decodes a stored node type; every code but 2 reads as a service.
    pub fn from_u8(value: u8) -> (r: NodeType)
        ensures
            value == 2 ==> r == NodeType::Transaction,
            value != 2 ==> r == NodeType::Service,
    {
        match value {
            2 => NodeType::Transaction,
            _ => NodeType::Service,
        }
    }
}


/// A set of node types, as used by the type filters of a query. The empty set
/// filters nothing: it admits every type, exactly as the full set does.
#[derive(Debug, Copy, Clone, PartialEq, Eq, Structural)]
pub struct NodeTypeSet {
    pub service: bool,
    pub transaction: bool,
}

impl View for NodeTypeSet {
    type V = Set<NodeType>;

    open spec fn view(&self) -> Set<NodeType> {
        Set::new(
            |t: NodeType|
                match t {
                    NodeType::Service => self.service,
                    NodeType::Transaction => self.transaction,
                },
        )
    }
}

/// Whether a type filter lets a node of type `t` through.
pub open spec fn admits(types: Set<NodeType>, t: NodeType) -> bool {
    types.is_empty() || types.contains(t)
}

impl NodeTypeSet {
    pub fn new() -> (r: NodeTypeSet)
        ensures
            r@ == Set::<NodeType>::empty(),
    {
        let r = NodeTypeSet { service: false, transaction: false };
        assert(r@ =~= Set::<NodeType>::empty());
        r
    }

    pub fn insert(&mut self, t: NodeType)
        ensures
            final(self)@ == old(self)@.insert(t),
    {
        match t {
            NodeType::Service => self.service = true,
            NodeType::Transaction => self.transaction = true,
        }
        assert(self@ =~= old(self)@.insert(t));
    }

    pub fn contains(&self, t: NodeType) -> (r: bool)
        ensures
            r == self@.contains(t),
    {
        match t {
            NodeType::Service => self.service,
            NodeType::Transaction => self.transaction,
        }
    }

    pub fn is_empty(&self) -> (r: bool)
        ensures
            r == self@.is_empty(),
    {
        proof {
            if !self.service && !self.transaction {
                assert(self@ =~= Set::<NodeType>::empty());
            }
            if self@.is_empty() {
                assert(!self@.contains(NodeType::Service));
                assert(!self@.contains(NodeType::Transaction));
            }
        }
        !self.service && !self.transaction
    }

    pub fn len(&self) -> (r: usize)
        ensures
            r == self@.len(),
    {
        proof {
            lemma_node_type_set_len(*self);
        }
        (if self.service { 1 } else { 0 }) + (if self.transaction { 1 } else { 0 })
    }

    /// Whether this filter lets a node of type `t` through.
    pub fn admits(&self, t: NodeType) -> (r: bool)
        ensures
            r == admits(self@, t),
    {
        let e = self.is_empty();
        let c = self.contains(t);
        e || c
    }
}

proof fn lemma_node_type_set_len(s: NodeTypeSet)
    ensures
        s@.finite(),
        s@.len() == (if s.service { 1nat } else { 0nat }) + (if s.transaction { 1nat } else { 0nat }),
{
    let e = Set::<NodeType>::empty();
    let a = if s.service { e.insert(NodeType::Service) } else { e };
    let b = if s.transaction { a.insert(NodeType::Transaction) } else { a };
    assert(s@ =~= b);
}

/// An empty type filter and a full one let the same nodes through.
pub proof fn lemma_empty_and_full_type_filters_agree(t: NodeType)
    ensures
        admits(Set::<NodeType>::empty(), t) == admits(Set::<NodeType>::full(), t),
        admits(Set::<NodeType>::empty(), t),
{
}

/// A set of edge statuses, as used by the status filter of a graph query.
#[derive(Debug, Copy, Clone, PartialEq, Eq, Structural)]
pub struct EdgeStatusSet {
    pub success: bool,
    pub expected_error: bool,
    pub unexpected_error: bool,
}

impl View for EdgeStatusSet {
    type V = Set<EdgeStatus>;

    open spec fn view(&self) -> Set<EdgeStatus> {
        Set::new(
            |s: EdgeStatus|
                match s {
                    EdgeStatus::Success => self.success,
                    EdgeStatus::ExpectedError => self.expected_error,
                    EdgeStatus::UnexpectedError => self.unexpected_error,
                },
        )
    }
}

impl EdgeStatusSet {
    pub fn new() -> (r: EdgeStatusSet)
        ensures
            r@ == Set::<EdgeStatus>::empty(),
    {
        let r = EdgeStatusSet { success: false, expected_error: false, unexpected_error: false };
        assert(r@ =~= Set::<EdgeStatus>::empty());
        r
    }

    pub fn insert(&mut self, s: EdgeStatus)
        ensures
            final(self)@ == old(self)@.insert(s),
    {
        match s {
            EdgeStatus::Success => self.success = true,
            EdgeStatus::ExpectedError => self.expected_error = true,
            EdgeStatus::UnexpectedError => self.unexpected_error = true,
        }
        assert(self@ =~= old(self)@.insert(s));
    }

    pub fn contains(&self, s: EdgeStatus) -> (r: bool)
        ensures
            r == self@.contains(s),
    {
        match s {
            EdgeStatus::Success => self.success,
            EdgeStatus::ExpectedError => self.expected_error,
            EdgeStatus::UnexpectedError => self.unexpected_error,
        }
    }

    pub fn is_empty(&self) -> (r: bool)
        ensures
            r == self@.is_empty(),
    {
        proof {
            if !self.success && !self.expected_error && !self.unexpected_error {
                assert(self@ =~= Set::<EdgeStatus>::empty());
            }
            if self@.is_empty() {
                assert(!self@.contains(EdgeStatus::Success));
                assert(!self@.contains(EdgeStatus::ExpectedError));
                assert(!self@.contains(EdgeStatus::UnexpectedError));
            }
        }
        !self.success && !self.expected_error && !self.unexpected_error
    }
}

/// The count that a triple of per-status counters holds for status `s`.
pub open spec fn count_for(s: EdgeStatus, success: int, expected: int, unexpected: int) -> int {
    match s {
        EdgeStatus::Success => success,
        EdgeStatus::ExpectedError => expected,
        EdgeStatus::UnexpectedError => unexpected,
    }
}

/// Whether counters pass a status filter: every requested status has been
/// counted at least once. The empty filter passes everything.
pub open spec fn meets_statuses(statuses: Set<EdgeStatus>, success: int, expected: int, unexpected: int) -> bool {
    forall|s: EdgeStatus| #[trigger] statuses.contains(s) ==> count_for(s, success, expected, unexpected) > 0
}

/// Decides `meets_statuses` on concrete counters.
pub fn meets_statuses_exec(statuses: &EdgeStatusSet, success: u64, expected: u64, unexpected: u64) -> (r: bool)
    ensures
        r == meets_statuses(statuses@, success as int, expected as int, unexpected as int),
{
    let r = (!statuses.success || success > 0) && (!statuses.expected_error || expected > 0)
        && (!statuses.unexpected_error || unexpected > 0);
    proof {
        if !r {
            if statuses.success && success == 0 {
                assert(statuses@.contains(EdgeStatus::Success));
            } else if statuses.expected_error && expected == 0 {
                assert(statuses@.contains(EdgeStatus::ExpectedError));
            } else {
                assert(statuses@.contains(EdgeStatus::UnexpectedError));
            }
        }
    }
    r
}

/// A service or a transaction. A transaction names its owning service as parent.
#[derive(Debug)]
pub struct Node {
    pub node_id: u128,
    pub node_type: NodeType,
    pub name: String,
    pub description: Option<String>,
    pub parent_id: Option<u128>,
}

/// A copy of an optional text.
pub fn clone_text(s: &Option<String>) -> (r: Option<String>)
    ensures
        r == *s,
{
    match s {
        Some(t) => Some(t.clone()),
        None => None,
    }
}

impl Clone for Node {
    fn clone(&self) -> (r: Node)
        ensures
            r == *self,
    {
        Node {
            node_id: self.node_id,
            node_type: self.node_type,
            name: self.name.clone(),
            description: clone_text(&self.description),
            parent_id: self.parent_id,
        }
    }
}

/// An observation: `n` calls from one node to another, all with one outcome,
/// at time `ts` (seconds since the Unix epoch).
#[derive(Debug)]
pub struct Edge {
    pub ts: i64,
    pub from_node_id: u128,
    pub to_node_id: u128,
    pub status: EdgeStatus,
    pub n: u32,
    pub description: Option<String>,
}

/// The calls from one node to another over a window, counted per status.
#[derive(Debug)]
pub struct CombinedEdge {
    pub from_node_id: u128,
    pub to_node_id: u128,
    pub description: Option<String>,
    pub status_ok: u32,
    pub status_expected_error: u32,
    pub status_unexpected_error: u32,
}

impl Clone for CombinedEdge {
    fn clone(&self) -> (r: CombinedEdge)
        ensures
            r == *self,
    {
        CombinedEdge {
            from_node_id: self.from_node_id,
            to_node_id: self.to_node_id,
            description: clone_text(&self.description),
            status_ok: self.status_ok,
            status_expected_error: self.status_expected_error,
            status_unexpected_error: self.status_unexpected_error,
        }
    }
}

/// The total number of calls an edge counts, whatever their outcome.
pub open spec fn edge_volume(e: CombinedEdge) -> int {
    e.status_ok + e.status_expected_error + e.status_unexpected_error
}

/// A node with the calls counted against it, per status.
#[derive(Debug)]
pub struct NodeWithStatus {
    pub node: Node,
    pub status_ok: u64,
    pub status_expected_error: u64,
    pub status_unexpected_error: u64,
}

impl Clone for NodeWithStatus {
    fn clone(&self) -> (r: NodeWithStatus)
        ensures
            r == *self,
    {
        NodeWithStatus {
            node: self.node.clone(),
            status_ok: self.status_ok,
            status_expected_error: self.status_expected_error,
            status_unexpected_error: self.status_unexpected_error,
        }
    }
}

/// A directed multigraph: combined edges, and the nodes they touch.
#[derive(Debug)]
pub struct Graph {
    pub edges: Vec<CombinedEdge>,
    pub nodes: Vec<NodeWithStatus>,
}

/// A node, and the last time it took part in a call.
#[derive(Debug)]
pub struct NodeActivity {
    pub node: Node,
    pub last_activity: i64,
}

#[derive(Debug)]
pub struct ActiveNodes {
    pub nodes: Vec<NodeActivity>,
}

/// A simplified graph for display, and the active nodes beside it.
#[derive(Debug)]
pub struct ServiceMap {
    pub graph: Graph,
    pub active_nodes: ActiveNodes,
}

/// The traffic of one minute: `ts` is the minute's first second.
#[derive(Debug, Copy, Clone, PartialEq, Eq, Structural)]
pub struct Bucket {
    pub ts: i64,
    pub n: u64,
}

/// Traffic per minute, in ascending order of minute; quiet minutes are left out.
#[derive(Debug)]
pub struct Histogram {
    pub buckets: Vec<Bucket>,
}

/// A time window, `start <= ts <= end`, in seconds since the Unix epoch.
#[derive(Debug, Copy, Clone, PartialEq, Eq, Structural)]
pub struct Window {
    pub start: i64,
    pub end: i64,
}

/// Whether time `ts` lies in window `w`.
pub open spec fn in_window(w: Window, ts: i64) -> bool {
    w.start <= ts <= w.end
}

} // verus!
