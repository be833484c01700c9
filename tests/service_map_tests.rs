use servicegraph::graph::{build_graph, GraphRow};
use servicegraph::payloads::{
    ActiveNodes, CombinedEdge, EdgeStatusSet, Graph, Node, NodeActivity, NodeType, NodeTypeSet,
    NodeWithStatus,
};
use servicegraph::service_map::build_service_map;

fn node(id: u128, node_type: NodeType, parent_id: Option<u128>) -> Node {
    Node { node_id: id, node_type, name: format!("node_{}", id), description: None, parent_id }
}

fn with_status(n: &Node) -> NodeWithStatus {
    NodeWithStatus { node: n.clone(), status_ok: 0, status_expected_error: 0, status_unexpected_error: 0 }
}

fn edge(from: u128, to: u128, n: u32) -> CombinedEdge {
    CombinedEdge {
        from_node_id: from,
        to_node_id: to,
        description: None,
        status_ok: n,
        status_expected_error: 0,
        status_unexpected_error: 0,
    }
}

fn services_only() -> NodeTypeSet {
    let mut s = NodeTypeSet::new();
    s.insert(NodeType::Service);
    s
}

fn no_active() -> ActiveNodes {
    ActiveNodes { nodes: vec![] }
}

fn pairs(g: &Graph) -> Vec<(u128, u128)> {
    g.edges.iter().map(|e| (e.from_node_id, e.to_node_id)).collect()
}

fn ids(g: &Graph) -> Vec<u128> {
    let mut v: Vec<u128> = g.nodes.iter().map(|n| n.node.node_id).collect();
    v.sort();
    v
}

fn grow_row(from: &Node, to: &Node, n: u32) -> GraphRow {
    GraphRow {
        from_node: from.clone(),
        to_node: to.clone(),
        description: None,
        status_ok: n,
        status_expected_error: 0,
        status_unexpected_error: 0,
    }
}

#[test]
fn service_view_keeps_only_service_edges() {
    let a = node(1, NodeType::Service, None);
    let b = node(2, NodeType::Service, None);
    let c = node(3, NodeType::Transaction, Some(2));
    let rows = vec![grow_row(&a, &b, 5), grow_row(&a, &c, 3)];
    let s = services_only();
    let g = build_graph(&rows, &s, &s, &EdgeStatusSet::new()).unwrap();
    let map = build_service_map(g, no_active(), &s, &s, None);
    assert_eq!(pairs(&map.graph), vec![(1, 2)]);
}

#[test]
fn service_view_drops_other_edges() {
    let a = node(1, NodeType::Service, None);
    let b = node(2, NodeType::Service, None);
    let c = node(3, NodeType::Transaction, Some(2));
    let g = Graph {
        edges: vec![edge(1, 2, 5), edge(1, 3, 3), edge(3, 2, 1)],
        nodes: vec![with_status(&a), with_status(&b), with_status(&c)],
    };
    let s = services_only();
    let map = build_service_map(g, no_active(), &s, &s, None);
    assert_eq!(pairs(&map.graph), vec![(1, 2)]);
    assert_eq!(map.graph.nodes.len(), 3);
}

#[test]
fn unfiltered_view_drops_service_edges() {
    let a = node(1, NodeType::Service, None);
    let b = node(2, NodeType::Service, None);
    let c = node(3, NodeType::Transaction, Some(2));
    let rows = vec![grow_row(&a, &b, 5), grow_row(&a, &c, 3)];
    let none = NodeTypeSet::new();
    let g = build_graph(&rows, &none, &none, &EdgeStatusSet::new()).unwrap();
    let map = build_service_map(g, no_active(), &none, &none, None);
    assert!(map.graph.edges.is_empty());
    assert_eq!(map.graph.nodes.len(), 3);
}

#[test]
fn transaction_to_service_kept_without_visible_children() {
    let x = node(10, NodeType::Transaction, Some(1));
    let s1 = node(1, NodeType::Service, None);
    let s2 = node(2, NodeType::Service, None);
    let g = Graph {
        edges: vec![edge(10, 2, 1)],
        nodes: vec![with_status(&x), with_status(&s1), with_status(&s2)],
    };
    let none = NodeTypeSet::new();
    let map = build_service_map(g, no_active(), &none, &none, None);
    assert_eq!(pairs(&map.graph), vec![(10, 2)]);
}

#[test]
fn transaction_to_service_dropped_with_visible_child() {
    let x = node(10, NodeType::Transaction, Some(1));
    let y = node(11, NodeType::Transaction, Some(2));
    let s1 = node(1, NodeType::Service, None);
    let s2 = node(2, NodeType::Service, None);
    let g = Graph {
        edges: vec![edge(10, 2, 1)],
        nodes: vec![with_status(&x), with_status(&y), with_status(&s1), with_status(&s2)],
    };
    let none = NodeTypeSet::new();
    let map = build_service_map(g, no_active(), &none, &none, None);
    assert!(map.graph.edges.is_empty());
}

#[test]
fn transaction_edges_and_unknown_ends_are_kept() {
    let x = node(10, NodeType::Transaction, Some(1));
    let y = node(11, NodeType::Transaction, Some(2));
    let g = Graph {
        edges: vec![edge(10, 11, 1), edge(10, 99, 2)],
        nodes: vec![with_status(&x), with_status(&y)],
    };
    let none = NodeTypeSet::new();
    let map = build_service_map(g, no_active(), &none, &none, None);
    assert_eq!(pairs(&map.graph), vec![(10, 11), (10, 99)]);
}

fn transaction_graph() -> Graph {
    let t: Vec<Node> = (10..14).map(|i| node(i, NodeType::Transaction, Some(1))).collect();
    Graph {
        edges: vec![edge(10, 11, 10), edge(11, 12, 20), edge(12, 13, 30)],
        nodes: t.iter().map(with_status).collect(),
    }
}

#[test]
fn percentile_prunes_low_volume_edges_and_their_nodes() {
    let none = NodeTypeSet::new();
    let map = build_service_map(transaction_graph(), no_active(), &none, &none, Some(50));
    // volumes 10, 20, 30 normalise to 0%, 50%, 100%
    assert_eq!(pairs(&map.graph), vec![(11, 12), (12, 13)]);
    assert_eq!(ids(&map.graph), vec![11, 12, 13]);
    let map = build_service_map(transaction_graph(), no_active(), &none, &none, Some(51));
    assert_eq!(pairs(&map.graph), vec![(12, 13)]);
    assert_eq!(ids(&map.graph), vec![12, 13]);
}

#[test]
fn percentile_is_clamped() {
    let none = NodeTypeSet::new();
    let high = build_service_map(transaction_graph(), no_active(), &none, &none, Some(250));
    assert_eq!(pairs(&high.graph), vec![(12, 13)]);
    let low = build_service_map(transaction_graph(), no_active(), &none, &none, Some(-5));
    assert_eq!(low.graph.edges.len(), 3);
}

#[test]
fn percentile_zero_keeps_superset_of_hundred() {
    let none = NodeTypeSet::new();
    let zero = build_service_map(transaction_graph(), no_active(), &none, &none, Some(0));
    let hundred = build_service_map(transaction_graph(), no_active(), &none, &none, Some(100));
    let z = pairs(&zero.graph);
    for p in pairs(&hundred.graph) {
        assert!(z.contains(&p));
    }
    assert_eq!(z.len(), 3);
    assert_eq!(pairs(&hundred.graph), vec![(12, 13)]);
}

#[test]
fn equal_volumes_prune_everything() {
    let t: Vec<Node> = (10..13).map(|i| node(i, NodeType::Transaction, Some(1))).collect();
    let g = Graph {
        edges: vec![edge(10, 11, 7), edge(11, 12, 7)],
        nodes: t.iter().map(with_status).collect(),
    };
    let none = NodeTypeSet::new();
    let map = build_service_map(g, no_active(), &none, &none, Some(0));
    assert!(map.graph.edges.is_empty());
    assert!(map.graph.nodes.is_empty());
}

#[test]
fn no_edges_left_skips_pruning() {
    let a = node(1, NodeType::Service, None);
    let b = node(2, NodeType::Service, None);
    let g = Graph { edges: vec![edge(1, 2, 4)], nodes: vec![with_status(&a), with_status(&b)] };
    let none = NodeTypeSet::new();
    let map = build_service_map(g, no_active(), &none, &none, Some(30));
    assert!(map.graph.edges.is_empty());
    assert_eq!(map.graph.nodes.len(), 2);
}

#[test]
fn active_nodes_pass_through() {
    let a = node(1, NodeType::Service, None);
    let active = ActiveNodes { nodes: vec![NodeActivity { node: a.clone(), last_activity: 42 }] };
    let g = Graph { edges: vec![], nodes: vec![with_status(&a)] };
    let none = NodeTypeSet::new();
    let map = build_service_map(g, active, &none, &none, None);
    assert_eq!(map.active_nodes.nodes.len(), 1);
    assert_eq!(map.active_nodes.nodes[0].last_activity, 42);
}
