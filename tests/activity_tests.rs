use servicegraph::activity::{find_active_nodes, ActivityRow, NodeObservation};
use servicegraph::payloads::{Node, NodeType, NodeTypeSet, Window};

fn observed(id: u128, node_type: NodeType, name: &str, ts: i64) -> NodeObservation {
    NodeObservation {
        node: Node { node_id: id, node_type, name: name.to_string(), description: None, parent_id: None },
        ts,
    }
}

fn act(id: u128, ts: i64) -> ActivityRow {
    ActivityRow { node_id: id, ts }
}

#[test]
fn last_activity_is_latest_in_window() {
    let w = Window { start: 100, end: 200 };
    let activity = vec![act(1, 120), act(2, 150), act(1, 180), act(1, 250), act(2, 90)];
    let obs = vec![observed(1, NodeType::Service, "a", 0), observed(2, NodeType::Service, "b", 0)];
    let r = find_active_nodes(&w, &activity, &obs, &NodeTypeSet::new());
    let mut got: Vec<(u128, i64)> = r.nodes.iter().map(|n| (n.node.node_id, n.last_activity)).collect();
    got.sort();
    assert_eq!(got, vec![(1, 180), (2, 150)]);
}

#[test]
fn inactive_and_unknown_nodes_are_not_listed() {
    let w = Window { start: 100, end: 200 };
    let activity = vec![act(1, 50), act(3, 150)];
    let obs = vec![observed(1, NodeType::Service, "a", 0)];
    let r = find_active_nodes(&w, &activity, &obs, &NodeTypeSet::new());
    assert!(r.nodes.is_empty());
}

#[test]
fn latest_observation_gives_metadata() {
    let w = Window { start: 0, end: 10 };
    let activity = vec![act(1, 5)];
    let obs = vec![
        observed(1, NodeType::Service, "first", 10),
        observed(1, NodeType::Service, "latest", 30),
        observed(1, NodeType::Service, "stale", 20),
    ];
    let r = find_active_nodes(&w, &activity, &obs, &NodeTypeSet::new());
    assert_eq!(r.nodes.len(), 1);
    assert_eq!(r.nodes[0].node.name, "latest");
}

#[test]
fn equally_late_observations_take_the_last() {
    let w = Window { start: 0, end: 10 };
    let obs = vec![observed(1, NodeType::Service, "one", 30), observed(1, NodeType::Service, "two", 30)];
    let r = find_active_nodes(&w, &vec![act(1, 1)], &obs, &NodeTypeSet::new());
    assert_eq!(r.nodes[0].node.name, "two");
}

#[test]
fn type_filter_applies_to_current_type() {
    let w = Window { start: 0, end: 10 };
    let activity = vec![act(1, 1), act(2, 2)];
    let obs = vec![observed(1, NodeType::Service, "s", 0), observed(2, NodeType::Transaction, "t", 0)];
    let mut only_tx = NodeTypeSet::new();
    only_tx.insert(NodeType::Transaction);
    let r = find_active_nodes(&w, &activity, &obs, &only_tx);
    assert_eq!(r.nodes.len(), 1);
    assert_eq!(r.nodes[0].node.node_id, 2);
}
