use servicegraph::error::{ApiError, ErrorKind};
use servicegraph::filters::{and_if_filter, get_edge_post_filter, get_node_filter};
use servicegraph::health::health;
use servicegraph::ingest::{edge_rows, node_rows, stamped_node_rows};
use servicegraph::params::{
    default_date_range, resolve_date_range, CommonQueryParams, GraphQueryParams, NodeQueryParams,
    ServiceMapQueryParams,
};
use servicegraph::payloads::{Edge, EdgeStatus, EdgeStatusSet, Node, NodeType, NodeTypeSet, Window};
use servicegraph::registry::{known_or_fresh, register_host};

fn type_set(service: bool, transaction: bool) -> NodeTypeSet {
    NodeTypeSet { service, transaction }
}

#[test]
fn status_codes() {
    assert_eq!(EdgeStatus::Success.as_u8(), 1);
    assert_eq!(EdgeStatus::ExpectedError.as_u8(), 2);
    assert_eq!(EdgeStatus::UnexpectedError.as_u8(), 3);
    assert_eq!(EdgeStatus::from_u8(1), EdgeStatus::Success);
    assert_eq!(EdgeStatus::from_u8(2), EdgeStatus::ExpectedError);
    assert_eq!(EdgeStatus::from_u8(3), EdgeStatus::UnexpectedError);
    assert_eq!(EdgeStatus::from_u8(0), EdgeStatus::UnexpectedError);
    assert_eq!(EdgeStatus::from_u8(200), EdgeStatus::UnexpectedError);
}

#[test]
fn type_codes() {
    assert_eq!(NodeType::Service.as_u8(), 1);
    assert_eq!(NodeType::Transaction.as_u8(), 2);
    assert_eq!(NodeType::from_u8(2), NodeType::Transaction);
    assert_eq!(NodeType::from_u8(1), NodeType::Service);
    assert_eq!(NodeType::from_u8(7), NodeType::Service);
}

#[test]
fn type_set_operations() {
    let mut s = NodeTypeSet::new();
    assert!(s.is_empty());
    assert_eq!(s.len(), 0);
    assert!(s.admits(NodeType::Service) && s.admits(NodeType::Transaction));
    s.insert(NodeType::Transaction);
    assert!(!s.is_empty());
    assert_eq!(s.len(), 1);
    assert!(s.contains(NodeType::Transaction));
    assert!(!s.admits(NodeType::Service));
    s.insert(NodeType::Service);
    assert_eq!(s.len(), 2);
    assert!(s.admits(NodeType::Service));
}

#[test]
fn status_set_operations() {
    let mut s = EdgeStatusSet::new();
    assert!(s.is_empty());
    s.insert(EdgeStatus::ExpectedError);
    assert!(s.contains(EdgeStatus::ExpectedError));
    assert!(!s.contains(EdgeStatus::Success));
    assert!(!s.is_empty());
}

#[test]
fn node_filter_text() {
    assert_eq!(get_node_filter(&type_set(false, false), "nodes.node_type"), "");
    assert_eq!(get_node_filter(&type_set(true, false), "from_node.node_type"), "(from_node.node_type = 1)");
    assert_eq!(get_node_filter(&type_set(false, true), "to_node.node_type"), "(to_node.node_type = 2)");
    assert_eq!(get_node_filter(&type_set(true, true), "t"), "(t = 1 OR t = 2)");
}

#[test]
fn edge_post_filter_text() {
    assert_eq!(get_edge_post_filter(&EdgeStatusSet::new()), "");
    let mut s = EdgeStatusSet::new();
    s.insert(EdgeStatus::UnexpectedError);
    assert_eq!(get_edge_post_filter(&s), "(t.status_unexpected_error > 0)");
    s.insert(EdgeStatus::Success);
    assert_eq!(get_edge_post_filter(&s), "(t.status_ok > 0 AND t.status_unexpected_error > 0)");
    s.insert(EdgeStatus::ExpectedError);
    assert_eq!(
        get_edge_post_filter(&s),
        "(t.status_ok > 0 AND t.status_expected_error > 0 AND t.status_unexpected_error > 0)"
    );
}

#[test]
fn connective_before_filter() {
    assert_eq!(and_if_filter(&String::new()), "");
    assert_eq!(and_if_filter(&"(x = 1)".to_string()), "AND ");
}

#[test]
fn window_defaults() {
    let given = CommonQueryParams { project_id: 0, start_date: Some(10), end_date: Some(20) };
    assert_eq!(resolve_date_range(&given, 5000), Window { start: 10, end: 20 });
    let open = CommonQueryParams { project_id: 0, start_date: None, end_date: None };
    assert_eq!(resolve_date_range(&open, 5000), Window { start: 1400, end: 5000 });
    let half = CommonQueryParams { project_id: 3, start_date: None, end_date: Some(7) };
    assert_eq!(resolve_date_range(&half, 5000), Window { start: 1400, end: 7 });
    assert_eq!(resolve_date_range(&open, i64::MIN + 5), Window { start: i64::MIN, end: i64::MIN + 5 });
}

#[test]
fn default_window_is_the_last_hour() {
    let open = CommonQueryParams { project_id: 1, start_date: None, end_date: None };
    let w = default_date_range(&open);
    assert_eq!(w.end - w.start, 3600);
    assert!(w.end > 1_600_000_000);
    let given = CommonQueryParams { project_id: 1, start_date: Some(1), end_date: Some(2) };
    assert_eq!(default_date_range(&given), Window { start: 1, end: 2 });
}

fn service_map_params(from: NodeTypeSet, to: NodeTypeSet) -> ServiceMapQueryParams {
    ServiceMapQueryParams {
        graph: GraphQueryParams {
            common: CommonQueryParams { project_id: 9, start_date: Some(1), end_date: None },
            from_types: from,
            to_types: to,
            edge_statuses: EdgeStatusSet::new(),
        },
        traffic_volume: Some(40),
    }
}

#[test]
fn service_map_params_convert() {
    let p = service_map_params(type_set(true, false), type_set(false, true));
    let g: GraphQueryParams = p.into();
    assert_eq!(g, p.graph);
    let n: NodeQueryParams = p.into();
    assert_eq!(n.common, p.graph.common);
    assert_eq!(n.types, type_set(true, true));
    let n: NodeQueryParams = service_map_params(type_set(true, false), type_set(false, false)).into();
    assert!(n.types.is_empty());
    let n: NodeQueryParams = service_map_params(type_set(true, false), type_set(true, false)).into();
    assert_eq!(n.types, type_set(true, false));
}

#[test]
fn ingestion_rows_carry_project_and_codes() {
    let nodes = vec![Node {
        node_id: 5,
        node_type: NodeType::Transaction,
        name: "checkout".to_string(),
        description: Some("d".to_string()),
        parent_id: Some(4),
    }];
    let rows = node_rows(0, &nodes, 77);
    assert_eq!(rows.len(), 1);
    assert_eq!((rows[0].project_id, rows[0].node_id, rows[0].node_type, rows[0].ts), (0, 5, 2, 77));
    assert_eq!(rows[0].name, "checkout");
    assert_eq!(rows[0].parent_id, Some(4));
    let stamped = stamped_node_rows(8, &nodes);
    assert_eq!(stamped[0].project_id, 8);
    assert!(stamped[0].ts > 1_600_000_000);
    let edges = vec![Edge { ts: 60, from_node_id: 5, to_node_id: 4, status: EdgeStatus::UnexpectedError, n: 19, description: None }];
    let e = edge_rows(2, &edges);
    assert_eq!((e[0].project_id, e[0].ts, e[0].from_node_id, e[0].to_node_id, e[0].status, e[0].n), (2, 60, 5, 4, 3, 19));
    assert!(node_rows(1, &vec![], 0).is_empty());
    assert!(edge_rows(1, &vec![]).is_empty());
}

#[test]
fn host_keeps_well_formed_id() {
    let id = register_host(1, &Some("936DA01F-9ABD-4D9D-80C7-02AF85C822A8".to_string()), &"svc".to_string());
    assert_eq!(id, 0x936DA01F9ABD4D9D80C702AF85C822A8);
    let simple = register_host(1, &Some("936da01f9abd4d9d80c702af85c822a8".to_string()), &"svc".to_string());
    assert_eq!(simple, 0x936DA01F9ABD4D9D80C702AF85C822A8);
}

#[test]
fn host_gets_fresh_id_otherwise() {
    for existing in [None, Some("not-a-uuid".to_string())] {
        let id = register_host(1, &existing, &"svc".to_string());
        assert_eq!((id >> 76) & 0xf, 4);
        assert_eq!((id >> 62) & 0x3, 2);
    }
    assert_eq!(known_or_fresh(Some(12345)), 12345);
    let fresh = known_or_fresh(None);
    assert_eq!((fresh >> 76) & 0xf, 4);
}

#[test]
fn error_body() {
    let e = ApiError::new(ErrorKind::Store, "connection refused".to_string());
    assert_eq!(e.response_body(), "error: connection refused");
    let o = ApiError::counter_overflow();
    assert_eq!(o.kind, ErrorKind::CounterOverflow);
    assert!(o.response_body().starts_with("error: "));
}

#[test]
fn health_is_ok() {
    assert_eq!(health(), "OK");
}
