use ep_rs::airflow::{node_to_equation, num_internal_nodes, NodeType};

fn two_zone_nodes() -> Vec<NodeType> {
    // Outdoor, Zone1, Zone2
    vec![NodeType::External, NodeType::Internal, NodeType::Internal]
}

#[test]
fn network_structure() {
    let nodes = two_zone_nodes();
    assert_eq!(nodes.len(), 3);
    assert_eq!(num_internal_nodes(&nodes), 2);
}

#[test]
fn internal_node_indices() {
    let nodes = two_zone_nodes();
    let internal = ep_rs::airflow::internal_node_indices(&nodes);
    assert_eq!(internal.len(), 2);
    assert_eq!(internal[0], 1); // Zone1
    assert_eq!(internal[1], 2); // Zone2
}

#[test]
fn no_internal_nodes() {
    let nodes = vec![NodeType::External, NodeType::External];
    assert_eq!(num_internal_nodes(&nodes), 0);
    assert!(ep_rs::airflow::internal_node_indices(&nodes).is_empty());
    assert_eq!(node_to_equation(2, &[]), vec![None, None]);
}

#[test]
fn equations_follow_internal_nodes() {
    let nodes = vec![
        NodeType::Internal,
        NodeType::External,
        NodeType::Internal,
        NodeType::External,
        NodeType::Internal,
    ];
    let internal = ep_rs::airflow::internal_node_indices(&nodes);
    assert_eq!(internal, vec![0, 2, 4]);
    let map = node_to_equation(nodes.len(), &internal);
    assert_eq!(map, vec![Some(0), None, Some(1), None, Some(2)]);
}
