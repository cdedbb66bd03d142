use pwvucontrol::lists::{position_of, NodeEntry, PwNodeFilterModel, PwNodeModel};
use pwvucontrol::properties::NodeType;

#[test]
fn position_of_finds_the_first_match() {
    assert_eq!(position_of(&vec![4, 7, 7, 1], 7), Some(1));
    assert_eq!(position_of(&vec![4, 7, 7, 1], 4), Some(0));
    assert_eq!(position_of(&vec![4, 7, 7, 1], 9), None);
    assert_eq!(position_of(&vec![], 0), None);
}

#[test]
fn node_model_keeps_nodes_in_order() {
    let mut m = PwNodeModel::new();
    assert_eq!(m.n_items(), 0);
    assert_eq!(m.append(10), 0);
    assert_eq!(m.append(20), 1);
    assert_eq!(m.append(30), 2);
    assert_eq!(m.n_items(), 3);
    assert_eq!(m.item(0), Some(10));
    assert_eq!(m.item(2), Some(30));
    assert_eq!(m.item(3), None);
    assert_eq!(m.get_node(20), Ok(20));
    assert_eq!(m.get_node(25), Err(()));
}

#[test]
fn node_model_remove_shifts_later_nodes() {
    let mut m = PwNodeModel::new();
    m.append(10);
    m.append(20);
    m.append(30);
    assert_eq!(m.remove(20), Some(1));
    assert_eq!(m.n_items(), 2);
    assert_eq!(m.item(1), Some(30));
    assert_eq!(m.remove(20), None);
    assert_eq!(m.get_node(20), Err(()));
}

#[test]
fn removing_a_node_just_added_restores_the_model() {
    let mut m = PwNodeModel::new();
    m.append(1);
    m.append(2);
    let at = m.append(3);
    assert_eq!(m.get_node(3), Ok(3));
    assert_eq!(m.remove(3), Some(at));
    assert_eq!(m.n_items(), 2);
    assert_eq!(m.item(0), Some(1));
    assert_eq!(m.item(1), Some(2));
}

fn entry(bound_id: u32, node_type: NodeType, hidden: bool) -> NodeEntry {
    NodeEntry { bound_id, node_type, hidden }
}

fn sample_nodes() -> Vec<NodeEntry> {
    vec![
        entry(30, NodeType::Sink, false),
        entry(31, NodeType::Output, false),
        entry(32, NodeType::Sink, true),
        entry(33, NodeType::Sink, false),
        entry(34, NodeType::Source, false),
    ]
}

#[test]
fn node_filter_shows_visible_nodes_of_its_type() {
    let nodes = sample_nodes();
    let m = PwNodeFilterModel::new(NodeType::Sink);
    assert_eq!(m.nodetype(), NodeType::Sink);
    assert_eq!(m.shown_ids(&nodes), vec![30, 33]);
    assert_eq!(m.n_items(&nodes), 2);
    assert_eq!(m.item(&nodes, 1), Some(33));
    assert_eq!(m.item(&nodes, 2), None);
    assert_eq!(m.get_node_pos_from_id(&nodes, 33), Some(1));
    assert_eq!(m.get_node_pos_from_id(&nodes, 32), None);
    assert_eq!(m.get_node_pos_from_id(&nodes, 31), None);
}

#[test]
fn undefined_node_filter_shows_every_visible_node() {
    let nodes = sample_nodes();
    let mut m = PwNodeFilterModel::new(NodeType::Output);
    assert_eq!(m.shown_ids(&nodes), vec![31]);
    m.set_nodetype(NodeType::Undefined);
    assert_eq!(m.shown_ids(&nodes), vec![30, 31, 33, 34]);
    assert!(m.shows(&entry(1, NodeType::Input, false)));
    assert!(!m.shows(&entry(1, NodeType::Input, true)));
    assert_eq!(m.get_node_pos_from_id(&nodes, 34), Some(3));
}
