use pwvucontrol::properties::{MediaType, NodeType, Properties};
use pwvucontrol::state::{Item, LinkInfo, LinkRequest, PipewireMessage, PortDirection, State};

fn props(entries: &[(&str, &str)]) -> Properties {
    Properties { entries: entries.iter().map(|(k, v)| (k.to_string(), v.to_string())).collect() }
}

#[test]
fn new_state_is_empty() {
    let s = State::new();
    assert_eq!(s.get(0), None);
    assert_eq!(s.get_link_id(1, 2), None);
    assert_eq!(s.get_node_of_port(3), None);
}

#[test]
fn item_inserted_is_read_back() {
    let mut s = State::new();
    s.insert(7, Item::Node { media_type: Some(MediaType::Audio) });
    assert_eq!(s.get(7), Some(&Item::Node { media_type: Some(MediaType::Audio) }));
    s.insert(7, Item::Port { node_id: 3 });
    assert_eq!(s.get(7), Some(&Item::Port { node_id: 3 }));
}

#[test]
fn link_is_found_by_its_ports() {
    let mut s = State::new();
    s.insert(40, Item::Link { port_from: 10, port_to: 20 });
    assert_eq!(s.get_link_id(10, 20), Some(40));
    assert_eq!(s.get_link_id(20, 10), None);
    assert_eq!(s.get_link_id(10, 21), None);
    s.insert(41, Item::Link { port_from: u32::MAX, port_to: 0 });
    assert_eq!(s.get_link_id(u32::MAX, 0), Some(41));
    assert_eq!(s.get_link_id(0, u32::MAX), None);
}

#[test]
fn removing_a_link_forgets_its_ports() {
    let mut s = State::new();
    s.insert(40, Item::Link { port_from: 10, port_to: 20 });
    assert_eq!(s.remove(40), Some(Item::Link { port_from: 10, port_to: 20 }));
    assert_eq!(s.get(40), None);
    assert_eq!(s.get_link_id(10, 20), None);
    assert_eq!(s.remove(40), None);
}

#[test]
fn node_of_port_is_the_saved_node() {
    let mut s = State::new();
    s.insert(5, Item::Port { node_id: 2 });
    s.insert(2, Item::Node { media_type: None });
    assert_eq!(s.get_node_of_port(5), Some(2));
    assert_eq!(s.get_node_of_port(2), None);
    assert_eq!(s.get_node_of_port(9), None);
}

#[test]
fn global_remove_tells_which_item_went() {
    let mut s = State::new();
    s.insert(1, Item::Node { media_type: None });
    s.insert(2, Item::Port { node_id: 1 });
    s.insert(3, Item::Link { port_from: 2, port_to: 4 });
    assert_eq!(s.handle_global_remove(2), Some(PipewireMessage::PortRemoved { id: 2, node_id: 1 }));
    assert_eq!(s.handle_global_remove(3), Some(PipewireMessage::LinkRemoved { id: 3 }));
    assert_eq!(s.handle_global_remove(1), Some(PipewireMessage::NodeRemoved { id: 1 }));
    assert_eq!(s.handle_global_remove(1), None);
    assert_eq!(s.get_link_id(2, 4), None);
}

#[test]
fn node_is_announced_under_its_nicest_name() {
    let mut s = State::new();
    let p = props(&[("node.name", "alsa_output"), ("node.nick", "Speakers"), ("media.class", "Audio/Sink")]);
    let m = s.handle_node(8, &p);
    assert_eq!(
        m,
        PipewireMessage::NodeAdded { id: 8, name: "Speakers".to_string(), node_type: Some(NodeType::Sink) }
    );
    assert_eq!(s.get(8), Some(&Item::Node { media_type: Some(MediaType::Audio) }));

    let p = props(&[("node.description", "Mic"), ("media.class", "Video/Source")]);
    let m = s.handle_node(9, &p);
    assert_eq!(m, PipewireMessage::NodeAdded { id: 9, name: "Mic".to_string(), node_type: Some(NodeType::Source) });
    assert_eq!(s.get(9), Some(&Item::Node { media_type: Some(MediaType::Video) }));

    let m = s.handle_node(10, &props(&[]));
    assert_eq!(m, PipewireMessage::NodeAdded { id: 10, name: String::new(), node_type: None });
}

#[test]
fn port_takes_the_media_type_of_its_node() {
    let mut s = State::new();
    s.handle_node(8, &props(&[("media.class", "Midi/Bridge")]));
    let m = s.handle_port(
        11,
        &props(&[("node.id", "8"), ("port.name", "capture_1"), ("port.direction", "in")]),
    );
    assert_eq!(
        m,
        PipewireMessage::PortAdded {
            id: 11,
            node_id: 8,
            name: "capture_1".to_string(),
            direction: PortDirection::Input,
            media_type: Some(MediaType::Midi),
        }
    );
    assert_eq!(s.get_node_of_port(11), Some(8));
    let m = s.handle_port(12, &props(&[("node.id", "99"), ("port.direction", "out")]));
    assert_eq!(
        m,
        PipewireMessage::PortAdded {
            id: 12,
            node_id: 99,
            name: String::new(),
            direction: PortDirection::Output,
            media_type: None,
        }
    );
}

fn link_info(id: u32, state_changed: bool, active: bool) -> LinkInfo {
    LinkInfo { id, node_from: 1, port_from: 2, node_to: 3, port_to: 4, state_changed, active }
}

#[test]
fn first_link_report_adds_the_link_later_ones_report_changes() {
    let mut s = State::new();
    assert_eq!(
        s.handle_link_info(&link_info(30, false, false)),
        Some(PipewireMessage::LinkAdded { id: 30, node_from: 1, port_from: 2, node_to: 3, port_to: 4, active: false })
    );
    assert_eq!(s.get_link_id(2, 4), Some(30));
    assert_eq!(s.handle_link_info(&link_info(30, false, true)), None);
    assert_eq!(
        s.handle_link_info(&link_info(30, true, true)),
        Some(PipewireMessage::LinkStateChanged { id: 30, active: true })
    );
}

#[test]
fn toggling_destroys_a_link_or_creates_one() {
    let mut s = State::new();
    s.insert(2, Item::Port { node_id: 1 });
    s.insert(4, Item::Port { node_id: 3 });
    assert_eq!(s.toggle_link(2, 4), LinkRequest::Create { node_from: 1, port_from: 2, node_to: 3, port_to: 4 });
    s.insert(30, Item::Link { port_from: 2, port_to: 4 });
    assert_eq!(s.toggle_link(2, 4), LinkRequest::Destroy { id: 30 });
}

#[test]
fn remove_undoes_insert_on_concrete_state() {
    let mut s = State::new();
    s.insert(1, Item::Port { node_id: 9 });
    s.insert(2, Item::Link { port_from: 5, port_to: 6 });
    assert_eq!(s.remove(2), Some(Item::Link { port_from: 5, port_to: 6 }));
    assert_eq!(s.get(2), None);
    assert_eq!(s.get_link_id(5, 6), None);
    assert_eq!(s.get(1), Some(&Item::Port { node_id: 9 }));
}
