use pwvucontrol::metadata::{default_node_change, node_name_from_json, DefaultNodeChange, DefaultNodeKind};

#[test]
fn node_name_is_read_from_json() {
    assert_eq!(node_name_from_json("{\"name\":\"alsa_output.pci\"}"), Some("alsa_output.pci".to_string()));
    assert_eq!(node_name_from_json("{\"name\":\"\"}"), Some(String::new()));
    assert_eq!(node_name_from_json("{\"name\":\"unterminated"), Some("unterminated".to_string()));
    assert_eq!(node_name_from_json("{\"other\":\"x\"}"), None);
    assert_eq!(node_name_from_json(""), None);
}

#[test]
fn node_name_stops_at_a_second_opening() {
    assert_eq!(node_name_from_json("{\"name\":\"a{\"name\":\"b\"}"), Some("a".to_string()));
}

#[test]
fn default_changes_of_sinks_and_sources() {
    let v = Some("{\"name\":\"speakers\"}");
    assert_eq!(
        default_node_change(Some("default.audio.sink"), Some("Spa:String:JSON"), v),
        Some(DefaultNodeChange { kind: DefaultNodeKind::Sink, name: "speakers".to_string() })
    );
    assert_eq!(
        default_node_change(Some("default.audio.source"), Some("Spa:String:JSON"), v),
        Some(DefaultNodeChange { kind: DefaultNodeKind::Source, name: "speakers".to_string() })
    );
}

#[test]
fn other_metadata_changes_tell_nothing() {
    let v = Some("{\"name\":\"speakers\"}");
    assert_eq!(default_node_change(Some("default.configured.audio.sink"), Some("Spa:String:JSON"), v), None);
    assert_eq!(default_node_change(Some("default.audio.sink"), Some("Spa:String"), v), None);
    assert_eq!(default_node_change(Some("default.audio.sink"), Some("Spa:String:JSON"), Some("{}")), None);
    assert_eq!(default_node_change(None, Some("Spa:String:JSON"), v), None);
    assert_eq!(default_node_change(Some("default.audio.sink"), None, v), None);
    assert_eq!(default_node_change(Some("default.audio.sink"), Some("Spa:String:JSON"), None), None);
}
