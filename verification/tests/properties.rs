use pwvucontrol::properties::{
    media_type_of_class_text, node_is_hidden, node_type_of_class_text, MediaType, NodeType, Properties,
};

fn props(entries: &[(&str, &str)]) -> Properties {
    Properties { entries: entries.iter().map(|(k, v)| (k.to_string(), v.to_string())).collect() }
}

#[test]
fn first_entry_of_a_key_counts() {
    let p = props(&[("a", "1"), ("b", "2"), ("a", "3")]);
    assert_eq!(p.get("a"), Some(&"1".to_string()));
    assert_eq!(p.get("b"), Some(&"2".to_string()));
    assert_eq!(p.get("c"), None);
    assert!(p.has("b"));
    assert!(!p.has("c"));
    assert_eq!(p.get_or_empty("c"), "");
    assert_eq!(p.get_or_empty("a"), "1");
}

#[test]
fn display_name_prefers_description_then_nick_then_name() {
    assert_eq!(props(&[("node.name", "n"), ("node.nick", "k"), ("node.description", "d")]).display_name(), "d");
    assert_eq!(props(&[("node.name", "n"), ("node.nick", "k")]).display_name(), "k");
    assert_eq!(props(&[("node.name", "n")]).display_name(), "n");
    assert_eq!(props(&[]).display_name(), "");
}

#[test]
fn node_label_depends_on_node_type() {
    let p = props(&[("node.name", "n"), ("node.nick", "k"), ("node.description", "d")]);
    assert_eq!(p.node_label(NodeType::Sink), "d");
    assert_eq!(p.node_label(NodeType::Output), "k");
    let q = props(&[("node.name", "n"), ("node.description", "d")]);
    assert_eq!(q.node_label(NodeType::Input), "d");
}

#[test]
fn media_name_or_empty() {
    assert_eq!(props(&[("media.name", "song")]).media_name(), "song");
    assert_eq!(props(&[]).media_name(), "");
}

#[test]
fn media_type_follows_class() {
    assert_eq!(media_type_of_class_text("Audio/Sink"), Some(MediaType::Audio));
    assert_eq!(media_type_of_class_text("Video/Source"), Some(MediaType::Video));
    assert_eq!(media_type_of_class_text("Midi/Bridge"), Some(MediaType::Midi));
    assert_eq!(media_type_of_class_text("Stream/Output"), None);
    assert_eq!(props(&[("media.class", "Stream/Output/Audio")]).media_type(), Some(MediaType::Audio));
    assert_eq!(props(&[]).media_type(), None);
}

#[test]
fn node_type_follows_class() {
    assert_eq!(node_type_of_class_text("Audio/Sink"), Some(NodeType::Sink));
    assert_eq!(node_type_of_class_text("Stream/Output/Audio"), Some(NodeType::Output));
    assert_eq!(node_type_of_class_text("Stream/Input/Audio"), Some(NodeType::Input));
    assert_eq!(node_type_of_class_text("Audio/Source"), Some(NodeType::Source));
    assert_eq!(node_type_of_class_text("Audio/Duplex"), None);
    let duplex = props(&[("media.category", "Duplex"), ("media.class", "Audio/Sink")]);
    assert_eq!(duplex.node_type(), Some(NodeType::Sink));
    let plain = props(&[("media.category", "Playback"), ("media.class", "Stream/Output/Audio")]);
    assert_eq!(plain.node_type(), Some(NodeType::Output));
    assert_eq!(props(&[]).node_type(), None);
}

#[test]
fn exact_node_type_of_streams_and_sinks() {
    assert_eq!(props(&[("media.class", "Stream/Output/Audio")]).node_type_exact(), NodeType::Output);
    assert_eq!(props(&[("media.class", "Stream/Input/Audio")]).node_type_exact(), NodeType::Input);
    assert_eq!(props(&[("media.class", "Audio/Sink")]).node_type_exact(), NodeType::Sink);
    assert_eq!(props(&[("media.class", "Audio/Source")]).node_type_exact(), NodeType::Undefined);
    assert_eq!(props(&[]).node_type_exact(), NodeType::Undefined);
}

#[test]
fn hidden_nodes() {
    assert!(node_is_hidden("pavucontrol", &props(&[])));
    assert!(node_is_hidden("PulseAudio Volume Control", &props(&[])));
    assert!(node_is_hidden("x", &props(&[("event.id", "bell")])));
    assert!(node_is_hidden("x", &props(&[("media.role", "Notification")])));
    assert!(node_is_hidden("x", &props(&[("stream.monitor", "true")])));
    assert!(!node_is_hidden("x", &props(&[("media.role", "Music")])));
    assert!(!node_is_hidden("", &props(&[])));
}
