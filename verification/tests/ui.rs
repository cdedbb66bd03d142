use pwvucontrol::properties::NodeType;
use pwvucontrol::routes::ParamAvailability;
use pwvucontrol::ui::{
    channel_volume_changed, default_entry_label, default_node_class, default_toggle_active, default_toggle_node_name,
    info_banner, output_selection, route_control_should_be_visible, route_index_for_node, scale_range,
    shows_unavailable_icon, tab_page, view_child_name, with_default_item, with_default_n_items, DefaultListEntry,
    InfoBanner, InfoMessage, PwvucontrolWindowView, ScaleRange,
};

#[test]
fn visibility_follows_route_model_contents() {
    let mut routes: Vec<()> = Vec::new();

    assert!(!route_control_should_be_visible(None));
    assert!(!route_control_should_be_visible(Some(routes.len() as u32)));

    routes.push(());
    assert!(route_control_should_be_visible(Some(routes.len() as u32)));

    routes.remove(0);
    assert!(!route_control_should_be_visible(Some(routes.len() as u32)));
}

#[test]
fn view_pages_have_names() {
    assert_eq!(view_child_name(PwvucontrolWindowView::Connected), "connected");
    assert_eq!(view_child_name(PwvucontrolWindowView::Disconnected), "disconnected");
}

#[test]
fn tab_numbers_open_pages() {
    assert_eq!(tab_page(1), Some("playback"));
    assert_eq!(tab_page(2), Some("recording"));
    assert_eq!(tab_page(3), Some("inputdevices"));
    assert_eq!(tab_page(4), Some("outputdevices"));
    assert_eq!(tab_page(5), Some("cards"));
    assert_eq!(tab_page(0), None);
    assert_eq!(tab_page(6), None);
    assert_eq!(tab_page(-1), None);
}

#[test]
fn banner_shows_without_nodes() {
    assert_eq!(info_banner(0, 0), InfoBanner { message: InfoMessage::NoSoundCards, revealed: true });
    assert_eq!(info_banner(2, 0), InfoBanner { message: InfoMessage::NoSoundDevices, revealed: true });
    assert_eq!(info_banner(2, 3), InfoBanner { message: InfoMessage::NoSoundDevices, revealed: false });
    assert_eq!(info_banner(0, 3), InfoBanner { message: InfoMessage::NoSoundCards, revealed: false });
}

#[test]
fn slider_range_amplified_only_when_both_set() {
    assert_eq!(scale_range(true, true), ScaleRange::Amplified);
    assert_eq!(scale_range(true, false), ScaleRange::Full);
    assert_eq!(scale_range(false, true), ScaleRange::Full);
    assert_eq!(scale_range(false, false), ScaleRange::Full);
}

#[test]
fn route_selected_for_sources_and_sinks() {
    assert_eq!(route_index_for_node(NodeType::Source, Some((2, 5))), Some(2));
    assert_eq!(route_index_for_node(NodeType::Sink, Some((2, 5))), Some(5));
    assert_eq!(route_index_for_node(NodeType::Output, Some((2, 5))), None);
    assert_eq!(route_index_for_node(NodeType::Sink, None), None);
}

#[test]
fn unavailable_icon_only_for_unavailable() {
    assert!(shows_unavailable_icon(ParamAvailability::No));
    assert!(!shows_unavailable_icon(ParamAvailability::Yes));
    assert!(!shows_unavailable_icon(ParamAvailability::Unknown));
}

#[test]
fn default_classes_of_sinks_and_sources() {
    assert_eq!(default_node_class(NodeType::Sink, false), "Audio/Sink");
    assert_eq!(default_node_class(NodeType::Sink, true), "Audio/Sink");
    assert_eq!(default_node_class(NodeType::Source, true), "Audio/Source/Virtual");
    assert_eq!(default_node_class(NodeType::Source, false), "Audio/Source");
}

#[test]
fn default_toggle_configures_a_name() {
    assert_eq!(default_toggle_node_name(true, Some("alsa_output")), "alsa_output");
    assert_eq!(default_toggle_node_name(true, None), "");
    assert_eq!(default_toggle_node_name(false, Some("alsa_output")), "");
    assert!(default_toggle_active(4, 4));
    assert!(!default_toggle_active(4, 5));
}

#[test]
fn default_entry_label_names_the_device() {
    assert_eq!(default_entry_label(Some("Speakers")), "Default (Speakers)");
    assert_eq!(default_entry_label(None), "Default");
}

#[test]
fn output_selection_follows_target() {
    assert_eq!(output_selection(None), Some(0));
    assert_eq!(output_selection(Some(None)), None);
    assert_eq!(output_selection(Some(Some(0))), Some(1));
    assert_eq!(output_selection(Some(Some(4))), Some(5));
}

#[test]
fn list_with_default_entry_first() {
    assert_eq!(with_default_n_items(None), 1);
    assert_eq!(with_default_n_items(Some(3)), 4);
    assert_eq!(with_default_item(0, None), Some(DefaultListEntry::Default));
    assert_eq!(with_default_item(1, None), None);
    assert_eq!(with_default_item(1, Some(3)), Some(DefaultListEntry::Item(0)));
    assert_eq!(with_default_item(3, Some(3)), Some(DefaultListEntry::Item(2)));
    assert_eq!(with_default_item(4, Some(3)), None);
}

#[test]
fn channel_slider_moves_one_or_all_channels() {
    let mut v = vec![0.1f32, 0.2, 0.3];
    channel_volume_changed(&mut v, 1, 0.9, false);
    assert_eq!(v, vec![0.1, 0.9, 0.3]);
    channel_volume_changed(&mut v, 7, 0.5, false);
    assert_eq!(v, vec![0.1, 0.9, 0.3]);
    channel_volume_changed(&mut v, 0, 0.4, true);
    assert_eq!(v, vec![0.4, 0.4, 0.4]);
}
