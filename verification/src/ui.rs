//! The decisions the user interface takes: which page and banner to show,
//! which route and output entry to select, what the default-device toggle
//! asks for, and how channel volumes follow a slider.
use vstd::prelude::*;
use crate::properties::NodeType;
use crate::routes::ParamAvailability;

verus! {

/// Whether the window shows its content or the reconnect page.
#[derive(Clone, Copy, Debug, PartialEq, Eq, Structural)]
pub enum PwvucontrolWindowView {
    Connected,
    Disconnected,
}

/// The message of the banner shown when there are no nodes.
#[derive(Clone, Copy, Debug, PartialEq, Eq, Structural)]
pub enum InfoMessage {
    /// No sound cards were found: PipeWire's configuration is to be checked.
    NoSoundCards,
    /// Cards exist but no devices: their profiles are to be checked.
    NoSoundDevices,
}

/// The banner of the window: its message, and whether it is shown.
#[derive(Clone, Copy, Debug, PartialEq, Eq, Structural)]
pub struct InfoBanner {
    pub message: InfoMessage,
    pub revealed: bool,
}

/// The range of a volume slider: up to full volume, or up to 150% when
/// over-amplification is both offered and switched on.
#[derive(Clone, Copy, Debug, PartialEq, Eq, Structural)]
pub enum ScaleRange {
    Full,
    Amplified,
}

/// An entry of a list that starts with a "Default" entry before the items of
/// a model.
#[derive(Clone, Copy, Debug, PartialEq, Eq, Structural)]
pub enum DefaultListEntry {
    Default,
    /// The item of the model at this position.
    Item(u32),
}

/// The name of the page of the window's view stack for a view.
pub fn view_child_name(view: PwvucontrolWindowView) -> (r: &'static str)
    ensures
        view == PwvucontrolWindowView::Connected ==> r@ == "connected"@,
        view == PwvucontrolWindowView::Disconnected ==> r@ == "disconnected"@,
{
    match view {
        PwvucontrolWindowView::Connected => "connected",
        PwvucontrolWindowView::Disconnected => "disconnected",
    }
}

/// The page that a tab number given on the command line opens.
pub open spec fn tab_page_text(tab: i32) -> Option<Seq<char>> {
    if tab == 1 {
        Some("playback"@)
    } else if tab == 2 {
        Some("recording"@)
    } else if tab == 3 {
        Some("inputdevices"@)
    } else if tab == 4 {
        Some("outputdevices"@)
    } else if tab == 5 {
        Some("cards"@)
    } else {
        None
    }
}

/// Law: tabs one to five open the playback, recording, input devices,
/// output devices and cards pages; any other number opens none.
pub proof fn lemma_tab_pages(tab: i32)
    ensures
        tab_page_text(1) == Some("playback"@),
        tab_page_text(2) == Some("recording"@),
        tab_page_text(3) == Some("inputdevices"@),
        tab_page_text(4) == Some("outputdevices"@),
        tab_page_text(5) == Some("cards"@),
        (tab < 1 || tab > 5) ==> tab_page_text(tab) is None,
{
}

/// The page that a tab number opens, if it names one.
pub fn tab_page(tab: i32) -> (r: Option<&'static str>)
    ensures
        match tab_page_text(tab) {
            Some(t) => r matches Some(s) && s@ == t,
            None => r is None,
        },
{
    match tab {
        1 => Some("playback"),
        2 => Some("recording"),
        3 => Some("inputdevices"),
        4 => Some("outputdevices"),
        5 => Some("cards"),
        _ => None,
    }
}

/// The banner for these numbers of devices and nodes: it is shown when there
/// is no node, and blames the cards when there is no device either.
pub fn info_banner(n_devices: u32, n_nodes: u32) -> (r: InfoBanner)
    ensures
        r.message == (if n_devices == 0 {
            InfoMessage::NoSoundCards
        } else {
            InfoMessage::NoSoundDevices
        }),
        r.revealed == (n_nodes == 0),
{
    let message = if n_devices == 0 {
        InfoMessage::NoSoundCards
    } else {
        InfoMessage::NoSoundDevices
    };
    InfoBanner { message, revealed: n_nodes == 0 }
}

/// The range of a volume slider.
pub fn scale_range(use_overamplification: bool, overamplification: bool) -> (r: ScaleRange)
    ensures
        r == (if use_overamplification && overamplification {
            ScaleRange::Amplified
        } else {
            ScaleRange::Full
        }),
{
    if use_overamplification && overamplification {
        ScaleRange::Amplified
    } else {
        ScaleRange::Full
    }
}

/// The route control is shown when there is a route model and it has items.
pub fn route_control_should_be_visible(model_items: Option<u32>) -> (r: bool)
    ensures
        r == (model_items matches Some(n) && n > 0),
{
    match model_items {
        Some(n) => n > 0,
        None => false,
    }
}

/// The route position to select for a node: a source selects its device's
/// input route, a sink its output route; other nodes, and nodes without a
/// device, select none. `device_routes` holds the device's (input, output)
/// route positions.
pub fn route_index_for_node(node_type: NodeType, device_routes: Option<(u32, u32)>) -> (r: Option<u32>)
    ensures
        r == match device_routes {
            Some((input, output)) => if node_type == NodeType::Source {
                Some(input)
            } else if node_type == NodeType::Sink {
                Some(output)
            } else {
                None
            },
            None => None,
        },
{
    match device_routes {
        Some((input, output)) => match node_type {
            NodeType::Source => Some(input),
            NodeType::Sink => Some(output),
            _ => None,
        },
        None => None,
    }
}

/// Whether the row of a profile or route shows the "unavailable" icon.
pub fn shows_unavailable_icon(availability: ParamAvailability) -> (r: bool)
    ensures
        r == (availability == ParamAvailability::No),
{
    availability == ParamAvailability::No
}

/// The media class under which a node becomes the default device: a sink is
/// the default audio sink; a source the default source, virtual or not. Only
/// sinks and sources have a default-device toggle.
pub fn default_node_class(node_type: NodeType, is_virtual: bool) -> (r: &'static str)
    requires
        node_type == NodeType::Sink || node_type == NodeType::Source,
    ensures
        node_type == NodeType::Sink ==> r@ == "Audio/Sink"@,
        node_type == NodeType::Source && is_virtual ==> r@ == "Audio/Source/Virtual"@,
        node_type == NodeType::Source && !is_virtual ==> r@ == "Audio/Source"@,
{
    match node_type {
        NodeType::Sink => "Audio/Sink",
        _ => if is_virtual {
            "Audio/Source/Virtual"
        } else {
            "Audio/Source"
        },
    }
}

/// The node name that the default-device toggle configures: the node's own
/// name (empty when it has none) when switched on, the empty name (no
/// configured default) when switched off.
pub fn default_toggle_node_name(active: bool, node_name: Option<&str>) -> (r: String)
    ensures
        r@ == if active {
            match node_name {
                Some(n) => n@,
                None => Seq::empty(),
            }
        } else {
            Seq::empty()
        },
{
    if active {
        match node_name {
            Some(n) => String::from_str(n),
            None => String::new(),
        }
    } else {
        String::new()
    }
}

/// The default-device toggle of a node is on when the node is the default.
pub fn default_toggle_active(bound_id: u32, default_id: u32) -> (r: bool)
    ensures
        r == (bound_id == default_id),
{
    bound_id == default_id
}

/// The label of the "Default" entry of an output list: with the name of the
/// default device when it is known.
pub fn default_entry_label(default_name: Option<&str>) -> (r: String)
    ensures
        r@ == match default_name {
            Some(n) => "Default ("@ + n@ + ")"@,
            None => "Default"@,
        },
{
    match default_name {
        Some(n) => {
            let mut s = String::from_str("Default (");
            s.append(n);
            s.append(")");
            s
        },
        None => String::from_str("Default"),
    }
}

/// The entry an output list selects for a stream. `target` is `None` when
/// the stream has no chosen target, and otherwise the target's position
/// among the devices, if it is listed. The "Default" entry goes first, so a
/// device's entry follows its position by one; a listed target needs an
/// entry after it. `None` leaves the selection as it is.
pub fn output_selection(target: Option<Option<u32>>) -> (r: Option<u32>)
    requires
        target matches Some(Some(p)) ==> p < u32::MAX,
    ensures
        r == match target {
            Some(Some(p)) => Some((p + 1) as u32),
            Some(None) => None,
            None => Some(0u32),
        },
{
    match target {
        Some(Some(p)) => Some(p + 1),
        Some(None) => None,
        None => Some(0),
    }
}

/// The number of entries of a list with a "Default" entry before the items
/// of a model, when there is one. A list model counts its items in `u32`.
pub fn with_default_n_items(model_items: Option<u32>) -> (r: u32)
    requires
        model_items matches Some(n) ==> n < u32::MAX,
    ensures
        r == match model_items {
            Some(n) => n + 1,
            None => 1,
        },
{
    match model_items {
        Some(n) => n + 1,
        None => 1,
    }
}

/// The entry at a position of a list with a "Default" entry first.
pub fn with_default_item(position: u32, model_items: Option<u32>) -> (r: Option<DefaultListEntry>)
    ensures
        position == 0 ==> r == Some(DefaultListEntry::Default),
        position > 0 ==> r == match model_items {
            Some(n) => if position - 1 < n {
                Some(DefaultListEntry::Item((position - 1) as u32))
            } else {
                None
            },
            None => None,
        },
{
    if position == 0 {
        Some(DefaultListEntry::Default)
    } else {
        match model_items {
            Some(n) => if position - 1 < n {
                Some(DefaultListEntry::Item(position - 1))
            } else {
                None
            },
            None => None,
        }
    }
}

/// A channel slider moved: with the channels locked every channel takes
/// the new volume, else only that channel, when it exists.
pub fn channel_volume_changed<T: Copy>(volumes: &mut Vec<T>, index: u32, volume: T, locked: bool)
    ensures
        final(volumes)@.len() == old(volumes)@.len(),
        locked ==> forall|i: int| 0 <= i < final(volumes)@.len() ==> #[trigger] final(volumes)@[i] == volume,
        !locked && index < old(volumes)@.len() ==> final(volumes)@ == old(volumes)@.update(index as int, volume),
        !locked && index >= old(volumes)@.len() ==> final(volumes)@ == old(volumes)@,
{
    if locked {
        let mut i: usize = 0;
        while i < volumes.len()
            invariant
                i <= volumes@.len(),
                volumes@.len() == old(volumes)@.len(),
                forall|k: int| 0 <= k < i ==> #[trigger] volumes@[k] == volume,
            decreases volumes@.len() - i,
        {
            volumes.set(i, volume);
            i = i + 1;
        }
    } else if (index as usize) < volumes.len() {
        volumes.set(index as usize, volume);
    }
}

} // verus!
