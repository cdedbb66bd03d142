//! The PipeWire objects that the connection keeps track of, stored under their
//! ids, with an index from the two ports of a link to the link's id; and what
//! the connection does when objects appear, change and go.
use vstd::prelude::*;
use std::collections::HashMap;
use crate::properties::{prop_get, MediaType, NodeType, Properties, first_set, media_type_of_class, node_type_of_class};
use crate::text::{parse_u32, parsed_u32, same_text};

verus! {

broadcast use vstd::std_specs::hash::group_hash_axioms;

/// Any PipeWire item that is kept track of, saved under its id.
#[derive(Clone, Copy, Debug, PartialEq, Eq, Structural)]
pub enum Item {
    /// A node, with its media type, by which its ports are coloured.
    Node { media_type: Option<MediaType> },
    /// A port, with the id of the node it is on.
    Port { node_id: u32 },
    /// A link from an output port to an input port.
    Link { port_from: u32, port_to: u32 },
}

/// The direction of a port.
#[derive(Clone, Copy, Debug, PartialEq, Eq, Structural)]
pub enum PortDirection {
    Input,
    Output,
}

/// What the connection tells the user interface.
#[derive(Debug, PartialEq, Eq)]
pub enum PipewireMessage {
    NodeAdded { id: u32, name: String, node_type: Option<NodeType> },
    PortAdded {
        id: u32,
        node_id: u32,
        name: String,
        direction: PortDirection,
        media_type: Option<MediaType>,
    },
    LinkAdded { id: u32, node_from: u32, port_from: u32, node_to: u32, port_to: u32, active: bool },
    LinkStateChanged { id: u32, active: bool },
    NodeRemoved { id: u32 },
    PortRemoved { id: u32, node_id: u32 },
    LinkRemoved { id: u32 },
}

/// What the connection reports of a link.
pub struct LinkInfo {
    pub id: u32,
    pub node_from: u32,
    pub port_from: u32,
    pub node_to: u32,
    pub port_to: u32,
    /// The report says that the link's state changed.
    pub state_changed: bool,
    /// The link is active.
    pub active: bool,
}

/// What toggling the link between two ports asks of PipeWire.
#[derive(Clone, Copy, Debug, PartialEq, Eq, Structural)]
pub enum LinkRequest {
    /// Destroy the link with this id.
    Destroy { id: u32 },
    /// Create a link between these ports of these nodes.
    Create { node_from: u32, port_from: u32, node_to: u32, port_to: u32 },
}

/// Keeps track of any relevant items and stores them under their ids.
/// Given two port ids, it also finds the id of the link that connects them.
pub struct State {
    /// Items by id.
    items: HashMap<u32, Item>,
    /// The id of the link between two ports, under the key of the port pair.
    links: HashMap<u64, u32>,
}

/// The items by id, and the link ids by their (output port, input port).
pub struct StateView {
    pub items: Map<u32, Item>,
    pub links: Map<(u32, u32), u32>,
}

/// The key under which the link between two ports is stored.
pub open spec fn link_key(port_from: u32, port_to: u32) -> u64 {
    (port_from as int * 0x1_0000_0000 + port_to as int) as u64
}

/// The port pair stored under a key.
pub open spec fn link_ports(key: u64) -> (u32, u32) {
    ((key as int / 0x1_0000_0000) as u32, (key as int % 0x1_0000_0000) as u32)
}

proof fn lemma_link_key(port_from: u32, port_to: u32)
    ensures
        link_ports(link_key(port_from, port_to)) == (port_from, port_to),
        link_key(port_from, port_to) as int == port_from as int * 0x1_0000_0000 + port_to as int,
{
    let k = port_from as int * 0x1_0000_0000 + port_to as int;
    assert(0 <= k < 0x1_0000_0000_0000_0000) by (nonlinear_arith)
        requires
            k == port_from as int * 0x1_0000_0000 + port_to as int,
            0 <= port_from < 0x1_0000_0000,
            0 <= port_to < 0x1_0000_0000,
    ;
    assert(k / 0x1_0000_0000 == port_from as int && k % 0x1_0000_0000 == port_to as int) by (nonlinear_arith)
        requires
            k == port_from as int * 0x1_0000_0000 + port_to as int,
            0 <= port_to < 0x1_0000_0000,
    ;
}

/// The link ids by port pair, read from the key-indexed map.
pub open spec fn links_by_ports(links: Map<u64, u32>) -> Map<(u32, u32), u32> {
    Map::new(
        |p: (u32, u32)| links.contains_key(link_key(p.0, p.1)),
        |p: (u32, u32)| links[link_key(p.0, p.1)],
    )
}

/// The state after saving `item` under `id`.
pub open spec fn inserted(s: StateView, id: u32, item: Item) -> StateView {
    StateView {
        items: s.items.insert(id, item),
        links: match item {
            Item::Link { port_from, port_to } => s.links.insert((port_from, port_to), id),
            _ => s.links,
        },
    }
}

/// The state after dropping the item saved under `id`.
pub open spec fn removed(s: StateView, id: u32) -> StateView {
    StateView {
        items: s.items.remove(id),
        links: if s.items.contains_key(id) {
            match s.items[id] {
                Item::Link { port_from, port_to } => s.links.remove((port_from, port_to)),
                _ => s.links,
            }
        } else {
            s.links
        },
    }
}

/// Every indexed link names a link item that connects the ports it is
/// indexed under.
pub open spec fn links_consistent(s: StateView) -> bool {
    forall|p: (u32, u32)|
        #[trigger] s.links.contains_key(p) ==> s.items.contains_key(s.links[p]) && s.items[s.links[p]]
            == (Item::Link { port_from: p.0, port_to: p.1 })
}

/// The node that a saved port is on.
pub open spec fn node_of_port(s: StateView, port: u32) -> Option<u32> {
    if s.items.contains_key(port) {
        match s.items[port] {
            Item::Port { node_id } => Some(node_id),
            _ => None,
        }
    } else {
        None
    }
}

/// The message sent when an item goes.
pub open spec fn removal_message(id: u32, item: Item) -> PipewireMessage {
    match item {
        Item::Node { .. } => PipewireMessage::NodeRemoved { id },
        Item::Port { node_id } => PipewireMessage::PortRemoved { id, node_id },
        Item::Link { .. } => PipewireMessage::LinkRemoved { id },
    }
}

/// The media type of the node that a port is on, as far as it is known.
pub open spec fn media_type_of_node(s: StateView, node_id: u32) -> Option<MediaType> {
    if s.items.contains_key(node_id) {
        match s.items[node_id] {
            Item::Node { media_type } => media_type,
            _ => None,
        }
    } else {
        None
    }
}

impl View for State {
    type V = StateView;

    closed spec fn view(&self) -> StateView {
        StateView { items: self.items@, links: links_by_ports(self.links@) }
    }
}

impl State {
    /// Creates a new, empty state.
    pub fn new() -> (s: Self)
        ensures
            s@.items == Map::<u32, Item>::empty(),
            s@.links == Map::<(u32, u32), u32>::empty(),
    {
        let s = State { items: HashMap::new(), links: HashMap::new() };
        assert(s@.links =~= Map::<(u32, u32), u32>::empty());
        s
    }

    /// Adds a new item under the specified id.
    pub fn insert(&mut self, id: u32, item: Item)
        ensures
            final(self)@ == inserted(old(self)@, id, item),
    {
        let ghost old_links = self.links@;
        if let Item::Link { port_from, port_to } = item {
            proof {
                lemma_link_key(port_from, port_to);
            }
            self.links.insert((port_from as u64) * 0x1_0000_0000u64 + port_to as u64, id);
            proof {
                assert forall|p: (u32, u32)|
                    #![trigger links_by_ports(self.links@).contains_key(p)]
                    links_by_ports(self.links@).contains_key(p) == links_by_ports(old_links).insert(
                        (port_from, port_to),
                        id,
                    ).contains_key(p) && (links_by_ports(self.links@).contains_key(p) ==> links_by_ports(
                        self.links@,
                    )[p] == links_by_ports(old_links).insert((port_from, port_to), id)[p]) by {
                    lemma_link_key(p.0, p.1);
                }
                assert(links_by_ports(self.links@) =~= links_by_ports(old_links).insert(
                    (port_from, port_to),
                    id,
                ));
            }
        }
        self.items.insert(id, item);
    }

    /// Gets the item that has the specified id.
    pub fn get(&self, id: u32) -> (r: Option<&Item>)
        ensures
            match r {
                Some(item) => self@.items.contains_key(id) && self@.items[id] == *item,
                None => !self@.items.contains_key(id),
            },
    {
        self.items.get(&id)
    }

    /// Gets the id of the link that links the two specified ports.
    pub fn get_link_id(&self, output_port: u32, input_port: u32) -> (r: Option<u32>)
        ensures
            match r {
                Some(id) => self@.links.contains_key((output_port, input_port)) && self@.links[(
                    output_port,
                    input_port,
                )] == id,
                None => !self@.links.contains_key((output_port, input_port)),
            },
    {
        proof {
            lemma_link_key(output_port, input_port);
        }
        match self.links.get(&((output_port as u64) * 0x1_0000_0000u64 + input_port as u64)) {
            Some(id) => Some(*id),
            None => None,
        }
    }

    /// Removes the item with the specified id, returning it if it exists.
    pub fn remove(&mut self, id: u32) -> (r: Option<Item>)
        ensures
            final(self)@ == removed(old(self)@, id),
            match r {
                Some(item) => old(self)@.items.contains_key(id) && old(self)@.items[id] == item,
                None => !old(self)@.items.contains_key(id),
            },
    {
        let ghost old_links = self.links@;
        let removed = self.items.remove(&id);
        if let Some(Item::Link { port_from, port_to }) = removed {
            proof {
                lemma_link_key(port_from, port_to);
            }
            self.links.remove(&((port_from as u64) * 0x1_0000_0000u64 + port_to as u64));
            proof {
                assert forall|p: (u32, u32)|
                    #![trigger links_by_ports(self.links@).contains_key(p)]
                    links_by_ports(self.links@).contains_key(p) == links_by_ports(old_links).remove(
                        (port_from, port_to),
                    ).contains_key(p) by {
                    lemma_link_key(p.0, p.1);
                }
                assert(links_by_ports(self.links@) =~= links_by_ports(old_links).remove(
                    (port_from, port_to),
                ));
            }
        }
        removed
    }

    /// Gets the id of the node a port is on.
    pub fn get_node_of_port(&self, port: u32) -> (r: Option<u32>)
        ensures
            r == node_of_port(self@, port),
    {
        if let Some(Item::Port { node_id }) = self.get(port) {
            Some(*node_id)
        } else {
            None
        }
    }

    /// A global went away: forgets it and tells which item it was.
    pub fn handle_global_remove(&mut self, id: u32) -> (r: Option<PipewireMessage>)
        ensures
            final(self)@ == removed(old(self)@, id),
            match r {
                Some(m) => old(self)@.items.contains_key(id) && m == removal_message(id, old(self)@.items[id]),
                None => !old(self)@.items.contains_key(id),
            },
    {
        match self.remove(id) {
            Some(Item::Node { .. }) => Some(PipewireMessage::NodeRemoved { id }),
            Some(Item::Port { node_id }) => Some(PipewireMessage::PortRemoved { id, node_id }),
            Some(Item::Link { .. }) => Some(PipewireMessage::LinkRemoved { id }),
            None => None,
        }
    }

    /// A node appeared: saves it with the media type its class names, and
    /// announces it under its nicest name with the node type its class names.
    pub fn handle_node(&mut self, id: u32, props: &Properties) -> (r: PipewireMessage)
        ensures
            final(self)@ == inserted(
                old(self)@,
                id,
                Item::Node {
                    media_type: match prop_get(props.entries@, "media.class"@) {
                        Some(c) => media_type_of_class(c),
                        None => None,
                    },
                },
            ),
            r matches PipewireMessage::NodeAdded { id: rid, name, node_type } && rid == id && name@
                == first_set(
                prop_get(props.entries@, "node.description"@),
                prop_get(props.entries@, "node.nick"@),
                prop_get(props.entries@, "node.name"@),
            ) && node_type == match prop_get(props.entries@, "media.class"@) {
                Some(c) => node_type_of_class(c),
                None => None,
            },
    {
        let name = props.display_name();
        let media_type = props.media_type();
        let node_type = props.node_type();
        self.insert(id, Item::Node { media_type });
        PipewireMessage::NodeAdded { id, name, node_type }
    }

    /// A port appeared: saves the node it is on and announces it with the
    /// media type of that node. Its node id must be set and readable.
    pub fn handle_port(&mut self, id: u32, props: &Properties) -> (r: PipewireMessage)
        requires
            prop_get(props.entries@, "node.id"@) matches Some(v) && parsed_u32(v) is Some,
        ensures
            ({
                let node_id = parsed_u32(prop_get(props.entries@, "node.id"@)->0)->0 as u32;
                &&& final(self)@ == inserted(old(self)@, id, Item::Port { node_id })
                &&& r matches PipewireMessage::PortAdded {
                    id: rid,
                    node_id: rnode,
                    name,
                    direction,
                    media_type,
                } && rid == id && rnode == node_id && name@ == match prop_get(
                    props.entries@,
                    "port.name"@,
                ) {
                    Some(v) => v,
                    None => Seq::empty(),
                } && direction == (if prop_get(props.entries@, "port.direction"@) == Some("in"@) {
                    PortDirection::Input
                } else {
                    PortDirection::Output
                }) && media_type == media_type_of_node(old(self)@, node_id)
            }),
    {
        let name = props.get_or_empty("port.name");
        let node_id = match props.get("node.id") {
            Some(v) => match parse_u32(v.as_str()) {
                Some(n) => n,
                None => 0,
            },
            None => 0,
        };
        let direction = match props.get("port.direction") {
            Some(d) => if same_text(d.as_str(), "in") {
                PortDirection::Input
            } else {
                PortDirection::Output
            },
            None => PortDirection::Output,
        };
        let media_type = match self.get(node_id) {
            Some(Item::Node { media_type }) => *media_type,
            _ => None,
        };
        self.insert(id, Item::Port { node_id });
        PipewireMessage::PortAdded { id, node_id, name, direction, media_type }
    }

    /// A report on a link came: the first one saves the link and announces
    /// it; a later one announces a change of the link's state, if any.
    pub fn handle_link_info(&mut self, info: &LinkInfo) -> (r: Option<PipewireMessage>)
        ensures
            (old(self)@.items.contains_key(info.id) && old(self)@.items[info.id] is Link) ==> {
                &&& final(self)@ == old(self)@
                &&& r == if info.state_changed {
                    Some(PipewireMessage::LinkStateChanged { id: info.id, active: info.active })
                } else {
                    None
                }
            },
            !(old(self)@.items.contains_key(info.id) && old(self)@.items[info.id] is Link) ==> {
                &&& final(self)@ == inserted(
                    old(self)@,
                    info.id,
                    Item::Link { port_from: info.port_from, port_to: info.port_to },
                )
                &&& r == Some(
                    PipewireMessage::LinkAdded {
                        id: info.id,
                        node_from: info.node_from,
                        port_from: info.port_from,
                        node_to: info.node_to,
                        port_to: info.port_to,
                        active: info.active,
                    },
                )
            },
    {
        if let Some(Item::Link { .. }) = self.get(info.id) {
            if info.state_changed {
                Some(PipewireMessage::LinkStateChanged { id: info.id, active: info.active })
            } else {
                None
            }
        } else {
            self.insert(info.id, Item::Link { port_from: info.port_from, port_to: info.port_to });
            Some(
                PipewireMessage::LinkAdded {
                    id: info.id,
                    node_from: info.node_from,
                    port_from: info.port_from,
                    node_to: info.node_to,
                    port_to: info.port_to,
                    active: info.active,
                },
            )
        }
    }

    /// Toggles the link between two ports: destroys it when it exists, else
    /// creates it between the nodes the ports are on, which must be known.
    pub fn toggle_link(&self, port_from: u32, port_to: u32) -> (r: LinkRequest)
        requires
            !self@.links.contains_key((port_from, port_to)) ==> node_of_port(self@, port_from) is Some
                && node_of_port(self@, port_to) is Some,
        ensures
            self@.links.contains_key((port_from, port_to)) ==> r == (LinkRequest::Destroy {
                id: self@.links[(port_from, port_to)],
            }),
            !self@.links.contains_key((port_from, port_to)) ==> r == (LinkRequest::Create {
                node_from: node_of_port(self@, port_from)->0,
                port_from,
                node_to: node_of_port(self@, port_to)->0,
                port_to,
            }),
    {
        match self.get_link_id(port_from, port_to) {
            Some(id) => LinkRequest::Destroy { id },
            None => {
                let node_from = match self.get_node_of_port(port_from) {
                    Some(n) => n,
                    None => 0,
                };
                let node_to = match self.get_node_of_port(port_to) {
                    Some(n) => n,
                    None => 0,
                };
                LinkRequest::Create { node_from, port_from, node_to, port_to }
            },
        }
    }
}

/// Law: the message sent when an item goes names the item's kind and its
/// id, and for a port the node it was on.
pub proof fn lemma_removal_message_kind(id: u32, item: Item)
    ensures
        item is Node ==> removal_message(id, item) == (PipewireMessage::NodeRemoved { id }),
        item matches Item::Port { node_id } ==> removal_message(id, item) == (PipewireMessage::PortRemoved {
            id,
            node_id,
        }),
        item is Link ==> removal_message(id, item) == (PipewireMessage::LinkRemoved { id }),
{
}

/// Law: an item saved under an id is what is then read under that id.
pub proof fn lemma_get_after_insert(s: StateView, id: u32, item: Item)
    ensures
        inserted(s, id, item).items.contains_key(id),
        inserted(s, id, item).items[id] == item,
{
}

/// Law: once a link is saved, the id of the link between its two ports is
/// that link's id.
pub proof fn lemma_link_found_after_insert(s: StateView, id: u32, port_from: u32, port_to: u32)
    ensures
        inserted(s, id, Item::Link { port_from, port_to }).links.contains_key((port_from, port_to)),
        inserted(s, id, Item::Link { port_from, port_to }).links[(port_from, port_to)] == id,
{
}

/// Law: once a port is saved, the node it is on is found by the port's id.
pub proof fn lemma_node_of_port_after_insert(s: StateView, port: u32, node_id: u32)
    ensures
        node_of_port(inserted(s, port, Item::Port { node_id }), port) == Some(node_id),
{
}

/// Law: removing an item that was just saved under a fresh id gives back
/// the state from before; for a link, the port pair must not have been
/// indexed yet either.
pub proof fn lemma_remove_undoes_insert(s: StateView, id: u32, item: Item)
    requires
        !s.items.contains_key(id),
        item matches Item::Link { port_from, port_to } ==> !s.links.contains_key((port_from, port_to)),
    ensures
        removed(inserted(s, id, item), id) == s,
{
    let after = removed(inserted(s, id, item), id);
    assert(after.items =~= s.items);
    assert(after.links =~= s.links);
}

/// Law: the link index stays consistent when items are saved under fresh
/// ids, so a link id found by its ports always names a link between them.
pub proof fn lemma_insert_keeps_links_consistent(s: StateView, id: u32, item: Item)
    requires
        links_consistent(s),
        !s.items.contains_key(id),
    ensures
        links_consistent(inserted(s, id, item)),
{
    let t = inserted(s, id, item);
    assert forall|p: (u32, u32)| #[trigger] t.links.contains_key(p) implies t.items.contains_key(t.links[p])
        && t.items[t.links[p]] == (Item::Link { port_from: p.0, port_to: p.1 }) by {
        if s.links.contains_key(p) && t.links[p] == s.links[p] {
            assert(s.links[p] != id);
        }
    }
}

/// Law: the link index stays consistent when an item is removed.
pub proof fn lemma_remove_keeps_links_consistent(s: StateView, id: u32)
    requires
        links_consistent(s),
    ensures
        links_consistent(removed(s, id)),
{
    let t = removed(s, id);
    assert forall|p: (u32, u32)| #[trigger] t.links.contains_key(p) implies t.items.contains_key(t.links[p])
        && t.items[t.links[p]] == (Item::Link { port_from: p.0, port_to: p.1 }) by {
        assert(s.links.contains_key(p));
        if s.links[p] == id {
            assert(s.items[id] == (Item::Link { port_from: p.0, port_to: p.1 }));
        }
    }
}

/// Law: a new state is empty and its link index consistent.
pub proof fn lemma_new_state_consistent(s: StateView)
    requires
        s.items == Map::<u32, Item>::empty(),
        s.links == Map::<(u32, u32), u32>::empty(),
    ensures
        links_consistent(s),
{
}

} // verus!
