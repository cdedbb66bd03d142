//! Lists of ids: finding an id, the list model that holds the nodes, and
//! the model that shows the nodes of one type.
use vstd::prelude::*;
use im_rc::Vector;
use crate::properties::NodeType;
use crate::vector::{vector_contents, vector_get, vector_len, vector_new, vector_push_back, vector_remove};

verus! {

/// The first position in `values` that holds `value`.
pub open spec fn first_position(values: Seq<u32>, value: u32) -> Option<nat> {
    if values.contains(value) {
        Some(
            (choose|i: int|
                0 <= i < values.len() && values[i] == value && forall|j: int|
                    0 <= j < i ==> values[j] != value) as nat,
        )
    } else {
        None
    }
}

/// Some position of `values` at or before `k` holds `value` with no
/// earlier one that does.
proof fn lemma_first_index_exists(values: Seq<u32>, value: u32, k: int)
    requires
        0 <= k < values.len(),
        values[k] == value,
    ensures
        exists|i: int| 0 <= i < values.len() && values[i] == value && forall|j: int| 0 <= j < i ==> values[j] != value,
    decreases k,
{
    if exists|j: int| 0 <= j < k && values[j] == value {
        let j = choose|j: int| 0 <= j < k && values[j] == value;
        lemma_first_index_exists(values, value, j);
    } else {
        assert(forall|j: int| 0 <= j < k ==> values[j] != value);
    }
}

/// Law: the first position of a value holds it, and no earlier position
/// does; there is none exactly when no position holds the value.
pub proof fn lemma_first_position(values: Seq<u32>, value: u32)
    ensures
        match first_position(values, value) {
            Some(i) => i < values.len() && values[i as int] == value && forall|j: int|
                0 <= j < i ==> values[j] != value,
            None => forall|j: int| 0 <= j < values.len() ==> values[j] != value,
        },
{
    if values.contains(value) {
        let k = choose|k: int| 0 <= k < values.len() && values[k] == value;
        lemma_first_index_exists(values, value, k);
    }
}

/// Finds the first position in `values` that holds `value`, as the lookups
/// of a device, a node, a profile or a route by its id or index do.
pub fn position_of(values: &Vec<u32>, value: u32) -> (r: Option<usize>)
    ensures
        match r {
            Some(i) => first_position(values@, value) == Some(i as nat) && i < values@.len() && values@[i as int]
                == value,
            None => first_position(values@, value) is None,
        },
{
    let mut i: usize = 0;
    while i < values.len()
        invariant
            i <= values@.len(),
            forall|j: int| 0 <= j < i ==> values@[j] != value,
        decreases values@.len() - i,
    {
        if values[i] == value {
            proof {
                let k = choose|k: int|
                    0 <= k < values@.len() && values@[k] == value && forall|j: int| 0 <= j < k ==> values@[j] != value;
                if k < i {
                } else if k > i {
                }
                assert(k == i);
            }
            return Some(i);
        }
        i = i + 1;
    }
    None
}

/// A list model of nodes, by their bound ids, in the order they came.
pub struct PwNodeModel {
    nodes: Vector<u32>,
}

impl View for PwNodeModel {
    type V = Seq<u32>;

    closed spec fn view(&self) -> Seq<u32> {
        vector_contents(self.nodes)
    }
}

impl PwNodeModel {
    /// An empty model.
    pub fn new() -> (m: Self)
        ensures
            m@ == Seq::<u32>::empty(),
    {
        PwNodeModel { nodes: vector_new() }
    }

    /// Adds a node at the end; gives the position it took.
    pub fn append(&mut self, id: u32) -> (index: u32)
        ensures
            final(self)@ == old(self)@.push(id),
            index == old(self)@.len() as u32,
    {
        vector_push_back(&mut self.nodes, id);
        let len = vector_len(&self.nodes);
        (len - 1) as u32
    }

    /// Removes the first node with this id; gives the position it had.
    pub fn remove(&mut self, id: u32) -> (r: Option<u32>)
        ensures
            match first_position(old(self)@, id) {
                Some(i) => r == Some(i as u32) && final(self)@ == old(self)@.remove(i as int),
                None => r is None && final(self)@ == old(self)@,
            },
    {
        let len = vector_len(&self.nodes);
        let mut i: usize = 0;
        while i < len
            invariant
                self@ == old(self)@,
                i <= len,
                len == vector_contents(self.nodes).len(),
                forall|j: int| 0 <= j < i ==> vector_contents(self.nodes)[j] != id,
            decreases len - i,
        {
            if vector_get(&self.nodes, i) == Some(id) {
                proof {
                    let s = vector_contents(self.nodes);
                    let k = choose|k: int| 0 <= k < s.len() && s[k] == id && forall|j: int| 0 <= j < k ==> s[j] != id;
                    if k < i {
                    } else if k > i {
                    }
                    assert(k == i);
                }
                vector_remove(&mut self.nodes, i);
                return Some(i as u32);
            }
            i = i + 1;
        }
        None
    }

    /// The node with this id, if the model holds it.
    pub fn get_node(&self, id: u32) -> (r: Result<u32, ()>)
        ensures
            self@.contains(id) ==> r == Ok::<u32, ()>(id),
            !self@.contains(id) ==> r is Err,
    {
        let len = vector_len(&self.nodes);
        let mut i: usize = 0;
        while i < len
            invariant
                i <= len,
                len == self@.len(),
                forall|j: int| 0 <= j < i ==> self@[j] != id,
            decreases len - i,
        {
            if vector_get(&self.nodes, i) == Some(id) {
                return Ok(id);
            }
            i = i + 1;
        }
        Err(())
    }

    /// The number of nodes.
    pub fn n_items(&self) -> (n: u32)
        ensures
            n == self@.len() as u32,
    {
        vector_len(&self.nodes) as u32
    }

    /// The id of the node at a position.
    pub fn item(&self, position: u32) -> (r: Option<u32>)
        ensures
            position < self@.len() ==> r == Some(self@[position as int]),
            position >= self@.len() ==> r is None,
    {
        vector_get(&self.nodes, position as usize)
    }
}

/// A node as a node filter model reads it.
#[derive(Clone, Copy, Debug, PartialEq, Eq, Structural)]
pub struct NodeEntry {
    pub bound_id: u32,
    pub node_type: NodeType,
    /// The node stays hidden from the mixer.
    pub hidden: bool,
}

/// A filter for `node_type` shows the nodes of that type that are not
/// hidden; a filter for `Undefined` shows every node that is not hidden.
pub open spec fn node_shown(node_type: NodeType, node: NodeEntry) -> bool {
    !node.hidden && (node_type == NodeType::Undefined || node.node_type == node_type)
}

/// The bound ids of the nodes a filter for `node_type` shows, in order.
pub open spec fn shown_node_ids(node_type: NodeType, nodes: Seq<NodeEntry>) -> Seq<u32>
    decreases nodes.len(),
{
    if nodes.len() == 0 {
        Seq::empty()
    } else {
        let rest = shown_node_ids(node_type, nodes.drop_last());
        if node_shown(node_type, nodes.last()) {
            rest.push(nodes.last().bound_id)
        } else {
            rest
        }
    }
}

/// Law: a filter shows no hidden node; a filter for a type other than
/// `Undefined` shows only nodes of that type, and every visible one of them;
/// the `Undefined` filter shows every visible node.
pub proof fn lemma_node_filter_shows_its_type(node_type: NodeType, node: NodeEntry)
    ensures
        node_shown(node_type, node) ==> !node.hidden,
        node_shown(node_type, node) && node_type != NodeType::Undefined ==> node.node_type == node_type,
        !node.hidden && node.node_type == node_type ==> node_shown(node_type, node),
        !node.hidden && node_type == NodeType::Undefined ==> node_shown(node_type, node),
{
}

/// `id` is the bound id of a node of `nodes` that is visible and, unless
/// `node_type` is `Undefined`, of that type.
pub open spec fn is_visible_node_of(node_type: NodeType, nodes: Seq<NodeEntry>, id: u32) -> bool {
    exists|j: int|
        0 <= j < nodes.len() && #[trigger] nodes[j].bound_id == id && !nodes[j].hidden && (node_type
            == NodeType::Undefined || nodes[j].node_type == node_type)
}

/// Law: the ids a filter shows are those of the nodes it shows: every id
/// listed belongs to a visible node of the filter's type (any type for
/// `Undefined`), and every such node's id is listed.
pub proof fn lemma_shown_ids_are_shown_nodes(node_type: NodeType, nodes: Seq<NodeEntry>)
    ensures
        forall|k: int|
            0 <= k < shown_node_ids(node_type, nodes).len() ==> is_visible_node_of(
                node_type,
                nodes,
                #[trigger] shown_node_ids(node_type, nodes)[k],
            ),
        forall|j: int|
            0 <= j < nodes.len() && !nodes[j].hidden && (node_type == NodeType::Undefined
                || nodes[j].node_type == node_type) ==> shown_node_ids(node_type, nodes).contains(
                #[trigger] nodes[j].bound_id,
            ),
    decreases nodes.len(),
{
    if nodes.len() > 0 {
        let init = nodes.drop_last();
        lemma_shown_ids_are_shown_nodes(node_type, init);
        let ids = shown_node_ids(node_type, nodes);
        let rest = shown_node_ids(node_type, init);
        assert forall|k: int| 0 <= k < ids.len() implies is_visible_node_of(node_type, nodes, #[trigger] ids[k]) by {
            if k < rest.len() {
                assert(ids[k] == rest[k]);
                assert(is_visible_node_of(node_type, init, rest[k]));
                let j = choose|j: int|
                    0 <= j < init.len() && #[trigger] init[j].bound_id == rest[k] && !init[j].hidden && (node_type
                        == NodeType::Undefined || init[j].node_type == node_type);
                assert(nodes[j] == init[j]);
            } else {
                let j = nodes.len() - 1;
                assert(node_shown(node_type, nodes.last()));
                assert(ids == rest.push(nodes.last().bound_id));
                assert(nodes[j] == nodes.last());
                assert(nodes[j].bound_id == ids[k]);
            }
        }
        assert forall|j: int|
            0 <= j < nodes.len() && !nodes[j].hidden && (node_type == NodeType::Undefined
                || nodes[j].node_type == node_type) implies ids.contains(#[trigger] nodes[j].bound_id) by {
            if j < init.len() {
                assert(nodes[j] == init[j]);
                assert(rest.contains(init[j].bound_id));
                let k = choose|k: int| 0 <= k < rest.len() && rest[k] == init[j].bound_id;
                assert(ids[k] == rest[k]);
            } else {
                assert(nodes[j] == nodes.last());
                assert(ids[ids.len() - 1] == nodes.last().bound_id);
            }
        }
    }
}

/// A list model that shows the nodes of one type of the node list, in the
/// list's order.
pub struct PwNodeFilterModel {
    nodetype: NodeType,
}

impl PwNodeFilterModel {
    /// The node type this model shows.
    pub closed spec fn spec_nodetype(&self) -> NodeType {
        self.nodetype
    }

    /// A model that shows the nodes of `nodetype`.
    pub fn new(nodetype: NodeType) -> (m: Self)
        ensures
            m.spec_nodetype() == nodetype,
    {
        PwNodeFilterModel { nodetype }
    }

    /// The node type this model shows.
    pub fn nodetype(&self) -> (r: NodeType)
        ensures
            r == self.spec_nodetype(),
    {
        self.nodetype
    }

    /// Shows the nodes of another type from now on.
    pub fn set_nodetype(&mut self, nodetype: NodeType)
        ensures
            final(self).spec_nodetype() == nodetype,
    {
        self.nodetype = nodetype;
    }

    /// Tests whether the model shows a node.
    pub fn shows(&self, node: &NodeEntry) -> (r: bool)
        ensures
            r == node_shown(self.spec_nodetype(), *node),
            r ==> !node.hidden,
            r && self.spec_nodetype() != NodeType::Undefined ==> node.node_type == self.spec_nodetype(),
            !node.hidden && node.node_type == self.spec_nodetype() ==> r,
            !node.hidden && self.spec_nodetype() == NodeType::Undefined ==> r,
    {
        !node.hidden && (self.nodetype == NodeType::Undefined || node.node_type == self.nodetype)
    }

    /// The bound ids of the nodes of `nodes` that the model shows, in order.
    pub fn shown_ids(&self, nodes: &Vec<NodeEntry>) -> (r: Vec<u32>)
        ensures
            r@ == shown_node_ids(self.spec_nodetype(), nodes@),
    {
        let mut r: Vec<u32> = Vec::new();
        let mut i: usize = 0;
        while i < nodes.len()
            invariant
                i <= nodes@.len(),
                r@ == shown_node_ids(self.nodetype, nodes@.subrange(0, i as int)),
            decreases nodes@.len() - i,
        {
            let ghost prefix = nodes@.subrange(0, i + 1);
            assert(prefix.drop_last() =~= nodes@.subrange(0, i as int));
            if self.shows(&nodes[i]) {
                r.push(nodes[i].bound_id);
            }
            i = i + 1;
        }
        assert(nodes@.subrange(0, nodes@.len() as int) =~= nodes@);
        r
    }

    /// The number of nodes shown.
    pub fn n_items(&self, nodes: &Vec<NodeEntry>) -> (n: u32)
        ensures
            n == shown_node_ids(self.spec_nodetype(), nodes@).len() as u32,
    {
        self.shown_ids(nodes).len() as u32
    }

    /// The bound id of the node shown at a position.
    pub fn item(&self, nodes: &Vec<NodeEntry>, position: u32) -> (r: Option<u32>)
        ensures
            position < shown_node_ids(self.spec_nodetype(), nodes@).len() ==> r == Some(
                shown_node_ids(self.spec_nodetype(), nodes@)[position as int],
            ),
            position >= shown_node_ids(self.spec_nodetype(), nodes@).len() ==> r is None,
    {
        let ids = self.shown_ids(nodes);
        if (position as usize) < ids.len() {
            Some(ids[position as usize])
        } else {
            None
        }
    }

    /// The position among the shown nodes of the first one with this bound
    /// id; a list model counts its items in `u32`.
    pub fn get_node_pos_from_id(&self, nodes: &Vec<NodeEntry>, id: u32) -> (r: Option<u32>)
        ensures
            r == match first_position(shown_node_ids(self.spec_nodetype(), nodes@), id) {
                Some(p) => Some(p as u32),
                None => None,
            },
    {
        let ids = self.shown_ids(nodes);
        match position_of(&ids, id) {
            Some(p) => Some(p as u32),
            None => None,
        }
    }
}

/// Law: a node just added is found by its id.
pub proof fn lemma_found_after_append(ids: Seq<u32>, id: u32)
    ensures
        ids.push(id).contains(id),
{
    assert(ids.push(id)[ids.len() as int] == id);
}

/// Law: removing the id of a node just added to a model that did not hold
/// it gives back the model from before, and reports the position it took.
pub proof fn lemma_remove_undoes_append(ids: Seq<u32>, id: u32)
    requires
        !ids.contains(id),
    ensures
        first_position(ids.push(id), id) == Some(ids.len()),
        ids.push(id).remove(ids.len() as int) == ids,
{
    let s = ids.push(id);
    assert(s[ids.len() as int] == id);
    let k = choose|k: int| 0 <= k < s.len() && s[k] == id && forall|j: int| 0 <= j < k ==> s[j] != id;
    if k < ids.len() {
        assert(ids[k] == id);
    }
    assert(s.remove(ids.len() as int) =~= ids);
}

} // verus!
