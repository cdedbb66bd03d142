//! Property dictionaries of PipeWire objects and what is read from them:
//! names, media and node types, and which nodes stay hidden.
use vstd::prelude::*;
use crate::text::{contains, contains_text, same_text};

verus! {

/// The media a node carries.
#[derive(Clone, Copy, Debug, PartialEq, Eq, Structural)]
pub enum MediaType {
    Audio,
    Video,
    Midi,
}

/// The role of a node.
#[derive(Clone, Copy, Debug, PartialEq, Eq, Structural)]
pub enum NodeType {
    Undefined,
    Input,
    Output,
    Sink,
    Source,
}

/// A property dictionary: keys and values in the order the object lists them.
pub struct Properties {
    pub entries: Vec<(String, String)>,
}

/// The value of `key`: that of the first entry with this key.
pub open spec fn prop_get(es: Seq<(String, String)>, key: Seq<char>) -> Option<Seq<char>>
    decreases es.len(),
{
    if es.len() == 0 {
        None
    } else if es[0].0@ == key {
        Some(es[0].1@)
    } else {
        prop_get(es.drop_first(), key)
    }
}

/// Law: the value of a key is that of the first entry with the key; a key
/// has no value exactly when no entry has it.
pub proof fn lemma_prop_get_first(es: Seq<(String, String)>, key: Seq<char>)
    ensures
        match prop_get(es, key) {
            Some(v) => exists|k: int|
                0 <= k < es.len() && #[trigger] es[k].0@ == key && es[k].1@ == v && forall|j: int|
                    0 <= j < k ==> es[j].0@ != key,
            None => forall|k: int| 0 <= k < es.len() ==> #[trigger] es[k].0@ != key,
        },
    decreases es.len(),
{
    if es.len() > 0 {
        let rest = es.drop_first();
        lemma_prop_get_first(rest, key);
        assert forall|k: int| 0 <= k < rest.len() implies #[trigger] rest[k] == es[k + 1] by {}
        if es[0].0@ == key {
            assert(es[0].0@ == key);
        } else {
            match prop_get(rest, key) {
                Some(v) => {
                    let k = choose|k: int|
                        0 <= k < rest.len() && #[trigger] rest[k].0@ == key && rest[k].1@ == v && forall|j: int|
                            0 <= j < k ==> rest[j].0@ != key;
                    assert(es[k + 1].0@ == key);
                    assert forall|j: int| 0 <= j < k + 1 implies es[j].0@ != key by {
                        if j > 0 {
                            assert(es[j] == rest[j - 1]);
                        }
                    }
                },
                None => {
                    assert forall|k: int| 0 <= k < es.len() implies #[trigger] es[k].0@ != key by {
                        if k > 0 {
                            assert(es[k] == rest[k - 1]);
                            assert(rest[k - 1].0@ != key);
                        }
                    }
                },
            }
        }
    }
}

/// The first of three optional texts that is set, else the empty text.
pub open spec fn first_set(a: Option<Seq<char>>, b: Option<Seq<char>>, c: Option<Seq<char>>) -> Seq<char> {
    match a {
        Some(x) => x,
        None => match b {
            Some(x) => x,
            None => match c {
                Some(x) => x,
                None => Seq::empty(),
            },
        },
    }
}

/// The media type that a media class names.
pub open spec fn media_type_of_class(class: Seq<char>) -> Option<MediaType> {
    if contains_text(class, "Audio"@) {
        Some(MediaType::Audio)
    } else if contains_text(class, "Video"@) {
        Some(MediaType::Video)
    } else if contains_text(class, "Midi"@) {
        Some(MediaType::Midi)
    } else {
        None
    }
}

/// The node type that a media class names.
pub open spec fn node_type_of_class(class: Seq<char>) -> Option<NodeType> {
    if contains_text(class, "Sink"@) {
        Some(NodeType::Sink)
    } else if contains_text(class, "Output"@) {
        Some(NodeType::Output)
    } else if contains_text(class, "Input"@) {
        Some(NodeType::Input)
    } else if contains_text(class, "Source"@) {
        Some(NodeType::Source)
    } else {
        None
    }
}

/// Law: a media class that names `Sink` is a sink's; else one naming
/// `Output` an output's, else one naming `Input` an input's, else one naming
/// `Source` a source's; a class naming none of them gives no node type. Its
/// media is audio when it names `Audio`, else video for `Video`, else MIDI
/// for `Midi`, else none.
pub proof fn lemma_class_types(class: Seq<char>)
    ensures
        contains_text(class, seq!['S', 'i', 'n', 'k']) ==> node_type_of_class(class) == Some(NodeType::Sink),
        !contains_text(class, seq!['S', 'i', 'n', 'k']) && contains_text(class, seq!['O', 'u', 't', 'p', 'u', 't']) ==> node_type_of_class(class)
            == Some(NodeType::Output),
        !contains_text(class, seq!['S', 'i', 'n', 'k']) && !contains_text(class, seq!['O', 'u', 't', 'p', 'u', 't']) && contains_text(class, seq!['I', 'n', 'p', 'u', 't'])
            ==> node_type_of_class(class) == Some(NodeType::Input),
        !contains_text(class, seq!['S', 'i', 'n', 'k']) && !contains_text(class, seq!['O', 'u', 't', 'p', 'u', 't']) && !contains_text(class, seq!['I', 'n', 'p', 'u', 't'])
            && contains_text(class, seq!['S', 'o', 'u', 'r', 'c', 'e']) ==> node_type_of_class(class) == Some(NodeType::Source),
        !contains_text(class, seq!['S', 'i', 'n', 'k']) && !contains_text(class, seq!['O', 'u', 't', 'p', 'u', 't']) && !contains_text(class, seq!['I', 'n', 'p', 'u', 't'])
            && !contains_text(class, seq!['S', 'o', 'u', 'r', 'c', 'e']) ==> node_type_of_class(class) is None,
        contains_text(class, seq!['A', 'u', 'd', 'i', 'o']) ==> media_type_of_class(class) == Some(MediaType::Audio),
        !contains_text(class, seq!['A', 'u', 'd', 'i', 'o']) && contains_text(class, seq!['V', 'i', 'd', 'e', 'o']) ==> media_type_of_class(class)
            == Some(MediaType::Video),
        !contains_text(class, seq!['A', 'u', 'd', 'i', 'o']) && !contains_text(class, seq!['V', 'i', 'd', 'e', 'o']) && contains_text(class, seq!['M', 'i', 'd', 'i'])
            ==> media_type_of_class(class) == Some(MediaType::Midi),
        !contains_text(class, seq!['A', 'u', 'd', 'i', 'o']) && !contains_text(class, seq!['V', 'i', 'd', 'e', 'o']) && !contains_text(class, seq!['M', 'i', 'd', 'i'])
            ==> media_type_of_class(class) is None,
{
    reveal_strlit("Sink");
    reveal_strlit("Output");
    reveal_strlit("Input");
    reveal_strlit("Source");
    reveal_strlit("Audio");
    reveal_strlit("Video");
    reveal_strlit("Midi");
    assert("Sink"@ =~= seq!['S', 'i', 'n', 'k']);
    assert("Output"@ =~= seq!['O', 'u', 't', 'p', 'u', 't']);
    assert("Input"@ =~= seq!['I', 'n', 'p', 'u', 't']);
    assert("Source"@ =~= seq!['S', 'o', 'u', 'r', 'c', 'e']);
    assert("Audio"@ =~= seq!['A', 'u', 'd', 'i', 'o']);
    assert("Video"@ =~= seq!['V', 'i', 'd', 'e', 'o']);
    assert("Midi"@ =~= seq!['M', 'i', 'd', 'i']);
}

/// The node type of a node by the exact media class of an audio stream or sink.
pub open spec fn node_type_of_exact_class(class: Option<Seq<char>>) -> NodeType {
    match class {
        Some(c) => if c == "Stream/Output/Audio"@ {
            NodeType::Output
        } else if c == "Stream/Input/Audio"@ {
            NodeType::Input
        } else if c == "Audio/Sink"@ {
            NodeType::Sink
        } else {
            NodeType::Undefined
        },
        None => NodeType::Undefined,
    }
}

/// A node that the mixer does not show: this application itself, the
/// feedback sounds of pavucontrol, event and notification sounds, and the
/// streams that only monitor a peak level.
pub open spec fn hidden_node(name: Seq<char>, props: Seq<(String, String)>) -> bool {
    ||| name == "PulseAudio Volume Control"@
    ||| name == "pavucontrol"@
    ||| prop_get(props, "event.id"@) is Some
    ||| prop_get(props, "media.role"@) == Some("Notification"@)
    ||| prop_get(props, "stream.monitor"@) is Some
}

/// Law: this application, pavucontrol, event sounds, notifications and
/// peak monitors are hidden, and nothing else is.
pub proof fn lemma_hidden_nodes(name: Seq<char>, props: Seq<(String, String)>)
    ensures
        hidden_node(name, props) <==> (name == seq!['P', 'u', 'l', 's', 'e', 'A', 'u', 'd', 'i', 'o', ' ', 'V', 'o', 'l', 'u', 'm', 'e', ' ', 'C', 'o', 'n', 't', 'r', 'o', 'l'] || name == seq!['p', 'a', 'v', 'u', 'c', 'o', 'n', 't', 'r', 'o', 'l']
            || prop_get(props, seq!['e', 'v', 'e', 'n', 't', '.', 'i', 'd']) is Some || prop_get(props, seq!['m', 'e', 'd', 'i', 'a', '.', 'r', 'o', 'l', 'e']) == Some(
            seq!['N', 'o', 't', 'i', 'f', 'i', 'c', 'a', 't', 'i', 'o', 'n'],
        ) || prop_get(props, seq!['s', 't', 'r', 'e', 'a', 'm', '.', 'm', 'o', 'n', 'i', 't', 'o', 'r']) is Some),
{
    reveal_strlit("PulseAudio Volume Control");
    reveal_strlit("pavucontrol");
    reveal_strlit("event.id");
    reveal_strlit("media.role");
    reveal_strlit("Notification");
    reveal_strlit("stream.monitor");
    assert("PulseAudio Volume Control"@ =~= seq!['P', 'u', 'l', 's', 'e', 'A', 'u', 'd', 'i', 'o', ' ', 'V', 'o', 'l', 'u', 'm', 'e', ' ', 'C', 'o', 'n', 't', 'r', 'o', 'l']);
    assert("pavucontrol"@ =~= seq!['p', 'a', 'v', 'u', 'c', 'o', 'n', 't', 'r', 'o', 'l']);
    assert("event.id"@ =~= seq!['e', 'v', 'e', 'n', 't', '.', 'i', 'd']);
    assert("media.role"@ =~= seq!['m', 'e', 'd', 'i', 'a', '.', 'r', 'o', 'l', 'e']);
    assert("Notification"@ =~= seq!['N', 'o', 't', 'i', 'f', 'i', 'c', 'a', 't', 'i', 'o', 'n']);
    assert("stream.monitor"@ =~= seq!['s', 't', 'r', 'e', 'a', 'm', '.', 'm', 'o', 'n', 'i', 't', 'o', 'r']);
}

/// Law: by its exact class, an audio output stream is an output, an audio
/// input stream an input, an audio sink a sink, and anything else, or no
/// class, undefined.
pub proof fn lemma_exact_class_types(class: Option<Seq<char>>)
    ensures
        class == Some(seq!['S', 't', 'r', 'e', 'a', 'm', '/', 'O', 'u', 't', 'p', 'u', 't', '/', 'A', 'u', 'd', 'i', 'o']) ==> node_type_of_exact_class(class) == NodeType::Output,
        class == Some(seq!['S', 't', 'r', 'e', 'a', 'm', '/', 'I', 'n', 'p', 'u', 't', '/', 'A', 'u', 'd', 'i', 'o']) ==> node_type_of_exact_class(class) == NodeType::Input,
        class == Some(seq!['A', 'u', 'd', 'i', 'o', '/', 'S', 'i', 'n', 'k']) ==> node_type_of_exact_class(class) == NodeType::Sink,
        class != Some(seq!['S', 't', 'r', 'e', 'a', 'm', '/', 'O', 'u', 't', 'p', 'u', 't', '/', 'A', 'u', 'd', 'i', 'o']) && class != Some(seq!['S', 't', 'r', 'e', 'a', 'm', '/', 'I', 'n', 'p', 'u', 't', '/', 'A', 'u', 'd', 'i', 'o']) && class != Some(
            seq!['A', 'u', 'd', 'i', 'o', '/', 'S', 'i', 'n', 'k'],
        ) ==> node_type_of_exact_class(class) == NodeType::Undefined,
{
    reveal_strlit("Stream/Output/Audio");
    reveal_strlit("Stream/Input/Audio");
    reveal_strlit("Audio/Sink");
    assert("Stream/Output/Audio"@ =~= seq!['S', 't', 'r', 'e', 'a', 'm', '/', 'O', 'u', 't', 'p', 'u', 't', '/', 'A', 'u', 'd', 'i', 'o']);
    assert("Stream/Input/Audio"@ =~= seq!['S', 't', 'r', 'e', 'a', 'm', '/', 'I', 'n', 'p', 'u', 't', '/', 'A', 'u', 'd', 'i', 'o']);
    assert("Audio/Sink"@ =~= seq!['A', 'u', 'd', 'i', 'o', '/', 'S', 'i', 'n', 'k']);
}

impl Properties {
    /// The value of `key`, as the dictionary's lookup finds it.
    pub fn get(&self, key: &str) -> (r: Option<&String>)
        ensures
            match r {
                Some(v) => prop_get(self.entries@, key@) == Some(v@),
                None => prop_get(self.entries@, key@) is None,
            },
    {
        let es = &self.entries;
        let mut i: usize = 0;
        assert(es@.skip(0) =~= es@);
        while i < es.len()
            invariant
                es@ == self.entries@,
                i <= es@.len(),
                prop_get(es@, key@) == prop_get(es@.skip(i as int), key@),
            decreases es@.len() - i,
        {
            assert(es@.skip(i as int)[0] == es@[i as int]);
            if same_text(es[i].0.as_str(), key) {
                return Some(&es[i].1);
            }
            assert(es@.skip(i as int).drop_first() =~= es@.skip(i + 1));
            i = i + 1;
        }
        None
    }

    /// Tests whether `key` is set.
    pub fn has(&self, key: &str) -> (r: bool)
        ensures
            r == prop_get(self.entries@, key@) is Some,
    {
        self.get(key).is_some()
    }

    /// The value of `key` when it is set, else the empty text.
    pub fn get_or_empty(&self, key: &str) -> (r: String)
        ensures
            r@ == match prop_get(self.entries@, key@) {
                Some(v) => v,
                None => Seq::empty(),
            },
    {
        match self.get(key) {
            Some(v) => v.clone(),
            None => String::new(),
        }
    }

    /// The first of three keys that is set, else the empty text.
    fn first_of(&self, a: &str, b: &str, c: &str) -> (r: String)
        ensures
            r@ == first_set(prop_get(self.entries@, a@), prop_get(self.entries@, b@), prop_get(self.entries@, c@)),
    {
        match self.get(a) {
            Some(v) => v.clone(),
            None => match self.get(b) {
                Some(v) => v.clone(),
                None => match self.get(c) {
                    Some(v) => v.clone(),
                    None => String::new(),
                },
            },
        }
    }

    /// The nicest name of a node: its description, else its nick, else its
    /// name, else the empty text.
    pub fn display_name(&self) -> (r: String)
        ensures
            r@ == first_set(
                prop_get(self.entries@, "node.description"@),
                prop_get(self.entries@, "node.nick"@),
                prop_get(self.entries@, "node.name"@),
            ),
    {
        self.first_of("node.description", "node.nick", "node.name")
    }

    /// The label of a node: a sink goes by its description first, any other
    /// node by its nick first; then the other of the two, then its name.
    pub fn node_label(&self, node_type: NodeType) -> (r: String)
        ensures
            node_type == NodeType::Sink ==> r@ == first_set(
                prop_get(self.entries@, "node.description"@),
                prop_get(self.entries@, "node.nick"@),
                prop_get(self.entries@, "node.name"@),
            ),
            node_type != NodeType::Sink ==> r@ == first_set(
                prop_get(self.entries@, "node.nick"@),
                prop_get(self.entries@, "node.description"@),
                prop_get(self.entries@, "node.name"@),
            ),
    {
        match node_type {
            NodeType::Sink => self.first_of("node.description", "node.nick", "node.name"),
            _ => self.first_of("node.nick", "node.description", "node.name"),
        }
    }

    /// The name of the media a node plays, or the empty text.
    pub fn media_name(&self) -> (r: String)
        ensures
            r@ == match prop_get(self.entries@, "media.name"@) {
                Some(v) => v,
                None => Seq::empty(),
            },
    {
        self.get_or_empty("media.name")
    }

    /// The media type of a node, by its media class.
    pub fn media_type(&self) -> (r: Option<MediaType>)
        ensures
            r == match prop_get(self.entries@, "media.class"@) {
                Some(c) => media_type_of_class(c),
                None => None,
            },
    {
        match self.get("media.class") {
            Some(class) => media_type_of_class_text(class.as_str()),
            None => None,
        }
    }

    /// The node type of a node, by its media class. A duplex media category
    /// is looked at and then falls back to the same answer.
    pub fn node_type(&self) -> (r: Option<NodeType>)
        ensures
            r == match prop_get(self.entries@, "media.class"@) {
                Some(c) => node_type_of_class(c),
                None => None,
            },
    {
        let by_category = match self.get("media.category") {
            Some(category) => if contains(category.as_str(), "Duplex") {
                None
            } else {
                match self.get("media.class") {
                    Some(class) => node_type_of_class_text(class.as_str()),
                    None => None,
                }
            },
            None => None,
        };
        match by_category {
            Some(t) => Some(t),
            None => match self.get("media.class") {
                Some(class) => node_type_of_class_text(class.as_str()),
                None => None,
            },
        }
    }

    /// The node type of an audio stream or sink, by its exact media class.
    pub fn node_type_exact(&self) -> (r: NodeType)
        ensures
            r == node_type_of_exact_class(prop_get(self.entries@, "media.class"@)),
    {
        match self.get("media.class") {
            Some(class) => {
                if same_text(class.as_str(), "Stream/Output/Audio") {
                    NodeType::Output
                } else if same_text(class.as_str(), "Stream/Input/Audio") {
                    NodeType::Input
                } else if same_text(class.as_str(), "Audio/Sink") {
                    NodeType::Sink
                } else {
                    NodeType::Undefined
                }
            },
            None => NodeType::Undefined,
        }
    }
}

/// The media type that a media class names.
pub fn media_type_of_class_text(class: &str) -> (r: Option<MediaType>)
    ensures
        r == media_type_of_class(class@),
{
    if contains(class, "Audio") {
        Some(MediaType::Audio)
    } else if contains(class, "Video") {
        Some(MediaType::Video)
    } else if contains(class, "Midi") {
        Some(MediaType::Midi)
    } else {
        None
    }
}

/// The node type that a media class names.
pub fn node_type_of_class_text(class: &str) -> (r: Option<NodeType>)
    ensures
        r == node_type_of_class(class@),
{
    if contains(class, "Sink") {
        Some(NodeType::Sink)
    } else if contains(class, "Output") {
        Some(NodeType::Output)
    } else if contains(class, "Input") {
        Some(NodeType::Input)
    } else if contains(class, "Source") {
        Some(NodeType::Source)
    } else {
        None
    }
}

/// Tests whether a node with this name (the empty text when it has none)
/// and these properties stays hidden.
pub fn node_is_hidden(name: &str, props: &Properties) -> (r: bool)
    ensures
        r == hidden_node(name@, props.entries@),
{
    let mut hidden = false;
    if same_text(name, "PulseAudio Volume Control") {
        hidden = true;
    }
    if same_text(name, "pavucontrol") {
        hidden = true;
    }
    if props.has("event.id") {
        hidden = true;
    }
    match props.get("media.role") {
        Some(role) => {
            if same_text(role.as_str(), "Notification") {
                hidden = true;
            }
        },
        None => {},
    }
    if props.has("stream.monitor") {
        hidden = true;
    }
    hidden
}

} // verus!
