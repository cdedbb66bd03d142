//! The `default` metadata of PipeWire: which node became the default sink
//! or source.
use vstd::prelude::*;
use crate::text::{contains_text, find_text_from, first_occurrence, occurs_at, same_text};

verus! {

/// Which default device a metadata entry names.
#[derive(Clone, Copy, Debug, PartialEq, Eq, Structural)]
pub enum DefaultNodeKind {
    Sink,
    Source,
}

/// A new default device, by its node name.
#[derive(Debug, PartialEq, Eq)]
pub struct DefaultNodeChange {
    pub kind: DefaultNodeKind,
    pub name: String,
}

/// The text that opens the name in the JSON value of a default entry.
pub open spec fn name_opening() -> Seq<char> {
    "{\"name\":\""@
}

/// The first position of a double quote in `s`, or its length.
pub open spec fn quote_or_end(s: Seq<char>) -> int {
    if exists|i: int| 0 <= i < s.len() && s[i] == '"' {
        choose|i: int| 0 <= i < s.len() && s[i] == '"' && forall|j: int| 0 <= j < i ==> s[j] != '"'
    } else {
        s.len() as int
    }
}

/// The node name in the JSON value of a default entry, read as splitting
/// the value at the opening `{"name":"` does: the second piece, cut at its
/// first double quote. `None` when the value holds no opening.
pub open spec fn json_node_name(v: Seq<char>) -> Option<Seq<char>> {
    match first_occurrence(v, name_opening(), 0) {
        Some(a) => {
            let start = a + name_opening().len();
            let end = match first_occurrence(v, name_opening(), start) {
                Some(b) => b,
                None => v.len() as int,
            };
            let piece = v.subrange(start, end);
            Some(piece.subrange(0, quote_or_end(piece)))
        },
        None => None,
    }
}

/// Law: a JSON value that opens with `{"name":"`, then a name without
/// double quotes, then a double quote, reads as that name, whatever follows
/// as long as it opens no second name.
pub proof fn lemma_json_node_name_reads_name(name: Seq<char>, rest: Seq<char>)
    requires
        forall|i: int| 0 <= i < name.len() ==> name[i] != '"',
        !contains_text(name + seq!['"'] + rest, name_opening()),
    ensures
        json_node_name(name_opening() + name + seq!['"'] + rest) == Some(name),
{
    reveal_strlit("{\"name\":\"");
    let o = name_opening();
    let tail = name + seq!['"'] + rest;
    let v = o + tail;
    assert(o.len() == 9);
    assert(o + name + seq!['"'] + rest =~= v);
    assert(occurs_at(v, o, 0)) by {
        assert(v.subrange(0, 9) =~= o);
    }
    crate::text::lemma_first_occurrence_at(v, o, 0, 0);
    assert forall|at: int| 9 <= at implies !occurs_at(v, o, at) by {
        if occurs_at(v, o, at) {
            assert(tail.subrange(at - 9, at - 9 + 9) =~= v.subrange(at, at + 9));
            assert(occurs_at(tail, o, at - 9));
        }
    }
    assert(first_occurrence(v, o, 9) is None);
    let piece = v.subrange(9, v.len() as int);
    assert(piece =~= tail);
    assert(tail[name.len() as int] == '"');
    assert(piece[name.len() as int] == '"');
    assert(forall|j: int| 0 <= j < name.len() ==> piece[j] == name[j]);
    assert(exists|i: int| 0 <= i < piece.len() && piece[i] == '"');
    let q = quote_or_end(piece);
    let c = choose|i: int| 0 <= i < piece.len() && piece[i] == '"' && forall|j: int| 0 <= j < i ==> piece[j] != '"';
    assert(q == c);
    if c < name.len() {
        assert(piece[c] == name[c]);
    } else if c > name.len() {
        assert(piece[name.len() as int] != '"');
    }
    assert(q == name.len());
    assert(piece.subrange(0, q) =~= name);
    assert(first_occurrence(v, o, 0) == Some(0int));
    assert(json_node_name(v) == Some(piece.subrange(0, q)));
}

/// The first double quote in `s`, or its length.
fn find_quote(s: &str) -> (r: usize)
    ensures
        r == quote_or_end(s@),
        r <= s@.len(),
{
    let n = s.unicode_len();
    let mut i: usize = 0;
    while i < n
        invariant
            i <= n,
            n == s@.len(),
            forall|j: int| 0 <= j < i ==> s@[j] != '"',
        decreases n - i,
    {
        if s.get_char(i) == '"' {
            proof {
                let c = choose|c: int| 0 <= c < s@.len() && s@[c] == '"' && forall|j: int| 0 <= j < c ==> s@[j] != '"';
                if c < i {
                } else if c > i {
                }
            }
            return i;
        }
        i = i + 1;
    }
    i
}

/// Reads the node name from the JSON value of a default entry.
pub fn node_name_from_json(v: &str) -> (r: Option<String>)
    ensures
        match json_node_name(v@) {
            Some(name) => r matches Some(s) && s@ == name,
            None => r is None,
        },
{
    let opening = "{\"name\":\"";
    assert(opening@ == name_opening());
    let len = v.unicode_len();
    let a = match find_text_from(v, opening, 0) {
        Some(a) => a,
        None => return None,
    };
    let m = opening.unicode_len();
    assert(a + m <= len);
    let start = a + m;
    let end = match find_text_from(v, opening, start) {
        Some(b) => b,
        None => len,
    };
    assert(start <= end <= len);
    let piece = v.substring_char(start, end);
    let q = find_quote(piece);
    let name = piece.substring_char(0, q);
    Some(String::from_str(name))
}

/// What a change of the `default` metadata tells: for the entries
/// `default.audio.sink` and `default.audio.source` with a JSON value, the
/// node that became the default. Other entries tell nothing.
pub fn default_node_change(key: Option<&str>, type_: Option<&str>, value: Option<&str>) -> (r: Option<DefaultNodeChange>)
    ensures
        match (key, type_, value) {
            (Some(k), Some(t), Some(v)) => if t@ == "Spa:String:JSON"@ && json_node_name(v@) is Some && (k@
                == "default.audio.sink"@ || k@ == "default.audio.source"@) {
                r matches Some(c) && c.name@ == json_node_name(v@)->0 && c.kind == (if k@
                    == "default.audio.sink"@ {
                    DefaultNodeKind::Sink
                } else {
                    DefaultNodeKind::Source
                })
            } else {
                r is None
            },
            _ => r is None,
        },
{
    match (key, type_, value) {
        (Some(k), Some(t), Some(v)) => {
            if !same_text(t, "Spa:String:JSON") {
                return None;
            }
            let name = match node_name_from_json(v) {
                Some(name) => name,
                None => return None,
            };
            if same_text(k, "default.audio.sink") {
                Some(DefaultNodeChange { kind: DefaultNodeKind::Sink, name })
            } else if same_text(k, "default.audio.source") {
                Some(DefaultNodeChange { kind: DefaultNodeKind::Source, name })
            } else {
                None
            }
        },
        _ => None,
    }
}

} // verus!
