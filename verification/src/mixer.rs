//! The volume state that WirePlumber's mixer API reports and accepts.
//!
//! The mixer answers with a dictionary (`a{sv}`): `channelVolumes` maps the
//! decimal index of each channel to a dictionary with its `volume` (and, on
//! the way out, its `channel` name), `volume` holds the overall volume and
//! `mute` the mute switch. A volume is a double; here it travels as the bit
//! pattern of that double, which keeps its value exact and orders the valid
//! volumes as the doubles themselves are ordered.
use vstd::prelude::*;
use crate::text::{decimal_text, lemma_decimal_text, parse_usize, parsed_usize, same_text, usize_to_decimal};

verus! {

/// The bit pattern of `f32::MAX` widened to a double: the loudest volume
/// that the mixer accepts.
pub const MAX_VOLUME_BITS: u64 = 0x47ef_ffff_e000_0000u64;

/// The bit pattern of the double `-0.0`, which compares equal to `0.0`.
pub const NEGATIVE_ZERO_BITS: u64 = 0x8000_0000_0000_0000u64;

/// A value in a mixer reply or request, as far as the volume logic reads it.
pub enum MixerValue {
    /// A double, by its bit pattern.
    Double(u64),
    Bool(bool),
    Uint32(u32),
    Str(String),
    /// A dictionary of string keys, in the order its entries come.
    Dict(Vec<(String, MixerValue)>),
    /// A value of any other type.
    Other,
}

/// The volume state read from the mixer.
pub struct MixerVolumeState {
    pub channel_volumes: Option<Vec<u64>>,
    pub volume: Option<u64>,
    pub mute: Option<bool>,
}

/// A property update that applying a mixer state performs.
pub enum MixerUpdate {
    ChannelVolumes(Vec<u64>),
    Volume(u64),
    Mute(bool),
}

/// A property update, with the channel volumes as a sequence.
pub enum MixerUpdateView {
    ChannelVolumes(Seq<u64>),
    Volume(u64),
    Mute(bool),
}

impl View for MixerUpdate {
    type V = MixerUpdateView;

    open spec fn view(&self) -> MixerUpdateView {
        match self {
            MixerUpdate::ChannelVolumes(v) => MixerUpdateView::ChannelVolumes(v@),
            MixerUpdate::Volume(x) => MixerUpdateView::Volume(*x),
            MixerUpdate::Mute(m) => MixerUpdateView::Mute(*m),
        }
    }
}

/// The property of a node whose change is sent to the mixer.
pub enum VolumeChange {
    Volume,
    Mute,
    ChannelVolumes,
}

/// What a change sends to the mixer.
pub enum VolumePayload {
    /// The mute switch.
    Mute,
    /// The channel volumes, rescaled so that the loudest one is the new volume.
    ScaledChannelVolumes,
    /// The overall volume alone, for a node without channels.
    Volume,
    /// The channel volumes as they stand.
    ChannelVolumes,
    /// Nothing is sent.
    Nothing,
}

/// A double is a valid volume when it is finite, not below zero and not
/// above `f32::MAX`; on bit patterns these are the non-negative patterns up
/// to that of `f32::MAX`, and the pattern of `-0.0`.
pub open spec fn valid_volume_bits(b: u64) -> bool {
    b <= MAX_VOLUME_BITS || b == NEGATIVE_ZERO_BITS
}

/// The rank of a valid volume in the total order of doubles: `-0.0` comes
/// just before `0.0`, and the other valid volumes are ordered as their bit
/// patterns are.
pub open spec fn volume_rank(b: u64) -> int {
    if b == NEGATIVE_ZERO_BITS {
        -1
    } else {
        b as int
    }
}

/// `v` is the loudest of `vs`.
pub open spec fn is_loudest(v: u64, vs: Seq<u64>) -> bool {
    vs.contains(v) && forall|i: int| 0 <= i < vs.len() ==> volume_rank(#[trigger] vs[i]) <= volume_rank(v)
}

/// The value stored under `key` in a dictionary: that of its first entry
/// with this key.
pub open spec fn dict_get(es: Seq<(String, MixerValue)>, key: Seq<char>) -> Option<MixerValue>
    decreases es.len(),
{
    if es.len() == 0 {
        None
    } else if es[0].0@ == key {
        Some(es[0].1)
    } else {
        dict_get(es.drop_first(), key)
    }
}

/// Law: a dictionary lookup finds the first entry with the key; it finds
/// nothing exactly when no entry has the key.
pub proof fn lemma_dict_get_first(es: Seq<(String, MixerValue)>, key: Seq<char>)
    ensures
        match dict_get(es, key) {
            Some(v) => exists|k: int|
                0 <= k < es.len() && #[trigger] es[k].0@ == key && es[k].1 == v && forall|j: int|
                    0 <= j < k ==> es[j].0@ != key,
            None => forall|k: int| 0 <= k < es.len() ==> #[trigger] es[k].0@ != key,
        },
    decreases es.len(),
{
    if es.len() > 0 {
        let rest = es.drop_first();
        lemma_dict_get_first(rest, key);
        assert forall|k: int| 0 <= k < rest.len() implies #[trigger] rest[k] == es[k + 1] by {}
        if es[0].0@ == key {
            assert(es[0].0@ == key);
        } else {
            match dict_get(rest, key) {
                Some(v) => {
                    let k = choose|k: int|
                        0 <= k < rest.len() && #[trigger] rest[k].0@ == key && rest[k].1 == v && forall|j: int|
                            0 <= j < k ==> rest[j].0@ != key;
                    assert(es[k + 1].0@ == key);
                    assert forall|j: int| 0 <= j < k + 1 implies es[j].0@ != key by {
                        if j > 0 {
                            assert(es[j] == rest[j - 1]);
                        }
                    }
                },
                None => {
                    assert forall|k: int| 0 <= k < es.len() implies #[trigger] es[k].0@ != key by {
                        if k > 0 {
                            assert(es[k] == rest[k - 1]);
                            assert(rest[k - 1].0@ != key);
                        }
                    }
                },
            }
        }
    }
}

/// A valid volume held by a value, if it holds one.
pub open spec fn volume_of(v: Option<MixerValue>) -> Option<u64> {
    match v {
        Some(MixerValue::Double(b)) => if valid_volume_bits(b) {
            Some(b)
        } else {
            None
        },
        _ => None,
    }
}

/// The volume of one entry of `channelVolumes`.
pub open spec fn entry_volume(e: MixerValue) -> Option<u64> {
    match e {
        MixerValue::Dict(inner) => volume_of(dict_get(inner@, "volume"@)),
        _ => None,
    }
}

/// The channel index that the key of an entry of `channelVolumes` names.
pub open spec fn entry_index(e: (String, MixerValue)) -> Option<nat> {
    parsed_usize(e.0@)
}

/// `channelVolumes` is well formed: it is not empty, every key is a channel
/// index below the number of entries, no two keys name the same index, and
/// every entry holds a valid volume.
pub open spec fn channels_ok(es: Seq<(String, MixerValue)>) -> bool {
    &&& es.len() > 0
    &&& forall|k: int|
        0 <= k < es.len() ==> {
            &&& #[trigger] entry_index(es[k]) is Some
            &&& entry_index(es[k])->0 < es.len()
            &&& entry_volume(es[k].1) is Some
        }
    &&& forall|k: int, l: int|
        0 <= k < es.len() && 0 <= l < es.len() && k != l ==> #[trigger] entry_index(es[k])
            != #[trigger] entry_index(es[l])
}

/// The position of the entry that carries channel `j`.
pub open spec fn entry_for_channel(es: Seq<(String, MixerValue)>, j: int) -> int {
    choose|k: int| 0 <= k < es.len() && entry_index(es[k]) == Some(j as nat)
}

/// The channel volumes that `channelVolumes` describes, channel by channel.
pub open spec fn channel_volumes_of(es: Seq<(String, MixerValue)>) -> Option<Seq<u64>> {
    if channels_ok(es) {
        Some(Seq::new(es.len(), |j: int| entry_volume(es[entry_for_channel(es, j)].1)->0))
    } else {
        None
    }
}

/// Law: `channelVolumes` reads as one volume per entry, each entry's
/// volume at the channel its key names; it reads as nothing when it is
/// empty, when a key names no channel below the number of entries, when two
/// keys name the same channel, or when an entry holds no valid volume.
pub proof fn lemma_channel_volumes_of(es: Seq<(String, MixerValue)>)
    ensures
        channel_volumes_of(es) matches Some(v) ==> {
            &&& v.len() == es.len()
            &&& forall|k: int|
                0 <= k < es.len() ==> ((#[trigger] entry_index(es[k])) matches Some(i) && i < es.len()
                    && entry_volume(es[k].1) == Some(v[i as int]))
        },
        es.len() == 0 ==> channel_volumes_of(es) is None,
        (exists|k: int|
            0 <= k < es.len() && (#[trigger] entry_index(es[k]) is None || entry_index(es[k])->0 >= es.len()
                || entry_volume(es[k].1) is None)) ==> channel_volumes_of(es) is None,
        (exists|k: int, l: int|
            0 <= k < es.len() && 0 <= l < es.len() && k != l && #[trigger] entry_index(es[k])
                == #[trigger] entry_index(es[l])) ==> channel_volumes_of(es) is None,
{
    if channels_ok(es) {
        let v = channel_volumes_of(es)->0;
        assert forall|k: int|
            0 <= k < es.len() implies ((#[trigger] entry_index(es[k])) matches Some(i) && i < es.len()
                && entry_volume(es[k].1) == Some(v[i as int])) by {
            let i = entry_index(es[k])->0;
            let c = entry_for_channel(es, i as int);
            assert(entry_index(es[k]) == Some(i));
            assert(0 <= c < es.len() && entry_index(es[c]) == Some(i));
            if c != k {
                assert(entry_index(es[c]) != entry_index(es[k]));
            }
        }
    }
}

/// Law: a volume is valid exactly when, as a double, it is finite, not
/// below zero and not above `f32::MAX`: zero, `-0.0`, one and `f32::MAX`
/// are valid; anything with the sign bit set other than `-0.0` is not;
/// without the sign bit, a pattern is valid exactly up to `f32::MAX`, so
/// infinity and NaN are not.
pub proof fn lemma_valid_volume_bits(b: u64)
    ensures
        valid_volume_bits(0),
        valid_volume_bits(0x8000_0000_0000_0000),
        valid_volume_bits(0x3ff0_0000_0000_0000),
        valid_volume_bits(0x47ef_ffff_e000_0000),
        !valid_volume_bits(0x47ef_ffff_e000_0001),
        !valid_volume_bits(0x7ff0_0000_0000_0000),
        !valid_volume_bits(0x7ff8_0000_0000_0000),
        !valid_volume_bits(0xbff0_0000_0000_0000),
        b > 0x8000_0000_0000_0000 ==> !valid_volume_bits(b),
        b < 0x8000_0000_0000_0000 ==> (valid_volume_bits(b) <==> b <= 0x47ef_ffff_e000_0000),
{
}

/// Law: each outgoing channel entry is keyed by the channel's index in
/// decimal and holds its volume under `volume` and, when known, its name
/// under `channel`; an incoming entry's volume is read from `volume`.
pub proof fn lemma_channel_entry_keys(e: (String, MixerValue), i: int, volume: u64, name: Option<String>)
    ensures
        encodes_channel(e, i, volume, name) ==> (e.1 matches MixerValue::Dict(inner) && inner@[0].0@ == seq!['v', 'o', 'l', 'u', 'm', 'e']
            && (name is Some ==> inner@[1].0@ == seq!['c', 'h', 'a', 'n', 'n', 'e', 'l'])),
        entry_volume(e.1) is Some ==> (e.1 matches MixerValue::Dict(inner) && dict_get(inner@, seq!['v', 'o', 'l', 'u', 'm', 'e'])
            is Some),
{
    reveal_strlit("volume");
    reveal_strlit("channel");
    assert("volume"@ =~= seq!['v', 'o', 'l', 'u', 'm', 'e']);
    assert("channel"@ =~= seq!['c', 'h', 'a', 'n', 'n', 'e', 'l']);
}

/// The channel volumes of the value stored under `channelVolumes`.
pub open spec fn channel_volumes_in(v: Option<MixerValue>) -> Option<Seq<u64>> {
    match v {
        Some(MixerValue::Dict(es)) => channel_volumes_of(es@),
        _ => None,
    }
}

/// The mute switch of the value stored under `mute`.
pub open spec fn mute_in(v: Option<MixerValue>) -> Option<bool> {
    match v {
        Some(MixerValue::Bool(b)) => Some(b),
        _ => None,
    }
}

/// The outgoing entry for one channel: its `volume`, then its `channel`
/// name when there is one.
pub open spec fn encodes_channel(e: (String, MixerValue), i: int, volume: u64, name: Option<String>) -> bool {
    &&& e.0@ == decimal_text(i as nat)
    &&& e.1 matches MixerValue::Dict(inner) && {
        &&& inner@.len() == if name is Some { 2int } else { 1int }
        &&& inner@[0].0@ == "volume"@
        &&& inner@[0].1 == MixerValue::Double(volume)
        &&& name matches Some(n) ==> inner@[1].0@ == "channel"@ && inner@[1].1 == MixerValue::Str(n)
    }
}

/// The name of channel `i`, when names are given and one is known for it.
pub open spec fn channel_name(names: Option<Seq<Option<String>>>, i: int) -> Option<String> {
    match names {
        Some(ns) => if 0 <= i < ns.len() {
            ns[i]
        } else {
            None
        },
        None => None,
    }
}

/// `es` is the `channelVolumes` dictionary sent for `volumes`: one entry per
/// channel, in channel order.
pub open spec fn encodes_channel_volumes(
    es: Seq<(String, MixerValue)>,
    volumes: Seq<u64>,
    names: Option<Seq<Option<String>>>,
) -> bool {
    &&& es.len() == volumes.len()
    &&& forall|i: int|
        0 <= i < es.len() ==> encodes_channel(#[trigger] es[i], i, volumes[i], channel_name(names, i))
}

/// The property updates that applying a mixer state performs, in order.
pub open spec fn updates_of(
    channel_volumes: Option<Seq<u64>>,
    volume: Option<u64>,
    mute: Option<bool>,
) -> Seq<MixerUpdateView> {
    let a = match channel_volumes {
        Some(v) => seq![MixerUpdateView::ChannelVolumes(v)],
        None => Seq::empty(),
    };
    let b = match volume {
        Some(x) => seq![MixerUpdateView::Volume(x)],
        None => Seq::empty(),
    };
    let c = match mute {
        Some(m) => seq![MixerUpdateView::Mute(m)],
        None => Seq::empty(),
    };
    a + b + c
}

/// Tests whether a double, by its bit pattern, is a valid volume.
pub fn is_valid_volume(b: u64) -> (r: bool)
    ensures
        r == valid_volume_bits(b),
{
    b <= MAX_VOLUME_BITS || b == NEGATIVE_ZERO_BITS
}

/// Compares two volumes in the total order of doubles.
fn quieter(a: u64, b: u64) -> (r: bool)
    ensures
        r == (volume_rank(a) < volume_rank(b)),
{
    if a == NEGATIVE_ZERO_BITS {
        b != NEGATIVE_ZERO_BITS
    } else if b == NEGATIVE_ZERO_BITS {
        false
    } else {
        a < b
    }
}

/// The loudest of some volumes, as `max_by(f64::total_cmp)` picks it.
pub fn loudest(vs: &Vec<u64>) -> (r: Option<u64>)
    ensures
        vs@.len() == 0 ==> r is None,
        vs@.len() > 0 ==> (r matches Some(v) && is_loudest(v, vs@)),
{
    if vs.len() == 0 {
        return None;
    }
    let mut best = vs[0];
    assert(vs@.subrange(0, 1)[0] == best);
    let mut i: usize = 1;
    while i < vs.len()
        invariant
            1 <= i <= vs@.len(),
            vs@.subrange(0, i as int).contains(best),
            forall|k: int| 0 <= k < i ==> volume_rank(#[trigger] vs@[k]) <= volume_rank(best),
        decreases vs@.len() - i,
    {
        if !quieter(vs[i], best) {
            best = vs[i];
            assert(vs@.subrange(0, i + 1)[i as int] == best);
        } else {
            let ghost w = choose|w: int| 0 <= w < i && vs@.subrange(0, i as int)[w] == best;
            assert(vs@.subrange(0, i + 1)[w] == best);
        }
        i = i + 1;
    }
    assert(vs@.subrange(0, vs@.len() as int) =~= vs@);
    Some(best)
}

/// The value stored under `key` in a dictionary.
pub fn lookup<'a>(es: &'a Vec<(String, MixerValue)>, key: &str) -> (r: Option<&'a MixerValue>)
    ensures
        match r {
            Some(v) => dict_get(es@, key@) == Some(*v),
            None => dict_get(es@, key@) is None,
        },
{
    let mut i: usize = 0;
    assert(es@.skip(0) =~= es@);
    while i < es.len()
        invariant
            i <= es@.len(),
            dict_get(es@, key@) == dict_get(es@.skip(i as int), key@),
        decreases es@.len() - i,
    {
        assert(es@.skip(i as int)[0] == es@[i as int]);
        if same_text(es[i].0.as_str(), key) {
            return Some(&es[i].1);
        }
        assert(es@.skip(i as int).drop_first() =~= es@.skip(i + 1));
        i = i + 1;
    }
    None
}

/// A valid volume held by a value.
pub fn valid_volume(v: Option<&MixerValue>) -> (r: Option<u64>)
    ensures
        r == volume_of(match v {
            Some(x) => Some(*x),
            None => None,
        }),
{
    match v {
        Some(MixerValue::Double(b)) => if is_valid_volume(*b) {
            Some(*b)
        } else {
            None
        },
        _ => None,
    }
}

/// The volume of one entry of `channelVolumes`.
fn read_entry_volume(e: &MixerValue) -> (r: Option<u64>)
    ensures
        r == entry_volume(*e),
{
    match e {
        MixerValue::Dict(inner) => valid_volume(lookup(inner, "volume")),
        _ => None,
    }
}

/// Distinct indices below `n`, `n` of them, take every index below `n`.
proof fn lemma_distinct_indices_cover(seen: Seq<int>, n: int)
    requires
        seen.len() == n,
        seen.no_duplicates(),
        forall|l: int| 0 <= l < seen.len() ==> 0 <= #[trigger] seen[l] < n,
    ensures
        forall|j: int| 0 <= j < n ==> seen.contains(j),
{
    broadcast use vstd::seq_lib::group_seq_properties;

    seen.unique_seq_to_set();
    vstd::set_lib::lemma_int_range(0, n);
    let range = vstd::set_lib::set_int_range(0, n);
    assert(seen.to_set().subset_of(range)) by {
        assert forall|x: int| seen.to_set().contains(x) implies range.contains(x) by {
            let l = choose|l: int| 0 <= l < seen.len() && seen[l] == x;
        }
    }
    assert forall|j: int| 0 <= j < n implies seen.contains(j) by {
        if !seen.contains(j) {
            seen.to_set().lemma_subset_not_in_lt(range, j);
        }
    }
}

/// Reads `channelVolumes`: the volume of each channel in channel order, or
/// `None` when the value is not a dictionary, the dictionary is empty, a key
/// is not the index of a channel, two keys name the same channel, or an
/// entry holds no valid volume.
pub fn parse_channel_volumes(value: &MixerValue) -> (r: Option<Vec<u64>>)
    ensures
        match r {
            Some(v) => channel_volumes_in(Some(*value)) == Some(v@),
            None => channel_volumes_in(Some(*value)) is None,
        },
{
    match value {
        MixerValue::Dict(es) => parse_channel_entries(es),
        _ => None,
    }
}

/// Reads the entries of `channelVolumes`.
fn parse_channel_entries(es: &Vec<(String, MixerValue)>) -> (r: Option<Vec<u64>>)
    ensures
        match r {
            Some(v) => channel_volumes_of(es@) == Some(v@),
            None => channel_volumes_of(es@) is None,
        },
{
    let n = es.len();
    if n == 0 {
        return None;
    }
    let mut slots: Vec<Option<u64>> = Vec::new();
    while slots.len() < n
        invariant
            slots@.len() <= n,
            forall|j: int| 0 <= j < slots@.len() ==> #[trigger] slots@[j] is None,
        decreases n - slots@.len(),
    {
        slots.push(None);
    }
    let ghost mut seen: Seq<int> = Seq::empty();
    let mut k: usize = 0;
    while k < n
        invariant
            n == es@.len(),
            n > 0,
            k <= n,
            slots@.len() == n,
            seen.len() == k,
            seen.no_duplicates(),
            forall|l: int|
                0 <= l < k ==> {
                    &&& entry_index(#[trigger] es@[l]) == Some(seen[l] as nat)
                    &&& 0 <= seen[l] < n
                    &&& entry_volume(es@[l].1) is Some
                    &&& slots@[seen[l]] == entry_volume(es@[l].1)
                },
            forall|j: int| 0 <= j < n ==> (#[trigger] slots@[j] is Some <==> seen.contains(j)),
        decreases n - k,
    {
        let p = match parse_usize(es[k].0.as_str()) {
            Some(p) => p,
            None => {
                assert(entry_index(es@[k as int]) is None);
                assert(!channels_ok(es@));
                return None;
            },
        };
        if p >= n {
            assert(entry_index(es@[k as int]) == Some(p as nat));
            assert(!channels_ok(es@));
            return None;
        }
        let vol = match read_entry_volume(&es[k].1) {
            Some(vol) => vol,
            None => {
                assert(entry_volume(es@[k as int].1) is None);
                return None;
            },
        };
        if slots[p].is_some() {
            proof {
                let l = choose|l: int| 0 <= l < seen.len() && seen[l] == p as int;
                assert(entry_index(es@[l]) == entry_index(es@[k as int]));
            }
            return None;
        }
        slots.set(p, Some(vol));
        proof {
            assert(!seen.contains(p as int));
            let old_seen = seen;
            seen = seen.push(p as int);
            assert forall|j: int| 0 <= j < n implies (#[trigger] slots@[j] is Some <==> seen.contains(j)) by {
                if j == p {
                    assert(seen[k as int] == j);
                } else {
                    if old_seen.contains(j) {
                        let w = choose|w: int| 0 <= w < old_seen.len() && old_seen[w] == j;
                        assert(seen[w] == j);
                    }
                    if seen.contains(j) {
                        let w = choose|w: int| 0 <= w < seen.len() && seen[w] == j;
                        assert(old_seen[w] == j);
                    }
                }
            }
            assert forall|a: int, b: int| 0 <= a < b < seen.len() implies seen[a] != seen[b] by {
                if b == k {
                    assert(old_seen.contains(seen[a]));
                }
            }
        }
        k = k + 1;
    }
    proof {
        assert forall|l: int| 0 <= l < seen.len() implies 0 <= #[trigger] seen[l] < n by {
            assert(entry_index(es@[l]) == Some(seen[l] as nat));
        }
        lemma_distinct_indices_cover(seen, n as int);
    }
    let mut out: Vec<u64> = Vec::new();
    let mut j: usize = 0;
    while j < n
        invariant
            n == es@.len(),
            j <= n,
            slots@.len() == n,
            out@.len() == j,
            seen.len() == n,
            seen.no_duplicates(),
            forall|l: int|
                0 <= l < n ==> {
                    &&& entry_index(#[trigger] es@[l]) == Some(seen[l] as nat)
                    &&& 0 <= seen[l] < n
                    &&& entry_volume(es@[l].1) is Some
                    &&& slots@[seen[l]] == entry_volume(es@[l].1)
                },
            forall|j2: int| 0 <= j2 < n ==> seen.contains(j2),
            forall|j2: int| 0 <= j2 < n ==> (#[trigger] slots@[j2]) is Some,
            forall|j2: int| 0 <= j2 < j ==> slots@[j2] == Some(#[trigger] out@[j2]),
        decreases n - j,
    {
        let v = match slots[j] {
            Some(v) => v,
            None => 0,
        };
        out.push(v);
        j = j + 1;
    }
    proof {
        let es_s = es@;
        assert forall|a: int, b: int|
            0 <= a < es_s.len() && 0 <= b < es_s.len() && a != b implies #[trigger] entry_index(es_s[a])
            != #[trigger] entry_index(es_s[b]) by {
            if a < b {
                assert(seen[a] != seen[b]);
            } else {
                assert(seen[b] != seen[a]);
            }
        }
        assert(channels_ok(es_s));
        assert forall|j2: int| 0 <= j2 < n implies out@[j2] == entry_volume(
            es_s[entry_for_channel(es_s, j2)].1,
        )->0 by {
            assert(seen.contains(j2));
            let w = choose|w: int| 0 <= w < seen.len() && seen[w] == j2;
            assert(entry_index(es_s[w]) == Some(j2 as nat));
            let c = entry_for_channel(es_s, j2);
            assert(entry_index(es_s[c]) == Some(j2 as nat));
            if c != w {
                assert(entry_index(es_s[c]) != entry_index(es_s[w]));
            }
        }
        assert(out@ =~= Seq::new(es_s.len(), |j2: int| entry_volume(es_s[entry_for_channel(es_s, j2)].1)->0));
    }
    Some(out)
}

/// Reads the volume state of a node from the mixer's reply: the channel
/// volumes, the overall volume (the loudest channel when there are channel
/// volumes, else the reply's own `volume`) and the mute switch. What is
/// missing or malformed is left unset.
pub fn parse_mixer_volume_state(map: &Vec<(String, MixerValue)>) -> (r: MixerVolumeState)
    ensures
        match r.channel_volumes {
            Some(v) => channel_volumes_in(dict_get(map@, "channelVolumes"@)) == Some(v@),
            None => channel_volumes_in(dict_get(map@, "channelVolumes"@)) is None,
        },
        match r.channel_volumes {
            Some(v) => r.volume matches Some(x) && is_loudest(x, v@),
            None => r.volume == volume_of(dict_get(map@, "volume"@)),
        },
        r.mute == mute_in(dict_get(map@, "mute"@)),
{
    let channel_volumes = match lookup(map, "channelVolumes") {
        Some(v) => parse_channel_volumes(v),
        None => None,
    };
    let volume = match &channel_volumes {
        Some(v) => loudest(v),
        None => valid_volume(lookup(map, "volume")),
    };
    let mute = match lookup(map, "mute") {
        Some(MixerValue::Bool(b)) => Some(*b),
        _ => None,
    };
    MixerVolumeState { channel_volumes, volume, mute }
}

/// The `channelVolumes` dictionary sent for some channel volumes: each
/// channel under its decimal index, with its volume and, when known, its
/// name. `None` when there are no channels.
pub fn channel_volumes_to_variant(volumes: &Vec<u64>, names: Option<&Vec<Option<String>>>) -> (r: Option<MixerValue>)
    ensures
        volumes@.len() == 0 <==> r is None,
        r matches Some(v) ==> v matches MixerValue::Dict(es) && encodes_channel_volumes(
            es@,
            volumes@,
            match names {
                Some(ns) => Some(ns@),
                None => None,
            },
        ),
{
    if volumes.len() == 0 {
        return None;
    }
    let ghost gnames = match names {
        Some(ns) => Some(ns@),
        None => None,
    };
    let mut es: Vec<(String, MixerValue)> = Vec::new();
    let mut i: usize = 0;
    while i < volumes.len()
        invariant
            i <= volumes@.len(),
            es@.len() == i,
            gnames == match names {
                Some(ns) => Some(ns@),
                None => None,
            },
            forall|k: int| 0 <= k < i ==> encodes_channel(#[trigger] es@[k], k, volumes@[k], channel_name(gnames, k)),
        decreases volumes@.len() - i,
    {
        let mut inner: Vec<(String, MixerValue)> = Vec::new();
        inner.push((String::from_str("volume"), MixerValue::Double(volumes[i])));
        let name: Option<String> = match names {
            Some(ns) => if i < ns.len() {
                match &ns[i] {
                    Some(n) => Some(n.clone()),
                    None => None,
                }
            } else {
                None
            },
            None => None,
        };
        assert(name == channel_name(gnames, i as int));
        match name {
            Some(n) => {
                inner.push((String::from_str("channel"), MixerValue::Str(n)));
            },
            None => {},
        }
        es.push((usize_to_decimal(i), MixerValue::Dict(inner)));
        assert(encodes_channel(es@[i as int], i as int, volumes@[i as int], channel_name(gnames, i as int)));
        i = i + 1;
    }
    Some(MixerValue::Dict(es))
}

/// The property updates that applying a mixer state performs: the channel
/// volumes, then the volume, then the mute switch, each when it is set.
pub fn mixer_updates(state: MixerVolumeState) -> (r: Vec<MixerUpdate>)
    ensures
        r@.len() == (if state.channel_volumes is Some { 1int } else { 0 }) + (if state.volume is Some {
            1int
        } else {
            0
        }) + (if state.mute is Some { 1int } else { 0 }),
        state.channel_volumes matches Some(c) ==> r@[0]@ == MixerUpdateView::ChannelVolumes(c@),
        state.volume matches Some(x) ==> exists|i: int|
            0 <= i < r@.len() && #[trigger] r@[i]@ == MixerUpdateView::Volume(x),
        state.mute matches Some(m) ==> r@.last()@ == MixerUpdateView::Mute(m),
        forall|i: int|
            0 <= i < r@.len() ==> match #[trigger] r@[i]@ {
                MixerUpdateView::ChannelVolumes(c) => state.channel_volumes matches Some(v) && v@ == c,
                MixerUpdateView::Volume(x) => state.volume == Some(x),
                MixerUpdateView::Mute(m) => state.mute == Some(m),
            },
        r@.map_values(|u: MixerUpdate| u@) == updates_of(
            match state.channel_volumes {
                Some(v) => Some(v@),
                None => None,
            },
            state.volume,
            state.mute,
        ),
{
    let ghost cv = match &state.channel_volumes {
        Some(v) => Some(v@),
        None => None,
    };
    let mut r: Vec<MixerUpdate> = Vec::new();
    match state.channel_volumes {
        Some(v) => {
            r.push(MixerUpdate::ChannelVolumes(v));
        },
        None => {},
    }
    match state.volume {
        Some(x) => {
            r.push(MixerUpdate::Volume(x));
        },
        None => {},
    }
    match state.mute {
        Some(m) => {
            r.push(MixerUpdate::Mute(m));
        },
        None => {},
    }
    assert(r@.map_values(|u: MixerUpdate| u@) =~= updates_of(cv, state.volume, state.mute));
    proof {
        lemma_updates_apply_what_is_set(cv, state.volume, state.mute);
        let u = updates_of(cv, state.volume, state.mute);
        assert forall|i: int| 0 <= i < r@.len() implies #[trigger] r@[i]@ == u[i] by {
            assert(r@.map_values(|u: MixerUpdate| u@)[i] == r@[i]@);
        }
        if let Some(x) = state.volume {
            let i = choose|i: int| 0 <= i < u.len() && #[trigger] u[i] == MixerUpdateView::Volume(x);
            assert(r@[i]@ == MixerUpdateView::Volume(x));
        }
        if state.mute is Some {
            assert(r@.last()@ == u[r@.len() - 1]);
        }
    }
    r
}

/// Law: applying a mixer state updates each property that the state sets,
/// whether or not the others are set, and nothing else: the channel volumes
/// first, the volume after them, the mute switch last.
pub proof fn lemma_updates_apply_what_is_set(cv: Option<Seq<u64>>, volume: Option<u64>, mute: Option<bool>)
    ensures
        ({
            let u = updates_of(cv, volume, mute);
            &&& u.len() == (if cv is Some { 1int } else { 0 }) + (if volume is Some { 1int } else { 0 }) + (
            if mute is Some { 1int } else { 0 })
            &&& cv matches Some(c) ==> u[0] == MixerUpdateView::ChannelVolumes(c)
            &&& volume matches Some(x) ==> u[if cv is Some { 1int } else { 0 }] == MixerUpdateView::Volume(x)
            &&& volume matches Some(x) ==> exists|i: int| 0 <= i < u.len() && #[trigger] u[i] == MixerUpdateView::Volume(x)
            &&& mute matches Some(m) ==> u.last() == MixerUpdateView::Mute(m)
            &&& forall|i: int|
                0 <= i < u.len() ==> match #[trigger] u[i] {
                    MixerUpdateView::ChannelVolumes(c) => cv == Some(c),
                    MixerUpdateView::Volume(x) => volume == Some(x),
                    MixerUpdateView::Mute(m) => mute == Some(m),
                }
        }),
{
    let u = updates_of(cv, volume, mute);
    if let Some(x) = volume {
        let i: int = if cv is Some { 1 } else { 0 };
        assert(u[i] == MixerUpdateView::Volume(x));
    }
}

/// What a change of a node's volume property sends to the mixer, given how
/// many channel volumes the node has.
pub fn volume_payload(what: VolumeChange, channel_count: usize) -> (r: VolumePayload)
    ensures
        what is Mute ==> r is Mute,
        what is Volume ==> (if channel_count > 0 {
            r is ScaledChannelVolumes
        } else {
            r is Volume
        }),
        what is ChannelVolumes ==> (if channel_count > 0 {
            r is ChannelVolumes
        } else {
            r is Nothing
        }),
{
    match what {
        VolumeChange::Mute => VolumePayload::Mute,
        VolumeChange::Volume => if channel_count > 0 {
            VolumePayload::ScaledChannelVolumes
        } else {
            VolumePayload::Volume
        },
        VolumeChange::ChannelVolumes => if channel_count > 0 {
            VolumePayload::ChannelVolumes
        } else {
            VolumePayload::Nothing
        },
    }
}

/// Law: the `channelVolumes` dictionary sent for valid volumes reads back as
/// the same volumes, whatever channel names go with them.
pub proof fn lemma_channel_volumes_round_trip(
    es: Seq<(String, MixerValue)>,
    volumes: Seq<u64>,
    names: Option<Seq<Option<String>>>,
)
    requires
        volumes.len() > 0,
        volumes.len() <= usize::MAX,
        forall|i: int| 0 <= i < volumes.len() ==> valid_volume_bits(#[trigger] volumes[i]),
        encodes_channel_volumes(es, volumes, names),
    ensures
        channel_volumes_of(es) == Some(volumes),
{
    assert forall|k: int| 0 <= k < es.len() implies entry_index(#[trigger] es[k]) == Some(k as nat)
        && entry_volume(es[k].1) == Some(volumes[k]) by {
        assert(encodes_channel(es[k], k, volumes[k], channel_name(names, k)));
        crate::text::lemma_parse_decimal_text(k as nat);
        if let MixerValue::Dict(inner) = es[k].1 {
            assert(dict_get(inner@, "volume"@) == Some(inner@[0].1));
        }
    }
    assert(channels_ok(es));
    assert forall|j: int| 0 <= j < es.len() implies entry_volume(es[entry_for_channel(es, j)].1)->0
        == volumes[j] by {
        assert(entry_index(es[j]) == Some(j as nat));
        let c = entry_for_channel(es, j);
        assert(entry_index(es[c]) == Some(c as nat));
    }
    assert(Seq::new(es.len(), |j: int| entry_volume(es[entry_for_channel(es, j)].1)->0) =~= volumes);
}

} // verus!
