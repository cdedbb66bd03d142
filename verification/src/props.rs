//! The `Props` parameter of a node as a list of SPA object properties:
//! which properties carry the volume, the mute switch and the channel
//! volumes, read from a received object and written into a sent one.
//! A float travels as its bit pattern.
use vstd::prelude::*;

verus! {

/// The key of the channel volumes property of `Props`.
pub const PROPS_KEY_CHANNEL_VOLUMES: u32 = 65544;

/// The key of the volume property of `Props`.
pub const PROPS_KEY_VOLUME: u32 = 65539;

/// The key of the mute property of `Props`.
pub const PROPS_KEY_MUTE: u32 = 65540;

/// The SPA object type of `Props`.
pub const OBJECT_TYPE_PROPS: u32 = 262146;

/// The SPA parameter id of `Props`.
pub const OBJECT_ID_PROPS: u32 = 2;

/// The value of a property, as far as `Props` is read.
#[derive(Debug, PartialEq, Eq)]
pub enum PodValue {
    /// A float, by its bit pattern.
    Float(u32),
    Bool(bool),
    /// An array of floats, by their bit patterns.
    FloatArray(Vec<u32>),
    /// A value of any other type.
    Other,
}

/// A property of an object: its key and value.
#[derive(Debug, PartialEq, Eq)]
pub struct PodProperty {
    pub key: u32,
    pub value: PodValue,
}

/// The volume, mute switch and channel volumes of a node.
#[derive(Debug, PartialEq, Eq)]
pub struct FormatProps {
    pub volume: Option<u32>,
    pub mute: Option<bool>,
    pub channel_volumes: Option<Vec<u32>>,
}

/// The value of the last volume property that holds a float.
pub open spec fn last_volume(ps: Seq<PodProperty>) -> Option<u32>
    decreases ps.len(),
{
    if ps.len() == 0 {
        None
    } else if ps.last().key == PROPS_KEY_VOLUME && ps.last().value is Float {
        Some(ps.last().value->Float_0)
    } else {
        last_volume(ps.drop_last())
    }
}

/// The value of the last mute property that holds a boolean.
pub open spec fn last_mute(ps: Seq<PodProperty>) -> Option<bool>
    decreases ps.len(),
{
    if ps.len() == 0 {
        None
    } else if ps.last().key == PROPS_KEY_MUTE && ps.last().value is Bool {
        Some(ps.last().value->Bool_0)
    } else {
        last_mute(ps.drop_last())
    }
}

/// The value of the last channel volumes property that holds an array of
/// floats.
pub open spec fn last_channel_volumes(ps: Seq<PodProperty>) -> Option<Seq<u32>>
    decreases ps.len(),
{
    if ps.len() == 0 {
        None
    } else if ps.last().key == PROPS_KEY_CHANNEL_VOLUMES && ps.last().value is FloatArray {
        Some(ps.last().value->FloatArray_0@)
    } else {
        last_channel_volumes(ps.drop_last())
    }
}

/// Law: the volume read is that of the last volume property holding a
/// float; there is none exactly when no such property is present.
pub proof fn lemma_last_volume_is_last(ps: Seq<PodProperty>)
    ensures
        match last_volume(ps) {
            Some(v) => exists|k: int|
                0 <= k < ps.len() && (#[trigger] ps[k]).key == PROPS_KEY_VOLUME && ps[k].value is Float && ps[k].value->Float_0 == v
                    && forall|l: int| k < l < ps.len() ==> !(ps[l].key == PROPS_KEY_VOLUME && ps[l].value is Float),
            None => forall|k: int| 0 <= k < ps.len() ==> !((#[trigger] ps[k]).key == PROPS_KEY_VOLUME && ps[k].value is Float),
        },
    decreases ps.len(),
{
    if ps.len() > 0 {
        let init = ps.drop_last();
        lemma_last_volume_is_last(init);
        assert forall|k: int| 0 <= k < init.len() implies #[trigger] init[k] == ps[k] by {}
        let n = ps.len() - 1;
        if !(ps[n].key == PROPS_KEY_VOLUME && ps[n].value is Float) {
            match last_volume(init) {
                Some(v) => {
                    let k = choose|k: int|
                        0 <= k < init.len() && (#[trigger] init[k]).key == PROPS_KEY_VOLUME && init[k].value is Float
                            && init[k].value->Float_0 == v && forall|l: int|
                            k < l < init.len() ==> !(init[l].key == PROPS_KEY_VOLUME && init[l].value is Float);
                    assert(ps[k] == init[k]);
                    assert forall|l: int| k < l < ps.len() implies !(ps[l].key == PROPS_KEY_VOLUME && ps[l].value is Float) by {
                        if l < n {
                            assert(ps[l] == init[l]);
                        }
                    }
                },
                None => {
                    assert forall|k: int| 0 <= k < ps.len() implies !((#[trigger] ps[k]).key == PROPS_KEY_VOLUME
                        && ps[k].value is Float) by {
                        if k < n {
                            assert(ps[k] == init[k]);
                        }
                    }
                },
            }
        }
    }
}

/// Law: the mute switch read is that of the last mute property holding a
/// boolean; there is none exactly when no such property is present.
pub proof fn lemma_last_mute_is_last(ps: Seq<PodProperty>)
    ensures
        match last_mute(ps) {
            Some(v) => exists|k: int|
                0 <= k < ps.len() && (#[trigger] ps[k]).key == PROPS_KEY_MUTE && ps[k].value is Bool && ps[k].value->Bool_0 == v
                    && forall|l: int| k < l < ps.len() ==> !(ps[l].key == PROPS_KEY_MUTE && ps[l].value is Bool),
            None => forall|k: int| 0 <= k < ps.len() ==> !((#[trigger] ps[k]).key == PROPS_KEY_MUTE && ps[k].value is Bool),
        },
    decreases ps.len(),
{
    if ps.len() > 0 {
        let init = ps.drop_last();
        lemma_last_mute_is_last(init);
        assert forall|k: int| 0 <= k < init.len() implies #[trigger] init[k] == ps[k] by {}
        let n = ps.len() - 1;
        if !(ps[n].key == PROPS_KEY_MUTE && ps[n].value is Bool) {
            match last_mute(init) {
                Some(v) => {
                    let k = choose|k: int|
                        0 <= k < init.len() && (#[trigger] init[k]).key == PROPS_KEY_MUTE && init[k].value is Bool
                            && init[k].value->Bool_0 == v && forall|l: int|
                            k < l < init.len() ==> !(init[l].key == PROPS_KEY_MUTE && init[l].value is Bool);
                    assert(ps[k] == init[k]);
                    assert forall|l: int| k < l < ps.len() implies !(ps[l].key == PROPS_KEY_MUTE && ps[l].value is Bool) by {
                        if l < n {
                            assert(ps[l] == init[l]);
                        }
                    }
                },
                None => {
                    assert forall|k: int| 0 <= k < ps.len() implies !((#[trigger] ps[k]).key == PROPS_KEY_MUTE
                        && ps[k].value is Bool) by {
                        if k < n {
                            assert(ps[k] == init[k]);
                        }
                    }
                },
            }
        }
    }
}

/// Law: the channel volumes read are those of the last channel volumes
/// property holding a float array; there are none exactly when no such property is present.
pub proof fn lemma_last_channel_volumes_is_last(ps: Seq<PodProperty>)
    ensures
        match last_channel_volumes(ps) {
            Some(v) => exists|k: int|
                0 <= k < ps.len() && (#[trigger] ps[k]).key == PROPS_KEY_CHANNEL_VOLUMES && ps[k].value is FloatArray && ps[k].value->FloatArray_0@ == v
                    && forall|l: int| k < l < ps.len() ==> !(ps[l].key == PROPS_KEY_CHANNEL_VOLUMES && ps[l].value is FloatArray),
            None => forall|k: int| 0 <= k < ps.len() ==> !((#[trigger] ps[k]).key == PROPS_KEY_CHANNEL_VOLUMES && ps[k].value is FloatArray),
        },
    decreases ps.len(),
{
    if ps.len() > 0 {
        let init = ps.drop_last();
        lemma_last_channel_volumes_is_last(init);
        assert forall|k: int| 0 <= k < init.len() implies #[trigger] init[k] == ps[k] by {}
        let n = ps.len() - 1;
        if !(ps[n].key == PROPS_KEY_CHANNEL_VOLUMES && ps[n].value is FloatArray) {
            match last_channel_volumes(init) {
                Some(v) => {
                    let k = choose|k: int|
                        0 <= k < init.len() && (#[trigger] init[k]).key == PROPS_KEY_CHANNEL_VOLUMES && init[k].value is FloatArray
                            && init[k].value->FloatArray_0@ == v && forall|l: int|
                            k < l < init.len() ==> !(init[l].key == PROPS_KEY_CHANNEL_VOLUMES && init[l].value is FloatArray);
                    assert(ps[k] == init[k]);
                    assert forall|l: int| k < l < ps.len() implies !(ps[l].key == PROPS_KEY_CHANNEL_VOLUMES && ps[l].value is FloatArray) by {
                        if l < n {
                            assert(ps[l] == init[l]);
                        }
                    }
                },
                None => {
                    assert forall|k: int| 0 <= k < ps.len() implies !((#[trigger] ps[k]).key == PROPS_KEY_CHANNEL_VOLUMES
                        && ps[k].value is FloatArray) by {
                        if k < n {
                            assert(ps[k] == init[k]);
                        }
                    }
                },
            }
        }
    }
}

/// The properties written for a node's `Props`: the channel volumes, the
/// volume, then the mute switch, each when it is set.
pub open spec fn props_written(ps: Seq<PodProperty>, p: FormatProps) -> bool {
    let n_cv: int = if p.channel_volumes is Some { 1 } else { 0 };
    let n_v: int = if p.volume is Some { 1 } else { 0 };
    let n_m: int = if p.mute is Some { 1 } else { 0 };
    &&& ps.len() == n_cv + n_v + n_m
    &&& p.channel_volumes matches Some(cv) ==> ps[0].key == PROPS_KEY_CHANNEL_VOLUMES && (ps[0].value
        matches PodValue::FloatArray(a) && a@ == cv@)
    &&& p.volume matches Some(v) ==> ps[n_cv].key == PROPS_KEY_VOLUME && ps[n_cv].value == PodValue::Float(v)
    &&& p.mute matches Some(m) ==> ps[n_cv + n_v].key == PROPS_KEY_MUTE && ps[n_cv + n_v].value
        == PodValue::Bool(m)
}

impl FormatProps {
    /// Reads a received `Props` object: for each of the three properties the
    /// last one of the right type counts; other properties are skipped.
    pub fn from_properties(ps: &Vec<PodProperty>) -> (r: FormatProps)
        ensures
            r.volume == last_volume(ps@),
            r.mute == last_mute(ps@),
            match r.channel_volumes {
                Some(cv) => last_channel_volumes(ps@) == Some(cv@),
                None => last_channel_volumes(ps@) is None,
            },
    {
        let mut volume: Option<u32> = None;
        let mut mute: Option<bool> = None;
        let mut channel_volumes: Option<Vec<u32>> = None;
        let mut i: usize = 0;
        while i < ps.len()
            invariant
                i <= ps@.len(),
                volume == last_volume(ps@.subrange(0, i as int)),
                mute == last_mute(ps@.subrange(0, i as int)),
                match channel_volumes {
                    Some(cv) => last_channel_volumes(ps@.subrange(0, i as int)) == Some(cv@),
                    None => last_channel_volumes(ps@.subrange(0, i as int)) is None,
                },
            decreases ps@.len() - i,
        {
            let ghost prefix = ps@.subrange(0, i + 1);
            assert(prefix.drop_last() =~= ps@.subrange(0, i as int));
            assert(prefix.last() == ps@[i as int]);
            let p = &ps[i];
            if p.key == PROPS_KEY_CHANNEL_VOLUMES {
                if let PodValue::FloatArray(a) = &p.value {
                    channel_volumes = Some(a.clone());
                }
            } else if p.key == PROPS_KEY_VOLUME {
                if let PodValue::Float(v) = &p.value {
                    volume = Some(*v);
                }
            } else if p.key == PROPS_KEY_MUTE {
                if let PodValue::Bool(m) = &p.value {
                    mute = Some(*m);
                }
            }
            i = i + 1;
        }
        assert(ps@.subrange(0, ps@.len() as int) =~= ps@);
        FormatProps { volume, mute, channel_volumes }
    }

    /// Writes a `Props` object: the channel volumes, the volume, then the
    /// mute switch, each when it is set.
    pub fn to_properties(&self) -> (r: Vec<PodProperty>)
        ensures
            props_written(r@, *self),
    {
        let mut r: Vec<PodProperty> = Vec::new();
        if let Some(cv) = &self.channel_volumes {
            r.push(PodProperty { key: PROPS_KEY_CHANNEL_VOLUMES, value: PodValue::FloatArray(cv.clone()) });
        }
        if let Some(v) = self.volume {
            r.push(PodProperty { key: PROPS_KEY_VOLUME, value: PodValue::Float(v) });
        }
        if let Some(m) = self.mute {
            r.push(PodProperty { key: PROPS_KEY_MUTE, value: PodValue::Bool(m) });
        }
        r
    }
}

/// Law: the `Props` object written for a node reads back as the same
/// volume, mute switch and channel volumes.
pub proof fn lemma_props_round_trip(ps: Seq<PodProperty>, p: FormatProps)
    requires
        props_written(ps, p),
    ensures
        last_volume(ps) == p.volume,
        last_mute(ps) == p.mute,
        last_channel_volumes(ps) == match p.channel_volumes {
            Some(cv) => Some(cv@),
            None => None,
        },
{
    reveal_with_fuel(last_volume, 4);
    reveal_with_fuel(last_mute, 4);
    reveal_with_fuel(last_channel_volumes, 4);
    if ps.len() >= 1 {
        assert(ps.drop_last().len() + 1 == ps.len());
    }
    if ps.len() >= 2 {
        assert(ps.drop_last().drop_last().len() + 2 == ps.len());
        assert(ps.drop_last().last() == ps[ps.len() - 2]);
    }
    if ps.len() == 3 {
        assert(ps.drop_last().drop_last().last() == ps[0]);
        assert(ps.drop_last().drop_last().drop_last().len() == 0);
    }
    if ps.len() == 2 {
        assert(ps.drop_last().drop_last().len() == 0);
    }
    if ps.len() == 1 {
        assert(ps.drop_last().len() == 0);
    }
}

} // verus!
