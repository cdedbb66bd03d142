//! Audio formats: the names of SPA sample formats, the format a node
//! reports, and its short description.
use vstd::prelude::*;
use crate::text::{decimal_text, parsed_usize, usize_to_decimal};

verus! {

/// The SPA code of the audio sample format `UNKNOWN`.
pub const SPA_AUDIO_FORMAT_UNKNOWN: u32 = 0;
/// The SPA code of the audio sample format `ENCODED`.
pub const SPA_AUDIO_FORMAT_ENCODED: u32 = 1;
/// The SPA code of the audio sample format `S8`.
pub const SPA_AUDIO_FORMAT_S8: u32 = 0x101;
/// The SPA code of the audio sample format `U8`.
pub const SPA_AUDIO_FORMAT_U8: u32 = 0x102;
/// The SPA code of the audio sample format `S16_LE`.
pub const SPA_AUDIO_FORMAT_S16_LE: u32 = 0x103;
/// The SPA code of the audio sample format `S16_BE`.
pub const SPA_AUDIO_FORMAT_S16_BE: u32 = 0x104;
/// The SPA code of the audio sample format `U16_LE`.
pub const SPA_AUDIO_FORMAT_U16_LE: u32 = 0x105;
/// The SPA code of the audio sample format `U16_BE`.
pub const SPA_AUDIO_FORMAT_U16_BE: u32 = 0x106;
/// The SPA code of the audio sample format `S24_32_LE`.
pub const SPA_AUDIO_FORMAT_S24_32_LE: u32 = 0x107;
/// The SPA code of the audio sample format `S24_32_BE`.
pub const SPA_AUDIO_FORMAT_S24_32_BE: u32 = 0x108;
/// The SPA code of the audio sample format `U24_32_LE`.
pub const SPA_AUDIO_FORMAT_U24_32_LE: u32 = 0x109;
/// The SPA code of the audio sample format `U24_32_BE`.
pub const SPA_AUDIO_FORMAT_U24_32_BE: u32 = 0x10a;
/// The SPA code of the audio sample format `S32_LE`.
pub const SPA_AUDIO_FORMAT_S32_LE: u32 = 0x10b;
/// The SPA code of the audio sample format `S32_BE`.
pub const SPA_AUDIO_FORMAT_S32_BE: u32 = 0x10c;
/// The SPA code of the audio sample format `U32_LE`.
pub const SPA_AUDIO_FORMAT_U32_LE: u32 = 0x10d;
/// The SPA code of the audio sample format `U32_BE`.
pub const SPA_AUDIO_FORMAT_U32_BE: u32 = 0x10e;
/// The SPA code of the audio sample format `S24_LE`.
pub const SPA_AUDIO_FORMAT_S24_LE: u32 = 0x10f;
/// The SPA code of the audio sample format `S24_BE`.
pub const SPA_AUDIO_FORMAT_S24_BE: u32 = 0x110;
/// The SPA code of the audio sample format `U24_LE`.
pub const SPA_AUDIO_FORMAT_U24_LE: u32 = 0x111;
/// The SPA code of the audio sample format `U24_BE`.
pub const SPA_AUDIO_FORMAT_U24_BE: u32 = 0x112;
/// The SPA code of the audio sample format `S20_LE`.
pub const SPA_AUDIO_FORMAT_S20_LE: u32 = 0x113;
/// The SPA code of the audio sample format `S20_BE`.
pub const SPA_AUDIO_FORMAT_S20_BE: u32 = 0x114;
/// The SPA code of the audio sample format `U20_LE`.
pub const SPA_AUDIO_FORMAT_U20_LE: u32 = 0x115;
/// The SPA code of the audio sample format `U20_BE`.
pub const SPA_AUDIO_FORMAT_U20_BE: u32 = 0x116;
/// The SPA code of the audio sample format `S18_LE`.
pub const SPA_AUDIO_FORMAT_S18_LE: u32 = 0x117;
/// The SPA code of the audio sample format `S18_BE`.
pub const SPA_AUDIO_FORMAT_S18_BE: u32 = 0x118;
/// The SPA code of the audio sample format `U18_LE`.
pub const SPA_AUDIO_FORMAT_U18_LE: u32 = 0x119;
/// The SPA code of the audio sample format `U18_BE`.
pub const SPA_AUDIO_FORMAT_U18_BE: u32 = 0x11a;
/// The SPA code of the audio sample format `F32_LE`.
pub const SPA_AUDIO_FORMAT_F32_LE: u32 = 0x11b;
/// The SPA code of the audio sample format `F32_BE`.
pub const SPA_AUDIO_FORMAT_F32_BE: u32 = 0x11c;
/// The SPA code of the audio sample format `F64_LE`.
pub const SPA_AUDIO_FORMAT_F64_LE: u32 = 0x11d;
/// The SPA code of the audio sample format `F64_BE`.
pub const SPA_AUDIO_FORMAT_F64_BE: u32 = 0x11e;
/// The SPA code of the audio sample format `ULAW`.
pub const SPA_AUDIO_FORMAT_ULAW: u32 = 0x11f;
/// The SPA code of the audio sample format `ALAW`.
pub const SPA_AUDIO_FORMAT_ALAW: u32 = 0x120;
/// The SPA code of the audio sample format `U8P`.
pub const SPA_AUDIO_FORMAT_U8P: u32 = 0x201;
/// The SPA code of the audio sample format `S16P`.
pub const SPA_AUDIO_FORMAT_S16P: u32 = 0x202;
/// The SPA code of the audio sample format `S24_32P`.
pub const SPA_AUDIO_FORMAT_S24_32P: u32 = 0x203;
/// The SPA code of the audio sample format `S32P`.
pub const SPA_AUDIO_FORMAT_S32P: u32 = 0x204;
/// The SPA code of the audio sample format `S24P`.
pub const SPA_AUDIO_FORMAT_S24P: u32 = 0x205;
/// The SPA code of the audio sample format `F32P`.
pub const SPA_AUDIO_FORMAT_F32P: u32 = 0x206;
/// The SPA code of the audio sample format `F64P`.
pub const SPA_AUDIO_FORMAT_F64P: u32 = 0x207;
/// The SPA code of the audio sample format `S8P`.
pub const SPA_AUDIO_FORMAT_S8P: u32 = 0x208;

/// The name of an SPA sample format; `UNKNOWN` for a code without one.
pub open spec fn format_name_text(code: u32) -> Seq<char> {
    if code == SPA_AUDIO_FORMAT_UNKNOWN {
        "UNKNOWN"@
    } else if code == SPA_AUDIO_FORMAT_ENCODED {
        "ENCODED"@
    } else if code == SPA_AUDIO_FORMAT_S8 {
        "S8"@
    } else if code == SPA_AUDIO_FORMAT_U8 {
        "U8"@
    } else if code == SPA_AUDIO_FORMAT_S16_LE {
        "S16_LE"@
    } else if code == SPA_AUDIO_FORMAT_S16_BE {
        "S16_BE"@
    } else if code == SPA_AUDIO_FORMAT_U16_LE {
        "U16_LE"@
    } else if code == SPA_AUDIO_FORMAT_U16_BE {
        "U16_BE"@
    } else if code == SPA_AUDIO_FORMAT_S24_32_LE {
        "S24_32_LE"@
    } else if code == SPA_AUDIO_FORMAT_S24_32_BE {
        "S24_32_BE"@
    } else if code == SPA_AUDIO_FORMAT_U24_32_LE {
        "U24_32_LE"@
    } else if code == SPA_AUDIO_FORMAT_U24_32_BE {
        "U24_32_BE"@
    } else if code == SPA_AUDIO_FORMAT_S32_LE {
        "S32_LE"@
    } else if code == SPA_AUDIO_FORMAT_S32_BE {
        "S32_BE"@
    } else if code == SPA_AUDIO_FORMAT_U32_LE {
        "U32_LE"@
    } else if code == SPA_AUDIO_FORMAT_U32_BE {
        "U32_BE"@
    } else if code == SPA_AUDIO_FORMAT_S24_LE {
        "S24_LE"@
    } else if code == SPA_AUDIO_FORMAT_S24_BE {
        "S24_BE"@
    } else if code == SPA_AUDIO_FORMAT_U24_LE {
        "U24_LE"@
    } else if code == SPA_AUDIO_FORMAT_U24_BE {
        "U24_BE"@
    } else if code == SPA_AUDIO_FORMAT_S20_LE {
        "S20_LE"@
    } else if code == SPA_AUDIO_FORMAT_S20_BE {
        "S20_BE"@
    } else if code == SPA_AUDIO_FORMAT_U20_LE {
        "U20_LE"@
    } else if code == SPA_AUDIO_FORMAT_U20_BE {
        "U20_BE"@
    } else if code == SPA_AUDIO_FORMAT_S18_LE {
        "S18_LE"@
    } else if code == SPA_AUDIO_FORMAT_S18_BE {
        "S18_BE"@
    } else if code == SPA_AUDIO_FORMAT_U18_LE {
        "U18_LE"@
    } else if code == SPA_AUDIO_FORMAT_U18_BE {
        "U18_BE"@
    } else if code == SPA_AUDIO_FORMAT_F32_LE {
        "F32_LE"@
    } else if code == SPA_AUDIO_FORMAT_F32_BE {
        "F32_BE"@
    } else if code == SPA_AUDIO_FORMAT_F64_LE {
        "F64_LE"@
    } else if code == SPA_AUDIO_FORMAT_F64_BE {
        "F64_BE"@
    } else if code == SPA_AUDIO_FORMAT_ULAW {
        "ULAW"@
    } else if code == SPA_AUDIO_FORMAT_ALAW {
        "ALAW"@
    } else if code == SPA_AUDIO_FORMAT_U8P {
        "U8P"@
    } else if code == SPA_AUDIO_FORMAT_S16P {
        "S16P"@
    } else if code == SPA_AUDIO_FORMAT_S24_32P {
        "S24_32P"@
    } else if code == SPA_AUDIO_FORMAT_S32P {
        "S32P"@
    } else if code == SPA_AUDIO_FORMAT_S24P {
        "S24P"@
    } else if code == SPA_AUDIO_FORMAT_F32P {
        "F32P"@
    } else if code == SPA_AUDIO_FORMAT_F64P {
        "F64P"@
    } else if code == SPA_AUDIO_FORMAT_S8P {
        "S8P"@
    } else {
        "UNKNOWN"@
    }
}

/// The name of an SPA sample format, as `format_to_string` gives it.
pub fn format_to_string(format: u32) -> (r: &'static str)
    ensures
        r@ == format_name_text(format),
        format == SPA_AUDIO_FORMAT_UNKNOWN ==> r@ == "UNKNOWN"@,
        format == SPA_AUDIO_FORMAT_ENCODED ==> r@ == "ENCODED"@,
        format == SPA_AUDIO_FORMAT_S8 ==> r@ == "S8"@,
        format == SPA_AUDIO_FORMAT_U8 ==> r@ == "U8"@,
        format == SPA_AUDIO_FORMAT_S16_LE ==> r@ == "S16_LE"@,
        format == SPA_AUDIO_FORMAT_S16_BE ==> r@ == "S16_BE"@,
        format == SPA_AUDIO_FORMAT_U16_LE ==> r@ == "U16_LE"@,
        format == SPA_AUDIO_FORMAT_U16_BE ==> r@ == "U16_BE"@,
        format == SPA_AUDIO_FORMAT_S24_32_LE ==> r@ == "S24_32_LE"@,
        format == SPA_AUDIO_FORMAT_S24_32_BE ==> r@ == "S24_32_BE"@,
        format == SPA_AUDIO_FORMAT_U24_32_LE ==> r@ == "U24_32_LE"@,
        format == SPA_AUDIO_FORMAT_U24_32_BE ==> r@ == "U24_32_BE"@,
        format == SPA_AUDIO_FORMAT_S32_LE ==> r@ == "S32_LE"@,
        format == SPA_AUDIO_FORMAT_S32_BE ==> r@ == "S32_BE"@,
        format == SPA_AUDIO_FORMAT_U32_LE ==> r@ == "U32_LE"@,
        format == SPA_AUDIO_FORMAT_U32_BE ==> r@ == "U32_BE"@,
        format == SPA_AUDIO_FORMAT_S24_LE ==> r@ == "S24_LE"@,
        format == SPA_AUDIO_FORMAT_S24_BE ==> r@ == "S24_BE"@,
        format == SPA_AUDIO_FORMAT_U24_LE ==> r@ == "U24_LE"@,
        format == SPA_AUDIO_FORMAT_U24_BE ==> r@ == "U24_BE"@,
        format == SPA_AUDIO_FORMAT_S20_LE ==> r@ == "S20_LE"@,
        format == SPA_AUDIO_FORMAT_S20_BE ==> r@ == "S20_BE"@,
        format == SPA_AUDIO_FORMAT_U20_LE ==> r@ == "U20_LE"@,
        format == SPA_AUDIO_FORMAT_U20_BE ==> r@ == "U20_BE"@,
        format == SPA_AUDIO_FORMAT_S18_LE ==> r@ == "S18_LE"@,
        format == SPA_AUDIO_FORMAT_S18_BE ==> r@ == "S18_BE"@,
        format == SPA_AUDIO_FORMAT_U18_LE ==> r@ == "U18_LE"@,
        format == SPA_AUDIO_FORMAT_U18_BE ==> r@ == "U18_BE"@,
        format == SPA_AUDIO_FORMAT_F32_LE ==> r@ == "F32_LE"@,
        format == SPA_AUDIO_FORMAT_F32_BE ==> r@ == "F32_BE"@,
        format == SPA_AUDIO_FORMAT_F64_LE ==> r@ == "F64_LE"@,
        format == SPA_AUDIO_FORMAT_F64_BE ==> r@ == "F64_BE"@,
        format == SPA_AUDIO_FORMAT_ULAW ==> r@ == "ULAW"@,
        format == SPA_AUDIO_FORMAT_ALAW ==> r@ == "ALAW"@,
        format == SPA_AUDIO_FORMAT_U8P ==> r@ == "U8P"@,
        format == SPA_AUDIO_FORMAT_S16P ==> r@ == "S16P"@,
        format == SPA_AUDIO_FORMAT_S24_32P ==> r@ == "S24_32P"@,
        format == SPA_AUDIO_FORMAT_S32P ==> r@ == "S32P"@,
        format == SPA_AUDIO_FORMAT_S24P ==> r@ == "S24P"@,
        format == SPA_AUDIO_FORMAT_F32P ==> r@ == "F32P"@,
        format == SPA_AUDIO_FORMAT_F64P ==> r@ == "F64P"@,
        format == SPA_AUDIO_FORMAT_S8P ==> r@ == "S8P"@,
{
    match format {
        SPA_AUDIO_FORMAT_UNKNOWN => "UNKNOWN",
        SPA_AUDIO_FORMAT_ENCODED => "ENCODED",
        SPA_AUDIO_FORMAT_S8 => "S8",
        SPA_AUDIO_FORMAT_U8 => "U8",
        SPA_AUDIO_FORMAT_S16_LE => "S16_LE",
        SPA_AUDIO_FORMAT_S16_BE => "S16_BE",
        SPA_AUDIO_FORMAT_U16_LE => "U16_LE",
        SPA_AUDIO_FORMAT_U16_BE => "U16_BE",
        SPA_AUDIO_FORMAT_S24_32_LE => "S24_32_LE",
        SPA_AUDIO_FORMAT_S24_32_BE => "S24_32_BE",
        SPA_AUDIO_FORMAT_U24_32_LE => "U24_32_LE",
        SPA_AUDIO_FORMAT_U24_32_BE => "U24_32_BE",
        SPA_AUDIO_FORMAT_S32_LE => "S32_LE",
        SPA_AUDIO_FORMAT_S32_BE => "S32_BE",
        SPA_AUDIO_FORMAT_U32_LE => "U32_LE",
        SPA_AUDIO_FORMAT_U32_BE => "U32_BE",
        SPA_AUDIO_FORMAT_S24_LE => "S24_LE",
        SPA_AUDIO_FORMAT_S24_BE => "S24_BE",
        SPA_AUDIO_FORMAT_U24_LE => "U24_LE",
        SPA_AUDIO_FORMAT_U24_BE => "U24_BE",
        SPA_AUDIO_FORMAT_S20_LE => "S20_LE",
        SPA_AUDIO_FORMAT_S20_BE => "S20_BE",
        SPA_AUDIO_FORMAT_U20_LE => "U20_LE",
        SPA_AUDIO_FORMAT_U20_BE => "U20_BE",
        SPA_AUDIO_FORMAT_S18_LE => "S18_LE",
        SPA_AUDIO_FORMAT_S18_BE => "S18_BE",
        SPA_AUDIO_FORMAT_U18_LE => "U18_LE",
        SPA_AUDIO_FORMAT_U18_BE => "U18_BE",
        SPA_AUDIO_FORMAT_F32_LE => "F32_LE",
        SPA_AUDIO_FORMAT_F32_BE => "F32_BE",
        SPA_AUDIO_FORMAT_F64_LE => "F64_LE",
        SPA_AUDIO_FORMAT_F64_BE => "F64_BE",
        SPA_AUDIO_FORMAT_ULAW => "ULAW",
        SPA_AUDIO_FORMAT_ALAW => "ALAW",
        SPA_AUDIO_FORMAT_U8P => "U8P",
        SPA_AUDIO_FORMAT_S16P => "S16P",
        SPA_AUDIO_FORMAT_S24_32P => "S24_32P",
        SPA_AUDIO_FORMAT_S32P => "S32P",
        SPA_AUDIO_FORMAT_S24P => "S24P",
        SPA_AUDIO_FORMAT_F32P => "F32P",
        SPA_AUDIO_FORMAT_F64P => "F64P",
        SPA_AUDIO_FORMAT_S8P => "S8P",
        _ => "UNKNOWN",
    }
}

/// Law: each SPA sample format code is named by its own name, and a code
/// that names no sample format reads `UNKNOWN`.
pub proof fn lemma_format_names(code: u32)
    ensures
        format_name_text(0) == "UNKNOWN"@,
        format_name_text(1) == "ENCODED"@,
        format_name_text(0x101) == "S8"@,
        format_name_text(0x102) == "U8"@,
        format_name_text(0x103) == "S16_LE"@,
        format_name_text(0x104) == "S16_BE"@,
        format_name_text(0x105) == "U16_LE"@,
        format_name_text(0x106) == "U16_BE"@,
        format_name_text(0x107) == "S24_32_LE"@,
        format_name_text(0x108) == "S24_32_BE"@,
        format_name_text(0x109) == "U24_32_LE"@,
        format_name_text(0x10a) == "U24_32_BE"@,
        format_name_text(0x10b) == "S32_LE"@,
        format_name_text(0x10c) == "S32_BE"@,
        format_name_text(0x10d) == "U32_LE"@,
        format_name_text(0x10e) == "U32_BE"@,
        format_name_text(0x10f) == "S24_LE"@,
        format_name_text(0x110) == "S24_BE"@,
        format_name_text(0x111) == "U24_LE"@,
        format_name_text(0x112) == "U24_BE"@,
        format_name_text(0x113) == "S20_LE"@,
        format_name_text(0x114) == "S20_BE"@,
        format_name_text(0x115) == "U20_LE"@,
        format_name_text(0x116) == "U20_BE"@,
        format_name_text(0x117) == "S18_LE"@,
        format_name_text(0x118) == "S18_BE"@,
        format_name_text(0x119) == "U18_LE"@,
        format_name_text(0x11a) == "U18_BE"@,
        format_name_text(0x11b) == "F32_LE"@,
        format_name_text(0x11c) == "F32_BE"@,
        format_name_text(0x11d) == "F64_LE"@,
        format_name_text(0x11e) == "F64_BE"@,
        format_name_text(0x11f) == "ULAW"@,
        format_name_text(0x120) == "ALAW"@,
        format_name_text(0x201) == "U8P"@,
        format_name_text(0x202) == "S16P"@,
        format_name_text(0x203) == "S24_32P"@,
        format_name_text(0x204) == "S32P"@,
        format_name_text(0x205) == "S24P"@,
        format_name_text(0x206) == "F32P"@,
        format_name_text(0x207) == "F64P"@,
        format_name_text(0x208) == "S8P"@,
        code != 0 && code != 1 && code != 0x101 && code != 0x102 && code != 0x103 && code != 0x104 && code != 0x105 && code != 0x106 && code != 0x107 && code != 0x108 && code != 0x109 && code != 0x10a && code != 0x10b && code != 0x10c && code != 0x10d && code != 0x10e && code != 0x10f && code != 0x110 && code != 0x111 && code != 0x112 && code != 0x113 && code != 0x114 && code != 0x115 && code != 0x116 && code != 0x117 && code != 0x118 && code != 0x119 && code != 0x11a && code != 0x11b && code != 0x11c && code != 0x11d && code != 0x11e && code != 0x11f && code != 0x120 && code != 0x201 && code != 0x202 && code != 0x203 && code != 0x204 && code != 0x205 && code != 0x206 && code != 0x207 && code != 0x208 ==> format_name_text(code) == "UNKNOWN"@,
{
}

/// The format of a node's audio: channel count, sample format, rate, and
/// the position of each channel, unused positions being zero.
#[derive(Clone, Copy, Debug)]
pub struct AudioFormat {
    pub channels: i32,
    pub format: u32,
    pub rate: i32,
    pub positions: [u32; 64],
}

/// The decimal writing of an integer, with a minus sign when negative.
pub open spec fn signed_decimal_text(n: int) -> Seq<char> {
    if n < 0 {
        seq!['-'] + decimal_text((-n) as nat)
    } else {
        decimal_text(n as nat)
    }
}

/// Writes a signed number in decimal, as `to_string` does.
pub fn i32_to_decimal(n: i32) -> (s: String)
    ensures
        s@ == signed_decimal_text(n as int),
{
    if n < 0 {
        let magnitude: i64 = -(n as i64);
        let mut s = String::from_str("-");
        proof {
            reveal_strlit("-");
        }
        let digits = usize_to_decimal(magnitude as usize);
        s.append(digits.as_str());
        assert(s@ =~= seq!['-'] + decimal_text((-n) as nat));
        s
    } else {
        usize_to_decimal(n as usize)
    }
}

/// The short description of a format: channels, rate and sample format, as
/// in `2ch 48000Hz S16LE`.
pub open spec fn format_description_text(channels: i32, rate: i32, name: Seq<char>) -> Seq<char> {
    signed_decimal_text(channels as int) + "ch "@ + signed_decimal_text(rate as int) + "Hz "@ + name
}

/// Law: the short description of a format is the channel count in
/// decimal, `ch `, the rate in decimal, `Hz `, then the format's
/// name, piece after piece.
pub proof fn lemma_format_description_parts(channels: i32, rate: i32, name: Seq<char>)
    ensures
        ({
            let t = format_description_text(channels, rate, name);
            let c = signed_decimal_text(channels as int);
            let r = signed_decimal_text(rate as int);
            let a: int = c.len() as int;
            let b: int = a + 3 + r.len();
            &&& t.len() == b + 3 + name.len()
            &&& t.subrange(0, a) == c
            &&& t.subrange(a, a + 3) == seq!['c', 'h', ' ']
            &&& t.subrange(a + 3, b) == r
            &&& t.subrange(b, b + 3) == seq!['H', 'z', ' ']
            &&& t.subrange(b + 3, t.len() as int) == name
        }),
{
    reveal_strlit("ch ");
    reveal_strlit("Hz ");
    let t = format_description_text(channels, rate, name);
    let c = signed_decimal_text(channels as int);
    let r = signed_decimal_text(rate as int);
    let a: int = c.len() as int;
    let b: int = a + 3 + r.len();
    assert(t.subrange(0, a) =~= c);
    assert(t.subrange(a, a + 3) =~= seq!['c', 'h', ' ']);
    assert(t.subrange(a + 3, b) =~= r);
    assert(t.subrange(b, b + 3) =~= seq!['H', 'z', ' ']);
    assert(t.subrange(b + 3, t.len() as int) =~= name);
}

/// Law: a number is written with a minus sign exactly when it is negative,
/// followed by the decimal writing of its magnitude, which reads back as
/// that magnitude.
pub proof fn lemma_signed_decimal_text(n: i32)
    ensures
        n < 0 ==> signed_decimal_text(n as int)[0] == '-' && signed_decimal_text(n as int).subrange(
            1,
            signed_decimal_text(n as int).len() as int,
        ) == decimal_text((-n) as nat),
        n >= 0 ==> signed_decimal_text(n as int) == decimal_text(n as nat),
        n < 0 ==> parsed_usize(decimal_text((-n) as nat)) == Some((-n) as nat),
        n >= 0 ==> parsed_usize(decimal_text(n as nat)) == Some(n as nat),
{
    let m: nat = if n < 0 { (-n) as nat } else { n as nat };
    crate::text::lemma_parse_decimal_text(m);
    if n < 0 {
        assert(signed_decimal_text(n as int).subrange(1, signed_decimal_text(n as int).len() as int) =~= decimal_text(m));
    }
}

/// Builds the short description of a format.
pub fn format_description(channels: i32, rate: i32, format_name: &str) -> (r: String)
    ensures
        r@ == format_description_text(channels, rate, format_name@),
{
    let mut s = i32_to_decimal(channels);
    s.append("ch ");
    let r = i32_to_decimal(rate);
    s.append(r.as_str());
    s.append("Hz ");
    s.append(format_name);
    s
}

/// The format a node reports, from the sample format code, channel count,
/// rate and channel positions of its `Format` parameter. A sample format of
/// zero is no format. At most 64 positions are kept.
pub fn audio_format(format: u32, channels: i32, rate: i32, positions: &Vec<u32>) -> (r: Option<AudioFormat>)
    requires
        positions@.len() <= 64,
    ensures
        format == 0 ==> r is None,
        format != 0 ==> (r matches Some(f) && f.format == format && f.channels == channels && f.rate == rate
            && forall|i: int| 0 <= i < 64 ==> #[trigger] f.positions@[i] == if i < positions@.len() {
                positions@[i]
            } else {
                0
            }),
{
    if format == 0 {
        return None;
    }
    let mut a = [0u32; 64];
    let mut i: usize = 0;
    while i < positions.len()
        invariant
            positions@.len() <= 64,
            i <= positions@.len(),
            a@.len() == 64,
            forall|k: int| 0 <= k < 64 ==> #[trigger] a@[k] == if k < i {
                positions@[k]
            } else {
                0
            },
        decreases positions@.len() - i,
    {
        a.set(i, positions[i]);
        i = i + 1;
    }
    Some(AudioFormat { channels, format, rate, positions: a })
}

/// The SPA channel position of channel `index` in a known format, by which
/// the channel is named; without a format there is none. The format holds
/// 64 positions.
pub fn channel_position(index: u32, format: Option<&AudioFormat>) -> (r: Option<u32>)
    requires
        format is Some ==> index < 64,
    ensures
        match format {
            Some(f) => r == Some(f.positions@[index as int]),
            None => r is None,
        },
{
    match format {
        Some(f) => Some(f.positions[index as usize]),
        None => None,
    }
}

/// The label of a channel: its position's name when the format is known,
/// else its index.
pub fn channel_label(index: u32, position_name: Option<&str>) -> (r: String)
    ensures
        r@ == match position_name {
            Some(n) => n@,
            None => decimal_text(index as nat),
        },
{
    match position_name {
        Some(n) => String::from_str(n),
        None => usize_to_decimal(index as usize),
    }
}

} // verus!
