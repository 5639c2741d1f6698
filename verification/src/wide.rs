//! Wide-character text as the platform vault keeps it: UTF-16 code units,
//! and their little-endian byte form.

use vstd::prelude::*;
use crate::text::chars_of;

verus! {

broadcast use {vstd::utf8::char_is_scalar, vstd::utf8::char_u32_cast};

/// `char::from_u32` gives the character with the given scalar value, and
/// `None` for a surrogate or a value above `0x10FFFF`.
pub assume_specification[ char::from_u32 ](v: u32) -> (c: Option<char>)
    ensures
        c == (if v <= 0xD7FF || 0xE000 <= v <= 0x10FFFF {
            Some(v as char)
        } else {
            None::<char>
        }),
;

pub open spec fn is_high_surrogate(u: u16) -> bool {
    0xD800 <= u <= 0xDBFF
}

pub open spec fn is_low_surrogate(u: u16) -> bool {
    0xDC00 <= u <= 0xDFFF
}

/// The code units of one character: itself below `0x10000`, a surrogate
/// pair above.
pub open spec fn units_of_char(c: char) -> Seq<u16> {
    let v = c as u32;
    if v < 0x10000 {
        seq![v as u16]
    } else {
        seq![(0xD800 + (v - 0x10000) / 0x400) as u16, (0xDC00 + (v - 0x10000) % 0x400) as u16]
    }
}

/// The character that a surrogate pair stands for.
pub open spec fn char_of_pair(high: u16, low: u16) -> char
    recommends
        is_high_surrogate(high),
        is_low_surrogate(low),
{
    (0x10000 + (high - 0xD800) * 0x400 + (low - 0xDC00)) as char
}

/// UTF-16 encoding.
pub open spec fn utf16_of(text: Seq<char>) -> Seq<u16>
    decreases text.len(),
{
    if text.len() == 0 {
        Seq::empty()
    } else {
        units_of_char(text[0]) + utf16_of(text.drop_first())
    }
}

/// UTF-16 decoding: `None` when a surrogate stands unpaired.
pub open spec fn text_of_utf16(units: Seq<u16>) -> Option<Seq<char>>
    decreases units.len(),
{
    if units.len() == 0 {
        Some(Seq::empty())
    } else if !is_high_surrogate(units[0]) && !is_low_surrogate(units[0]) {
        match text_of_utf16(units.drop_first()) {
            Some(rest) => Some(seq![units[0] as char] + rest),
            None => None,
        }
    } else if is_high_surrogate(units[0]) && units.len() >= 2 && is_low_surrogate(units[1]) {
        match text_of_utf16(units.subrange(2, units.len() as int)) {
            Some(rest) => Some(seq![char_of_pair(units[0], units[1])] + rest),
            None => None,
        }
    } else {
        None
    }
}

/// Two bytes per code unit, the low byte first.
pub open spec fn le_bytes_of(units: Seq<u16>) -> Seq<u8> {
    Seq::new(
        2 * units.len(),
        |i: int|
            if i % 2 == 0 {
                (units[i / 2] % 256) as u8
            } else {
                (units[i / 2] / 256) as u8
            },
    )
}

/// The code units that pairs of bytes spell, the low byte first. A last
/// byte without a partner is left out.
pub open spec fn units_of_le_bytes(bytes: Seq<u8>) -> Seq<u16> {
    Seq::new((bytes.len() / 2) as nat, |i: int| (bytes[2 * i] + 256 * bytes[2 * i + 1]) as u16)
}

/// Encoding is additive over concatenation.
pub proof fn lemma_utf16_of_concat(a: Seq<char>, b: Seq<char>)
    ensures
        utf16_of(a + b) == utf16_of(a) + utf16_of(b),
    decreases a.len(),
{
    if a.len() == 0 {
        assert(a + b =~= b);
        assert(utf16_of(a) + utf16_of(b) =~= utf16_of(b));
    } else {
        assert((a + b).drop_first() =~= a.drop_first() + b);
        lemma_utf16_of_concat(a.drop_first(), b);
        assert(utf16_of(a + b) =~= utf16_of(a) + utf16_of(b));
    }
}

/// Decoding undoes encoding.
pub proof fn lemma_utf16_round_trip(text: Seq<char>)
    ensures
        text_of_utf16(utf16_of(text)) == Some(text),
    decreases text.len(),
{
    if text.len() > 0 {
        let c = text[0];
        let v = c as u32;
        let rest = text.drop_first();
        let units = utf16_of(text);
        lemma_utf16_round_trip(rest);
        vstd::utf8::char_is_scalar(c);
        vstd::utf8::char_u32_cast(c, v);
        if v < 0x10000 {
            assert(units[0] == v as u16);
            assert(units.drop_first() =~= utf16_of(rest));
            assert(units[0] as char == c);
        } else {
            let high = (0xD800 + (v - 0x10000) / 0x400) as u16;
            let low = (0xDC00 + (v - 0x10000) % 0x400) as u16;
            assert(units[0] == high && units[1] == low);
            assert(units.subrange(2, units.len() as int) =~= utf16_of(rest));
            assert(char_of_pair(high, low) == c);
        }
        assert(seq![c] + rest =~= text);
    }
}

/// Bytes read back as code units are the code units written.
pub proof fn lemma_le_bytes_round_trip(units: Seq<u16>)
    ensures
        units_of_le_bytes(le_bytes_of(units)) == units,
        le_bytes_of(units).len() == 2 * units.len(),
{
    let bytes = le_bytes_of(units);
    assert forall|i: int| 0 <= i < units.len() implies #[trigger] units_of_le_bytes(bytes)[i]
        == units[i] by {
        assert(bytes[2 * i] == (units[i] % 256) as u8);
        assert(bytes[2 * i + 1] == (units[i] / 256) as u8);
    }
    assert(units_of_le_bytes(bytes) =~= units);
}

/// The UTF-16 code units of `text`.
pub fn encode_utf16(text: &str) -> (units: Vec<u16>)
    ensures
        units@ == utf16_of(text@),
{
    let chars = chars_of(text);
    let mut units: Vec<u16> = Vec::new();
    let mut i: usize = 0;
    assert(units@ + utf16_of(chars@.skip(0)) =~= utf16_of(chars@)) by {
        assert(chars@.skip(0) =~= chars@);
    }
    while i < chars.len()
        invariant
            i <= chars.len(),
            utf16_of(chars@) == units@ + utf16_of(chars@.skip(i as int)),
        decreases chars.len() - i,
    {
        let v: u32 = chars[i] as u32;
        proof {
            assert(chars@.skip(i as int).drop_first() =~= chars@.skip(i + 1));
            assert(chars@.skip(i as int)[0] == chars@[i as int]);
        }
        if v < 0x10000 {
            units.push(v as u16);
        } else {
            let w: u32 = v - 0x10000;
            units.push((0xD800 + w / 0x400) as u16);
            units.push((0xDC00 + w % 0x400) as u16);
        }
        assert(utf16_of(chars@) =~= units@ + utf16_of(chars@.skip(i + 1)));
        i += 1;
    }
    assert(units@ + utf16_of(chars@.skip(i as int)) =~= units@);
    units
}

/// The text that `units` encode, or `None` when a surrogate stands
/// unpaired.
pub fn decode_utf16(units: &[u16]) -> (text: Option<String>)
    ensures
        match text {
            Some(t) => text_of_utf16(units@) == Some(t@),
            None => text_of_utf16(units@).is_none(),
        },
{
    let mut out = String::new();
    let n = units.len();
    let mut i: usize = 0;
    assert(units@.skip(0) =~= units@);
    assert forall|rest: Seq<char>| out@ + rest =~= rest by {}
    while i < n
        invariant
            n == units@.len(),
            i <= n,
            text_of_utf16(units@) == (match text_of_utf16(units@.skip(i as int)) {
                Some(rest) => Some(out@ + rest),
                None => None::<Seq<char>>,
            }),
        decreases n - i,
    {
        let u: u16 = units[i];
        let ghost tail = units@.skip(i as int);
        proof {
            assert(tail[0] == u);
            assert(tail.drop_first() =~= units@.skip(i + 1));
        }
        if u < 0xD800 || u > 0xDFFF {
            match char::from_u32(u as u32) {
                Some(c) => {
                    out.push(c);
                    proof {
                        let rest = text_of_utf16(units@.skip(i + 1));
                        if rest.is_some() {
                            assert(regrouped(out@.drop_last(), c, rest.unwrap()));
                        }
                    }
                },
                None => {
                    return None;
                },
            }
            i += 1;
        } else if u <= 0xDBFF && i + 1 < n && 0xDC00 <= units[i + 1] && units[i + 1] <= 0xDFFF {
            let low: u16 = units[i + 1];
            let v: u32 = 0x10000 + (u as u32 - 0xD800) * 0x400 + (low as u32 - 0xDC00);
            proof {
                assert(tail[1] == low);
                assert(tail.subrange(2, tail.len() as int) =~= units@.skip(i + 2));
            }
            match char::from_u32(v) {
                Some(c) => {
                    out.push(c);
                    proof {
                        let rest = text_of_utf16(units@.skip(i + 2));
                        if rest.is_some() {
                            assert(regrouped(out@.drop_last(), c, rest.unwrap()));
                        }
                    }
                },
                None => {
                    return None;
                },
            }
            i += 2;
        } else {
            return None;
        }
    }
    assert(units@.skip(i as int) =~= Seq::<u16>::empty());
    assert(out@ + Seq::<char>::empty() =~= out@);
    Some(out)
}

/// Whether `prefix`, then `c`, then `rest` is the same text whichever way
/// it is put together.
spec fn regrouped(prefix: Seq<char>, c: char, rest: Seq<char>) -> bool {
    prefix.push(c) + rest =~= prefix + (seq![c] + rest)
}

/// The little-endian bytes of `units`.
pub fn le_bytes(units: &[u16]) -> (bytes: Vec<u8>)
    ensures
        bytes@ == le_bytes_of(units@),
{
    let mut bytes: Vec<u8> = Vec::new();
    let mut i: usize = 0;
    while i < units.len()
        invariant
            i <= units.len(),
            bytes@ == le_bytes_of(units@.take(i as int)),
        decreases units.len() - i,
    {
        let u: u16 = units[i];
        bytes.push((u % 256) as u8);
        bytes.push((u / 256) as u8);
        assert(bytes@ =~= le_bytes_of(units@.take(i + 1)));
        i += 1;
    }
    assert(units@.take(i as int) =~= units@);
    bytes
}

/// The code units that `bytes` spell in little-endian order; a last byte
/// without a partner is left out.
pub fn units_from_le_bytes(bytes: &[u8]) -> (units: Vec<u16>)
    ensures
        units@ == units_of_le_bytes(bytes@),
{
    let mut units: Vec<u16> = Vec::new();
    let pairs: usize = bytes.len() / 2;
    let mut i: usize = 0;
    while i < pairs
        invariant
            pairs == bytes@.len() / 2,
            2 * pairs <= bytes.len(),
            i <= pairs,
            units@ == units_of_le_bytes(bytes@).take(i as int),
        decreases pairs - i,
    {
        let low: u16 = bytes[2 * i] as u16;
        let high: u16 = bytes[2 * i + 1] as u16;
        units.push(low + 256 * high);
        assert(units@ =~= units_of_le_bytes(bytes@).take(i + 1));
        i += 1;
    }
    assert(units_of_le_bytes(bytes@).take(i as int) =~= units_of_le_bytes(bytes@));
    units
}

} // verus!
