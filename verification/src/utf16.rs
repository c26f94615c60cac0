//! UTF-16 text, and the lengths of text in UTF-8 and UTF-16.

use vstd::prelude::*;
use vstd::string::*;
use vstd::utf8::*;

verus! {

/// Whether `unit` is the first half of a surrogate pair.
pub open spec fn is_high_surrogate(unit: u16) -> bool {
    0xD800 <= unit < 0xDC00
}

/// Whether `unit` is the second half of a surrogate pair.
pub open spec fn is_low_surrogate(unit: u16) -> bool {
    0xDC00 <= unit < 0xE000
}

/// The scalar value that a surrogate pair stands for.
pub open spec fn pair_scalar(high: u16, low: u16) -> u32 {
    (0x1_0000 + (high - 0xD800) * 0x400 + (low - 0xDC00)) as u32
}

/// The text that `units` encode in UTF-16, if they do: no half of a surrogate pair stands alone.
pub open spec fn decode_utf16(units: Seq<u16>) -> Option<Seq<char>>
    decreases units.len(),
{
    if units.len() == 0 {
        Some(seq![])
    } else if is_high_surrogate(units[0]) {
        if units.len() >= 2 && is_low_surrogate(units[1]) {
            prepend(pair_scalar(units[0], units[1]) as char, decode_utf16(units.skip(2)))
        } else {
            None
        }
    } else if is_low_surrogate(units[0]) {
        None
    } else {
        prepend((units[0] as u32) as char, decode_utf16(units.skip(1)))
    }
}

/// A text with `c` before it, if there is a text.
pub open spec fn prepend(c: char, text: Option<Seq<char>>) -> Option<Seq<char>> {
    match text {
        Some(text) => Some(seq![c] + text),
        None => None,
    }
}

/// The UTF-16 encoding of a character.
pub open spec fn encode_utf16_char(c: char) -> Seq<u16> {
    let scalar = c as u32;
    if scalar < 0x1_0000 {
        seq![scalar as u16]
    } else {
        seq![
            (0xD800 + (scalar - 0x1_0000) / 0x400) as u16,
            (0xDC00 + (scalar - 0x1_0000) % 0x400) as u16,
        ]
    }
}

/// The UTF-16 encoding of a text.
pub open spec fn encode_utf16(text: Seq<char>) -> Seq<u16>
    decreases text.len(),
{
    if text.len() == 0 {
        seq![]
    } else {
        encode_utf16_char(text[0]) + encode_utf16(text.drop_first())
    }
}

/// The UTF-16 units that little-endian `bytes` hold.
pub open spec fn units_of(bytes: Seq<u8>) -> Seq<u16> {
    Seq::new(bytes.len() / 2, |i: int| (bytes[2 * i] + 0x100 * bytes[2 * i + 1]) as u16)
}

/// The little-endian bytes of UTF-16 `units`.
pub open spec fn bytes_of(units: Seq<u16>) -> Seq<u8> {
    Seq::new(
        2 * units.len(),
        |i: int|
            if i % 2 == 0 {
                (units[i / 2] % 0x100) as u8
            } else {
                (units[i / 2] / 0x100) as u8
            },
    )
}

/// The offset in bytes of UTF-8 at which the character with the index `k` starts.
pub open spec fn utf8_offset(text: Seq<char>, k: int) -> nat {
    encode_utf8(text.take(k)).len()
}

/// The offset in UTF-16 units at which the character with the index `k` starts.
pub open spec fn utf16_offset(text: Seq<char>, k: int) -> nat {
    encode_utf16(text.take(k)).len()
}

/// Appending a character appends its encodings.
pub proof fn lemma_encode_push(text: Seq<char>, c: char)
    ensures
        encode_utf8(text.push(c)) == encode_utf8(text) + encode_scalar(c as u32),
        encode_utf16(text.push(c)) == encode_utf16(text) + encode_utf16_char(c),
    decreases text.len(),
{
    reveal_with_fuel(encode_utf8, 2);
    reveal_with_fuel(encode_utf16, 2);
    if text.len() == 0 {
        assert(text.push(c).drop_first() =~= text);
    } else {
        lemma_encode_push(text.drop_first(), c);
        assert(text.push(c).drop_first() =~= text.drop_first().push(c));
    }
}

/// The offsets of the character with the index `k`, and of the one after it.
pub proof fn lemma_offset_step(text: Seq<char>, k: int)
    requires
        0 <= k < text.len(),
    ensures
        utf8_offset(text, k + 1) == utf8_offset(text, k) + encode_scalar(text[k] as u32).len(),
        utf16_offset(text, k + 1) == utf16_offset(text, k) + encode_utf16_char(text[k]).len(),
{
    assert(text.take(k + 1) =~= text.take(k).push(text[k]));
    lemma_encode_push(text.take(k), text[k]);
}

/// Offsets grow with the index of the character.
pub proof fn lemma_offsets_ordered(text: Seq<char>, j: int, k: int)
    requires
        0 <= j <= k <= text.len(),
    ensures
        utf8_offset(text, j) <= utf8_offset(text, k),
        utf16_offset(text, j) <= utf16_offset(text, k),
    decreases k - j,
{
    if j < k {
        lemma_offset_step(text, j);
        lemma_offsets_ordered(text, j + 1, k);
    }
}

/// Offsets start at zero, and those in UTF-16 are never greater than those in UTF-8, which end at
/// the length of the text.
pub proof fn lemma_offset_bounds(text: Seq<char>, k: int)
    requires
        0 <= k <= text.len(),
    ensures
        utf8_offset(text, 0) == 0,
        utf16_offset(text, 0) == 0,
        utf16_offset(text, k) <= utf8_offset(text, k) <= encode_utf8(text).len(),
        utf8_offset(text, text.len() as int) == encode_utf8(text).len(),
    decreases k,
{
    assert(text.take(text.len() as int) =~= text);
    lemma_offsets_ordered(text, k, text.len() as int);
    if k > 0 {
        lemma_offset_bounds(text, k - 1);
        lemma_offset_step(text, k - 1);
    }
}

/// The offset of a character is a character boundary.
pub proof fn lemma_offset_is_boundary(text: Seq<char>, k: int)
    requires
        0 <= k <= text.len(),
    ensures
        is_char_boundary(encode_utf8(text), utf8_offset(text, k) as int),
    decreases text.len(),
{
    encode_utf8_valid_utf8(text);
    lemma_offset_bounds(text, k);
    if k > 0 {
        let rest = text.drop_first();
        encode_utf8_first_scalar(text);
        assert(pop_first_scalar(encode_utf8(text)) =~= encode_utf8(rest));
        assert(text.take(k).drop_first() =~= rest.take(k - 1));
        assert(text.take(k)[0] == text[0]);
        lemma_offset_is_boundary(rest, k - 1);
    }
}

/// The characters of a text.
pub fn characters(text: &str) -> (chars: Vec<char>)
    ensures
        chars@ == text@,
{
    let mut chars: Vec<char> = Vec::new();
    for c in it: text.chars()
        invariant
            it.seq() == text@,
            chars@ == it.seq().take(it.index() as int),
    {
        chars.push(c);
    }
    assert(text@.take(text@.len() as int) =~= text@);
    chars
}

/// The number of bytes of a character in UTF-8.
pub fn utf8_len(c: char) -> (len: usize)
    ensures
        len == encode_scalar(c as u32).len(),
        1 <= len <= 4,
{
    let scalar: u32 = c as u32;
    if scalar < 0x80 {
        1
    } else if scalar < 0x800 {
        2
    } else if scalar < 0x1_0000 {
        3
    } else {
        4
    }
}

/// The number of units of a character in UTF-16.
pub fn utf16_len(c: char) -> (len: usize)
    ensures
        len == encode_utf16_char(c).len(),
        1 <= len <= 2,
{
    if (c as u32) < 0x1_0000 {
        1
    } else {
        2
    }
}

/// The text that `units` encode in UTF-16, if they do.
pub fn text_from_utf16(units: &Vec<u16>) -> (text: Option<String>)
    ensures
        match text {
            Some(text) => decode_utf16(units@) == Some(text@),
            None => decode_utf16(units@) is None,
        },
{
    let mut text = String::new();
    let mut i: usize = 0;
    assert(units@.skip(0) =~= units@);
    assert(decode_utf16(units@) matches Some(rest) ==> text@ + rest =~= rest);
    while i < units.len()
        invariant
            i <= units.len(),
            decode_utf16(units@) == (match decode_utf16(units@.skip(i as int)) {
                Some(rest) => Some(text@ + rest),
                None => None,
            }),
        decreases units.len() - i,
    {
        let unit: u16 = units[i];
        let ghost before = text@;
        if 0xD800 <= unit && unit < 0xDC00 {
            if units.len() - i < 2 {
                return None;
            }
            let low: u16 = units[i + 1];
            if low < 0xDC00 || 0xE000 <= low {
                return None;
            }
            let scalar: u32 = 0x1_0000 + (unit as u32 - 0xD800) * 0x400 + (low as u32 - 0xDC00);
            match char::from_u32(scalar) {
                Some(c) => {
                    text.push(c);
                    proof {
                        assert(units@.skip(i as int).skip(2) =~= units@.skip(i + 2));
                        let rest = decode_utf16(units@.skip(i + 2));
                        assert(rest matches Some(rest) ==> before + (seq![c] + rest)
                            =~= before.push(c) + rest);
                    }
                },
                None => {
                    return None;
                },
            }
            i += 2;
        } else {
            match char::from_u32(unit as u32) {
                Some(c) => {
                    text.push(c);
                    proof {
                        assert(units@.skip(i as int).skip(1) =~= units@.skip(i + 1));
                        let rest = decode_utf16(units@.skip(i + 1));
                        assert(rest matches Some(rest) ==> before + (seq![c] + rest)
                            =~= before.push(c) + rest);
                    }
                },
                None => {
                    return None;
                },
            }
            i += 1;
        }
    }
    assert(text@ + Seq::<char>::empty() =~= text@);
    Some(text)
}

} // verus!
