//! Wide text: UTF-16 code units, the strings they spell, and the buffers
//! of the operating system that hold them up to a terminating zero.

use crate::byte_order::{u16_from_bytes, u16_of_bytes, ByteOrder};
use crate::error::Error;
use vstd::prelude::*;

verus! {

/// The UTF-16 code units of one character: the character's own number
/// where it is below `0x1_0000`, else a high and a low surrogate that
/// share the twenty bits of what lies above.
pub open spec fn units_of_char(c: char) -> Seq<u16> {
    if (c as int) < 0x1_0000 {
        seq![(c as int) as u16]
    } else {
        seq![
            (0xD800 + (c as int - 0x1_0000) / 0x400) as u16,
            (0xDC00 + (c as int - 0x1_0000) % 0x400) as u16,
        ]
    }
}

/// The UTF-16 code units of a text: those of its characters, one after
/// the other.
pub open spec fn utf16_encoding(text: Seq<char>) -> Seq<u16>
    decreases text.len(),
{
    if text.len() == 0 {
        Seq::empty()
    } else {
        units_of_char(text[0]) + utf16_encoding(text.drop_first())
    }
}

/// Whether code units are well-formed UTF-16, that is, spell some text.
pub open spec fn is_utf16(units: Seq<u16>) -> bool {
    exists|text: Seq<char>| utf16_encoding(text) == units
}

/// The text that well-formed code units spell.
pub open spec fn utf16_decoding(units: Seq<u16>) -> Seq<char>
    recommends
        is_utf16(units),
{
    choose|text: Seq<char>| utf16_encoding(text) == units
}

/// How many code units stand before the first zero, or in all where
/// there is no zero.
pub open spec fn nul_position(units: Seq<u16>) -> nat
    decreases units.len(),
{
    if units.len() == 0 || units[0] == 0 {
        0
    } else {
        1 + nul_position(units.drop_first())
    }
}

/// The code units before the first zero; all of them where there is no
/// zero.
pub open spec fn until_nul(units: Seq<u16>) -> Seq<u16> {
    units.take(nul_position(units) as int)
}

/// The code units that bytes hold, two bytes each.  A last byte without
/// a partner is left out.
pub open spec fn units_of_bytes(order: ByteOrder, bytes: Seq<u8>) -> Seq<u16> {
    Seq::new(
        (bytes.len() / 2) as nat,
        |i: int| u16_of_bytes(order, bytes.subrange(2 * i, 2 * i + 2)),
    )
}

/// The first zero, if any, stands at `nul_position`, and nothing before
/// it is zero.
pub proof fn lemma_nul_position(units: Seq<u16>)
    ensures
        nul_position(units) <= units.len(),
        nul_position(units) < units.len() ==> units[nul_position(units) as int] == 0,
        forall|i: int| 0 <= i < nul_position(units) ==> units[i] != 0,
    decreases units.len(),
{
    if units.len() == 0 || units[0] == 0 {
    } else {
        let rest = units.drop_first();
        lemma_nul_position(rest);
        assert forall|i: int| 0 <= i < nul_position(units) implies units[i] != 0 by {
            if i > 0 {
                assert(units[i] == rest[i - 1]);
            }
        }
    }
}

/// A place that holds zero, or the end, with nothing but non-zero units
/// before it, is `nul_position`.
pub proof fn lemma_nul_position_is(units: Seq<u16>, position: int)
    requires
        0 <= position <= units.len(),
        position < units.len() ==> units[position] == 0,
        forall|i: int| 0 <= i < position ==> units[i] != 0,
    ensures
        nul_position(units) == position,
{
    lemma_nul_position(units);
    let found = nul_position(units) as int;
    if found < position {
        assert(units[found] != 0);
    } else if position < found {
        assert(units[position] != 0);
    }
}

/// Every character has one code unit or two, and the first of them
/// tells which: it is a high surrogate exactly when there are two.
proof fn lemma_units_of_char(c: char)
    ensures
        units_of_char(c).len() == 1 || units_of_char(c).len() == 2,
        units_of_char(c).len() == 2 <==> 0xD800 <= units_of_char(c)[0] < 0xDC00,
        units_of_char(c).len() == 1 ==> units_of_char(c)[0] == c as int,
        units_of_char(c).len() == 2 ==> c as int == 0x1_0000 + (units_of_char(c)[0] - 0xD800)
            * 0x400 + (units_of_char(c)[1] - 0xDC00),
{
}

/// The encoding of a text that is not empty starts with the code units
/// of its first character.
proof fn lemma_encoding_unfolds(text: Seq<char>)
    requires
        text.len() > 0,
    ensures
        utf16_encoding(text) == units_of_char(text[0]) + utf16_encoding(text.drop_first()),
        utf16_encoding(text).len() >= units_of_char(text[0]).len() >= 1,
        utf16_encoding(text).take(units_of_char(text[0]).len() as int) == units_of_char(text[0]),
        utf16_encoding(text).skip(units_of_char(text[0]).len() as int) == utf16_encoding(
            text.drop_first(),
        ),
{
    let head = units_of_char(text[0]);
    let tail = utf16_encoding(text.drop_first());
    assert((head + tail).take(head.len() as int) =~= head);
    assert((head + tail).skip(head.len() as int) =~= tail);
}

/// No two texts have the same UTF-16 code units.
pub proof fn lemma_utf16_encoding_injective(a: Seq<char>, b: Seq<char>)
    requires
        utf16_encoding(a) == utf16_encoding(b),
    ensures
        a == b,
    decreases a.len(),
{
    if a.len() == 0 {
        if b.len() > 0 {
            lemma_encoding_unfolds(b);
        }
        assert(a =~= b);
    } else if b.len() == 0 {
        lemma_encoding_unfolds(a);
    } else {
        lemma_encoding_unfolds(a);
        lemma_encoding_unfolds(b);
        lemma_units_of_char(a[0]);
        lemma_units_of_char(b[0]);
        let all = utf16_encoding(a);
        let head_a = units_of_char(a[0]);
        let head_b = units_of_char(b[0]);
        assert(head_a[0] == all[0]) by {
            assert(all.take(head_a.len() as int)[0] == all[0]);
        }
        assert(head_b[0] == all[0]) by {
            assert(all.take(head_b.len() as int)[0] == all[0]);
        }
        assert(head_a.len() == head_b.len());
        if head_a.len() == 2 {
            assert(head_a[1] == all[1]) by {
                assert(all.take(2)[1] == all[1]);
            }
            assert(head_b[1] == all[1]) by {
                assert(all.take(2)[1] == all[1]);
            }
        }
        assert(a[0] as int == b[0] as int);
        assert(a[0] == b[0]);
        lemma_utf16_encoding_injective(a.drop_first(), b.drop_first());
        assert(a =~= seq![a[0]] + a.drop_first());
        assert(b =~= seq![b[0]] + b.drop_first());
    }
}

/// Decoding undoes encoding: the code units of a text are well-formed
/// and spell that text.
pub proof fn lemma_decoding_of_encoding(text: Seq<char>)
    ensures
        is_utf16(utf16_encoding(text)),
        utf16_decoding(utf16_encoding(text)) == text,
{
    let units = utf16_encoding(text);
    assert(is_utf16(units));
    lemma_utf16_encoding_injective(utf16_decoding(units), text);
}

/// Encoding undoes decoding: the text that well-formed code units spell
/// has those code units.
pub proof fn lemma_encoding_of_decoding(units: Seq<u16>)
    requires
        is_utf16(units),
    ensures
        utf16_encoding(utf16_decoding(units)) == units,
{
}

/// Calls `String::from_utf16`, which gives the text that the code units
/// spell, and fails where they are not well-formed UTF-16.  The error of
/// that function carries nothing and is dropped.
#[verifier::external_body]
fn string_from_utf16(units: &[u16]) -> (text: Option<String>)
    ensures
        match text {
            Some(s) => utf16_encoding(s@) == units@,
            None => !is_utf16(units@),
        },
{
    String::from_utf16(units).ok()
}

/// Calls `str::encode_utf16` and gathers the code units that it yields.
#[verifier::external_body]
fn str_encode_utf16(text: &str) -> (units: Vec<u16>)
    ensures
        units@ == utf16_encoding(text@),
{
    text.encode_utf16().collect()
}

/// The UTF-16 code units of a string, as the wide calls of the operating
/// system take them (without a terminating zero).
pub fn string_to_wide(text: &str) -> (units: Vec<u16>)
    ensures
        units@ == utf16_encoding(text@),
{
    str_encode_utf16(text)
}

/// Decodes UTF-16 code units into a string.  Code units that are not
/// well-formed give `Error::InvalidString`.
pub fn decode_utf16(units: &[u16]) -> (outcome: Result<String, Error>)
    ensures
        is_utf16(units@) <==> outcome is Ok,
        outcome matches Ok(text) ==> text@ == utf16_decoding(units@) && utf16_encoding(text@)
            == units@,
        outcome matches Err(error) ==> error == Error::InvalidString,
{
    match string_from_utf16(units) {
        Some(text) => {
            proof {
                lemma_decoding_of_encoding(text@);
            }
            Ok(text)
        },
        None => Err(Error::InvalidString),
    }
}

/// Copies the code units that stand before the first zero of a buffer;
/// all of them where the buffer holds no zero.
pub fn take_until_nul(buffer: &[u16]) -> (units: Vec<u16>)
    ensures
        units@ == until_nul(buffer@),
{
    let mut units: Vec<u16> = Vec::new();
    let mut i: usize = 0;
    while i < buffer.len() && buffer[i] != 0
        invariant
            0 <= i <= buffer.len(),
            units@ == buffer@.take(i as int),
            forall|j: int| 0 <= j < i ==> buffer@[j] != 0,
        decreases buffer.len() - i,
    {
        units.push(buffer[i]);
        i += 1;
        assert(units@ =~= buffer@.take(i as int));
    }
    proof {
        lemma_nul_position_is(buffer@, i as int);
    }
    units
}

/// Reads a zero-terminated buffer of the operating system as a string:
/// what stands before the first zero is decoded as UTF-16.
pub fn decode_nul_terminated(buffer: &[u16]) -> (outcome: Result<String, Error>)
    ensures
        is_utf16(until_nul(buffer@)) <==> outcome is Ok,
        outcome matches Ok(text) ==> text@ == utf16_decoding(until_nul(buffer@))
            && utf16_encoding(text@) == until_nul(buffer@),
        outcome matches Err(error) ==> error == Error::InvalidString,
{
    let units = take_until_nul(buffer);
    decode_utf16(units.as_slice())
}

/// Reads bytes as code units, two bytes each in the given byte order.  A
/// last byte without a partner is left out.
pub fn wide_from_bytes(order: ByteOrder, bytes: &[u8]) -> (units: Vec<u16>)
    ensures
        units@ == units_of_bytes(order, bytes@),
{
    let count: usize = bytes.len() / 2;
    let mut units: Vec<u16> = Vec::new();
    let mut i: usize = 0;
    while i < count
        invariant
            count == bytes.len() / 2,
            0 <= i <= count,
            units@.len() == i,
            forall|j: int| 0 <= j < i ==> units@[j] == units_of_bytes(order, bytes@)[j],
        decreases count - i,
    {
        let pair: [u8; 2] = [bytes[2 * i], bytes[2 * i + 1]];
        assert(pair@ =~= bytes@.subrange(2 * i, 2 * i + 2));
        units.push(u16_from_bytes(order, pair));
        i += 1;
    }
    assert(units@ =~= units_of_bytes(order, bytes@));
    units
}

} // verus!
