//! Texts as the host keeps them: sixteen-bit units or bytes, ended by a
//! zero.

use vstd::prelude::*;
use vstd::slice::slice_subrange;
use vstd::utf8::{decode_utf8, valid_utf8};

verus! {

/// The one or two sixteen-bit units that stand for `c`: the character
/// itself below 0x10000, and a high and a low surrogate above.
pub open spec fn utf16_of(c: char) -> Seq<u16> {
    let v = c as u32;
    if v < 0x1_0000 {
        seq![v as u16]
    } else {
        seq![(0xD800 + (v - 0x1_0000) / 0x400) as u16, (0xDC00 + (v - 0x1_0000) % 0x400) as u16]
    }
}

/// The units that stand for `text`, character after character.
pub open spec fn utf16(text: Seq<char>) -> Seq<u16>
    decreases text.len(),
{
    if text.len() == 0 {
        Seq::empty()
    } else {
        utf16(text.drop_last()) + utf16_of(text.last())
    }
}

/// Whether `units` are the units of some text.
pub open spec fn is_utf16(units: Seq<u16>) -> bool {
    exists|text: Seq<char>| #[trigger] utf16(text) == units
}

/// The text that `units` stand for, where they are the units of a text.
/// There is only one such text.
pub open spec fn utf16_text(units: Seq<u16>) -> Seq<char> {
    choose|text: Seq<char>| #[trigger] utf16(text) == units
}

/// The index of the first zero at or after `from`, or the length where
/// there is none.
pub open spec fn end_from<T>(units: Seq<T>, zero: T, from: int) -> int
    decreases units.len() - from,
{
    if from < 0 || from >= units.len() || units[from] == zero {
        from
    } else {
        end_from(units, zero, from + 1)
    }
}

/// What stands before the first zero of `units`: all of it where there is
/// no zero.
pub open spec fn before_zero<T>(units: Seq<T>, zero: T) -> Seq<T> {
    units.take(end_from(units, zero, 0))
}

/// The end that `end_from` finds lies at or after `from` and within
/// `units`, nothing between `from` and it is zero, and it is zero unless it
/// is the end of `units`.
pub proof fn lemma_end_from<T>(units: Seq<T>, zero: T, from: int)
    requires
        0 <= from <= units.len(),
    ensures
        from <= end_from(units, zero, from) <= units.len(),
        forall|i: int| from <= i < end_from(units, zero, from) ==> units[i] != zero,
        end_from(units, zero, from) < units.len() ==> units[end_from(units, zero, from)] == zero,
    decreases units.len() - from,
{
    if from < units.len() && units[from] != zero {
        lemma_end_from(units, zero, from + 1);
    }
}

/// The number of units before the first zero.
pub fn wide_len(units: &[u16]) -> (n: usize)
    ensures
        n == end_from(units@, 0u16, 0),
{
    let mut i: usize = 0;
    while i < units.len() && units[i] != 0
        invariant
            i <= units@.len(),
            end_from(units@, 0u16, 0) == end_from(units@, 0u16, i as int),
        decreases units@.len() - i,
    {
        i += 1;
    }
    i
}

/// The number of bytes before the first zero.
pub fn narrow_len(bytes: &[u8]) -> (n: usize)
    ensures
        n == end_from(bytes@, 0u8, 0),
{
    let mut i: usize = 0;
    while i < bytes.len() && bytes[i] != 0
        invariant
            i <= bytes@.len(),
            end_from(bytes@, 0u8, 0) == end_from(bytes@, 0u8, i as int),
        decreases bytes@.len() - i,
    {
        i += 1;
    }
    i
}

/// A character never needs more than the surrogates can carry, and its
/// units are zero only where it is the character zero.
pub proof fn lemma_utf16_of(c: char)
    ensures
        1 <= utf16_of(c).len() <= 2,
        utf16_of(c).contains(0u16) <==> c == '\0',
{
    vstd::utf8::char_is_scalar(c);
    let v = c as u32;
    if v < 0x1_0000 {
        if v == 0 {
            assert(utf16_of(c)[0] == 0u16);
        }
    } else {
    }
}

/// The units that stand for `text`.
pub fn encode_wide(text: &str) -> (units: Vec<u16>)
    ensures
        units@ == utf16(text@),
{
    broadcast use vstd::string::group_string_axioms;

    let mut units: Vec<u16> = Vec::new();
    for c in it: text.chars()
        invariant
            it.seq() == text@,
            units@ == utf16(text@.take(it.index())),
    {
        proof {
            vstd::utf8::char_is_scalar(c);
            assert(text@.take(it.index() + 1).drop_last() =~= text@.take(it.index()));
        }
        let v: u32 = c as u32;
        if v < 0x1_0000 {
            units.push(v as u16);
        } else {
            units.push((0xD800 + (v - 0x1_0000) / 0x400) as u16);
            units.push((0xDC00 + (v - 0x1_0000) % 0x400) as u16);
        }
    }
    assert(text@.take(text@.len() as int) =~= text@);
    units
}

/// The units of a character tell the character: a single unit is the
/// character itself and never a surrogate, and a pair is a high and a low
/// surrogate that carry its bits.
pub proof fn lemma_utf16_of_injective(c: char, d: char)
    ensures
        utf16_of(c).len() == 1 ==> !(0xD800 <= utf16_of(c)[0] <= 0xDFFF),
        utf16_of(c).len() == 2 ==> 0xD800 <= utf16_of(c)[0] <= 0xDBFF && 0xDC00 <= utf16_of(c)[1]
            <= 0xDFFF,
        utf16_of(c) == utf16_of(d) ==> c == d,
        utf16_of(c).last() == utf16_of(d).last() ==> utf16_of(c).len() == utf16_of(d).len(),
{
    vstd::utf8::char_is_scalar(c);
    vstd::utf8::char_is_scalar(d);
    if utf16_of(c) == utf16_of(d) {
        assert(utf16_of(c)[0] == utf16_of(d)[0]);
        vstd::utf8::char_u32_cast(c, c as u32);
        vstd::utf8::char_u32_cast(d, d as u32);
    }
}

/// Two texts with the same units are the same text.
pub proof fn lemma_utf16_injective(a: Seq<char>, b: Seq<char>)
    requires
        utf16(a) == utf16(b),
    ensures
        a == b,
    decreases a.len(),
{
    if a.len() == 0 {
        if b.len() > 0 {
            lemma_utf16_of(b.last());
        }
    } else {
        let c = a.last();
        lemma_utf16_of(c);
        if b.len() == 0 {
            assert(utf16(a).len() >= utf16_of(c).len());
        } else {
            let d = b.last();
            lemma_utf16_of(d);
            lemma_utf16_of_injective(c, d);
            let x = utf16(a.drop_last());
            let y = utf16(b.drop_last());
            let all = utf16(a);
            assert(all.last() == utf16_of(d).last());
            let n = utf16_of(c).len();
            assert(x =~= all.take(all.len() - n));
            assert(y =~= all.take(all.len() - n));
            assert(utf16_of(d) =~= all.skip(all.len() - n));
            lemma_utf16_injective(a.drop_last(), b.drop_last());
            assert(b =~= b.drop_last().push(d));
        }
    }
}

/// The units of a text are well-formed, and stand for that text and for
/// no other.
pub proof fn lemma_utf16_text(text: Seq<char>)
    ensures
        is_utf16(utf16(text)),
        utf16_text(utf16(text)) == text,
{
    lemma_utf16_injective(utf16_text(utf16(text)), text);
}

/// The units of a text hold a zero exactly where the text holds the
/// character zero.
pub proof fn lemma_utf16_zero(text: Seq<char>)
    ensures
        utf16(text).contains(0u16) <==> text.contains('\0'),
    decreases text.len(),
{
    if text.len() > 0 {
        let head = text.drop_last();
        let c = text.last();
        lemma_utf16_zero(head);
        lemma_utf16_of(c);
        if text.contains('\0') {
            let i = choose|i: int| 0 <= i < text.len() && text[i] == '\0';
            if i < head.len() {
                assert(head[i] == '\0');
                let k = choose|k: int| 0 <= k < utf16(head).len() && utf16(head)[k] == 0u16;
                assert(utf16(text)[k] == 0u16);
            } else {
                let k = choose|k: int| 0 <= k < utf16_of(c).len() && utf16_of(c)[k] == 0u16;
                assert(utf16(text)[utf16(head).len() + k] == 0u16);
            }
        }
    }
}

/// `String::from_utf16` of the standard library, which decodes sixteen-bit
/// units and refuses those that are not well-formed. The contract claims
/// that it succeeds exactly on the units of some text, and that the text it
/// returns has the units it was given.
#[verifier::external_body]
fn string_from_utf16(units: &[u16]) -> (r: Option<String>)
    ensures
        r is Some <==> is_utf16(units@),
        r matches Some(s) ==> utf16(s@) == units@,
{
    match String::from_utf16(units) {
        Ok(text) => Some(text),
        Err(_) => None,
    }
}

/// `core::str::from_utf8` of the standard library, which checks that bytes
/// are well-formed UTF-8. The contract claims that it succeeds exactly on
/// such bytes, and that the text it returns is the one they encode.
#[verifier::external_body]
fn str_from_utf8(bytes: &[u8]) -> (r: Option<&str>)
    ensures
        r is Some <==> valid_utf8(bytes@),
        r matches Some(s) ==> s@ == decode_utf8(bytes@),
{
    match core::str::from_utf8(bytes) {
        Ok(text) => Some(text),
        Err(_) => None,
    }
}

/// The text that the units before the first zero of `units` stand for, or
/// nothing where they are the units of no text.
pub fn decode_wide(units: &[u16]) -> (r: Option<String>)
    ensures
        r is Some <==> is_utf16(before_zero(units@, 0u16)),
        r matches Some(s) ==> s@ == utf16_text(before_zero(units@, 0u16)),
{
    proof {
        lemma_end_from(units@, 0u16, 0);
    }
    let n: usize = wide_len(units);
    let text = string_from_utf16(slice_subrange(units, 0, n));
    proof {
        if text is Some {
            lemma_utf16_text(text->0@);
        }
    }
    text
}

/// The text that the bytes before the first zero of `bytes` encode as
/// UTF-8, or nothing where they are not well-formed.
pub fn decode_narrow(bytes: &[u8]) -> (r: Option<String>)
    ensures
        r is Some <==> valid_utf8(before_zero(bytes@, 0u8)),
        r matches Some(s) ==> s@ == decode_utf8(before_zero(bytes@, 0u8)),
{
    proof {
        lemma_end_from(bytes@, 0u8, 0);
    }
    let n: usize = narrow_len(bytes);
    match str_from_utf8(slice_subrange(bytes, 0, n)) {
        Some(text) => Some(text.to_owned()),
        None => None,
    }
}

} // verus!
