//! Deterministic CBOR framing of the values that are signed.
//!
//! Only definite-length items are written, each with the shortest head that holds its
//! argument, so that a value has exactly one encoding.

use vstd::prelude::*;
use vstd::utf8::encode_utf8;

verus! {

pub const MAJOR_BYTES: u8 = 2;

pub const MAJOR_TEXT: u8 = 3;

pub const MAJOR_ARRAY: u8 = 4;

pub const MAJOR_MAP: u8 = 5;

pub const MAJOR_TAG: u8 = 6;

/// The tag that marks a byte string as holding an encoded CBOR item.
pub const TAG_ENCODED_ITEM: u64 = 24;

/// The head of an item: the major type with its argument, in the shortest of the five forms.
pub open spec fn head(major: u8, argument: u64) -> Seq<u8> {
    let high = (major * 32) as u8;
    if argument < 24 {
        seq![(high + argument) as u8]
    } else if argument < 0x100 {
        seq![(high + 24) as u8, argument as u8]
    } else if argument < 0x1_0000 {
        seq![(high + 25) as u8, (argument / 0x100) as u8, (argument % 0x100) as u8]
    } else if argument < 0x1_0000_0000 {
        seq![
            (high + 26) as u8,
            (argument / 0x100_0000) as u8,
            (argument / 0x1_0000 % 0x100) as u8,
            (argument / 0x100 % 0x100) as u8,
            (argument % 0x100) as u8,
        ]
    } else {
        seq![
            (high + 27) as u8,
            (argument / 0x100_0000_0000_0000) as u8,
            (argument / 0x1_0000_0000_0000 % 0x100) as u8,
            (argument / 0x100_0000_0000 % 0x100) as u8,
            (argument / 0x1_0000_0000 % 0x100) as u8,
            (argument / 0x100_0000 % 0x100) as u8,
            (argument / 0x1_0000 % 0x100) as u8,
            (argument / 0x100 % 0x100) as u8,
            (argument % 0x100) as u8,
        ]
    }
}

/// A byte string: its head, then the bytes.
pub open spec fn byte_string(bytes: Seq<u8>) -> Seq<u8> {
    head(MAJOR_BYTES, bytes.len() as u64) + bytes
}

/// A text string: its head, then the text in UTF-8.
pub open spec fn text_string(text: Seq<char>) -> Seq<u8> {
    head(MAJOR_TEXT, encode_utf8(text).len() as u64) + encode_utf8(text)
}

/// An encoded item carried as a tagged byte string.
pub open spec fn encoded_item(item: Seq<u8>) -> Seq<u8> {
    head(MAJOR_TAG, TAG_ENCODED_ITEM) + byte_string(item)
}

/// A boolean.
pub open spec fn boolean(value: bool) -> Seq<u8> {
    if value {
        seq![0xf5u8]
    } else {
        seq![0xf4u8]
    }
}

/// Appends the head of an item.
pub fn write_head(out: &mut Vec<u8>, major: u8, argument: u64)
    requires
        major < 8,
    ensures
        final(out)@ == old(out)@ + head(major, argument),
{
    let high: u8 = major * 32;
    if argument < 24 {
        out.push(high + (argument as u8));
    } else if argument < 0x100 {
        out.push(high + 24);
        out.push(argument as u8);
    } else if argument < 0x1_0000 {
        out.push(high + 25);
        out.push((argument / 0x100) as u8);
        out.push((argument % 0x100) as u8);
    } else if argument < 0x1_0000_0000 {
        out.push(high + 26);
        out.push((argument / 0x100_0000) as u8);
        out.push((argument / 0x1_0000 % 0x100) as u8);
        out.push((argument / 0x100 % 0x100) as u8);
        out.push((argument % 0x100) as u8);
    } else {
        out.push(high + 27);
        out.push((argument / 0x100_0000_0000_0000) as u8);
        out.push((argument / 0x1_0000_0000_0000 % 0x100) as u8);
        out.push((argument / 0x100_0000_0000 % 0x100) as u8);
        out.push((argument / 0x1_0000_0000 % 0x100) as u8);
        out.push((argument / 0x100_0000 % 0x100) as u8);
        out.push((argument / 0x1_0000 % 0x100) as u8);
        out.push((argument / 0x100 % 0x100) as u8);
        out.push((argument % 0x100) as u8);
    }
    assert(out@ =~= old(out)@ + head(major, argument));
}

/// Appends bytes as they are.
pub fn write_raw(out: &mut Vec<u8>, bytes: &[u8])
    ensures
        final(out)@ == old(out)@ + bytes@,
{
    let mut i: usize = 0;
    while i < bytes.len()
        invariant
            i <= bytes@.len(),
            out@ == old(out)@ + bytes@.subrange(0, i as int),
        decreases bytes@.len() - i,
    {
        out.push(bytes[i]);
        i += 1;
        assert(out@ =~= old(out)@ + bytes@.subrange(0, i as int));
    }
    assert(bytes@.subrange(0, bytes@.len() as int) =~= bytes@);
}

/// Appends a byte string.
pub fn write_byte_string(out: &mut Vec<u8>, bytes: &[u8])
    ensures
        final(out)@ == old(out)@ + byte_string(bytes@),
{
    write_head(out, MAJOR_BYTES, bytes.len() as u64);
    write_raw(out, bytes);
    assert(out@ =~= old(out)@ + byte_string(bytes@));
}

/// Appends a text string.
pub fn write_text_string(out: &mut Vec<u8>, text: &str)
    ensures
        final(out)@ == old(out)@ + text_string(text@),
{
    let bytes = text.as_bytes();
    write_head(out, MAJOR_TEXT, bytes.len() as u64);
    write_raw(out, bytes);
    assert(out@ =~= old(out)@ + text_string(text@));
}

/// Appends an encoded item as a tagged byte string.
pub fn write_encoded_item(out: &mut Vec<u8>, item: &[u8])
    ensures
        final(out)@ == old(out)@ + encoded_item(item@),
{
    write_head(out, MAJOR_TAG, TAG_ENCODED_ITEM);
    write_byte_string(out, item);
    assert(out@ =~= old(out)@ + encoded_item(item@));
}

/// Appends a boolean.
pub fn write_boolean(out: &mut Vec<u8>, value: bool)
    ensures
        final(out)@ == old(out)@ + boolean(value),
{
    if value {
        out.push(0xf5);
    } else {
        out.push(0xf4);
    }
    assert(out@ =~= old(out)@ + boolean(value));
}

} // verus!
