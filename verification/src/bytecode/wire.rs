//! The fixed-width encodings of the wire format.

use vstd::prelude::*;
use vstd::string::*;
use vstd::utf8::*;

verus! {

/// The four bytes of `n`, the lowest first. A number that does not fit in 32
/// bits is written without its higher bits.
pub open spec fn u32_le(n: nat) -> Seq<u8> {
    seq![
        (n % 256) as u8,
        ((n / 256) % 256) as u8,
        ((n / 65536) % 256) as u8,
        ((n / 16777216) % 256) as u8,
    ]
}

/// The number that four bytes stand for, the lowest first.
pub open spec fn u32_le_value(bytes: Seq<u8>) -> nat
    recommends
        bytes.len() == 4,
{
    (bytes[0] as nat) + 256 * (bytes[1] as nat) + 65536 * (bytes[2] as nat) + 16777216 * (
    bytes[3] as nat)
}

/// The byte of a flag.
pub open spec fn flag_byte(flag: bool) -> u8 {
    if flag {
        1u8
    } else {
        0u8
    }
}

/// A number of 32 bits is read back from its four bytes.
pub proof fn lemma_u32_le_round_trip(n: nat)
    requires
        n <= u32::MAX,
    ensures
        u32_le(n).len() == 4,
        u32_le_value(u32_le(n)) == n,
{
}

/// Appends the four bytes of `n` to `bytes`, the lowest first.
pub fn write_u32_le(bytes: &mut Vec<u8>, n: usize)
    ensures
        final(bytes)@ == old(bytes)@ + u32_le(n as nat),
{
    bytes.push((n % 256) as u8);
    bytes.push(((n / 256) % 256) as u8);
    bytes.push(((n / 65536) % 256) as u8);
    bytes.push(((n / 16777216) % 256) as u8);
    assert(bytes@ =~= old(bytes)@ + u32_le(n as nat));
}

/// Reads the number that the four bytes at `at` stand for, if the bytes
/// reach that far.
pub fn read_u32_le(bytes: &[u8], at: usize) -> (value: Option<usize>)
    ensures
        value matches Some(n) ==> at + 4 <= bytes@.len() && n == u32_le_value(
            bytes@.subrange(at as int, at + 4),
        ),
        value is None <==> at + 4 > bytes@.len(),
{
    if bytes.len() < 4 || at > bytes.len() - 4 {
        return None;
    }
    let b0: usize = bytes[at] as usize;
    let b1: usize = bytes[at + 1] as usize;
    let b2: usize = bytes[at + 2] as usize;
    let b3: usize = bytes[at + 3] as usize;
    Some(b0 + 256 * b1 + 65536 * b2 + 16777216 * b3)
}

/// The bytes of a text: the length of its UTF-8 form, and that form.
pub open spec fn text_encoding(text: Seq<char>) -> Seq<u8> {
    u32_le(encode_utf8(text).len()) + encode_utf8(text)
}

/// Appends `more` to `bytes`.
pub fn append_bytes(bytes: &mut Vec<u8>, more: &[u8])
    ensures
        final(bytes)@ == old(bytes)@ + more@,
{
    let mut i: usize = 0;
    while i < more.len()
        invariant
            i <= more@.len(),
            bytes@ == old(bytes)@ + more@.subrange(0, i as int),
        decreases more@.len() - i,
    {
        bytes.push(more[i]);
        i += 1;
        assert(bytes@ =~= old(bytes)@ + more@.subrange(0, i as int));
    }
    assert(more@.subrange(0, i as int) =~= more@);
}

/// Appends the bytes of a text to `bytes`.
pub fn write_text(bytes: &mut Vec<u8>, text: &str)
    ensures
        final(bytes)@ == old(bytes)@ + text_encoding(text@),
{
    let form = text.as_bytes();
    write_u32_le(bytes, form.len());
    append_bytes(bytes, form);
    assert(bytes@ =~= old(bytes)@ + text_encoding(text@));
}

} // verus!
