//! Little-endian numbers, byte copies and text in byte sequences.

use vstd::prelude::*;

verus! {

/// The four bytes of `x`, least significant first.
pub open spec fn le32(x: int) -> Seq<u8> {
    seq![
        (x % 256) as u8,
        (x / 256 % 256) as u8,
        (x / 65536 % 256) as u8,
        (x / 16777216 % 256) as u8,
    ]
}

/// The number that four bytes spell, least significant first.
pub open spec fn le32_value(b: Seq<u8>) -> int {
    b[0] + 256 * b[1] + 65536 * b[2] + 16777216 * b[3]
}

/// The two bytes of `x`, least significant first.
pub open spec fn le16(x: int) -> Seq<u8> {
    seq![(x % 256) as u8, (x / 256 % 256) as u8]
}

/// The number that two bytes spell, least significant first.
pub open spec fn le16_value(b: Seq<u8>) -> int {
    b[0] + 256 * b[1]
}

/// Four bytes spell the number they were made from.
pub proof fn le32_round_trip(x: int)
    requires
        0 <= x <= u32::MAX,
    ensures
        le32(x).len() == 4,
        le32_value(le32(x)) == x,
{
}

/// Two bytes spell the number they were made from.
pub proof fn le16_round_trip(x: int)
    requires
        0 <= x <= u16::MAX,
    ensures
        le16(x).len() == 2,
        le16_value(le16(x)) == x,
{
}

/// Appends the four bytes of `x`.
pub fn push_le32(out: &mut Vec<u8>, x: u32)
    ensures
        final(out)@ == old(out)@ + le32(x as int),
{
    let ghost start = out@;
    out.push((x % 256) as u8);
    out.push((x / 256 % 256) as u8);
    out.push((x / 65536 % 256) as u8);
    out.push((x / 16777216 % 256) as u8);
    assert(out@ =~= start + le32(x as int));
}

/// Appends the two bytes of `x`.
pub fn push_le16(out: &mut Vec<u8>, x: u16)
    ensures
        final(out)@ == old(out)@ + le16(x as int),
{
    let ghost start = out@;
    out.push((x % 256) as u8);
    out.push((x / 256 % 256) as u8);
    assert(out@ =~= start + le16(x as int));
}

/// Reads the four bytes at `at`.
pub fn read_le32(b: &[u8], at: usize) -> (x: u32)
    requires
        at + 4 <= b@.len(),
    ensures
        x == le32_value(b@.subrange(at as int, at + 4)),
{
    let x0: u32 = b[at] as u32;
    let x1: u32 = b[at + 1] as u32;
    let x2: u32 = b[at + 2] as u32;
    let x3: u32 = b[at + 3] as u32;
    x0 + 256 * x1 + 65536 * x2 + 16777216 * x3
}

/// Reads the two bytes at `at`.
pub fn read_le16(b: &[u8], at: usize) -> (x: u16)
    requires
        at + 2 <= b@.len(),
    ensures
        x == le16_value(b@.subrange(at as int, at + 2)),
{
    let x0: u16 = b[at] as u16;
    let x1: u16 = b[at + 1] as u16;
    x0 + 256 * x1
}

/// Appends all of `more`.
pub fn extend(out: &mut Vec<u8>, more: &[u8])
    ensures
        final(out)@ == old(out)@ + more@,
{
    let ghost start = out@;
    out.extend_from_slice(more);
    assert(out@ =~= start + more@);
}

/// A copy of the bytes from `from` up to `to`.
pub fn copy_range(b: &[u8], from: usize, to: usize) -> (r: Vec<u8>)
    requires
        from <= to <= b@.len(),
    ensures
        r@ == b@.subrange(from as int, to as int),
{
    let mut r: Vec<u8> = Vec::new();
    r.extend_from_slice(&b[from..to]);
    assert(r@ =~= b@.subrange(from as int, to as int));
    r
}

/// A copy of all bytes.
pub fn copy_all(b: &[u8]) -> (r: Vec<u8>)
    ensures
        r@ == b@,
{
    let mut r: Vec<u8> = Vec::new();
    extend(&mut r, b);
    assert(r@ =~= b@);
    r
}

/// `std::str::from_utf8`: the text whose UTF-8 encoding the bytes are, and
/// `None` exactly when they encode no text.
#[verifier::external_body]
pub(crate) fn text_of(b: &[u8]) -> (r: Option<String>)
    ensures
        match r {
            Some(s) => vstd::utf8::valid_utf8(b@) && vstd::utf8::encode_utf8(s@) == b@,
            None => !vstd::utf8::valid_utf8(b@),
        },
{
    match std::str::from_utf8(b) {
        Ok(s) => Some(s.to_string()),
        Err(_) => None,
    }
}

} // verus!
