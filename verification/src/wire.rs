//! Big-endian integers, byte strings and four-byte alignment: the building
//! blocks of the STUN wire format.

use vstd::prelude::*;
use vstd::slice::{slice_subrange, slice_to_vec};

verus! {

/// The 16-bit value whose big-endian encoding is `hi`, `lo`.
pub open spec fn be16(hi: u8, lo: u8) -> u16 {
    (hi as int * 256 + lo as int) as u16
}

/// The big-endian encoding of `value`, two bytes.
pub open spec fn be16_bytes(value: u16) -> Seq<u8> {
    seq![(value as int / 256) as u8, (value as int % 256) as u8]
}

/// The big-endian encoding of `value`, four bytes.
pub open spec fn be32_bytes(value: u32) -> Seq<u8> {
    seq![
        (value as int / 0x100_0000) as u8,
        (value as int / 0x1_0000 % 256) as u8,
        (value as int / 0x100 % 256) as u8,
        (value as int % 256) as u8,
    ]
}

/// `len` rounded up to the next multiple of four.
pub open spec fn padded_len(len: nat) -> nat {
    if len % 4 == 0 {
        len
    } else {
        (len + 4 - len % 4) as nat
    }
}

/// `count` zero bytes.
pub open spec fn zeros(count: nat) -> Seq<u8> {
    Seq::new(count, |i: int| 0u8)
}

/// The bytes of `a` and `b`, XORed position by position, as far as the
/// shorter of the two reaches.
pub open spec fn xor_bytes(a: Seq<u8>, b: Seq<u8>) -> Seq<u8> {
    Seq::new(
        if a.len() <= b.len() {
            a.len()
        } else {
            b.len()
        },
        |i: int| a[i] ^ b[i],
    )
}

/// Decoding undoes encoding, and encoding undoes decoding.
pub proof fn lemma_be16_roundtrip(value: u16, hi: u8, lo: u8)
    ensures
        be16_bytes(value).len() == 2,
        be16(be16_bytes(value)[0], be16_bytes(value)[1]) == value,
        be16_bytes(be16(hi, lo)) == seq![hi, lo],
{
}

/// Reads the big-endian 16-bit integer at `at`.
pub fn read_be16(buf: &[u8], at: usize) -> (value: u16)
    requires
        at + 2 <= buf@.len(),
    ensures
        value == be16(buf@[at as int], buf@[at + 1]),
{
    let hi: u16 = buf[at] as u16;
    let lo: u16 = buf[at + 1] as u16;
    hi * 256 + lo
}

/// Appends the big-endian encoding of `value` to `out`.
pub fn write_be16(out: &mut Vec<u8>, value: u16)
    ensures
        final(out)@ == old(out)@ + be16_bytes(value),
{
    out.push((value / 256) as u8);
    out.push((value % 256) as u8);
}

/// Appends the big-endian encoding of `value` to `out`.
pub fn write_be32(out: &mut Vec<u8>, value: u32)
    ensures
        final(out)@ == old(out)@ + be32_bytes(value),
{
    out.push((value / 0x100_0000) as u8);
    out.push((value / 0x1_0000 % 256) as u8);
    out.push((value / 0x100 % 256) as u8);
    out.push((value % 256) as u8);
}

/// Appends `bytes` to `out`.
pub fn write_bytes(out: &mut Vec<u8>, bytes: &[u8])
    ensures
        final(out)@ == old(out)@ + bytes@,
{
    out.extend_from_slice(bytes);
}

/// Appends `count` zero bytes to `out`.
pub fn write_zeros(out: &mut Vec<u8>, count: usize)
    ensures
        final(out)@ == old(out)@ + zeros(count as nat),
{
    let mut written: usize = 0;
    while written < count
        invariant
            written <= count,
            out@ == old(out)@ + zeros(written as nat),
        decreases count - written,
    {
        out.push(0u8);
        written = written + 1;
    }
}

/// The bytes of `buf` from `from` up to `to`, in a vector of their own.
pub fn copy_range(buf: &[u8], from: usize, to: usize) -> (copy: Vec<u8>)
    requires
        from <= to <= buf@.len(),
    ensures
        copy@ == buf@.subrange(from as int, to as int),
{
    slice_to_vec(slice_subrange(buf, from, to))
}

/// Whether `a` and `b` hold the same bytes.
pub fn same_bytes(a: &[u8], b: &[u8]) -> (same: bool)
    ensures
        same == (a@ == b@),
{
    if a.len() != b.len() {
        return false;
    }
    let mut at: usize = 0;
    while at < a.len()
        invariant
            at <= a@.len(),
            a@.len() == b@.len(),
            forall|i: int| 0 <= i < at ==> a@[i] == b@[i],
        decreases a@.len() - at,
    {
        if a[at] != b[at] {
            return false;
        }
        at = at + 1;
    }
    assert(a@ =~= b@);
    true
}

} // verus!
