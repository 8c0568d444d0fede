use vstd::prelude::*;

verus! {

/// Big-endian bytes of a 16-bit value.
pub open spec fn be16(v: u16) -> Seq<u8> {
    seq![(v / 256) as u8, (v % 256) as u8]
}

/// Big-endian bytes of a 32-bit value.
pub open spec fn be32(v: u32) -> Seq<u8> {
    seq![(v / 0x1000000) as u8, (v / 0x10000 % 256) as u8, (v / 256 % 256) as u8, (v % 256) as u8]
}

/// The big-endian 16-bit value at offset `i` of `b`.
pub open spec fn be16_at(b: Seq<u8>, i: int) -> u16 {
    (b[i] as nat * 256 + b[i + 1] as nat) as u16
}

/// Reading back the bytes of a 16-bit value gives the value.
pub proof fn lemma_be16(v: u16)
    ensures
        be16_at(be16(v), 0) == v,
{
    let hi = (v / 256) as u8;
    let lo = (v % 256) as u8;
    assert(hi as nat * 256 + lo as nat == v as nat);
}

/// Big-endian bytes of a 16-bit value.
pub fn write_u16(v: u16) -> (r: Vec<u8>)
    ensures
        r@ == be16(v),
{
    let r: Vec<u8> = vec![(v / 256) as u8, (v % 256) as u8];
    assert(r@ =~= be16(v));
    r
}

/// Big-endian bytes of a 32-bit value.
pub fn write_u32(v: u32) -> (r: Vec<u8>)
    ensures
        r@ == be32(v),
{
    let r: Vec<u8> = vec![(v / 0x1000000) as u8, (v / 0x10000 % 256) as u8, (v / 256 % 256) as u8, (v % 256) as u8];
    assert(r@ =~= be32(v));
    r
}

/// The big-endian 16-bit value at offset `i` of `b`.
pub fn read_u16(b: &[u8], i: usize) -> (r: u16)
    requires
        i + 1 < b@.len(),
    ensures
        r == be16_at(b@, i as int),
{
    b[i] as u16 * 256 + b[i + 1] as u16
}

} // verus!
