use vstd::prelude::*;

pub use crate::response::is_local_addrss;
pub use crate::text::join_host_port;

verus! {

/// The smallest multiple of four that is at least `n`.
pub open spec fn align4(n: nat) -> nat {
    ((n + 3) / 4 * 4) as nat
}

/// `v` followed by zero bytes up to the next multiple of four.
pub open spec fn padded(v: Seq<u8>) -> Seq<u8> {
    v + Seq::new((align4(v.len()) - v.len()) as nat, |i: int| 0u8)
}

/// Rounds `n` up to a multiple of four.
pub fn align(n: u16) -> (r: u16)
    requires
        n <= 65532,
    ensures
        r as nat == align4(n as nat),
{
    let r = (n + 3) & 0xfffc;
    assert(((n + 3) as u16 & 0xfffc) as nat == ((n + 3) as u16 / 4 * 4) as nat) by (bit_vector)
        requires n <= 65532;
    r
}

/// Rounding up to a multiple of four is the same as adding three and
/// clearing the two low bits.
pub proof fn lemma_align_mask(n: u16)
    requires
        n <= 65532,
    ensures
        align4(n as nat) == (((n + 3) as u16) & 0xfffcu16) as nat,
{
    assert(((n + 3) as u16 & 0xfffc) as nat == ((n + 3) as u16 / 4 * 4) as nat) by (bit_vector)
        requires n <= 65532;
}

/// Copies `value` and appends zero bytes up to a multiple of four.
pub fn padding(value: &[u8]) -> (r: Vec<u8>)
    requires
        value@.len() + 3 <= usize::MAX,
    ensures
        r@ == padded(value@),
{
    let len = value.len();
    let target = (len + 3) / 4 * 4;
    let mut out: Vec<u8> = Vec::with_capacity(target);
    let mut i: usize = 0;
    while i < len
        invariant
            i <= len,
            len == value@.len(),
            out@ == value@.subrange(0, i as int),
        decreases len - i,
    {
        out.push(value[i]);
        i += 1;
    }
    while out.len() < target
        invariant
            len <= out@.len() <= target,
            target == align4(len as nat),
            len == value@.len(),
            out@.subrange(0, len as int) == value@,
            forall|k: int| len <= k < out@.len() ==> out@[k] == 0u8,
        decreases target - out.len(),
    {
        out.push(0u8);
    }
    assert(out@ =~= padded(value@));
    out
}

/// Padding yields a multiple of four bytes that starts with the input.
pub proof fn lemma_padded(v: Seq<u8>)
    ensures
        padded(v).len() % 4 == 0,
        padded(v).subrange(0, v.len() as int) == v,
        padded(v).len() < v.len() + 4,
{
    assert(padded(v).subrange(0, v.len() as int) =~= v);
}

/// The first sixteen bytes of `v`, with zeros after its end.
pub open spec fn first16(v: Seq<u8>) -> Seq<u8> {
    Seq::new(16, |i: int| if i < v.len() { v[i] } else { 0u8 })
}

/// Copies the first sixteen bytes of `vec` into an array, zero-filled
/// where `vec` is shorter.
pub fn convert_vec_to_u8_array(vec: &Vec<u8>) -> (r: [u8; 16])
    ensures
        r@ == first16(vec@),
{
    let mut arry: [u8; 16] = [0; 16];
    let n: usize = if vec.len() < 16 { vec.len() } else { 16 };
    let mut i: usize = 0;
    while i < n
        invariant
            i <= n,
            n == if vec@.len() < 16 { vec@.len() } else { 16 },
            arry@.len() == 16,
            forall|k: int| 0 <= k < i ==> arry@[k] == vec@[k],
            forall|k: int| i <= k < 16 ==> arry@[k] == 0u8,
        decreases n - i,
    {
        arry[i] = vec[i];
        i += 1;
    }
    assert(arry@ =~= first16(vec@));
    arry
}

} // verus!
