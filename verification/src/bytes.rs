//! Little-endian extraction of integers and identifiers from a raw account
//! buffer. Offsets are the callers' business; these readers only promise the
//! exact little-endian value of the bytes in the requested range.

use vstd::prelude::*;

verus! {

/// The value of a byte sequence read as a little-endian unsigned integer.
pub open spec fn le_bytes_val(s: Seq<u8>) -> nat
    decreases s.len(),
{
    if s.len() == 0 {
        0
    } else {
        s[0] as nat + 256 * le_bytes_val(s.subrange(1, s.len() as int))
    }
}

/// 256 to the power `k`: the number of values `k` bytes can take.
pub open spec fn pow256(k: nat) -> nat
    decreases k,
{
    if k == 0 {
        1
    } else {
        256 * pow256((k - 1) as nat)
    }
}

/// A `k`-byte little-endian value is below `pow256(k)`.
pub proof fn lemma_le_bytes_val_bound(s: Seq<u8>)
    ensures
        le_bytes_val(s) < pow256(s.len()),
    decreases s.len(),
{
    if s.len() == 0 {
    } else {
        let rest = s.subrange(1, s.len() as int);
        lemma_le_bytes_val_bound(rest);
        assert(le_bytes_val(s) < pow256(s.len())) by (nonlinear_arith)
            requires
                le_bytes_val(s) == s[0] as nat + 256 * le_bytes_val(rest),
                s[0] < 256,
                le_bytes_val(rest) < pow256(rest.len()),
                rest.len() == s.len() - 1,
                pow256(s.len()) == 256 * pow256((s.len() - 1) as nat),
        {}
    }
}

/// `pow256` grows with its exponent.
pub proof fn lemma_pow256_increases(a: nat, b: nat)
    requires
        a <= b,
    ensures
        pow256(a) <= pow256(b),
    decreases b,
{
    if a < b {
        lemma_pow256_increases(a, (b - 1) as nat);
        assert(pow256(b) == 256 * pow256((b - 1) as nat));
        assert(pow256((b - 1) as nat) <= 256 * pow256((b - 1) as nat)) by (nonlinear_arith)
            requires
                pow256((b - 1) as nat) >= 0,
        {}
    }
}

/// Reads `width` bytes (at most 16) at `offset` as a little-endian integer.
fn read_le_bytes(data: &[u8], offset: usize, width: usize) -> (r: u128)
    requires
        offset + width <= data@.len(),
        width <= 16,
    ensures
        r as nat == le_bytes_val(data@.subrange(offset as int, offset + width)),
{
    let n = data.len();
    let mut acc: u128 = 0;
    let mut j: usize = width;
    proof {
        assert(data@.subrange(offset + width, offset + width) =~= Seq::<u8>::empty());
    }
    while j > 0
        invariant
            j <= width,
            width <= 16,
            offset + width <= n,
            n == data@.len(),
            acc as nat == le_bytes_val(data@.subrange(offset + j, offset + width)),
        decreases j,
    {
        j = j - 1;
        let b = data[offset + j];
        proof {
            let tail = data@.subrange(offset + j + 1, offset + width);
            let whole = data@.subrange(offset + j, offset + width);
            lemma_le_bytes_val_bound(tail);
            lemma_pow256_increases(tail.len(), 15);
            assert(pow256(15) == 0x1000000000000000000000000000000) by {
                reveal_with_fuel(pow256, 16);
            }
            assert(whole.subrange(1, whole.len() as int) =~= tail);
            assert(le_bytes_val(whole) == whole[0] as nat + 256 * le_bytes_val(tail));
            assert(whole[0] == data@[offset + j]);
        }
        acc = acc * 256 + (b as u128);
    }
    acc
}

/// Reads the byte at `offset`.
pub fn read_u8(data: &[u8], offset: usize) -> (r: u8)
    requires
        offset < data@.len(),
    ensures
        r == data@[offset as int],
{
    data[offset]
}

/// Reads 8 bytes at `offset` as a little-endian `u64`.
pub fn read_u64_le(data: &[u8], offset: usize) -> (r: u64)
    requires
        offset + 8 <= data@.len(),
    ensures
        r as nat == le_bytes_val(data@.subrange(offset as int, offset + 8)),
{
    let wide = read_le_bytes(data, offset, 8);
    proof {
        lemma_le_bytes_val_bound(data@.subrange(offset as int, offset + 8));
        assert(pow256(8) == 0x10000000000000000) by {
            reveal_with_fuel(pow256, 9);
        }
    }
    wide as u64
}

/// Reads 16 bytes at `offset` as a little-endian `u128`.
pub fn read_u128_le(data: &[u8], offset: usize) -> (r: u128)
    requires
        offset + 16 <= data@.len(),
    ensures
        r as nat == le_bytes_val(data@.subrange(offset as int, offset + 16)),
{
    read_le_bytes(data, offset, 16)
}

/// Copies the 32-byte identifier starting at `offset`.
pub fn read_id32(data: &[u8], offset: usize) -> (r: Vec<u8>)
    requires
        offset + 32 <= data@.len(),
    ensures
        r@ == data@.subrange(offset as int, offset + 32),
{
    let n = data.len();
    let mut v: Vec<u8> = Vec::new();
    let mut j: usize = 0;
    while j < 32
        invariant
            j <= 32,
            offset + 32 <= n,
            n == data@.len(),
            v@ =~= data@.subrange(offset as int, offset + j),
        decreases 32 - j,
    {
        v.push(data[offset + j]);
        j = j + 1;
    }
    proof {
        assert(v@ =~= data@.subrange(offset as int, offset + 32));
    }
    v
}

/// Whether two byte strings hold the same bytes.
pub fn bytes_eq(a: &[u8], b: &[u8]) -> (r: bool)
    ensures
        r == (a@ =~= b@),
{
    if a.len() != b.len() {
        return false;
    }
    let mut j: usize = 0;
    while j < a.len()
        invariant
            j <= a@.len(),
            a@.len() == b@.len(),
            forall|i: int| 0 <= i < j ==> a@[i] == b@[i],
        decreases a@.len() - j,
    {
        if a[j] != b[j] {
            return false;
        }
        j = j + 1;
    }
    true
}

} // verus!
