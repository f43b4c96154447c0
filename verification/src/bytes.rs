//! Little-endian numbers as byte sequences.

use byteorder::ByteOrder;
use byteorder::LittleEndian;
use vstd::prelude::*;
use vstd::slice::slice_subrange;

verus! {

/// 256 to the power `n`: the number of values that `n` bytes can hold.
pub open spec fn pow256(n: nat) -> nat
    decreases n,
{
    if n == 0 {
        1
    } else {
        256 * pow256((n - 1) as nat)
    }
}

/// The number that the bytes `b` hold, least significant byte first.
pub open spec fn le_value(b: Seq<u8>) -> nat
    decreases b.len(),
{
    if b.len() == 0 {
        0
    } else {
        b[0] as nat + 256 * le_value(b.drop_first())
    }
}

/// The `n` low bytes of `v`, least significant byte first.
pub open spec fn le_bytes(v: nat, n: nat) -> Seq<u8>
    decreases n,
{
    if n == 0 {
        Seq::empty()
    } else {
        seq![(v % 256) as u8] + le_bytes(v / 256, (n - 1) as nat)
    }
}

/// The powers of 256 for the widths in use.
pub proof fn lemma_pow256_values()
    ensures
        pow256(0) == 1,
        pow256(1) == 0x100,
        pow256(2) == 0x1_0000,
        pow256(3) == 0x100_0000,
        pow256(4) == 0x1_0000_0000,
        pow256(5) == 0x100_0000_0000,
        pow256(6) == 0x1_0000_0000_0000,
        pow256(7) == 0x100_0000_0000_0000,
        pow256(8) == 0x1_0000_0000_0000_0000,
{
    reveal_with_fuel(pow256, 9);
}

/// `le_bytes(v, n)` has `n` bytes.
pub proof fn lemma_le_bytes_len(v: nat, n: nat)
    ensures
        le_bytes(v, n).len() == n,
    decreases n,
{
    if n > 0 {
        lemma_le_bytes_len(v / 256, (n - 1) as nat);
    }
}

/// A sequence of `n` bytes holds a number below `256^n`.
pub proof fn lemma_le_value_bound(b: Seq<u8>)
    ensures
        le_value(b) < pow256(b.len()),
    decreases b.len(),
{
    if b.len() > 0 {
        lemma_le_value_bound(b.drop_first());
    }
}

/// Reading back the `n` bytes written for a number that fits in them gives the number.
pub proof fn lemma_le_value_of_bytes(v: nat, n: nat)
    requires
        v < pow256(n),
    ensures
        le_value(le_bytes(v, n)) == v,
    decreases n,
{
    if n > 0 {
        let rest = le_bytes(v / 256, (n - 1) as nat);
        let all = le_bytes(v, n);
        lemma_le_value_of_bytes(v / 256, (n - 1) as nat);
        assert(all.drop_first() =~= rest);
        assert(all[0] == (v % 256) as u8);
    }
}

/// Writing the number that a byte sequence holds, in as many bytes, gives the sequence.
pub proof fn lemma_le_bytes_of_value(b: Seq<u8>)
    ensures
        le_bytes(le_value(b), b.len()) == b,
    decreases b.len(),
{
    if b.len() > 0 {
        let v = le_value(b);
        lemma_le_bytes_of_value(b.drop_first());
        assert(v % 256 == b[0] as nat);
        assert(v / 256 == le_value(b.drop_first()));
        assert(le_bytes(v, b.len()) =~= b);
    }
}

/// Calls `byteorder::LittleEndian::read_uint`, which copies the first `nbytes`
/// bytes of `buf` into the low end of a zeroed eight-byte buffer and reads that
/// as a little-endian `u64`. It panics unless `1 <= nbytes <= 8` and `buf` has
/// that many bytes.
#[verifier::external_body]
pub(crate) fn read_uint_le(buf: &[u8], nbytes: usize) -> (v: u64)
    requires
        1 <= nbytes <= 8,
        nbytes <= buf@.len(),
    ensures
        v as nat == le_value(buf@.subrange(0, nbytes as int)),
{
    LittleEndian::read_uint(buf, nbytes)
}

/// Calls `byteorder::LittleEndian::write_uint` on a fresh buffer of `nbytes`
/// bytes, which stores the `nbytes` low bytes of `v`, least significant first.
/// It panics unless `1 <= nbytes <= 8` and `v` fits in `nbytes` bytes.
#[verifier::external_body]
pub(crate) fn uint_le_bytes(v: u64, nbytes: usize) -> (out: Vec<u8>)
    requires
        1 <= nbytes <= 8,
        (v as nat) < pow256(nbytes as nat),
    ensures
        out@ == le_bytes(v as nat, nbytes as nat),
{
    let mut out = vec![0u8; nbytes];
    LittleEndian::write_uint(&mut out, v, nbytes);
    out
}

/// Reads the little-endian `u16` at `at`.
pub fn read_u16_le(buf: &[u8], at: usize) -> (v: u16)
    requires
        at + 2 <= buf@.len(),
    ensures
        v as nat == le_value(buf@.subrange(at as int, at + 2)),
{
    let len: usize = buf.len();
    assert(at + 2 <= len);
    let field = slice_subrange(buf, at, at + 2);
    let wide: u64 = read_uint_le(field, 2);
    proof {
        assert(field@.subrange(0, 2) =~= field@);
        lemma_le_value_bound(field@);
        lemma_pow256_values();
    }
    wide as u16
}

/// Reads the little-endian `u32` at `at`.
pub fn read_u32_le(buf: &[u8], at: usize) -> (v: u32)
    requires
        at + 4 <= buf@.len(),
    ensures
        v as nat == le_value(buf@.subrange(at as int, at + 4)),
{
    let len: usize = buf.len();
    assert(at + 4 <= len);
    let field = slice_subrange(buf, at, at + 4);
    let wide: u64 = read_uint_le(field, 4);
    proof {
        assert(field@.subrange(0, 4) =~= field@);
        lemma_le_value_bound(field@);
        lemma_pow256_values();
    }
    wide as u32
}

/// Reads the little-endian `u64` at `at`.
pub fn read_u64_le(buf: &[u8], at: usize) -> (v: u64)
    requires
        at + 8 <= buf@.len(),
    ensures
        v as nat == le_value(buf@.subrange(at as int, at + 8)),
{
    let len: usize = buf.len();
    assert(at + 8 <= len);
    let field = slice_subrange(buf, at, at + 8);
    proof {
        assert(field@.subrange(0, 8) =~= field@);
    }
    read_uint_le(field, 8)
}

/// The two bytes of `v`, least significant first.
pub fn u16_le_bytes(v: u16) -> (out: Vec<u8>)
    ensures
        out@ == le_bytes(v as nat, 2),
        out@.len() == 2,
{
    proof {
        lemma_pow256_values();
        lemma_le_bytes_len(v as nat, 2);
    }
    uint_le_bytes(v as u64, 2)
}

/// The four bytes of `v`, least significant first.
pub fn u32_le_bytes(v: u32) -> (out: Vec<u8>)
    ensures
        out@ == le_bytes(v as nat, 4),
        out@.len() == 4,
{
    proof {
        lemma_pow256_values();
        lemma_le_bytes_len(v as nat, 4);
    }
    uint_le_bytes(v as u64, 4)
}

/// The eight bytes of `v`, least significant first.
pub fn u64_le_bytes(v: u64) -> (out: Vec<u8>)
    ensures
        out@ == le_bytes(v as nat, 8),
        out@.len() == 8,
{
    proof {
        lemma_pow256_values();
        lemma_le_bytes_len(v as nat, 8);
    }
    uint_le_bytes(v, 8)
}

} // verus!
