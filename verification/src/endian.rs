//! Fixed-width integers as the file format stores them.

use vstd::prelude::*;

verus! {

/// 256 to the power `n`.
pub open spec fn pow256(n: int) -> nat
    decreases n,
{
    if n <= 0 {
        1
    } else {
        256 * pow256(n - 1)
    }
}

/// The bytes of `s` read as one unsigned number, most significant byte first.
pub open spec fn be_uint(s: Seq<u8>) -> nat
    decreases s.len(),
{
    if s.len() == 0 {
        0
    } else {
        be_uint(s.drop_last()) * 256 + s.last() as nat
    }
}

/// The bytes of `s` read as one unsigned number, least significant byte first.
pub open spec fn le_uint(s: Seq<u8>) -> nat
    decreases s.len(),
{
    if s.len() == 0 {
        0
    } else {
        s.first() as nat + 256 * le_uint(s.drop_first())
    }
}

/// The bytes of `s` read as one two's-complement number, most significant byte first.
pub open spec fn be_int(s: Seq<u8>) -> int {
    if s.len() > 0 && s[0] >= 128 {
        be_uint(s) - pow256(s.len() as int)
    } else {
        be_uint(s) as int
    }
}

/// The powers of 256 that fit a 64-bit word.
pub proof fn lemma_pow256_values()
    ensures
        pow256(0) == 1,
        pow256(1) == 0x100,
        pow256(2) == 0x1_0000,
        pow256(3) == 0x100_0000,
        pow256(4) == 0x1_0000_0000,
        pow256(5) == 0x100_0000_0000,
        pow256(6) == 0x1_0000_0000_0000,
        pow256(7) == 0x100_0000_0000_0000,
        pow256(8) == 0x1_0000_0000_0000_0000,
{
    reveal_with_fuel(pow256, 10);
}

/// A number of `s.len()` bytes is below 256 to that power.
pub proof fn lemma_be_uint_bound(s: Seq<u8>)
    ensures
        be_uint(s) < pow256(s.len() as int),
    decreases s.len(),
{
    if s.len() > 0 {
        lemma_be_uint_bound(s.drop_last());
    }
}

/// The first byte decides the upper half of the range: it is 128 or more
/// exactly when the number reaches half of 256 to the power of the length.
pub proof fn lemma_be_uint_high_byte(s: Seq<u8>)
    requires
        s.len() > 0,
    ensures
        s[0] as nat * pow256(s.len() - 1) <= be_uint(s) < (s[0] as nat + 1) * pow256(s.len() - 1),
    decreases s.len(),
{
    let n = s.len() as int;
    if n == 1 {
        assert(s.drop_last().len() == 0);
        assert(be_uint(s.drop_last()) == 0);
        assert(s.last() == s[0]);
        assert(pow256(0) == 1);
    } else {
        let t = s.drop_last();
        lemma_be_uint_high_byte(t);
        assert(t[0] == s[0]);
        assert(pow256(n - 1) == 256 * pow256(n - 2));
        let p = pow256(n - 2);
        let h = s[0] as nat;
        assert(h * (256 * p) == (h * p) * 256) by (nonlinear_arith);
        assert((h + 1) * (256 * p) == ((h + 1) * p) * 256) by (nonlinear_arith);
    }
}

/// Reads the `n` bytes at `at` as an unsigned big-endian number.
pub fn read_be(buf: &[u8], at: usize, n: usize) -> (r: u64)
    requires
        n <= 8,
        at + n <= buf@.len(),
    ensures
        r == be_uint(buf@.subrange(at as int, at + n)),
{
    let len: usize = buf.len();
    let mut r: u64 = 0;
    let mut i: usize = 0;
    while i < n
        invariant
            i <= n <= 8,
            at + n <= buf@.len(),
            len == buf@.len(),
            r == be_uint(buf@.subrange(at as int, at + i)),
        decreases n - i,
    {
        let ghost prev = buf@.subrange(at as int, at + i);
        let ghost next = buf@.subrange(at as int, at + i + 1);
        proof {
            lemma_be_uint_bound(prev);
            lemma_pow256_values();
            assert(pow256(i as int) <= pow256(7)) by {
                reveal_with_fuel(pow256, 10);
            }
            assert(next.drop_last() =~= prev);
        }
        r = r * 256 + buf[at + i] as u64;
        i += 1;
    }
    r
}

/// Reads the `n` bytes at `at` as a signed big-endian number in two's complement.
pub fn read_be_signed(buf: &[u8], at: usize, n: usize) -> (r: i64)
    requires
        1 <= n <= 8,
        at + n <= buf@.len(),
    ensures
        r == be_int(buf@.subrange(at as int, at + n)),
        -(pow256(n as int) / 2) <= r < pow256(n as int) / 2,
{
    let ghost s = buf@.subrange(at as int, at + n);
    let len: usize = buf.len();
    let v = read_be(buf, at, n);
    let negative = buf[at] >= 128;
    proof {
        lemma_pow256_values();
        lemma_be_uint_bound(s);
        lemma_be_uint_high_byte(s);
        assert(s[0] == buf@[at as int]);
        assert(pow256(n as int) == 256 * pow256(n - 1));
        let p = pow256(n - 1);
        let h = s[0] as nat;
        if negative {
            assert(128 * p <= h * p) by (nonlinear_arith)
                requires
                    128 <= h,
            ;
        } else {
            assert((h + 1) * p <= 128 * p) by (nonlinear_arith)
                requires
                    h + 1 <= 128,
            ;
        }
    }
    if !negative {
        v as i64
    } else if n == 8 {
        (v - 0x8000_0000_0000_0000) as i64 + i64::MIN
    } else {
        let span: u64 = 1u64 << (8 * n as u64);
        assert(span == pow256(n as int)) by {
            lemma_pow256_values();
            assert(1u64 << 8u64 == 0x100) by (bit_vector);
            assert(1u64 << 16u64 == 0x1_0000) by (bit_vector);
            assert(1u64 << 24u64 == 0x100_0000) by (bit_vector);
            assert(1u64 << 32u64 == 0x1_0000_0000) by (bit_vector);
            assert(1u64 << 40u64 == 0x100_0000_0000) by (bit_vector);
            assert(1u64 << 48u64 == 0x1_0000_0000_0000) by (bit_vector);
            assert(1u64 << 56u64 == 0x100_0000_0000_0000) by (bit_vector);
        }
        v as i64 - span as i64
    }
}

/// Reads the two bytes at `at` as an unsigned big-endian number.
pub fn read_be_u16(buf: &[u8], at: usize) -> (r: u16)
    requires
        at + 2 <= buf@.len(),
    ensures
        r == be_uint(buf@.subrange(at as int, at + 2)),
{
    proof {
        lemma_pow256_values();
        lemma_be_uint_bound(buf@.subrange(at as int, at + 2));
    }
    read_be(buf, at, 2) as u16
}

/// Reads the four bytes at `at` as an unsigned big-endian number.
pub fn read_be_u32(buf: &[u8], at: usize) -> (r: u32)
    requires
        at + 4 <= buf@.len(),
    ensures
        r == be_uint(buf@.subrange(at as int, at + 4)),
{
    proof {
        lemma_pow256_values();
        lemma_be_uint_bound(buf@.subrange(at as int, at + 4));
    }
    read_be(buf, at, 4) as u32
}

/// Reads the two bytes at `at` as an unsigned little-endian number.
pub fn read_le_u16(buf: &[u8], at: usize) -> (r: u16)
    requires
        at + 2 <= buf@.len(),
    ensures
        r == le_uint(buf@.subrange(at as int, at + 2)),
{
    let ghost s = buf@.subrange(at as int, at + 2);
    let len: usize = buf.len();
    proof {
        assert(s.drop_first().drop_first().len() == 0);
        assert(le_uint(s.drop_first().drop_first()) == 0);
        assert(le_uint(s.drop_first()) == s[1] as nat) by {
            assert(s.drop_first().first() == s[1]);
        }
    }
    buf[at] as u16 + 256 * (buf[at + 1] as u16)
}

} // verus!
