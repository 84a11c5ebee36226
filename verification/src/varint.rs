//! SQLite's variable-length integers: big-endian, seven bits per byte with a
//! continuation bit, and a ninth byte that is taken whole.

use vstd::prelude::*;
use vstd::arithmetic::div_mod::{lemma_basic_div, lemma_div_denominator};

verus! {

/// The length of the varint at the front of `s`, found by scanning from byte `i`:
/// the first byte among the first eight whose high bit is clear ends it, and
/// with eight continuation bytes the varint has nine bytes.
pub open spec fn varint_len_from(s: Seq<u8>, i: int) -> int
    decreases 8 - i,
{
    if i >= 8 {
        9
    } else if 0 <= i < s.len() && s[i] < 128 {
        i + 1
    } else if i < 0 {
        9
    } else {
        varint_len_from(s, i + 1)
    }
}

/// The number of bytes that the varint at the front of `s` occupies (1 to 9).
pub open spec fn varint_len(s: Seq<u8>) -> int {
    varint_len_from(s, 0)
}

/// Whether `s` holds every byte of the varint at its front.
pub open spec fn varint_complete(s: Seq<u8>) -> bool {
    varint_len(s) <= s.len()
}

/// The low seven bits of the first `n` bytes of `s`, read as one big-endian number.
pub open spec fn varint_acc(s: Seq<u8>, n: int) -> nat
    decreases n,
{
    if n <= 0 {
        0
    } else {
        varint_acc(s, n - 1) * 128 + (s[n - 1] % 128) as nat
    }
}

/// The value of the varint at the front of `s`.
pub open spec fn varint_value(s: Seq<u8>) -> nat {
    let n = varint_len(s);
    if n <= 8 {
        varint_acc(s, n)
    } else {
        varint_acc(s, 8) * 256 + s[8] as nat
    }
}

/// 128 to the power `i`.
pub open spec fn pow128(i: int) -> nat
    decreases i,
{
    if i <= 0 {
        1
    } else {
        128 * pow128(i - 1)
    }
}

/// Seven-bit groups stay below the matching power of 128.
pub proof fn lemma_varint_acc_bound(s: Seq<u8>, n: int)
    requires
        0 <= n,
    ensures
        varint_acc(s, n) < pow128(n),
    decreases n,
{
    if n > 0 {
        lemma_varint_acc_bound(s, n - 1);
    }
}

/// Up to eight groups of seven bits fit in 56 bits.
pub proof fn lemma_pow128_bound(i: int)
    requires
        0 <= i <= 8,
    ensures
        pow128(i) <= 0x100_0000_0000_0000,
{
    reveal_with_fuel(pow128, 10);
}

/// A varint's length is between 1 and 9, and its value fits in 64 bits.
pub proof fn lemma_varint_range(s: Seq<u8>)
    ensures
        1 <= varint_len(s) <= 9,
        varint_value(s) <= u64::MAX,
{
    lemma_varint_len_from_range(s, 0);
    let n = varint_len(s);
    if n <= 8 {
        lemma_varint_acc_bound(s, n);
        lemma_pow128_bound(n);
    } else {
        lemma_varint_acc_bound(s, 8);
        lemma_pow128_bound(8);
    }
}

/// Scanning from byte `i` gives a length between `i + 1` and 9.
pub proof fn lemma_varint_len_from_range(s: Seq<u8>, i: int)
    requires
        0 <= i <= 8,
    ensures
        i < varint_len_from(s, i) <= 9,
    decreases 8 - i,
{
    if i < 8 && !(i < s.len() && s[i] < 128) {
        lemma_varint_len_from_range(s, i + 1);
    }
}

/// Reads the varint that starts at `start` and lies within `buf[start..end]`.
/// Returns its value and its length in bytes, or `None` where the bytes up to
/// `end` do not hold all of it.
pub fn read_varint(buf: &[u8], start: usize, end: usize) -> (r: Option<(u64, usize)>)
    requires
        start <= end <= buf@.len(),
    ensures
        r is Some <==> varint_complete(buf@.subrange(start as int, end as int)),
        r matches Some((v, n)) ==> v == varint_value(buf@.subrange(start as int, end as int))
            && n == varint_len(buf@.subrange(start as int, end as int)),
{
    let ghost sub = buf@.subrange(start as int, end as int);
    let avail: usize = end - start;
    let mut result: u64 = 0;
    let mut i: usize = 0;
    while i < 8
        invariant
            i <= 8,
            start <= end <= buf@.len(),
            avail == end - start,
            sub == buf@.subrange(start as int, end as int),
            result == varint_acc(sub, i as int),
            result < pow128(i as int),
            varint_len_from(sub, 0) == varint_len_from(sub, i as int),
        decreases 8 - i,
    {
        proof {
            lemma_pow128_bound(i as int);
            lemma_varint_len_from_range(sub, i as int);
        }
        if i >= avail {
            proof {
                lemma_varint_len_from_range(sub, i as int + 1);
            }
            return None;
        }
        let b: u8 = buf[start + i];
        assert(b == sub[i as int]);
        result = result * 128 + (b % 128) as u64;
        if b < 128 {
            return Some((result, i + 1));
        }
        i += 1;
    }
    if avail <= 8 {
        return None;
    }
    let last: u8 = buf[start + 8];
    assert(last == sub[8]);
    proof {
        lemma_pow128_bound(8);
    }
    result = result * 256 + last as u64;
    Some((result, 9))
}

/// Decodes the varint at the front of `buf` into its value and its length in bytes.
pub fn parse_varint(buf: &[u8]) -> (r: (u64, usize))
    requires
        varint_complete(buf@),
    ensures
        r.0 == varint_value(buf@),
        r.1 == varint_len(buf@),
{
    assert(buf@.subrange(0, buf@.len() as int) =~= buf@);
    read_varint(buf, 0, buf.len()).unwrap()
}

/// The number of bytes of the encoding of `v`: seven bits to a byte up to
/// 56 bits, and nine bytes beyond that.
pub open spec fn varint_size(v: u64) -> int {
    if v < 0x80 {
        1
    } else if v < 0x4000 {
        2
    } else if v < 0x20_0000 {
        3
    } else if v < 0x1000_0000 {
        4
    } else if v < 0x8_0000_0000 {
        5
    } else if v < 0x400_0000_0000 {
        6
    } else if v < 0x2_0000_0000_0000 {
        7
    } else if v < 0x100_0000_0000_0000 {
        8
    } else {
        9
    }
}

/// The group of seven bits of `x` with the number `k`, counted from the least
/// significant group.
pub open spec fn group7(x: nat, k: int) -> nat {
    (x / pow128(k)) % 128
}

/// The encoding of `v` as a varint. In up to eight bytes, each byte carries
/// seven bits, most significant first, and every byte but the last has its
/// high bit set. In nine bytes, the first eight carry the upper 56 bits in
/// that way, all with the high bit set, and the ninth is the lowest byte of `v`.
pub open spec fn varint_encoding(v: u64) -> Seq<u8> {
    let n = varint_size(v);
    if n == 9 {
        Seq::new(
            9,
            |i: int|
                if i < 8 {
                    (128 + group7(v as nat / 256, 7 - i)) as u8
                } else {
                    (v % 256) as u8
                },
        )
    } else {
        Seq::new(
            n as nat,
            |i: int|
                if i < n - 1 {
                    (128 + group7(v as nat, n - 1 - i)) as u8
                } else {
                    (v % 128) as u8
                },
        )
    }
}

/// The powers of 128 up to the eighth.
pub proof fn lemma_pow128_values()
    ensures
        pow128(0) == 1,
        pow128(1) == 0x80,
        pow128(2) == 0x4000,
        pow128(3) == 0x20_0000,
        pow128(4) == 0x1000_0000,
        pow128(5) == 0x8_0000_0000,
        pow128(6) == 0x400_0000_0000,
        pow128(7) == 0x2_0000_0000_0000,
        pow128(8) == 0x100_0000_0000_0000,
{
    reveal_with_fuel(pow128, 10);
}

/// A power of 128 is positive.
pub proof fn lemma_pow128_positive(k: int)
    ensures
        pow128(k) > 0,
    decreases k,
{
    if k > 0 {
        lemma_pow128_positive(k - 1);
    }
}

/// Where the first `n` bytes of `e` carry the `n` groups of seven bits of `x`,
/// most significant first, the first `k` of them add up to `x` without its
/// lowest `n - k` groups.
pub proof fn lemma_acc_of_groups(e: Seq<u8>, x: nat, n: int, k: int)
    requires
        0 <= k <= n <= e.len(),
        x < pow128(n),
        forall|i: int| 0 <= i < n ==> e[i] % 128 == #[trigger] group7(x, n - 1 - i),
    ensures
        varint_acc(e, k) == x / pow128(n - k),
    decreases k,
{
    if k == 0 {
        lemma_basic_div(x as int, pow128(n) as int);
    } else {
        lemma_acc_of_groups(e, x, n, k - 1);
        let p = pow128(n - k);
        lemma_pow128_positive(n - k);
        assert(pow128(n - k + 1) == 128 * p);
        lemma_div_denominator(x as int, p as int, 128);
        assert(p * 128 == 128 * p);
        let y = x / p;
        assert(e[k - 1] % 128 == group7(x, n - 1 - (k - 1)));
        assert(group7(x, n - k) == y % 128);
        assert(varint_acc(e, k - 1) == y / 128);
        assert((y / 128) * 128 + y % 128 == y);
    }
}

/// Where the bytes `i..n - 1` of `e` have the high bit set and byte `n - 1`
/// has not, a scan from byte `i` finds the length `n`.
pub proof fn lemma_varint_len_scan(e: Seq<u8>, i: int, n: int)
    requires
        0 <= i < n <= 8,
        n <= e.len(),
        forall|j: int| i <= j < n - 1 ==> e[j] >= 128,
        e[n - 1] < 128,
    ensures
        varint_len_from(e, i) == n,
    decreases n - i,
{
    if i < n - 1 {
        lemma_varint_len_scan(e, i + 1, n);
    }
}

/// Where the bytes `i..8` of `e` have the high bit set, a scan from byte `i`
/// finds the length 9.
pub proof fn lemma_varint_len_scan_nine(e: Seq<u8>, i: int)
    requires
        0 <= i <= 8,
        forall|j: int| i <= j < 8 && j < e.len() ==> e[j] >= 128,
    ensures
        varint_len_from(e, i) == 9,
    decreases 8 - i,
{
    if i < 8 {
        lemma_varint_len_scan_nine(e, i + 1);
    }
}

/// Encoding and then decoding gives the value back, and the length that is
/// decoded is the length of the encoding: for every `v`, the encoding of `v`
/// is a complete varint of `varint_size(v)` bytes whose value is `v`.
pub proof fn lemma_varint_round_trip(v: u64)
    ensures
        varint_encoding(v).len() == varint_size(v),
        varint_complete(varint_encoding(v)),
        varint_len(varint_encoding(v)) == varint_encoding(v).len(),
        varint_value(varint_encoding(v)) == v,
{
    let e = varint_encoding(v);
    let n = varint_size(v);
    lemma_pow128_values();
    if n == 9 {
        let x = v as nat / 256;
        assert forall|i: int| 0 <= i < 8 implies e[i] % 128 == #[trigger] group7(x, 8 - 1 - i) && e[i]
            >= 128 by {
            assert(e[i] == (128 + group7(x, 7 - i)) as u8);
        }
        lemma_varint_len_scan_nine(e, 0);
        lemma_acc_of_groups(e, x, 8, 8);
        assert(e[8] == (v % 256) as u8);
        assert(varint_acc(e, 8) == x / pow128(0));
        assert(x / 1 == x);
        assert(varint_acc(e, 8) == x);
        assert(varint_len(e) == 9);
        assert(x * 256 + v % 256 == v);
    } else {
        let x = v as nat;
        assert forall|i: int| 0 <= i < n implies e[i] % 128 == #[trigger] group7(x, n - 1 - i) by {
            if i < n - 1 {
                assert(e[i] == (128 + group7(x, n - 1 - i)) as u8);
            } else {
                assert(e[i] == (v % 128) as u8);
                assert(group7(x, 0) == (x / 1) % 128);
            }
        }
        assert forall|j: int| 0 <= j < n - 1 implies e[j] >= 128 by {
            assert(e[j] == (128 + group7(x, n - 1 - j)) as u8);
        }
        assert(e[n - 1] == (v % 128) as u8);
        lemma_varint_len_scan(e, 0, n);
        lemma_acc_of_groups(e, x, n, n);
        assert(varint_len(e) == n);
        assert(varint_acc(e, n) == x);
    }
}

/// The number of bytes of the encoding of `v`.
pub fn varint_size_of(v: u64) -> (n: usize)
    ensures
        n == varint_size(v),
{
    if v < 0x80 {
        1
    } else if v < 0x4000 {
        2
    } else if v < 0x20_0000 {
        3
    } else if v < 0x1000_0000 {
        4
    } else if v < 0x8_0000_0000 {
        5
    } else if v < 0x400_0000_0000 {
        6
    } else if v < 0x2_0000_0000_0000 {
        7
    } else if v < 0x100_0000_0000_0000 {
        8
    } else {
        9
    }
}

/// Encodes `v` as a varint.
pub fn encode_varint(v: u64) -> (r: Vec<u8>)
    ensures
        r@ == varint_encoding(v),
{
    let n = varint_size_of(v);
    // The groups of seven bits come from `x`, in `m` bytes with the high bit set.
    let (x, m): (u64, usize) = if n == 9 {
        (v / 256, 8)
    } else {
        (v, n - 1)
    };
    let top: usize = if n == 9 {
        7
    } else {
        n - 1
    };
    let mut d: u64 = 1;
    let mut k: usize = 0;
    proof {
        lemma_pow128_values();
    }
    while k < top
        invariant
            k <= top <= 7,
            d == pow128(k as int),
        decreases top - k,
    {
        proof {
            lemma_pow128_bound(k as int + 1);
        }
        d = d * 128;
        k += 1;
    }
    let mut out: Vec<u8> = Vec::new();
    let mut i: usize = 0;
    while i < m
        invariant
            i <= m <= 8,
            m <= top + 1,
            top <= 7,
            i <= top ==> d == pow128(top - i),
            out@.len() == i,
            forall|j: int| 0 <= j < i ==> out@[j] == (128 + group7(x as nat, top - j)) as u8,
        decreases m - i,
    {
        proof {
            lemma_pow128_positive(top - i);
        }
        let g: u64 = (x / d) % 128;
        out.push((128 + g) as u8);
        d = d / 128;
        i += 1;
        proof {
            if i <= top {
                assert(pow128(top - i + 1) == 128 * pow128(top - i));
            }
        }
    }
    if n == 9 {
        out.push((v % 256) as u8);
    } else {
        out.push((v % 128) as u8);
    }
    assert(out@ =~= varint_encoding(v));
    out
}

} // verus!
