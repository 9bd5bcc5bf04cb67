//! Fixed-width little-endian integers, the layout of every integer key and
//! of every integer field of a stored record.

use vstd::prelude::*;

verus! {

/// 256 to the power `n`: the number of values that `n` bytes can hold.
pub open spec fn pow256(n: nat) -> nat
    decreases n,
{
    if n == 0 {
        1
    } else {
        256 * pow256((n - 1) as nat)
    }
}

/// 2 to the power `n`: the weight of bit `n` of an integer.
pub open spec fn pow2(n: nat) -> nat
    decreases n,
{
    if n == 0 {
        1
    } else {
        2 * pow2((n - 1) as nat)
    }
}

/// The weights of the low bits of a byte.
pub proof fn lemma_pow2_values()
    ensures
        pow2(0) == 1,
        pow2(1) == 2,
        pow2(2) == 4,
        pow2(3) == 8,
        pow2(4) == 16,
{
    reveal_with_fuel(pow2, 5);
}

/// The `width` bytes that hold `x`, least significant first. Where `x` does
/// not fit, its high part is left out.
pub open spec fn le_bytes(x: nat, width: nat) -> Seq<u8>
    decreases width,
{
    if width == 0 {
        Seq::empty()
    } else {
        seq![(x % 256) as u8] + le_bytes(x / 256, (width - 1) as nat)
    }
}

/// The number that the bytes of `s` hold, least significant first.
pub open spec fn le_value(s: Seq<u8>) -> nat
    decreases s.len(),
{
    if s.len() == 0 {
        0
    } else {
        s[0] as nat + 256 * le_value(s.drop_first())
    }
}

/// The eight bytes that hold `x`, least significant first.
pub open spec fn u64_le(x: u64) -> Seq<u8> {
    le_bytes(x as nat, 8)
}

/// The integer that eight bytes hold, least significant first.
pub open spec fn u64_of_le(s: Seq<u8>) -> u64
    recommends
        s.len() == 8,
{
    le_value(s) as u64
}

/// The four bytes that hold `x`, least significant first.
pub open spec fn u32_le(x: u32) -> Seq<u8> {
    le_bytes(x as nat, 4)
}

/// The integer that four bytes hold, least significant first.
pub open spec fn u32_of_le(s: Seq<u8>) -> u32
    recommends
        s.len() == 4,
{
    le_value(s) as u32
}

/// Four bytes hold the numbers below 2^32, eight bytes those below 2^64.
pub proof fn lemma_pow256_values()
    ensures
        pow256(0) == 1,
        pow256(1) == 0x100,
        pow256(4) == 0x1_0000_0000,
        pow256(7) == 0x100_0000_0000_0000,
        pow256(8) == 0x1_0000_0000_0000_0000,
{
    reveal_with_fuel(pow256, 9);
}

/// `le_bytes` gives as many bytes as it was asked for.
pub proof fn lemma_le_bytes_len(x: nat, width: nat)
    ensures
        le_bytes(x, width).len() == width,
    decreases width,
{
    if width > 0 {
        lemma_le_bytes_len(x / 256, (width - 1) as nat);
    }
}

/// The number held by `n` bytes is below 256 to the power `n`.
pub proof fn lemma_le_value_bound(s: Seq<u8>)
    ensures
        le_value(s) < pow256(s.len()),
    decreases s.len(),
{
    if s.len() > 0 {
        lemma_le_value_bound(s.drop_first());
    }
}

/// Reading back the bytes of a number that fits gives the number again.
pub proof fn lemma_le_value_of_bytes(x: nat, width: nat)
    requires
        x < pow256(width),
    ensures
        le_value(le_bytes(x, width)) == x,
    decreases width,
{
    if width > 0 {
        let rest = le_bytes(x / 256, (width - 1) as nat);
        lemma_le_value_of_bytes(x / 256, (width - 1) as nat);
        assert(le_bytes(x, width).drop_first() =~= rest);
    }
}

/// Writing the number that some bytes hold gives the bytes again.
pub proof fn lemma_le_bytes_of_value(s: Seq<u8>)
    ensures
        le_bytes(le_value(s), s.len()) == s,
    decreases s.len(),
{
    if s.len() > 0 {
        lemma_le_bytes_of_value(s.drop_first());
        assert(le_value(s) / 256 == le_value(s.drop_first()));
        assert(le_value(s) % 256 == s[0]);
        assert(le_bytes(le_value(s), s.len()) =~= s);
    } else {
        assert(le_bytes(le_value(s), s.len()) =~= s);
    }
}

/// The number held by bytes is the number held by the first `k` of them,
/// and 256 to the power `k` times the number held by the rest.
pub proof fn lemma_le_value_split(s: Seq<u8>, k: nat)
    requires
        k <= s.len(),
    ensures
        le_value(s) == le_value(s.take(k as int)) + pow256(k) * le_value(s.skip(k as int)),
    decreases k,
{
    if k == 0 {
        assert(s.skip(0) =~= s);
        let one = pow256(0);
        let whole = le_value(s);
        assert(one * whole == whole) by (nonlinear_arith)
            requires
                one == 1,
        ;
    } else {
        let rest = s.drop_first();
        lemma_le_value_split(rest, (k - 1) as nat);
        assert(s.take(k as int).drop_first() =~= rest.take(k - 1));
        assert(s.skip(k as int) =~= rest.skip(k - 1));
        let low = le_value(rest.take(k - 1));
        let high = le_value(rest.skip(k - 1));
        let p = pow256((k - 1) as nat);
        assert(256 * (low + p * high) == 256 * low + (256 * p) * high) by (nonlinear_arith);
    }
}

/// Reading back what was written gives the integer again.
pub proof fn lemma_u64_le_round_trip(x: u64)
    ensures
        u64_le(x).len() == 8,
        u64_of_le(u64_le(x)) == x,
{
    lemma_pow256_values();
    lemma_le_bytes_len(x as nat, 8);
    lemma_le_value_of_bytes(x as nat, 8);
}

/// Writing what was read gives the eight bytes again.
pub proof fn lemma_u64_of_le_round_trip(s: Seq<u8>)
    requires
        s.len() == 8,
    ensures
        u64_le(u64_of_le(s)) == s,
{
    lemma_pow256_values();
    lemma_le_value_bound(s);
    lemma_le_bytes_of_value(s);
}

/// Reading back what was written gives the integer again.
pub proof fn lemma_u32_le_round_trip(x: u32)
    ensures
        u32_le(x).len() == 4,
        u32_of_le(u32_le(x)) == x,
{
    lemma_pow256_values();
    lemma_le_bytes_len(x as nat, 4);
    lemma_le_value_of_bytes(x as nat, 4);
}

/// Writing what was read gives the four bytes again.
pub proof fn lemma_u32_of_le_round_trip(s: Seq<u8>)
    requires
        s.len() == 4,
    ensures
        u32_le(u32_of_le(s)) == s,
{
    lemma_pow256_values();
    lemma_le_value_bound(s);
    lemma_le_bytes_of_value(s);
}

/// Appends the low `width` bytes of `x` to `out`, least significant first.
pub fn push_le(out: &mut Vec<u8>, x: u64, width: usize)
    ensures
        final(out)@ == old(out)@ + le_bytes(x as nat, width as nat),
{
    let mut rest: u64 = x;
    let mut i: usize = 0;
    while i < width
        invariant
            i <= width,
            old(out)@ + le_bytes(x as nat, width as nat) == out@ + le_bytes(
                rest as nat,
                (width - i) as nat,
            ),
        decreases width - i,
    {
        let ghost before = out@;
        out.push((rest % 256) as u8);
        proof {
            let tail = le_bytes((rest / 256) as nat, (width - i - 1) as nat);
            assert(le_bytes(rest as nat, (width - i) as nat) == seq![(rest % 256) as u8] + tail);
            assert(before + (seq![(rest % 256) as u8] + tail) =~= out@ + tail);
        }
        rest = rest / 256;
        i = i + 1;
    }
    assert(out@ + le_bytes(rest as nat, 0) =~= out@);
}

/// Appends the eight bytes of `x` to `out`.
pub fn push_u64_le(out: &mut Vec<u8>, x: u64)
    ensures
        final(out)@ == old(out)@ + u64_le(x),
{
    push_le(out, x, 8)
}

/// Appends the four bytes of `x` to `out`.
pub fn push_u32_le(out: &mut Vec<u8>, x: u32)
    ensures
        final(out)@ == old(out)@ + u32_le(x),
{
    push_le(out, x as u64, 4)
}

/// The eight bytes of `x` as a fresh vector: the form of an integer key.
pub fn u64_to_le_bytes(x: u64) -> (out: Vec<u8>)
    ensures
        out@ == u64_le(x),
{
    let mut out: Vec<u8> = Vec::new();
    push_u64_le(&mut out, x);
    assert(out@ =~= u64_le(x));
    out
}

/// Reads the number held in the `width` bytes of `s` that start at `at`.
pub fn read_le(s: &[u8], at: usize, width: usize) -> (x: u64)
    requires
        width <= 8,
        at + width <= s@.len(),
    ensures
        x == le_value(s@.subrange(at as int, at + width)),
{
    let len: usize = s.len();
    let mut acc: u64 = 0;
    let mut i: usize = width;
    while i > 0
        invariant
            i <= width <= 8,
            at + width <= len == s@.len(),
            acc == le_value(s@.subrange(at + i, at + width)),
        decreases i,
    {
        proof {
            let cur = s@.subrange(at + i - 1, at + width);
            let prev = s@.subrange(at + i, at + width);
            assert(cur.drop_first() =~= prev);
            lemma_le_value_bound(prev);
            lemma_le_value_bound(cur);
            lemma_pow256_values();
            lemma_pow256_monotonic(cur.len(), 8);
        }
        acc = acc * 256 + s[at + i - 1] as u64;
        i = i - 1;
    }
    acc
}

/// More bytes hold more values.
pub proof fn lemma_pow256_monotonic(n: nat, m: nat)
    requires
        n <= m,
    ensures
        pow256(n) <= pow256(m),
        pow256(n) >= 1,
    decreases m,
{
    if n < m {
        lemma_pow256_monotonic(n, (m - 1) as nat);
    } else if n > 0 {
        lemma_pow256_monotonic((n - 1) as nat, (n - 1) as nat);
    }
}

/// Reads the integer held in the eight bytes of `s` that start at `at`.
pub fn read_u64_le(s: &[u8], at: usize) -> (x: u64)
    requires
        at + 8 <= s@.len(),
    ensures
        x == u64_of_le(s@.subrange(at as int, at + 8)),
{
    read_le(s, at, 8)
}

/// Reads the integer held in the four bytes of `s` that start at `at`.
pub fn read_u32_le(s: &[u8], at: usize) -> (x: u32)
    requires
        at + 4 <= s@.len(),
    ensures
        x == u32_of_le(s@.subrange(at as int, at + 4)),
{
    let wide = read_le(s, at, 4);
    proof {
        lemma_le_value_bound(s@.subrange(at as int, at + 4));
        lemma_pow256_values();
    }
    wide as u32
}

/// Appends every byte of `src` to `out`.
pub fn push_bytes(out: &mut Vec<u8>, src: &[u8])
    ensures
        final(out)@ == old(out)@ + src@,
{
    let mut i: usize = 0;
    while i < src.len()
        invariant
            i <= src@.len(),
            out@ == old(out)@ + src@.subrange(0, i as int),
        decreases src@.len() - i,
    {
        out.push(src[i]);
        i = i + 1;
        assert(out@ =~= old(out)@ + src@.subrange(0, i as int));
    }
    assert(src@.subrange(0, src@.len() as int) =~= src@);
}

/// The bytes of `s` from `from` up to `to` as a fresh vector.
pub fn copy_range(s: &[u8], from: usize, to: usize) -> (out: Vec<u8>)
    requires
        from <= to <= s@.len(),
    ensures
        out@ == s@.subrange(from as int, to as int),
{
    let mut out: Vec<u8> = Vec::new();
    let mut i: usize = from;
    while i < to
        invariant
            from <= i <= to <= s@.len(),
            out@ == s@.subrange(from as int, i as int),
        decreases to - i,
    {
        out.push(s[i]);
        i = i + 1;
        assert(out@ =~= s@.subrange(from as int, i as int));
    }
    out
}

/// All bytes of `s` as a fresh vector.
pub fn copy_bytes(s: &[u8]) -> (out: Vec<u8>)
    ensures
        out@ == s@,
{
    let out = copy_range(s, 0, s.len());
    assert(s@.subrange(0, s@.len() as int) =~= s@);
    out
}

/// The thirty-two bytes of `s` that start at `at`, as an array.
pub fn read_array32(s: &[u8], at: usize) -> (out: [u8; 32])
    requires
        at + 32 <= s@.len(),
    ensures
        out@ == s@.subrange(at as int, at + 32),
{
    let len: usize = s.len();
    let mut out: [u8; 32] = [0u8; 32];
    let mut i: usize = 0;
    while i < 32
        invariant
            i <= 32,
            at + 32 <= len == s@.len(),
            forall|j: int| 0 <= j < i ==> out@[j] == s@[at + j],
        decreases 32 - i,
    {
        out[i] = s[at + i];
        i = i + 1;
    }
    assert(out@ =~= s@.subrange(at as int, at + 32));
    out
}

} // verus!
