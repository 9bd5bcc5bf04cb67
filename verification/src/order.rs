//! The orders installed on keys and on the values of a key where the
//! engine's own order does not fit what is stored.

use vstd::prelude::*;
use crate::bytes::{
    le_value, lemma_le_value_bound, lemma_le_value_split, lemma_pow256_monotonic,
    lemma_pow256_values, read_le,
};
use crate::schema::Comparator;

verus! {

/// How one key or value stands to another.
#[derive(Clone, Copy, Debug, PartialEq, Eq, Structural)]
pub enum Order {
    Less,
    Equal,
    Greater,
}

impl Order {
    /// The number that the engine expects of a comparison: negative, zero or
    /// positive.
    pub open spec fn spec_sign(self) -> i32 {
        match self {
            Order::Less => -1i32,
            Order::Equal => 0i32,
            Order::Greater => 1i32,
        }
    }

    /// The number that the engine expects of a comparison: negative, zero or
    /// positive.
    #[verifier::when_used_as_spec(spec_sign)]
    pub fn sign(self) -> (sign: i32)
        ensures
            sign == self.spec_sign(),
    {
        match self {
            Order::Less => -1,
            Order::Equal => 0,
            Order::Greater => 1,
        }
    }
}

/// How the number `x` stands to the number `y`.
pub open spec fn order_of(x: int, y: int) -> Order {
    if x < y {
        Order::Less
    } else if x == y {
        Order::Equal
    } else {
        Order::Greater
    }
}

/// The first `n` bytes of `s`, or all of `s` where it is shorter.
pub open spec fn leading(s: Seq<u8>, n: nat) -> Seq<u8> {
    if s.len() <= n {
        s
    } else {
        s.take(n as int)
    }
}

/// The number by which the 64-bit integer order sorts `s`: the one that its
/// leading eight bytes hold, least significant first.
pub open spec fn uint64_rank(s: Seq<u8>) -> nat {
    le_value(leading(s, 8))
}

/// The number by which the hash order sorts `s`: the one that its leading
/// thirty-two bytes hold, least significant first.
pub open spec fn hash32_rank(s: Seq<u8>) -> nat {
    le_value(leading(s, 32))
}

/// How `a` stands to `b` as text: by the first byte in which they differ,
/// looking no further than the shorter of the two and no further than a
/// zero byte in both; where that finds no difference, the shorter first.
pub open spec fn text_order(a: Seq<u8>, b: Seq<u8>) -> Order
    decreases a.len(),
{
    if a.len() == 0 || b.len() == 0 {
        order_of(a.len() as int, b.len() as int)
    } else if a[0] != b[0] {
        order_of(a[0] as int, b[0] as int)
    } else if a[0] == 0 {
        order_of(a.len() as int, b.len() as int)
    } else {
        text_order(a.drop_first(), b.drop_first())
    }
}

/// How `a` stands to `b` in the order that `comparator` names.
pub open spec fn order(comparator: Comparator, a: Seq<u8>, b: Seq<u8>) -> Order {
    match comparator {
        Comparator::Uint64 => order_of(uint64_rank(a) as int, uint64_rank(b) as int),
        Comparator::Hash32 => order_of(hash32_rank(a) as int, hash32_rank(b) as int),
        Comparator::Text => text_order(a, b),
    }
}

/// The part of `s` that the word `word` of a comparison reads: eight bytes
/// from `8 * word` on, or as many as `s` has left.
spec fn word_bytes(s: Seq<u8>, word: nat) -> Seq<u8> {
    if 8 * word >= s.len() {
        Seq::empty()
    } else {
        leading(s.skip(8 * word as int), 8)
    }
}

/// The number that the word `word` of `s` holds.
spec fn word_value(s: Seq<u8>, word: nat) -> nat {
    le_value(word_bytes(s, word))
}

/// Reads the number that the word `word` of `s` holds.
fn read_word(s: &[u8], word: usize) -> (value: u64)
    requires
        word < 4,
    ensures
        value == word_value(s@, word as nat),
{
    let len = s.len();
    let start = 8 * word;
    if start >= len {
        0
    } else {
        let width = if len - start < 8 {
            len - start
        } else {
            8
        };
        assert(s@.subrange(start as int, start + width) =~= word_bytes(s@, word as nat));
        read_le(s, start, width)
    }
}

/// The rank of `s` in the 64-bit integer order is its first word.
proof fn lemma_uint64_rank_word(s: Seq<u8>)
    ensures
        uint64_rank(s) == word_value(s, 0),
        uint64_rank(s) < 0x1_0000_0000_0000_0000,
{
    assert(s.skip(0) =~= s);
    lemma_le_value_bound(leading(s, 8));
    lemma_pow256_values();
    lemma_pow256_monotonic(leading(s, 8).len(), 8);
}

/// The rank of `s` in the hash order is made of its first four words, the
/// first being the least significant.
proof fn lemma_hash32_rank_words(s: Seq<u8>)
    ensures
        hash32_rank(s) == word_value(s, 0) + 0x1_0000_0000_0000_0000 * (word_value(s, 1)
            + 0x1_0000_0000_0000_0000 * (word_value(s, 2) + 0x1_0000_0000_0000_0000 * word_value(
            s,
            3,
        ))),
        word_value(s, 0) < 0x1_0000_0000_0000_0000,
        word_value(s, 1) < 0x1_0000_0000_0000_0000,
        word_value(s, 2) < 0x1_0000_0000_0000_0000,
        word_value(s, 3) < 0x1_0000_0000_0000_0000,
{
    let h = leading(s, 32);
    lemma_pow256_values();
    lemma_word_bound(s, 0);
    lemma_word_bound(s, 1);
    lemma_word_bound(s, 2);
    lemma_word_bound(s, 3);
    // The words of `s` below 32 bytes are the words of its leading part.
    assert(word_bytes(s, 0) =~= word_bytes(h, 0));
    assert(word_bytes(s, 1) =~= word_bytes(h, 1));
    assert(word_bytes(s, 2) =~= word_bytes(h, 2));
    assert(word_bytes(s, 3) =~= word_bytes(h, 3));
    lemma_words_from(h, 3);
    lemma_words_from(h, 2);
    lemma_words_from(h, 1);
    lemma_words_from(h, 0);
    assert(h.skip(0) =~= h);
    assert(tail_value(h, 4) == 0);
}

/// The number held by what `s` has from word `word` on.
spec fn tail_value(s: Seq<u8>, word: nat) -> nat {
    if 8 * word >= s.len() {
        0
    } else {
        le_value(s.skip(8 * word as int))
    }
}

/// A word holds a number below 2^64.
proof fn lemma_word_bound(s: Seq<u8>, word: nat)
    ensures
        word_value(s, word) < 0x1_0000_0000_0000_0000,
{
    lemma_le_value_bound(word_bytes(s, word));
    lemma_pow256_values();
    lemma_pow256_monotonic(word_bytes(s, word).len(), 8);
}

/// What `s` holds from a word on is that word, and 2^64 times what it
/// holds from the next word on.
proof fn lemma_words_from(s: Seq<u8>, word: nat)
    ensures
        tail_value(s, word) == word_value(s, word) + 0x1_0000_0000_0000_0000 * tail_value(
            s,
            word + 1,
        ),
{
    lemma_pow256_values();
    if 8 * word >= s.len() {
    } else {
        let rest = s.skip(8 * word as int);
        if rest.len() <= 8 {
            assert(word_bytes(s, word) == rest);
        } else {
            lemma_le_value_split(rest, 8);
            assert(rest.take(8) == word_bytes(s, word));
            assert(rest.skip(8) =~= s.skip(8 * (word + 1) as int));
        }
    }
}

/// Compares by the 64-bit integer order.
pub fn compare_uint64(a: &[u8], b: &[u8]) -> (r: Order)
    ensures
        r == order(Comparator::Uint64, a@, b@),
{
    proof {
        lemma_uint64_rank_word(a@);
        lemma_uint64_rank_word(b@);
    }
    let x = read_word(a, 0);
    let y = read_word(b, 0);
    if x < y {
        Order::Less
    } else if x == y {
        Order::Equal
    } else {
        Order::Greater
    }
}

/// Compares by the hash order.
pub fn compare_hash32(a: &[u8], b: &[u8]) -> (r: Order)
    ensures
        r == order(Comparator::Hash32, a@, b@),
{
    proof {
        lemma_hash32_rank_words(a@);
        lemma_hash32_rank_words(b@);
    }
    let a3 = read_word(a, 3);
    let b3 = read_word(b, 3);
    if a3 != b3 {
        return if a3 < b3 {
            Order::Less
        } else {
            Order::Greater
        };
    }
    let a2 = read_word(a, 2);
    let b2 = read_word(b, 2);
    if a2 != b2 {
        return if a2 < b2 {
            Order::Less
        } else {
            Order::Greater
        };
    }
    let a1 = read_word(a, 1);
    let b1 = read_word(b, 1);
    if a1 != b1 {
        return if a1 < b1 {
            Order::Less
        } else {
            Order::Greater
        };
    }
    let a0 = read_word(a, 0);
    let b0 = read_word(b, 0);
    if a0 < b0 {
        Order::Less
    } else if a0 == b0 {
        Order::Equal
    } else {
        Order::Greater
    }
}

/// Compares as text.
pub fn compare_string(a: &[u8], b: &[u8]) -> (r: Order)
    ensures
        r == order(Comparator::Text, a@, b@),
{
    let alen = a.len();
    let blen = b.len();
    let mut i: usize = 0;
    assert(a@.skip(0) =~= a@ && b@.skip(0) =~= b@);
    while i < alen && i < blen
        invariant
            i <= alen == a@.len(),
            i <= blen == b@.len(),
            text_order(a@, b@) == text_order(a@.skip(i as int), b@.skip(i as int)),
        decreases alen - i,
    {
        let ghost ra = a@.skip(i as int);
        let ghost rb = b@.skip(i as int);
        if a[i] != b[i] {
            return if a[i] < b[i] {
                Order::Less
            } else {
                Order::Greater
            };
        }
        if a[i] == 0 {
            return compare_len(alen - i, blen - i);
        }
        proof {
            assert(ra.drop_first() =~= a@.skip(i + 1));
            assert(rb.drop_first() =~= b@.skip(i + 1));
        }
        i = i + 1;
    }
    compare_len(alen - i, blen - i)
}

/// Compares two lengths.
fn compare_len(x: usize, y: usize) -> (r: Order)
    ensures
        r == order_of(x as int, y as int),
{
    if x < y {
        Order::Less
    } else if x == y {
        Order::Equal
    } else {
        Order::Greater
    }
}

/// Compares by the order that `comparator` names.
pub fn compare(comparator: Comparator, a: &[u8], b: &[u8]) -> (r: Order)
    ensures
        r == order(comparator, a@, b@),
{
    match comparator {
        Comparator::Uint64 => compare_uint64(a, b),
        Comparator::Hash32 => compare_hash32(a, b),
        Comparator::Text => compare_string(a, b),
    }
}

/// Every order here compares a key with itself as equal, and turns round
/// when its arguments change places.
pub proof fn lemma_order_antisymmetric(comparator: Comparator, a: Seq<u8>, b: Seq<u8>)
    ensures
        order(comparator, a, a) == Order::Equal,
        order(comparator, a, b) == Order::Less <==> order(comparator, b, a) == Order::Greater,
        order(comparator, a, b) == Order::Equal <==> order(comparator, b, a) == Order::Equal,
{
    lemma_text_order_antisymmetric(a, a);
    lemma_text_order_antisymmetric(a, b);
}

/// The text order compares a key with itself as equal, and turns round when
/// its arguments change places.
pub proof fn lemma_text_order_antisymmetric(a: Seq<u8>, b: Seq<u8>)
    ensures
        a == b ==> text_order(a, b) == Order::Equal,
        text_order(a, b) == Order::Less <==> text_order(b, a) == Order::Greater,
        text_order(a, b) == Order::Equal <==> text_order(b, a) == Order::Equal,
    decreases a.len(),
{
    if a.len() > 0 && b.len() > 0 && a[0] == b[0] && a[0] != 0 {
        lemma_text_order_antisymmetric(a.drop_first(), b.drop_first());
    }
}

/// The text order is transitive.
pub proof fn lemma_text_order_transitive(a: Seq<u8>, b: Seq<u8>, c: Seq<u8>)
    requires
        text_order(a, b) != Order::Greater,
        text_order(b, c) != Order::Greater,
    ensures
        text_order(a, c) != Order::Greater,
        text_order(a, c) == Order::Equal ==> text_order(a, b) == Order::Equal && text_order(b, c)
            == Order::Equal,
    decreases a.len(),
{
    if a.len() > 0 && b.len() > 0 && c.len() > 0 && a[0] == b[0] && b[0] == c[0] && a[0] != 0 {
        lemma_text_order_transitive(a.drop_first(), b.drop_first(), c.drop_first());
    }
}

/// Every order here is transitive: where `a` does not come after `b` and
/// `b` does not come after `c`, `a` does not come after `c`, and compares
/// equal to it only where all three compare equal.
pub proof fn lemma_order_transitive(comparator: Comparator, a: Seq<u8>, b: Seq<u8>, c: Seq<u8>)
    requires
        order(comparator, a, b) != Order::Greater,
        order(comparator, b, c) != Order::Greater,
    ensures
        order(comparator, a, c) != Order::Greater,
        order(comparator, a, c) == Order::Equal ==> order(comparator, a, b) == Order::Equal
            && order(comparator, b, c) == Order::Equal,
{
    if comparator == Comparator::Text {
        lemma_text_order_transitive(a, b, c);
    }
}

/// Two keys of at least `n` bytes have the same rank, in the integer order
/// for `n` = 8 and in the hash order for `n` = 32, exactly where their
/// leading `n` bytes are the same.
pub proof fn lemma_equal_rank_is_equal_lead(a: Seq<u8>, b: Seq<u8>, n: nat)
    requires
        a.len() >= n,
        b.len() >= n,
    ensures
        le_value(leading(a, n)) == le_value(leading(b, n)) <==> a.take(n as int) == b.take(
            n as int,
        ),
{
    let x = leading(a, n);
    let y = leading(b, n);
    assert(x =~= a.take(n as int));
    assert(y =~= b.take(n as int));
    crate::bytes::lemma_le_bytes_of_value(x);
    crate::bytes::lemma_le_bytes_of_value(y);
}

} // verus!
