//! Reading integers out of byte strings.

use vstd::arithmetic::power2::{lemma2_to64, lemma2_to64_rest, lemma_pow2_adds, pow2};
use vstd::prelude::*;

verus! {

/// The number written by `bytes`, least significant byte first.
pub open spec fn le_value(bytes: Seq<u8>) -> nat
    decreases bytes.len(),
{
    if bytes.len() == 0 {
        0
    } else {
        bytes[0] as nat + 256 * le_value(bytes.skip(1))
    }
}

/// `n` bytes write a number below `2^(8 * n)`.
pub proof fn lemma_le_value_bound(bytes: Seq<u8>)
    ensures
        le_value(bytes) < pow2(8 * bytes.len()),
    decreases bytes.len(),
{
    lemma2_to64();
    if bytes.len() > 0 {
        lemma_le_value_bound(bytes.skip(1));
        lemma_pow2_adds(8, (8 * (bytes.len() - 1)) as nat);
    }
}

/// The first `n` bytes are the low digits of the number, the others its high digits.
pub proof fn lemma_le_value_split(bytes: Seq<u8>, n: nat)
    requires
        n <= bytes.len(),
    ensures
        le_value(bytes) == le_value(bytes.take(n as int)) + pow2(8 * n) * le_value(
            bytes.skip(n as int),
        ),
    decreases n,
{
    lemma2_to64();
    if n == 0 {
        assert(bytes.skip(0) =~= bytes);
        assert(pow2(8 * n) == 1);
        assert(le_value(bytes.take(0)) == 0);
    } else {
        let tail = bytes.skip(1);
        let m = (n - 1) as nat;
        lemma_le_value_split(tail, m);
        assert(bytes.take(n as int).skip(1) =~= tail.take(m as int));
        assert(tail.skip(m as int) =~= bytes.skip(n as int));
        lemma_pow2_adds(8, 8 * m);
        let low = le_value(tail.take(m as int));
        let high = le_value(bytes.skip(n as int));
        let p = pow2(8 * m);
        assert(256 * (low + p * high) == 256 * low + (256 * p) * high) by (nonlinear_arith);
        assert(8 + 8 * m == 8 * n);
        assert(pow2(8 * n) * high == (256 * p) * high);
        assert(le_value(bytes) == bytes[0] as nat + 256 * (low + p * high));
        assert(le_value(bytes.take(n as int)) == bytes[0] as nat + 256 * low);
    }
}

/// A byte order: how the bytes of an integer are laid out.
pub trait ByteOrder {
    /// The number that eight bytes stand for.
    spec fn u64_value(bytes: Seq<u8>) -> nat;

    /// Fills `dst` with the integers that `src` holds one after the other.
    fn read_u64_into(src: &[u8], dst: &mut [u64])
        requires
            src@.len() == 8 * old(dst)@.len(),
        ensures
            final(dst)@.len() == old(dst)@.len(),
            forall|i: int|
                0 <= i < final(dst)@.len() ==> #[trigger] final(dst)@[i] == Self::u64_value(
                    src@.subrange(8 * i, 8 * i + 8),
                ),
    ;
}

/// The byte order that puts the least significant byte first.
///
/// The type only selects an implementation of [`ByteOrder`].
#[derive(Clone, Copy, Debug, Eq, Hash, Ord, PartialEq, PartialOrd)]
pub enum LittleEndian {
    /// The one value of the type.
    Order,
}

/// The integer in the eight bytes of `src` from `at` on.
fn read_le_u64(src: &[u8], at: usize) -> (r: u64)
    requires
        at + 8 <= src@.len(),
    ensures
        r == le_value(src@.subrange(at as int, at + 8)),
{
    let ghost chunk = src@.subrange(at as int, at + 8);
    let len: usize = src.len();
    let mut value: u64 = 0;
    let mut j: usize = 8;
    while j > 0
        invariant
            j <= 8,
            at + 8 <= len,
            len == src@.len(),
            chunk == src@.subrange(at as int, at + 8),
            value == le_value(chunk.skip(j as int)),
        decreases j,
    {
        proof {
            let tail = chunk.skip(j - 1);
            lemma_le_value_bound(tail);
            assert(tail.skip(1) =~= chunk.skip(j as int));
            lemma2_to64();
            lemma2_to64_rest();
            vstd::arithmetic::power2::lemma_pow2_pos(8 * tail.len());
            if tail.len() < 8 {
                vstd::arithmetic::power2::lemma_pow2_strictly_increases(8 * tail.len(), 64);
            }
        }
        j = j - 1;
        value = value * 256 + src[at + j] as u64;
    }
    assert(chunk.skip(0) =~= chunk);
    value
}

impl ByteOrder for LittleEndian {
    open spec fn u64_value(bytes: Seq<u8>) -> nat {
        le_value(bytes)
    }

    fn read_u64_into(src: &[u8], dst: &mut [u64]) {
        let n: usize = dst.len();
        let len: usize = src.len();
        let mut i: usize = 0;
        while i < n
            invariant
                i <= n,
                n == dst@.len(),
                n == old(dst)@.len(),
                src@.len() == 8 * n,
                len == src@.len(),
                forall|k: int|
                    0 <= k < i ==> #[trigger] dst@[k] == le_value(
                        src@.subrange(8 * k, 8 * k + 8),
                    ),
            decreases n - i,
        {
            dst[i] = read_le_u64(src, 8 * i);
            i = i + 1;
        }
    }
}

/// Digit `i` of the number in base 256 is byte `i`, and there are no digits beyond the bytes.
pub proof fn law_le_value_digits(bytes: Seq<u8>, i: nat)
    requires
        i < bytes.len(),
    ensures
        (le_value(bytes) / pow2(8 * i)) % 256 == bytes[i as int],
        le_value(bytes) < pow2(8 * bytes.len()),
{
    lemma2_to64();
    lemma_le_value_bound(bytes);
    lemma_le_value_split(bytes, i);
    lemma_le_value_bound(bytes.take(i as int));
    vstd::arithmetic::power2::lemma_pow2_pos(8 * i);
    let low = le_value(bytes.take(i as int));
    let high = le_value(bytes.skip(i as int));
    assert(pow2(8 * i) * high == high * pow2(8 * i)) by (nonlinear_arith);
    vstd::arithmetic::div_mod::lemma_fundamental_div_mod_converse(
        le_value(bytes) as int,
        pow2(8 * i) as int,
        high as int,
        low as int,
    );
    let rest = le_value(bytes.skip(i as int).skip(1));
    assert(high == bytes[i as int] + 256 * rest);
}

/// In the order that puts the least significant byte first, byte `i` of eight is the one with the
/// weight `256^i`.
pub proof fn law_little_endian_digits(bytes: Seq<u8>, i: nat)
    requires
        bytes.len() == 8,
        i < 8,
    ensures
        (LittleEndian::u64_value(bytes) / pow2(8 * i)) % 256 == bytes[i as int],
        LittleEndian::u64_value(bytes) <= u64::MAX,
{
    law_le_value_digits(bytes, i);
    lemma2_to64();
    lemma2_to64_rest();
}

} // verus!
