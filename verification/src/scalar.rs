//! Signed-digit expansion of 256-bit scalars.

use crate::byte_order::{le_value, lemma_le_value_split, ByteOrder, LittleEndian};
use vstd::arithmetic::div_mod::{
    lemma_div_denominator, lemma_fundamental_div_mod, lemma_fundamental_div_mod_converse,
    lemma_mod_mod, lemma_mod_multiples_vanish,
};
use vstd::arithmetic::power2::{
    lemma2_to64, lemma2_to64_rest, lemma_pow2_adds, lemma_pow2_pos, lemma_pow2_strictly_increases,
    lemma_pow2_unfold, pow2,
};
use vstd::bits::{
    lemma_u128_shr_is_div, lemma_u64_low_bits_mask_is_mod, lemma_u64_pow2_no_overflow,
    lemma_u64_shl_is_mul, low_bits_mask,
};
use vstd::prelude::*;

verus! {

/// The residue of `x` modulo `m` that lies in `-m / 2 .. m / 2`.
pub open spec fn signed_mod(x: int, m: int) -> int {
    let r = x % m;
    if 2 * r < m {
        r
    } else {
        r - m
    }
}

/// The lowest digit of the width-`w` expansion of `r`: 0 for an even number, and for an odd one
/// its signed residue modulo `2^w`.
pub open spec fn naf_digit(r: int, w: nat) -> int {
    if r % 2 == 0 {
        0
    } else {
        signed_mod(r, pow2(w) as int)
    }
}

/// What is left of `k` to expand after its lowest `i` digits.
pub open spec fn naf_rest(k: int, w: nat, i: nat) -> int
    decreases i,
{
    if i == 0 {
        k
    } else {
        let r = naf_rest(k, w, (i - 1) as nat);
        (r - naf_digit(r, w)) / 2
    }
}

/// The signed byte with the low eight bits of `d`.
pub open spec fn low_i8(d: int) -> int {
    (d + 128) % 256 - 128
}

/// The number that `digits` writes in base two, lowest digit first.
pub open spec fn digits_value(digits: Seq<i8>) -> int
    decreases digits.len(),
{
    if digits.len() == 0 {
        0
    } else {
        digits_value(digits.drop_last()) + pow2((digits.len() - 1) as nat) * digits.last()
    }
}

/// `digits` is the width-`w` expansion of `k`, each digit kept in a byte.
pub open spec fn is_naf_of(digits: Seq<i8>, k: int, w: nat) -> bool {
    forall|i: int|
        0 <= i < digits.len() ==> #[trigger] digits[i] == low_i8(
            naf_digit(naf_rest(k, w, i as nat), w),
        )
}

/// A 256-bit number.
#[derive(Copy, Clone, Hash)]
pub struct Scalar {
    /// The bytes of the number, least significant byte first.
    pub bytes: [u8; 32],
}

/// The number held by 64-bit words, lowest word first.
pub open spec fn words_value(words: Seq<u64>) -> nat
    decreases words.len(),
{
    if words.len() == 0 {
        0
    } else {
        words[0] as nat + 0x1_0000_0000_0000_0000 * words_value(words.skip(1))
    }
}

/// Dividing by `2^(64 * i)` drops the lowest `i` words.
proof fn lemma_words_div(words: Seq<u64>, i: nat)
    requires
        i <= words.len(),
    ensures
        words_value(words) / pow2(64 * i) == words_value(words.skip(i as int)),
    decreases i,
{
    lemma2_to64();
    lemma2_to64_rest();
    if i == 0 {
        assert(words.skip(0) =~= words);
        assert(pow2(64 * i) == 1);
    } else {
        let m = (i - 1) as nat;
        let tail = words.skip(1);
        lemma_words_div(tail, m);
        assert(tail.skip(m as int) =~= words.skip(i as int));
        lemma_fundamental_div_mod_converse(
            words_value(words) as int,
            pow2(64) as int,
            words_value(tail) as int,
            words[0] as int,
        );
        lemma_pow2_pos(64 * m);
        lemma_pow2_pos(64);
        lemma_div_denominator(words_value(words) as int, pow2(64) as int, pow2(64 * m) as int);
        lemma_pow2_adds(64, 64 * m);
        assert(64 + 64 * m == 64 * i);
    }
}

/// The `w` bits at position `pos` of a number are found in two neighbouring words.
proof fn lemma_window(words: Seq<u64>, pos: nat, w: nat)
    requires
        w < 64,
        pos / 64 + 1 < words.len(),
    ensures
        (words_value(words) / pow2(pos)) % pow2(w) == ((words[(pos / 64) as int]
            + 0x1_0000_0000_0000_0000 * words[(pos / 64 + 1) as int]) as nat / pow2(pos % 64))
            % pow2(w),
{
    lemma2_to64();
    lemma2_to64_rest();
    let i = pos / 64;
    let b = pos % 64;
    let v = words_value(words);
    let x = words[i as int] as int;
    let y = words[(i + 1) as int] as int;
    let z = x + 0x1_0000_0000_0000_0000 * y;
    let upper = words.skip(i as int);
    let rest = words_value(upper.skip(1).skip(1)) as int;
    lemma_words_div(words, i);
    let q = v as int / pow2(64 * i) as int;
    assert(q == x + 0x1_0000_0000_0000_0000 * words_value(upper.skip(1)));
    assert(words_value(upper.skip(1)) == y + 0x1_0000_0000_0000_0000 * rest);
    lemma_pow2_adds(64, 64);
    assert(pow2(128) == 0x1_0000_0000_0000_0000_0000_0000_0000_0000);
    assert(pow2(128) * rest == 0x1_0000_0000_0000_0000_0000_0000_0000_0000 * rest)
        by (nonlinear_arith)
        requires
            pow2(128) == 0x1_0000_0000_0000_0000_0000_0000_0000_0000,
    ;
    assert(q == z + pow2(128) * rest);
    lemma_pow2_pos(64 * i);
    lemma_pow2_pos(b);
    lemma_pow2_pos(w);
    lemma_div_denominator(v as int, pow2(64 * i) as int, pow2(b) as int);
    lemma_pow2_adds(64 * i, b);
    assert(64 * i + b == pos);
    assert(v as int / pow2(pos) as int == q / pow2(b) as int);
    // The words above the two only add multiples of `2^(128 - b)`.
    let c = (128 - b) as nat;
    lemma_pow2_adds(c, b);
    let j = pow2(c) * rest;
    assert(pow2(128) * rest == j * pow2(b)) by (nonlinear_arith)
        requires
            pow2(128) == pow2(c) * pow2(b),
            j == pow2(c) * rest,
    ;
    vstd::arithmetic::div_mod::lemma_hoist_over_denominator(z, j, pow2(b));
    assert(q / pow2(b) as int == z / pow2(b) as int + j);
    let e = (c - w) as nat;
    lemma_pow2_adds(w, e);
    let t = pow2(e) * rest;
    assert(j == pow2(w) * t) by (nonlinear_arith)
        requires
            pow2(c) == pow2(w) * pow2(e),
            j == pow2(c) * rest,
            t == pow2(e) * rest,
    ;
    lemma_mod_multiples_vanish(t, z / pow2(b) as int, pow2(w) as int);
}

/// Masking the shifted words leaves `w` bits from bit `b` of the low word on.
proof fn lemma_bit_buf(x: u64, y: u64, b: u64, w: u64, bit_buf: u64)
    requires
        b < 64,
        w < 64,
        b + w < 64 ==> bit_buf == x >> b,
        b + w >= 64 ==> bit_buf == (x >> b) | (y << ((64 - b) as u64)),
    ensures
        bit_buf & (((1u64 << w) - 1) as u64) == ((x + 0x1_0000_0000_0000_0000 * y) as nat / pow2(
            b as nat,
        )) % pow2(w as nat),
        1u64 << w == pow2(w as nat),
{
    lemma2_to64();
    lemma2_to64_rest();
    let mask = ((1u64 << w) - 1) as u64;
    lemma_u64_pow2_no_overflow(w as nat);
    lemma_u64_shl_is_mul(1, w);
    let z: u128 = ((y as u128) << 64u128) | (x as u128);
    assert(z == x + 0x1_0000_0000_0000_0000 * y) by (bit_vector)
        requires
            z == ((y as u128) << 64u128) | (x as u128),
    ;
    let bb: u128 = b as u128;
    let v: u128 = z >> bb;
    let low: u64 = v as u64;
    assert(low == v % 0x1_0000_0000_0000_0000) by (bit_vector)
        requires
            low == v as u64,
    ;
    if b + w < 64 {
        assert(bit_buf & mask == low & mask) by (bit_vector)
            requires
                b + w < 64,
                bit_buf == x >> b,
                z == ((y as u128) << 64u128) | (x as u128),
                bb == b as u128,
                v == z >> bb,
                low == v as u64,
                mask == ((1u64 << w) - 1) as u64,
        ;
    } else {
        assert(bit_buf == low) by (bit_vector)
            requires
                b < 64,
                1 <= b,
                bit_buf == (x >> b) | (y << ((64 - b) as u64)),
                z == ((y as u128) << 64u128) | (x as u128),
                bb == b as u128,
                v == z >> bb,
                low == v as u64,
        ;
    }
    lemma_u128_shr_is_div(z, bb);
    lemma_u64_low_bits_mask_is_mod(low, w as nat);
    assert(mask == low_bits_mask(w as nat) as u64);
    lemma_pow2_pos(w as nat);
    let e = (64 - w) as nat;
    lemma_pow2_pos(e);
    lemma_pow2_adds(w as nat, e);
    lemma_mod_mod(v as int, pow2(w as nat) as int, pow2(e) as int);
}

/// One position on, the number is halved.
proof fn lemma_next_bit(k: nat, pos: nat)
    ensures
        k / pow2(pos + 1) == (k / pow2(pos)) / 2,
{
    lemma_pow2_pos(pos);
    lemma_pow2_unfold(pos + 1);
    lemma_div_denominator(k as int, pow2(pos) as int, 2);
    assert(pow2(pos) * 2 == pow2(pos + 1));
}

/// `w` positions on, the number is divided by `2^w`.
proof fn lemma_skip_bits(k: nat, pos: nat, w: nat)
    ensures
        k / pow2(pos + w) == (k / pow2(pos)) / pow2(w),
{
    lemma_pow2_pos(pos);
    lemma_pow2_pos(w);
    lemma_pow2_adds(pos, w);
    lemma_div_denominator(k as int, pow2(pos) as int, pow2(w) as int);
}

/// A multiple of `2^m` starts with `m` zero digits.
proof fn lemma_zero_digits(k: int, w: nat, p: nat, m: nat, t: int)
    requires
        naf_rest(k, w, p) == pow2(m) * t,
    ensures
        forall|j: nat| j <= m ==> #[trigger] naf_rest(k, w, p + j) == pow2((m - j) as nat) * t,
        forall|j: nat| j < m ==> naf_digit(#[trigger] naf_rest(k, w, p + j), w) == 0,
    decreases m,
{
    if m > 0 {
        let n = (m - 1) as nat;
        lemma_pow2_unfold(m);
        let h = pow2(n) * t;
        assert(pow2(m) * t == 2 * h) by (nonlinear_arith)
            requires
                pow2(m) == 2 * pow2(n),
                h == pow2(n) * t,
        ;
        assert(naf_rest(k, w, p + 1) == h);
        lemma_zero_digits(k, w, p + 1, n, t);
        assert forall|j: nat| j <= m implies #[trigger] naf_rest(k, w, p + j) == pow2(
            (m - j) as nat,
        ) * t by {
            if j > 0 {
                let i = (j - 1) as nat;
                assert(p + 1 + i == p + j);
                assert(n - i == m - j);
            }
        }
        assert forall|j: nat| j < m implies naf_digit(#[trigger] naf_rest(k, w, p + j), w) == 0 by {
            if j > 0 {
                let i = (j - 1) as nat;
                assert(p + 1 + i == p + j);
            }
        }
    }
}

/// Where the window is even, the digit is zero and the carry stays.
proof fn lemma_even_window(k: nat, w: nat, pos: nat, carry: int, window: int)
    requires
        carry == 0 || carry == 1,
        w == 0 ==> carry == 0,
        naf_rest(k as int, w, pos) == k / pow2(pos) + carry,
        window == carry + (k / pow2(pos)) % pow2(w),
        window % 2 == 0,
    ensures
        naf_digit(naf_rest(k as int, w, pos), w) == 0,
        naf_rest(k as int, w, pos + 1) == k / pow2(pos + 1) + carry,
{
    lemma2_to64();
    let a = (k / pow2(pos)) as int;
    lemma_next_bit(k, pos);
    if w == 0 {
        assert(naf_digit(a, 0) == 0);
    } else {
        lemma_pow2_unfold(w);
        lemma_pow2_pos((w - 1) as nat);
        lemma_mod_mod(a, 2, pow2((w - 1) as nat) as int);
        assert((a % pow2(w) as int) % 2 == a % 2);
    }
}

/// Where the window is odd, its signed residue is the digit, the next `w - 1` digits are zero,
/// and the carry is set for a negative digit.
proof fn lemma_odd_window(k: nat, w: nat, pos: nat, carry: int, window: int, next_carry: int)
    requires
        carry == 0 || carry == 1,
        w == 0 ==> carry == 0,
        naf_rest(k as int, w, pos) == k / pow2(pos) + carry,
        window == carry + (k / pow2(pos)) % pow2(w),
        window % 2 == 1,
        next_carry == (if 2 * window < pow2(w) {
            0int
        } else {
            1int
        }),
    ensures
        w >= 1,
        naf_digit(naf_rest(k as int, w, pos), w) == window - next_carry * pow2(w),
        forall|j: nat|
            1 <= j < w ==> naf_digit(#[trigger] naf_rest(k as int, w, pos + j), w) == 0,
        naf_rest(k as int, w, pos + w) == k / pow2(pos + w) + next_carry,
{
    lemma2_to64();
    let a = (k / pow2(pos)) as int;
    let m = pow2(w) as int;
    let x = a + carry;
    lemma_pow2_pos(w);
    assert(w >= 1);
    let n = (w - 1) as nat;
    lemma_pow2_unfold(w);
    lemma_pow2_pos(n);
    lemma_fundamental_div_mod(a, m);
    // An odd window is below `2^w`, so it is the residue of `x`.
    assert(window < m);
    lemma_fundamental_div_mod_converse(x, m, a / m, window);
    lemma_mod_mod(x, 2, pow2(n) as int);
    assert(x % 2 == 1);
    let d = window - next_carry * m;
    assert(next_carry * m == (if next_carry == 0 {
        0
    } else {
        m
    }));
    assert(naf_digit(x, w) == d);
    lemma_skip_bits(k, pos, w);
    let t = a / m + next_carry;
    assert(x - d == m * t) by (nonlinear_arith)
        requires
            x == m * (a / m) + window,
            d == window - next_carry * m,
            t == a / m + next_carry,
    ;
    let h = pow2(n) * t;
    assert(m * t == 2 * h) by (nonlinear_arith)
        requires
            m == 2 * pow2(n),
            h == pow2(n) * t,
    ;
    assert(naf_rest(k as int, w, pos + 1) == h);
    lemma_zero_digits(k as int, w, pos + 1, n, t);
    assert forall|j: nat| 1 <= j < w implies naf_digit(
        #[trigger] naf_rest(k as int, w, pos + j),
        w,
    ) == 0 by {
        let i = (j - 1) as nat;
        assert(pos + 1 + i == pos + j);
    }
    assert(pos + 1 + n == pos + w);
    assert(pow2(0) * t == t) by (nonlinear_arith)
        requires
            pow2(0) == 1,
    ;
}

/// Four groups of eight bytes hold the same number as the four words read from them.
proof fn lemma_bytes_as_words(bytes: Seq<u8>, words: Seq<u64>)
    requires
        bytes.len() == 32,
        words.len() == 5,
        words[4] == 0,
        forall|i: int|
            0 <= i < 4 ==> #[trigger] words[i] == le_value(bytes.subrange(8 * i, 8 * i + 8)),
    ensures
        words_value(words) == le_value(bytes),
{
    lemma2_to64();
    lemma2_to64_rest();
    let b1 = bytes.skip(8);
    let b2 = bytes.skip(16);
    let b3 = bytes.skip(24);
    lemma_le_value_split(bytes, 8);
    lemma_le_value_split(b1, 8);
    lemma_le_value_split(b2, 8);
    lemma_le_value_split(b3, 8);
    assert(bytes.take(8) =~= bytes.subrange(0, 8));
    assert(b1.take(8) =~= bytes.subrange(8, 16));
    assert(b2.take(8) =~= bytes.subrange(16, 24));
    assert(b3.take(8) =~= bytes.subrange(24, 32));
    assert(b1.skip(8) =~= b2);
    assert(b2.skip(8) =~= b3);
    assert(le_value(b3.skip(8)) == 0);
    let w0 = words[0];
    let w1 = words[1];
    let w2 = words[2];
    let w3 = words[3];
    reveal_with_fuel(words_value, 6);
    assert(words.skip(1).skip(1).skip(1).skip(1).skip(1).len() == 0);
}

/// Casting to a signed byte keeps the low eight bits.
proof fn lemma_low_i8(x: u64)
    ensures
        x as i8 == low_i8(x as int),
{
    assert(x as i8 == ((x + 128) % 256) - 128) by (bit_vector);
}

/// `1 << w` is `2^w`.
proof fn lemma_one_shifted(w: u64)
    requires
        w < 64,
    ensures
        1u64 << w == pow2(w as nat),
        0 < pow2(w as nat) <= 0x8000_0000_0000_0000,
        w >= 1 ==> pow2(w as nat) % 2 == 0,
{
    lemma2_to64();
    lemma2_to64_rest();
    lemma_u64_pow2_no_overflow(w as nat);
    lemma_u64_shl_is_mul(1, w);
    if w < 63 {
        lemma_pow2_strictly_increases(w as nat, 63);
    }
    if w >= 1 {
        lemma_pow2_unfold(w as nat);
    }
}

/// The `w` bits of the scalar from bit `pos` on.
fn bits_at(x_u64: &[u64; 5], pos: usize, w: usize) -> (bits: u64)
    requires
        w < 64,
        pos < 256,
    ensures
        bits == (words_value(x_u64@) / pow2(pos as nat)) % pow2(w as nat),
{
    let u64_idx: usize = pos / 64;
    let bit_idx: usize = pos % 64;
    let bit_buf: u64 = if bit_idx < 64 - w {
        // The bits lie in one word.
        x_u64[u64_idx] >> bit_idx
    } else {
        // The bits reach into the next word.
        (x_u64[u64_idx] >> bit_idx) | (x_u64[1 + u64_idx] << (64 - bit_idx))
    };
    proof {
        lemma_one_shifted(w as u64);
        lemma_bit_buf(
            x_u64@[u64_idx as int],
            x_u64@[u64_idx + 1],
            bit_idx as u64,
            w as u64,
            bit_buf,
        );
        lemma_window(x_u64@, pos as nat, w as nat);
    }
    bit_buf & ((1u64 << w) - 1)
}

/// The byte of the digit that an odd window stands for, and the carry into the next window.
fn odd_digit(window: u64, width: u64) -> (r: (i8, u64))
    requires
        width % 2 == 0,
    ensures
        2 * window < width ==> r.0 == low_i8(window as int) && r.1 == 0,
        2 * window >= width ==> r.0 == low_i8(window - width) && r.1 == 1,
{
    proof {
        lemma_low_i8(window);
        lemma_low_i8(width);
    }
    if window < width / 2 {
        (window as i8, 0)
    } else {
        ((window as i8).wrapping_sub(width as i8), 1)
    }
}

impl Scalar {
    /// The number that the bytes write.
    pub open spec fn value(self) -> nat {
        le_value(self.bytes@)
    }

    /// The width-`w` non-adjacent form: 256 digits, lowest first, each the low byte of a digit of
    /// the expansion.
    pub fn non_adjacent_form(&self, w: usize) -> (naf: [i8; 256])
        requires
            w < 64,
        ensures
            is_naf_of(naf@, self.value() as int, w as nat),
    {
        let mut naf: [i8; 256] = [0i8; 256];
        let mut low_words: [u64; 4] = [0u64; 4];
        LittleEndian::read_u64_into(&self.bytes, &mut low_words);
        let x_u64: [u64; 5] = [low_words[0], low_words[1], low_words[2], low_words[3], 0];
        let ghost k = self.value();
        let ghost wn = w as nat;
        proof {
            lemma_bytes_as_words(self.bytes@, x_u64@);
            lemma_one_shifted(w as u64);
            lemma2_to64();
            assert(k / pow2(0) == k);
        }
        let width: u64 = 1u64 << w;
        let mut pos: usize = 0;
        let mut carry: u64 = 0;
        while pos < 256
            invariant
                w < 64,
                wn == w as nat,
                k == words_value(x_u64@),
                width == pow2(wn),
                0 < pow2(wn) <= 0x8000_0000_0000_0000,
                w >= 1 ==> pow2(wn) % 2 == 0,
                carry == 0 || carry == 1,
                w == 0 ==> carry == 0,
                pos <= 256 + 64,
                naf_rest(k as int, wn, pos as nat) == k / pow2(pos as nat) + carry,
                forall|j: int|
                    0 <= j < pos && j < 256 ==> #[trigger] naf@[j] == low_i8(
                        naf_digit(naf_rest(k as int, wn, j as nat), wn),
                    ),
                forall|j: int| pos <= j < 256 ==> #[trigger] naf@[j] == 0,
            decreases 256 + 64 - pos,
        {
            // Add the carry into the window.
            let window: u64 = carry + bits_at(&x_u64, pos, w);
            assert((window & 1 == 0) == (window % 2 == 0)) by (bit_vector);
            if window & 1 == 0 {
                // The digit is zero. With the carry set, the bit of the scalar was set as well,
                // so the carry moves on to the next bit.
                proof {
                    lemma_even_window(k, wn, pos as nat, carry as int, window as int);
                }
                pos = pos + 1;
            } else {
                let ghost next_carry: int = if 2 * window < pow2(wn) {
                    0
                } else {
                    1
                };
                proof {
                    lemma_odd_window(k, wn, pos as nat, carry as int, window as int, next_carry);
                    assert(next_carry * pow2(wn) == (if next_carry == 0 {
                        0
                    } else {
                        pow2(wn) as int
                    })) by (nonlinear_arith)
                        requires
                            next_carry == 0 || next_carry == 1,
                    ;
                }
                let ghost before = naf@;
                let (digit, next): (i8, u64) = odd_digit(window, width);
                naf[pos] = digit;
                carry = next;
                proof {
                    assert forall|j: int| 0 <= j < pos + w && j < 256 implies #[trigger] naf@[j]
                        == low_i8(naf_digit(naf_rest(k as int, wn, j as nat), wn)) by {
                        if j > pos {
                            let i = (j - pos) as nat;
                            assert(pos as nat + i == j as nat);
                            assert(naf@[j] == before[j]);
                        } else if j < pos {
                            assert(naf@[j] == before[j]);
                        }
                    }
                }
                pos = pos + w;
            }
        }
        naf
    }
}

/// An odd number differs from its digit by a multiple of `2^w`.
proof fn lemma_digit_residue(r: int, w: nat)
    requires
        w >= 1,
        r % 2 != 0,
    ensures
        exists|t: int| r - naf_digit(r, w) == #[trigger] (pow2(w) * t),
        naf_digit(r, w) % 2 != 0,
        -pow2((w - 1) as nat) <= naf_digit(r, w) < pow2((w - 1) as nat),
{
    let m = pow2(w) as int;
    let h = pow2((w - 1) as nat) as int;
    lemma_pow2_pos(w);
    lemma_pow2_pos((w - 1) as nat);
    lemma_pow2_unfold(w);
    lemma_fundamental_div_mod(r, m);
    lemma_mod_mod(r, 2, h);
    let q = r / m;
    if 2 * (r % m) < m {
        assert(r - naf_digit(r, w) == pow2(w) * q);
    } else {
        assert(m * (q + 1) == m * q + m) by (nonlinear_arith);
        assert(r - naf_digit(r, w) == pow2(w) * (q + 1));
    }
}

/// A digit of width at most eight fits into a signed byte.
proof fn lemma_digit_fits(r: int, w: nat)
    requires
        1 <= w <= 8,
    ensures
        low_i8(naf_digit(r, w)) == naf_digit(r, w),
{
    lemma2_to64();
    if r % 2 != 0 {
        lemma_digit_residue(r, w);
        if w < 8 {
            lemma_pow2_strictly_increases((w - 1) as nat, 7);
        }
    }
}

/// The digits together with what is left after them make up the number: nothing is lost.
pub proof fn law_naf_value(digits: Seq<i8>, k: int, w: nat)
    requires
        1 <= w <= 8,
        is_naf_of(digits, k, w),
    ensures
        digits_value(digits) + pow2(digits.len()) * naf_rest(k, w, digits.len()) == k,
    decreases digits.len(),
{
    lemma2_to64();
    if digits.len() == 0 {
        assert(pow2(0) * k == k) by (nonlinear_arith)
            requires
                pow2(0) == 1,
        ;
    } else {
        let n = (digits.len() - 1) as nat;
        let front = digits.drop_last();
        assert forall|i: int| 0 <= i < front.len() implies #[trigger] front[i] == low_i8(
            naf_digit(naf_rest(k, w, i as nat), w),
        ) by {
            assert(front[i] == digits[i]);
        }
        law_naf_value(front, k, w);
        let r = naf_rest(k, w, n);
        let d = naf_digit(r, w);
        lemma_digit_fits(r, w);
        assert(digits[n as int] == d);
        let next = naf_rest(k, w, digits.len());
        if r % 2 != 0 {
            lemma_digit_residue(r, w);
        }
        assert((r - d) % 2 == 0);
        assert(r == d + 2 * next);
        lemma_pow2_unfold(digits.len());
        assert(pow2(n) * d + pow2(digits.len()) * next == pow2(n) * r) by (nonlinear_arith)
            requires
                pow2(digits.len()) == 2 * pow2(n),
                r == d + 2 * next,
        ;
    }
}

/// Below `2^top`, what is left after `i` digits is at most `2^(top - i)`.
proof fn lemma_rest_bound(k: int, w: nat, top: nat, i: nat)
    requires
        w >= 1,
        0 <= k < pow2(top),
        i <= top,
    ensures
        0 <= naf_rest(k, w, i) <= pow2((top - i) as nat),
    decreases i,
{
    if i > 0 {
        let n = (i - 1) as nat;
        let m = (top - n) as nat;
        lemma_rest_bound(k, w, top, n);
        lemma_pow2_unfold(m);
        let r = naf_rest(k, w, n);
        let d = naf_digit(r, w);
        if r % 2 != 0 {
            let p = pow2(w) as int;
            let h = pow2((w - 1) as nat) as int;
            lemma_pow2_pos(w);
            lemma_pow2_unfold(w);
            lemma_fundamental_div_mod(r, p);
            assert(r < pow2(m));
            if m < w {
                if m < w - 1 {
                    lemma_pow2_strictly_increases(m, (w - 1) as nat);
                }
                vstd::arithmetic::div_mod::lemma_small_mod(r as nat, p as nat);
            } else {
                let e = (m - w) as nat;
                lemma_pow2_adds(w, e);
                let q = r / p;
                // `r < p * 2^e`, so its quotient by `p` is below `2^e`.
                assert(q < pow2(e)) by (nonlinear_arith)
                    requires
                        p * q <= r,
                        r < p * pow2(e),
                        p > 0,
                ;
                assert(p * (q + 1) <= p * pow2(e)) by (nonlinear_arith)
                    requires
                        q + 1 <= pow2(e),
                        p > 0,
                ;
                assert(p * (q + 1) == p * q + p) by (nonlinear_arith);
                assert(p * q >= 0) by (nonlinear_arith)
                    requires
                        p > 0,
                        q >= 0,
                ;
            }
        }
    }
}

/// Nothing is left of a number below `2^255` after 256 digits.
proof fn lemma_rest_zero(k: int, w: nat)
    requires
        w >= 2,
        0 <= k < pow2(255),
    ensures
        naf_rest(k, w, 256) == 0,
{
    lemma2_to64();
    lemma_rest_bound(k, w, 255, 255);
    let r = naf_rest(k, w, 255);
    if r == 1 {
        if w > 2 {
            lemma_pow2_strictly_increases(2, w);
        }
        vstd::arithmetic::div_mod::lemma_small_mod(1, pow2(w));
    }
}

/// For a scalar below `2^255` and a width of two to eight, the digits write the scalar.
pub proof fn law_naf_represents(digits: Seq<i8>, k: int, w: nat)
    requires
        2 <= w <= 8,
        0 <= k < pow2(255),
        digits.len() == 256,
        is_naf_of(digits, k, w),
    ensures
        digits_value(digits) == k,
{
    law_naf_value(digits, k, w);
    lemma_rest_zero(k, w);
}

/// For every scalar and a width of two to eight, the digits write the scalar up to a multiple of
/// `2^256`: they write the scalar itself, or fall short of it by `2^256`.
pub proof fn law_naf_represents_modulo(digits: Seq<i8>, k: int, w: nat)
    requires
        2 <= w <= 8,
        0 <= k < pow2(256),
        digits.len() == 256,
        is_naf_of(digits, k, w),
    ensures
        digits_value(digits) == k || digits_value(digits) == k - pow2(256),
{
    law_naf_value(digits, k, w);
    lemma_rest_bound(k, w, 256, 256);
    lemma2_to64();
    let rest = naf_rest(k, w, 256);
    assert(rest == 0 || rest == 1);
    assert(pow2(256) * rest == (if rest == 0 {
        0
    } else {
        pow2(256) as int
    })) by (nonlinear_arith)
        requires
            rest == 0 || rest == 1,
    ;
}

/// A nonzero digit is odd and smaller than `2^(w - 1)` in absolute value.
pub proof fn law_naf_digits_odd_and_bounded(digits: Seq<i8>, k: int, w: nat, i: int)
    requires
        2 <= w <= 8,
        is_naf_of(digits, k, w),
        0 <= i < digits.len(),
        digits[i] != 0,
    ensures
        digits[i] as int % 2 != 0,
        -pow2((w - 1) as nat) < digits[i] < pow2((w - 1) as nat),
{
    let r = naf_rest(k, w, i as nat);
    lemma_digit_fits(r, w);
    lemma_digit_residue(r, w);
    lemma_pow2_unfold((w - 1) as nat);
}

/// Of any `w` neighbouring digits at most one is nonzero.
pub proof fn law_naf_sparse(digits: Seq<i8>, k: int, w: nat, i: int, j: int)
    requires
        is_naf_of(digits, k, w),
        0 <= i < j < digits.len(),
        j < i + w,
    ensures
        digits[i] == 0 || digits[j] == 0,
{
    if digits[i] != 0 {
        let r = naf_rest(k, w, i as nat);
        assert(r % 2 != 0);
        lemma_digit_residue(r, w);
        let t = choose|t: int| r - naf_digit(r, w) == #[trigger] (pow2(w) * t);
        let n = (w - 1) as nat;
        lemma_pow2_unfold(w);
        let h = pow2(n) * t;
        assert(pow2(w) * t == 2 * h) by (nonlinear_arith)
            requires
                pow2(w) == 2 * pow2(n),
                h == pow2(n) * t,
        ;
        let p = (i + 1) as nat;
        assert(naf_rest(k, w, p) == h);
        lemma_zero_digits(k, w, p, n, t);
        let step = (j - p) as nat;
        assert(p + step == j as nat);
        assert(naf_digit(naf_rest(k, w, p + step), w) == 0);
    }
}

/// The number that a row of digits of any size writes in base two, lowest digit first.
pub open spec fn row_value(row: Seq<int>) -> int
    decreases row.len(),
{
    if row.len() == 0 {
        0
    } else {
        row_value(row.drop_last()) + pow2((row.len() - 1) as nat) * row.last()
    }
}

/// Whether `row`, with `rest` behind it, writes `k` in digits of width `w`: each is zero, or odd and
/// in `-2^(w - 1) .. 2^(w - 1)`, and of any `w` neighbours at most one is not zero.
pub open spec fn is_expansion(row: Seq<int>, rest: int, k: int, w: nat) -> bool {
    &&& row_value(row) + pow2(row.len()) * rest == k
    &&& forall|i: int|
        0 <= i < row.len() ==> #[trigger] row[i] == 0 || (row[i] % 2 != 0 && -pow2((w - 1) as nat)
            <= row[i] < pow2((w - 1) as nat))
    &&& forall|i: int, j: int|
        0 <= i < j < row.len() && j < i + w ==> #[trigger] row[i] == 0 || #[trigger] row[j] == 0
}

/// The digits of the expansion before they are put into bytes.
spec fn wide_digits(k: int, w: nat, n: nat) -> Seq<int> {
    Seq::new(n, |i: int| naf_digit(naf_rest(k, w, i as nat), w))
}

proof fn lemma_wide_value(k: int, w: nat, n: nat)
    requires
        1 <= w,
    ensures
        row_value(wide_digits(k, w, n)) + pow2(n) * naf_rest(k, w, n) == k,
    decreases n,
{
    lemma2_to64();
    if n == 0 {
        assert(pow2(0) * k == k) by (nonlinear_arith)
            requires
                pow2(0) == 1,
        ;
    } else {
        let m = (n - 1) as nat;
        lemma_wide_value(k, w, m);
        assert(wide_digits(k, w, n).drop_last() =~= wide_digits(k, w, m));
        let r = naf_rest(k, w, m);
        let d = naf_digit(r, w);
        let next = naf_rest(k, w, n);
        if r % 2 != 0 {
            lemma_digit_residue(r, w);
        }
        assert((r - d) % 2 == 0);
        assert(r == d + 2 * next);
        lemma_pow2_unfold(n);
        assert(pow2(m) * d + pow2(n) * next == pow2(m) * r) by (nonlinear_arith)
            requires
                pow2(n) == 2 * pow2(m),
                r == d + 2 * next,
        ;
    }
}

proof fn lemma_wide_sparse(k: int, w: nat, i: nat, j: nat)
    requires
        1 <= w,
        i < j < i + w,
    ensures
        naf_digit(naf_rest(k, w, i), w) == 0 || naf_digit(naf_rest(k, w, j), w) == 0,
{
    let r = naf_rest(k, w, i);
    if r % 2 != 0 {
        lemma_digit_residue(r, w);
        let t = choose|t: int| r - naf_digit(r, w) == #[trigger] (pow2(w) * t);
        let n = (w - 1) as nat;
        lemma_pow2_unfold(w);
        let h = pow2(n) * t;
        assert(pow2(w) * t == 2 * h) by (nonlinear_arith)
            requires
                pow2(w) == 2 * pow2(n),
                h == pow2(n) * t,
        ;
        let p = i + 1;
        assert(naf_rest(k, w, p) == h);
        lemma_zero_digits(k, w, p, n, t);
        let step = (j - p) as nat;
        assert(p + step == j);
        assert(naf_digit(naf_rest(k, w, p + step), w) == 0);
    }
}

/// Whatever the width, each byte holds the low eight bits of a digit of a row that writes the
/// number. Of a number of 256 bits nothing more than a one is left behind 256 digits.
pub proof fn law_naf_of_any_width(digits: Seq<i8>, k: int, w: nat)
    requires
        1 <= w,
        is_naf_of(digits, k, w),
    ensures
        exists|row: Seq<int>, rest: int|
            {
                &&& #[trigger] is_expansion(row, rest, k, w)
                &&& row.len() == digits.len()
                &&& forall|i: int|
                    0 <= i < digits.len() ==> (#[trigger] digits[i] - row[i]) % 256 == 0
                &&& digits.len() == 256 && 0 <= k < pow2(256) ==> rest == 0 || rest == 1
            },
{
    let n = digits.len();
    let row = wide_digits(k, w, n);
    let rest = naf_rest(k, w, n);
    lemma_wide_value(k, w, n);
    assert forall|i: int| 0 <= i < row.len() implies #[trigger] row[i] == 0 || (row[i] % 2 != 0
        && -pow2((w - 1) as nat) <= row[i] < pow2((w - 1) as nat)) by {
        let r = naf_rest(k, w, i as nat);
        if r % 2 != 0 {
            lemma_digit_residue(r, w);
        }
    }
    assert forall|i: int, j: int| 0 <= i < j < row.len() && j < i + w implies #[trigger] row[i] == 0
        || #[trigger] row[j] == 0 by {
        lemma_wide_sparse(k, w, i as nat, j as nat);
    }
    if n == 256 && 0 <= k < pow2(256) {
        lemma_rest_bound(k, w, 256, 256);
        lemma2_to64();
    }
    assert(is_expansion(row, rest, k, w));
}

/// Digits of width zero are all zero.
pub proof fn law_naf_of_no_width(digits: Seq<i8>, k: int, i: int)
    requires
        is_naf_of(digits, k, 0),
        0 <= i < digits.len(),
    ensures
        digits[i] == 0,
{
    lemma2_to64();
}

/// Byte `i` of a scalar has the weight `256^i`.
pub proof fn law_scalar_digits(s: Scalar, i: nat)
    requires
        i < 32,
    ensures
        (s.value() / pow2(8 * i)) % 256 == s.bytes@[i as int],
        s.value() < pow2(256),
{
    crate::byte_order::law_le_value_digits(s.bytes@, i);
}

} // verus!
