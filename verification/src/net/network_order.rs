//! Integers in network byte order.

use byteorder::{ByteOrder, NetworkEndian};
use vstd::prelude::*;

verus! {

/// The number written by `bytes`, most significant byte first.
pub open spec fn be_value(bytes: Seq<u8>) -> nat
    decreases bytes.len(),
{
    if bytes.len() == 0 {
        0
    } else {
        256 * be_value(bytes.drop_last()) + bytes.last() as nat
    }
}

/// The number whose 64-bit two's complement is `n`.
pub open spec fn signed_64(n: int) -> int {
    if n <= i64::MAX {
        n
    } else {
        n - 0x1_0000_0000_0000_0000
    }
}

/// Reads a signed integer with `byteorder`'s `NetworkEndian::read_i64`. The contract says that the
/// first eight bytes, most significant byte first, are its two's complement. The buffer must hold
/// them.
#[verifier::external_body]
pub(crate) fn read_i64(buf: &[u8]) -> (n: i64)
    requires
        buf@.len() >= 8,
    ensures
        n == signed_64(be_value(buf@.take(8)) as int),
{
    NetworkEndian::read_i64(buf)
}

/// Writes a signed integer with `byteorder`'s `NetworkEndian::write_i64`. The contract says that
/// the first eight bytes become its two's complement, most significant byte first, and that the
/// others stay as they are. The buffer must hold the eight bytes.
#[verifier::external_body]
pub(crate) fn write_i64(buf: &mut [u8], n: i64)
    requires
        old(buf)@.len() >= 8,
    ensures
        final(buf)@.len() == old(buf)@.len(),
        signed_64(be_value(final(buf)@.take(8)) as int) == n,
        final(buf)@.skip(8) == old(buf)@.skip(8),
{
    NetworkEndian::write_i64(buf, n)
}

/// A further byte at the end is the lowest digit in base 256.
pub proof fn law_be_value_appends(bytes: Seq<u8>, last: u8)
    ensures
        be_value(bytes.push(last)) == 256 * be_value(bytes) + last,
        be_value(Seq::empty()) == 0,
{
    assert(bytes.push(last).drop_last() =~= bytes);
}

/// The number that eight bytes write.
pub proof fn law_be_value_of_eight(bytes: Seq<u8>)
    requires
        bytes.len() == 8,
    ensures
        be_value(bytes) == 0x100_0000_0000_0000 * bytes[0] + 0x1_0000_0000_0000 * bytes[1]
            + 0x100_0000_0000 * bytes[2] + 0x1_0000_0000 * bytes[3] + 0x100_0000 * bytes[4]
            + 0x1_0000 * bytes[5] + 0x100 * bytes[6] + bytes[7],
{
    reveal_with_fuel(be_value, 9);
    let b1 = bytes.drop_last();
    let b2 = b1.drop_last();
    let b3 = b2.drop_last();
    let b4 = b3.drop_last();
    let b5 = b4.drop_last();
    let b6 = b5.drop_last();
    let b7 = b6.drop_last();
    assert(b7.drop_last().len() == 0);
}

/// The number that four bytes write.
pub proof fn law_be_value_of_four(bytes: Seq<u8>)
    requires
        bytes.len() == 4,
    ensures
        be_value(bytes) == 0x100_0000 * bytes[0] + 0x1_0000 * bytes[1] + 0x100 * bytes[2]
            + bytes[3],
{
    reveal_with_fuel(be_value, 5);
    let b1 = bytes.drop_last();
    let b2 = b1.drop_last();
    let b3 = b2.drop_last();
    assert(b3.drop_last().len() == 0);
}

/// A signed number and its two's complement differ by nothing or by `2^64`.
pub proof fn law_signed_64(n: int)
    requires
        0 <= n < 0x1_0000_0000_0000_0000,
    ensures
        i64::MIN <= signed_64(n) <= i64::MAX,
        signed_64(n) == n || signed_64(n) == n - 0x1_0000_0000_0000_0000,
        n <= i64::MAX ==> signed_64(n) == n,
{
}

} // verus!
