use xous_services::byte_order::{ByteOrder, LittleEndian};
use xous_services::scalar::Scalar;

/// The number that 256 digits write, as 320-bit two's complement words.
fn digits_value(digits: &[i8]) -> [u64; 5] {
    let mut value = [0u64; 5];
    for digit in digits.iter().rev() {
        let mut carry = (*digit as i64 as u64) as u128;
        let extension = if *digit < 0 { u64::MAX } else { 0 };
        for (i, word) in value.iter_mut().enumerate() {
            let addend = if i == 0 { 0 } else { extension as u128 };
            let sum = ((*word as u128) << 1) + carry + addend;
            *word = sum as u64;
            carry = sum >> 64;
        }
    }
    value
}

fn words(bytes: &[u8; 32]) -> [u64; 5] {
    let mut low = [0u64; 4];
    LittleEndian::read_u64_into(bytes, &mut low);
    [low[0], low[1], low[2], low[3], 0]
}

#[test]
fn width_five_test_vector() {
    let scalar = Scalar {
        bytes: [
            189, 59, 214, 8, 77, 86, 240, 50, 111, 170, 86, 37, 124, 154, 209, 79, 102, 72, 93,
            53, 130, 157, 102, 200, 60, 240, 215, 104, 246, 58, 214, 13,
        ],
    };
    let expected: [i8; 256] = [
        -3, 0, 0, 0, 0, 0, 15, 0, 0, 0, 0, 7, 0, 0, 0, 0, 0, 11, 0, 0, 0, 0, 3, 0, 0, 0, 0, 1,
        0, 0, 0, 0, 13, 0, 0, 0, 0, 0, -7, 0, 0, 0, 0, 11, 0, 0, 0, 0, 0, 0, 0, 0, 15, 0, 0, 0,
        0, -7, 0, 0, 0, 0, -3, 0, 0, 0, 0, 0, 7, 0, 0, 0, 0, -11, 0, 0, 0, 0, -5, 0, 0, 0, 0,
        11, 0, 0, 0, 0, 5, 0, 0, 0, 0, 1, 0, 0, 0, 0, -1, 0, 0, 0, 0, -11, 0, 0, 0, 0, 0, 13,
        0, 0, 0, 0, 0, 0, -3, 0, 0, 0, 0, 0, 0, 0, 5, 0, 0, 0, 0, -13, 0, 0, 0, 0, 0, -15, 0,
        0, 0, 0, -11, 0, 0, 0, 0, 15, 0, 0, 0, 0, -11, 0, 0, 0, 0, 7, 0, 0, 0, 0, 0, 1, 0, 0,
        0, 0, 0, -5, 0, 0, 0, 0, 0, -11, 0, 0, 0, 0, 0, 13, 0, 0, 0, 0, 0, 0, 0, -7, 0, 0, 0,
        0, -3, 0, 0, 0, 0, 0, 1, 0, 0, 0, 0, 0, -1, 0, 0, 0, 0, 0, 0, -5, 0, 0, 0, 0, 9, 0, 0,
        0, 0, -13, 0, 0, 0, 0, 0, -1, 0, 0, 0, 0, -5, 0, 0, 0, 0, 0, -7, 0, 0, 0, 0, -5, 0, 0,
        0, 0, 0, 7, 0, 0, 0, 0, 0, 0,
    ];
    assert_eq!(scalar.non_adjacent_form(5), expected);
}

#[test]
fn digits_write_the_scalar() {
    let mut bytes = [0xa7u8; 32];
    bytes[31] = 0x7f;
    bytes[7] = 0xff;
    bytes[8] = 0xff;
    let scalar = Scalar { bytes };
    for w in 2..=8 {
        assert_eq!(digits_value(&scalar.non_adjacent_form(w)), words(&bytes));
    }
}

#[test]
fn digits_write_large_scalars_modulo_the_word_size() {
    for top in [0x80, 0xa5, 0xff] {
        let mut bytes = [0x3cu8; 32];
        bytes[31] = top;
        let exact = words(&bytes);
        // The same number less 2^256.
        let short = [exact[0], exact[1], exact[2], exact[3], u64::MAX];
        for w in 2..=8 {
            let value = digits_value(&Scalar { bytes }.non_adjacent_form(w));
            assert!(value == exact || value == short);
        }
    }
    let all_ones = Scalar { bytes: [0xff; 32] }.non_adjacent_form(2);
    assert_eq!(digits_value(&all_ones), [u64::MAX; 5]);
}

#[test]
fn digits_are_odd_bounded_and_sparse() {
    let mut bytes = [0u8; 32];
    for (i, byte) in bytes.iter_mut().enumerate() {
        *byte = (i * 37 + 11) as u8;
    }
    bytes[31] &= 0x7f;
    for w in 2..=8usize {
        let naf = Scalar { bytes }.non_adjacent_form(w);
        let bound = 1i32 << (w - 1);
        for i in 0..256 {
            let digit = naf[i] as i32;
            if digit != 0 {
                assert!(digit % 2 != 0);
                assert!(-bound < digit && digit < bound);
                for j in i + 1..256.min(i + w) {
                    assert_eq!(naf[j], 0);
                }
            }
        }
    }
}

#[test]
fn width_zero_gives_only_zeros() {
    let naf = Scalar { bytes: [0xff; 32] }.non_adjacent_form(0);
    assert_eq!(naf, [0i8; 256]);
}

#[test]
fn width_one_writes_a_negative_tail() {
    let mut bytes = [0u8; 32];
    bytes[0] = 1;
    let naf = Scalar { bytes }.non_adjacent_form(1);
    assert_eq!(naf, [-1i8; 256]);
}

#[test]
fn wide_digits_keep_their_low_byte() {
    let mut bytes = [0u8; 32];
    bytes[0] = 0x01;
    bytes[1] = 0x01;
    let naf = Scalar { bytes }.non_adjacent_form(12);
    assert_eq!(naf[0], 1);
    assert!(naf[1..].iter().all(|d| *d == 0));
}

#[test]
fn all_ones_scalar() {
    let naf = Scalar { bytes: [0xff; 32] }.non_adjacent_form(5);
    assert_eq!(naf[0], -1);
    assert!(naf[1..].iter().all(|d| *d == 0));
}

#[test]
fn little_endian_words() {
    let src: Vec<u8> = (1..=16).collect();
    let mut dst = [0u64; 2];
    LittleEndian::read_u64_into(&src, &mut dst);
    assert_eq!(dst, [0x0807_0605_0403_0201, 0x100f_0e0d_0c0b_0a09]);
}
