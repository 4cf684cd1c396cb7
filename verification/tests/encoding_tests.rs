use escrow_project::encoding::{
    convert_u128_to_32_bytes, eq_bytes_32, is_canonical_scalar, reduce_mod_field,
    reverse_endianness, scalar_modulus_be_bytes, u64_from_le_bytes,
};

const MODULUS_BE: [u8; 32] = [
    0x73, 0xed, 0xa7, 0x53, 0x29, 0x9d, 0x7d, 0x48, 0x33, 0x39, 0xd8, 0x08, 0x09, 0xa1, 0xd8,
    0x05, 0x53, 0xbd, 0xa4, 0x02, 0xff, 0xfe, 0x5b, 0xfe, 0xff, 0xff, 0xff, 0xff, 0x00, 0x00,
    0x00, 0x01,
];

#[test]
fn modulus_bytes_match_field_order() {
    assert_eq!(scalar_modulus_be_bytes(), MODULUS_BE);
}

#[test]
fn reduce_all_ones_has_exact_value() {
    // (2^256 - 1) mod p, computed independently.
    let expected: [u8; 32] = [
        0x18, 0x24, 0xb1, 0x59, 0xac, 0xc5, 0x05, 0x6f, 0x99, 0x8c, 0x4f, 0xef, 0xec, 0xbc,
        0x4f, 0xf5, 0x58, 0x84, 0xb7, 0xfa, 0x00, 0x03, 0x48, 0x02, 0x00, 0x00, 0x00, 0x01,
        0xff, 0xff, 0xff, 0xfd,
    ];
    assert_eq!(reduce_mod_field([0xff; 32]), expected);
}

#[test]
fn reduce_of_modulus_is_zero() {
    assert_eq!(reduce_mod_field(MODULUS_BE), [0u8; 32]);
}

#[test]
fn reduce_is_idempotent() {
    // Already-reduced values come back unchanged; reducing twice equals
    // reducing once for arbitrary input.
    let mut below = MODULUS_BE;
    below[31] = 0x00; // p - 1
    assert_eq!(reduce_mod_field(below), below);

    let inputs: [[u8; 32]; 3] = [[0xff; 32], [0x99; 32], MODULUS_BE];
    for x in inputs {
        let once = reduce_mod_field(x);
        assert_eq!(reduce_mod_field(once), once);
    }
}

#[test]
fn reduce_output_is_below_modulus() {
    let inputs: [[u8; 32]; 4] = [[0xff; 32], [0x73; 32], [0x00; 32], MODULUS_BE];
    for x in inputs {
        assert!(is_canonical_scalar(&reduce_mod_field(x)));
    }
}

#[test]
fn canonical_scalar_boundary() {
    let mut below = MODULUS_BE;
    below[31] = 0x00; // p - 1
    assert!(is_canonical_scalar(&below));
    assert!(is_canonical_scalar(&[0u8; 32]));
    assert!(!is_canonical_scalar(&MODULUS_BE));
    assert!(!is_canonical_scalar(&[0xff; 32]));
}

#[test]
fn reverse_endianness_reverses() {
    let mut input = [0u8; 32];
    for (k, b) in input.iter_mut().enumerate() {
        *b = k as u8;
    }
    let reversed = reverse_endianness(input);
    for k in 0..32 {
        assert_eq!(reversed[k], (31 - k) as u8);
    }
}

#[test]
fn reverse_endianness_round_trip() {
    let mut input = [0u8; 32];
    for (k, b) in input.iter_mut().enumerate() {
        *b = (k as u8).wrapping_mul(37).wrapping_add(5);
    }
    assert_eq!(reverse_endianness(reverse_endianness(input)), input);
}

#[test]
fn convert_u128_places_big_endian_low_half() {
    let i: u128 = 0x0102030405060708090a0b0c0d0e0f10;
    let bytes = convert_u128_to_32_bytes(i);
    assert_eq!(&bytes[..16], &[0u8; 16]);
    for k in 0..16 {
        assert_eq!(bytes[16 + k], (k + 1) as u8);
    }
    assert_eq!(convert_u128_to_32_bytes(0), [0u8; 32]);
    let one = convert_u128_to_32_bytes(1);
    assert_eq!(one[31], 1);
    assert_eq!(&one[..31], &[0u8; 31]);
    let max = convert_u128_to_32_bytes(u128::MAX);
    assert_eq!(&max[..16], &[0u8; 16]);
    assert_eq!(&max[16..], &[0xffu8; 16]);
}

#[test]
fn u64_from_le_bytes_reads_little_endian() {
    assert_eq!(u64_from_le_bytes(&[1, 0, 0, 0, 0, 0, 0, 0]), 1);
    assert_eq!(u64_from_le_bytes(&[0, 0, 0, 0, 0, 0, 0, 1]), 1 << 56);
    assert_eq!(
        u64_from_le_bytes(&[0x01, 0x02, 0x03, 0x04, 0x05, 0x06, 0x07, 0x08]),
        0x0807060504030201
    );
    assert_eq!(u64_from_le_bytes(&[0xff; 8]), u64::MAX);
}

#[test]
fn eq_bytes_32_compares_content() {
    let a = [7u8; 32];
    let mut b = a;
    assert!(eq_bytes_32(&a, &b));
    b[13] = 8;
    assert!(!eq_bytes_32(&a, &b));
}
