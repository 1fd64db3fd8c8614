use garbled_aes::cipher::{cipher, inv_cipher, key_expansion, CipherError};
use garbled_aes::gf::{inv, mult, pow, xtimes};
use garbled_aes::sbox::{inv_s_box, s_box};
use garbled_aes::state::State;

const FIPS_INPUT: [u8; 16] = [
    0x32, 0x43, 0xf6, 0xa8, 0x88, 0x5a, 0x30, 0x8d, 0x31, 0x31, 0x98, 0xa2, 0xe0, 0x37, 0x07, 0x34,
];

fn fips_key() -> Vec<u8> {
    vec![
        0x2b, 0x7e, 0x15, 0x16, 0x28, 0xae, 0xd2, 0xa6, 0xab, 0xf7, 0x15, 0x88, 0x09, 0xcf, 0x4f,
        0x3c,
    ]
}

fn counting(n: u8) -> Vec<u8> {
    (0..n).collect()
}

const PLAIN_C: [u8; 16] = [
    0x00, 0x11, 0x22, 0x33, 0x44, 0x55, 0x66, 0x77, 0x88, 0x99, 0xaa, 0xbb, 0xcc, 0xdd, 0xee, 0xff,
];

#[test]
fn test_s_box() {
    assert_eq!(s_box(0x53), 0xed);
    assert_eq!(s_box(0x00), 0x63);
    assert_eq!(s_box(0xf0), 0x8c);
    assert_eq!(s_box(0xec), 0xce);
}

#[test]
fn test_cipher_128() {
    let nr = 10;
    let nk = 4;
    let input: [u8; 16] = FIPS_INPUT;
    let key: Vec<u8> = fips_key();

    let result = cipher(input, nk, nr, &key).unwrap();
    assert_eq!(
        result,
        [
            0x39, 0x25, 0x84, 0x1d, 0x02, 0xdc, 0x09, 0xfb, 0xdc, 0x11, 0x85, 0x97, 0x19, 0x6a,
            0x0b, 0x32,
        ]
    );
}

#[test]
fn test_inv_shift_rows() {
    let input: [u8; 16] = FIPS_INPUT;

    let mut state = State::from(input);
    state.shift_rows();
    state.inv_shift_rows();
    assert_eq!(state, State::from(input));
}

#[test]
fn test_inv_mix_columns() {
    let input: [u8; 16] = FIPS_INPUT;

    let mut state = State::from(input);
    state.mix_columns();
    state.inv_mix_columns();
    assert_eq!(state, State::from(input));
}

#[test]
fn test_inv_s_box() {
    assert_eq!(inv_s_box(s_box(0x53)), 0x53);
    assert_eq!(inv_s_box(s_box(0xff)), 0xff);
    assert_eq!(inv_s_box(s_box(0x00)), 0x00);
    assert_eq!(inv_s_box(s_box(0xa4)), 0xa4);
}

#[test]
fn test_inv_cipher() {
    let nr = 10;
    let nk = 4;
    let input: [u8; 16] = FIPS_INPUT;
    let key: Vec<u8> = fips_key();

    let ciphered = cipher(input, nk, nr, &key).unwrap();
    let decrypted = inv_cipher(ciphered, nk, nr, &key).unwrap();

    assert_eq!(input, decrypted);
}

#[test]
fn field_products() {
    assert_eq!(mult(0x57, 0x13), 0xfe);
    assert_eq!(mult(0x57, 0x01), 0x57);
    assert_eq!(mult(0x57, 0x02), 0xae);
    assert_eq!(mult(0x57, 0x80), 0x38);
    assert_eq!(mult(0x00, 0xff), 0x00);
    assert_eq!(xtimes(0x57), 0xae);
    assert_eq!(xtimes(0xae), 0x47);
}

#[test]
fn field_powers_and_inverses() {
    assert_eq!(pow(0x03, 0), 0x01);
    assert_eq!(pow(0x02, 8), 0x1b);
    assert_eq!(inv(0x53), 0xca);
    assert_eq!(inv(0x01), 0x01);
    for b in 1..=255u8 {
        assert_eq!(mult(b, inv(b)), 0x01);
        assert_eq!(pow(b, 254), inv(b));
    }
}

#[test]
fn s_box_round_trip_all_bytes() {
    for b in 0..=255u8 {
        assert_eq!(inv_s_box(s_box(b)), b);
    }
    assert_eq!(inv_s_box(0x63), 0x00);
}

#[test]
fn mix_columns_round_trip_sampled_columns() {
    let mut x: u32 = 0x1234_5678;
    for _ in 0..256 {
        x = x.wrapping_mul(1_664_525).wrapping_add(1_013_904_223);
        let mut block = [0u8; 16];
        for (i, b) in block.iter_mut().enumerate() {
            *b = (x >> ((i % 4) * 8)) as u8 ^ (i as u8);
        }
        let mut state = State::from(block);
        state.mix_columns();
        state.inv_mix_columns();
        assert_eq!(<[u8; 16]>::from(state), block);
    }
}

#[test]
fn mix_columns_known_column() {
    let mut block = [0u8; 16];
    block[..4].copy_from_slice(&[0xdb, 0x13, 0x53, 0x45]);
    let mut state = State::from(block);
    state.mix_columns();
    let out = <[u8; 16]>::from(state);
    assert_eq!(&out[..4], &[0x8e, 0x4d, 0xa1, 0xbc]);
}

#[test]
fn shift_rows_moves_rows() {
    let block: [u8; 16] = core::array::from_fn(|i| i as u8);
    let mut state = State::from(block);
    state.shift_rows();
    assert_eq!(
        <[u8; 16]>::from(state),
        [0, 5, 10, 15, 4, 9, 14, 3, 8, 13, 2, 7, 12, 1, 6, 11]
    );
}

#[test]
fn add_round_key_twice_restores() {
    let mut state = State::from(FIPS_INPUT);
    let key = fips_key();
    state.add_round_key(&key);
    assert_ne!(state, State::from(FIPS_INPUT));
    state.add_round_key(&key);
    assert_eq!(state, State::from(FIPS_INPUT));
}

#[test]
fn new_and_default_are_zero() {
    assert_eq!(<[u8; 16]>::from(State::new()), [0u8; 16]);
    assert_eq!(State::default(), State::new());
}

#[test]
fn key_expansion_fips_128() {
    let w = key_expansion(&fips_key(), 4, 10);
    assert_eq!(w.len(), 176);
    assert_eq!(&w[..16], &fips_key()[..]);
    assert_eq!(&w[16..20], &[0xa0, 0xfa, 0xfe, 0x17]);
    assert_eq!(&w[172..176], &[0xb6, 0x63, 0x0c, 0xa6]);
}

#[test]
fn key_expansion_fips_256() {
    let key: Vec<u8> = vec![
        0x60, 0x3d, 0xeb, 0x10, 0x15, 0xca, 0x71, 0xbe, 0x2b, 0x73, 0xae, 0xf0, 0x85, 0x7d, 0x77,
        0x81, 0x1f, 0x35, 0x2c, 0x07, 0x3b, 0x61, 0x08, 0xd7, 0x2d, 0x98, 0x10, 0xa3, 0x09, 0x14,
        0xdf, 0xf4,
    ];
    let w = key_expansion(&key, 8, 14);
    assert_eq!(w.len(), 240);
    assert_eq!(&w[32..36], &[0x9b, 0xa3, 0x54, 0x11]);
    assert_eq!(&w[48..52], &[0xa8, 0xb0, 0x9c, 0x1a]);
    assert_eq!(&w[236..240], &[0x70, 0x6c, 0x63, 0x1e]);
}

#[test]
fn cipher_fips_appendix_c() {
    let c128 = cipher(PLAIN_C, 4, 10, &counting(16)).unwrap();
    assert_eq!(
        c128,
        [0x69, 0xc4, 0xe0, 0xd8, 0x6a, 0x7b, 0x04, 0x30, 0xd8, 0xcd, 0xb7, 0x80, 0x70, 0xb4, 0xc5, 0x5a]
    );
    let c192 = cipher(PLAIN_C, 6, 12, &counting(24)).unwrap();
    assert_eq!(
        c192,
        [0xdd, 0xa9, 0x7c, 0xa4, 0x86, 0x4c, 0xdf, 0xe0, 0x6e, 0xaf, 0x70, 0xa0, 0xec, 0x0d, 0x71, 0x91]
    );
    let c256 = cipher(PLAIN_C, 8, 14, &counting(32)).unwrap();
    assert_eq!(
        c256,
        [0x8e, 0xa2, 0xb7, 0xca, 0x51, 0x67, 0x45, 0xbf, 0xea, 0xfc, 0x49, 0x90, 0x4b, 0x49, 0x60, 0x89]
    );
    assert_eq!(inv_cipher(c128, 4, 10, &counting(16)).unwrap(), PLAIN_C);
    assert_eq!(inv_cipher(c192, 6, 12, &counting(24)).unwrap(), PLAIN_C);
    assert_eq!(inv_cipher(c256, 8, 14, &counting(32)).unwrap(), PLAIN_C);
}

#[test]
fn cipher_round_trip_all_key_sizes() {
    for (nk, nr) in [(4usize, 10usize), (6, 12), (8, 14)] {
        let key: Vec<u8> = (0..4 * nk).map(|i| (i as u8).wrapping_mul(37).wrapping_add(5)).collect();
        for seed in 0..8u8 {
            let block: [u8; 16] = core::array::from_fn(|i| (i as u8).wrapping_mul(seed).wrapping_add(seed));
            let c = cipher(block, nk, nr, &key).unwrap();
            assert_eq!(inv_cipher(c, nk, nr, &key).unwrap(), block);
        }
    }
}

#[test]
fn cipher_rejects_unsupported_rounds() {
    assert_eq!(cipher(FIPS_INPUT, 4, 12, &fips_key()), Err(CipherError::UnsupportedRoundCount));
    assert_eq!(inv_cipher(FIPS_INPUT, 5, 11, &counting(20)), Err(CipherError::UnsupportedRoundCount));
}

#[test]
fn cipher_rejects_wrong_key_length() {
    assert_eq!(cipher(FIPS_INPUT, 4, 10, &counting(24)), Err(CipherError::KeyLengthMismatch));
    assert_eq!(inv_cipher(FIPS_INPUT, 8, 14, &counting(16)), Err(CipherError::KeyLengthMismatch));
}
