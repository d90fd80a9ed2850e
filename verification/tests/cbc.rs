use tunnel_core::cbc::decrypt_aescbc128;
use tunnel_core::cbc::encrypt_aescbc128;
use tunnel_core::cbc::STAGING_LEN;
use tunnel_core::ctr::encrypt_aesctr128;
use tunnel_core::error::CipherError;

fn cbc_hex(text: &str) -> Vec<u8> {
    let digits: Vec<u8> = text
        .bytes()
        .map(|b| match b {
            b'0'..=b'9' => b - b'0',
            b'a'..=b'f' => b - b'a' + 10,
            _ => panic!("not a hex digit"),
        })
        .collect();
    digits.chunks(2).map(|pair| pair[0] * 16 + pair[1]).collect()
}

fn cbc_message(len: usize) -> Vec<u8> {
    (0..len).map(|i| (i * 7 + 3) as u8).collect()
}

const CBC_KEY: &str = "2b7e151628aed2a6abf7158809cf4f3c";
const CBC_IV: &str = "000102030405060708090a0b0c0d0e0f";

#[test]
fn cbc_matches_published_vectors() {
    let key = cbc_hex(CBC_KEY);
    let iv = cbc_hex(CBC_IV);
    let plain = cbc_hex(
        "6bc1bee22e409f96e93d7e117393172aae2d8a571e03ac9c9eb76fac45af8e51\
         30c81c46a35ce411e5fbc1191a0a52eff69f2445df4f9b17ad2b417be66c3710",
    );
    let expected = cbc_hex(
        "7649abac8119b246cee98e9b12e9197d5086cb9b507219ee95db113a917678b2\
         73bed6b8e3c1743b7116e69e222295163ff1caa1681fac09120eca307586e1a7",
    );
    let encrypted = encrypt_aescbc128(&plain, &key, &iv).unwrap();
    assert_eq!(encrypted.len(), 80);
    assert_eq!(&encrypted[..64], &expected[..]);
    assert_eq!(decrypt_aescbc128(&encrypted, &key, &iv), Ok(plain));
}

#[test]
fn cbc_round_trip_of_a_short_message() {
    let key = [7u8; 16];
    let iv = [9u8; 16];
    let encrypted = encrypt_aescbc128(b"Hello World!", &key, &iv).unwrap();
    assert_eq!(encrypted.len(), 16);
    assert_ne!(&encrypted[..12], b"Hello World!");
    assert_eq!(decrypt_aescbc128(&encrypted, &key, &iv), Ok(b"Hello World!".to_vec()));
}

#[test]
fn cbc_empty_plaintext_is_one_block_of_padding() {
    let key = [0u8; 16];
    let iv = [0u8; 16];
    let encrypted = encrypt_aescbc128(&[], &key, &iv).unwrap();
    assert_eq!(encrypted.len(), 16);
    // Chained to a zero IV, the block is AES of sixteen bytes 0x10: the first
    // keystream block of CTR mode for that counter block.
    let mut block = [0u8; 16];
    assert_eq!(encrypt_aesctr128(&[0u8; 16], &mut block, &key, &[0x10u8; 16]), Ok(16));
    assert_eq!(encrypted, block.to_vec());
    assert_eq!(decrypt_aescbc128(&encrypted, &key, &iv), Ok(Vec::new()));
}

#[test]
fn cbc_whole_blocks_get_a_block_of_padding() {
    let key = [1u8; 16];
    let iv = [2u8; 16];
    let plain = cbc_message(32);
    let encrypted = encrypt_aescbc128(&plain, &key, &iv).unwrap();
    assert_eq!(encrypted.len(), 48);
    assert_eq!(decrypt_aescbc128(&encrypted, &key, &iv), Ok(plain));
}

#[test]
fn cbc_ciphertext_length_rounds_up_to_blocks() {
    let key = [3u8; 16];
    let iv = [4u8; 16];
    for len in 0..70usize {
        let plain = cbc_message(len);
        let encrypted = encrypt_aescbc128(&plain, &key, &iv).unwrap();
        assert_eq!(encrypted.len(), (len / 16 + 1) * 16);
        assert_eq!(decrypt_aescbc128(&encrypted, &key, &iv), Ok(plain));
    }
}

#[test]
fn cbc_round_trip_around_the_staging_buffer() {
    let key = [5u8; 16];
    let iv = [6u8; 16];
    let sizes = [
        STAGING_LEN - 32,
        STAGING_LEN - 17,
        STAGING_LEN - 16,
        STAGING_LEN - 15,
        STAGING_LEN - 1,
        STAGING_LEN,
        STAGING_LEN + 1,
        STAGING_LEN + 15,
        STAGING_LEN + 16,
        2 * STAGING_LEN - 16,
        2 * STAGING_LEN,
        3 * STAGING_LEN + 5,
        10_000,
    ];
    for &len in sizes.iter() {
        let plain = cbc_message(len);
        let encrypted = encrypt_aescbc128(&plain, &key, &iv).unwrap();
        assert_eq!(encrypted.len(), (len / 16 + 1) * 16);
        assert_eq!(decrypt_aescbc128(&encrypted, &key, &iv), Ok(plain));
    }
}

#[test]
fn cbc_long_message_chains_like_its_parts() {
    // The first blocks of a long ciphertext are the ciphertext of the first
    // blocks: nothing is lost or reordered when the staging buffer fills up.
    let key = [8u8; 16];
    let iv = [1u8; 16];
    let plain = cbc_message(3 * STAGING_LEN);
    let long = encrypt_aescbc128(&plain, &key, &iv).unwrap();
    let short = encrypt_aescbc128(&plain[..STAGING_LEN + 16], &key, &iv).unwrap();
    assert_eq!(&long[..STAGING_LEN + 16], &short[..STAGING_LEN + 16]);
    // Each block chains to the one before it: restarting from a ciphertext
    // block as IV continues the ciphertext.
    let tail = encrypt_aescbc128(&plain[STAGING_LEN..], &key, &long[STAGING_LEN - 16..STAGING_LEN])
        .unwrap();
    assert_eq!(&long[STAGING_LEN..], &tail[..]);
}

#[test]
fn cbc_turns_down_a_24_byte_key() {
    let key = [0u8; 24];
    let iv = [0u8; 16];
    assert_eq!(encrypt_aescbc128(b"data", &key, &iv), Err(CipherError::InvalidKeyLength));
    assert_eq!(decrypt_aescbc128(&[0u8; 16], &key, &iv), Err(CipherError::InvalidKeyLength));
}

#[test]
fn cbc_turns_down_keys_of_other_sizes() {
    let iv = [0u8; 16];
    for len in [0usize, 1, 15, 17, 32] {
        let key = vec![0u8; len];
        assert_eq!(encrypt_aescbc128(b"data", &key, &iv), Err(CipherError::InvalidKeyLength));
        assert_eq!(decrypt_aescbc128(&[0u8; 16], &key, &iv), Err(CipherError::InvalidKeyLength));
    }
}

#[test]
fn cbc_turns_down_an_iv_that_is_not_a_block() {
    let key = [0u8; 16];
    for len in [0usize, 12, 15, 17] {
        let iv = vec![0u8; len];
        assert_eq!(encrypt_aescbc128(b"data", &key, &iv), Err(CipherError::InvalidIvLength));
        assert_eq!(decrypt_aescbc128(&[0u8; 16], &key, &iv), Err(CipherError::InvalidIvLength));
    }
}

#[test]
fn cbc_key_is_looked_at_before_iv() {
    assert_eq!(encrypt_aescbc128(b"data", &[0u8; 24], &[0u8; 12]), Err(CipherError::InvalidKeyLength));
}

#[test]
fn cbc_decrypt_turns_down_partial_blocks() {
    let key = [0u8; 16];
    let iv = [0u8; 16];
    assert_eq!(decrypt_aescbc128(&[], &key, &iv), Err(CipherError::InvalidPadding));
    assert_eq!(decrypt_aescbc128(&[0u8; 15], &key, &iv), Err(CipherError::InvalidPadding));
    assert_eq!(decrypt_aescbc128(&[0u8; 17], &key, &iv), Err(CipherError::InvalidPadding));
    assert_eq!(decrypt_aescbc128(&[0u8; 33], &key, &iv), Err(CipherError::InvalidPadding));
}

#[test]
fn cbc_decrypt_turns_down_malformed_padding() {
    let key = [0x11u8; 16];
    let iv = [0x22u8; 16];
    let plain = cbc_message(16);
    let encrypted = encrypt_aescbc128(&plain, &key, &iv).unwrap();
    assert_eq!(encrypted.len(), 32);
    // The last block decrypts to sixteen bytes 0x10. A bit flipped in the
    // block before it flips the same bit of the padding.
    let mut last_byte_17 = encrypted.clone();
    last_byte_17[15] ^= 0x01;
    assert_eq!(decrypt_aescbc128(&last_byte_17, &key, &iv), Err(CipherError::InvalidPadding));
    let mut last_byte_0 = encrypted.clone();
    last_byte_0[15] ^= 0x10;
    assert_eq!(decrypt_aescbc128(&last_byte_0, &key, &iv), Err(CipherError::InvalidPadding));
    let mut uneven = encrypted.clone();
    uneven[14] ^= 0x01;
    assert_eq!(decrypt_aescbc128(&uneven, &key, &iv), Err(CipherError::InvalidPadding));
    // Padding of one byte: the last byte turned from 0x10 into 0x01.
    let mut one_byte = encrypted.clone();
    one_byte[15] ^= 0x11;
    let decrypted = decrypt_aescbc128(&one_byte, &key, &iv).unwrap();
    assert_eq!(decrypted.len(), 31);
    assert_eq!(&decrypted[16..], &[0x10u8; 15][..]);
}

#[test]
fn cbc_other_iv_changes_the_first_block_only() {
    let key = [0x33u8; 16];
    let iv = [0x44u8; 16];
    let mut other_iv = iv;
    other_iv[0] ^= 0x80;
    let plain = cbc_message(40);
    let encrypted = encrypt_aescbc128(&plain, &key, &iv).unwrap();
    let decrypted = decrypt_aescbc128(&encrypted, &key, &other_iv).unwrap();
    assert_eq!(decrypted[0], plain[0] ^ 0x80);
    assert_eq!(&decrypted[1..], &plain[1..]);
}
