//! AES-128 in CBC mode with padding.
//!
//! The message is padded to whole blocks and run through a block engine. The
//! engine writes into a staging buffer of fixed size; whenever it reports
//! that the buffer is full, the buffer is drained into the result and the
//! engine is called again, until it reports that input and output are used
//! up.

use vstd::prelude::*;
use vstd::slice::slice_subrange;
use crate::bytes::append_prefix;
use crate::bytes::bytes_of;
use crate::error::CipherError;
use crate::mode::CipherMode;
use crate::mode::BLOCK_LEN;
use crate::padding::lemma_pad_fills_blocks;
use crate::padding::lemma_unpad_undoes_pad;
use crate::padding::pad;
use crate::padding::pad_len;
use crate::padding::pkcs7_pad;
use crate::padding::pkcs7_unpad;
use crate::padding::unpad;
use crate::primitives::aes128_cbc_decrypt;
use crate::primitives::aes128_cbc_encrypt;
use crate::primitives::cbc_decrypt_step;
use crate::primitives::cbc_encrypt_step;
use crate::primitives::decryptor_pending;
use crate::primitives::encryptor_pending;
use crate::primitives::new_cbc_decryptor;
use crate::primitives::new_cbc_encryptor;

verus! {

/// Bytes in the staging buffer that a block engine writes to.
pub const STAGING_LEN: usize = 4096;

/// The ciphertext of `data` under `key` and `iv`: the CBC encryption of the
/// padded message.
pub open spec fn cbc_ciphertext(data: Seq<u8>, key: Seq<u8>, iv: Seq<u8>) -> Seq<u8> {
    aes128_cbc_encrypt(key, iv, pkcs7_pad(data))
}

/// What encrypting `data` under `key` and `iv` comes to.
pub open spec fn cbc_encrypt_outcome(data: Seq<u8>, key: Seq<u8>, iv: Seq<u8>) -> Result<
    Seq<u8>,
    CipherError,
> {
    match CipherMode::Cbc128.refusal(key, iv) {
        Some(e) => Err(e),
        None => Ok(cbc_ciphertext(data, key, iv)),
    }
}

/// What decrypting `encrypted` under `key` and `iv` comes to. Data that is
/// empty or not a whole number of blocks is turned down like data whose
/// decryption does not end in well-formed padding.
pub open spec fn cbc_decrypt_outcome(encrypted: Seq<u8>, key: Seq<u8>, iv: Seq<u8>) -> Result<
    Seq<u8>,
    CipherError,
> {
    match CipherMode::Cbc128.refusal(key, iv) {
        Some(e) => Err(e),
        None => if encrypted.len() == 0 || encrypted.len() % (BLOCK_LEN as nat) != 0 {
            Err(CipherError::InvalidPadding)
        } else {
            match pkcs7_unpad(aes128_cbc_decrypt(key, iv, encrypted)) {
                Some(data) => Ok(data),
                None => Err(CipherError::InvalidPadding),
            }
        },
    }
}

/// Runs whole blocks through a CBC encryptor, draining its staging buffer
/// until the engine reports that nothing is left.
fn encrypt_blocks(blocks: &[u8], key: &[u8], iv: &[u8]) -> (out: Vec<u8>)
    requires
        key@.len() == 16,
        iv@.len() == 16,
        blocks@.len() % 16 == 0,
    ensures
        out@ == aes128_cbc_encrypt(key@, iv@, blocks@),
        out@.len() == blocks@.len(),
        aes128_cbc_decrypt(key@, iv@, out@) == blocks@,
{
    let mut engine = new_cbc_encryptor(key, iv);
    let mut staging = [0u8; STAGING_LEN];
    let mut out: Vec<u8> = Vec::new();
    let total: usize = blocks.len();
    let mut taken: usize = 0;
    proof {
        assert(blocks@.skip(0) =~= blocks@);
        assert(encryptor_pending(engine, blocks@) == aes128_cbc_encrypt(key@, iv@, blocks@));
    }
    loop
        invariant_except_break
            total == blocks@.len(),
            taken <= total,
            (total - taken) % 16 == 0,
            aes128_cbc_encrypt(key@, iv@, blocks@) == out@ + encryptor_pending(
                engine,
                blocks@.skip(taken as int),
            ),
        ensures
            out@ == aes128_cbc_encrypt(key@, iv@, blocks@),
        decreases encryptor_pending(engine, blocks@.skip(taken as int)).len(),
    {
        let rest = slice_subrange(blocks, taken, total);
        let ghost before = out@;
        let ghost pending = encryptor_pending(engine, rest@);
        let step = cbc_encrypt_step(&mut engine, rest, &mut staging);
        // Whole blocks without padding never fail.
        let progress = step.unwrap();
        append_prefix(&mut out, &staging, progress.produced);
        taken = taken + progress.consumed;
        proof {
            assert(rest@.skip(progress.consumed as int) =~= blocks@.skip(taken as int));
            assert(staging@.take(staging@.len() as int) =~= staging@);
            if progress.overflow {
                assert(before + pending =~= out@ + encryptor_pending(
                    engine,
                    blocks@.skip(taken as int),
                ));
            } else {
                assert(before + pending =~= out@);
            }
        }
        if !progress.overflow {
            break ;
        }
    }
    out
}

/// Runs whole blocks through a CBC decryptor, draining its staging buffer
/// until the engine reports that nothing is left.
fn decrypt_blocks(blocks: &[u8], key: &[u8], iv: &[u8]) -> (out: Vec<u8>)
    requires
        key@.len() == 16,
        iv@.len() == 16,
        blocks@.len() % 16 == 0,
    ensures
        out@ == aes128_cbc_decrypt(key@, iv@, blocks@),
{
    let mut engine = new_cbc_decryptor(key, iv);
    let mut staging = [0u8; STAGING_LEN];
    let mut out: Vec<u8> = Vec::new();
    let total: usize = blocks.len();
    let mut taken: usize = 0;
    proof {
        assert(blocks@.skip(0) =~= blocks@);
        assert(decryptor_pending(engine, blocks@) == aes128_cbc_decrypt(key@, iv@, blocks@));
    }
    loop
        invariant_except_break
            total == blocks@.len(),
            taken <= total,
            (total - taken) % 16 == 0,
            aes128_cbc_decrypt(key@, iv@, blocks@) == out@ + decryptor_pending(
                engine,
                blocks@.skip(taken as int),
            ),
        ensures
            out@ == aes128_cbc_decrypt(key@, iv@, blocks@),
        decreases decryptor_pending(engine, blocks@.skip(taken as int)).len(),
    {
        let rest = slice_subrange(blocks, taken, total);
        let ghost before = out@;
        let ghost pending = decryptor_pending(engine, rest@);
        let step = cbc_decrypt_step(&mut engine, rest, &mut staging);
        // Whole blocks without padding never fail.
        let progress = step.unwrap();
        append_prefix(&mut out, &staging, progress.produced);
        taken = taken + progress.consumed;
        proof {
            assert(rest@.skip(progress.consumed as int) =~= blocks@.skip(taken as int));
            assert(staging@.take(staging@.len() as int) =~= staging@);
            if progress.overflow {
                assert(before + pending =~= out@ + decryptor_pending(
                    engine,
                    blocks@.skip(taken as int),
                ));
            } else {
                assert(before + pending =~= out@);
            }
        }
        if !progress.overflow {
            break ;
        }
    }
    out
}

/// Encrypts `data` with AES-128 in CBC mode, padded, into a new vector.
///
/// A key or an IV that does not have 16 bytes is turned down. Otherwise the
/// ciphertext comes back: the message and its padding, so between one byte
/// and one block longer than the message, and a whole number of blocks.
/// Decrypting it under the same key and IV gives `data` back.
pub fn encrypt_aescbc128(data: &[u8], key: &[u8], iv: &[u8]) -> (r: Result<Vec<u8>, CipherError>)
    ensures
        bytes_of(r) == cbc_encrypt_outcome(data@, key@, iv@),
        r matches Ok(c) ==> c@.len() == data@.len() + pad_len(data@.len())
            && cbc_decrypt_outcome(c@, key@, iv@) == Ok::<Seq<u8>, CipherError>(data@),
{
    CipherMode::Cbc128.check(key, iv)?;
    let padded = pad(data);
    proof {
        lemma_pad_fills_blocks(data@);
        lemma_unpad_undoes_pad(data@);
    }
    let encrypted = encrypt_blocks(padded.as_slice(), key, iv);
    Ok(encrypted)
}

/// Decrypts `encrypted_data` with AES-128 in CBC mode and takes the padding
/// off, into a new vector.
///
/// A key or an IV that does not have 16 bytes is turned down. Data that is
/// empty, that is not a whole number of blocks, or whose decryption does not
/// end in well-formed padding gives `InvalidPadding`.
pub fn decrypt_aescbc128(encrypted_data: &[u8], key: &[u8], iv: &[u8]) -> (r: Result<
    Vec<u8>,
    CipherError,
>)
    ensures
        bytes_of(r) == cbc_decrypt_outcome(encrypted_data@, key@, iv@),
{
    CipherMode::Cbc128.check(key, iv)?;
    if encrypted_data.len() == 0 || encrypted_data.len() % BLOCK_LEN != 0 {
        return Err(CipherError::InvalidPadding);
    }
    let blocks = decrypt_blocks(encrypted_data, key, iv);
    unpad(blocks)
}

} // verus!
