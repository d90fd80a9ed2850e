//! AES-128 in CTR mode: a stream cipher without padding and without a tag.
//!
//! Encryption and decryption are the same transformation: the input combined
//! with the keystream. The output is exactly as long as the input.

use vstd::prelude::*;
use crate::bytes::delivered;
use crate::bytes::lemma_xor_bytes_twice;
use crate::bytes::xor_bytes;
use crate::error::CipherError;
use crate::mode::CipherMode;
use crate::primitives::aes128_ctr_apply;
use crate::primitives::aes128_ctr_keystream;

verus! {

/// `data` combined with the keystream of `key` and the counter block `iv`.
pub open spec fn ctr_transform(data: Seq<u8>, key: Seq<u8>, iv: Seq<u8>) -> Seq<u8> {
    xor_bytes(data, aes128_ctr_keystream(key, iv, data.len()))
}

/// What running `input` through CTR mode comes to, when the output buffer
/// has room for `capacity` bytes. The key is looked at first, then the IV,
/// then the room.
pub open spec fn ctr_outcome(input: Seq<u8>, capacity: nat, key: Seq<u8>, iv: Seq<u8>) -> Result<
    Seq<u8>,
    CipherError,
> {
    match CipherMode::Ctr128.refusal(key, iv) {
        Some(e) => Err(e),
        None => if capacity < input.len() {
            Err(CipherError::BufferTooSmall)
        } else {
            Ok(ctr_transform(input, key, iv))
        },
    }
}

/// With a key and an IV of 16 bytes and room for the input, the output is as
/// long as the input: nothing is added to it.
pub proof fn lemma_ctr_keeps_length(input: Seq<u8>, room: nat, key: Seq<u8>, iv: Seq<u8>)
    requires
        CipherMode::Ctr128.refusal(key, iv) is None,
        input.len() <= room,
    ensures
        ctr_outcome(input, room, key, iv) matches Ok(output) && output.len() == input.len(),
{
}

/// Decryption undoes encryption: with a key and an IV of 16 bytes and room
/// for the message, what CTR mode made of a message it turns back into the
/// message under the same key and IV.
pub proof fn lemma_ctr_round_trip(data: Seq<u8>, room: nat, key: Seq<u8>, iv: Seq<u8>)
    requires
        CipherMode::Ctr128.refusal(key, iv) is None,
        data.len() <= room,
    ensures
        ctr_outcome(data, room, key, iv) matches Ok(encrypted) && ctr_outcome(
            encrypted,
            room,
            key,
            iv,
        ) == Ok::<Seq<u8>, CipherError>(data),
{
    lemma_xor_bytes_twice(data, aes128_ctr_keystream(key, iv, data.len()));
}

/// Encrypts `input` with AES-128 in CTR mode into the start of `output`.
///
/// A key or an IV that does not have 16 bytes is turned down, and so is an
/// output buffer shorter than the input; the buffer is then left as it was.
/// Otherwise the first `input.len()` bytes of `output` become the
/// ciphertext, the rest of it stays, and `input.len()` is returned: no tag
/// is added.
pub fn encrypt_aesctr128(input: &[u8], output: &mut [u8], key: &[u8], iv: &[u8]) -> (r: Result<
    usize,
    CipherError,
>)
    ensures
        delivered(
            ctr_outcome(input@, old(output)@.len(), key@, iv@),
            r,
            old(output)@,
            final(output)@,
        ),
        r matches Ok(n) ==> n == input@.len(),
{
    CipherMode::Ctr128.check(key, iv)?;
    if output.len() < input.len() {
        return Err(CipherError::BufferTooSmall);
    }
    let (head, _) = output.split_at_mut(input.len());
    aes128_ctr_apply(key, iv, input, head);
    Ok(input.len())
}

/// Decrypts `input` with AES-128 in CTR mode into the start of `output`.
///
/// This is the transformation of encryption applied once more. A key or an
/// IV that does not have 16 bytes is turned down, and so is an output buffer
/// shorter than the input; the buffer is then left as it was. Otherwise the
/// first `input.len()` bytes of `output` become the plaintext, the rest of
/// it stays, and `input.len()` is returned.
pub fn decrypt_aesctr128(input: &[u8], output: &mut [u8], key: &[u8], iv: &[u8]) -> (r: Result<
    usize,
    CipherError,
>)
    ensures
        delivered(
            ctr_outcome(input@, old(output)@.len(), key@, iv@),
            r,
            old(output)@,
            final(output)@,
        ),
        r matches Ok(n) ==> n == input@.len(),
{
    encrypt_aesctr128(input, output, key, iv)
}

} // verus!
