//! AES-128 in GCM mode: encryption that also authenticates the message and
//! associated data.
//!
//! A sealed message is the ciphertext, as long as the plaintext, with the
//! 16-byte tag right behind it.

use vstd::prelude::*;
use crate::bytes::delivered;
use crate::bytes::lemma_xor_bytes_twice;
use crate::bytes::write_at;
use crate::bytes::xor_bytes;
use crate::error::CipherError;
use crate::mode::CipherMode;
use crate::mode::TAG_LEN;
use crate::primitives::aes128_gcm_keystream;
use crate::primitives::aes128_gcm_open;
use crate::primitives::aes128_gcm_seal;
use crate::primitives::aes128_gcm_tag;

verus! {

/// The ciphertext of `plaintext` under `key` and `nonce`, without the tag.
pub open spec fn gcm_ciphertext(plaintext: Seq<u8>, key: Seq<u8>, nonce: Seq<u8>) -> Seq<u8> {
    xor_bytes(plaintext, aes128_gcm_keystream(key, nonce, plaintext.len()))
}

/// The sealed form of `plaintext`: its ciphertext, then the tag of that
/// ciphertext under `key`, `nonce` and `aad`.
pub open spec fn gcm_sealed(plaintext: Seq<u8>, key: Seq<u8>, nonce: Seq<u8>, aad: Seq<u8>) -> Seq<
    u8,
> {
    let ciphertext = gcm_ciphertext(plaintext, key, nonce);
    ciphertext + aes128_gcm_tag(key, nonce, aad, ciphertext)@
}

/// The plaintext of a sealed message, if its tag is the one that its
/// ciphertext has under `key`, `nonce` and `aad`. A message too short to
/// hold a tag has none.
pub open spec fn gcm_opened(sealed: Seq<u8>, key: Seq<u8>, nonce: Seq<u8>, aad: Seq<u8>) -> Option<
    Seq<u8>,
> {
    if sealed.len() < TAG_LEN {
        None
    } else {
        let ciphertext = sealed.take(sealed.len() - TAG_LEN);
        let tag = sealed.skip(sealed.len() - TAG_LEN);
        if tag == aes128_gcm_tag(key, nonce, aad, ciphertext)@ {
            Some(gcm_ciphertext(ciphertext, key, nonce))
        } else {
            None
        }
    }
}

/// What sealing `input` comes to, when the output buffer has room for
/// `capacity` bytes. The key is looked at first, then the nonce, then the
/// room.
pub open spec fn gcm_encrypt_outcome(
    input: Seq<u8>,
    capacity: nat,
    key: Seq<u8>,
    nonce: Seq<u8>,
    aad: Seq<u8>,
) -> Result<Seq<u8>, CipherError> {
    match CipherMode::Gcm128.refusal(key, nonce) {
        Some(e) => Err(e),
        None => if capacity < input.len() + TAG_LEN {
            Err(CipherError::BufferTooSmall)
        } else {
            Ok(gcm_sealed(input, key, nonce, aad))
        },
    }
}

/// What opening `input` comes to, when the output buffer has room for
/// `capacity` bytes. The key is looked at first, then the nonce, then
/// whether the input can hold a tag, then the room, then the tag.
pub open spec fn gcm_decrypt_outcome(
    input: Seq<u8>,
    capacity: nat,
    key: Seq<u8>,
    nonce: Seq<u8>,
    aad: Seq<u8>,
) -> Result<Seq<u8>, CipherError> {
    match CipherMode::Gcm128.refusal(key, nonce) {
        Some(e) => Err(e),
        None => if input.len() < TAG_LEN {
            Err(CipherError::AuthenticationFailure)
        } else if capacity < input.len() - TAG_LEN {
            Err(CipherError::BufferTooSmall)
        } else {
            match gcm_opened(input, key, nonce, aad) {
                Some(plaintext) => Ok(plaintext),
                None => Err(CipherError::AuthenticationFailure),
            }
        },
    }
}

/// With a key of 16 bytes, a nonce of 12 and room enough, sealing gives the
/// plaintext's length and a tag, and what opens is a tag shorter than what
/// was sealed.
pub proof fn lemma_gcm_lengths(
    input: Seq<u8>,
    room: nat,
    key: Seq<u8>,
    nonce: Seq<u8>,
    aad: Seq<u8>,
)
    requires
        CipherMode::Gcm128.refusal(key, nonce) is None,
    ensures
        input.len() + TAG_LEN <= room ==> (gcm_encrypt_outcome(input, room, key, nonce, aad) matches Ok(
            sealed,
        ) && sealed.len() == input.len() + TAG_LEN),
        gcm_decrypt_outcome(input, room, key, nonce, aad) matches Ok(plaintext) ==> plaintext.len()
            == input.len() - TAG_LEN,
{
}

/// Opening undoes sealing: with a key of 16 bytes, a nonce of 12 and room
/// enough, a sealed message opens to its plaintext under the same key, nonce
/// and associated data.
pub proof fn lemma_gcm_round_trip(
    plaintext: Seq<u8>,
    room: nat,
    key: Seq<u8>,
    nonce: Seq<u8>,
    aad: Seq<u8>,
)
    requires
        CipherMode::Gcm128.refusal(key, nonce) is None,
        plaintext.len() + TAG_LEN <= room,
    ensures
        gcm_encrypt_outcome(plaintext, room, key, nonce, aad) matches Ok(sealed)
            && gcm_decrypt_outcome(sealed, room, key, nonce, aad) == Ok::<Seq<u8>, CipherError>(
            plaintext,
        ),
{
    let ciphertext = gcm_ciphertext(plaintext, key, nonce);
    let sealed = gcm_sealed(plaintext, key, nonce, aad);
    assert(sealed.take(sealed.len() - TAG_LEN) =~= ciphertext);
    assert(sealed.skip(sealed.len() - TAG_LEN) =~= aes128_gcm_tag(key, nonce, aad, ciphertext)@);
    lemma_xor_bytes_twice(plaintext, aes128_gcm_keystream(key, nonce, plaintext.len()));
}

/// Only sealed messages open: whatever opens to a plaintext under a key, a
/// nonce and associated data is the sealed form of that plaintext under
/// them. A message that was changed on its way opens only if the change
/// made it the sealed form of another plaintext.
pub proof fn lemma_gcm_opens_only_sealed(
    input: Seq<u8>,
    room: nat,
    key: Seq<u8>,
    nonce: Seq<u8>,
    aad: Seq<u8>,
)
    requires
        gcm_decrypt_outcome(input, room, key, nonce, aad) is Ok,
    ensures
        gcm_encrypt_outcome(
            gcm_decrypt_outcome(input, room, key, nonce, aad)->Ok_0,
            input.len(),
            key,
            nonce,
            aad,
        ) == Ok::<Seq<u8>, CipherError>(input),
{
    let ciphertext = input.take(input.len() - TAG_LEN);
    lemma_xor_bytes_twice(ciphertext, aes128_gcm_keystream(key, nonce, ciphertext.len()));
    assert(gcm_ciphertext(gcm_ciphertext(ciphertext, key, nonce), key, nonce) == ciphertext);
    assert(input =~= ciphertext + input.skip(input.len() - TAG_LEN));
}

/// A sealed message whose tag was changed in any way, be it in one bit, the
/// ciphertext left alone, fails authentication.
pub proof fn lemma_gcm_rejects_changed_tag(
    plaintext: Seq<u8>,
    room: nat,
    key: Seq<u8>,
    nonce: Seq<u8>,
    aad: Seq<u8>,
    changed: Seq<u8>,
)
    requires
        CipherMode::Gcm128.refusal(key, nonce) is None,
        plaintext.len() <= room,
        changed.len() == plaintext.len() + TAG_LEN,
        changed.take(plaintext.len() as int) == gcm_ciphertext(plaintext, key, nonce),
        changed != gcm_sealed(plaintext, key, nonce, aad),
    ensures
        gcm_decrypt_outcome(changed, room, key, nonce, aad) == Err::<Seq<u8>, CipherError>(
            CipherError::AuthenticationFailure,
        ),
{
    let sealed = gcm_sealed(plaintext, key, nonce, aad);
    if gcm_opened(changed, key, nonce, aad) is Some {
        assert(changed =~= changed.take(plaintext.len() as int) + changed.skip(
            plaintext.len() as int,
        ));
        assert(changed =~= sealed);
    }
}

/// The associated data that is used where the caller has none of its own:
/// 16 zero bytes.
pub fn default_aad() -> (aad: [u8; 16])
    ensures
        aad@ == Seq::new(16, |i: int| 0u8),
{
    let aad = [0u8; 16];
    assert(aad@ =~= Seq::new(16, |i: int| 0u8));
    aad
}

/// Seals `input` with AES-128 in GCM mode into the start of `output`.
///
/// A key that does not have 16 bytes or a nonce that does not have 12 is
/// turned down, and so is an output buffer with room for less than the input
/// and a tag; the buffer is then left as it was. Otherwise the first
/// `input.len() + 16` bytes of `output` become the ciphertext and, right
/// behind it, the tag; the rest of it stays, and `input.len() + 16` is
/// returned. `aad` is authenticated with the message and not written.
///
/// A nonce must not be used twice with one key. That is left to the caller:
/// nothing is kept from one call to the next.
pub fn encrypt_aesgcm(input: &[u8], output: &mut [u8], key: &[u8], iv: &[u8], aad: &[u8]) -> (r:
    Result<usize, CipherError>)
    ensures
        delivered(
            gcm_encrypt_outcome(input@, old(output)@.len(), key@, iv@, aad@),
            r,
            old(output)@,
            final(output)@,
        ),
        r matches Ok(n) ==> n == input@.len() + TAG_LEN,
{
    CipherMode::Gcm128.check(key, iv)?;
    let capacity: usize = output.len();
    let n: usize = input.len();
    if capacity < TAG_LEN || capacity - TAG_LEN < n {
        return Err(CipherError::BufferTooSmall);
    }
    let (head, tail) = output.split_at_mut(n);
    let tag = aes128_gcm_seal(key, iv, aad, input, head);
    write_at(tail, 0, tag.as_slice());
    proof {
        assert(output@ =~= gcm_sealed(input@, key@, iv@, aad@) + old(output)@.skip(n + TAG_LEN));
    }
    Ok(n + TAG_LEN)
}

/// Opens `input`, a ciphertext with its tag behind it, with AES-128 in GCM
/// mode into the start of `output`.
///
/// A key that does not have 16 bytes or a nonce that does not have 12 is
/// turned down. Input too short to hold a tag fails authentication. An
/// output buffer with room for less than the ciphertext is turned down.
/// Then the tag is checked against ciphertext, key, nonce and `aad`: if it
/// does not match, authentication fails. In all these cases the buffer is
/// left as it was, so no byte of an unauthenticated message is ever handed
/// out. Otherwise the first `input.len() - 16` bytes of `output` become the
/// plaintext, the rest of it stays, and `input.len() - 16` is returned.
pub fn decrypt_aesgcm(input: &[u8], output: &mut [u8], key: &[u8], iv: &[u8], aad: &[u8]) -> (r:
    Result<usize, CipherError>)
    ensures
        delivered(
            gcm_decrypt_outcome(input@, old(output)@.len(), key@, iv@, aad@),
            r,
            old(output)@,
            final(output)@,
        ),
        r matches Ok(n) ==> n == input@.len() - TAG_LEN,
{
    CipherMode::Gcm128.check(key, iv)?;
    let total: usize = input.len();
    if total < TAG_LEN {
        return Err(CipherError::AuthenticationFailure);
    }
    let data_len: usize = total - TAG_LEN;
    if output.len() < data_len {
        return Err(CipherError::BufferTooSmall);
    }
    let (ciphertext, tag) = input.split_at(data_len);
    let (head, _) = output.split_at_mut(data_len);
    let accepted = aes128_gcm_open(key, iv, aad, ciphertext, tag, head);
    if !accepted {
        assert(output@ =~= old(output)@);
        return Err(CipherError::AuthenticationFailure);
    }
    Ok(data_len)
}

} // verus!
