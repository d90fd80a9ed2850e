//! The AES-128 primitives of the `crypto` crate, and what is taken on trust
//! about them.
//!
//! Nothing in this file is proved. Each function below makes one use of the
//! `crypto` crate and states what that use does; the rest of the library is
//! proved against these statements. The bytes that AES produces are not
//! written out here: they are given names, and the statements say how the
//! results of the calls are made of them.
//!
//! The functions ask for keys, IVs and nonces of the right sizes because the
//! crate does not look at them: with other sizes it panics, reads past the
//! end of the key or chains to the wrong block, depending on the machine.

use vstd::prelude::*;
use crypto::aead::AeadDecryptor;
use crypto::aead::AeadEncryptor;
use crypto::aes::cbc_decryptor;
use crypto::aes::cbc_encryptor;
use crypto::aes::ctr;
use crypto::aes::KeySize;
use crypto::aes_gcm::AesGcm;
use crypto::blockmodes::NoPadding;
use crypto::buffer::BufferResult;
use crypto::buffer::ReadBuffer;
use crypto::buffer::RefReadBuffer;
use crypto::buffer::RefWriteBuffer;
use crypto::buffer::WriteBuffer;
use crypto::symmetriccipher::Decryptor;
use crypto::symmetriccipher::Encryptor;
use crypto::symmetriccipher::SymmetricCipherError;
use crate::bytes::xor_bytes;

verus! {

/// `crypto::symmetriccipher::SymmetricCipherError`, the error of a block
/// engine. Nothing is read from it.
#[verifier::external_type_specification]
#[verifier::external_body]
pub struct ExSymmetricCipherError(SymmetricCipherError);

/// A CBC encryptor as `crypto::aes::cbc_encryptor` returns it: a boxed
/// `Encryptor` that keeps the chaining block, and the output that did not fit
/// yet, between calls.
#[verifier::external_body]
pub struct CbcEncryptor128 {
    engine: Box<dyn Encryptor>,
}

/// A CBC decryptor as `crypto::aes::cbc_decryptor` returns it: a boxed
/// `Decryptor` that keeps the chaining block, and the output that did not fit
/// yet, between calls.
#[verifier::external_body]
pub struct CbcDecryptor128 {
    engine: Box<dyn Decryptor>,
}

/// How far one call of a block engine got.
pub struct Progress {
    /// The number of input bytes that the call took.
    pub consumed: usize,
    /// The number of bytes that the call wrote to the start of the staging
    /// buffer.
    pub produced: usize,
    /// Whether the call ended for want of room (`BufferOverflow`): there is
    /// more to drain. Otherwise it ended because all input is taken and all
    /// output written (`BufferUnderflow`).
    pub overflow: bool,
}

/// AES-128 in CBC mode without padding: what an encryptor made for `key` and
/// `iv` writes in all when it is given `blocks`, a whole number of blocks.
pub uninterp spec fn aes128_cbc_encrypt(key: Seq<u8>, iv: Seq<u8>, blocks: Seq<u8>) -> Seq<u8>;

/// AES-128 in CBC mode without padding: what a decryptor made for `key` and
/// `iv` writes in all when it is given `blocks`, a whole number of blocks.
pub uninterp spec fn aes128_cbc_decrypt(key: Seq<u8>, iv: Seq<u8>, blocks: Seq<u8>) -> Seq<u8>;

/// What the encryptor, as it stands, writes from now on when `rest` is all
/// the input that it is still given.
pub uninterp spec fn encryptor_pending(engine: CbcEncryptor128, rest: Seq<u8>) -> Seq<u8>;

/// What the decryptor, as it stands, writes from now on when `rest` is all
/// the input that it is still given.
pub uninterp spec fn decryptor_pending(engine: CbcDecryptor128, rest: Seq<u8>) -> Seq<u8>;

/// The first `len` bytes of the keystream of AES-128 in CTR mode for `key`
/// and the starting counter block `counter`.
pub uninterp spec fn aes128_ctr_keystream(key: Seq<u8>, counter: Seq<u8>, len: nat) -> Seq<u8>;

/// The first `len` bytes of the keystream with which AES-128 in GCM mode
/// encrypts under `key` and `nonce`.
pub uninterp spec fn aes128_gcm_keystream(key: Seq<u8>, nonce: Seq<u8>, len: nat) -> Seq<u8>;

/// The tag that AES-128 in GCM mode gives to `ciphertext` under `key`,
/// `nonce` and the associated data `aad`.
pub uninterp spec fn aes128_gcm_tag(
    key: Seq<u8>,
    nonce: Seq<u8>,
    aad: Seq<u8>,
    ciphertext: Seq<u8>,
) -> [u8; 16];

/// What one call of a block engine does when it is handed `input`, a whole
/// number of blocks and all that is left, and a staging buffer that holds
/// `staging` afterwards. `before` is what the engine had yet to write for
/// `input` when it was called; `after` is what it has yet to write, for the
/// input that it did not take, when it returns.
///
/// The call takes whole blocks. On overflow the staging buffer is full and
/// holds the next bytes of the output. On underflow the staging buffer
/// starts with all the output there was.
pub open spec fn advances(
    before: Seq<u8>,
    input: Seq<u8>,
    staging: Seq<u8>,
    progress: Progress,
    after: Seq<u8>,
) -> bool {
    &&& progress.consumed <= input.len()
    &&& (input.len() - progress.consumed) % 16 == 0
    &&& progress.produced <= staging.len()
    &&& progress.overflow ==> progress.produced == staging.len() && before == staging + after
    &&& !progress.overflow ==> before == staging.take(progress.produced as int)
}

/// Calls `crypto::aes::cbc_encryptor` for a 128-bit key, with `NoPadding`.
///
/// Taken on trust: the encryptor starts with nothing buffered, so for whole
/// blocks it writes their CBC encryption under `key` and `iv`. That has the
/// length of the blocks, since the engine writes one block for each block it
/// reads, and a decryptor that `crypto::aes::cbc_decryptor` makes for the
/// same key and IV turns it back into the blocks: it undoes the block cipher
/// and the chaining block by block.
#[verifier::external_body]
pub(crate) fn new_cbc_encryptor(key: &[u8], iv: &[u8]) -> (engine: CbcEncryptor128)
    requires
        key@.len() == 16,
        iv@.len() == 16,
    ensures
        forall|blocks: Seq<u8>|
            blocks.len() % 16 == 0 ==> #[trigger] encryptor_pending(engine, blocks)
                == aes128_cbc_encrypt(key@, iv@, blocks) && encryptor_pending(engine, blocks).len()
                == blocks.len() && aes128_cbc_decrypt(
                key@,
                iv@,
                encryptor_pending(engine, blocks),
            ) == blocks,
{
    CbcEncryptor128 { engine: cbc_encryptor(KeySize::KeySize128, key, iv, NoPadding) }
}

/// Calls `crypto::aes::cbc_decryptor` for a 128-bit key, with `NoPadding`.
///
/// Taken on trust: the decryptor starts with nothing buffered, so for whole
/// blocks it writes their CBC decryption under `key` and `iv`.
#[verifier::external_body]
pub(crate) fn new_cbc_decryptor(key: &[u8], iv: &[u8]) -> (engine: CbcDecryptor128)
    requires
        key@.len() == 16,
        iv@.len() == 16,
    ensures
        forall|blocks: Seq<u8>|
            blocks.len() % 16 == 0 ==> #[trigger] decryptor_pending(engine, blocks)
                == aes128_cbc_decrypt(key@, iv@, blocks),
{
    CbcDecryptor128 { engine: cbc_decryptor(KeySize::KeySize128, key, iv, NoPadding) }
}

/// Calls `Encryptor::encrypt` once, with `input` as all the input that is
/// left (the end-of-input flag set) and `staging` as the room to write to.
///
/// Taken on trust, from `BlockEngine::process` in `crypto::blockmodes`: see
/// [`advances`]. The engine reports overflow only when the output that it
/// holds did not fit into what was left of the buffer, which it has then
/// filled; it reports underflow when it has written all the output and
/// there is no input left that it would take. Without padding it fails only
/// when the input that it was given since it was made ends inside a block,
/// and an engine is only ever made by [`new_cbc_encryptor`] and fed through
/// this function.
#[verifier::external_body]
pub(crate) fn cbc_encrypt_step(
    engine: &mut CbcEncryptor128,
    input: &[u8],
    staging: &mut [u8],
) -> (r: Result<Progress, SymmetricCipherError>)
    requires
        input@.len() % 16 == 0,
        old(staging)@.len() > 0,
    ensures
        final(staging)@.len() == old(staging)@.len(),
        r matches Ok(progress) && advances(
            encryptor_pending(*old(engine), input@),
            input@,
            final(staging)@,
            progress,
            encryptor_pending(*final(engine), input@.skip(progress.consumed as int)),
        ),
{
    let mut reader = RefReadBuffer::new(input);
    let mut writer = RefWriteBuffer::new(staging);
    match engine.engine.encrypt(&mut reader, &mut writer, true) {
        Ok(BufferResult::BufferUnderflow) => Ok(
            Progress { consumed: reader.position(), produced: writer.position(), overflow: false },
        ),
        Ok(BufferResult::BufferOverflow) => Ok(
            Progress { consumed: reader.position(), produced: writer.position(), overflow: true },
        ),
        Err(e) => Err(e),
    }
}

/// Calls `Decryptor::decrypt` once, with `input` as all the input that is
/// left (the end-of-input flag set) and `staging` as the room to write to.
///
/// Taken on trust, from `BlockEngine::process` in `crypto::blockmodes`: see
/// [`advances`] and [`cbc_encrypt_step`]; the engine is the same.
#[verifier::external_body]
pub(crate) fn cbc_decrypt_step(
    engine: &mut CbcDecryptor128,
    input: &[u8],
    staging: &mut [u8],
) -> (r: Result<Progress, SymmetricCipherError>)
    requires
        input@.len() % 16 == 0,
        old(staging)@.len() > 0,
    ensures
        final(staging)@.len() == old(staging)@.len(),
        r matches Ok(progress) && advances(
            decryptor_pending(*old(engine), input@),
            input@,
            final(staging)@,
            progress,
            decryptor_pending(*final(engine), input@.skip(progress.consumed as int)),
        ),
{
    let mut reader = RefReadBuffer::new(input);
    let mut writer = RefWriteBuffer::new(staging);
    match engine.engine.decrypt(&mut reader, &mut writer, true) {
        Ok(BufferResult::BufferUnderflow) => Ok(
            Progress { consumed: reader.position(), produced: writer.position(), overflow: false },
        ),
        Ok(BufferResult::BufferOverflow) => Ok(
            Progress { consumed: reader.position(), produced: writer.position(), overflow: true },
        ),
        Err(e) => Err(e),
    }
}

/// Calls `crypto::aes::ctr` for a 128-bit key and has the cipher that it
/// returns `process` the input once, into `output`.
///
/// Taken on trust, from `CtrMode::process` and `CtrModeX8::process` in
/// `crypto::blockmodes`: each byte written is the input byte combined by
/// exclusive or with the next byte of a keystream that depends on the key
/// and the counter block alone. `process` panics unless input and output
/// have one length.
#[verifier::external_body]
pub(crate) fn aes128_ctr_apply(key: &[u8], counter: &[u8], input: &[u8], output: &mut [u8])
    requires
        key@.len() == 16,
        counter@.len() == 16,
        input@.len() == old(output)@.len(),
    ensures
        final(output)@ == xor_bytes(input@, aes128_ctr_keystream(key@, counter@, input@.len())),
{
    let mut cipher = ctr(KeySize::KeySize128, key, counter);
    cipher.process(input, output);
}

/// Makes an `AesGcm` for a 128-bit key and has it `encrypt` the input once,
/// into `output`. Returns the tag.
///
/// Taken on trust, from `crypto::aes_gcm`: the ciphertext is the input
/// combined by exclusive or with a keystream that depends on key and nonce
/// alone; the tag is computed from key, nonce, associated data and the
/// ciphertext. `encrypt` panics unless input and output have one length.
#[verifier::external_body]
pub(crate) fn aes128_gcm_seal(
    key: &[u8],
    nonce: &[u8],
    aad: &[u8],
    input: &[u8],
    output: &mut [u8],
) -> (tag: [u8; 16])
    requires
        key@.len() == 16,
        nonce@.len() == 12,
        input@.len() == old(output)@.len(),
    ensures
        final(output)@ == xor_bytes(input@, aes128_gcm_keystream(key@, nonce@, input@.len())),
        tag == aes128_gcm_tag(key@, nonce@, aad@, final(output)@),
{
    let mut tag = [0u8; 16];
    let mut gcm = AesGcm::new(KeySize::KeySize128, key, nonce, aad);
    gcm.encrypt(input, output, &mut tag);
    tag
}

/// Makes an `AesGcm` for a 128-bit key and has it `decrypt` the ciphertext
/// once, into `output`. Returns whether the tag was accepted.
///
/// Taken on trust, from `crypto::aes_gcm`: the tag is accepted when it is
/// the one that encryption gives to this ciphertext under the same key,
/// nonce and associated data. Only then is anything written: the ciphertext
/// combined with the keystream of encryption. `decrypt` panics unless
/// ciphertext and output have one length.
#[verifier::external_body]
pub(crate) fn aes128_gcm_open(
    key: &[u8],
    nonce: &[u8],
    aad: &[u8],
    ciphertext: &[u8],
    tag: &[u8],
    output: &mut [u8],
) -> (accepted: bool)
    requires
        key@.len() == 16,
        nonce@.len() == 12,
        tag@.len() == 16,
        ciphertext@.len() == old(output)@.len(),
    ensures
        accepted == (tag@ == aes128_gcm_tag(key@, nonce@, aad@, ciphertext@)@),
        accepted ==> final(output)@ == xor_bytes(
            ciphertext@,
            aes128_gcm_keystream(key@, nonce@, ciphertext@.len()),
        ),
        !accepted ==> final(output)@ == old(output)@,
{
    let mut gcm = AesGcm::new(KeySize::KeySize128, key, nonce, aad);
    gcm.decrypt(ciphertext, output, tag)
}

} // verus!
