//! The cipher engine: one interface over the three modes.
//!
//! A mode is picked by a [`CipherMode`] value; `encrypt` and `decrypt` hand
//! the work to the functions of that mode and return the result in a new
//! vector. The functions of the modes are reachable from here as well.

use vstd::prelude::*;
use crate::bytes::bytes_of;
use crate::cbc::cbc_decrypt_outcome;
use crate::cbc::cbc_encrypt_outcome;
use crate::ctr::ctr_outcome;
use crate::ctr::lemma_ctr_round_trip;
use crate::error::CipherError;
use crate::gcm::gcm_decrypt_outcome;
use crate::gcm::gcm_encrypt_outcome;
use crate::gcm::lemma_gcm_round_trip;
use crate::mode::CipherMode;
use crate::mode::TAG_LEN;
use crate::padding::pad_len;

pub use crate::cbc::decrypt_aescbc128;
pub use crate::cbc::encrypt_aescbc128;
pub use crate::ctr::decrypt_aesctr128;
pub use crate::ctr::encrypt_aesctr128;
pub use crate::gcm::decrypt_aesgcm;
pub use crate::gcm::encrypt_aesgcm;

verus! {

impl CipherMode {
    /// The length of the ciphertext of a plaintext of `len` bytes: with its
    /// padding for CBC, unchanged for CTR, with the tag for GCM.
    pub open spec fn ciphertext_size(self, len: nat) -> nat {
        match self {
            CipherMode::Cbc128 => len + pad_len(len),
            CipherMode::Ctr128 => len,
            CipherMode::Gcm128 => len + (TAG_LEN as nat),
        }
    }

    /// What encrypting `plaintext` in this mode comes to, with all the room
    /// that the ciphertext needs. `aad` counts for GCM only.
    pub open spec fn encrypted(
        self,
        plaintext: Seq<u8>,
        key: Seq<u8>,
        iv: Seq<u8>,
        aad: Seq<u8>,
    ) -> Result<Seq<u8>, CipherError> {
        match self {
            CipherMode::Cbc128 => cbc_encrypt_outcome(plaintext, key, iv),
            CipherMode::Ctr128 => ctr_outcome(plaintext, plaintext.len(), key, iv),
            CipherMode::Gcm128 => gcm_encrypt_outcome(
                plaintext,
                plaintext.len() + (TAG_LEN as nat),
                key,
                iv,
                aad,
            ),
        }
    }

    /// What decrypting `ciphertext` in this mode comes to, with all the room
    /// that the plaintext needs. `aad` counts for GCM only.
    pub open spec fn decrypted(
        self,
        ciphertext: Seq<u8>,
        key: Seq<u8>,
        iv: Seq<u8>,
        aad: Seq<u8>,
    ) -> Result<Seq<u8>, CipherError> {
        match self {
            CipherMode::Cbc128 => cbc_decrypt_outcome(ciphertext, key, iv),
            CipherMode::Ctr128 => ctr_outcome(ciphertext, ciphertext.len(), key, iv),
            CipherMode::Gcm128 => gcm_decrypt_outcome(
                ciphertext,
                ciphertext.len(),
                key,
                iv,
                aad,
            ),
        }
    }

    /// Encrypts `plaintext` in this mode into a new vector.
    ///
    /// A key or an IV that does not have the size of the mode is turned
    /// down. Otherwise the ciphertext comes back, with the length that the
    /// mode gives it, and decrypting it in the same mode under the same key,
    /// IV and associated data gives `plaintext` back.
    pub fn encrypt(self, plaintext: &[u8], key: &[u8], iv: &[u8], aad: &[u8]) -> (r: Result<
        Vec<u8>,
        CipherError,
    >)
        requires
            self == CipherMode::Gcm128 ==> plaintext@.len() + TAG_LEN <= usize::MAX,
        ensures
            bytes_of(r) == self.encrypted(plaintext@, key@, iv@, aad@),
            r is Ok <==> self.refusal(key@, iv@) is None,
            r matches Ok(c) ==> c@.len() == self.ciphertext_size(plaintext@.len())
                && self.decrypted(c@, key@, iv@, aad@) == Ok::<Seq<u8>, CipherError>(plaintext@),
    {
        match self {
            CipherMode::Cbc128 => encrypt_aescbc128(plaintext, key, iv),
            CipherMode::Ctr128 => {
                let mut out: Vec<u8> = vec![0u8; plaintext.len()];
                match encrypt_aesctr128(plaintext, out.as_mut_slice(), key, iv) {
                    Ok(_) => {
                        proof {
                            lemma_ctr_round_trip(plaintext@, plaintext@.len(), key@, iv@);
                        }
                        Ok(out)
                    },
                    Err(e) => Err(e),
                }
            },
            CipherMode::Gcm128 => {
                let mut out: Vec<u8> = vec![0u8; plaintext.len() + TAG_LEN];
                match encrypt_aesgcm(plaintext, out.as_mut_slice(), key, iv, aad) {
                    Ok(_) => {
                        proof {
                            lemma_gcm_round_trip(plaintext@, out@.len(), key@, iv@, aad@);
                        }
                        Ok(out)
                    },
                    Err(e) => Err(e),
                }
            },
        }
    }

    /// Decrypts `ciphertext` in this mode into a new vector.
    ///
    /// A key or an IV that does not have the size of the mode is turned
    /// down. CBC turns down data that is not whole blocks ending in
    /// well-formed padding; GCM turns down data whose tag does not match.
    pub fn decrypt(self, ciphertext: &[u8], key: &[u8], iv: &[u8], aad: &[u8]) -> (r: Result<
        Vec<u8>,
        CipherError,
    >)
        ensures
            bytes_of(r) == self.decrypted(ciphertext@, key@, iv@, aad@),
    {
        match self {
            CipherMode::Cbc128 => decrypt_aescbc128(ciphertext, key, iv),
            CipherMode::Ctr128 => {
                let mut out: Vec<u8> = vec![0u8; ciphertext.len()];
                match decrypt_aesctr128(ciphertext, out.as_mut_slice(), key, iv) {
                    Ok(_) => Ok(out),
                    Err(e) => Err(e),
                }
            },
            CipherMode::Gcm128 => {
                let room: usize = if ciphertext.len() < TAG_LEN {
                    0
                } else {
                    ciphertext.len() - TAG_LEN
                };
                let mut out: Vec<u8> = vec![0u8; room];
                match decrypt_aesgcm(ciphertext, out.as_mut_slice(), key, iv, aad) {
                    Ok(_) => Ok(out),
                    Err(e) => Err(e),
                }
            },
        }
    }
}

/// A key that does not have 16 bytes is turned down with `InvalidKeyLength`
/// by every function of every mode, whatever else is handed in and however
/// much room the output buffer has: the key is looked at before anything
/// else, and it is never cut or filled up to fit.
pub proof fn lemma_wrong_key_size_refused(
    data: Seq<u8>,
    room: nat,
    key: Seq<u8>,
    iv: Seq<u8>,
    aad: Seq<u8>,
)
    requires
        key.len() != 16,
    ensures
        cbc_encrypt_outcome(data, key, iv) == Err::<Seq<u8>, CipherError>(
            CipherError::InvalidKeyLength,
        ),
        cbc_decrypt_outcome(data, key, iv) == Err::<Seq<u8>, CipherError>(
            CipherError::InvalidKeyLength,
        ),
        ctr_outcome(data, room, key, iv) == Err::<Seq<u8>, CipherError>(
            CipherError::InvalidKeyLength,
        ),
        gcm_encrypt_outcome(data, room, key, iv, aad) == Err::<Seq<u8>, CipherError>(
            CipherError::InvalidKeyLength,
        ),
        gcm_decrypt_outcome(data, room, key, iv, aad) == Err::<Seq<u8>, CipherError>(
            CipherError::InvalidKeyLength,
        ),
{
}

} // verus!
