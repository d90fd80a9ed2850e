//! The cipher modes and the sizes of key and IV that each of them works with.

use vstd::prelude::*;
use crate::error::CipherError;

verus! {

/// Bytes in an AES-128 key.
pub const KEY_LEN: usize = 16;

/// Bytes in one cipher block.
pub const BLOCK_LEN: usize = 16;

/// Bytes in a GCM authentication tag.
pub const TAG_LEN: usize = 16;

/// Bytes in a GCM nonce.
pub const NONCE_LEN: usize = 12;

/// A way of running AES-128 over a message.
#[derive(Debug, Clone, Copy, PartialEq, Eq)]
pub enum CipherMode {
    /// Cipher block chaining with padding: confidentiality only.
    Cbc128,
    /// Counter mode, a stream cipher: confidentiality only.
    Ctr128,
    /// Galois/counter mode: authenticated encryption with associated data.
    Gcm128,
}

impl CipherMode {
    /// The number of key bytes that the mode works with.
    pub open spec fn key_size(self) -> nat {
        KEY_LEN as nat
    }

    /// The number of IV bytes that the mode works with: a whole block for CBC
    /// and for the counter of CTR, a nonce for GCM.
    pub open spec fn iv_size(self) -> nat {
        match self {
            CipherMode::Cbc128 => BLOCK_LEN as nat,
            CipherMode::Ctr128 => BLOCK_LEN as nat,
            CipherMode::Gcm128 => NONCE_LEN as nat,
        }
    }

    /// The error with which the mode turns down a key and an IV, if it does:
    /// a key of the wrong size is reported before an IV of the wrong size.
    pub open spec fn refusal(self, key: Seq<u8>, iv: Seq<u8>) -> Option<CipherError> {
        if key.len() != self.key_size() {
            Some(CipherError::InvalidKeyLength)
        } else if iv.len() != self.iv_size() {
            Some(CipherError::InvalidIvLength)
        } else {
            None
        }
    }

    /// The number of key bytes that the mode works with.
    pub fn key_len(self) -> (n: usize)
        ensures
            n == self.key_size(),
    {
        KEY_LEN
    }

    /// The number of IV bytes that the mode works with.
    pub fn iv_len(self) -> (n: usize)
        ensures
            n == self.iv_size(),
    {
        match self {
            CipherMode::Cbc128 => BLOCK_LEN,
            CipherMode::Ctr128 => BLOCK_LEN,
            CipherMode::Gcm128 => NONCE_LEN,
        }
    }

    /// Checks a key and an IV against the sizes of the mode. Neither is ever
    /// cut or filled up to fit.
    pub fn check(self, key: &[u8], iv: &[u8]) -> (r: Result<(), CipherError>)
        ensures
            match self.refusal(key@, iv@) {
                Some(e) => r == Err::<(), CipherError>(e),
                None => r is Ok,
            },
    {
        if key.len() != self.key_len() {
            Err(CipherError::InvalidKeyLength)
        } else if iv.len() != self.iv_len() {
            Err(CipherError::InvalidIvLength)
        } else {
            Ok(())
        }
    }
}

} // verus!
