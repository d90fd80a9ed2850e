//! The failures that an encryption or decryption call can report.

use vstd::prelude::*;

verus! {

/// Why a cipher operation was refused or failed.
///
/// Every failure is handed to the caller as one of these values; nothing is
/// retried and nothing is recovered from inside the library.
#[derive(Debug, Clone, Copy, PartialEq, Eq)]
pub enum CipherError {
    /// The key does not have the size that the mode works with.
    InvalidKeyLength,
    /// The IV or nonce does not have the size that the mode works with.
    InvalidIvLength,
    /// The data handed to CBC decryption is not a whole number of blocks, or
    /// its last block does not end in well-formed padding.
    InvalidPadding,
    /// The tag of a GCM message does not match its ciphertext, key, nonce and
    /// associated data. Nothing has been written to the output.
    AuthenticationFailure,
    /// The output buffer of the caller cannot hold the result.
    BufferTooSmall,
}

} // verus!
