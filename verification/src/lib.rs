//! AES-128 in three modes over byte buffers: CBC with padding, CTR and GCM.
//!
//! Every operation is a single call that keeps nothing between calls. The
//! block cipher itself comes from the `crypto` crate; what this library adds
//! around it — checking key and IV sizes, padding, driving the block engine
//! through its staging buffer, laying out ciphertext and tag, refusing short
//! buffers — is verified.

pub mod error;
pub mod mode;
pub mod bytes;
pub mod padding;
pub mod primitives;
pub mod cbc;
pub mod ctr;
pub mod gcm;
pub mod cipher;
