//! Padding a message to whole blocks and taking the padding off again.
//!
//! The padding is between one byte and a whole block long, and each of its
//! bytes holds its length. A message that already ends on a block boundary
//! gets a whole block of padding, so the length of the padding can always be
//! read from the last byte.

use vstd::prelude::*;
use vstd::slice::slice_to_vec;
use crate::error::CipherError;
use crate::mode::BLOCK_LEN;

verus! {

/// The number of padding bytes that a message of `len` bytes gets.
pub open spec fn pad_len(len: nat) -> nat {
    (BLOCK_LEN - len % (BLOCK_LEN as nat)) as nat
}

/// The message with its padding.
pub open spec fn pkcs7_pad(data: Seq<u8>) -> Seq<u8> {
    data + Seq::new(pad_len(data.len()), |i: int| pad_len(data.len()) as u8)
}

/// Whether `blocks` end in well-formed padding: the last byte is between 1
/// and the block length, no more than there are bytes, and that many bytes at
/// the end hold it.
pub open spec fn well_padded(blocks: Seq<u8>) -> bool {
    &&& blocks.len() > 0
    &&& 1 <= blocks.last() <= BLOCK_LEN
    &&& blocks.last() <= blocks.len()
    &&& forall|i: int| blocks.len() - blocks.last() <= i < blocks.len() ==> blocks[i] == blocks.last()
}

/// The message without its padding, where the padding is well formed.
pub open spec fn pkcs7_unpad(blocks: Seq<u8>) -> Option<Seq<u8>> {
    if well_padded(blocks) {
        Some(blocks.take(blocks.len() - blocks.last()))
    } else {
        None
    }
}

/// Padding adds between one byte and a block, and fills the last block.
pub proof fn lemma_pad_fills_blocks(data: Seq<u8>)
    ensures
        1 <= pad_len(data.len()) <= BLOCK_LEN,
        pkcs7_pad(data).len() == data.len() + pad_len(data.len()),
        pkcs7_pad(data).len() % (BLOCK_LEN as nat) == 0,
        pkcs7_pad(data).len() == (data.len() / (BLOCK_LEN as nat) + 1) * BLOCK_LEN,
{
}

/// Taking the padding off a padded message gives the message back.
pub proof fn lemma_unpad_undoes_pad(data: Seq<u8>)
    ensures
        pkcs7_unpad(pkcs7_pad(data)) == Some(data),
{
    let padded = pkcs7_pad(data);
    lemma_pad_fills_blocks(data);
    assert(padded.last() == pad_len(data.len()) as u8);
    assert(well_padded(padded));
    assert(padded.take(padded.len() - padded.last()) =~= data);
}

/// Whole blocks that end in well-formed padding are the padded form of what
/// is left when the padding is taken off: no two messages share a padded
/// form, and nothing else unpads to a message.
pub proof fn lemma_pad_undoes_unpad(blocks: Seq<u8>)
    requires
        blocks.len() % (BLOCK_LEN as nat) == 0,
        well_padded(blocks),
    ensures
        pkcs7_pad(pkcs7_unpad(blocks)->0) == blocks,
{
    let data = pkcs7_unpad(blocks)->0;
    assert(pad_len(data.len()) == blocks.last());
    assert(pkcs7_pad(data) =~= blocks);
}

/// Copies `data` and adds its padding.
pub fn pad(data: &[u8]) -> (out: Vec<u8>)
    ensures
        out@ == pkcs7_pad(data@),
{
    let fill: usize = BLOCK_LEN - data.len() % BLOCK_LEN;
    let mut out = slice_to_vec(data);
    let mut i: usize = 0;
    while i < fill
        invariant
            i <= fill,
            fill == pad_len(data@.len()),
            out@ == data@ + Seq::new(i as nat, |j: int| fill as u8),
        decreases fill - i,
    {
        out.push(fill as u8);
        i += 1;
    }
    out
}

/// Takes the padding off `blocks`, or reports that it is malformed.
pub fn unpad(blocks: Vec<u8>) -> (r: Result<Vec<u8>, CipherError>)
    ensures
        match pkcs7_unpad(blocks@) {
            Some(data) => r matches Ok(v) && v@ == data,
            None => r matches Err(e) && e == CipherError::InvalidPadding,
        },
{
    let n: usize = blocks.len();
    if n == 0 {
        return Err(CipherError::InvalidPadding);
    }
    let last: u8 = blocks[n - 1];
    let fill: usize = last as usize;
    if fill == 0 || fill > BLOCK_LEN || fill > n {
        return Err(CipherError::InvalidPadding);
    }
    let mut i: usize = n - fill;
    while i < n
        invariant
            n == blocks@.len(),
            n > 0,
            last == blocks@.last(),
            fill == last,
            1 <= fill <= BLOCK_LEN,
            fill <= n,
            n - fill <= i <= n,
            forall|j: int| n - fill <= j < i ==> blocks@[j] == last,
        decreases n - i,
    {
        if blocks[i] != last {
            return Err(CipherError::InvalidPadding);
        }
        i += 1;
    }
    let mut data = blocks;
    data.truncate(n - fill);
    Ok(data)
}

} // verus!
