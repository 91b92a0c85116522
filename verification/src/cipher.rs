//! The AES-256 block cipher of the `aes` crate, and its use on whole buffers
//! in independent-block mode.
//!
//! What one block becomes under a key is not computed here: it is what the
//! `aes` crate returns, and the contracts give it a name. Everything that is
//! said of the cipher without proof stands in this file: the declaration of
//! the cipher type, the three names, the contract of `clone`, and the
//! contracts of `new_cipher`, `encrypt_block` and `decrypt_block`. The rest
//! of the file is proved from them.

use vstd::prelude::*;
use aes::cipher::{BlockDecrypt, BlockEncrypt, KeyInit};
use aes::Aes256;
use crate::padding::{joined, Block};

verus! {

/// The key schedule that `aes::Aes256` holds. Nothing inside it is visible
/// to the proofs.
#[verifier::external_type_specification]
#[verifier::external_body]
pub struct ExAes256(aes::Aes256);

/// The 32 key bytes that a cipher was made with.
pub uninterp spec fn cipher_key(cipher: Aes256) -> Seq<u8>;

/// The block that AES-256 encryption makes of the 16-byte `block` under the
/// 32-byte `key`.
pub uninterp spec fn aes256_encrypt_block(key: Seq<u8>, block: Seq<u8>) -> Seq<u8>;

/// The block that AES-256 decryption makes of the 16-byte `block` under the
/// 32-byte `key`.
pub uninterp spec fn aes256_decrypt_block(key: Seq<u8>, block: Seq<u8>) -> Seq<u8>;

/// Calls `<aes::Aes256 as KeyInit>::new`, which expands the key into the
/// cipher's round keys. Believed of it: the cipher that comes back works
/// under exactly the key that was handed in.
#[verifier::external_body]
pub(crate) fn new_cipher(key: &[u8; 32]) -> (cipher: Aes256)
    ensures
        cipher_key(cipher) == key@,
{
    Aes256::new(&(*key).into())
}

/// `<aes::Aes256 as Clone>::clone` copies the round keys. Believed of it:
/// the copy works under the same key.
pub assume_specification[ <Aes256 as Clone>::clone ](cipher: &Aes256) -> (copy: Aes256)
    ensures
        cipher_key(copy) == cipher_key(*cipher),
;

/// Calls `<aes::Aes256 as BlockEncrypt>::encrypt_block` on a copy of `block`.
/// Believed of it: the block that comes back depends on the key and on
/// `block` alone, and decrypting it under the same key gives `block` again.
#[verifier::external_body]
pub(crate) fn encrypt_block(cipher: &Aes256, block: Block) -> (out: Block)
    ensures
        out@ == aes256_encrypt_block(cipher_key(*cipher), block@),
        aes256_decrypt_block(cipher_key(*cipher), out@) == block@,
{
    let mut buf: aes::Block = block.into();
    cipher.encrypt_block(&mut buf);
    buf.into()
}

/// Calls `<aes::Aes256 as BlockDecrypt>::decrypt_block` on a copy of `block`.
/// Believed of it: the block that comes back depends on the key and on
/// `block` alone.
#[verifier::external_body]
pub(crate) fn decrypt_block(cipher: &Aes256, block: Block) -> (out: Block)
    ensures
        out@ == aes256_decrypt_block(cipher_key(*cipher), block@),
{
    let mut buf: aes::Block = block.into();
    cipher.decrypt_block(&mut buf);
    buf.into()
}

/// The `j`-th run of 16 bytes of `data`.
pub open spec fn block_at(data: Seq<u8>, j: int) -> Seq<u8> {
    data.subrange(16 * j, 16 * j + 16)
}

/// `data`, a whole number of blocks, with each block encrypted on its own
/// under `key`. The blocks keep their places.
pub open spec fn ecb_encrypt(key: Seq<u8>, data: Seq<u8>) -> Seq<u8> {
    Seq::new(data.len(), |i: int| aes256_encrypt_block(key, block_at(data, i / 16))[i % 16])
}

/// `data`, a whole number of blocks, with each block decrypted on its own
/// under `key`. The blocks keep their places.
pub open spec fn ecb_decrypt(key: Seq<u8>, data: Seq<u8>) -> Seq<u8> {
    Seq::new(data.len(), |i: int| aes256_decrypt_block(key, block_at(data, i / 16))[i % 16])
}

/// The `j`-th block of a joined sequence of blocks is that block.
proof fn lemma_block_at_joined(blocks: Seq<Block>, j: int)
    requires
        0 <= j < blocks.len(),
    ensures
        block_at(joined(blocks), j) == blocks[j]@,
{
    assert(block_at(joined(blocks), j) =~= blocks[j]@) by {
        assert forall|k: int| 0 <= k < 16 implies block_at(joined(blocks), j)[k]
            == blocks[j]@[k] by {
            assert((16 * j + k) / 16 == j);
            assert((16 * j + k) % 16 == k);
        }
    }
}

/// Encrypts every block of `blocks` in place, in order.
pub(crate) fn encrypt_blocks(cipher: &Aes256, blocks: &mut Vec<Block>)
    ensures
        final(blocks)@.len() == old(blocks)@.len(),
        joined(final(blocks)@) == ecb_encrypt(cipher_key(*cipher), joined(old(blocks)@)),
        ecb_decrypt(cipher_key(*cipher), joined(final(blocks)@)) == joined(old(blocks)@),
{
    let ghost key = cipher_key(*cipher);
    let ghost before = blocks@;
    let mut j: usize = 0;
    while j < blocks.len()
        invariant
            j <= blocks.len(),
            blocks.len() == before.len(),
            key == cipher_key(*cipher),
            forall|k: int| j <= k < blocks.len() ==> blocks[k] == before[k],
            forall|k: int|
                0 <= k < j ==> (#[trigger] blocks[k])@ == aes256_encrypt_block(key, before[k]@)
                    && aes256_decrypt_block(key, blocks[k]@) == before[k]@,
        decreases blocks.len() - j,
    {
        let encrypted = encrypt_block(cipher, blocks[j]);
        blocks[j] = encrypted;
        j = j + 1;
    }
    proof {
        let after = blocks@;
        assert forall|i: int| 0 <= i < 16 * before.len() implies joined(after)[i] == ecb_encrypt(
            key,
            joined(before),
        )[i] && ecb_decrypt(key, joined(after))[i] == joined(before)[i] by {
            lemma_block_at_joined(before, i / 16);
            lemma_block_at_joined(after, i / 16);
            assert(after[i / 16]@ == aes256_encrypt_block(key, before[i / 16]@));
        }
        assert(joined(after) =~= ecb_encrypt(key, joined(before)));
        assert(ecb_decrypt(key, joined(after)) =~= joined(before));
    }
}

/// Decrypts every block of `blocks` in place, in order.
pub(crate) fn decrypt_blocks(cipher: &Aes256, blocks: &mut Vec<Block>)
    ensures
        final(blocks)@.len() == old(blocks)@.len(),
        joined(final(blocks)@) == ecb_decrypt(cipher_key(*cipher), joined(old(blocks)@)),
{
    let ghost key = cipher_key(*cipher);
    let ghost before = blocks@;
    let mut j: usize = 0;
    while j < blocks.len()
        invariant
            j <= blocks.len(),
            blocks.len() == before.len(),
            key == cipher_key(*cipher),
            forall|k: int| j <= k < blocks.len() ==> blocks[k] == before[k],
            forall|k: int|
                0 <= k < j ==> (#[trigger] blocks[k])@ == aes256_decrypt_block(key, before[k]@),
        decreases blocks.len() - j,
    {
        let decrypted = decrypt_block(cipher, blocks[j]);
        blocks[j] = decrypted;
        j = j + 1;
    }
    proof {
        let after = blocks@;
        assert forall|i: int| 0 <= i < 16 * before.len() implies joined(after)[i] == ecb_decrypt(
            key,
            joined(before),
        )[i] by {
            lemma_block_at_joined(before, i / 16);
            assert(after[i / 16]@ == aes256_decrypt_block(key, before[i / 16]@));
        }
        assert(joined(after) =~= ecb_decrypt(key, joined(before)));
    }
}

} // verus!
