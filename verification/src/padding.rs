//! The padding codec: bytes of any length to whole 16-byte blocks and back.
//!
//! Padding always adds something, between 1 and 16 bytes that each hold
//! their own count, so that the padding can be found again from the last
//! byte alone. Unpadding trusts that last byte: it does not look at the
//! other padding bytes, except to tell a whole block of padding from data
//! that happens to end in 16.

use vstd::prelude::*;
use crate::error::{is_outcome, PaddingError};

verus! {

/// One cipher block.
pub type Block = [u8; 16];

/// How many padding bytes follow `len` bytes of data: between 1 and 16, so
/// that the padded length is the next multiple of 16 above `len`.
pub open spec fn padding_len(len: nat) -> nat {
    (16 - len % 16) as nat
}

/// The padded form of `data`: `data`, then `padding_len` bytes that each
/// hold that count.
pub open spec fn pad_spec(data: Seq<u8>) -> Seq<u8> {
    data + Seq::new(padding_len(data.len()), |i: int| padding_len(data.len()) as u8)
}

/// The consecutive chunks of at most 16 bytes of `buf`, in order. Only the
/// last chunk can be shorter than 16 bytes.
pub open spec fn chunks_spec(buf: Seq<u8>) -> Seq<Seq<u8>> {
    Seq::new(
        ((buf.len() + 15) / 16) as nat,
        |j: int|
            buf.subrange(
                16 * j,
                if 16 * j + 16 <= buf.len() {
                    16 * j + 16
                } else {
                    buf.len() as int
                },
            ),
    )
}

/// Splits `origin` into chunks of 16 bytes, after padding it unless
/// `is_decrypt` is set.
pub fn split_into_16byte_blocks(origin: Vec<u8>, is_decrypt: bool) -> (blocks: Vec<Vec<u8>>)
    ensures
        blocks.deep_view() == chunks_spec(if is_decrypt { origin@ } else { pad_spec(origin@) }),
{
    let mut origin = origin;
    if !is_decrypt {
        let round: usize = origin.len() % 16;
        let required_padding: usize = 16 - round;
        let ghost data = origin@;
        let mut k: usize = 0;
        while k < required_padding
            invariant
                k <= required_padding <= 16,
                required_padding == padding_len(data.len()),
                origin@ == data + Seq::new(k as nat, |i: int| required_padding as u8),
            decreases required_padding - k,
        {
            origin.push(required_padding as u8);
            k = k + 1;
        }
    }
    let ghost buf = origin@;
    let mut blocks: Vec<Vec<u8>> = Vec::new();
    let mut start: usize = 0;
    while start < origin.len()
        invariant
            start <= origin.len(),
            start < origin.len() ==> start % 16 == 0,
            origin@ == buf,
            blocks.len() == (start + 15) / 16,
            forall|j: int| 0 <= j < blocks.len() ==> (#[trigger] blocks[j])@ == chunks_spec(buf)[j],
        decreases origin.len() - start,
    {
        let end: usize = if origin.len() - start >= 16 { start + 16 } else { origin.len() };
        let mut chunk: Vec<u8> = Vec::new();
        let mut i: usize = start;
        while i < end
            invariant
                start <= i <= end <= origin.len(),
                origin@ == buf,
                chunk@ == buf.subrange(start as int, i as int),
            decreases end - i,
        {
            chunk.push(origin[i]);
            i = i + 1;
        }
        blocks.push(chunk);
        start = end;
    }
    proof {
        assert forall|j: int| 0 <= j < blocks.len() implies #[trigger] blocks.deep_view()[j]
            == chunks_spec(buf)[j] by {
            assert(blocks[j].deep_view() =~= blocks[j]@);
        }
        assert(blocks.deep_view() =~= chunks_spec(buf));
    }
    blocks
}

/// The bytes of `blocks`, one block after the other.
pub open spec fn joined(blocks: Seq<Block>) -> Seq<u8> {
    Seq::new((16 * blocks.len()) as nat, |i: int| blocks[i / 16][i % 16])
}

/// Splits `item` into whole blocks, after padding it unless `is_decrypt` is
/// set. Without padding, the length of `item` has to be a multiple of 16.
pub fn into_blocks(item: Vec<u8>, is_decrypt: bool) -> (blocks: Vec<Block>)
    requires
        is_decrypt ==> item.len() % 16 == 0,
    ensures
        joined(blocks@) == (if is_decrypt { item@ } else { pad_spec(item@) }),
{
    let ghost buf = if is_decrypt { item@ } else { pad_spec(item@) };
    let chunks = split_into_16byte_blocks(item, is_decrypt);
    assert(buf.len() % 16 == 0);
    let mut blocks: Vec<Block> = Vec::new();
    let mut j: usize = 0;
    while j < chunks.len()
        invariant
            j <= chunks.len(),
            buf.len() % 16 == 0,
            chunks.deep_view() == chunks_spec(buf),
            blocks.len() == j,
            forall|k: int| 0 <= k < j ==> (#[trigger] blocks[k])@ == chunks_spec(buf)[k],
        decreases chunks.len() - j,
    {
        let chunk = &chunks[j];
        proof {
            assert(chunks.deep_view().len() == chunks.len());
            assert(chunk.deep_view() =~= chunk@);
            assert(chunk@ == chunks_spec(buf)[j as int]);
            assert(16 * j + 16 <= buf.len());
        }
        let mut block: Block = [0u8; 16];
        let mut i: usize = 0;
        while i < 16
            invariant
                i <= 16,
                chunk@.len() == 16,
                forall|k: int| 0 <= k < i ==> block[k] == chunk[k],
            decreases 16 - i,
        {
            block[i] = chunk[i];
            i = i + 1;
        }
        assert(block@ =~= chunk@);
        blocks.push(block);
        j = j + 1;
    }
    assert(joined(blocks@) =~= buf) by {
        assert(chunks.deep_view().len() == buf.len() / 16);
        assert forall|i: int| 0 <= i < buf.len() implies joined(blocks@)[i] == buf[i] by {
            assert(blocks[i / 16]@ == chunks_spec(buf)[i / 16]);
            assert(blocks[i / 16]@[i % 16] == buf[i]);
        }
    }
    blocks
}

/// Copies the bytes of `blocks` into one buffer, block after block.
pub fn join_blocks(blocks: &Vec<Block>) -> (buf: Vec<u8>)
    ensures
        buf@ == joined(blocks@),
{
    let mut buf: Vec<u8> = Vec::new();
    let mut j: usize = 0;
    while j < blocks.len()
        invariant
            j <= blocks.len(),
            buf.len() == 16 * j,
            forall|k: int| 0 <= k < buf.len() ==> buf[k] == blocks[k / 16][k % 16],
        decreases blocks.len() - j,
    {
        let block = &blocks[j];
        let mut i: usize = 0;
        while i < 16
            invariant
                i <= 16,
                j < blocks.len(),
                *block == blocks[j as int],
                buf.len() == 16 * j + i,
                forall|k: int| 0 <= k < buf.len() ==> buf[k] == blocks[k / 16][k % 16],
            decreases 16 - i,
        {
            buf.push(block[i]);
            i = i + 1;
        }
        j = j + 1;
    }
    assert(buf@ =~= joined(blocks@));
    buf
}

/// Pads `data` and splits the result into blocks.
pub fn pad(data: Vec<u8>) -> (blocks: Vec<Block>)
    ensures
        joined(blocks@) == pad_spec(data@),
{
    into_blocks(data, false)
}

/// Whether the last 16 bytes of `buf` are there and all hold 16.
pub open spec fn ends_in_padding_block(buf: Seq<u8>) -> bool {
    buf.len() >= 16 && forall|i: int| buf.len() - 16 <= i < buf.len() ==> buf[i] == 16
}

/// What unpadding makes of `buf`, by its last byte `v`. A last byte of 16
/// behind fifteen more bytes of 16 removes those 16 bytes. A last byte under
/// 16 removes that many bytes, whatever they hold, so a last byte of 0
/// removes nothing. Any other buffer is refused, and so is one that is
/// shorter than the count that its last byte gives.
pub open spec fn unpad_spec(buf: Seq<u8>) -> Result<Seq<u8>, PaddingError> {
    if buf.len() == 0 {
        Err(PaddingError::EmptyInput)
    } else if buf.last() == 16 && ends_in_padding_block(buf) {
        Ok(buf.take(buf.len() - 16))
    } else if buf.last() < 16 && buf.last() <= buf.len() {
        Ok(buf.take(buf.len() - buf.last()))
    } else {
        Err(PaddingError::InvalidPadding(buf.last()))
    }
}

/// Whether the bytes of `buf` from `from` on all hold 16.
fn all_sixteen_from(buf: &Vec<u8>, from: usize) -> (all: bool)
    requires
        from <= buf.len(),
    ensures
        all == (forall|i: int| from <= i < buf.len() ==> buf[i] == 16),
{
    let mut i: usize = from;
    while i < buf.len()
        invariant
            from <= i <= buf.len(),
            forall|k: int| from <= k < i ==> buf[k] == 16,
        decreases buf.len() - i,
    {
        if buf[i] != 16 {
            return false;
        }
        i = i + 1;
    }
    true
}

/// Joins `blocks` and removes the padding at the end of the result.
pub fn unpad(blocks: &Vec<Block>) -> (res: Result<Vec<u8>, PaddingError>)
    ensures
        is_outcome(res, unpad_spec(joined(blocks@))),
{
    let mut buf = join_blocks(blocks);
    let len: usize = buf.len();
    if len == 0 {
        return Err(PaddingError::EmptyInput);
    }
    let v: u8 = buf[len - 1];
    if v == 16 && all_sixteen_from(&buf, len - 16) {
        buf.truncate(len - 16);
        Ok(buf)
    } else if v < 16 {
        buf.truncate(len - v as usize);
        Ok(buf)
    } else {
        Err(PaddingError::InvalidPadding(v))
    }
}

/// Padding adds between 1 and 16 bytes and makes the length a multiple of 16:
/// a whole block of padding where the length was one already, and so also
/// for no data at all.
pub proof fn lemma_pad_len(data: Seq<u8>)
    ensures
        pad_spec(data).len() == data.len() + padding_len(data.len()),
        1 <= padding_len(data.len()) <= 16,
        pad_spec(data).len() % 16 == 0,
        pad_spec(data).len() >= 16,
        data.len() % 16 == 0 ==> pad_spec(data).len() == data.len() + 16,
        data.len() % 16 != 0 ==> pad_spec(data).len() == data.len() + 16 - data.len() % 16,
        pad_spec(data).take(data.len() as int) == data,
{
    assert(pad_spec(data).take(data.len() as int) =~= data);
}

/// Unpadding undoes padding: every byte sequence comes back from its padded
/// form unchanged.
pub proof fn lemma_unpad_pad(data: Seq<u8>)
    ensures
        unpad_spec(pad_spec(data)) == Ok::<Seq<u8>, PaddingError>(data),
{
    let padded = pad_spec(data);
    let p: nat = padding_len(data.len());
    lemma_pad_len(data);
    assert(padded.last() == p as u8);
    if p == 16 {
        assert(ends_in_padding_block(padded));
        assert(padded.take(padded.len() - 16) =~= data);
    } else {
        assert(padded.take(padded.len() - p) =~= data);
    }
}

/// A buffer whose last byte is above 16 is refused, with that byte in the
/// error.
pub proof fn lemma_unpad_tail_above_16(buf: Seq<u8>)
    requires
        buf.len() > 0,
        buf.last() > 16,
    ensures
        unpad_spec(buf) == Err::<Seq<u8>, PaddingError>(PaddingError::InvalidPadding(buf.last())),
{
}

} // verus!
