use byte_aes::padding::{into_blocks, join_blocks, pad, split_into_16byte_blocks, unpad};
use byte_aes::PaddingError;

fn block_of(head: &[u8], fill: u8) -> [u8; 16] {
    let mut block = [fill; 16];
    block[..head.len()].copy_from_slice(head);
    block
}

#[test]
fn pad_of_nothing_is_one_block_of_sixteens() {
    assert_eq!(pad(Vec::new()), vec![[16u8; 16]]);
}

#[test]
fn pad_fills_a_short_block_with_its_count() {
    assert_eq!(pad(vec![1, 2, 3]), vec![block_of(&[1, 2, 3], 13)]);
    assert_eq!(pad(vec![1, 0, 0, 1]), vec![block_of(&[1, 0, 0, 1], 12)]);
}

#[test]
fn pad_of_fifteen_bytes_adds_a_single_one() {
    let data: Vec<u8> = (100..115).collect();
    let mut expected = [1u8; 16];
    expected[..15].copy_from_slice(&data);
    assert_eq!(pad(data), vec![expected]);
}

#[test]
fn pad_of_a_whole_block_adds_a_block_of_sixteens() {
    let data: Vec<u8> = (0..16).collect();
    let first = block_of(&data, 0);
    assert_eq!(pad(data), vec![first, [16u8; 16]]);
}

#[test]
fn pad_of_seventeen_bytes_gives_two_blocks() {
    let data: Vec<u8> = vec![1, 0, 0, 1, 12, 12, 12, 12, 12, 12, 12, 12, 12, 12, 12, 13, 0];
    let blocks = pad(data.clone());
    assert_eq!(blocks.len(), 2);
    assert_eq!(blocks[0], block_of(&data[..16], 0));
    assert_eq!(blocks[1], block_of(&[0], 15));
}

#[test]
fn pad_keeps_the_order_of_the_data() {
    let data: Vec<u8> = (0..40).collect();
    let blocks = pad(data.clone());
    assert_eq!(blocks.len(), 3);
    assert_eq!(&join_blocks(&blocks)[..40], &data[..]);
    assert_eq!(&join_blocks(&blocks)[40..], &[8u8; 8][..]);
}

#[test]
fn padded_length_is_the_next_multiple_of_sixteen() {
    for len in 0..100usize {
        let blocks = pad(vec![7u8; len]);
        assert_eq!(blocks.len() * 16, len + 16 - len % 16);
        assert!(blocks.len() * 16 > len);
    }
}

#[test]
fn unpad_undoes_pad_for_every_length() {
    for len in 0..100usize {
        let data: Vec<u8> = (0..len).map(|i| (i * 7 + 3) as u8).collect();
        assert_eq!(unpad(&pad(data.clone())), Ok(data));
    }
}

#[test]
fn unpad_undoes_pad_when_the_data_ends_in_padding_like_bytes() {
    for tail in [0u8, 1, 15, 16, 17, 255] {
        for len in [1usize, 15, 16, 17, 32] {
            let data = vec![tail; len];
            assert_eq!(unpad(&pad(data.clone())), Ok(data));
        }
    }
}

#[test]
fn unpad_of_no_block_is_empty_input() {
    assert_eq!(unpad(&Vec::new()), Err(PaddingError::EmptyInput));
}

#[test]
fn unpad_of_a_block_of_sixteens_is_empty() {
    assert_eq!(unpad(&vec![[16u8; 16]]), Ok(Vec::new()));
}

#[test]
fn unpad_removes_a_whole_padding_block() {
    let first = block_of(&[9, 8, 7], 16);
    assert_eq!(unpad(&vec![first, [16u8; 16]]), Ok(first.to_vec()));
}

#[test]
fn unpad_removes_as_many_bytes_as_the_last_byte_says() {
    let block = block_of(&[1, 0, 0, 1], 12);
    assert_eq!(unpad(&vec![block]), Ok(vec![1, 0, 0, 1]));
    let mut one = [5u8; 16];
    one[15] = 1;
    assert_eq!(unpad(&vec![one]), Ok(vec![5u8; 15]));
}

#[test]
fn unpad_does_not_look_at_the_bytes_it_removes() {
    let block: [u8; 16] = [1, 2, 3, 4, 5, 6, 7, 8, 9, 10, 11, 12, 13, 14, 15, 3];
    assert_eq!(unpad(&vec![block]), Ok((1..=13).collect::<Vec<u8>>()));
}

#[test]
fn unpad_with_a_last_byte_of_zero_removes_nothing() {
    let block: [u8; 16] = [1, 2, 3, 4, 5, 6, 7, 8, 9, 10, 11, 12, 13, 14, 15, 0];
    assert_eq!(unpad(&vec![block]), Ok(block.to_vec()));
}

#[test]
fn unpad_refuses_a_last_byte_above_sixteen() {
    for v in [17u8, 18, 128, 200, 255] {
        let mut block = [v; 16];
        block[0] = 1;
        assert_eq!(unpad(&vec![block]), Err(PaddingError::InvalidPadding(v)));
    }
}

#[test]
fn unpad_refuses_sixteen_behind_other_bytes() {
    let mut block = [16u8; 16];
    block[0] = 15;
    assert_eq!(unpad(&vec![block]), Err(PaddingError::InvalidPadding(16)));
    let mut block = [16u8; 16];
    block[14] = 0;
    assert_eq!(unpad(&vec![[16u8; 16], block]), Err(PaddingError::InvalidPadding(16)));
}

#[test]
fn unpad_looks_at_the_last_block_only() {
    let garbage = [200u8; 16];
    assert_eq!(unpad(&vec![garbage, [16u8; 16]]), Ok(garbage.to_vec()));
}

#[test]
fn split_pads_before_it_splits() {
    assert_eq!(
        split_into_16byte_blocks(vec![1, 2, 3], false),
        vec![block_of(&[1, 2, 3], 13).to_vec()]
    );
    assert_eq!(split_into_16byte_blocks(Vec::new(), false), vec![vec![16u8; 16]]);
    let data: Vec<u8> = (0..16).collect();
    assert_eq!(
        split_into_16byte_blocks(data.clone(), false),
        vec![data, vec![16u8; 16]]
    );
}

#[test]
fn split_for_decryption_adds_nothing() {
    let data: Vec<u8> = (0..32).collect();
    assert_eq!(
        split_into_16byte_blocks(data.clone(), true),
        vec![data[..16].to_vec(), data[16..].to_vec()]
    );
    assert_eq!(split_into_16byte_blocks(Vec::new(), true), Vec::<Vec<u8>>::new());
}

#[test]
fn split_for_decryption_leaves_a_short_last_chunk() {
    let data: Vec<u8> = (0..20).collect();
    assert_eq!(
        split_into_16byte_blocks(data.clone(), true),
        vec![data[..16].to_vec(), data[16..].to_vec()]
    );
    assert_eq!(split_into_16byte_blocks(vec![9], true), vec![vec![9u8]]);
}

#[test]
fn into_blocks_without_padding_keeps_the_bytes() {
    let data: Vec<u8> = (0..48).collect();
    let blocks = into_blocks(data.clone(), true);
    assert_eq!(blocks.len(), 3);
    assert_eq!(blocks[2], block_of(&data[32..], 0));
    assert_eq!(join_blocks(&blocks), data);
}

#[test]
fn into_blocks_with_padding_is_pad() {
    let data: Vec<u8> = (0..21).collect();
    assert_eq!(into_blocks(data.clone(), false), pad(data));
}

#[test]
fn join_blocks_of_nothing_is_empty() {
    assert_eq!(join_blocks(&Vec::new()), Vec::<u8>::new());
}
