use std::ops::{Range, RangeFull, RangeInclusive, RangeTo};

use subbyte_index::{BitWidth, Lsb, Msb, SubByteIndex, SubByteIndexMut, W2, W4};

#[test]
fn readme_index_w2() {
    let array_w2 = [0b_00_01_10_11, 0b_11_10_01_00];
    assert_eq!(<[u8] as SubByteIndex<usize, W2, Msb, Msb>>::subbyte_index(&array_w2, 1), 0b_01_000000);
    assert_eq!(<[u8] as SubByteIndex<usize, W2, Lsb, Lsb>>::subbyte_index(&array_w2, 6), 0b_10);
    assert_eq!(<[u8] as SubByteIndex<usize, W2, Msb, Msb>>::subbyte_index(&array_w2, 0), 0b_00_000000);
    assert_eq!(
        <[u8] as SubByteIndex<RangeInclusive<usize>, W2, Lsb, Lsb>>::subbyte_index(&array_w2, 3..=6)
            .to_vec(),
        [0b_00, 0b_00, 0b_01, 0b_10]
    );
}

#[test]
fn readme_index_w4() {
    let array_w4 = [0b_1000_1100, 0b_1110_1111];
    assert_eq!(
        <[u8] as SubByteIndex<RangeFull, W4, Msb, Lsb>>::subbyte_index(&array_w4, ..).to_vec(),
        [0b1000, 0b1100, 0b1110, 0b1111]
    );
    assert_eq!(
        <[u8] as SubByteIndex<Range<usize>, W4, Lsb, Msb>>::subbyte_index(&array_w4, 1..3).to_vec(),
        [0b1000_0000, 0b1111_0000]
    );
}

#[test]
fn readme_mutation() {
    let mut array_w4 = vec![0u8; 8];
    let counting: Vec<u8> = (0..16).collect();
    <[u8] as SubByteIndexMut<RangeFull, &[u8], W4, Lsb, Lsb>>::subbyte_index_mut(
        array_w4.as_mut_slice(),
        ..,
        &counting,
    );
    assert_eq!(
        <[u8] as SubByteIndex<RangeFull, W4, Lsb, Lsb>>::subbyte_index(array_w4.as_slice(), ..).to_vec(),
        counting
    );

    <[u8] as SubByteIndexMut<usize, u8, W4, Lsb, Lsb>>::subbyte_index_mut(array_w4.as_mut_slice(), 1, 15);
    <[u8] as SubByteIndexMut<Range<usize>, &[u8], W4, Lsb, Lsb>>::subbyte_index_mut(
        array_w4.as_mut_slice(),
        8..12,
        &[15, 1, 2, 15],
    );
    assert_eq!(
        <[u8] as SubByteIndex<RangeFull, W4, Lsb, Lsb>>::subbyte_index(array_w4.as_slice(), ..).to_vec(),
        [0, 15, 2, 3, 4, 5, 6, 7, 15, 1, 2, 15, 12, 13, 14, 15]
    );
    assert_eq!(array_w4.len(), 8);
}

#[test]
fn doc_mutation_cycle() {
    let mut array_w4 = vec![0u8; 8];
    let counting: Vec<u8> = (0..16).collect();
    <[u8] as SubByteIndexMut<RangeFull, &[u8], W4, Lsb, Lsb>>::subbyte_index_mut(
        array_w4.as_mut_slice(),
        ..,
        &counting,
    );
    let zeros: Vec<u8> = [0u8].into_iter().cycle().take(3).collect();
    <[u8] as SubByteIndexMut<Range<usize>, &[u8], W4, Lsb, Lsb>>::subbyte_index_mut(
        array_w4.as_mut_slice(),
        5..8,
        &zeros,
    );
    assert_eq!(
        <[u8] as SubByteIndex<RangeFull, W4, Lsb, Lsb>>::subbyte_index(array_w4.as_slice(), ..).to_vec(),
        [0, 1, 2, 3, 4, 0, 0, 0, 8, 9, 10, 11, 12, 13, 14, 15]
    );
    assert_eq!(array_w4.len(), 8);
}

#[test]
fn readme_creation() {
    const LEN: usize = 5;
    let byte_len = LEN.div_ceil(W4::n_slots());
    let mut array = vec![0u8; byte_len];
    <[u8] as SubByteIndexMut<RangeTo<usize>, &[u8], W4, Lsb, Lsb>>::subbyte_index_mut(
        &mut array,
        ..LEN,
        &[0, 1, 2, 3, 4],
    );
    assert_eq!(array, [0b_0001_0000, 0b_0011_0010, 0b_0000_0100]);
    assert_eq!(byte_len, 3);
    assert_eq!(byte_len * W4::n_slots(), 6);
}
