use std::ops::{Range, RangeFrom, RangeFull, RangeTo};

use subbyte_index::{Lsb, Msb, SubByteIndexMut, W4};

#[test]
fn set_usize_lsb_lsb() {
    let mut arr = [0b0010_0001, 0b0100_0011];
    <[u8] as SubByteIndexMut<usize, u8, W4, Lsb, Lsb>>::subbyte_index_mut(&mut arr, 1, 0b1111);
    <[u8] as SubByteIndexMut<usize, u8, W4, Lsb, Lsb>>::subbyte_index_mut(&mut arr, 2, 0b1111);

    assert_eq!(arr, [0b1111_0001, 0b0100_1111]);
}

#[test]
fn set_usize_lsb_msb() {
    let mut arr = [0b0010_0001, 0b0100_0011];
    <[u8] as SubByteIndexMut<usize, u8, W4, Lsb, Msb>>::subbyte_index_mut(&mut arr, 1, 0b1111_0000);
    <[u8] as SubByteIndexMut<usize, u8, W4, Lsb, Msb>>::subbyte_index_mut(&mut arr, 2, 0b1111_0000);

    assert_eq!(arr, [0b1111_0001, 0b0100_1111]);
}

#[test]
fn set_usize_msb_lsb() {
    let mut arr = [0b0010_0001, 0b0100_0011];
    <[u8] as SubByteIndexMut<usize, u8, W4, Msb, Lsb>>::subbyte_index_mut(&mut arr, 1, 0b1111);
    <[u8] as SubByteIndexMut<usize, u8, W4, Msb, Lsb>>::subbyte_index_mut(&mut arr, 2, 0b1111);

    assert_eq!(arr, [0b0010_1111, 0b1111_0011]);
}

#[test]
fn set_usize_msb_msb() {
    let mut arr = [0b0010_0001, 0b0100_0011];
    <[u8] as SubByteIndexMut<usize, u8, W4, Msb, Msb>>::subbyte_index_mut(&mut arr, 1, 0b1111_0000);
    <[u8] as SubByteIndexMut<usize, u8, W4, Msb, Msb>>::subbyte_index_mut(&mut arr, 2, 0b1111_0000);

    assert_eq!(arr, [0b0010_1111, 0b1111_0011]);
}

#[test]
fn set_range_lsb_lsb() {
    let mut arr = [0b1111_1111, 0b1111_1111];
    let input: Vec<u8> = (0..).take(2).collect();
    <[u8] as SubByteIndexMut<Range<usize>, &[u8], W4, Lsb, Lsb>>::subbyte_index_mut(&mut arr, 1..3, &input);

    assert_eq!(arr, [0b0000_1111, 0b1111_0001]);
}

#[test]
fn set_range_msb_lsb() {
    let mut arr = [0b1111_1111, 0b1111_1111];
    let input: Vec<u8> = (0..).take(2).collect();
    <[u8] as SubByteIndexMut<Range<usize>, &[u8], W4, Msb, Lsb>>::subbyte_index_mut(&mut arr, 1..3, &input);

    assert_eq!(arr, [0b1111_0000, 0b0001_1111]);
}

#[test]
fn set_range_lsb_msb() {
    let mut arr = [0b1111_1111, 0b1111_1111];
    <[u8] as SubByteIndexMut<Range<usize>, &[u8], W4, Lsb, Msb>>::subbyte_index_mut(
        &mut arr,
        1..3,
        &[0b0000_0000, 0b0001_0000, 0b0010_0000],
    );

    assert_eq!(arr, [0b0000_1111, 0b1111_0001]);
}

#[test]
fn set_range_msb_msb() {
    let mut arr = [0b1111_1111, 0b1111_1111];
    <[u8] as SubByteIndexMut<Range<usize>, &[u8], W4, Msb, Msb>>::subbyte_index_mut(
        &mut arr,
        1..3,
        &[0b0000_0000, 0b0001_0000, 0b0010_0000],
    );

    assert_eq!(arr, [0b1111_0000, 0b0001_1111]);
}

/// Clones, mutates then returns the given `array`.
fn clone_set_array<Index>(array: &[u8; 2], index: Index, input: &[u8]) -> [u8; 2]
where
    for<'i> [u8]: SubByteIndexMut<Index, &'i [u8], W4, Lsb, Lsb>,
{
    let mut arr = array.clone();
    <[u8] as SubByteIndexMut<Index, &[u8], W4, Lsb, Lsb>>::subbyte_index_mut(&mut arr, index, input);
    arr
}

#[test]
fn index_mut_range_parity() {
    let arr = [0b1111_1111, 0b1111_1111];
    let lsb_out = [0b0001_0000, 0b0011_0010];
    let input: Vec<u8> = (0..4).collect();

    assert_eq!(clone_set_array::<Range<usize>>(&arr, 0..4, &input), lsb_out);
    assert_eq!(clone_set_array::<RangeFrom<usize>>(&arr, 0.., &input), lsb_out);
    assert_eq!(clone_set_array::<RangeTo<usize>>(&arr, ..4, &input), lsb_out);
    assert_eq!(clone_set_array::<RangeFull>(&arr, .., &input), lsb_out);
}
