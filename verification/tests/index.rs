use std::ops::{Range, RangeFrom, RangeFull, RangeTo};

use subbyte_index::{Lsb, Msb, SubByteIndex, W2, W4};

#[test]
fn test_pack2_lsb_lsb() {
    let a0 = [0b0000_0011, 0b0000_0000];
    let a6 = [0b0000_0000, 0b0011_0000];
    let a7 = [0b0000_0000, 0b1100_0000];

    assert_eq!(<[u8] as SubByteIndex<usize, W2, Lsb, Lsb>>::subbyte_index(&a0, 0), 0b0000_0011);
    assert_eq!(<[u8] as SubByteIndex<usize, W2, Lsb, Lsb>>::subbyte_index(&a6, 6), 0b0000_0011);
    assert_eq!(<[u8] as SubByteIndex<usize, W2, Lsb, Lsb>>::subbyte_index(&a7, 7), 0b0000_0011);
}

#[test]
fn test_pack2_msb_lsb() {
    let a0 = [0b1100_0000, 0b0000_0000];
    let a6 = [0b0000_0000, 0b0000_1100];
    let a7 = [0b0000_0000, 0b0000_0011];

    assert_eq!(<[u8] as SubByteIndex<usize, W2, Msb, Lsb>>::subbyte_index(&a0, 0), 0b0000_0011);
    assert_eq!(<[u8] as SubByteIndex<usize, W2, Msb, Lsb>>::subbyte_index(&a6, 6), 0b0000_0011);
    assert_eq!(<[u8] as SubByteIndex<usize, W2, Msb, Lsb>>::subbyte_index(&a7, 7), 0b0000_0011);
}

#[test]
fn test_pack2_lsb_msb() {
    let a0 = [0b0000_0011, 0b0000_0000];
    let a6 = [0b0000_0000, 0b0011_0000];
    let a7 = [0b0000_0000, 0b1100_0000];

    assert_eq!(<[u8] as SubByteIndex<usize, W2, Lsb, Msb>>::subbyte_index(&a0, 0), 0b1100_0000);
    assert_eq!(<[u8] as SubByteIndex<usize, W2, Lsb, Msb>>::subbyte_index(&a6, 6), 0b1100_0000);
    assert_eq!(<[u8] as SubByteIndex<usize, W2, Lsb, Msb>>::subbyte_index(&a7, 7), 0b1100_0000);
}

#[test]
fn test_pack2_msb_msb() {
    let a0 = [0b1100_0000, 0b0000_0000];
    let a6 = [0b0000_0000, 0b0000_1100];
    let a7 = [0b0000_0000, 0b0000_0011];

    assert_eq!(<[u8] as SubByteIndex<usize, W2, Msb, Msb>>::subbyte_index(&a0, 0), 0b1100_0000);
    assert_eq!(<[u8] as SubByteIndex<usize, W2, Msb, Msb>>::subbyte_index(&a6, 6), 0b1100_0000);
    assert_eq!(<[u8] as SubByteIndex<usize, W2, Msb, Msb>>::subbyte_index(&a7, 7), 0b1100_0000);
}

#[test]
fn test_pack4_lsb_lsb() {
    let a0 = [0b0000_1101, 0b0000_0000];
    let a2 = [0b0000_0000, 0b0000_1101];
    let a3 = [0b0000_0000, 0b1101_0000];

    assert_eq!(<[u8] as SubByteIndex<usize, W4, Lsb, Lsb>>::subbyte_index(&a0, 0), 0b0000_1101);
    assert_eq!(<[u8] as SubByteIndex<usize, W4, Lsb, Lsb>>::subbyte_index(&a2, 2), 0b0000_1101);
    assert_eq!(<[u8] as SubByteIndex<usize, W4, Lsb, Lsb>>::subbyte_index(&a3, 3), 0b0000_1101);
}

#[test]
fn test_pack4_msb_lsb() {
    let a0 = [0b1101_0000, 0b0000_0000];
    let a2 = [0b0000_0000, 0b1101_0000];
    let a3 = [0b0000_0000, 0b0000_1101];

    assert_eq!(<[u8] as SubByteIndex<usize, W4, Msb, Lsb>>::subbyte_index(&a0, 0), 0b0000_1101);
    assert_eq!(<[u8] as SubByteIndex<usize, W4, Msb, Lsb>>::subbyte_index(&a2, 2), 0b0000_1101);
    assert_eq!(<[u8] as SubByteIndex<usize, W4, Msb, Lsb>>::subbyte_index(&a3, 3), 0b0000_1101);
}

#[test]
fn test_pack4_lsb_msb() {
    let a0 = [0b0000_1101, 0b0000_0000];
    let a2 = [0b0000_0000, 0b0000_1101];
    let a3 = [0b0000_0000, 0b1101_0000];

    assert_eq!(<[u8] as SubByteIndex<usize, W4, Lsb, Msb>>::subbyte_index(&a0, 0), 0b1101_0000);
    assert_eq!(<[u8] as SubByteIndex<usize, W4, Lsb, Msb>>::subbyte_index(&a2, 2), 0b1101_0000);
    assert_eq!(<[u8] as SubByteIndex<usize, W4, Lsb, Msb>>::subbyte_index(&a3, 3), 0b1101_0000);
}

#[test]
fn test_pack4_msb_msb() {
    let a0 = [0b1101_0000, 0b0000_0000];
    let a2 = [0b0000_0000, 0b1101_0000];
    let a3 = [0b0000_0000, 0b0000_1101];

    assert_eq!(<[u8] as SubByteIndex<usize, W4, Msb, Msb>>::subbyte_index(&a0, 0), 0b1101_0000);
    assert_eq!(<[u8] as SubByteIndex<usize, W4, Msb, Msb>>::subbyte_index(&a2, 2), 0b1101_0000);
    assert_eq!(<[u8] as SubByteIndex<usize, W4, Msb, Msb>>::subbyte_index(&a3, 3), 0b1101_0000);
}

#[test]
fn test_pack2_lsb_lsb_iter() {
    let a = [0b0011_1001, 0b0001_1011];

    assert_eq!(
        <[u8] as SubByteIndex<Range<usize>, W2, Lsb, Lsb>>::subbyte_index(&a, 0..3).to_vec(),
        [0b01, 0b10, 0b11]
    );
    assert_eq!(
        <[u8] as SubByteIndex<Range<usize>, W2, Lsb, Lsb>>::subbyte_index(&a, 3..8).to_vec(),
        [0b00, 0b11, 0b10, 0b01, 0b00]
    );
}

#[test]
fn test_pack2_msb_lsb_iter() {
    let a = [0b0110_1100, 0b1110_0100];

    assert_eq!(
        <[u8] as SubByteIndex<Range<usize>, W2, Msb, Lsb>>::subbyte_index(&a, 0..3).to_vec(),
        [0b01, 0b10, 0b11]
    );
    assert_eq!(
        <[u8] as SubByteIndex<Range<usize>, W2, Msb, Lsb>>::subbyte_index(&a, 3..8).to_vec(),
        [0b00, 0b11, 0b10, 0b01, 0b00]
    );
}

#[test]
fn test_pack2_lsb_msb_iter() {
    let a = [0b0011_1001, 0b0001_1011];

    assert_eq!(
        <[u8] as SubByteIndex<Range<usize>, W2, Lsb, Msb>>::subbyte_index(&a, 0..3).to_vec(),
        [0b0100_0000, 0b1000_0000, 0b1100_0000]
    );
    assert_eq!(
        <[u8] as SubByteIndex<Range<usize>, W2, Lsb, Msb>>::subbyte_index(&a, 3..8).to_vec(),
        [0b0000_0000, 0b1100_0000, 0b1000_0000, 0b0100_0000, 0b0000_0000]
    );
}

#[test]
fn test_pack2_msb_msb_iter() {
    let a = [0b0110_1100, 0b1110_0100];

    assert_eq!(
        <[u8] as SubByteIndex<Range<usize>, W2, Msb, Msb>>::subbyte_index(&a, 0..3).to_vec(),
        [0b0100_0000, 0b1000_0000, 0b1100_0000]
    );
    assert_eq!(
        <[u8] as SubByteIndex<Range<usize>, W2, Msb, Msb>>::subbyte_index(&a, 3..8).to_vec(),
        [0b0000_0000, 0b1100_0000, 0b1000_0000, 0b0100_0000, 0b0000_0000]
    );
}

#[test]
fn test_pack4_lsb_lsb_iter() {
    let a = [0b0010_0001, 0b0100_0011, 0b0000_0101];

    assert_eq!(
        <[u8] as SubByteIndex<Range<usize>, W4, Lsb, Lsb>>::subbyte_index(&a, 0..4).to_vec(),
        [0b0001, 0b0010, 0b0011, 0b0100]
    );
    assert_eq!(
        <[u8] as SubByteIndex<Range<usize>, W4, Lsb, Lsb>>::subbyte_index(&a, 3..6).to_vec(),
        [0b0100, 0b0101, 0b0000]
    );
}

#[test]
fn test_pack4_msb_lsb_iter() {
    let a = [0b0001_0010, 0b0011_0100, 0b0101_0000];

    assert_eq!(
        <[u8] as SubByteIndex<Range<usize>, W4, Msb, Lsb>>::subbyte_index(&a, 0..4).to_vec(),
        [0b0001, 0b0010, 0b0011, 0b0100]
    );
    assert_eq!(
        <[u8] as SubByteIndex<Range<usize>, W4, Msb, Lsb>>::subbyte_index(&a, 3..6).to_vec(),
        [0b0100, 0b0101, 0b0000]
    );
}

#[test]
fn test_pack4_lsb_msb_iter() {
    let a = [0b0010_0001, 0b0100_0011, 0b0000_0101];

    assert_eq!(
        <[u8] as SubByteIndex<Range<usize>, W4, Lsb, Msb>>::subbyte_index(&a, 0..4).to_vec(),
        [0b0001_0000, 0b0010_0000, 0b0011_0000, 0b0100_0000]
    );
    assert_eq!(
        <[u8] as SubByteIndex<Range<usize>, W4, Lsb, Msb>>::subbyte_index(&a, 3..6).to_vec(),
        [0b0100_0000, 0b0101_0000, 0b0000_0000]
    );
}

#[test]
fn test_pack4_msb_msb_iter() {
    let a = [0b0001_0010, 0b0011_0100, 0b0101_0000];

    assert_eq!(
        <[u8] as SubByteIndex<Range<usize>, W4, Msb, Msb>>::subbyte_index(&a, 0..4).to_vec(),
        [0b0001_0000, 0b0010_0000, 0b0011_0000, 0b0100_0000]
    );
    assert_eq!(
        <[u8] as SubByteIndex<Range<usize>, W4, Msb, Msb>>::subbyte_index(&a, 3..6).to_vec(),
        [0b0100_0000, 0b0101_0000, 0b0000_0000]
    );
}

#[test]
fn index_range_parity() {
    let a = [0b0010_0001, 0b0100_0011];
    let lsb_out = [0b0001, 0b0010, 0b0011, 0b0100];

    assert_eq!(<[u8] as SubByteIndex<Range<usize>, W4, Lsb, Lsb>>::subbyte_index(&a, 0..4).to_vec(), lsb_out);
    assert_eq!(<[u8] as SubByteIndex<RangeFrom<usize>, W4, Lsb, Lsb>>::subbyte_index(&a, 0..).to_vec(), lsb_out);
    assert_eq!(<[u8] as SubByteIndex<RangeTo<usize>, W4, Lsb, Lsb>>::subbyte_index(&a, ..4).to_vec(), lsb_out);
    assert_eq!(<[u8] as SubByteIndex<RangeFull, W4, Lsb, Lsb>>::subbyte_index(&a, ..).to_vec(), lsb_out);
}
