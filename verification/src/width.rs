use vstd::prelude::*;

use crate::model::{is_byte_factor, low_bits, slot_mask};

verus! {

/// Indicates how many bits an array element occupies. Affects indexing as well as filtering out
/// all other bits. See [`W2`] and [`W4`].
pub trait BitWidth: Sized + Clone + Copy {
    /// The number of bits in the bitpack.
    spec fn spec_width() -> u8;

    /// Every bit width is a factor of a byte.
    proof fn lemma_width_is_byte_factor()
        ensures
            is_byte_factor(Self::spec_width()),
    ;

    /// The number of bits in the bitpack.
    fn width() -> (r: usize)
        ensures
            r == Self::spec_width(),
    ;

    /// A bitmask with [`BitWidth::width`] bits set at the LSB.
    fn lsb_mask() -> (r: u8)
        ensures
            r == low_bits(Self::spec_width()),
    {
        proof {
            Self::lemma_width_is_byte_factor();
        }
        u8::MAX >> (8 - Self::width())
    }

    /// A bitmask with [`BitWidth::width`] bits set at the MSB.
    fn msb_mask() -> (r: u8)
        ensures
            r == slot_mask(Self::spec_width(), true, 0),
    {
        proof {
            Self::lemma_width_is_byte_factor();
        }
        let r = u8::MAX << (8 - Self::width());
        proof {
            let w = Self::spec_width();
            assert(0xffu8 << ((8 - w) as u8) == slot_mask(w, true, 0)) by (bit_vector)
                requires
                    is_byte_factor(w),
            ;
        }
        r
    }

    /// The number of slots in a byte.
    fn n_slots() -> (r: usize)
        ensures
            r == 8int / (Self::spec_width() as int),
            r * Self::spec_width() == 8,
    {
        proof {
            Self::lemma_width_is_byte_factor();
        }
        8 / Self::width()
    }
}

/// Indicates a bit-width of `2`.
#[derive(Debug, Clone, Copy)]
pub struct W2;

impl BitWidth for W2 {
    open spec fn spec_width() -> u8 {
        2
    }

    proof fn lemma_width_is_byte_factor() {
    }

    fn width() -> (r: usize) {
        2
    }
}

/// Indicates a bit-width of `4`.
#[derive(Debug, Clone, Copy)]
pub struct W4;

impl BitWidth for W4 {
    open spec fn spec_width() -> u8 {
        4
    }

    proof fn lemma_width_is_byte_factor() {
    }

    fn width() -> (r: usize) {
        4
    }
}

} // verus!
