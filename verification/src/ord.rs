use vstd::prelude::*;
use vstd::std_specs::bits::{u8_leading_zeros, u8_trailing_zeros};

use crate::model::{
    is_byte_factor, is_slot, lemma_rotate_not, lemma_rotate_to_slot, lemma_slot_basics, low_bits,
    rotate_to_slot, rotl8, rotr8, slot_mask,
};
use crate::width::BitWidth;

verus! {

/// `u8::rotate_left`, as its documentation states: the bits shifted out at the top come back
/// in at the bottom.
pub assume_specification[ u8::rotate_left ](x: u8, n: u32) -> (r: u8)
    ensures
        r == rotl8(x, n),
;

/// `u8::rotate_right`, as its documentation states: the bits shifted out at the bottom come
/// back in at the top.
pub assume_specification[ u8::rotate_right ](x: u8, n: u32) -> (r: u8)
    ensures
        r == rotr8(x, n),
;

/// Indicates element slot ordering for a byte. Used to specify the byte ordering within an array,
/// and the byte ordering for element input/output. See [`Lsb`] and [`Msb`].
pub trait BitOrd<W: BitWidth>: Sized + Clone + Copy {
    /// Whether slot `0` is the most significant slot of a byte.
    spec fn spec_msb_first() -> bool;

    /// An aligned bitmask of the width `W`: the bits of slot `0`.
    fn mask() -> (r: u8)
        ensures
            r == slot_mask(W::spec_width(), Self::spec_msb_first(), 0),
    ;

    /// The complement of [`BitOrd::mask`].
    fn inverse() -> (r: u8)
        ensures
            r == !slot_mask(W::spec_width(), Self::spec_msb_first(), 0),
    {
        !Self::mask()
    }

    /// Return a mask with the bits of the given slot index set.
    fn select_slot(slot_idx: usize) -> (r: u8)
        requires
            slot_idx < 8int / (W::spec_width() as int),
        ensures
            r == slot_mask(W::spec_width(), Self::spec_msb_first(), slot_idx as u8),
    {
        proof {
            lemma_slot_index::<W>(slot_idx);
            lemma_slot_basics(0, W::spec_width(), Self::spec_msb_first(), slot_idx as u8);
            lemma_rotate_to_slot(
                low_bits(W::spec_width()),
                W::spec_width(),
                Self::spec_msb_first(),
                slot_idx as u8,
            );
        }
        Self::bound_to_slot(Self::mask(), slot_idx)
    }

    /// Return a mask with the bits of the given slot index unset.
    fn deselect_slot(slot_idx: usize) -> (r: u8)
        requires
            slot_idx < 8int / (W::spec_width() as int),
        ensures
            r == !slot_mask(W::spec_width(), Self::spec_msb_first(), slot_idx as u8),
    {
        proof {
            lemma_slot_index::<W>(slot_idx);
            lemma_slot_basics(0, W::spec_width(), Self::spec_msb_first(), slot_idx as u8);
            lemma_rotate_to_slot(
                low_bits(W::spec_width()),
                W::spec_width(),
                Self::spec_msb_first(),
                slot_idx as u8,
            );
            lemma_rotate_not(
                slot_mask(W::spec_width(), Self::spec_msb_first(), 0),
                W::spec_width(),
                Self::spec_msb_first(),
                slot_idx as u8,
            );
        }
        Self::bound_to_slot(Self::inverse(), slot_idx)
    }

    /// Shift the given bound aligned mask to the given slot index.
    fn bound_to_slot(mask: u8, slot_idx: usize) -> (r: u8)
        requires
            slot_idx < 8int / (W::spec_width() as int),
        ensures
            r == rotate_to_slot(mask, W::spec_width(), Self::spec_msb_first(), slot_idx as u8),
    ;

    /// Shift the given slot aligned `mask` to the byte bound.
    fn slot_to_bound(slot_mask: u8, mask: u8) -> (r: u8)
        requires
            slot_mask != 0,
        ensures
            r == if Self::spec_msb_first() {
                mask << u8_leading_zeros(slot_mask)
            } else {
                mask >> u8_trailing_zeros(slot_mask)
            },
    ;
}

/// A slot index below `8 / W` is a slot of a byte, and `slot_idx * W` fits in a `u32`.
pub proof fn lemma_slot_index<W: BitWidth>(slot_idx: usize)
    requires
        slot_idx < 8int / (W::spec_width() as int),
    ensures
        is_byte_factor(W::spec_width()),
        is_slot(W::spec_width(), slot_idx as u8),
        slot_idx < 8,
        slot_idx * W::spec_width() < 8,
{
    W::lemma_width_is_byte_factor();
}

/// Least Significant Bit [`BitOrd`].
#[derive(Clone, Copy)]
pub struct Lsb;

impl<W: BitWidth> BitOrd<W> for Lsb {
    open spec fn spec_msb_first() -> bool {
        false
    }

    fn mask() -> (r: u8) {
        proof {
            W::lemma_width_is_byte_factor();
        }
        let r = u8::MAX >> (8 - W::width());
        proof {
            let w = W::spec_width();
            assert(r == 0xffu8 >> ((8 - w) as u8));
            assert(0xffu8 >> ((8 - w) as u8) == slot_mask(w, false, 0)) by (bit_vector)
                requires
                    is_byte_factor(w),
            ;
        }
        r
    }

    fn bound_to_slot(mask: u8, slot_idx: usize) -> (r: u8) {
        proof {
            lemma_slot_index::<W>(slot_idx);
        }
        mask.rotate_left((slot_idx * W::width()) as u32)
    }

    fn slot_to_bound(slot_mask: u8, mask: u8) -> (r: u8) {
        proof {
            vstd::std_specs::bits::axiom_u8_trailing_zeros(slot_mask);
        }
        mask >> slot_mask.trailing_zeros()
    }
}

/// Most Significant Bit [`BitOrd`].
#[derive(Clone, Copy)]
pub struct Msb;

impl<W: BitWidth> BitOrd<W> for Msb {
    open spec fn spec_msb_first() -> bool {
        true
    }

    fn mask() -> (r: u8) {
        proof {
            W::lemma_width_is_byte_factor();
        }
        let r = u8::MAX << (8 - W::width());
        proof {
            let w = W::spec_width();
            assert(r == 0xffu8 << ((8 - w) as u8));
            assert(0xffu8 << ((8 - w) as u8) == slot_mask(w, true, 0)) by (bit_vector)
                requires
                    is_byte_factor(w),
            ;
        }
        r
    }

    fn bound_to_slot(mask: u8, slot_idx: usize) -> (r: u8) {
        proof {
            lemma_slot_index::<W>(slot_idx);
        }
        mask.rotate_right((slot_idx * W::width()) as u32)
    }

    fn slot_to_bound(slot_mask: u8, mask: u8) -> (r: u8) {
        proof {
            vstd::std_specs::bits::axiom_u8_leading_zeros(slot_mask);
        }
        mask << slot_mask.leading_zeros()
    }
}

} // verus!
