use std::ops::{Range, RangeFrom, RangeFull, RangeInclusive, RangeTo, RangeToInclusive};
use vstd::prelude::*;

use crate::iter::{element_range, iter_range_ok, SubByteIter};
use crate::model::{align_out, elements, lemma_elements_index, lemma_read_slot, lemma_slots, slots};
use crate::ord::{lemma_slot_index, BitOrd};
use crate::width::BitWidth;

verus! {

/// `RangeFrom` is read by its public `start` field.
#[verifier::external_type_specification]
pub struct ExRangeFrom<Idx>(RangeFrom<Idx>);

/// `RangeTo` is read by its public `end` field.
#[verifier::external_type_specification]
pub struct ExRangeTo<Idx>(RangeTo<Idx>);

/// `RangeToInclusive` is read by its public `end` field.
#[verifier::external_type_specification]
pub struct ExRangeToInclusive<Idx>(RangeToInclusive<Idx>);

/// `RangeFull` has no fields.
#[verifier::external_type_specification]
pub struct ExRangeFull(RangeFull);

/// `RangeInclusive::start`: its documentation states that it returns the lower bound of a range
/// that has not been iterated to exhaustion; what it returns after exhaustion is left unsaid.
pub assume_specification<Idx>[ RangeInclusive::<Idx>::start ](r: &RangeInclusive<Idx>) -> (s: &Idx)
    ensures
        !r@.exhausted ==> *s == r@.start,
;

/// `RangeInclusive::end`: its documentation states that it returns the upper bound of a range
/// that has not been iterated to exhaustion; what it returns after exhaustion is left unsaid.
pub assume_specification<Idx>[ RangeInclusive::<Idx>::end ](r: &RangeInclusive<Idx>) -> (e: &Idx)
    ensures
        !r@.exhausted ==> *e == r@.end,
;

/// The number of elements of `W` bits held by `len` bytes.
pub open spec fn element_count<W: BitWidth>(len: int) -> int {
    len * slots(W::spec_width())
}

/// # SubByteIndex
///
/// Immutable bit subset indexing.
///
/// `SubByteIndex` handles the extraction and alignment of a subset of bits. See
/// [`SubByteIndex::subbyte_index`] for usage.
pub trait SubByteIndex<Index, W: BitWidth, AOrd: BitOrd<W>, OOrd: BitOrd<W>> {
    /// What indexing yields.
    type Output<'a> where Self: 'a;

    /// Whether `index` lies within `self` (indexing panics otherwise).
    spec fn index_in_bounds(&self, index: Index) -> bool;

    /// What indexing `self` at `index` yields.
    spec fn index_output<'a>(&'a self, index: Index, out: Self::Output<'a>) -> bool;

    /// Get a subset of bits at the given index.
    ///
    /// This operation requires specifying a bit width `W` and the *array* and *output* bit
    /// ordering (`AOrd` and `OOrd` respectively). Similar to [`Index`](std::ops::Index)
    /// operations on slices, `SubByteIndex` supports indexing by both `usize` and range types
    /// (`Range`, `RangeFrom`, `RangeInclusive`, `RangeTo`, `RangeToInclusive` and `RangeFull`).
    /// This operation considers the entirety of a byte slice to be in-bounds.
    fn subbyte_index(&self, index: Index) -> (out: Self::Output<'_>)
        requires
            <Self as SubByteIndex<Index, W, AOrd, OOrd>>::index_in_bounds(self, index),
        ensures
            <Self as SubByteIndex<Index, W, AOrd, OOrd>>::index_output(self, index, out),
    ;
}

impl<W: BitWidth, AOrd: BitOrd<W>, OOrd: BitOrd<W>> SubByteIndex<usize, W, AOrd, OOrd> for [u8] {
    type Output<'a> = u8;

    open spec fn index_in_bounds(&self, index: usize) -> bool {
        index < element_count::<W>(self@.len() as int)
    }

    /// Element `index`, aligned to `OOrd`.
    open spec fn index_output<'a>(&'a self, index: usize, out: u8) -> bool {
        out == align_out(
            elements(self@, W::spec_width(), AOrd::spec_msb_first())[index as int],
            W::spec_width(),
            OOrd::spec_msb_first(),
        )
    }

    fn subbyte_index(&self, index: usize) -> (out: u8) {
        let n = W::n_slots();
        let ghost w = W::spec_width();
        let ghost b = index as int / n as int;
        let ghost k = (index % n) as u8;
        proof {
            W::lemma_width_is_byte_factor();
            lemma_slots(w);
            vstd::arithmetic::div_mod::lemma_fundamental_div_mod(index as int, n as int);
            assert(b < self@.len()) by (nonlinear_arith)
                requires
                    index < self@.len() * n,
                    b == index as int / n as int,
                    n > 0,
            ;
            lemma_slot_index::<W>(index % n);
            lemma_elements_index(self@, w, AOrd::spec_msb_first(), b, k);
            lemma_read_slot(self@[b], w, AOrd::spec_msb_first(), OOrd::spec_msb_first(), k);
        }
        let slot_mask = AOrd::select_slot(index % n);
        OOrd::slot_to_bound(slot_mask, self[index / n] & slot_mask)
    }
}

impl<W: BitWidth, AOrd: BitOrd<W>, OOrd: BitOrd<W>> SubByteIndex<Range<usize>, W, AOrd, OOrd> for [u8] {
    type Output<'a> = SubByteIter<'a, W, AOrd, OOrd>;

    open spec fn index_in_bounds(&self, index: Range<usize>) -> bool {
        iter_range_ok::<W>(self@.len() as int, index.start as int, index.end as int)
    }

    /// An iterator over elements `index.start..index.end`, aligned to `OOrd`.
    open spec fn index_output<'a>(
        &'a self,
        index: Range<usize>,
        out: SubByteIter<'a, W, AOrd, OOrd>,
    ) -> bool {
        &&& out.wf()
        &&& out@ == element_range::<W, AOrd, OOrd>(self@, index.start as int, index.end as int)
    }

    fn subbyte_index(&self, index: Range<usize>) -> (out: SubByteIter<'_, W, AOrd, OOrd>) {
        SubByteIter::new(self, index.start, index.end)
    }
}

impl<W: BitWidth, AOrd: BitOrd<W>, OOrd: BitOrd<W>> SubByteIndex<
    RangeInclusive<usize>,
    W,
    AOrd,
    OOrd,
> for [u8] {
    type Output<'a> = SubByteIter<'a, W, AOrd, OOrd>;

    open spec fn index_in_bounds(&self, index: RangeInclusive<usize>) -> bool {
        &&& !index@.exhausted
        &&& index@.end < usize::MAX
        &&& iter_range_ok::<W>(self@.len() as int, index@.start as int, index@.end + 1)
    }

    /// An iterator over elements `index.start()..=index.end()`, aligned to `OOrd`.
    open spec fn index_output<'a>(
        &'a self,
        index: RangeInclusive<usize>,
        out: SubByteIter<'a, W, AOrd, OOrd>,
    ) -> bool {
        &&& out.wf()
        &&& out@ == element_range::<W, AOrd, OOrd>(self@, index@.start as int, index@.end + 1)
    }

    fn subbyte_index(&self, index: RangeInclusive<usize>) -> (out: SubByteIter<'_, W, AOrd, OOrd>) {
        SubByteIter::new(self, *index.start(), index.end() + 1)
    }
}

impl<W: BitWidth, AOrd: BitOrd<W>, OOrd: BitOrd<W>> SubByteIndex<RangeFrom<usize>, W, AOrd, OOrd> for [u8] {
    type Output<'a> = SubByteIter<'a, W, AOrd, OOrd>;

    open spec fn index_in_bounds(&self, index: RangeFrom<usize>) -> bool {
        &&& element_count::<W>(self@.len() as int) <= usize::MAX
        &&& iter_range_ok::<W>(
            self@.len() as int,
            index.start as int,
            element_count::<W>(self@.len() as int),
        )
    }

    /// An iterator over elements `index.start..` to the end of the slice, aligned to `OOrd`.
    open spec fn index_output<'a>(
        &'a self,
        index: RangeFrom<usize>,
        out: SubByteIter<'a, W, AOrd, OOrd>,
    ) -> bool {
        &&& out.wf()
        &&& out@ == element_range::<W, AOrd, OOrd>(
            self@,
            index.start as int,
            element_count::<W>(self@.len() as int),
        )
    }

    fn subbyte_index(&self, index: RangeFrom<usize>) -> (out: SubByteIter<'_, W, AOrd, OOrd>) {
        SubByteIter::new(self, index.start, self.len() * W::n_slots())
    }
}

impl<W: BitWidth, AOrd: BitOrd<W>, OOrd: BitOrd<W>> SubByteIndex<RangeTo<usize>, W, AOrd, OOrd> for [u8] {
    type Output<'a> = SubByteIter<'a, W, AOrd, OOrd>;

    open spec fn index_in_bounds(&self, index: RangeTo<usize>) -> bool {
        iter_range_ok::<W>(self@.len() as int, 0, index.end as int)
    }

    /// An iterator over elements `..index.end`, aligned to `OOrd`.
    open spec fn index_output<'a>(
        &'a self,
        index: RangeTo<usize>,
        out: SubByteIter<'a, W, AOrd, OOrd>,
    ) -> bool {
        &&& out.wf()
        &&& out@ == element_range::<W, AOrd, OOrd>(self@, 0, index.end as int)
    }

    fn subbyte_index(&self, index: RangeTo<usize>) -> (out: SubByteIter<'_, W, AOrd, OOrd>) {
        SubByteIter::new(self, 0, index.end)
    }
}

impl<W: BitWidth, AOrd: BitOrd<W>, OOrd: BitOrd<W>> SubByteIndex<
    RangeToInclusive<usize>,
    W,
    AOrd,
    OOrd,
> for [u8] {
    type Output<'a> = SubByteIter<'a, W, AOrd, OOrd>;

    open spec fn index_in_bounds(&self, index: RangeToInclusive<usize>) -> bool {
        &&& index.end < usize::MAX
        &&& iter_range_ok::<W>(self@.len() as int, 0, index.end + 1)
    }

    /// An iterator over elements `..=index.end`, aligned to `OOrd`.
    open spec fn index_output<'a>(
        &'a self,
        index: RangeToInclusive<usize>,
        out: SubByteIter<'a, W, AOrd, OOrd>,
    ) -> bool {
        &&& out.wf()
        &&& out@ == element_range::<W, AOrd, OOrd>(self@, 0, index.end + 1)
    }

    fn subbyte_index(&self, index: RangeToInclusive<usize>) -> (out: SubByteIter<
        '_,
        W,
        AOrd,
        OOrd,
    >) {
        SubByteIter::new(self, 0, index.end + 1)
    }
}

impl<W: BitWidth, AOrd: BitOrd<W>, OOrd: BitOrd<W>> SubByteIndex<RangeFull, W, AOrd, OOrd> for [u8] {
    type Output<'a> = SubByteIter<'a, W, AOrd, OOrd>;

    open spec fn index_in_bounds(&self, index: RangeFull) -> bool {
        &&& element_count::<W>(self@.len() as int) <= usize::MAX
        &&& iter_range_ok::<W>(self@.len() as int, 0, element_count::<W>(self@.len() as int))
    }

    /// An iterator over every element of the slice, aligned to `OOrd`.
    open spec fn index_output<'a>(
        &'a self,
        index: RangeFull,
        out: SubByteIter<'a, W, AOrd, OOrd>,
    ) -> bool {
        &&& out.wf()
        &&& out@ == element_range::<W, AOrd, OOrd>(
            self@,
            0,
            element_count::<W>(self@.len() as int),
        )
    }

    fn subbyte_index(&self, _index: RangeFull) -> (out: SubByteIter<'_, W, AOrd, OOrd>) {
        SubByteIter::new(self, 0, self.len() * W::n_slots())
    }
}

} // verus!
