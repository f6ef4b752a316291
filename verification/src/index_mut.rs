use std::ops::{Range, RangeFrom, RangeFull, RangeInclusive, RangeTo, RangeToInclusive};
use vstd::prelude::*;

use crate::index::element_count;
use crate::iter::iter_range_ok;
use crate::model::{
    align_in, elements, lemma_elements_put, lemma_slot_basics, lemma_slots, lemma_write_slot,
    put_slot, slots,
};
use crate::ord::{lemma_slot_index, BitOrd};
use crate::width::BitWidth;

verus! {

/// The element values that `input` carries for `IOrd`-aligned input of `W`-bit elements.
pub open spec fn input_values<W: BitWidth, IOrd: BitOrd<W>>(input: Seq<u8>) -> Seq<u8> {
    input.map_values(|x: u8| align_in(x, W::spec_width(), IOrd::spec_msb_first()))
}

/// `els` with the elements from `start` on replaced by `vals`, in order.
pub open spec fn overwrite(els: Seq<u8>, start: int, vals: Seq<u8>) -> Seq<u8> {
    Seq::new(
        els.len(),
        |i: int|
            if start <= i < start + vals.len() {
                vals[i - start]
            } else {
                els[i]
            },
    )
}

/// Whether `iter_map(slice, start, end, input)` can run: the range can be iterated and `input`
/// holds at least one byte for each element of it.
pub open spec fn iter_map_ok<W: BitWidth>(len: int, start: int, end: int, input_len: int) -> bool {
    &&& iter_range_ok::<W>(len, start, end)
    &&& input_len >= end - start
}

/// `bytes` after writing elements `start..end` from the first `end - start` bytes of `input`.
pub open spec fn written_range<W: BitWidth, AOrd: BitOrd<W>, IOrd: BitOrd<W>>(
    bytes: Seq<u8>,
    start: int,
    end: int,
    input: Seq<u8>,
) -> Seq<u8> {
    overwrite(
        elements(bytes, W::spec_width(), AOrd::spec_msb_first()),
        start,
        input_values::<W, IOrd>(input.take(end - start)),
    )
}

/// Set elements `start..end` of `slice` from the `IOrd`-aligned bytes of `input`, one byte per
/// element, in order.
pub fn iter_map<W: BitWidth, AOrd: BitOrd<W>, IOrd: BitOrd<W>>(
    slice: &mut [u8],
    start: usize,
    end: usize,
    input: &[u8],
)
    requires
        iter_map_ok::<W>(old(slice)@.len() as int, start as int, end as int, input@.len() as int),
    ensures
        final(slice)@.len() == old(slice)@.len(),
        elements(final(slice)@, W::spec_width(), AOrd::spec_msb_first()) == written_range::<
            W,
            AOrd,
            IOrd,
        >(old(slice)@, start as int, end as int, input@),
{
    let ghost w = W::spec_width();
    let ghost msb = AOrd::spec_msb_first();
    let ghost orig = slice@;
    let ghost vals = input_values::<W, IOrd>(input@.take(end - start));
    let n = W::n_slots();
    let ghost ni = n as int;
    proof {
        W::lemma_width_is_byte_factor();
        lemma_slots(w);
    }
    if start == end {
        assert(overwrite(elements(orig, w, msb), start as int, vals) =~= elements(orig, w, msb));
        return;
    }
    proof {
        vstd::arithmetic::div_mod::lemma_div_is_ordered(start as int, end - 1, ni);
        vstd::arithmetic::div_mod::lemma_fundamental_div_mod(start as int, ni);
        vstd::arithmetic::div_mod::lemma_fundamental_div_mod(end - 1, ni);
        assert((end - 1) / ni < orig.len()) by (nonlinear_arith)
            requires
                1 <= end <= orig.len() * ni,
                ni > 0,
        ;
    }
    let last = (end - 1) / n + 1;
    let mut pos = start / n;
    let mut byte = slice[pos];
    let mut slot_idx = start % n;
    let mut len = end - start;
    let mut k: usize = 0;
    proof {
        assert(end <= last * ni) by (nonlinear_arith)
            requires
                end - 1 == ni * ((end - 1) / ni) + (end - 1) % ni,
                (end - 1) % ni < ni,
                last == (end - 1) / ni + 1,
        ;
        assert(pos * ni + slot_idx == start) by (nonlinear_arith)
            requires
                start == ni * (start as int / ni) + start as int % ni,
                pos == start as int / ni,
                slot_idx == start as int % ni,
        ;
        assert(slot_idx + len <= (last - pos) * ni) by (nonlinear_arith)
            requires
                pos * ni + slot_idx == start,
                end <= last * ni,
                len == end - start,
        ;
        assert(slice@.update(pos as int, byte) =~= slice@);
        assert(overwrite(elements(orig, w, msb), start as int, vals.take(0)) =~= elements(
            orig,
            w,
            msb,
        ));
    }
    while len > 0
        invariant
            n == ni,
            ni == slots(w),
            w == W::spec_width(),
            msb == AOrd::spec_msb_first(),
            crate::model::is_byte_factor(w),
            ni * w == 8,
            vals == input_values::<W, IOrd>(input@.take(end - start)),
            input@.len() >= end - start,
            vals.len() == end - start,
            start <= end <= orig.len() * ni,
            slice@.len() == orig.len(),
            last <= orig.len(),
            pos < last,
            slot_idx <= n,
            k + len == end - start,
            pos * ni + slot_idx == start + k,
            slot_idx + len <= (last - pos) * ni,
            elements(slice@.update(pos as int, byte), w, msb) == overwrite(
                elements(orig, w, msb),
                start as int,
                vals.take(k as int),
            ),
        decreases len,
    {
        if slot_idx >= n {
            assert(last - pos >= 2) by (nonlinear_arith)
                requires
                    slot_idx >= ni,
                    len > 0,
                    slot_idx + len <= (last - pos) * ni,
                    ni > 0,
            ;
            let ghost cur = slice@.update(pos as int, byte);
            slice[pos] = byte;
            slot_idx = slot_idx % n;
            pos += 1;
            byte = slice[pos];
            proof {
                vstd::arithmetic::div_mod::lemma_mod_self_0(ni);
                assert(slice@ == cur);
                assert(slice@.update(pos as int, byte) =~= cur);
                assert((last - pos) * ni == (last - (pos - 1)) * ni - ni) by (nonlinear_arith);
                assert(pos * ni == (pos - 1) * ni + ni) by (nonlinear_arith);
            }
        }
        let ghost cur = slice@.update(pos as int, byte);
        let ghost before = overwrite(elements(orig, w, msb), start as int, vals.take(k as int));
        proof {
            lemma_slot_index::<W>(slot_idx);
            lemma_write_slot(byte, input@[k as int], w, msb, IOrd::spec_msb_first(), slot_idx as u8);
            lemma_slot_basics(input@[k as int], w, IOrd::spec_msb_first(), 0);
            lemma_elements_put(
                cur,
                w,
                msb,
                pos as int,
                slot_idx as u8,
                align_in(input@[k as int], w, IOrd::spec_msb_first()),
            );
        }
        byte = byte & AOrd::deselect_slot(slot_idx) | AOrd::bound_to_slot(
            AOrd::slot_to_bound(IOrd::mask(), input[k] & IOrd::mask()),
            slot_idx,
        );
        proof {
            assert(cur.update(pos as int, byte) =~= slice@.update(pos as int, byte));
            assert(vals[k as int] == align_in(input@[k as int], w, IOrd::spec_msb_first()));
            assert(overwrite(elements(orig, w, msb), start as int, vals.take(k + 1)) =~= before.update(
                start + k,
                vals[k as int],
            ));
        }
        len -= 1;
        slot_idx += 1;
        k += 1;
    }
    slice[pos] = byte;
    proof {
        assert(vals.take(k as int) =~= vals);
    }
}


/// Mutable bit subset indexing.
pub trait SubByteIndexMut<Index, Input, W: BitWidth, AOrd: BitOrd<W>, IOrd: BitOrd<W>> {
    /// Whether `index` lies within `self` and `input` covers it (setting panics otherwise).
    spec fn index_mut_in_bounds(&self, index: Index, input: Input) -> bool;

    /// Whether `after` is `self` with `index` set from `input`.
    spec fn index_mut_output(&self, index: Index, input: Input, after: &Self) -> bool;

    /// Set a subset of bits at the given index.
    ///
    /// This operation requires specifying a bit width `W` and the *array* and *input* bit
    /// ordering (`AOrd` and `IOrd` respectively). Similar to [`Index`](std::ops::Index)
    /// operations on slices, `SubByteIndexMut` supports indexing by both `usize` and range types
    /// (`Range`, `RangeFrom`, `RangeInclusive`, `RangeTo`, `RangeToInclusive` and `RangeFull`).
    ///
    /// Input expects `u8` byte mask(s) of the given `IOrd` alignment. Bits outside of this range
    /// are truncated. For a `usize` index, a single `u8` is expected as input, while for range
    /// indices, a byte slice of a length `>=` the index range is expected.
    fn subbyte_index_mut(&mut self, index: Index, input: Input)
        requires
            <Self as SubByteIndexMut<Index, Input, W, AOrd, IOrd>>::index_mut_in_bounds(
                old(self),
                index,
                input,
            ),
        ensures
            <Self as SubByteIndexMut<Index, Input, W, AOrd, IOrd>>::index_mut_output(
                old(self),
                index,
                input,
                final(self),
            ),
    ;
}

impl<W: BitWidth, AOrd: BitOrd<W>, IOrd: BitOrd<W>> SubByteIndexMut<usize, u8, W, AOrd, IOrd> for [u8] {
    open spec fn index_mut_in_bounds(&self, index: usize, input: u8) -> bool {
        index < element_count::<W>(self@.len() as int)
    }

    /// Slot `index % n` of byte `index / n` (with `n` slots per byte) takes the element value
    /// of `input`; every other bit is kept. In terms of elements: element `index` is set.
    open spec fn index_mut_output(&self, index: usize, input: u8, after: &[u8]) -> bool {
        let w = W::spec_width();
        let n = slots(w);
        let i = index as int;
        let v = align_in(input, w, IOrd::spec_msb_first());
        &&& after@ == self@.update(
            i / n,
            put_slot(self@[i / n], w, AOrd::spec_msb_first(), (i % n) as u8, v),
        )
        &&& elements(after@, w, AOrd::spec_msb_first()) == elements(
            self@,
            w,
            AOrd::spec_msb_first(),
        ).update(i, v)
    }

    fn subbyte_index_mut(&mut self, index: usize, input: u8) {
        let n = W::n_slots();
        let ghost w = W::spec_width();
        let ghost msb = AOrd::spec_msb_first();
        let ghost b = index as int / n as int;
        let ghost k = (index % n) as u8;
        let ghost len = old(self)@.len() as int;
        proof {
            W::lemma_width_is_byte_factor();
            lemma_slots(w);
            vstd::arithmetic::div_mod::lemma_fundamental_div_mod(index as int, n as int);
            assert(b < len) by (nonlinear_arith)
                requires
                    index < len * n,
                    b == index as int / n as int,
                    n > 0,
            ;
            lemma_slot_index::<W>(index % n);
            lemma_write_slot(old(self)@[b], input, w, msb, IOrd::spec_msb_first(), k);
            lemma_slot_basics(input, w, IOrd::spec_msb_first(), 0);
            lemma_elements_put(
                old(self)@,
                w,
                msb,
                b,
                k,
                align_in(input, w, IOrd::spec_msb_first()),
            );
        }
        let slot_idx = index % n;
        self[index / n] = self[index / n] & AOrd::deselect_slot(slot_idx) | AOrd::bound_to_slot(
            AOrd::slot_to_bound(IOrd::mask(), input & IOrd::mask()),
            slot_idx,
        );
    }
}

impl<'i, W: BitWidth, AOrd: BitOrd<W>, IOrd: BitOrd<W>> SubByteIndexMut<
    Range<usize>,
    &'i [u8],
    W,
    AOrd,
    IOrd,
> for [u8] {
    open spec fn index_mut_in_bounds(&self, index: Range<usize>, input: &'i [u8]) -> bool {
        iter_map_ok::<W>(
            self@.len() as int,
            index.start as int,
            index.end as int,
            input@.len() as int,
        )
    }

    /// Elements `index.start..index.end` take the element values of the first bytes of `input`.
    open spec fn index_mut_output(&self, index: Range<usize>, input: &'i [u8], after: &[u8]) -> bool {
        &&& after@.len() == self@.len()
        &&& elements(after@, W::spec_width(), AOrd::spec_msb_first()) == written_range::<
            W,
            AOrd,
            IOrd,
        >(self@, index.start as int, index.end as int, input@)
    }

    fn subbyte_index_mut(&mut self, index: Range<usize>, input: &'i [u8]) {
        iter_map::<W, AOrd, IOrd>(self, index.start, index.end, input);
    }
}

impl<'i, W: BitWidth, AOrd: BitOrd<W>, IOrd: BitOrd<W>> SubByteIndexMut<
    RangeFrom<usize>,
    &'i [u8],
    W,
    AOrd,
    IOrd,
> for [u8] {
    open spec fn index_mut_in_bounds(&self, index: RangeFrom<usize>, input: &'i [u8]) -> bool {
        &&& element_count::<W>(self@.len() as int) <= usize::MAX
        &&& iter_map_ok::<W>(
            self@.len() as int,
            index.start as int,
            element_count::<W>(self@.len() as int),
            input@.len() as int,
        )
    }

    /// Elements from `index.start` to the end of the slice take the element values of the first
    /// bytes of `input`.
    open spec fn index_mut_output(
        &self,
        index: RangeFrom<usize>,
        input: &'i [u8],
        after: &[u8],
    ) -> bool {
        &&& after@.len() == self@.len()
        &&& elements(after@, W::spec_width(), AOrd::spec_msb_first()) == written_range::<
            W,
            AOrd,
            IOrd,
        >(self@, index.start as int, element_count::<W>(self@.len() as int), input@)
    }

    fn subbyte_index_mut(&mut self, index: RangeFrom<usize>, input: &'i [u8]) {
        let end = self.len() * W::n_slots();
        iter_map::<W, AOrd, IOrd>(self, index.start, end, input);
    }
}

impl<'i, W: BitWidth, AOrd: BitOrd<W>, IOrd: BitOrd<W>> SubByteIndexMut<
    RangeTo<usize>,
    &'i [u8],
    W,
    AOrd,
    IOrd,
> for [u8] {
    open spec fn index_mut_in_bounds(&self, index: RangeTo<usize>, input: &'i [u8]) -> bool {
        iter_map_ok::<W>(self@.len() as int, 0, index.end as int, input@.len() as int)
    }

    /// Elements `..index.end` take the element values of the first bytes of `input`.
    open spec fn index_mut_output(&self, index: RangeTo<usize>, input: &'i [u8], after: &[u8]) -> bool {
        &&& after@.len() == self@.len()
        &&& elements(after@, W::spec_width(), AOrd::spec_msb_first()) == written_range::<
            W,
            AOrd,
            IOrd,
        >(self@, 0, index.end as int, input@)
    }

    fn subbyte_index_mut(&mut self, index: RangeTo<usize>, input: &'i [u8]) {
        iter_map::<W, AOrd, IOrd>(self, 0, index.end, input);
    }
}

impl<'i, W: BitWidth, AOrd: BitOrd<W>, IOrd: BitOrd<W>> SubByteIndexMut<
    RangeFull,
    &'i [u8],
    W,
    AOrd,
    IOrd,
> for [u8] {
    open spec fn index_mut_in_bounds(&self, index: RangeFull, input: &'i [u8]) -> bool {
        &&& element_count::<W>(self@.len() as int) <= usize::MAX
        &&& iter_map_ok::<W>(
            self@.len() as int,
            0,
            element_count::<W>(self@.len() as int),
            input@.len() as int,
        )
    }

    /// Every element takes the element value of the matching byte of `input`.
    open spec fn index_mut_output(&self, index: RangeFull, input: &'i [u8], after: &[u8]) -> bool {
        &&& after@.len() == self@.len()
        &&& elements(after@, W::spec_width(), AOrd::spec_msb_first()) == written_range::<
            W,
            AOrd,
            IOrd,
        >(self@, 0, element_count::<W>(self@.len() as int), input@)
    }

    fn subbyte_index_mut(&mut self, _index: RangeFull, input: &'i [u8]) {
        let end = self.len() * W::n_slots();
        iter_map::<W, AOrd, IOrd>(self, 0, end, input);
    }
}


impl<'i, W: BitWidth, AOrd: BitOrd<W>, IOrd: BitOrd<W>> SubByteIndexMut<
    RangeInclusive<usize>,
    &'i [u8],
    W,
    AOrd,
    IOrd,
> for [u8] {
    open spec fn index_mut_in_bounds(&self, index: RangeInclusive<usize>, input: &'i [u8]) -> bool {
        &&& !index@.exhausted
        &&& index@.end < usize::MAX
        &&& iter_map_ok::<W>(
            self@.len() as int,
            index@.start as int,
            index@.end + 1,
            input@.len() as int,
        )
    }

    /// Elements `index.start()..=index.end()` take the element values of the first bytes of
    /// `input`.
    open spec fn index_mut_output(
        &self,
        index: RangeInclusive<usize>,
        input: &'i [u8],
        after: &[u8],
    ) -> bool {
        &&& after@.len() == self@.len()
        &&& elements(after@, W::spec_width(), AOrd::spec_msb_first()) == written_range::<
            W,
            AOrd,
            IOrd,
        >(self@, index@.start as int, index@.end + 1, input@)
    }

    fn subbyte_index_mut(&mut self, index: RangeInclusive<usize>, input: &'i [u8]) {
        iter_map::<W, AOrd, IOrd>(self, *index.start(), index.end() + 1, input);
    }
}

impl<'i, W: BitWidth, AOrd: BitOrd<W>, IOrd: BitOrd<W>> SubByteIndexMut<
    RangeToInclusive<usize>,
    &'i [u8],
    W,
    AOrd,
    IOrd,
> for [u8] {
    open spec fn index_mut_in_bounds(&self, index: RangeToInclusive<usize>, input: &'i [u8]) -> bool {
        &&& index.end < usize::MAX
        &&& iter_map_ok::<W>(self@.len() as int, 0, index.end + 1, input@.len() as int)
    }

    /// Elements `..=index.end` take the element values of the first bytes of `input`.
    open spec fn index_mut_output(
        &self,
        index: RangeToInclusive<usize>,
        input: &'i [u8],
        after: &[u8],
    ) -> bool {
        &&& after@.len() == self@.len()
        &&& elements(after@, W::spec_width(), AOrd::spec_msb_first()) == written_range::<
            W,
            AOrd,
            IOrd,
        >(self@, 0, index.end + 1, input@)
    }

    fn subbyte_index_mut(&mut self, index: RangeToInclusive<usize>, input: &'i [u8]) {
        iter_map::<W, AOrd, IOrd>(self, 0, index.end + 1, input);
    }
}

} // verus!
