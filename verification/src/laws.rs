use std::ops::{Range, RangeFrom, RangeFull, RangeTo};
use vstd::prelude::*;

use crate::index::{element_count, SubByteIndex};
use crate::index_mut::SubByteIndexMut;
use crate::iter::{element_range, iter_range_ok, next_step, SubByteIter};
use crate::model::{
    align_in, align_out, count_ones8, elements, get_slot, lemma_elements_index,
    lemma_elements_injective, lemma_slot_basics, lemma_slot_laws, lemma_slot_masks_partition,
    lemma_slots, slot_mask, slots, slots_union,
};
use crate::ord::{BitOrd, Lsb, Msb};
use crate::width::BitWidth;

verus! {

/// What reading an element set from `input` gives: the element value that `input` carries in
/// `IOrd` alignment, aligned to `OOrd`.
pub open spec fn written_value<W: BitWidth, IOrd: BitOrd<W>, OOrd: BitOrd<W>>(input: u8) -> u8 {
    align_out(
        align_in(input, W::spec_width(), IOrd::spec_msb_first()),
        W::spec_width(),
        OOrd::spec_msb_first(),
    )
}

/// The index, in the other slot order, of the element at `index`: same byte, mirrored slot.
pub open spec fn mirror_index<W: BitWidth>(index: int) -> int {
    let n = slots(W::spec_width());
    (index / n) * n + (n - 1 - index % n)
}

/// Read after write: once element `index` has been set from `input`, reading it gives the
/// element value of `input` aligned to the output order, and every other element reads as it
/// did before. The slice keeps its length.
pub proof fn law_read_after_write<W: BitWidth, AOrd: BitOrd<W>, IOrd: BitOrd<W>, OOrd: BitOrd<W>>(
    before: &[u8],
    after: &[u8],
    index: usize,
    input: u8,
    j: usize,
    out: u8,
)
    requires
        index < element_count::<W>(before@.len() as int),
        j < element_count::<W>(before@.len() as int),
        <[u8] as SubByteIndexMut<usize, u8, W, AOrd, IOrd>>::index_mut_output(
            before,
            index,
            input,
            after,
        ),
    ensures
        after@.len() == before@.len(),
        <[u8] as SubByteIndex<usize, W, AOrd, OOrd>>::index_output(after, j, out) <==> if j
            == index {
            out == written_value::<W, IOrd, OOrd>(input)
        } else {
            <[u8] as SubByteIndex<usize, W, AOrd, OOrd>>::index_output(before, j, out)
        },
{
    let n = slots(W::spec_width());
    W::lemma_width_is_byte_factor();
    lemma_slots(W::spec_width());
    let i = index as int;
    vstd::arithmetic::div_mod::lemma_fundamental_div_mod(i, n);
    assert(i / n < before@.len()) by (nonlinear_arith)
        requires
            i < before@.len() * n,
            n > 0,
    ;
}

/// Writing back what was read leaves the slice unchanged: setting element `index` from the
/// value read there, with the input order equal to the output order, changes no byte.
pub proof fn law_write_back_read<W: BitWidth, AOrd: BitOrd<W>, OOrd: BitOrd<W>>(
    before: &[u8],
    after: &[u8],
    index: usize,
    out: u8,
)
    requires
        index < element_count::<W>(before@.len() as int),
        <[u8] as SubByteIndex<usize, W, AOrd, OOrd>>::index_output(before, index, out),
        <[u8] as SubByteIndexMut<usize, u8, W, AOrd, OOrd>>::index_mut_output(
            before,
            index,
            out,
            after,
        ),
    ensures
        after@ == before@,
{
    let w = W::spec_width();
    let msb = AOrd::spec_msb_first();
    let n = slots(w);
    W::lemma_width_is_byte_factor();
    lemma_slots(w);
    let i = index as int;
    let b = i / n;
    let k = (i % n) as u8;
    vstd::arithmetic::div_mod::lemma_fundamental_div_mod(i, n);
    assert(b < before@.len()) by (nonlinear_arith)
        requires
            i < before@.len() * n,
            b == i / n,
            n > 0,
    ;
    lemma_elements_index(before@, w, msb, b, k);
    let v = get_slot(before@[b], w, msb, k);
    lemma_slot_basics(before@[b], w, msb, k);
    lemma_slot_laws(before@[b], v, w, OOrd::spec_msb_first(), k);
    lemma_slot_laws(before@[b], v, w, msb, k);
    assert(after@ =~= before@);
}

/// A ranged read agrees with single reads: the `j`-th value of the iterator over
/// `start..end` is what indexing element `start + j` gives.
pub proof fn law_range_agrees<'a, W: BitWidth, AOrd: BitOrd<W>, OOrd: BitOrd<W>>(
    bytes: &'a [u8],
    index: Range<usize>,
    it: SubByteIter<'a, W, AOrd, OOrd>,
    j: int,
)
    requires
        <[u8] as SubByteIndex<Range<usize>, W, AOrd, OOrd>>::index_in_bounds(bytes, index),
        <[u8] as SubByteIndex<Range<usize>, W, AOrd, OOrd>>::index_output(bytes, index, it),
        0 <= j < index.end - index.start,
    ensures
        it@.len() == index.end - index.start,
        <[u8] as SubByteIndex<usize, W, AOrd, OOrd>>::index_output(
            bytes,
            (index.start + j) as usize,
            it@[j],
        ),
{
    W::lemma_width_is_byte_factor();
    lemma_slots(W::spec_width());
}

/// Read after ranged write: once elements `start..end` have been set from `input`, element
/// `start + j` reads as the element value of `input[j]`, and every element outside the range
/// reads as it did before. The slice keeps its length.
pub proof fn law_read_after_range_write<
    'i,
    W: BitWidth,
    AOrd: BitOrd<W>,
    IOrd: BitOrd<W>,
    OOrd: BitOrd<W>,
>(before: &[u8], after: &[u8], index: Range<usize>, input: &'i [u8], j: usize, out: u8)
    requires
        <[u8] as SubByteIndexMut<Range<usize>, &'i [u8], W, AOrd, IOrd>>::index_mut_in_bounds(
            before,
            index,
            input,
        ),
        <[u8] as SubByteIndexMut<Range<usize>, &'i [u8], W, AOrd, IOrd>>::index_mut_output(
            before,
            index,
            input,
            after,
        ),
        j < element_count::<W>(before@.len() as int),
    ensures
        after@.len() == before@.len(),
        <[u8] as SubByteIndex<usize, W, AOrd, OOrd>>::index_output(after, j, out) <==> if index.start
            <= j < index.end {
            out == written_value::<W, IOrd, OOrd>(input@[j - index.start])
        } else {
            <[u8] as SubByteIndex<usize, W, AOrd, OOrd>>::index_output(before, j, out)
        },
{
    W::lemma_width_is_byte_factor();
    lemma_slots(W::spec_width());
}

/// Every way of naming the whole slice reads the same elements: `..`, `0..`,
/// `..element_count` and `0..element_count` give iterators with the same remaining values.
pub proof fn law_full_range_parity<'a, W: BitWidth, AOrd: BitOrd<W>, OOrd: BitOrd<W>>(
    bytes: &'a [u8],
    full: SubByteIter<'a, W, AOrd, OOrd>,
    from: SubByteIter<'a, W, AOrd, OOrd>,
    to: SubByteIter<'a, W, AOrd, OOrd>,
    ranged: SubByteIter<'a, W, AOrd, OOrd>,
)
    requires
        element_count::<W>(bytes@.len() as int) <= usize::MAX,
        <[u8] as SubByteIndex<RangeFull, W, AOrd, OOrd>>::index_output(bytes, .., full),
        <[u8] as SubByteIndex<RangeFrom<usize>, W, AOrd, OOrd>>::index_output(bytes, 0.., from),
        <[u8] as SubByteIndex<RangeTo<usize>, W, AOrd, OOrd>>::index_output(
            bytes,
            ..(element_count::<W>(bytes@.len() as int) as usize),
            to,
        ),
        <[u8] as SubByteIndex<Range<usize>, W, AOrd, OOrd>>::index_output(
            bytes,
            0..(element_count::<W>(bytes@.len() as int) as usize),
            ranged,
        ),
    ensures
        full@ == ranged@,
        from@ == ranged@,
        to@ == ranged@,
{
    W::lemma_width_is_byte_factor();
    lemma_slots(W::spec_width());
    assert(element_count::<W>(bytes@.len() as int) >= 0) by (nonlinear_arith)
        requires
            slots(W::spec_width()) > 0,
    ;
}

/// The last element index of the byte holding element `i` fits in a `usize`.
proof fn lemma_byte_end_fits(i: usize, n: int)
    requires
        n == 1 || n == 2 || n == 4 || n == 8,
    ensures
        (i as int / n) * n + n - 1 <= usize::MAX,
{
    if n == 8 {
        assert((i as int / 8) * 8 + 7 <= usize::MAX);
    } else if n == 4 {
        assert((i as int / 4) * 4 + 3 <= usize::MAX);
    } else if n == 2 {
        assert((i as int / 2) * 2 + 1 <= usize::MAX);
    }
}

/// The two slot orders mirror each other within a byte: element `index` in most significant
/// first order is element `mirror_index(index)` in least significant first order.
pub proof fn law_order_mirror<W: BitWidth, OOrd: BitOrd<W>>(bytes: &[u8], index: usize, out: u8)
    requires
        index < element_count::<W>(bytes@.len() as int),
    ensures
        0 <= mirror_index::<W>(index as int) < element_count::<W>(bytes@.len() as int),
        <[u8] as SubByteIndex<usize, W, Msb, OOrd>>::index_output(bytes, index, out) <==> <[u8] as SubByteIndex<
            usize,
            W,
            Lsb,
            OOrd,
        >>::index_output(bytes, mirror_index::<W>(index as int) as usize, out),
{
    let w = W::spec_width();
    let n = slots(w);
    W::lemma_width_is_byte_factor();
    lemma_slots(w);
    let i = index as int;
    let b = i / n;
    let k = (i % n) as u8;
    vstd::arithmetic::div_mod::lemma_fundamental_div_mod(i, n);
    assert(k == i % n);
    assert(b < bytes@.len()) by (nonlinear_arith)
        requires
            i < bytes@.len() * n,
            b == i / n,
            n > 0,
    ;
    let mk = (n - 1 - k) as u8;
    assert(8u8 / w == n);
    lemma_elements_index(bytes@, w, true, b, k);
    lemma_elements_index(bytes@, w, false, b, mk);
    lemma_slot_laws(bytes@[b], 0, w, false, k);
    assert(i == b * n + k) by (nonlinear_arith)
        requires
            i == n * (i / n) + i % n,
            b == i / n,
            k == i % n,
    ;
    assert(mirror_index::<W>(i) == b * n + mk);
    lemma_byte_end_fits(index, n);
}

/// Outputs are aligned: every value read lies within the output order's slot `0` mask (the low
/// bits for [`Lsb`], the high bits for [`Msb`]).
pub proof fn law_output_aligned<W: BitWidth, AOrd: BitOrd<W>, OOrd: BitOrd<W>>(
    bytes: &[u8],
    index: usize,
    out: u8,
)
    requires
        index < element_count::<W>(bytes@.len() as int),
        <[u8] as SubByteIndex<usize, W, AOrd, OOrd>>::index_output(bytes, index, out),
    ensures
        out & slot_mask(W::spec_width(), OOrd::spec_msb_first(), 0) == out,
{
    let w = W::spec_width();
    let n = slots(w);
    W::lemma_width_is_byte_factor();
    lemma_slots(w);
    let i = index as int;
    let b = i / n;
    let k = (i % n) as u8;
    vstd::arithmetic::div_mod::lemma_fundamental_div_mod(i, n);
    assert(b < bytes@.len()) by (nonlinear_arith)
        requires
            i < bytes@.len() * n,
            b == i / n,
            n > 0,
    ;
    lemma_elements_index(bytes@, w, AOrd::spec_msb_first(), b, k);
    let v = get_slot(bytes@[b], w, AOrd::spec_msb_first(), k);
    lemma_slot_basics(bytes@[b], w, AOrd::spec_msb_first(), k);
    lemma_slot_laws(bytes@[b], v, w, OOrd::spec_msb_first(), k);
}

/// Input bits outside the input order's slot `0` mask are ignored: setting an element from
/// `input` or from `input` masked gives the same slice.
pub proof fn law_input_truncated<W: BitWidth, AOrd: BitOrd<W>, IOrd: BitOrd<W>>(
    before: &[u8],
    after: &[u8],
    index: usize,
    input: u8,
)
    requires
        index < element_count::<W>(before@.len() as int),
    ensures
        <[u8] as SubByteIndexMut<usize, u8, W, AOrd, IOrd>>::index_mut_output(
            before,
            index,
            input,
            after,
        ) <==> <[u8] as SubByteIndexMut<usize, u8, W, AOrd, IOrd>>::index_mut_output(
            before,
            index,
            input & slot_mask(W::spec_width(), IOrd::spec_msb_first(), 0),
            after,
        ),
{
    let w = W::spec_width();
    W::lemma_width_is_byte_factor();
    lemma_slots(w);
    assert(crate::model::is_slot(w, 0));
    lemma_slot_laws(input, 0, w, IOrd::spec_msb_first(), 0);
}


/// The elements are a faithful view of the bytes: two slices of one length whose elements
/// agree are equal.
pub proof fn law_elements_determine_bytes<W: BitWidth, AOrd: BitOrd<W>>(a: &[u8], b: &[u8])
    requires
        a@.len() == b@.len(),
        elements(a@, W::spec_width(), AOrd::spec_msb_first()) == elements(
            b@,
            W::spec_width(),
            AOrd::spec_msb_first(),
        ),
    ensures
        a@ == b@,
{
    W::lemma_width_is_byte_factor();
    lemma_elements_injective(a@, b@, W::spec_width(), AOrd::spec_msb_first());
}

/// Every way of naming the whole slice writes the same bytes: `..`, `0..`, `..element_count`
/// and `0..element_count` set from one input give one result.
pub proof fn law_full_range_write_parity<
    'i,
    W: BitWidth,
    AOrd: BitOrd<W>,
    IOrd: BitOrd<W>,
>(before: &[u8], input: &'i [u8], full: &[u8], from: &[u8], to: &[u8], ranged: &[u8])
    requires
        element_count::<W>(before@.len() as int) <= usize::MAX,
        <[u8] as SubByteIndexMut<RangeFull, &'i [u8], W, AOrd, IOrd>>::index_mut_output(
            before,
            ..,
            input,
            full,
        ),
        <[u8] as SubByteIndexMut<RangeFrom<usize>, &'i [u8], W, AOrd, IOrd>>::index_mut_output(
            before,
            0..,
            input,
            from,
        ),
        <[u8] as SubByteIndexMut<RangeTo<usize>, &'i [u8], W, AOrd, IOrd>>::index_mut_output(
            before,
            ..(element_count::<W>(before@.len() as int) as usize),
            input,
            to,
        ),
        <[u8] as SubByteIndexMut<Range<usize>, &'i [u8], W, AOrd, IOrd>>::index_mut_output(
            before,
            0..(element_count::<W>(before@.len() as int) as usize),
            input,
            ranged,
        ),
    ensures
        full@ == ranged@,
        from@ == ranged@,
        to@ == ranged@,
{
    W::lemma_width_is_byte_factor();
    lemma_slots(W::spec_width());
    assert(element_count::<W>(before@.len() as int) >= 0) by (nonlinear_arith)
        requires
            slots(W::spec_width()) > 0,
    ;
    let w = W::spec_width();
    let msb = AOrd::spec_msb_first();
    lemma_elements_injective(full@, ranged@, w, msb);
    lemma_elements_injective(from@, ranged@, w, msb);
    lemma_elements_injective(to@, ranged@, w, msb);
}


/// The remaining values of an iterator whose remaining values were `rest`, after `c` calls of
/// `next`.
pub open spec fn after_calls(rest: Seq<u8>, c: nat) -> Seq<u8>
    decreases c,
{
    if c == 0 {
        rest
    } else {
        next_step(after_calls(rest, (c - 1) as nat)).1
    }
}

/// After `c` calls of `next`, the remaining values are those from position `c` on (none once
/// `c` reaches their number).
proof fn lemma_after_calls(rest: Seq<u8>, c: nat)
    ensures
        after_calls(rest, c) == rest.subrange(
            if c <= rest.len() {
                c as int
            } else {
                rest.len() as int
            },
            rest.len() as int,
        ),
    decreases c,
{
    if c == 0 {
        assert(rest.subrange(0, rest.len() as int) =~= rest);
    } else {
        lemma_after_calls(rest, (c - 1) as nat);
        let prev = after_calls(rest, (c - 1) as nat);
        if prev.len() > 0 {
            assert(prev.drop_first() =~= rest.subrange(c as int, rest.len() as int));
        }
    }
}

/// Calls of `next` on a range iterator: the iterator that `SubByteIter::new(bytes, start, end)`
/// builds (whose remaining values `element_range(bytes, start, end)` are), after `c` earlier
/// calls of `next`, returns what indexing element `start + c` gives while `c < end - start`, and
/// `None` from then on.
pub proof fn law_next_after_calls<W: BitWidth, AOrd: BitOrd<W>, OOrd: BitOrd<W>>(
    bytes: &[u8],
    start: usize,
    end: usize,
    c: nat,
    out: u8,
)
    requires
        iter_range_ok::<W>(bytes@.len() as int, start as int, end as int),
    ensures
        c < end - start ==> (next_step(
            after_calls(element_range::<W, AOrd, OOrd>(bytes@, start as int, end as int), c),
        ).0 == Some(out) <==> <[u8] as SubByteIndex<usize, W, AOrd, OOrd>>::index_output(
            bytes,
            (start + c) as usize,
            out,
        )),
        c >= end - start ==> next_step(
            after_calls(element_range::<W, AOrd, OOrd>(bytes@, start as int, end as int), c),
        ).0 is None,
{
    W::lemma_width_is_byte_factor();
    lemma_slots(W::spec_width());
    let rest = element_range::<W, AOrd, OOrd>(bytes@, start as int, end as int);
    assert(element_count::<W>(bytes@.len() as int) == bytes@.len() * slots(W::spec_width()));
    lemma_after_calls(rest, c);
}

/// The masks that `select_slot` gives partition a byte: each has `W` bits set, the masks of two
/// different slots share no bit, the masks of all slots together cover the byte, and slot `k`
/// in [`Lsb`] order is slot `8 / W - 1 - k` in [`Msb`] order.
pub proof fn law_slot_masks<W: BitWidth, O: BitOrd<W>>(j: usize, k: usize)
    requires
        j < slots(W::spec_width()),
        k < slots(W::spec_width()),
    ensures
        count_ones8(slot_mask(W::spec_width(), O::spec_msb_first(), k as u8)) == W::spec_width(),
        j != k ==> slot_mask(W::spec_width(), O::spec_msb_first(), j as u8) & slot_mask(
            W::spec_width(),
            O::spec_msb_first(),
            k as u8,
        ) == 0,
        slots_union(W::spec_width(), O::spec_msb_first(), slots(W::spec_width()) as nat) == 0xffu8,
        slot_mask(W::spec_width(), <Lsb as BitOrd<W>>::spec_msb_first(), k as u8) == slot_mask(
            W::spec_width(),
            <Msb as BitOrd<W>>::spec_msb_first(),
            (slots(W::spec_width()) - 1 - k) as u8,
        ),
{
    let w = W::spec_width();
    W::lemma_width_is_byte_factor();
    lemma_slots(w);
    assert(8u8 / w == slots(w));
    lemma_slot_masks_partition(w, O::spec_msb_first(), j as u8, k as u8);
}

} // verus!
