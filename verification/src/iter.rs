use std::marker::PhantomData;
use vstd::prelude::*;
use vstd::slice::slice_subrange;

use crate::model::{
    align_out, elements, lemma_elements_index, lemma_elements_subrange, lemma_read_slot,
    lemma_slots, slots,
};
use crate::ord::{lemma_slot_index, BitOrd};
use crate::width::BitWidth;

verus! {

/// The values, aligned to `OOrd`, of elements `start..end` of `bytes` read as `W`-bit elements
/// in `AOrd` order.
pub open spec fn element_range<W: BitWidth, AOrd: BitOrd<W>, OOrd: BitOrd<W>>(
    bytes: Seq<u8>,
    start: int,
    end: int,
) -> Seq<u8> {
    elements(bytes, W::spec_width(), AOrd::spec_msb_first()).subrange(start, end).map_values(
        |v: u8| align_out(v, W::spec_width(), OOrd::spec_msb_first()),
    )
}

/// Whether `start..end` is a range of elements of `len` bytes: `start <= end` and `end` is at
/// most the number of elements. An empty range may start anywhere up to that number.
pub open spec fn iter_range_ok<W: BitWidth>(len: int, start: int, end: int) -> bool {
    0 <= start <= end <= len * slots(W::spec_width())
}

/// One call of `next` on an iterator whose remaining values are `rest`: the first value and the
/// values after it, or `None` and `rest` unchanged once nothing remains.
pub open spec fn next_step(rest: Seq<u8>) -> (Option<u8>, Seq<u8>) {
    if rest.len() == 0 {
        (None, rest)
    } else {
        (Some(rest[0]), rest.drop_first())
    }
}

/// Immutable subbyte range iterator.
pub struct SubByteIter<'a, W, AOrd, OOrd> {
    /// The byte slice range.
    slice: &'a [u8],
    /// The current byte (The first element of the byte slice range).
    byte: u8,
    /// The byte slot index for the current byte.
    slot_idx: usize,
    /// The number of elements to return.
    len: usize,
    /// The [`BitWidth`].
    _width: PhantomData<W>,
    /// The [`BitOrd`] alignment of the array and resulting type (`AOrd` and `OOrd` respectively).
    _bitord: PhantomData<(AOrd, OOrd)>,
}

impl<'a, W: BitWidth, AOrd: BitOrd<W>, OOrd: BitOrd<W>> View for SubByteIter<'a, W, AOrd, OOrd> {
    type V = Seq<u8>;

    /// The values still to be returned, in order.
    closed spec fn view(&self) -> Seq<u8> {
        element_range::<W, AOrd, OOrd>(
            self.slice@,
            self.slot_idx as int,
            self.slot_idx + self.len,
        )
    }
}

impl<'a, W: BitWidth, AOrd: BitOrd<W>, OOrd: BitOrd<W>> SubByteIter<'a, W, AOrd, OOrd> {
    /// The iterator's internal invariant: the current byte is the first of the byte range, and
    /// that range holds the remaining elements from the current slot on.
    pub closed spec fn wf(&self) -> bool {
        let n = slots(W::spec_width());
        &&& self.slice@.len() >= 1 ==> self.byte == self.slice@[0]
        &&& self.slot_idx <= n
        &&& self.slot_idx + self.len <= self.slice@.len() * n
    }

    /// An iterator over the elements `start..end` of `slice`.
    pub fn new(slice: &'a [u8], start: usize, end: usize) -> (it: Self)
        requires
            iter_range_ok::<W>(slice@.len() as int, start as int, end as int),
        ensures
            it.wf(),
            it@ == element_range::<W, AOrd, OOrd>(slice@, start as int, end as int),
    {
        let n = W::n_slots();
        let ghost ni = n as int;
        let ghost s = start as int;
        let ghost e = end as int;
        let ghost len = slice@.len() as int;
        proof {
            W::lemma_width_is_byte_factor();
            lemma_slots(W::spec_width());
        }
        if start == end {
            let it = Self {
                slice: slice_subrange(slice, 0, 0),
                byte: 0,
                slot_idx: 0,
                len: 0,
                _width: PhantomData,
                _bitord: PhantomData,
            };
            assert(it@ =~= element_range::<W, AOrd, OOrd>(slice@, s, e));
            return it;
        }
        proof {
            vstd::arithmetic::div_mod::lemma_div_is_ordered(s, e - 1, ni);
            vstd::arithmetic::div_mod::lemma_fundamental_div_mod(s, ni);
            vstd::arithmetic::div_mod::lemma_fundamental_div_mod(e - 1, ni);
            assert((e - 1) / ni < len) by (nonlinear_arith)
                requires
                    1 <= e <= len * ni,
                    ni > 0,
            ;
        }
        let first = start / n;
        let last = (end - 1) / n + 1;
        let bytes = slice_subrange(slice, first, last);
        let byte = bytes[0];
        let slot_idx = start % n;
        let it = Self {
            slice: bytes,
            byte,
            slot_idx,
            len: end - start,
            _width: PhantomData,
            _bitord: PhantomData,
        };
        proof {
            let w = W::spec_width();
            let msb = AOrd::spec_msb_first();
            let f = first as int;
            let l = last as int;
            assert(e <= l * ni) by (nonlinear_arith)
                requires
                    e - 1 == ni * ((e - 1) / ni) + (e - 1) % ni,
                    (e - 1) % ni < ni,
                    l == (e - 1) / ni + 1,
            ;
            assert(f * ni <= s) by (nonlinear_arith)
                requires
                    s == ni * (s / ni) + s % ni,
                    s % ni >= 0,
                    f == s / ni,
            ;
            assert(l * ni - f * ni == (l - f) * ni) by (nonlinear_arith);
            assert(slot_idx == s - f * ni) by (nonlinear_arith)
                requires
                    s == ni * (s / ni) + s % ni,
                    f == s / ni,
                    slot_idx == s % ni,
            ;
            assert(slot_idx + (end - start) <= bytes@.len() * ni);
            lemma_elements_subrange(slice@, w, msb, f, l);
            assert(l * ni <= len * ni) by (nonlinear_arith)
                requires
                    l <= len,
                    ni > 0,
            ;
            assert(elements(bytes@, w, msb).subrange(slot_idx as int, slot_idx + (e - s))
                =~= elements(slice@, w, msb).subrange(s, e));
            assert(it@ =~= element_range::<W, AOrd, OOrd>(slice@, s, e));
        }
        it
    }

    /// Return the next element, aligned to `OOrd`, or `None` once the range is exhausted.
    pub fn next(&mut self) -> (r: Option<u8>)
        requires
            old(self).wf(),
        ensures
            final(self).wf(),
            (r, final(self)@) == next_step(old(self)@),
            old(self)@.len() == 0 ==> r is None && final(self)@ == old(self)@,
            old(self)@.len() > 0 ==> r == Some(old(self)@[0]) && final(self)@ == old(
                self,
            )@.drop_first(),
    {
        let ghost w = W::spec_width();
        let ghost msb = AOrd::spec_msb_first();
        proof {
            W::lemma_width_is_byte_factor();
            lemma_slots(w);
        }
        if self.len > 0 {
            let n = W::n_slots();
            assert(self.slice@.len() >= 1) by (nonlinear_arith)
                requires
                    self.len > 0,
                    self.slot_idx + self.len <= self.slice@.len() * n,
            ;
            if self.slot_idx >= n {
                let ghost old_bytes = self.slice@;
                assert(old_bytes.len() >= 2) by (nonlinear_arith)
                    requires
                        self.slot_idx >= n,
                        self.len > 0,
                        self.slot_idx + self.len <= old_bytes.len() * n,
                        n > 0,
                ;
                self.slot_idx = self.slot_idx % n;
                self.slice = slice_subrange(self.slice, 1, self.slice.len());
                self.byte = self.slice[0];
                proof {
                    lemma_elements_subrange(old_bytes, w, msb, 1, old_bytes.len() as int);
                    assert(self.slot_idx == 0) by {
                        vstd::arithmetic::div_mod::lemma_mod_self_0(n as int);
                    }
                    assert(elements(self.slice@, w, msb).subrange(0, self.len as int)
                        =~= elements(old_bytes, w, msb).subrange(n as int, n + self.len));
                    assert(self@ =~= old(self)@);
                }
            }
            let ghost before = self@;
            proof {
                lemma_slot_index::<W>(self.slot_idx);
                lemma_elements_index(self.slice@, w, msb, 0, self.slot_idx as u8);
                lemma_read_slot(self.byte, w, msb, OOrd::spec_msb_first(), self.slot_idx as u8);
            }
            let slot_mask = AOrd::select_slot(self.slot_idx);
            let mask = OOrd::slot_to_bound(slot_mask, self.byte & slot_mask);
            self.len -= 1;
            self.slot_idx += 1;
            proof {
                assert(self@ =~= before.drop_first());
            }
            return Some(mask);
        }
        None
    }

    /// Collect the remaining elements, in order.
    pub fn to_vec(self) -> (v: Vec<u8>)
        requires
            self.wf(),
        ensures
            v@ == self@,
    {
        let ghost all = self@;
        let mut it = self;
        let mut v: Vec<u8> = Vec::new();
        loop
            invariant
                it.wf(),
                v@ + it@ == all,
            ensures
                v@ == all,
            decreases it@.len(),
        {
            let ghost rest = it@;
            match it.next() {
                Some(x) => {
                    v.push(x);
                    assert(v@ + it@ =~= all) by {
                        assert(v@ + it@ =~= v@.drop_last() + rest);
                    }
                },
                None => {
                    assert(v@ =~= all);
                    break ;
                },
            }
        }
        v
    }
}

} // verus!
