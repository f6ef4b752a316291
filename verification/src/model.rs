use vstd::arithmetic::div_mod::{lemma_fundamental_div_mod, lemma_fundamental_div_mod_converse};
use vstd::prelude::*;
use vstd::std_specs::bits::{
    axiom_u8_leading_zeros, axiom_u8_trailing_zeros, u8_leading_zeros, u8_trailing_zeros,
};

verus! {

/// Whether `w` is a bit width that divides a byte evenly.
pub open spec fn is_byte_factor(w: u8) -> bool {
    w == 1 || w == 2 || w == 4 || w == 8
}

/// Whether slot `slot` of `w`-bit elements lies within a byte.
pub open spec fn is_slot(w: u8, slot: u8) -> bool {
    slot * w + w <= 8
}

/// A mask of the `w` least significant bits of a byte.
pub open spec fn low_bits(w: u8) -> u8 {
    0xffu8 >> ((8 - w) as u8)
}

/// The distance, in bits, from the least significant bit of a byte to the lowest bit of slot
/// `slot`. Slot `0` is the least significant slot when `msb_first` is false, and the most
/// significant one when it is true.
pub open spec fn slot_shift(w: u8, msb_first: bool, slot: u8) -> u8 {
    if msb_first {
        (8 - (slot + 1) * w) as u8
    } else {
        (slot * w) as u8
    }
}

/// A mask with the bits of slot `slot` set.
pub open spec fn slot_mask(w: u8, msb_first: bool, slot: u8) -> u8 {
    low_bits(w) << slot_shift(w, msb_first, slot)
}

/// The value (below `2^w`) held in slot `slot` of `byte`.
pub open spec fn get_slot(byte: u8, w: u8, msb_first: bool, slot: u8) -> u8 {
    (byte >> slot_shift(w, msb_first, slot)) & low_bits(w)
}

/// `byte` with slot `slot` replaced by the low `w` bits of `v`, every other bit kept.
pub open spec fn put_slot(byte: u8, w: u8, msb_first: bool, slot: u8, v: u8) -> u8 {
    (byte & !slot_mask(w, msb_first, slot)) | ((v & low_bits(w)) << slot_shift(w, msb_first, slot))
}

/// The element value `v` (below `2^w`) placed in slot `0` of an otherwise empty byte: at the
/// least significant bits when `msb_first` is false, at the most significant bits when true.
pub open spec fn align_out(v: u8, w: u8, msb_first: bool) -> u8 {
    v << slot_shift(w, msb_first, 0)
}

/// The element value carried by an input byte aligned to slot `0`; every other bit is dropped.
pub open spec fn align_in(x: u8, w: u8, msb_first: bool) -> u8 {
    get_slot(x, w, msb_first, 0)
}

/// `x` rotated left by `n` bits.
pub open spec fn rotl8(x: u8, n: u32) -> u8 {
    let s = (n % 8) as u8;
    if s == 0 {
        x
    } else {
        (x << s) | (x >> ((8 - s) as u8))
    }
}

/// `x` rotated right by `n` bits.
pub open spec fn rotr8(x: u8, n: u32) -> u8 {
    let s = (n % 8) as u8;
    if s == 0 {
        x
    } else {
        (x >> s) | (x << ((8 - s) as u8))
    }
}

/// The element sequence of a byte sequence: element `i` is held by slot `i % (8 / w)` of byte
/// `i / (8 / w)`.
pub open spec fn elements(bytes: Seq<u8>, w: u8, msb_first: bool) -> Seq<u8> {
    let n = 8int / (w as int);
    Seq::new(
        (bytes.len() * n) as nat,
        |i: int| get_slot(bytes[i / n], w, msb_first, (i % n) as u8),
    )
}

/// Writing a slot and reading a slot back: the written slot gives the low `w` bits of the
/// value written, every other slot is unchanged.
pub proof fn lemma_get_put_slot(byte: u8, w: u8, msb_first: bool, k: u8, j: u8, v: u8)
    requires
        is_byte_factor(w),
        is_slot(w, k),
        is_slot(w, j),
    ensures
        get_slot(put_slot(byte, w, msb_first, k, v), w, msb_first, j) == if j == k {
            v & low_bits(w)
        } else {
            get_slot(byte, w, msb_first, j)
        },
{
    assert(get_slot(put_slot(byte, w, msb_first, k, v), w, msb_first, j) == if j == k {
        v & low_bits(w)
    } else {
        get_slot(byte, w, msb_first, j)
    }) by (bit_vector)
        requires
            is_byte_factor(w),
            is_slot(w, k),
            is_slot(w, j),
    ;
}


/// `x` moved from slot `0` to slot `slot`: rotated left by `slot * w` bits when slot `0` is the
/// least significant slot, right when it is the most significant one.
pub open spec fn rotate_to_slot(x: u8, w: u8, msb_first: bool, slot: u8) -> u8 {
    if msb_first {
        rotr8(x, (slot * w) as u32)
    } else {
        rotl8(x, (slot * w) as u32)
    }
}

/// A slot mask is not zero, and its trailing and leading zeros are the bits below and above
/// the slot.
pub proof fn lemma_slot_mask_zeros(w: u8, msb_first: bool, k: u8)
    requires
        is_byte_factor(w),
        is_slot(w, k),
    ensures
        slot_mask(w, msb_first, k) != 0,
        u8_trailing_zeros(slot_mask(w, msb_first, k)) == slot_shift(w, msb_first, k),
        u8_leading_zeros(slot_mask(w, msb_first, k)) == 8 - slot_shift(w, msb_first, k) - w,
{
    let m = slot_mask(w, msb_first, k);
    let s = slot_shift(w, msb_first, k);
    assert(m != 0 && (m >> s) & 1 == 1 && (m >> ((s + w - 1) as u8)) & 1 == 1 && s + w <= 8)
        by (bit_vector)
        requires
            is_byte_factor(w),
            is_slot(w, k),
            m == slot_mask(w, msb_first, k),
            s == slot_shift(w, msb_first, k),
    ;
    axiom_u8_trailing_zeros(m);
    axiom_u8_leading_zeros(m);
    let t = u8_trailing_zeros(m) as u8;
    assert(t < s ==> (m >> t) & 1 == 0) by (bit_vector)
        requires
            is_byte_factor(w),
            is_slot(w, k),
            m == slot_mask(w, msb_first, k),
            s == slot_shift(w, msb_first, k),
    ;
    let l = u8_leading_zeros(m) as u8;
    assert(l < 8 - s - w ==> (m >> ((7 - l) as u8)) & 1 == 0) by (bit_vector)
        requires
            is_byte_factor(w),
            is_slot(w, k),
            m == slot_mask(w, msb_first, k),
            s == slot_shift(w, msb_first, k),
            l <= 8,
    ;
    if t > s {
        assert((m >> s) & 1u8 == 0u8);
    }
    if l > 8 - s - w {
        let j = (s + w - 1) as u8;
        assert(8 - l <= j < 8);
        assert((m >> j) & 1u8 == 0u8);
    }
}

/// Reading a slot through its mask: shifting the masked byte down by the slot's offset gives the
/// slot's value; shifting it up to the top gives that value at the most significant bits.
pub proof fn lemma_masked_slot(byte: u8, w: u8, msb_first: bool, k: u8)
    requires
        is_byte_factor(w),
        is_slot(w, k),
    ensures
        (byte & slot_mask(w, msb_first, k)) >> slot_shift(w, msb_first, k) == get_slot(
            byte,
            w,
            msb_first,
            k,
        ),
        (byte & slot_mask(w, msb_first, k)) << ((8 - slot_shift(w, msb_first, k) - w) as u8)
            == align_out(get_slot(byte, w, msb_first, k), w, true),
{
    assert((byte & slot_mask(w, msb_first, k)) >> slot_shift(w, msb_first, k) == get_slot(
        byte,
        w,
        msb_first,
        k,
    ) && (byte & slot_mask(w, msb_first, k)) << ((8 - slot_shift(w, msb_first, k) - w) as u8)
        == align_out(get_slot(byte, w, msb_first, k), w, true)) by (bit_vector)
        requires
            is_byte_factor(w),
            is_slot(w, k),
    ;
}

/// Rotating an element value from slot `0` to slot `k` shifts it to slot `k`'s offset.
pub proof fn lemma_rotate_to_slot(v: u8, w: u8, msb_first: bool, k: u8)
    requires
        is_byte_factor(w),
        is_slot(w, k),
        v & low_bits(w) == v,
    ensures
        rotate_to_slot(align_out(v, w, msb_first), w, msb_first, k) == v << slot_shift(
            w,
            msb_first,
            k,
        ),
{
    assert(rotate_to_slot(align_out(v, w, msb_first), w, msb_first, k) == v << slot_shift(
        w,
        msb_first,
        k,
    )) by (bit_vector)
        requires
            is_byte_factor(w),
            is_slot(w, k),
            v & low_bits(w) == v,
    ;
}

/// Rotation commutes with complement.
pub proof fn lemma_rotate_not(x: u8, w: u8, msb_first: bool, k: u8)
    requires
        is_byte_factor(w),
        is_slot(w, k),
    ensures
        rotate_to_slot(!x, w, msb_first, k) == !rotate_to_slot(x, w, msb_first, k),
{
    assert(rotate_to_slot(!x, w, msb_first, k) == !rotate_to_slot(x, w, msb_first, k))
        by (bit_vector)
        requires
            is_byte_factor(w),
            is_slot(w, k),
    ;
}

/// Facts on masks: the low bits mask selects exactly slot `0`'s value, slot values fit in the
/// low bits, and the slot mask is the low bits mask moved to the slot.
pub proof fn lemma_slot_basics(byte: u8, w: u8, msb_first: bool, k: u8)
    requires
        is_byte_factor(w),
        is_slot(w, k),
    ensures
        get_slot(byte, w, msb_first, k) & low_bits(w) == get_slot(byte, w, msb_first, k),
        low_bits(w) & low_bits(w) == low_bits(w),
        slot_mask(w, msb_first, 0) == align_out(low_bits(w), w, msb_first),
{
    assert(get_slot(byte, w, msb_first, k) & low_bits(w) == get_slot(byte, w, msb_first, k)
        && low_bits(w) & low_bits(w) == low_bits(w) && slot_mask(w, msb_first, 0) == align_out(
        low_bits(w),
        w,
        msb_first,
    )) by (bit_vector)
        requires
            is_byte_factor(w),
            is_slot(w, k),
    ;
}


/// The number of slots in a byte of `w`-bit elements.
pub open spec fn slots(w: u8) -> int {
    8int / (w as int)
}

/// A byte factor gives one of the four slot counts, and `slots(w) * w == 8`.
pub proof fn lemma_slots(w: u8)
    requires
        is_byte_factor(w),
    ensures
        slots(w) == 8 || slots(w) == 4 || slots(w) == 2 || slots(w) == 1,
        slots(w) * w == 8,
        forall|k: u8| k < slots(w) <==> #[trigger] is_slot(w, k),
{
}

/// Element `b * slots(w) + k` is slot `k` of byte `b`.
pub proof fn lemma_elements_index(bytes: Seq<u8>, w: u8, msb_first: bool, b: int, k: u8)
    requires
        is_byte_factor(w),
        0 <= b < bytes.len(),
        is_slot(w, k),
    ensures
        elements(bytes, w, msb_first).len() == bytes.len() * slots(w),
        0 <= b * slots(w) + k < bytes.len() * slots(w),
        elements(bytes, w, msb_first)[b * slots(w) + k] == get_slot(bytes[b], w, msb_first, k),
{
    lemma_slots(w);
    let n = slots(w);
    let i = b * n + k;
    assert(i < bytes.len() * n) by (nonlinear_arith)
        requires
            0 <= b < bytes.len(),
            0 <= k < n,
            i == b * n + k,
    ;
    lemma_fundamental_div_mod_converse(i, n, b, k as int);
}

/// The elements of a run of whole bytes are the matching run of elements.
pub proof fn lemma_elements_subrange(bytes: Seq<u8>, w: u8, msb_first: bool, a: int, c: int)
    requires
        is_byte_factor(w),
        0 <= a <= c <= bytes.len(),
    ensures
        elements(bytes.subrange(a, c), w, msb_first) == elements(bytes, w, msb_first).subrange(
            a * slots(w),
            c * slots(w),
        ),
{
    lemma_slots(w);
    let n = slots(w);
    let sub = bytes.subrange(a, c);
    let lhs = elements(sub, w, msb_first);
    let rhs = elements(bytes, w, msb_first).subrange(a * n, c * n);
    assert(c * n - a * n == (c - a) * n) by (nonlinear_arith);
    assert(a * n <= c * n <= bytes.len() * n) by (nonlinear_arith)
        requires
            0 <= a <= c <= bytes.len(),
            n > 0,
    ;
    assert forall|j: int| 0 <= j < lhs.len() implies lhs[j] == rhs[j] by {
        let q = j / n;
        let r = j % n;
        lemma_fundamental_div_mod(j, n);
        assert(0 <= q < c - a) by (nonlinear_arith)
            requires
                0 <= j < (c - a) * n,
                q == j / n,
                n > 0,
        ;
        assert(is_slot(w, r as u8));
        lemma_elements_index(sub, w, msb_first, q, r as u8);
        lemma_elements_index(bytes, w, msb_first, a + q, r as u8);
        assert(q * n + r == j);
        assert((a + q) * n + r == a * n + j) by (nonlinear_arith)
            requires
                q * n + r == j,
        ;
    }
    assert(lhs =~= rhs);
}

/// Writing slot `k` of byte `b` writes element `b * slots(w) + k` and no other.
pub proof fn lemma_elements_put(bytes: Seq<u8>, w: u8, msb_first: bool, b: int, k: u8, v: u8)
    requires
        is_byte_factor(w),
        0 <= b < bytes.len(),
        is_slot(w, k),
    ensures
        elements(bytes.update(b, put_slot(bytes[b], w, msb_first, k, v)), w, msb_first)
            == elements(bytes, w, msb_first).update(b * slots(w) + k, v & low_bits(w)),
{
    lemma_slots(w);
    let n = slots(w);
    let new_bytes = bytes.update(b, put_slot(bytes[b], w, msb_first, k, v));
    let lhs = elements(new_bytes, w, msb_first);
    let rhs = elements(bytes, w, msb_first).update(b * n + k, v & low_bits(w));
    lemma_elements_index(bytes, w, msb_first, b, k);
    assert forall|j: int| 0 <= j < lhs.len() implies lhs[j] == rhs[j] by {
        let q = j / n;
        let r = j % n;
        lemma_fundamental_div_mod(j, n);
        assert(0 <= q < bytes.len()) by (nonlinear_arith)
            requires
                0 <= j < bytes.len() * n,
                q == j / n,
                n > 0,
        ;
        lemma_elements_index(new_bytes, w, msb_first, q, r as u8);
        lemma_elements_index(bytes, w, msb_first, q, r as u8);
        lemma_get_put_slot(bytes[b], w, msb_first, k, r as u8, v);
        if q == b && r != k {
            assert(j != b * n + k);
        }
        if q != b {
            assert(j != b * n + k) by {
                lemma_fundamental_div_mod_converse(b * n + k, n, b, k as int);
            }
        }
    }
    assert(lhs =~= rhs);
}


/// What reading slot `k` through its mask gives: shifting the masked byte by the mask's trailing
/// zeros (least significant output) or leading zeros (most significant output) yields the
/// slot's value aligned to the output's slot `0`.
pub proof fn lemma_read_slot(byte: u8, w: u8, msb_first: bool, out_msb_first: bool, k: u8)
    requires
        is_byte_factor(w),
        is_slot(w, k),
    ensures
        slot_mask(w, msb_first, k) != 0,
        (if out_msb_first {
            (byte & slot_mask(w, msb_first, k)) << u8_leading_zeros(slot_mask(w, msb_first, k))
        } else {
            (byte & slot_mask(w, msb_first, k)) >> u8_trailing_zeros(slot_mask(w, msb_first, k))
        }) == align_out(get_slot(byte, w, msb_first, k), w, out_msb_first),
{
    lemma_slot_mask_zeros(w, msb_first, k);
    lemma_masked_slot(byte, w, msb_first, k);
    let v = get_slot(byte, w, msb_first, k);
    assert(v << 0u8 == v) by (bit_vector);
}

/// What writing an input byte into slot `k` through the slot masks gives: the slot takes the
/// input's element value, every other bit of the byte is kept.
pub proof fn lemma_write_slot(byte: u8, input: u8, w: u8, msb_first: bool, in_msb_first: bool, k: u8)
    requires
        is_byte_factor(w),
        is_slot(w, k),
    ensures
        slot_mask(w, in_msb_first, 0) != 0,
        (byte & !slot_mask(w, msb_first, k)) | rotate_to_slot(
            if msb_first {
                (input & slot_mask(w, in_msb_first, 0)) << u8_leading_zeros(
                    slot_mask(w, in_msb_first, 0),
                )
            } else {
                (input & slot_mask(w, in_msb_first, 0)) >> u8_trailing_zeros(
                    slot_mask(w, in_msb_first, 0),
                )
            },
            w,
            msb_first,
            k,
        ) == put_slot(byte, w, msb_first, k, align_in(input, w, in_msb_first)),
{
    assert(is_slot(w, 0));
    lemma_read_slot(input, w, in_msb_first, msb_first, 0);
    let v = align_in(input, w, in_msb_first);
    lemma_slot_basics(input, w, in_msb_first, 0);
    lemma_rotate_to_slot(v, w, msb_first, k);
}


/// Byte-level facts behind the laws: an element value survives being placed in slot `0` and
/// read back; writing a slot's own value keeps the byte; the two slot orders mirror each other;
/// a value placed in slot `0` lies within slot `0`'s mask; and reading slot `0` looks only at
/// the bits under that mask.
pub proof fn lemma_slot_laws(byte: u8, v: u8, w: u8, msb_first: bool, k: u8)
    requires
        is_byte_factor(w),
        is_slot(w, k),
    ensures
        v & low_bits(w) == v ==> align_in(align_out(v, w, msb_first), w, msb_first) == v,
        put_slot(byte, w, msb_first, k, get_slot(byte, w, msb_first, k)) == byte,
        get_slot(byte, w, true, k) == get_slot(byte, w, false, ((8u8 / w) - 1 - k) as u8),
        v & low_bits(w) == v ==> align_out(v, w, msb_first) & slot_mask(w, msb_first, 0)
            == align_out(v, w, msb_first),
        align_in(byte & slot_mask(w, msb_first, 0), w, msb_first) == align_in(byte, w, msb_first),
{
    assert((v & low_bits(w) == v ==> align_in(align_out(v, w, msb_first), w, msb_first) == v)
        && put_slot(byte, w, msb_first, k, get_slot(byte, w, msb_first, k)) == byte)
        by (bit_vector)
        requires
            is_byte_factor(w),
            is_slot(w, k),
    ;
    assert(get_slot(byte, w, true, k) == get_slot(byte, w, false, ((8u8 / w) - 1 - k) as u8))
        by (bit_vector)
        requires
            is_byte_factor(w),
            is_slot(w, k),
    ;
    assert((v & low_bits(w) == v ==> align_out(v, w, msb_first) & slot_mask(w, msb_first, 0)
        == align_out(v, w, msb_first)) && align_in(byte & slot_mask(w, msb_first, 0), w, msb_first) == align_in(
        byte,
        w,
        msb_first,
    )) by (bit_vector)
        requires
            is_byte_factor(w),
    ;
}


/// A byte is determined by the values of its slots.
pub proof fn lemma_byte_from_slots(b1: u8, b2: u8, w: u8, msb_first: bool)
    requires
        is_byte_factor(w),
        forall|j: u8| #[trigger]
            is_slot(w, j) ==> get_slot(b1, w, msb_first, j) == get_slot(b2, w, msb_first, j),
    ensures
        b1 == b2,
{
    if w == 8 {
        assert(is_slot(w, 0));
        assert(get_slot(b1, 8, msb_first, 0) == get_slot(b2, 8, msb_first, 0) ==> b1 == b2)
            by (bit_vector);
    } else if w == 4 {
        assert(is_slot(w, 0) && is_slot(w, 1));
        assert(get_slot(b1, 4, msb_first, 0) == get_slot(b2, 4, msb_first, 0) && get_slot(
            b1,
            4,
            msb_first,
            1,
        ) == get_slot(b2, 4, msb_first, 1) ==> b1 == b2) by (bit_vector);
    } else if w == 2 {
        assert(is_slot(w, 0) && is_slot(w, 1) && is_slot(w, 2) && is_slot(w, 3));
        assert(get_slot(b1, 2, msb_first, 0) == get_slot(b2, 2, msb_first, 0) && get_slot(
            b1,
            2,
            msb_first,
            1,
        ) == get_slot(b2, 2, msb_first, 1) && get_slot(b1, 2, msb_first, 2) == get_slot(
            b2,
            2,
            msb_first,
            2,
        ) && get_slot(b1, 2, msb_first, 3) == get_slot(b2, 2, msb_first, 3) ==> b1 == b2)
            by (bit_vector);
    } else {
        assert(is_slot(w, 0) && is_slot(w, 1) && is_slot(w, 2) && is_slot(w, 3) && is_slot(w, 4)
            && is_slot(w, 5) && is_slot(w, 6) && is_slot(w, 7));
        assert(get_slot(b1, 1, msb_first, 0) == get_slot(b2, 1, msb_first, 0) && get_slot(
            b1,
            1,
            msb_first,
            1,
        ) == get_slot(b2, 1, msb_first, 1) && get_slot(b1, 1, msb_first, 2) == get_slot(
            b2,
            1,
            msb_first,
            2,
        ) && get_slot(b1, 1, msb_first, 3) == get_slot(b2, 1, msb_first, 3) && get_slot(
            b1,
            1,
            msb_first,
            4,
        ) == get_slot(b2, 1, msb_first, 4) && get_slot(b1, 1, msb_first, 5) == get_slot(
            b2,
            1,
            msb_first,
            5,
        ) && get_slot(b1, 1, msb_first, 6) == get_slot(b2, 1, msb_first, 6) && get_slot(
            b1,
            1,
            msb_first,
            7,
        ) == get_slot(b2, 1, msb_first, 7) ==> b1 == b2) by (bit_vector);
    }
}

/// Byte sequences of one length with the same elements are the same.
pub proof fn lemma_elements_injective(s1: Seq<u8>, s2: Seq<u8>, w: u8, msb_first: bool)
    requires
        is_byte_factor(w),
        s1.len() == s2.len(),
        elements(s1, w, msb_first) == elements(s2, w, msb_first),
    ensures
        s1 == s2,
{
    assert forall|b: int| 0 <= b < s1.len() implies s1[b] == s2[b] by {
        assert forall|j: u8| #[trigger] is_slot(w, j) implies get_slot(s1[b], w, msb_first, j)
            == get_slot(s2[b], w, msb_first, j) by {
            lemma_elements_index(s1, w, msb_first, b, j);
            lemma_elements_index(s2, w, msb_first, b, j);
        }
        lemma_byte_from_slots(s1[b], s2[b], w, msb_first);
    }
    assert(s1 =~= s2);
}


/// The number of bits set in `x`.
pub open spec fn count_ones8(x: u8) -> int {
    (x & 1) + ((x >> 1u8) & 1) + ((x >> 2u8) & 1) + ((x >> 3u8) & 1) + ((x >> 4u8) & 1) + ((x
        >> 5u8) & 1) + ((x >> 6u8) & 1) + ((x >> 7u8) & 1)
}

/// The union of the masks of slots `0..c`.
pub open spec fn slots_union(w: u8, msb_first: bool, c: nat) -> u8
    decreases c,
{
    if c == 0 {
        0
    } else {
        slots_union(w, msb_first, (c - 1) as nat) | slot_mask(w, msb_first, (c - 1) as u8)
    }
}

/// The slot masks partition a byte: each has `w` bits set, two different slots share no bit,
/// the slots together cover the byte, and slot `k` in least significant first order is slot
/// `8 / w - 1 - k` in most significant first order.
pub proof fn lemma_slot_masks_partition(w: u8, msb_first: bool, j: u8, k: u8)
    requires
        is_byte_factor(w),
        is_slot(w, j),
        is_slot(w, k),
    ensures
        count_ones8(slot_mask(w, msb_first, k)) == w,
        j != k ==> slot_mask(w, msb_first, j) & slot_mask(w, msb_first, k) == 0,
        slots_union(w, msb_first, slots(w) as nat) == 0xffu8,
        slot_mask(w, false, k) == slot_mask(w, true, ((8u8 / w) - 1 - k) as u8),
{
    assert(count_ones8(slot_mask(w, msb_first, k)) == w) by (bit_vector)
        requires
            is_byte_factor(w),
            is_slot(w, k),
    ;
    assert(j != k ==> slot_mask(w, msb_first, j) & slot_mask(w, msb_first, k) == 0)
        by (bit_vector)
        requires
            is_byte_factor(w),
            is_slot(w, j),
            is_slot(w, k),
    ;
    assert(slot_mask(w, false, k) == slot_mask(w, true, ((8u8 / w) - 1 - k) as u8))
        by (bit_vector)
        requires
            is_byte_factor(w),
            is_slot(w, k),
    ;
    reveal_with_fuel(slots_union, 9);
    let m = msb_first;
    if w == 8 {
        assert(slots_union(8, m, 1) == 0u8 | slot_mask(8, m, 0));
        assert(0u8 | slot_mask(8, m, 0) == 0xffu8) by (bit_vector);
    } else if w == 4 {
        assert(slots_union(4, m, 2) == (0u8 | slot_mask(4, m, 0)) | slot_mask(4, m, 1));
        assert((0u8 | slot_mask(4, m, 0)) | slot_mask(4, m, 1) == 0xffu8) by (bit_vector);
    } else if w == 2 {
        assert(slots_union(2, m, 4) == (((0u8 | slot_mask(2, m, 0)) | slot_mask(2, m, 1))
            | slot_mask(2, m, 2)) | slot_mask(2, m, 3));
        assert((((0u8 | slot_mask(2, m, 0)) | slot_mask(2, m, 1)) | slot_mask(2, m, 2))
            | slot_mask(2, m, 3) == 0xffu8) by (bit_vector);
    } else {
        assert(slots_union(1, m, 8) == (((((((0u8 | slot_mask(1, m, 0)) | slot_mask(1, m, 1))
            | slot_mask(1, m, 2)) | slot_mask(1, m, 3)) | slot_mask(1, m, 4)) | slot_mask(1, m, 5))
            | slot_mask(1, m, 6)) | slot_mask(1, m, 7));
        assert((((((((0u8 | slot_mask(1, m, 0)) | slot_mask(1, m, 1)) | slot_mask(1, m, 2))
            | slot_mask(1, m, 3)) | slot_mask(1, m, 4)) | slot_mask(1, m, 5)) | slot_mask(1, m, 6))
            | slot_mask(1, m, 7) == 0xffu8) by (bit_vector);
    }
}

} // verus!
