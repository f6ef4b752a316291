# subbyte_index

Bitfield array indexing, mutation and alignment on `[u8]` slices, verified with Verus.

A byte slice is read as a sequence of elements of `W` bits (`W` divides 8; `W2` and `W4` are
provided). Slot `0` of a byte is its least significant slot for `Lsb` order and its most
significant slot for `Msb` order. Values read are aligned to the output order's slot `0`;
values written are taken from the input order's slot `0`.

Layout of `src/`:

- `model.rs`: the mathematical model (`elements` of a byte sequence, slot values, alignment)
  and the bit-level lemmas behind every proof.
- `width.rs`, `ord.rs`: the `BitWidth` and `BitOrd` traits and their implementations.
- `iter.rs`: `SubByteIter`, an iterator over a range of elements.
- `index.rs`, `index_mut.rs`: the `SubByteIndex` and `SubByteIndexMut` traits on `[u8]` for
  `usize` and range indices, and `iter_map`, which writes a range of elements. Any range with
  `start <= end <= element count` is accepted; an empty one reads nothing and writes nothing.
- `laws.rs`: properties that relate the operations (read after write, write back of a read,
  range and single reads agree, whole-range forms agree, the two slot orders mirror each
  other, alignment of outputs, truncation of inputs, the element view determines the bytes,
  what `next` returns after any number of calls, the slot masks partition a byte).

The bit width and the orders are type parameters of the indexing traits, so a call names them
in the trait path:

```rust
use subbyte_index::{Lsb, Msb, SubByteIndex, W2};

let array_w2 = [0b_00_01_10_11, 0b_11_10_01_00];
assert_eq!(<[u8] as SubByteIndex<usize, W2, Msb, Msb>>::subbyte_index(&array_w2, 1), 0b_01_000000);
```
