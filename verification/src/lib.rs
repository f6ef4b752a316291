//! Bitfield array/vector indexing, mutation and alignment.
pub mod laws;
pub mod model;

mod index;
mod index_mut;
mod iter;
mod ord;
mod width;

pub use index::SubByteIndex;
pub use index_mut::{iter_map, SubByteIndexMut};
pub use iter::SubByteIter;
pub use ord::{BitOrd, Lsb, Msb};
pub use width::{BitWidth, W2, W4};
