//! Addressing core for bit-precise slices: a two-word handle for a bit
//! range over storage elements, the strategies that place a logical bit
//! index inside an element, and the values that cross a foreign boundary.

pub mod cursor;
pub mod element;
pub mod ffi;
pub mod pointer;

pub use crate::cursor::{Ascending, Cursor, Descending};
pub use crate::element::Bits;
pub use crate::ffi::{FfiCursor, Registry, Tristate};
pub use crate::pointer::{BitPtr, BitPtrError};
