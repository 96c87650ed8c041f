//! Backing storage: a fixed row of byte slots that can be read and written by index.

use vstd::prelude::*;

verus! {

/// A fixed-length row of bytes, addressed slot by slot.
///
/// The ring buffer is generic over this trait, so the caller decides where the
/// bytes live. An implementation never changes its length: `set` replaces one
/// slot and `get` replaces none.
pub trait ByteArray {
    /// The bytes held, slot by slot.
    spec fn slots(&self) -> Seq<u8>;

    /// Returns the byte in slot `index` and leaves every slot as it was.
    fn get(&mut self, index: usize) -> (value: u8)
        requires
            index < old(self).slots().len(),
        ensures
            value == old(self).slots()[index as int],
            final(self).slots() == old(self).slots(),
    ;

    /// Stores `value` in slot `index` and leaves the other slots as they were.
    fn set(&mut self, index: usize, value: u8)
        requires
            index < old(self).slots().len(),
        ensures
            final(self).slots() == old(self).slots().update(index as int, value),
    ;
}

/// Every byte array is a row of slots, whatever its length.
impl<const N: usize> ByteArray for [u8; N] {
    open spec fn slots(&self) -> Seq<u8> {
        self@
    }

    fn get(&mut self, index: usize) -> (value: u8) {
        self[index]
    }

    fn set(&mut self, index: usize, value: u8) {
        self[index] = value;
    }
}

} // verus!
