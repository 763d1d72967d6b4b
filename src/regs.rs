//! The register file.
use vstd::prelude::*;

verus! {

/// The number of general-purpose registers.
pub const REGISTER_COUNT: usize = 60;

/// A fixed array of 64-bit registers, addressed by index.
#[derive(Debug, Clone, Copy)]
pub struct Registers {
    pub data: [u64; REGISTER_COUNT],
}

impl Registers {
    /// All registers zero.
    pub fn new() -> (r: Registers)
        ensures
            r.data@ == Seq::new(REGISTER_COUNT as nat, |i: int| 0u64),
    {
        let r = Registers { data: [0u64; REGISTER_COUNT] };
        assert(r.data@ =~= Seq::new(REGISTER_COUNT as nat, |i: int| 0u64));
        r
    }

    /// The value of register `index`.
    pub fn index(&self, index: usize) -> (r: u64)
        requires
            index < REGISTER_COUNT,
        ensures
            r == self.data@[index as int],
    {
        self.data[index]
    }

    /// Sets register `index` to `value`.
    pub fn set(&mut self, index: usize, value: u64)
        requires
            index < REGISTER_COUNT,
        ensures
            final(self).data@ == old(self).data@.update(index as int, value),
    {
        self.data[index] = value;
    }
}

impl Default for Registers {
    fn default() -> (r: Self)
        ensures
            r.data@ == Seq::new(REGISTER_COUNT as nat, |i: int| 0u64),
    {
        Self::new()
    }
}

} // verus!
