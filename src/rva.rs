use vstd::prelude::*;

verus! {

/// A 32-bit offset from the start of the mapped image.
#[derive(Clone, Copy, Debug, PartialEq, Eq, Structural)]
pub struct Rva {
    pub value: u32,
}

impl Rva {
    /// The address that this offset names in an image mapped at `base`.
    pub fn resolve(&self, base: u64) -> (r: u64)
        requires
            base + self.value <= u64::MAX,
        ensures
            r == base + self.value,
    {
        resolve_raw(base, self.value as u64)
    }
}

/// The address `offset` bytes past `base`.
pub fn resolve_raw(base: u64, offset: u64) -> (r: u64)
    requires
        base + offset <= u64::MAX,
    ensures
        r == base + offset,
{
    base + offset
}

} // verus!
