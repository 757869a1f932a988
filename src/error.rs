use vstd::prelude::*;

use crate::structs::RelocationType;

verus! {

/// Why a load stopped.
#[derive(Clone, Debug, PartialEq, Eq)]
pub enum LoadError {
    /// The host could not allocate the arena.
    OutOfMemory,
    /// A base-relocation record carried a tag other than absolute, high-low or dir64.
    UnsupportedRelocationType(RelocationType),
    /// The host could not load the named module, or could not resolve one of its imports.
    LoadModuleFailed(Vec<u8>),
    /// Changing the protection of the range at this offset and of this length failed.
    ProtectFailed(u32, u32),
    /// An offset or size read from the image points outside the buffer or the arena.
    Malformed,
}

} // verus!
