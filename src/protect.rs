use vstd::prelude::*;

use crate::error::LoadError;
use crate::structs::{ImageSectionHeader, PeHeader, MEM_EXECUTE, MEM_READ, MEM_WRITE};

verus! {

/// Page protections that a mapped section can be given.
#[derive(Clone, Copy, Debug, PartialEq, Eq, Structural)]
pub enum Protection {
    NoAccess,
    WriteCopy,
    ReadOnly,
    ReadWrite,
    Execute,
    ExecuteWriteCopy,
    ExecuteRead,
    ExecuteReadWrite,
}

/// The protection for a section that is executable (`x`), readable (`r`) and writable (`w`).
pub open spec fn protection_of(x: bool, r: bool, w: bool) -> Protection {
    if !x {
        if !r {
            if !w {
                Protection::NoAccess
            } else {
                Protection::WriteCopy
            }
        } else if !w {
            Protection::ReadOnly
        } else {
            Protection::ReadWrite
        }
    } else if !r {
        if !w {
            Protection::Execute
        } else {
            Protection::ExecuteWriteCopy
        }
    } else if !w {
        Protection::ExecuteRead
    } else {
        Protection::ExecuteReadWrite
    }
}

/// The single-bit flag `bit` is set in `c`.
pub open spec fn has_flag(c: u32, bit: u32) -> bool {
    (c / bit) % 2 == 1
}

/// The protection that a section's characteristics ask for.
pub open spec fn section_protection(c: u32) -> Protection {
    protection_of(has_flag(c, MEM_EXECUTE), has_flag(c, MEM_READ), has_flag(c, MEM_WRITE))
}

/// Chooses the page protection from the execute, read and write bits of a section's
/// characteristics.
pub fn protection_for(characteristics: u32) -> (r: Protection)
    ensures
        r == section_protection(characteristics),
{
    let x = (characteristics / MEM_EXECUTE) % 2 == 1;
    let rd = (characteristics / MEM_READ) % 2 == 1;
    let w = (characteristics / MEM_WRITE) % 2 == 1;
    match (x, rd, w) {
        (false, false, false) => Protection::NoAccess,
        (false, false, true) => Protection::WriteCopy,
        (false, true, false) => Protection::ReadOnly,
        (false, true, true) => Protection::ReadWrite,
        (true, false, false) => Protection::Execute,
        (true, false, true) => Protection::ExecuteWriteCopy,
        (true, true, false) => Protection::ExecuteRead,
        (true, true, true) => Protection::ExecuteReadWrite,
    }
}

/// A range of the arena and the protection it is to get.
#[derive(Clone, Copy, Debug, PartialEq, Eq, Structural)]
pub struct ProtectRequest {
    pub offset: u32,
    pub length: u32,
    pub protection: Protection,
}

impl ProtectRequest {
    /// The error that reports a failure to apply this request.
    pub fn failure(&self) -> (r: LoadError)
        ensures
            r == LoadError::ProtectFailed(self.offset, self.length),
    {
        LoadError::ProtectFailed(self.offset, self.length)
    }
}

/// The request for one section, if it maps raw data.
pub open spec fn protect_request(s: ImageSectionHeader) -> Seq<ProtectRequest> {
    if s.virtual_address.value != 0 && s.size_of_raw_data != 0 {
        seq![
            ProtectRequest {
                offset: s.virtual_address.value,
                length: s.size_of_raw_data,
                protection: section_protection(s.characteristics),
            },
        ]
    } else {
        Seq::empty()
    }
}

/// The requests for `secs`, in section order.
pub open spec fn protect_plan(secs: Seq<ImageSectionHeader>) -> Seq<ProtectRequest>
    decreases secs.len(),
{
    if secs.len() == 0 {
        Seq::empty()
    } else {
        protect_plan(secs.drop_last()) + protect_request(secs.last())
    }
}

/// For each section with a nonzero virtual address and raw data, in order: its range in the
/// arena, over its raw-data size, and the protection its characteristics ask for.
pub fn section_protections(h: &PeHeader) -> (r: Vec<ProtectRequest>)
    ensures
        r@ == protect_plan(h.sections@),
{
    let mut out: Vec<ProtectRequest> = Vec::new();
    let mut i: usize = 0;
    while i < h.sections.len()
        invariant
            i <= h.sections@.len(),
            out@ == protect_plan(h.sections@.take(i as int)),
        decreases h.sections@.len() - i,
    {
        let s = h.sections[i];
        assert(h.sections@.take(i + 1).drop_last() =~= h.sections@.take(i as int));
        assert(h.sections@.take(i + 1).last() == s);
        if s.virtual_address.value != 0 && s.size_of_raw_data != 0 {
            out.push(
                ProtectRequest {
                    offset: s.virtual_address.value,
                    length: s.size_of_raw_data,
                    protection: protection_for(s.characteristics),
                },
            );
        }
        assert(out@ =~= protect_plan(h.sections@.take(i + 1)));
        i = i + 1;
    }
    assert(h.sections@.take(i as int) =~= h.sections@);
    out
}

/// The protection depends only on the execute, read and write bits: two characteristics
/// words that agree on the top three bits get the same protection.
pub proof fn lemma_protection_bits_only(c1: u32, c2: u32)
    requires
        c1 / MEM_EXECUTE == c2 / MEM_EXECUTE,
    ensures
        section_protection(c1) == section_protection(c2),
{
    vstd::arithmetic::div_mod::lemma_div_denominator(c1 as int, MEM_EXECUTE as int, 2);
    vstd::arithmetic::div_mod::lemma_div_denominator(c2 as int, MEM_EXECUTE as int, 2);
    vstd::arithmetic::div_mod::lemma_div_denominator(c1 as int, MEM_EXECUTE as int, 4);
    vstd::arithmetic::div_mod::lemma_div_denominator(c2 as int, MEM_EXECUTE as int, 4);
}

} // verus!
