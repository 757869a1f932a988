use vstd::prelude::*;

use crate::arena::Arena;
use crate::bytes::{
    fits, le_u16, le_u32, le_u64, put_u32, put_u64, read_u16, read_u32, read_u64, write_u32,
    write_u64,
};
use crate::error::LoadError;
use crate::rva::Rva;
use crate::structs::{
    DirectoryEntry, PeHeader, RelocationType, NUM_DATA_ENTRIES, RELOCATE_ABSOLUTE,
    RELOCATE_DIR64, RELOCATE_HIGH_LOW,
};

verus! {

pub const BLOCK_HEADER_SIZE: usize = 8;

/// Number of 16-bit records in a block of `size` bytes.
pub open spec fn record_count(size: int) -> int {
    (size - BLOCK_HEADER_SIZE) / 2
}

/// Bytes from the start of the block at `pos` to the start of the next one.
pub open spec fn block_len(img: Seq<u8>, pos: int) -> int {
    BLOCK_HEADER_SIZE + 2 * record_count(le_u32(img, pos + 4))
}

/// The block header at `pos` is the all-zero one that ends the chain.
pub open spec fn is_terminator(img: Seq<u8>, pos: int) -> bool {
    le_u32(img, pos) == 0 && le_u32(img, pos + 4) == 0
}

/// A whole block, header and records, lies inside `img` at `pos`.
pub open spec fn block_ok(img: Seq<u8>, pos: int) -> bool {
    &&& fits(img, pos, BLOCK_HEADER_SIZE as int)
    &&& le_u32(img, pos + 4) >= BLOCK_HEADER_SIZE
    &&& fits(img, pos, block_len(img, pos))
}

/// The records of the block at `pos`.
pub open spec fn block_records(img: Seq<u8>, pos: int) -> Seq<u16> {
    Seq::new(
        record_count(le_u32(img, pos + 4)) as nat,
        |k: int| le_u16(img, pos + BLOCK_HEADER_SIZE + 2 * k) as u16,
    )
}

/// The offsets of the blocks of the chain that starts at `pos`, up to the all-zero header;
/// `None` when the chain runs out of `img` first.
pub open spec fn reloc_chain(img: Seq<u8>, pos: int) -> Option<Seq<int>>
    decreases img.len() - pos,
{
    if !block_ok(img, pos) {
        None
    } else {
        let next = pos + block_len(img, pos);
        if !fits(img, next, BLOCK_HEADER_SIZE as int) {
            None
        } else if is_terminator(img, next) {
            Some(seq![pos])
        } else {
            match reloc_chain(img, next) {
                Some(rest) => Some(seq![pos] + rest),
                None => None,
            }
        }
    }
}

/// The blocks of the base-relocation directory at `at`: the chain read from its first
/// block up to the all-zero header.
pub open spec fn relocation_blocks(img: Seq<u8>, at: int) -> Option<Seq<int>> {
    reloc_chain(img, at)
}

/// `actual - preferred`, modulo 2^64.
pub open spec fn delta_of(actual: u64, preferred: u64) -> u64 {
    if actual >= preferred {
        (actual - preferred) as u64
    } else {
        (actual - preferred + 0x1_0000_0000_0000_0000) as u64
    }
}

pub open spec fn record_tag(e: u16) -> int {
    e as int / 4096
}

pub open spec fn record_offset(e: u16) -> int {
    e as int % 4096
}

/// `img` with `delta` added, modulo 2^32, to the 32-bit word at `t`.
#[verifier::opaque]
pub open spec fn bump_u32(img: Seq<u8>, t: int, delta: u64) -> Seq<u8> {
    put_u32(img, t, (le_u32(img, t) + delta % 0x1_0000_0000) % 0x1_0000_0000)
}

/// `img` with `delta` added, modulo 2^64, to the 64-bit word at `t`.
#[verifier::opaque]
pub open spec fn bump_u64(img: Seq<u8>, t: int, delta: u64) -> Seq<u8> {
    put_u64(img, t, (le_u64(img, t) + delta) % 0x1_0000_0000_0000_0000)
}

/// What one record of the block for page `va` does to `img`.
pub open spec fn apply_record(img: Seq<u8>, va: int, e: u16, delta: u64) -> Result<Seq<u8>, LoadError> {
    let tag = record_tag(e);
    let t = va + record_offset(e);
    if tag == RELOCATE_ABSOLUTE {
        Ok(img)
    } else if tag == RELOCATE_HIGH_LOW {
        if fits(img, t, 4) {
            Ok(bump_u32(img, t, delta))
        } else {
            Err(LoadError::Malformed)
        }
    } else if tag == RELOCATE_DIR64 {
        if fits(img, t, 8) {
            Ok(bump_u64(img, t, delta))
        } else {
            Err(LoadError::Malformed)
        }
    } else {
        Err(LoadError::UnsupportedRelocationType(RelocationType(tag as u16)))
    }
}

/// The records `es` of the block for page `va`, applied in order.
pub open spec fn apply_records(img: Seq<u8>, va: int, es: Seq<u16>, delta: u64) -> Result<
    Seq<u8>,
    LoadError,
>
    decreases es.len(),
{
    if es.len() == 0 {
        Ok(img)
    } else {
        match apply_records(img, va, es.drop_last(), delta) {
            Ok(m) => apply_record(m, va, es.last(), delta),
            Err(e) => Err(e),
        }
    }
}

/// The blocks at offsets `ps` of `src`, applied in order to `img`.
pub open spec fn apply_blocks(src: Seq<u8>, img: Seq<u8>, ps: Seq<int>, delta: u64) -> Result<
    Seq<u8>,
    LoadError,
>
    decreases ps.len(),
{
    if ps.len() == 0 {
        Ok(img)
    } else {
        match apply_blocks(src, img, ps.drop_last(), delta) {
            Ok(m) => apply_records(
                m,
                le_u32(src, ps.last()),
                block_records(src, ps.last()),
                delta,
            ),
            Err(e) => Err(e),
        }
    }
}

/// The arena image `img`, mapped at `actual`, after base relocation.
pub open spec fn relocated(img: Seq<u8>, preferred: u64, dir: Rva, actual: u64) -> Result<
    Seq<u8>,
    LoadError,
> {
    if actual == preferred || dir.value == 0 {
        Ok(img)
    } else {
        match relocation_blocks(img, dir.value as int) {
            None => Err(LoadError::Malformed),
            Some(ps) => apply_blocks(img, img, ps, delta_of(actual, preferred)),
        }
    }
}

proof fn lemma_records_err_prefix(img: Seq<u8>, va: int, es: Seq<u16>, j: int, delta: u64)
    requires
        0 <= j <= es.len(),
        apply_records(img, va, es.take(j), delta) is Err,
    ensures
        apply_records(img, va, es, delta) == apply_records(img, va, es.take(j), delta),
    decreases es.len(),
{
    if j == es.len() {
        assert(es.take(j) =~= es);
    } else {
        assert(es.drop_last().take(j) =~= es.take(j));
        lemma_records_err_prefix(img, va, es.drop_last(), j, delta);
    }
}

proof fn lemma_blocks_err_prefix(src: Seq<u8>, img: Seq<u8>, ps: Seq<int>, j: int, delta: u64)
    requires
        0 <= j <= ps.len(),
        apply_blocks(src, img, ps.take(j), delta) is Err,
    ensures
        apply_blocks(src, img, ps, delta) == apply_blocks(src, img, ps.take(j), delta),
    decreases ps.len(),
{
    if j == ps.len() {
        assert(ps.take(j) =~= ps);
    } else {
        assert(ps.drop_last().take(j) =~= ps.take(j));
        lemma_blocks_err_prefix(src, img, ps.drop_last(), j, delta);
    }
}

/// One block of base relocations: the page it covers and its 16-bit records.
#[derive(Clone, Debug)]
pub struct ImageBaseRelocation {
    pub virtual_address: Rva,
    pub size_of_block: u32,
    pub entries: Vec<u16>,
}

impl ImageBaseRelocation {
    pub open spec fn read_from(&self, img: Seq<u8>, pos: int) -> bool {
        &&& self.virtual_address.value == le_u32(img, pos)
        &&& self.size_of_block == le_u32(img, pos + 4)
        &&& self.entries@ == block_records(img, pos)
    }

    /// Reads the block at `pos`, if it lies wholly inside `img`.
    pub fn parse(img: &[u8], pos: usize) -> (r: Option<ImageBaseRelocation>)
        ensures
            r is Some <==> block_ok(img@, pos as int),
            r matches Some(b) ==> b.read_from(img@, pos as int),
    {
        if pos > img.len() || img.len() - pos < BLOCK_HEADER_SIZE {
            return None;
        }
        let va = read_u32(img, pos).unwrap();
        let size = read_u32(img, pos + 4).unwrap();
        if (size as usize) < BLOCK_HEADER_SIZE {
            return None;
        }
        let count = (size as usize - BLOCK_HEADER_SIZE) / 2;
        if img.len() - pos < BLOCK_HEADER_SIZE + 2 * count {
            return None;
        }
        let mut entries: Vec<u16> = Vec::new();
        let mut k: usize = 0;
        while k < count
            invariant
                k <= count,
                count == record_count(size as int),
                size == le_u32(img@, pos + 4),
                pos + BLOCK_HEADER_SIZE + 2 * count <= img.len(),
                entries@ == block_records(img@, pos as int).take(k as int),
            decreases count - k,
        {
            let e = read_u16(img, pos + BLOCK_HEADER_SIZE + 2 * k).unwrap();
            entries.push(e);
            k = k + 1;
            assert(entries@ =~= block_records(img@, pos as int).take(k as int));
        }
        assert(entries@ =~= block_records(img@, pos as int));
        Some(ImageBaseRelocation { virtual_address: Rva { value: va }, size_of_block: size, entries })
    }

    /// The chain of blocks of the base-relocation directory at `at` of `img`.
    pub fn base_relocations(img: &[u8], at: usize) -> (r: Result<Vec<ImageBaseRelocation>, LoadError>)
        ensures
            match relocation_blocks(img@, at as int) {
                None => r == Err::<Vec<ImageBaseRelocation>, LoadError>(LoadError::Malformed),
                Some(ps) => r matches Ok(v) && v@.len() == ps.len() && forall|k: int|
                    0 <= k < ps.len() ==> #[trigger] v@[k].read_from(img@, ps[k]),
            },
    {
        let mut out: Vec<ImageBaseRelocation> = Vec::new();
        if at > img.len() {
            return Err(LoadError::Malformed);
        }
        let mut pos: usize = at;
        let ghost mut ps: Seq<int> = Seq::empty();
        loop
            invariant
                pos <= img.len(),
                reloc_chain(img@, at as int) is Some <==> reloc_chain(img@, pos as int) is Some,
                reloc_chain(img@, pos as int) is Some ==> reloc_chain(img@, at as int).unwrap()
                    == ps + reloc_chain(img@, pos as int).unwrap(),
                relocation_blocks(img@, at as int) == reloc_chain(img@, at as int),
                out@.len() == ps.len(),
                forall|k: int| 0 <= k < ps.len() ==> #[trigger] out@[k].read_from(img@, ps[k]),
            decreases img.len() - pos,
        {
            let b = match ImageBaseRelocation::parse(img, pos) {
                Some(b) => b,
                None => return Err(LoadError::Malformed),
            };
            let next = pos + BLOCK_HEADER_SIZE + 2 * ((b.size_of_block as usize - BLOCK_HEADER_SIZE)
                / 2);
            assert(next == pos + block_len(img@, pos as int));
            if img.len() - next < BLOCK_HEADER_SIZE {
                return Err(LoadError::Malformed);
            }
            let nva = read_u32(img, next).unwrap();
            let nsize = read_u32(img, next + 4).unwrap();
            out.push(b);
            proof {
                ps = ps.push(pos as int);
            }
            if nva == 0 && nsize == 0 {
                assert(reloc_chain(img@, pos as int) == Some(seq![pos as int]));
                return Ok(out);
            }
            proof {
                if reloc_chain(img@, next as int) is Some {
                    assert(ps.drop_last() + reloc_chain(img@, pos as int).unwrap() =~= ps
                        + reloc_chain(img@, next as int).unwrap());
                }
            }
            pos = next;
        }
    }

    /// The records of the block, each split into its type tag and its offset in the page.
    pub fn relocations(&self) -> (r: Vec<(RelocationType, u16)>)
        ensures
            r@.len() == self.entries@.len(),
            forall|k: int|
                0 <= k < r@.len() ==> (#[trigger] r@[k]).0 == RelocationType(
                    record_tag(self.entries@[k]) as u16,
                ) && r@[k].1 == record_offset(self.entries@[k]),
    {
        let mut out: Vec<(RelocationType, u16)> = Vec::new();
        let mut k: usize = 0;
        while k < self.entries.len()
            invariant
                k <= self.entries@.len(),
                out@.len() == k,
                forall|j: int|
                    0 <= j < k ==> (#[trigger] out@[j]).0 == RelocationType(
                        record_tag(self.entries@[j]) as u16,
                    ) && out@[j].1 == record_offset(self.entries@[j]),
            decreases self.entries@.len() - k,
        {
            let e = self.entries[k];
            out.push((RelocationType(e / 4096), e % 4096));
            k = k + 1;
        }
        out
    }
}

/// Adds `delta`, modulo 2^32, to the 32-bit word at `t`.
fn add_u32_at(img: &mut Vec<u8>, t: usize, delta: u64)
    requires
        fits(old(img)@, t as int, 4),
    ensures
        final(img)@ == bump_u32(old(img)@, t as int, delta),
        final(img)@.len() == old(img)@.len(),
{
    reveal(bump_u32);
    let old = read_u32(img.as_slice(), t).unwrap();
    let v = ((old as u64 + delta % 0x1_0000_0000) % 0x1_0000_0000) as u32;
    write_u32(img, t, v);
}

/// `a + b` modulo 2^64.
fn wrapping_add_u64(a: u64, b: u64) -> (r: u64)
    ensures
        r == (a + b) % 0x1_0000_0000_0000_0000,
{
    if a <= u64::MAX - b {
        a + b
    } else {
        a - (u64::MAX - b) - 1
    }
}

/// Adds `delta`, modulo 2^64, to the 64-bit word at `t`.
fn add_u64_at(img: &mut Vec<u8>, t: usize, delta: u64)
    requires
        fits(old(img)@, t as int, 8),
    ensures
        final(img)@ == bump_u64(old(img)@, t as int, delta),
        final(img)@.len() == old(img)@.len(),
{
    reveal(bump_u64);
    let old = read_u64(img.as_slice(), t).unwrap();
    let v = wrapping_add_u64(old, delta);
    write_u64(img, t, v);
}

/// Applies one record of the block for page `va` to `img`.
pub fn apply_relocation(img: &mut Vec<u8>, va: u32, e: u16, delta: u64) -> (r: Result<(), LoadError>)
    ensures
        match apply_record(old(img)@, va as int, e, delta) {
            Ok(m) => r is Ok && final(img)@ == m,
            Err(x) => r == Err::<(), LoadError>(x) && final(img)@ == old(img)@,
        },
        final(img)@.len() == old(img)@.len(),
{
    let tag = e / 4096;
    let t = va as u64 + (e % 4096) as u64;
    if tag == RELOCATE_ABSOLUTE {
        Ok(())
    } else if tag == RELOCATE_HIGH_LOW {
        if t > img.len() as u64 || img.len() as u64 - t < 4 {
            return Err(LoadError::Malformed);
        }
        add_u32_at(img, t as usize, delta);
        Ok(())
    } else if tag == RELOCATE_DIR64 {
        if t > img.len() as u64 || img.len() as u64 - t < 8 {
            return Err(LoadError::Malformed);
        }
        add_u64_at(img, t as usize, delta);
        Ok(())
    } else {
        Err(LoadError::UnsupportedRelocationType(RelocationType(tag)))
    }
}

/// Applies every record of block `b` to `img`, in order.
pub fn apply_block(img: &mut Vec<u8>, b: &ImageBaseRelocation, delta: u64) -> (r: Result<(), LoadError>)
    ensures
        match apply_records(old(img)@, b.virtual_address.value as int, b.entries@, delta) {
            Ok(m) => r is Ok && final(img)@ == m,
            Err(x) => r == Err::<(), LoadError>(x),
        },
        final(img)@.len() == old(img)@.len(),
{
    let ghost img0 = img@;
    let va = b.virtual_address.value;
    let n = b.entries.len();
    let mut failed: Option<LoadError> = None;
    let mut k: usize = 0;
    while k < n && failed.is_none()
        invariant
            k <= n,
            n == b.entries@.len(),
            va == b.virtual_address.value,
            img@.len() == img0.len(),
            failed is None ==> apply_records(img0, va as int, b.entries@.take(k as int), delta)
                == Ok::<Seq<u8>, LoadError>(img@),
            failed matches Some(x) ==> apply_records(img0, va as int, b.entries@, delta) == Err::<
                Seq<u8>,
                LoadError,
            >(x),
        decreases n - k + (if failed is None { 1int } else { 0int }),
    {
        assert(b.entries@.take(k + 1).drop_last() =~= b.entries@.take(k as int));
        assert(b.entries@.take(k + 1).last() == b.entries@[k as int]);
        match apply_relocation(img, va, b.entries[k], delta) {
            Ok(()) => {
                k = k + 1;
            },
            Err(x) => {
                proof {
                    lemma_records_err_prefix(img0, va as int, b.entries@, k + 1, delta);
                }
                failed = Some(x);
            },
        }
    }
    match failed {
        Some(x) => Err(x),
        None => {
            assert(b.entries@.take(k as int) =~= b.entries@);
            Ok(())
        },
    }
}

/// Base relocation of an arena: when the arena does not start at the image's preferred
/// base, every record of the relocation directory is applied with the difference of the
/// two as delta.
pub fn relocate(h: &PeHeader, arena: &mut Arena) -> (r: Result<(), LoadError>)
    requires
        h.optional_header.data_entries@.len() == NUM_DATA_ENTRIES,
    ensures
        final(arena).base == old(arena).base,
        final(arena).bytes@.len() == old(arena).bytes@.len(),
        match relocated(
            old(arena).bytes@,
            h.optional_header.image_base,
            h.optional_header.spec_data_entry(DirectoryEntry::Basereloc).virtual_address,
            old(arena).base,
        ) {
            Ok(m) => r is Ok && final(arena).bytes@ == m,
            Err(x) => r == Err::<(), LoadError>(x),
        },
{
    let preferred = h.optional_header.image_base;
    if arena.base == preferred {
        return Ok(());
    }
    let dir = h.optional_header.data_entry(DirectoryEntry::Basereloc);
    if dir.virtual_address.value == 0 {
        return Ok(());
    }
    let blocks = match ImageBaseRelocation::base_relocations(
        arena.bytes.as_slice(),
        dir.virtual_address.value as usize,
    ) {
        Ok(v) => v,
        Err(x) => return Err(x),
    };
    let delta = if arena.base >= preferred {
        arena.base - preferred
    } else {
        arena.base + (u64::MAX - preferred) + 1
    };
    let ghost ps = relocation_blocks(arena.bytes@, dir.virtual_address.value as int).unwrap();
    apply_all_blocks(&mut arena.bytes, &blocks, Ghost(ps), delta)
}

/// Applies the blocks `blocks`, read at offsets `ps` of the image, in order.
fn apply_all_blocks(
    img: &mut Vec<u8>,
    blocks: &Vec<ImageBaseRelocation>,
    ps: Ghost<Seq<int>>,
    delta: u64,
) -> (r: Result<(), LoadError>)
    requires
        blocks@.len() == ps@.len(),
        forall|k: int| 0 <= k < ps@.len() ==> #[trigger] blocks@[k].read_from(old(img)@, ps@[k]),
    ensures
        final(img)@.len() == old(img)@.len(),
        match apply_blocks(old(img)@, old(img)@, ps@, delta) {
            Ok(m) => r is Ok && final(img)@ == m,
            Err(x) => r == Err::<(), LoadError>(x),
        },
{
    let ghost img0 = img@;
    let ghost ps = ps@;
    let n = blocks.len();
    let mut failed: Option<LoadError> = None;
    let mut i: usize = 0;
    while i < n && failed.is_none()
        invariant
            i <= n,
            n == blocks@.len(),
            blocks@.len() == ps.len(),
            forall|k: int| 0 <= k < ps.len() ==> #[trigger] blocks@[k].read_from(img0, ps[k]),
            img@.len() == img0.len(),
            failed is None ==> apply_blocks(img0, img0, ps.take(i as int), delta) == Ok::<
                Seq<u8>,
                LoadError,
            >(img@),
            failed matches Some(x) ==> apply_blocks(img0, img0, ps, delta) == Err::<
                Seq<u8>,
                LoadError,
            >(x),
        decreases n - i + (if failed is None { 1int } else { 0int }),
    {
        assert(ps.take(i + 1).drop_last() =~= ps.take(i as int));
        assert(ps.take(i + 1).last() == ps[i as int]);
        assert(blocks@[i as int].read_from(img0, ps[i as int]));
        match apply_block(img, &blocks[i], delta) {
            Ok(()) => {
                i = i + 1;
            },
            Err(x) => {
                proof {
                    lemma_blocks_err_prefix(img0, img0, ps, i + 1, delta);
                }
                failed = Some(x);
            },
        }
    }
    match failed {
        Some(x) => Err(x),
        None => {
            assert(ps.take(i as int) =~= ps);
            Ok(())
        },
    }
}

/// The address inside the arena that record `e` of the block for page `va` patches.
pub open spec fn record_target(va: int, e: u16) -> int {
    va + record_offset(e)
}

/// The records `es` of the block for page `va`, as fix-ups of a whole chain.
pub open spec fn block_fixups(va: int, es: Seq<u16>) -> Seq<(int, u16)> {
    Seq::new(es.len(), |k: int| (va, es[k]))
}

/// Every fix-up of the blocks at offsets `ps` of `src`, in chain order.
pub open spec fn chain_fixups(src: Seq<u8>, ps: Seq<int>) -> Seq<(int, u16)>
    decreases ps.len(),
{
    if ps.len() == 0 {
        Seq::empty()
    } else {
        chain_fixups(src, ps.drop_last()) + block_fixups(
            le_u32(src, ps.last()) as int,
            block_records(src, ps.last()),
        )
    }
}

/// The fix-ups `rs`, each a page and a record, applied in order.
pub open spec fn apply_fixups(img: Seq<u8>, rs: Seq<(int, u16)>, delta: u64) -> Result<
    Seq<u8>,
    LoadError,
>
    decreases rs.len(),
{
    if rs.len() == 0 {
        Ok(img)
    } else {
        match apply_fixups(img, rs.drop_last(), delta) {
            Ok(m) => apply_record(m, rs.last().0, rs.last().1, delta),
            Err(e) => Err(e),
        }
    }
}

pub open spec fn fixup_target(r: (int, u16)) -> int {
    record_target(r.0, r.1)
}

/// How many bytes a record rewrites: 4 for high-low, 8 for dir64, none otherwise.
pub open spec fn fixup_width(e: u16) -> int {
    if record_tag(e) == RELOCATE_HIGH_LOW {
        4
    } else if record_tag(e) == RELOCATE_DIR64 {
        8
    } else {
        0
    }
}

pub open spec fn fixup_supported(e: u16) -> bool {
    record_tag(e) == RELOCATE_ABSOLUTE || record_tag(e) == RELOCATE_HIGH_LOW || record_tag(e)
        == RELOCATE_DIR64
}

/// Every fix-up of `rs` carries a supported tag and its word lies inside `img`.
pub open spec fn fixups_fit(img: Seq<u8>, rs: Seq<(int, u16)>) -> bool {
    forall|i: int|
        0 <= i < rs.len() ==> fixup_supported((#[trigger] rs[i]).1) && fits(
            img,
            fixup_target(rs[i]),
            fixup_width(rs[i].1),
        )
}

/// No two fix-ups of `rs` rewrite the same byte.
pub open spec fn fixups_disjoint(rs: Seq<(int, u16)>) -> bool {
    forall|i: int, j: int|
        0 <= i < rs.len() && 0 <= j < rs.len() && i != j ==> fixup_target(#[trigger] rs[i])
            + fixup_width(rs[i].1) <= fixup_target(#[trigger] rs[j]) || fixup_target(rs[j])
            + fixup_width(rs[j].1) <= fixup_target(rs[i])
}

/// No fix-up of `rs` rewrites byte `p`.
pub open spec fn untouched_by(rs: Seq<(int, u16)>, p: int) -> bool {
    forall|i: int|
        0 <= i < rs.len() ==> !(fixup_target(#[trigger] rs[i]) <= p < fixup_target(rs[i])
            + fixup_width(rs[i].1))
}

/// After `m`, the word that fix-up `r` names holds its value in `img` plus the delta:
/// all 64 bits for dir64, the low 32 bits for high-low.
pub open spec fn fixed_up(img: Seq<u8>, m: Seq<u8>, r: (int, u16), delta: u64) -> bool {
    let t = fixup_target(r);
    &&& record_tag(r.1) == RELOCATE_DIR64 ==> le_u64(m, t) == (le_u64(img, t) + delta)
        % 0x1_0000_0000_0000_0000
    &&& record_tag(r.1) == RELOCATE_HIGH_LOW ==> le_u32(m, t) == (le_u32(img, t) + delta
        % 0x1_0000_0000) % 0x1_0000_0000
}

proof fn lemma_fixups_concat(img: Seq<u8>, a: Seq<(int, u16)>, b: Seq<(int, u16)>, delta: u64)
    ensures
        apply_fixups(img, a + b, delta) == match apply_fixups(img, a, delta) {
            Ok(m) => apply_fixups(m, b, delta),
            Err(e) => Err(e),
        },
    decreases b.len(),
{
    if b.len() == 0 {
        assert(a + b =~= a);
    } else {
        lemma_fixups_concat(img, a, b.drop_last(), delta);
        assert((a + b).drop_last() =~= a + b.drop_last());
        assert((a + b).last() == b.last());
    }
}

proof fn lemma_records_as_fixups(img: Seq<u8>, va: int, es: Seq<u16>, delta: u64)
    ensures
        apply_records(img, va, es, delta) == apply_fixups(img, block_fixups(va, es), delta),
    decreases es.len(),
{
    if es.len() > 0 {
        lemma_records_as_fixups(img, va, es.drop_last(), delta);
        assert(block_fixups(va, es.drop_last()) =~= block_fixups(va, es).drop_last());
    }
}

proof fn lemma_blocks_as_fixups(src: Seq<u8>, img: Seq<u8>, ps: Seq<int>, delta: u64)
    ensures
        apply_blocks(src, img, ps, delta) == apply_fixups(img, chain_fixups(src, ps), delta),
    decreases ps.len(),
{
    if ps.len() > 0 {
        let p = ps.last();
        let va = le_u32(src, p) as int;
        lemma_blocks_as_fixups(src, img, ps.drop_last(), delta);
        lemma_fixups_concat(
            img,
            chain_fixups(src, ps.drop_last()),
            block_fixups(va, block_records(src, p)),
            delta,
        );
        if let Ok(m) = apply_fixups(img, chain_fixups(src, ps.drop_last()), delta) {
            lemma_records_as_fixups(m, va, block_records(src, p), delta);
        }
    }
}

proof fn lemma_fixups_ok(img: Seq<u8>, rs: Seq<(int, u16)>, delta: u64)
    requires
        fixups_fit(img, rs),
    ensures
        apply_fixups(img, rs, delta) matches Ok(m) && m.len() == img.len(),
    decreases rs.len(),
{
    if rs.len() > 0 {
        let prev = rs.drop_last();
        assert forall|i: int| 0 <= i < prev.len() implies fixup_supported((#[trigger] prev[i]).1)
            && fits(img, fixup_target(prev[i]), fixup_width(prev[i].1)) by {
            assert(prev[i] == rs[i]);
        }
        lemma_fixups_ok(img, prev, delta);
        let m0 = apply_fixups(img, prev, delta).unwrap();
        let r = rs.last();
        let t = fixup_target(r);
        assert(fixup_supported(rs[rs.len() - 1].1));
        assert(fits(img, fixup_target(rs[rs.len() - 1]), fixup_width(rs[rs.len() - 1].1)));
        reveal(bump_u32);
        reveal(bump_u64);
        if record_tag(r.1) == RELOCATE_HIGH_LOW {
            crate::bytes::lemma_put_u32(m0, t, (le_u32(m0, t) + delta % 0x1_0000_0000) % 0x1_0000_0000);
        } else if record_tag(r.1) == RELOCATE_DIR64 {
            crate::bytes::lemma_put_u64(m0, t, (le_u64(m0, t) + delta) % 0x1_0000_0000_0000_0000);
        }
    }
}

proof fn lemma_same_u64(a: Seq<u8>, b: Seq<u8>, t: int)
    requires
        fits(a, t, 8),
        fits(b, t, 8),
        forall|j: int| t <= j < t + 8 ==> a[j] == b[j],
    ensures
        le_u64(a, t) == le_u64(b, t),
{
    assert(a[t] == b[t] && a[t + 1] == b[t + 1] && a[t + 2] == b[t + 2] && a[t + 3] == b[t + 3]);
    assert(a[t + 4] == b[t + 4] && a[t + 5] == b[t + 5] && a[t + 6] == b[t + 6] && a[t + 7] == b[t
        + 7]);
}

proof fn lemma_same_u32(a: Seq<u8>, b: Seq<u8>, t: int)
    requires
        fits(a, t, 4),
        fits(b, t, 4),
        forall|j: int| t <= j < t + 4 ==> a[j] == b[j],
    ensures
        le_u32(a, t) == le_u32(b, t),
{
    assert(a[t] == b[t] && a[t + 1] == b[t + 1] && a[t + 2] == b[t + 2] && a[t + 3] == b[t + 3]);
}

/// Fix-ups of any supported tags, over one or many blocks: when every word they name lies
/// inside the image and no two of them overlap, applying them succeeds, every dir64 word
/// gains `delta` modulo 2^64, every high-low word gains the low 32 bits of `delta` modulo
/// 2^32, and every other byte, the targets of absolute records included, stays as it was.
pub proof fn lemma_fixups(img: Seq<u8>, rs: Seq<(int, u16)>, delta: u64)
    requires
        fixups_fit(img, rs),
        fixups_disjoint(rs),
    ensures
        apply_fixups(img, rs, delta) matches Ok(m) && m.len() == img.len() && (forall|i: int|
            0 <= i < rs.len() ==> fixed_up(img, m, #[trigger] rs[i], delta)) && (forall|p: int|
            0 <= p < img.len() && untouched_by(rs, p) ==> m[p] == img[p]),
    decreases rs.len(),
{
    lemma_fixups_ok(img, rs, delta);
    if rs.len() > 0 {
        let n = rs.len() - 1;
        let prev = rs.drop_last();
        assert forall|i: int| 0 <= i < prev.len() implies fixup_supported((#[trigger] prev[i]).1)
            && fits(img, fixup_target(prev[i]), fixup_width(prev[i].1)) by {
            assert(prev[i] == rs[i]);
        }
        assert forall|i: int, j: int|
            0 <= i < prev.len() && 0 <= j < prev.len() && i != j implies fixup_target(
            #[trigger] prev[i],
        ) + fixup_width(prev[i].1) <= fixup_target(#[trigger] prev[j]) || fixup_target(prev[j])
            + fixup_width(prev[j].1) <= fixup_target(prev[i]) by {
            assert(prev[i] == rs[i] && prev[j] == rs[j]);
        }
        lemma_fixups(img, prev, delta);
        let m0 = apply_fixups(img, prev, delta).unwrap();
        let m = apply_fixups(img, rs, delta).unwrap();
        let r = rs[n];
        assert(rs.last() == r);
        let t = fixup_target(r);
        let w = fixup_width(r.1);
        assert(fixup_supported(r.1) && fits(img, t, w));
        // the word of the last fix-up is untouched by the earlier ones
        assert forall|j: int| t <= j < t + w implies m0[j] == img[j] by {
            assert forall|i: int| 0 <= i < prev.len() implies !(fixup_target(#[trigger] prev[i])
                <= j < fixup_target(prev[i]) + fixup_width(prev[i].1)) by {
                assert(prev[i] == rs[i]);
                assert(fixup_target(rs[i]) + fixup_width(rs[i].1) <= fixup_target(rs[n])
                    || fixup_target(rs[n]) + fixup_width(rs[n].1) <= fixup_target(rs[i]));
            }
        }
        // and the last fix-up leaves every byte outside its word alone
        assert forall|j: int| 0 <= j < img.len() && !(t <= j < t + w) implies m[j] == m0[j] by {
            reveal(bump_u32);
            reveal(bump_u64);
            if record_tag(r.1) == RELOCATE_HIGH_LOW {
                crate::bytes::lemma_put_u32(m0, t, (le_u32(m0, t) + delta % 0x1_0000_0000) % 0x1_0000_0000);
            } else if record_tag(r.1) == RELOCATE_DIR64 {
                crate::bytes::lemma_put_u64(m0, t, (le_u64(m0, t) + delta) % 0x1_0000_0000_0000_0000);
            }
        }
        reveal(bump_u32);
        reveal(bump_u64);
        if record_tag(r.1) == RELOCATE_HIGH_LOW {
            crate::bytes::lemma_put_u32(m0, t, (le_u32(m0, t) + delta % 0x1_0000_0000) % 0x1_0000_0000);
            lemma_same_u32(m0, img, t);
        } else if record_tag(r.1) == RELOCATE_DIR64 {
            crate::bytes::lemma_put_u64(m0, t, (le_u64(m0, t) + delta) % 0x1_0000_0000_0000_0000);
            lemma_same_u64(m0, img, t);
        }
        assert forall|i: int| 0 <= i < rs.len() implies fixed_up(img, m, #[trigger] rs[i], delta) by {
            if i < n {
                assert(prev[i] == rs[i]);
                assert(fixed_up(img, m0, prev[i], delta));
                let ti = fixup_target(rs[i]);
                let wi = fixup_width(rs[i].1);
                assert(fixup_target(rs[i]) + fixup_width(rs[i].1) <= fixup_target(rs[n])
                    || fixup_target(rs[n]) + fixup_width(rs[n].1) <= fixup_target(rs[i]));
                assert(fixup_supported(rs[i].1) && fits(img, ti, wi));
                if wi == 8 {
                    lemma_same_u64(m, m0, ti);
                } else if wi == 4 {
                    lemma_same_u32(m, m0, ti);
                }
            }
        }
        assert forall|p: int| 0 <= p < img.len() && untouched_by(rs, p) implies m[p] == img[p] by {
            assert(!(fixup_target(rs[n]) <= p < fixup_target(rs[n]) + fixup_width(rs[n].1)));
            assert(untouched_by(prev, p)) by {
                assert forall|i: int| 0 <= i < prev.len() implies !(fixup_target(#[trigger] prev[i])
                    <= p < fixup_target(prev[i]) + fixup_width(prev[i].1)) by {
                    assert(prev[i] == rs[i]);
                }
            }
        }
    }
}

/// Delta correctness over a whole relocation directory: when the image is not at its
/// preferred base, the chain can be read, its records are all supported, their words lie
/// inside the image and do not overlap, relocation succeeds; each dir64 word gains the
/// delta, each high-low word the low 32 bits of it, and every other byte, the targets of
/// absolute records included, is left unchanged.
pub proof fn lemma_relocated_chain(img: Seq<u8>, preferred: u64, dir: Rva, actual: u64)
    requires
        actual != preferred,
        dir.value != 0,
        relocation_blocks(img, dir.value as int) matches Some(ps) && fixups_fit(
            img,
            chain_fixups(img, ps),
        ) && fixups_disjoint(chain_fixups(img, ps)),
    ensures
        ({
            let rs = chain_fixups(img, relocation_blocks(img, dir.value as int).unwrap());
            let delta = delta_of(actual, preferred);
            relocated(img, preferred, dir, actual) matches Ok(m) && m.len() == img.len() && (
            forall|i: int| 0 <= i < rs.len() ==> fixed_up(img, m, #[trigger] rs[i], delta)) && (
            forall|p: int| 0 <= p < img.len() && untouched_by(rs, p) ==> m[p] == img[p])
        }),
{
    let ps = relocation_blocks(img, dir.value as int).unwrap();
    let delta = delta_of(actual, preferred);
    lemma_blocks_as_fixups(img, img, ps, delta);
    lemma_fixups(img, chain_fixups(img, ps), delta);
}

/// An unsupported tag halts relocation of the whole directory: when the records before it,
/// in chain order, are supported and fit, the first record with another tag makes
/// relocation fail with that tag.
pub proof fn lemma_relocated_unsupported(
    img: Seq<u8>,
    preferred: u64,
    dir: Rva,
    actual: u64,
    j: int,
)
    requires
        actual != preferred,
        dir.value != 0,
        relocation_blocks(img, dir.value as int) matches Some(ps) && 0 <= j < chain_fixups(
            img,
            ps,
        ).len() && fixups_fit(img, chain_fixups(img, ps).take(j)) && !fixup_supported(
            chain_fixups(img, ps)[j].1,
        ),
    ensures
        relocated(img, preferred, dir, actual) == Err::<Seq<u8>, LoadError>(
            LoadError::UnsupportedRelocationType(
                RelocationType(
                    record_tag(
                        chain_fixups(img, relocation_blocks(img, dir.value as int).unwrap())[j].1,
                    ) as u16,
                ),
            ),
        ),
{
    let ps = relocation_blocks(img, dir.value as int).unwrap();
    let rs = chain_fixups(img, ps);
    let delta = delta_of(actual, preferred);
    lemma_blocks_as_fixups(img, img, ps, delta);
    lemma_fixups_ok(img, rs.take(j), delta);
    let head = rs.take(j + 1);
    assert(head.drop_last() =~= rs.take(j));
    assert(head.last() == rs[j]);
    lemma_fixups_concat(img, head, rs.skip(j + 1), delta);
    assert(head + rs.skip(j + 1) =~= rs);
}

} // verus!
