use vstd::prelude::*;

use crate::arena::Arena;
use crate::bytes::{cstr_at, fits, le_u32, le_u64, put_u64, read_cstr, read_u32, read_u64, write_u64};
use crate::error::LoadError;
use crate::rva::Rva;
use crate::structs::{DirectoryEntry, PeHeader, NUM_DATA_ENTRIES};

verus! {

pub const DESCRIPTOR_SIZE: usize = 20;

pub const THUNK_SIZE: usize = 8;

pub const ORDINAL_FLAG: u64 = 0x8000_0000_0000_0000;

/// A thunk word with its top bit set imports by ordinal.
pub fn image_snap_by_ordinal(ordinal: u64) -> (r: bool)
    ensures
        r == (ordinal >= ORDINAL_FLAG),
{
    ordinal >= ORDINAL_FLAG
}

/// The ordinal that an ordinal thunk word names: its low 16 bits.
pub fn image_ordinal(ordinal: u64) -> (r: u64)
    ensures
        r == ordinal % 0x1_0000,
{
    ordinal % 0x1_0000
}

/// One entry of the import directory.
#[derive(Clone, Copy, Debug, PartialEq, Eq, Structural)]
pub struct ImportDescriptor {
    pub imports_by_name: u32,
    pub time_stamp: u32,
    pub forwarder_chain: u32,
    pub name: Rva,
    pub first_thunk: Rva,
}

impl ImportDescriptor {
    pub open spec fn read_from(self, img: Seq<u8>, at: int) -> bool {
        &&& self.imports_by_name == le_u32(img, at)
        &&& self.time_stamp == le_u32(img, at + 4)
        &&& self.forwarder_chain == le_u32(img, at + 8)
        &&& self.name.value == le_u32(img, at + 12)
        &&& self.first_thunk.value == le_u32(img, at + 16)
    }

    pub fn parse(img: &[u8], at: usize) -> (r: Option<ImportDescriptor>)
        ensures
            r is Some <==> fits(img@, at as int, DESCRIPTOR_SIZE as int),
            r matches Some(d) ==> d.read_from(img@, at as int),
    {
        if at > img.len() || img.len() - at < DESCRIPTOR_SIZE {
            return None;
        }
        Some(ImportDescriptor {
            imports_by_name: read_u32(img, at).unwrap(),
            time_stamp: read_u32(img, at + 4).unwrap(),
            forwarder_chain: read_u32(img, at + 8).unwrap(),
            name: Rva { value: read_u32(img, at + 12).unwrap() },
            first_thunk: Rva { value: read_u32(img, at + 16).unwrap() },
        })
    }
}

/// Index of the first descriptor, from the `k`-th on, whose name is zero; -1 when the
/// stream leaves `img` first.
pub open spec fn descriptor_end(img: Seq<u8>, at: int, k: int) -> int
    decreases img.len() - (at + DESCRIPTOR_SIZE * k),
{
    if k < 0 || !fits(img, at + DESCRIPTOR_SIZE * k, DESCRIPTOR_SIZE as int) {
        -1
    } else if le_u32(img, at + DESCRIPTOR_SIZE * k + 12) == 0 {
        k
    } else {
        descriptor_end(img, at, k + 1)
    }
}

/// Index of the first zero 64-bit word, from the `k`-th on, of the array at `at`; -1 when
/// the array leaves `img` first.
pub open spec fn word_end(img: Seq<u8>, at: int, k: int) -> int
    decreases img.len() - (at + THUNK_SIZE * k),
{
    if k < 0 || !fits(img, at + THUNK_SIZE * k, THUNK_SIZE as int) {
        -1
    } else if le_u64(img, at + THUNK_SIZE * k) == 0 {
        k
    } else {
        word_end(img, at, k + 1)
    }
}

proof fn lemma_descriptor_end(img: Seq<u8>, at: int, k: int)
    requires
        0 <= k,
    ensures
        descriptor_end(img, at, k) == -1 || k <= descriptor_end(img, at, k),
    decreases img.len() - (at + DESCRIPTOR_SIZE * k),
{
    if fits(img, at + DESCRIPTOR_SIZE * k, DESCRIPTOR_SIZE as int) && le_u32(
        img,
        at + DESCRIPTOR_SIZE * k + 12,
    ) != 0 {
        lemma_descriptor_end(img, at, k + 1);
    }
}

pub proof fn lemma_word_end(img: Seq<u8>, at: int, k: int)
    requires
        0 <= k,
    ensures
        word_end(img, at, k) == -1 || k <= word_end(img, at, k),
    decreases img.len() - (at + THUNK_SIZE * k),
{
    if fits(img, at + THUNK_SIZE * k, THUNK_SIZE as int) && le_u64(img, at + THUNK_SIZE * k)
        != 0 {
        lemma_word_end(img, at, k + 1);
    }
}

/// The hint/name record that a by-name thunk points at: a 16-bit hint, then the
/// zero-terminated name of the symbol.
#[derive(Clone, Debug, PartialEq, Eq)]
pub struct ImageImportByName {
    pub hint: u16,
    pub name: Vec<u8>,
}

impl ImageImportByName {
    pub fn parse(img: &[u8], at: usize) -> (r: Option<ImageImportByName>)
        ensures
            r is Some <==> cstr_at(img@, at + 2) is Some,
            r matches Some(n) ==> n.hint == crate::bytes::le_u16(img@, at as int) && cstr_at(
                img@,
                at + 2,
            ) == Some(n.name@),
    {
        if at >= img.len() || img.len() - at < 2 {
            return None;
        }
        let hint = crate::bytes::read_u16(img, at).unwrap();
        match read_cstr(img, at + 2) {
            Some(name) => Some(ImageImportByName { hint, name }),
            None => None,
        }
    }
}

/// What a thunk asks the host for.
#[derive(Clone, Debug, PartialEq, Eq)]
pub enum ImportTarget {
    Ordinal(u16),
    Name(Vec<u8>),
}

/// The name record that a by-name thunk word points at lies in `img`.
pub open spec fn thunk_ok(img: Seq<u8>, word: int) -> bool {
    word >= ORDINAL_FLAG || cstr_at(img, word + 2) is Some
}

/// `target` is what the thunk word `word` of `img` asks for: the ordinal in its low 16 bits
/// when its top bit is set, else the name after the 16-bit hint that the word points at.
pub open spec fn target_of(img: Seq<u8>, word: int, target: ImportTarget) -> bool {
    if word >= ORDINAL_FLAG {
        target == ImportTarget::Ordinal((word % 0x1_0000) as u16)
    } else {
        match target {
            ImportTarget::Name(n) => cstr_at(img, word + 2) == Some(n@),
            ImportTarget::Ordinal(_) => false,
        }
    }
}

/// Decodes the thunk word `word` of `img`.
pub fn thunk_target(img: &[u8], word: u64) -> (r: Option<ImportTarget>)
    ensures
        r is Some <==> thunk_ok(img@, word as int),
        r matches Some(t) ==> target_of(img@, word as int, t),
{
    if image_snap_by_ordinal(word) {
        Some(ImportTarget::Ordinal(image_ordinal(word) as u16))
    } else if word >= img.len() as u64 {
        None
    } else {
        match ImageImportByName::parse(img, word as usize) {
            Some(n) => Some(ImportTarget::Name(n.name)),
            None => None,
        }
    }
}

/// One slot of an import address table and what it asks for.
#[derive(Clone, Debug, PartialEq, Eq)]
pub struct ThunkRequest {
    pub slot: usize,
    pub target: ImportTarget,
}

/// The thunk array at `at` ends inside `img` and every by-name word in it points at a name.
pub open spec fn thunks_ok(img: Seq<u8>, at: int) -> bool {
    &&& word_end(img, at, 0) >= 0
    &&& forall|j: int|
        0 <= j < word_end(img, at, 0) ==> thunk_ok(img, #[trigger] le_u64(img, at + THUNK_SIZE * j))
}

/// `ts` lists, in order, every slot of the thunk array at `at` and what each asks for.
pub open spec fn thunks_read_from(ts: Seq<ThunkRequest>, img: Seq<u8>, at: int) -> bool {
    &&& ts.len() == word_end(img, at, 0)
    &&& forall|j: int|
        0 <= j < ts.len() ==> #[trigger] ts[j].slot == at + THUNK_SIZE * j && target_of(
            img,
            le_u64(img, at + THUNK_SIZE * j),
            ts[j].target,
        )
}

/// Reads the zero-terminated thunk array at `at`.
pub fn read_thunks(img: &[u8], at: usize) -> (r: Option<Vec<ThunkRequest>>)
    ensures
        r is Some <==> thunks_ok(img@, at as int),
        r matches Some(ts) ==> thunks_read_from(ts@, img@, at as int),
{
    let mut out: Vec<ThunkRequest> = Vec::new();
    let mut j: usize = 0;
    proof {
        lemma_word_end(img@, at as int, 0);
    }
    loop
        invariant
            word_end(img@, at as int, 0) == word_end(img@, at as int, j as int),
            word_end(img@, at as int, 0) == -1 || j <= word_end(img@, at as int, 0),
            j == 0 || at + THUNK_SIZE * j <= img.len(),
            out@.len() == j,
            forall|i: int|
                0 <= i < j ==> #[trigger] out@[i].slot == at + THUNK_SIZE * i && target_of(
                    img@,
                    le_u64(img@, at + THUNK_SIZE * i),
                    out@[i].target,
                ),
            forall|i: int| 0 <= i < j ==> thunk_ok(img@, #[trigger] le_u64(img@, at + THUNK_SIZE * i)),
        decreases img@.len() - (at + THUNK_SIZE * j),
    {
        let pos = at as u64 + THUNK_SIZE as u64 * j as u64;
        if pos > img.len() as u64 || img.len() as u64 - pos < THUNK_SIZE as u64 {
            return None;
        }
        let word = read_u64(img, pos as usize).unwrap();
        if word == 0 {
            assert(word_end(img@, at as int, j as int) == j);
            assert(thunks_ok(img@, at as int));
            assert(thunks_read_from(out@, img@, at as int));
            return Some(out);
        }
        let target = match thunk_target(img, word) {
            Some(t) => t,
            None => {
                proof {
                    lemma_word_end(img@, at as int, j + 1);
                }
                return None;
            },
        };
        out.push(ThunkRequest { slot: pos as usize, target });
        proof {
            lemma_word_end(img@, at as int, j + 1);
        }
        j = j + 1;
    }
}

/// The descriptor stream at `at` ends inside `img`.
pub open spec fn descriptors_ok(img: Seq<u8>, at: int) -> bool {
    descriptor_end(img, at, 0) >= 0
}

/// Reads the descriptors at `at`, up to the first one whose name is zero.
pub fn import_descriptors(img: &[u8], at: usize) -> (r: Option<Vec<ImportDescriptor>>)
    ensures
        r is Some <==> descriptors_ok(img@, at as int),
        r matches Some(ds) ==> ds@.len() == descriptor_end(img@, at as int, 0) && forall|k: int|
            0 <= k < ds@.len() ==> #[trigger] ds@[k].read_from(img@, at + DESCRIPTOR_SIZE * k),
{
    let mut out: Vec<ImportDescriptor> = Vec::new();
    let mut k: usize = 0;
    proof {
        lemma_descriptor_end(img@, at as int, 0);
    }
    loop
        invariant
            descriptor_end(img@, at as int, 0) == descriptor_end(img@, at as int, k as int),
            descriptor_end(img@, at as int, 0) == -1 || k <= descriptor_end(img@, at as int, 0),
            k == 0 || at + DESCRIPTOR_SIZE * k <= img.len(),
            out@.len() == k,
            forall|i: int|
                0 <= i < k ==> #[trigger] out@[i].read_from(img@, at + DESCRIPTOR_SIZE * i),
        decreases img@.len() - (at + DESCRIPTOR_SIZE * k),
    {
        let pos = at as u64 + DESCRIPTOR_SIZE as u64 * k as u64;
        if pos > img.len() as u64 || img.len() as u64 - pos < DESCRIPTOR_SIZE as u64 {
            return None;
        }
        let d = ImportDescriptor::parse(img, pos as usize).unwrap();
        if d.name.value == 0 {
            return Some(out);
        }
        out.push(d);
        proof {
            lemma_descriptor_end(img@, at as int, k + 1);
        }
        k = k + 1;
    }
}

/// Everything one module of the import directory asks for.
#[derive(Clone, Debug, PartialEq, Eq)]
pub struct ImportRequest {
    pub module: Vec<u8>,
    pub thunks: Vec<ThunkRequest>,
}

/// The descriptor at `pos` names a module and its thunk array is readable.
pub open spec fn descriptor_ok(img: Seq<u8>, pos: int) -> bool {
    cstr_at(img, le_u32(img, pos + 12)) is Some && thunks_ok(img, le_u32(img, pos + 16))
}

/// `req` is what the descriptor at `pos` of `img` asks for.
pub open spec fn request_read_from(req: ImportRequest, img: Seq<u8>, pos: int) -> bool {
    cstr_at(img, le_u32(img, pos + 12)) == Some(req.module@) && thunks_read_from(
        req.thunks@,
        img,
        le_u32(img, pos + 16),
    )
}

/// The import directory at `at` can be read whole.
pub open spec fn imports_ok(img: Seq<u8>, at: int) -> bool {
    &&& descriptors_ok(img, at)
    &&& forall|k: int|
        0 <= k < descriptor_end(img, at, 0) ==> #[trigger] descriptor_ok(
            img,
            at + DESCRIPTOR_SIZE * k,
        )
}

/// The import directory is absent when its address or its size is zero.
pub open spec fn has_imports(dir: crate::structs::DataEntry) -> bool {
    dir.virtual_address.value != 0 && dir.size != 0
}

/// The import directory `dir` of `img` is absent or can be read whole.
pub open spec fn imports_readable(img: Seq<u8>, dir: crate::structs::DataEntry) -> bool {
    has_imports(dir) ==> imports_ok(img, dir.virtual_address.value as int)
}

/// `v` holds, in order, what each descriptor of the import directory `dir` of `img` asks for.
pub open spec fn requests_match(
    v: Seq<ImportRequest>,
    img: Seq<u8>,
    dir: crate::structs::DataEntry,
) -> bool {
    let at = dir.virtual_address.value as int;
    if !has_imports(dir) {
        v.len() == 0
    } else {
        v.len() == descriptor_end(img, at, 0) && forall|k: int|
            0 <= k < v.len() ==> #[trigger] request_read_from(v[k], img, at + DESCRIPTOR_SIZE * k)
    }
}

/// Reads, for every descriptor of the import directory, the module it names and every
/// thunk of its import address table.
pub fn import_requests(h: &PeHeader, arena: &Arena) -> (r: Result<Vec<ImportRequest>, LoadError>)
    requires
        h.optional_header.data_entries@.len() == NUM_DATA_ENTRIES,
    ensures
        r is Ok <==> imports_readable(
            arena.bytes@,
            h.optional_header.spec_data_entry(DirectoryEntry::Import),
        ),
        r matches Ok(v) ==> requests_match(
            v@,
            arena.bytes@,
            h.optional_header.spec_data_entry(DirectoryEntry::Import),
        ),
        r is Err ==> r == Err::<Vec<ImportRequest>, LoadError>(LoadError::Malformed),
{
    let dir = h.optional_header.data_entry(DirectoryEntry::Import);
    let mut out: Vec<ImportRequest> = Vec::new();
    if dir.virtual_address.value == 0 || dir.size == 0 {
        return Ok(out);
    }
    let img = arena.bytes.as_slice();
    let at = dir.virtual_address.value as usize;
    let descs = match import_descriptors(img, at) {
        Some(d) => d,
        None => return Err(LoadError::Malformed),
    };
    let mut k: usize = 0;
    while k < descs.len()
        invariant
            k <= descs@.len(),
            img@ == arena.bytes@,
            dir == h.optional_header.spec_data_entry(DirectoryEntry::Import),
            has_imports(dir),
            at == dir.virtual_address.value,
            descs@.len() == descriptor_end(img@, at as int, 0),
            forall|i: int|
                0 <= i < descs@.len() ==> #[trigger] descs@[i].read_from(
                    img@,
                    at + DESCRIPTOR_SIZE * i,
                ),
            out@.len() == k,
            forall|i: int|
                0 <= i < k ==> #[trigger] request_read_from(out@[i], img@, at + DESCRIPTOR_SIZE * i),
            forall|i: int| 0 <= i < k ==> #[trigger] descriptor_ok(img@, at + DESCRIPTOR_SIZE * i),
        decreases descs@.len() - k,
    {
        let d = descs[k];
        assert(d.read_from(img@, at + DESCRIPTOR_SIZE * k));
        let module = match read_cstr(img, d.name.value as usize) {
            Some(m) => m,
            None => {
                assert(!descriptor_ok(img@, at + DESCRIPTOR_SIZE * k));
                assert(!imports_ok(arena.bytes@, dir.virtual_address.value as int));
                return Err(LoadError::Malformed);
            },
        };
        let thunks = match read_thunks(img, d.first_thunk.value as usize) {
            Some(t) => t,
            None => {
                assert(!descriptor_ok(img@, at + DESCRIPTOR_SIZE * k));
                assert(!imports_ok(arena.bytes@, dir.virtual_address.value as int));
                return Err(LoadError::Malformed);
            },
        };
        out.push(ImportRequest { module, thunks });
        k = k + 1;
    }
    Ok(out)
}

/// The slots of a request, in order.
pub open spec fn slots_of(req: ImportRequest) -> Seq<int> {
    Seq::new(req.thunks@.len(), |j: int| req.thunks@[j].slot as int)
}

/// `img` with `addrs[i]` stored in slot `slots[i]`, for the first `n` slots in order.
pub open spec fn patch(img: Seq<u8>, slots: Seq<int>, addrs: Seq<u64>, n: int) -> Seq<u8>
    decreases n,
{
    if n <= 0 {
        img
    } else {
        put_u64(patch(img, slots, addrs, n - 1), slots[n - 1], addrs[n - 1] as int)
    }
}

/// Every slot of `slots` holds a 64-bit word inside `img`.
pub open spec fn slots_fit(img: Seq<u8>, slots: Seq<int>) -> bool {
    forall|i: int| 0 <= i < slots.len() ==> fits(img, #[trigger] slots[i], 8)
}

/// The host resolved every import of the module: one nonzero address per thunk.
pub open spec fn all_resolved(req: ImportRequest, addrs: Seq<u64>) -> bool {
    addrs.len() == req.thunks@.len() && forall|i: int| 0 <= i < addrs.len() ==> #[trigger] addrs[i]
        != 0
}

/// No address of `addrs` is zero.
fn all_nonzero(addrs: &Vec<u64>) -> (r: bool)
    ensures
        r == forall|i: int| 0 <= i < addrs@.len() ==> #[trigger] addrs@[i] != 0,
{
    let mut i: usize = 0;
    while i < addrs.len()
        invariant
            i <= addrs@.len(),
            forall|j: int| 0 <= j < i ==> #[trigger] addrs@[j] != 0,
        decreases addrs@.len() - i,
    {
        if addrs[i] == 0 {
            return false;
        }
        i = i + 1;
    }
    true
}

/// Every slot of `req` holds a 64-bit word inside an arena of `len` bytes.
fn slots_in(req: &ImportRequest, len: usize) -> (r: bool)
    ensures
        r == forall|i: int| 0 <= i < req.thunks@.len() ==> #[trigger] slots_of(*req)[i] + 8 <= len,
{
    let mut i: usize = 0;
    while i < req.thunks.len()
        invariant
            i <= req.thunks@.len(),
            forall|j: int| 0 <= j < i ==> #[trigger] slots_of(*req)[j] + 8 <= len,
        decreases req.thunks@.len() - i,
    {
        let slot = req.thunks[i].slot;
        if slot > len || len - slot < 8 {
            assert(!(slots_of(*req)[i as int] + 8 <= len));
            return false;
        }
        i = i + 1;
    }
    true
}

/// Writes the addresses that the host resolved for one module into its import address
/// table. `resolved` is `None` when the host could not load the module; the load fails
/// with the module's name then, and when any of its imports resolved to nothing.
pub fn bind_imports(arena: &mut Arena, req: &ImportRequest, resolved: &Option<Vec<u64>>) -> (r:
    Result<(), LoadError>)
    ensures
        final(arena).base == old(arena).base,
        final(arena).bytes@.len() == old(arena).bytes@.len(),
        r is Err ==> final(arena).bytes@ == old(arena).bytes@,
        match resolved {
            None => (r matches Err(LoadError::LoadModuleFailed(n)) && n@ == req.module@),
            Some(addrs) => if !all_resolved(*req, addrs@) {
                (r matches Err(LoadError::LoadModuleFailed(n)) && n@ == req.module@)
            } else if !slots_fit(old(arena).bytes@, slots_of(*req)) {
                r == Err::<(), LoadError>(LoadError::Malformed)
            } else {
                r is Ok && final(arena).bytes@ == patch(
                    old(arena).bytes@,
                    slots_of(*req),
                    addrs@,
                    addrs@.len() as int,
                )
            },
        },
{
    let addrs = match resolved {
        Some(a) => a,
        None => return Err(LoadError::LoadModuleFailed(req.module.clone())),
    };
    let n = req.thunks.len();
    if addrs.len() != n || !all_nonzero(addrs) {
        return Err(LoadError::LoadModuleFailed(req.module.clone()));
    }
    if !slots_in(req, arena.bytes.len()) {
        return Err(LoadError::Malformed);
    }
    let ghost img0 = arena.bytes@;
    let mut i: usize = 0;
    while i < n
        invariant
            i <= n,
            n == addrs@.len(),
            n == req.thunks@.len(),
            arena.bytes@.len() == img0.len(),
            slots_fit(img0, slots_of(*req)),
            arena.base == old(arena).base,
            arena.bytes@ == patch(img0, slots_of(*req), addrs@, i as int),
        decreases n - i,
    {
        let slot = req.thunks[i].slot;
        assert(fits(img0, slots_of(*req)[i as int], 8));
        write_u64(&mut arena.bytes, slot, addrs[i]);
        i = i + 1;
    }
    Ok(())
}

/// Byte `p` lies in none of the first `n` slots.
pub open spec fn outside_slots(slots: Seq<int>, n: int, p: int) -> bool {
    forall|i: int| 0 <= i < n ==> !(#[trigger] slots[i] <= p < slots[i] + 8)
}

proof fn lemma_patch_frame(img: Seq<u8>, slots: Seq<int>, addrs: Seq<u64>, n: int)
    requires
        0 <= n <= slots.len(),
        n <= addrs.len(),
        slots_fit(img, slots),
    ensures
        patch(img, slots, addrs, n).len() == img.len(),
        forall|p: int|
            0 <= p < img.len() && outside_slots(slots, n, p) ==> #[trigger] patch(
                img,
                slots,
                addrs,
                n,
            )[p] == img[p],
    decreases n,
{
    if n > 0 {
        lemma_patch_frame(img, slots, addrs, n - 1);
        let prev = patch(img, slots, addrs, n - 1);
        assert(fits(img, slots[n - 1], 8));
        crate::bytes::lemma_put_u64(prev, slots[n - 1], addrs[n - 1] as int);
        assert forall|p: int| 0 <= p < img.len() && outside_slots(slots, n, p) implies #[trigger] patch(
            img,
            slots,
            addrs,
            n,
        )[p] == img[p] by {
            assert(!(slots[n - 1] <= p < slots[n - 1] + 8));
            assert(outside_slots(slots, n - 1, p));
        }
    }
}

proof fn lemma_put_u64_in_range(u: Seq<u8>, w: Seq<u8>, t: int, v: int, p: int)
    requires
        fits(u, t, 8),
        fits(w, t, 8),
        t <= p < t + 8,
    ensures
        put_u64(u, t, v)[p] == put_u64(w, t, v)[p],
{
}

proof fn lemma_patch_diff(x: Seq<u8>, y: Seq<u8>, slots: Seq<int>, addrs: Seq<u64>, n: int)
    requires
        x.len() == y.len(),
        0 <= n <= slots.len(),
        n <= addrs.len(),
        slots_fit(x, slots),
    ensures
        patch(x, slots, addrs, n).len() == x.len(),
        patch(y, slots, addrs, n).len() == x.len(),
        forall|p: int|
            0 <= p < x.len() && #[trigger] patch(x, slots, addrs, n)[p] != patch(
                y,
                slots,
                addrs,
                n,
            )[p] ==> outside_slots(slots, n, p) && x[p] != y[p],
    decreases n,
{
    lemma_patch_frame(x, slots, addrs, n);
    lemma_patch_frame(y, slots, addrs, n);
    if n > 0 {
        lemma_patch_diff(x, y, slots, addrs, n - 1);
        let px = patch(x, slots, addrs, n - 1);
        let py = patch(y, slots, addrs, n - 1);
        let t = slots[n - 1];
        let v = addrs[n - 1] as int;
        assert(fits(x, t, 8));
        crate::bytes::lemma_put_u64(px, t, v);
        crate::bytes::lemma_put_u64(py, t, v);
        assert forall|p: int|
            0 <= p < x.len() && #[trigger] patch(x, slots, addrs, n)[p] != patch(
                y,
                slots,
                addrs,
                n,
            )[p] implies outside_slots(slots, n, p) && x[p] != y[p] by {
            if t <= p < t + 8 {
                lemma_put_u64_in_range(px, py, t, v, p);
            } else {
                assert(px[p] != py[p]);
            }
        }
    }
}

/// Import patching is idempotent: writing the same resolved addresses into the same slots
/// a second time leaves the image exactly as the first pass left it.
pub proof fn lemma_patch_idempotent(img: Seq<u8>, slots: Seq<int>, addrs: Seq<u64>)
    requires
        slots.len() == addrs.len(),
        slots_fit(img, slots),
    ensures
        patch(patch(img, slots, addrs, addrs.len() as int), slots, addrs, addrs.len() as int)
            == patch(img, slots, addrs, addrs.len() as int),
{
    let n = addrs.len() as int;
    let once = patch(img, slots, addrs, n);
    lemma_patch_frame(img, slots, addrs, n);
    assert(slots_fit(once, slots));
    lemma_patch_diff(once, img, slots, addrs, n);
    let twice = patch(once, slots, addrs, n);
    assert forall|p: int| 0 <= p < once.len() implies twice[p] == once[p] by {
        if twice[p] != once[p] {
            assert(outside_slots(slots, n, p) && once[p] != img[p]);
        }
    }
    assert(twice =~= once);
}

} // verus!
