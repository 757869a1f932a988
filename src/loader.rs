use vstd::prelude::*;

use crate::arena::{copy_at, copy_into, fill_zero, zeros, Arena};
use crate::bytes::fits;
use crate::error::LoadError;
use crate::imports::{import_requests, imports_readable, requests_match, ImportRequest};
use crate::protect::{protect_plan, section_protections, ProtectRequest};
use crate::reloc::{relocate, relocated};
use crate::structs::{headers_fit, DirectoryEntry, ImageSectionHeader, PeHeader};
use crate::tls::{callback_list, tls_callbacks};

verus! {

/// How far into the arena a section reaches: `virtual_address + size_of_raw_data`,
/// or nothing for a section that maps no content.
pub open spec fn section_extent(s: ImageSectionHeader) -> int {
    if s.virtual_address.value == 0 {
        0
    } else {
        s.virtual_address.value + s.size_of_raw_data
    }
}

/// The largest extent over `secs`.
pub open spec fn max_extent(secs: Seq<ImageSectionHeader>) -> int
    decreases secs.len(),
{
    if secs.len() == 0 {
        0
    } else {
        let rest = max_extent(secs.drop_last());
        let here = section_extent(secs.last());
        if here > rest {
            here
        } else {
            rest
        }
    }
}

/// `x` rounded up to a multiple of `p`.
pub open spec fn round_up(x: int, p: int) -> int {
    if x % p == 0 {
        x
    } else {
        x + (p - x % p)
    }
}

/// What one section puts into the arena image `img`; `None` when it does not fit.
pub open spec fn map_section(
    img: Seq<u8>,
    buf: Seq<u8>,
    s: ImageSectionHeader,
    align: int,
) -> Option<Seq<u8>> {
    let va = s.virtual_address.value as int;
    let raw = s.size_of_raw_data as int;
    if va == 0 {
        Some(img)
    } else if raw == 0 {
        if fits(img, va, align) {
            Some(copy_at(img, va, zeros(align)))
        } else {
            None
        }
    } else if fits(img, va, raw) && fits(buf, s.p_raw_data as int, raw) {
        Some(copy_at(img, va, buf.subrange(s.p_raw_data as int, s.p_raw_data + raw)))
    } else {
        None
    }
}

/// The sections of `secs` mapped into `img`, one after the other.
pub open spec fn map_sections(
    img: Seq<u8>,
    buf: Seq<u8>,
    secs: Seq<ImageSectionHeader>,
    align: int,
) -> Option<Seq<u8>>
    decreases secs.len(),
{
    if secs.len() == 0 {
        Some(img)
    } else {
        match map_sections(img, buf, secs.drop_last(), align) {
            Some(m) => map_section(m, buf, secs.last(), align),
            None => None,
        }
    }
}

/// The arena of `size` bytes after the headers and every section of `buf` are copied in.
pub open spec fn mapped_image(buf: Seq<u8>, h: PeHeader, size: int) -> Option<Seq<u8>> {
    let hs = h.optional_header.size_of_headers as int;
    if hs > size || hs > buf.len() {
        None
    } else {
        map_sections(
            copy_at(zeros(size), 0, buf.take(hs)),
            buf,
            h.sections@,
            h.optional_header.section_alignment as int,
        )
    }
}

proof fn lemma_map_sections_none(
    img: Seq<u8>,
    buf: Seq<u8>,
    secs: Seq<ImageSectionHeader>,
    j: int,
    align: int,
)
    requires
        0 <= j <= secs.len(),
        map_sections(img, buf, secs.take(j), align) is None,
    ensures
        map_sections(img, buf, secs, align) is None,
    decreases secs.len(),
{
    if j == secs.len() {
        assert(secs.take(j) =~= secs);
    } else {
        assert(secs.drop_last().take(j) =~= secs.take(j));
        lemma_map_sections_none(img, buf, secs.drop_last(), j, align);
    }
}

/// How many bytes of the arena a section writes.
pub open spec fn section_span(s: ImageSectionHeader, align: int) -> int {
    if s.size_of_raw_data == 0 {
        align
    } else {
        s.size_of_raw_data as int
    }
}

/// No two mapped sections of `secs` write to the same arena byte.
pub open spec fn sections_disjoint(secs: Seq<ImageSectionHeader>, align: int) -> bool {
    forall|i: int, j: int|
        0 <= i < secs.len() && 0 <= j < secs.len() && i != j && secs[i].virtual_address.value
            != 0 && secs[j].virtual_address.value != 0 ==> #[trigger] secs[i].virtual_address.value
            + section_span(secs[i], align) <= secs[j].virtual_address.value
            || #[trigger] secs[j].virtual_address.value + section_span(secs[j], align)
            <= secs[i].virtual_address.value
}

/// The raw bytes of section `s` of `buf` sit unchanged at its virtual address in `m`.
pub open spec fn section_copied(m: Seq<u8>, buf: Seq<u8>, s: ImageSectionHeader) -> bool {
    let va = s.virtual_address.value as int;
    let p = s.p_raw_data as int;
    let raw = s.size_of_raw_data as int;
    va + raw <= m.len() && p + raw <= buf.len() && m.subrange(va, va + raw) == buf.subrange(
        p,
        p + raw,
    )
}

proof fn lemma_map_sections_copied(
    img: Seq<u8>,
    buf: Seq<u8>,
    secs: Seq<ImageSectionHeader>,
    align: int,
    m: Seq<u8>,
)
    requires
        map_sections(img, buf, secs, align) == Some(m),
        sections_disjoint(secs, align),
        align >= 0,
    ensures
        m.len() == img.len(),
        forall|i: int|
            0 <= i < secs.len() && secs[i].virtual_address.value != 0
                && secs[i].size_of_raw_data != 0 ==> section_copied(m, buf, #[trigger] secs[i]),
    decreases secs.len(),
{
    if secs.len() > 0 {
        let prev = secs.drop_last();
        let m0 = map_sections(img, buf, prev, align).unwrap();
        assert(sections_disjoint(prev, align)) by {
            assert forall|i: int, j: int|
                0 <= i < prev.len() && 0 <= j < prev.len() && i != j
                    && prev[i].virtual_address.value != 0 && prev[j].virtual_address.value
                    != 0 implies #[trigger] prev[i].virtual_address.value + section_span(
                prev[i],
                align,
            ) <= prev[j].virtual_address.value || #[trigger] prev[j].virtual_address.value
                + section_span(prev[j], align) <= prev[i].virtual_address.value by {
                assert(prev[i] == secs[i] && prev[j] == secs[j]);
            }
        }
        lemma_map_sections_copied(img, buf, prev, align, m0);
        let last = secs.last();
        let n = secs.len() - 1;
        assert forall|i: int|
            0 <= i < secs.len() && secs[i].virtual_address.value != 0
                && secs[i].size_of_raw_data != 0 implies section_copied(
            m,
            buf,
            #[trigger] secs[i],
        ) by {
            let s = secs[i];
            let va = s.virtual_address.value as int;
            let raw = s.size_of_raw_data as int;
            let p = s.p_raw_data as int;
            if i == n {
                assert(m.subrange(va, va + raw) =~= buf.subrange(p, p + raw));
            } else {
                assert(prev[i] == s);
                assert(section_copied(m0, buf, prev[i]));
                if last.virtual_address.value != 0 {
                    assert(secs[i].virtual_address.value + section_span(secs[i], align)
                        <= secs[n].virtual_address.value || secs[n].virtual_address.value
                        + section_span(secs[n], align) <= secs[i].virtual_address.value);
                    assert(m.subrange(va, va + raw) =~= m0.subrange(va, va + raw));
                } else {
                    assert(m == m0);
                }
            }
        }
    }
}

/// Round trip of unrelocated data: once an image is mapped, every section with raw data
/// holds at its virtual address exactly the bytes that the file holds at its raw-data
/// offset, provided no two mapped sections overlap in the arena.
pub proof fn lemma_mapped_sections_round_trip(buf: Seq<u8>, h: PeHeader, size: int, m: Seq<u8>)
    requires
        mapped_image(buf, h, size) == Some(m),
        sections_disjoint(h.sections@, h.optional_header.section_alignment as int),
    ensures
        m.len() == size,
        forall|i: int|
            0 <= i < h.sections@.len() && h.sections@[i].virtual_address.value != 0
                && h.sections@[i].size_of_raw_data != 0 ==> section_copied(
                m,
                buf,
                #[trigger] h.sections@[i],
            ),
{
    let hs = h.optional_header.size_of_headers as int;
    let img = copy_at(zeros(size), 0, buf.take(hs));
    lemma_map_sections_copied(
        img,
        buf,
        h.sections@,
        h.optional_header.section_alignment as int,
        m,
    );
}

/// The entry point of an image mapped at `base`: absent when the image declares none.
pub open spec fn spec_entry_point(base: u64, address_of_entry_point: u32) -> Option<u64> {
    if address_of_entry_point == 0 {
        None
    } else {
        Some((base + address_of_entry_point) as u64)
    }
}

/// The address at which a loaded image starts running: `base + address_of_entry_point`,
/// or `None` when the image declares no entry point.
pub fn entry_point(base: u64, address_of_entry_point: u32) -> (r: Option<u64>)
    requires
        base + address_of_entry_point <= u64::MAX,
    ensures
        r == spec_entry_point(base, address_of_entry_point),
{
    if address_of_entry_point == 0 {
        None
    } else {
        Some(base + address_of_entry_point as u64)
    }
}

/// A successfully loaded image: where it lies and where it starts.
#[derive(Clone, Copy, Debug, PartialEq, Eq, Structural)]
pub struct LoadedPEFile {
    pub entry_point: Option<u64>,
    pub base: u64,
    pub size: u64,
}

/// What the pipeline hands over once the image is mapped and relocated: its headers, the
/// arena, and what each imported module is asked for.
pub struct Prepared {
    pub headers: PeHeader,
    pub arena: Arena,
    pub imports: Vec<ImportRequest>,
}

/// What is left to do once the imports are bound: the protections to apply, the TLS
/// callbacks to run, and the loaded image.
pub struct LoadPlan {
    pub protections: Vec<ProtectRequest>,
    pub tls_callbacks: Vec<u64>,
    pub image: LoadedPEFile,
}

/// A PE image held as bytes: the input of the load pipeline.
pub struct Loader {
    pub pe_buffer: Vec<u8>,
}

impl Loader {
    pub fn new(pe_buffer: Vec<u8>) -> (r: Loader)
        ensures
            r.pe_buffer@ == pe_buffer@,
    {
        Loader { pe_buffer }
    }

    /// Reads the headers of the image.
    pub fn headers(&self) -> (r: Result<PeHeader, LoadError>)
        ensures
            r is Ok <==> crate::structs::headers_fit(self.pe_buffer@),
            r matches Ok(h) ==> h.read_from(self.pe_buffer@),
            r is Err ==> r == Err::<PeHeader, LoadError>(LoadError::Malformed),
    {
        match PeHeader::parse(self.pe_buffer.as_slice()) {
            Some(h) => Ok(h),
            None => Err(LoadError::Malformed),
        }
    }

    /// The arena size that the image needs: the largest end of a mapped section,
    /// rounded up to a whole page.
    pub fn arena_size(h: &PeHeader, page_size: u32) -> (r: u64)
        requires
            page_size > 0,
        ensures
            r == round_up(max_extent(h.sections@), page_size as int),
    {
        let mut size: u64 = 0;
        let mut i: usize = 0;
        while i < h.sections.len()
            invariant
                i <= h.sections@.len(),
                size == max_extent(h.sections@.take(i as int)),
                size <= 0x2_0000_0000,
            decreases h.sections@.len() - i,
        {
            let s = h.sections[i];
            assert(h.sections@.take(i + 1).drop_last() =~= h.sections@.take(i as int));
            if s.virtual_address.value != 0 {
                let e = s.virtual_address.value as u64 + s.size_of_raw_data as u64;
                if e > size {
                    size = e;
                }
            }
            i = i + 1;
        }
        assert(h.sections@.take(i as int) =~= h.sections@);
        let p = page_size as u64;
        if size % p == 0 {
            size
        } else {
            size + (p - size % p)
        }
    }

    /// Copies the headers and every section with a nonzero virtual address into a fresh
    /// arena of `size` bytes at `base`. A section with no raw data gets `section_alignment`
    /// zero bytes.
    pub fn map_module(&self, h: &PeHeader, base: u64, size: u64) -> (r: Result<Arena, LoadError>)
        requires
            base + size <= u64::MAX,
            size <= usize::MAX,
        ensures
            match mapped_image(self.pe_buffer@, *h, size as int) {
                Some(m) => r matches Ok(a) && a.wf() && a.base == base && a.bytes@ == m,
                None => r == Err::<Arena, LoadError>(LoadError::Malformed),
            },
    {
        let buf = self.pe_buffer.as_slice();
        let hs = h.optional_header.size_of_headers as u64;
        if hs > size || hs > buf.len() as u64 {
            return Err(LoadError::Malformed);
        }
        let mut arena = Arena::zeroed(base, size as usize);
        copy_into(&mut arena.bytes, 0, buf, 0, hs as usize);
        assert(buf@.subrange(0, hs as int) =~= buf@.take(hs as int));
        let ghost img0 = arena.bytes@;
        let align = h.optional_header.section_alignment;
        assert(mapped_image(self.pe_buffer@, *h, size as int) == map_sections(
            img0,
            buf@,
            h.sections@,
            align as int,
        ));
        let mut i: usize = 0;
        while i < h.sections.len()
            invariant
                i <= h.sections@.len(),
                buf@ == self.pe_buffer@,
                arena.wf(),
                arena.base == base,
                arena.bytes@.len() == size,
                align == h.optional_header.section_alignment,
                mapped_image(self.pe_buffer@, *h, size as int) == map_sections(
                    img0,
                    buf@,
                    h.sections@,
                    align as int,
                ),
                map_sections(img0, buf@, h.sections@.take(i as int), align as int) == Some(
                    arena.bytes@,
                ),
            decreases h.sections@.len() - i,
        {
            let s = h.sections[i];
            let ghost before = arena.bytes@;
            assert(h.sections@.take(i + 1).drop_last() =~= h.sections@.take(i as int));
            assert(h.sections@.take(i + 1).last() == s);
            let va = s.virtual_address.value as usize;
            let len = arena.bytes.len();
            if va != 0 {
                if s.size_of_raw_data == 0 {
                    let n = align as usize;
                    if va > len || len - va < n {
                        assert(map_section(before, buf@, s, align as int) is None);
                        assert(map_sections(img0, buf@, h.sections@.take(i + 1), align as int) is None);
                        proof {
                            lemma_map_sections_none(img0, buf@, h.sections@, i + 1, align as int);
                        }
                        return Err(LoadError::Malformed);
                    }
                    fill_zero(&mut arena.bytes, va, n);
                } else {
                    let raw = s.size_of_raw_data as usize;
                    let from = s.p_raw_data as usize;
                    if va > len || len - va < raw || from > buf.len() || buf.len() - from < raw {
                        assert(map_section(before, buf@, s, align as int) is None);
                        assert(map_sections(img0, buf@, h.sections@.take(i + 1), align as int) is None);
                        proof {
                            lemma_map_sections_none(img0, buf@, h.sections@, i + 1, align as int);
                        }
                        return Err(LoadError::Malformed);
                    }
                    copy_into(&mut arena.bytes, va, buf, from, raw);
                }
            }
            i = i + 1;
        }
        assert(h.sections@.take(i as int) =~= h.sections@);
        Ok(arena)
    }
    /// The arena size the image needs on a host with pages of `page_size` bytes.
    pub fn layout(&self, page_size: u32) -> (r: Result<u64, LoadError>)
        requires
            page_size > 0,
        ensures
            r is Ok <==> headers_fit(self.pe_buffer@),
            forall|h: PeHeader|
                h.read_from(self.pe_buffer@) ==> (r matches Ok(s) ==> s == round_up(
                    max_extent(h.sections@),
                    page_size as int,
                )),
            r is Err ==> r == Err::<u64, LoadError>(LoadError::Malformed),
    {
        let h = match self.headers() {
            Ok(h) => h,
            Err(e) => return Err(e),
        };
        let s = Loader::arena_size(&h, page_size);
        proof {
            assert forall|g: PeHeader| g.read_from(self.pe_buffer@) implies max_extent(g.sections@)
                == max_extent(h.sections@) by {
                crate::structs::lemma_headers_unique(g, h, self.pe_buffer@);
            }
        }
        Ok(s)
    }

    /// Runs the pipeline up to the point where the host must resolve imports: reads the
    /// headers, maps the image into an arena of `size` bytes at `base`, applies base
    /// relocations, and reads the import requests of the relocated image.
    pub fn prepare(&self, base: u64, size: u64) -> (r: Result<Prepared, LoadError>)
        requires
            base + size <= u64::MAX,
            size <= usize::MAX,
        ensures
            !headers_fit(self.pe_buffer@) ==> r == Err::<Prepared, LoadError>(LoadError::Malformed),
            r matches Ok(p) ==> {
                &&& p.headers.read_from(self.pe_buffer@)
                &&& p.arena.wf()
                &&& p.arena.base == base
                &&& mapped_image(self.pe_buffer@, p.headers, size as int) matches Some(m)
                    && relocated(
                    m,
                    p.headers.optional_header.image_base,
                    p.headers.optional_header.spec_data_entry(
                        DirectoryEntry::Basereloc,
                    ).virtual_address,
                    base,
                ) == Ok::<Seq<u8>, LoadError>(p.arena.bytes@)
                &&& requests_match(
                    p.imports@,
                    p.arena.bytes@,
                    p.headers.optional_header.spec_data_entry(DirectoryEntry::Import),
                )
            },
            forall|h: PeHeader|
                #![trigger h.read_from(self.pe_buffer@)]
                headers_fit(self.pe_buffer@) && h.read_from(self.pe_buffer@) ==> match mapped_image(
                    self.pe_buffer@,
                    h,
                    size as int,
                ) {
                    None => r == Err::<Prepared, LoadError>(LoadError::Malformed),
                    Some(m) => match relocated(
                        m,
                        h.optional_header.image_base,
                        h.optional_header.spec_data_entry(DirectoryEntry::Basereloc).virtual_address,
                        base,
                    ) {
                        Err(e) => r == Err::<Prepared, LoadError>(e),
                        Ok(m2) => (r is Ok <==> imports_readable(
                            m2,
                            h.optional_header.spec_data_entry(DirectoryEntry::Import),
                        )) && (r is Err ==> r == Err::<Prepared, LoadError>(LoadError::Malformed)),
                    },
                },
    {
        let h = match self.headers() {
            Ok(h) => h,
            Err(e) => return Err(e),
        };
        proof {
            assert forall|g: PeHeader| g.read_from(self.pe_buffer@) implies g.sections@
                == h.sections@ && g.optional_header.data_entries@ == h.optional_header.data_entries@
                && g.optional_header.image_base == h.optional_header.image_base
                && g.optional_header.size_of_headers == h.optional_header.size_of_headers
                && g.optional_header.section_alignment == h.optional_header.section_alignment by {
                crate::structs::lemma_headers_unique(g, h, self.pe_buffer@);
            }
        }
        let mut arena = match self.map_module(&h, base, size) {
            Ok(a) => a,
            Err(e) => return Err(e),
        };
        match relocate(&h, &mut arena) {
            Ok(()) => {},
            Err(e) => return Err(e),
        }
        let imports = match import_requests(&h, &arena) {
            Ok(v) => v,
            Err(e) => return Err(e),
        };
        Ok(Prepared { headers: h, arena, imports })
    }

    /// Once the imports are bound: the protection of every mapped section, the TLS
    /// callbacks to run in order, and the loaded image with its entry point.
    pub fn finish(h: &PeHeader, arena: &Arena) -> (r: Result<LoadPlan, LoadError>)
        requires
            h.optional_header.data_entries@.len() == crate::structs::NUM_DATA_ENTRIES,
            arena.wf(),
        ensures
            match callback_list(
                arena.bytes@,
                h.optional_header.spec_data_entry(DirectoryEntry::Tls).virtual_address.value as int,
                arena.base,
            ) {
                None => r == Err::<LoadPlan, LoadError>(LoadError::Malformed),
                Some(cbs) => if h.optional_header.address_of_entry_point > arena.bytes@.len() {
                    r == Err::<LoadPlan, LoadError>(LoadError::Malformed)
                } else {
                    r matches Ok(p) && p.protections@ == protect_plan(h.sections@)
                        && p.tls_callbacks@ == cbs && p.image == (LoadedPEFile {
                        entry_point: spec_entry_point(
                            arena.base,
                            h.optional_header.address_of_entry_point,
                        ),
                        base: arena.base,
                        size: arena.bytes@.len() as u64,
                    })
                },
            },
    {
        let tls = match tls_callbacks(h, arena) {
            Ok(v) => v,
            Err(e) => return Err(e),
        };
        let aoep = h.optional_header.address_of_entry_point;
        if aoep as usize > arena.bytes.len() {
            return Err(LoadError::Malformed);
        }
        let image = LoadedPEFile {
            entry_point: entry_point(arena.base, aoep),
            base: arena.base,
            size: arena.bytes.len() as u64,
        };
        Ok(LoadPlan { protections: section_protections(h), tls_callbacks: tls, image })
    }
}

} // verus!
