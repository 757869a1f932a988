use pe_load::arena::Arena;
use pe_load::bytes::{read_cstr, read_u16, read_u32, read_u64, write_u64};
use pe_load::imports::{bind_imports, ImageImportByName, ImportRequest, ImportTarget};
use pe_load::loader::{entry_point, LoadPlan, Prepared};
use pe_load::policy::{AllocationRequest, PreferredBase};
use pe_load::protect::{protection_for, Protection, ProtectRequest};
use pe_load::reloc::{apply_relocation, relocate, ImageBaseRelocation};
use pe_load::rva::{resolve_raw, Rva};
use pe_load::structs::{
    Characteristics, DirectoryEntry, Machine, PeHeader, RelocationType, Subsystem,
};
use pe_load::tls::DLL_PROCESS_ATTACH;
use pe_load::{image_ordinal, image_snap_by_ordinal, LoadError, Loader};

const PREFERRED: u64 = 0x1_4000_0000;
const ACTUAL: u64 = 0x2_0000_0000;
const NAMED_PTR: u64 = 0xAABB_CCDD_1122_3344;
const OPT: usize = 0x58;
const SECTIONS: usize = 0x148;

fn put16(b: &mut Vec<u8>, at: usize, v: u16) {
    b[at..at + 2].copy_from_slice(&v.to_le_bytes());
}

fn put32(b: &mut Vec<u8>, at: usize, v: u32) {
    b[at..at + 4].copy_from_slice(&v.to_le_bytes());
}

fn put64(b: &mut Vec<u8>, at: usize, v: u64) {
    b[at..at + 8].copy_from_slice(&v.to_le_bytes());
}

fn get64(b: &[u8], at: usize) -> u64 {
    u64::from_le_bytes(b[at..at + 8].try_into().unwrap())
}

fn section(b: &mut Vec<u8>, i: usize, va: u32, raw: u32, p_raw: u32, chars: u32) {
    let at = SECTIONS + 40 * i;
    b[at..at + 5].copy_from_slice(b".sect");
    put32(b, at + 8, raw);
    put32(b, at + 12, va);
    put32(b, at + 16, raw);
    put32(b, at + 20, p_raw);
    put32(b, at + 36, chars);
}

fn directory(b: &mut Vec<u8>, e: usize, va: u32, size: u32) {
    put32(b, OPT + 112 + 8 * e, va);
    put32(b, OPT + 116 + 8 * e, size);
}

/// File offset of the byte at `rva` in the data section.
fn data(rva: usize) -> usize {
    rva - 0x2000 + 0x1400
}

/// A PE32+ image: `.text` at 0x1000 (execute, read), `.data` at 0x2000 (read, write),
/// `.reloc` at 0x3000. The text word at 0x1010 holds the preferred address of `.data`,
/// with a dir64 record for it. `.data` holds an import descriptor for "ExampleDll" with
/// one import by name ("Foo") and one by ordinal (7), and a TLS directory whose one
/// callback sits at text offset 0x100.
fn sample_image(reloc_tag: u16, aoep: u32) -> Vec<u8> {
    let mut b = vec![0u8; 0x2600];
    b[0] = b'M';
    b[1] = b'Z';
    put32(&mut b, 0x3c, 0x40);
    b[0x40..0x44].copy_from_slice(b"PE\0\0");
    put16(&mut b, 0x44, 0x8664);
    put16(&mut b, 0x46, 3);
    put16(&mut b, 0x54, 0xF0);
    put16(&mut b, OPT, 0x20b);
    put32(&mut b, OPT + 16, aoep);
    put64(&mut b, OPT + 24, PREFERRED);
    put32(&mut b, OPT + 32, 0x1000);
    put32(&mut b, OPT + 56, 0x4000);
    put32(&mut b, OPT + 60, 0x400);
    put16(&mut b, OPT + 68, 3);
    put32(&mut b, OPT + 108, 16);
    section(&mut b, 0, 0x1000, 0x1000, 0x400, 0x6000_0020);
    section(&mut b, 1, 0x2000, 0x1000, 0x1400, 0xC000_0040);
    section(&mut b, 2, 0x3000, 0x200, 0x2400, 0x4200_0040);
    directory(&mut b, 1, 0x2100, 40);
    directory(&mut b, 5, 0x3000, 20);
    directory(&mut b, 9, 0x2500, 40);
    // text: code bytes and the embedded absolute address
    b[0x400] = 0xC3;
    put64(&mut b, 0x400 + 0x10, PREFERRED + 0x2000);
    // imports
    put32(&mut b, data(0x2100) + 12, 0x2200);
    put32(&mut b, data(0x2100) + 16, 0x2300);
    b[data(0x2200)..data(0x2200) + 10].copy_from_slice(b"ExampleDll");
    put64(&mut b, data(0x2300), 0x2400);
    put64(&mut b, data(0x2308), 0x8000_0000_0000_0007);
    b[data(0x2402)..data(0x2402) + 3].copy_from_slice(b"Foo");
    // TLS: callbacks array at 0x2600, one callback at text+0x100
    put64(&mut b, data(0x2500) + 24, PREFERRED + 0x2600);
    put64(&mut b, data(0x2600), PREFERRED + 0x1100);
    // relocations: block for page 0x1000, block for page 0x2000, terminator
    put32(&mut b, 0x2400, 0x1000);
    put32(&mut b, 0x2404, 12);
    put16(&mut b, 0x2408, (reloc_tag << 12) | 0x010);
    put16(&mut b, 0x240A, 0);
    put32(&mut b, 0x240C, 0x2000);
    put32(&mut b, 0x2410, 12);
    put16(&mut b, 0x2414, 0xA518);
    put16(&mut b, 0x2416, 0xA600);
    b
}

/// A stub host: knows "ExampleDll", resolves "Foo" and ordinal 7.
fn stub_resolve(req: &ImportRequest, known: &[u8]) -> Option<Vec<u64>> {
    if req.module != known {
        return None;
    }
    Some(
        req.thunks
            .iter()
            .map(|t| match &t.target {
                ImportTarget::Name(n) if n == b"Foo" => NAMED_PTR,
                ImportTarget::Ordinal(7) => 0xDEAD,
                _ => 0,
            })
            .collect(),
    )
}

fn run(image: Vec<u8>, base: u64, known: &[u8]) -> Result<(Prepared, LoadPlan), LoadError> {
    let loader = Loader::new(image);
    let size = loader.layout(0x1000)?;
    let mut p = loader.prepare(base, size)?;
    for req in p.imports.clone().iter() {
        let resolved = stub_resolve(req, known);
        bind_imports(&mut p.arena, req, &resolved)?;
    }
    let plan = Loader::finish(&p.headers, &p.arena)?;
    Ok((p, plan))
}

#[test]
fn position_independent_executable() {
    let (p, plan) = run(sample_image(10, 0x1000), ACTUAL, b"ExampleDll").unwrap();
    assert_eq!(get64(&p.arena.bytes, 0x1010), PREFERRED + 0x2000 + 0xC000_0000);
    assert_eq!(get64(&p.arena.bytes, 0x1010), ACTUAL + 0x2000);
    assert_eq!(plan.protections[0].protection, Protection::ExecuteRead);
    assert_eq!(plan.protections[1].protection, Protection::ReadWrite);
    assert_eq!(plan.protections[2].protection, Protection::ReadOnly);
    assert_eq!(plan.protections[0].offset, 0x1000);
    assert_eq!(plan.protections[0].length, 0x1000);
    assert_eq!(plan.image.base, ACTUAL);
    assert_eq!(plan.image.size, 0x4000);
}

#[test]
fn no_relocation_at_preferred_base() {
    let loader = Loader::new(sample_image(10, 0x1000));
    let h = loader.headers().unwrap();
    let mapped = loader.map_module(&h, PREFERRED, 0x4000).unwrap();
    let before = mapped.bytes.clone();
    let mut arena = mapped;
    relocate(&h, &mut arena).unwrap();
    assert_eq!(arena.bytes, before);
    assert_eq!(get64(&arena.bytes, 0x1010), PREFERRED + 0x2000);
}

#[test]
fn named_import_is_patched() {
    let (p, _) = run(sample_image(10, 0x1000), ACTUAL, b"ExampleDll").unwrap();
    assert_eq!(p.imports.len(), 1);
    assert_eq!(p.imports[0].module, b"ExampleDll".to_vec());
    assert_eq!(p.imports[0].thunks[0].target, ImportTarget::Name(b"Foo".to_vec()));
    assert_eq!(get64(&p.arena.bytes, 0x2300), NAMED_PTR);
}

#[test]
fn ordinal_import_is_patched() {
    let (p, _) = run(sample_image(10, 0x1000), ACTUAL, b"ExampleDll").unwrap();
    assert_eq!(p.imports[0].thunks[1].target, ImportTarget::Ordinal(7));
    assert_eq!(p.imports[0].thunks[1].slot, 0x2308);
    assert_eq!(get64(&p.arena.bytes, 0x2308), 0xDEAD);
}

#[test]
fn tls_callback_writes_sentinel() {
    // the callback's code at text+0x100 is, for the stub host, "store byte 0x5A at RVA 0x2700"
    let mut image = sample_image(10, 0x1000);
    image[0x500] = 0xC6;
    put32(&mut image, 0x501, 0x2700);
    image[0x505] = 0x5A;
    let (mut p, plan) = run(image, ACTUAL, b"ExampleDll").unwrap();
    assert_eq!(plan.tls_callbacks, vec![ACTUAL + 0x1100]);
    assert_eq!(p.arena.bytes[0x2700], 0);
    for &cb in plan.tls_callbacks.iter() {
        let at = (cb - p.arena.base) as usize;
        assert_eq!(DLL_PROCESS_ATTACH, 1);
        if p.arena.bytes[at] == 0xC6 {
            let target = u32::from_le_bytes(p.arena.bytes[at + 1..at + 5].try_into().unwrap());
            p.arena.bytes[target as usize] = p.arena.bytes[at + 5];
        }
    }
    assert_eq!(p.arena.bytes[0x2700], 0x5A);
}

#[test]
fn missing_module_fails_load() {
    let r = run(sample_image(10, 0x1000), ACTUAL, b"OtherDll");
    assert_eq!(r.err(), Some(LoadError::LoadModuleFailed(b"ExampleDll".to_vec())));
}

#[test]
fn unresolved_symbol_fails_load() {
    let loader = Loader::new(sample_image(10, 0x1000));
    let mut p = loader.prepare(ACTUAL, 0x4000).unwrap();
    let req = p.imports[0].clone();
    let r = bind_imports(&mut p.arena, &req, &Some(vec![NAMED_PTR, 0]));
    assert_eq!(r, Err(LoadError::LoadModuleFailed(b"ExampleDll".to_vec())));
    let r = bind_imports(&mut p.arena, &req, &Some(vec![NAMED_PTR]));
    assert_eq!(r, Err(LoadError::LoadModuleFailed(b"ExampleDll".to_vec())));
}

#[test]
fn mapped_sections_match_file() {
    let image = sample_image(10, 0x1000);
    let loader = Loader::new(image.clone());
    let h = loader.headers().unwrap();
    let a = loader.map_module(&h, ACTUAL, 0x4000).unwrap();
    assert_eq!(a.bytes.len(), 0x4000);
    assert_eq!(&a.bytes[0x1000..0x2000], &image[0x400..0x1400]);
    assert_eq!(&a.bytes[0x2000..0x3000], &image[0x1400..0x2400]);
    assert_eq!(&a.bytes[0x3000..0x3200], &image[0x2400..0x2600]);
    assert_eq!(&a.bytes[0..0x400], &image[0..0x400]);
    assert!(a.bytes[0x3200..].iter().all(|&x| x == 0));
}

#[test]
fn bss_section_is_zero_filled() {
    let mut image = sample_image(10, 0x1000);
    // the third section becomes an uninitialised one
    put32(&mut image, SECTIONS + 80 + 16, 0);
    let loader = Loader::new(image);
    let h = loader.headers().unwrap();
    let a = loader.map_module(&h, ACTUAL, 0x4000).unwrap();
    assert!(a.bytes[0x3000..0x4000].iter().all(|&x| x == 0));
}

#[test]
fn dir64_and_high_low_records_add_delta() {
    let mut img = vec![0u8; 0x40];
    put64(&mut img, 0x10, 0x1000_0000_FFFF_FFF0);
    put32(&mut img, 0x20, 0xFFFF_FFF0);
    let delta = 0x1_0000_0020u64;
    apply_relocation(&mut img, 0, 0xA010, delta).unwrap();
    apply_relocation(&mut img, 0, 0x3020, delta).unwrap();
    assert_eq!(get64(&img, 0x10), 0x1000_0002_0000_0010);
    assert_eq!(u32::from_le_bytes(img[0x20..0x24].try_into().unwrap()), 0x10);
    // wrap-around of a dir64 target
    put64(&mut img, 0x30, u64::MAX);
    apply_relocation(&mut img, 0, 0xA030, 2).unwrap();
    assert_eq!(get64(&img, 0x30), 1);
}

#[test]
fn absolute_record_is_noop() {
    let mut img: Vec<u8> = (0..0x40u8).collect();
    let before = img.clone();
    apply_relocation(&mut img, 0, 0x0010, 0x1234).unwrap();
    apply_relocation(&mut img, 0x1000_0000, 0x0FFF, 0x1234).unwrap();
    assert_eq!(img, before);
}

#[test]
fn unsupported_relocation_tag_halts() {
    let r = run(sample_image(5, 0x1000), ACTUAL, b"ExampleDll");
    assert_eq!(r.err(), Some(LoadError::UnsupportedRelocationType(RelocationType(5))));
    let mut img = vec![0u8; 0x20];
    let before = img.clone();
    assert_eq!(
        apply_relocation(&mut img, 0, 0x1010, 1),
        Err(LoadError::UnsupportedRelocationType(RelocationType(1)))
    );
    assert_eq!(img, before);
}

#[test]
fn relocation_target_outside_arena_is_malformed() {
    let mut img = vec![0u8; 0x20];
    assert_eq!(apply_relocation(&mut img, 0x1C, 0xA000, 1), Err(LoadError::Malformed));
}

#[test]
fn import_patching_is_idempotent() {
    let (mut p, _) = run(sample_image(10, 0x1000), ACTUAL, b"ExampleDll").unwrap();
    let once = p.arena.bytes.clone();
    let req = p.imports[0].clone();
    let resolved = stub_resolve(&req, b"ExampleDll");
    bind_imports(&mut p.arena, &req, &resolved).unwrap();
    assert_eq!(p.arena.bytes, once);
    assert_eq!(get64(&p.arena.bytes, 0x2300), NAMED_PTR);
}

#[test]
fn protection_flag_table() {
    let x = Characteristics::MemExecute.bits();
    let r = Characteristics::MemRead.bits();
    let w = Characteristics::MemWrite.bits();
    assert_eq!(protection_for(0), Protection::NoAccess);
    assert_eq!(protection_for(w), Protection::WriteCopy);
    assert_eq!(protection_for(r), Protection::ReadOnly);
    assert_eq!(protection_for(r | w), Protection::ReadWrite);
    assert_eq!(protection_for(x), Protection::Execute);
    assert_eq!(protection_for(x | w), Protection::ExecuteWriteCopy);
    assert_eq!(protection_for(x | r), Protection::ExecuteRead);
    assert_eq!(protection_for(x | r | w), Protection::ExecuteReadWrite);
    assert_eq!(protection_for(x | r | 0x20), Protection::ExecuteRead);
}

#[test]
fn protect_failure_names_range() {
    let req = ProtectRequest { offset: 0x1000, length: 0x200, protection: Protection::ReadOnly };
    assert_eq!(req.failure(), LoadError::ProtectFailed(0x1000, 0x200));
}

#[test]
fn entry_point_absent_when_zero() {
    assert_eq!(entry_point(ACTUAL, 0), None);
    assert_eq!(entry_point(ACTUAL, 0x1000), Some(ACTUAL + 0x1000));
    let (_, plan) = run(sample_image(10, 0), ACTUAL, b"ExampleDll").unwrap();
    assert_eq!(plan.image.entry_point, None);
    let (_, plan) = run(sample_image(10, 0x1000), ACTUAL, b"ExampleDll").unwrap();
    assert_eq!(plan.image.entry_point, Some(ACTUAL + 0x1000));
}

#[test]
fn entry_point_outside_arena_is_malformed() {
    let r = run(sample_image(10, 0x9000), ACTUAL, b"ExampleDll");
    assert_eq!(r.err(), Some(LoadError::Malformed));
}

#[test]
fn truncated_buffer_is_malformed() {
    let loader = Loader::new(vec![0u8; 0x20]);
    assert!(matches!(loader.headers(), Err(LoadError::Malformed)));
    assert_eq!(loader.layout(0x1000), Err(LoadError::Malformed));
    let mut image = sample_image(10, 0x1000);
    image.truncate(0x180);
    assert_eq!(Loader::new(image).layout(0x1000), Err(LoadError::Malformed));
}

#[test]
fn section_outside_arena_is_malformed() {
    let loader = Loader::new(sample_image(10, 0x1000));
    let h = loader.headers().unwrap();
    assert!(matches!(loader.map_module(&h, ACTUAL, 0x3000), Err(LoadError::Malformed)));
}

#[test]
fn headers_are_read() {
    let loader = Loader::new(sample_image(10, 0x1000));
    let h: PeHeader = loader.headers().unwrap();
    assert_eq!(h.dos_header.offset_to_pe_header, 0x40);
    assert_eq!(h.file_header.machine, Machine::X64.code());
    assert_eq!(h.file_header.num_sections, 3);
    assert_eq!(h.optional_header.image_base, PREFERRED);
    assert_eq!(h.optional_header.subsystem, Subsystem::WindowsCui.code());
    assert_eq!(h.sections[1].virtual_address, Rva { value: 0x2000 });
    assert_eq!(h.sections[1].p_raw_data, 0x1400);
    assert_eq!(&h.sections[1].name, b".sect\0\0\0");
    assert_eq!(h.sections[1].virtual_size, 0x1000);
    let imp = h.optional_header.data_entry(DirectoryEntry::Import);
    assert_eq!(imp.virtual_address.value, 0x2100);
    assert_eq!(imp.size, 40);
    assert_eq!(DirectoryEntry::Tls.index(), 9);
}

#[test]
fn arena_size_rounds_up_to_page() {
    let loader = Loader::new(sample_image(10, 0x1000));
    assert_eq!(loader.layout(0x1000), Ok(0x4000));
    assert_eq!(loader.layout(0x3000), Ok(0x6000));
    let h = loader.headers().unwrap();
    assert_eq!(Loader::arena_size(&h, 0x100), 0x3200);
}

#[test]
fn relocation_blocks_are_read() {
    let image = sample_image(10, 0x1000);
    let blocks = ImageBaseRelocation::base_relocations(&image, 0x2400).unwrap();
    assert_eq!(blocks.len(), 2);
    assert_eq!(blocks[0].virtual_address.value, 0x1000);
    assert_eq!(blocks[0].size_of_block, 12);
    assert_eq!(blocks[0].entries, vec![0xA010, 0]);
    assert_eq!(
        blocks[0].relocations(),
        vec![(RelocationType(10), 0x010), (RelocationType(0), 0)]
    );
    assert_eq!(blocks[1].entries, vec![0xA518, 0xA600]);
    // a chain that runs off the end
    assert_eq!(ImageBaseRelocation::base_relocations(&image[..0x2410], 0x2400).err(), Some(LoadError::Malformed));
    // a first block without records is still part of the chain
    let mut chain = vec![0u8; 32];
    put32(&mut chain, 0, 0x1000);
    put32(&mut chain, 4, 8);
    put32(&mut chain, 8, 0x2000);
    put32(&mut chain, 12, 10);
    put16(&mut chain, 16, 0xA008);
    let blocks = ImageBaseRelocation::base_relocations(&chain, 0).unwrap();
    assert_eq!(blocks.len(), 2);
    assert_eq!(blocks[0].entries, Vec::<u16>::new());
    assert_eq!(blocks[1].virtual_address.value, 0x2000);
    assert_eq!(blocks[1].entries, vec![0xA008]);
    // a header whose size is below its own length is malformed
    let short = vec![0u8; 16];
    assert_eq!(ImageBaseRelocation::base_relocations(&short, 0).err(), Some(LoadError::Malformed));
}

#[test]
fn blocks_after_an_empty_first_block_are_applied() {
    let mut image = sample_image(10, 0x1000);
    // an empty block for page 0x1000 first, then the block with the dir64 record
    let mut reloc = vec![0u8; 0x200];
    put32(&mut reloc, 0, 0x1000);
    put32(&mut reloc, 4, 8);
    reloc[8..8 + 24].copy_from_slice(&image[0x2400..0x2400 + 24]);
    image[0x2400..0x2600].copy_from_slice(&reloc);
    let (p, _) = run(image, ACTUAL, b"ExampleDll").unwrap();
    assert_eq!(get64(&p.arena.bytes, 0x1010), ACTUAL + 0x2000);
}

#[test]
fn ordinal_thunk_words() {
    assert!(image_snap_by_ordinal(0x8000_0000_0000_0007));
    assert!(!image_snap_by_ordinal(0x7FFF_FFFF_FFFF_FFFF));
    assert_eq!(image_ordinal(0x8000_0000_0001_0007), 7);
    assert_eq!(image_ordinal(0x1234_5678), 0x5678);
}

#[test]
fn little_endian_reads_and_writes() {
    let b = vec![0x01, 0x02, 0x03, 0x04, 0x05, 0x06, 0x07, 0x08, 0x00];
    assert_eq!(read_u16(&b, 0), Some(0x0201));
    assert_eq!(read_u32(&b, 1), Some(0x0504_0302));
    assert_eq!(read_u64(&b, 0), Some(0x0807_0605_0403_0201));
    assert_eq!(read_u64(&b, 2), None);
    assert_eq!(read_u16(&b, 8), None);
    assert_eq!(read_cstr(&b, 5), Some(vec![0x06, 0x07, 0x08]));
    assert_eq!(read_cstr(&b[..8], 5), None);
    let mut v = vec![0u8; 10];
    write_u64(&mut v, 1, 0x1122_3344_5566_7788);
    assert_eq!(v, vec![0, 0x88, 0x77, 0x66, 0x55, 0x44, 0x33, 0x22, 0x11, 0]);
}

#[test]
fn rva_resolves_against_base() {
    assert_eq!(Rva { value: 0x1010 }.resolve(ACTUAL), ACTUAL + 0x1010);
    assert_eq!(resolve_raw(ACTUAL, 0x20), ACTUAL + 0x20);
    let a = Arena::zeroed(ACTUAL, 0x100);
    assert_eq!(a.len(), 0x100);
    assert_eq!(a.resolve(0x80), ACTUAL + 0x80);
}

#[test]
fn preferred_base_policies() {
    let ib = PREFERRED;
    assert_eq!(PreferredBase::Any.allocation_request(ib, 0), AllocationRequest::Anywhere);
    assert_eq!(PreferredBase::Any.allocation_request(ib, 1), AllocationRequest::GiveUp);
    assert_eq!(PreferredBase::Exact(ACTUAL).allocation_request(ib, 0), AllocationRequest::At(ACTUAL));
    assert_eq!(PreferredBase::Exact(ACTUAL).allocation_request(ib, 1), AllocationRequest::GiveUp);
    assert_eq!(PreferredBase::Default.allocation_request(ib, 0), AllocationRequest::At(ib));
    assert_eq!(PreferredBase::Default.allocation_request(ib, 1), AllocationRequest::Anywhere);
    assert_eq!(PreferredBase::Default.allocation_request(ib, 2), AllocationRequest::GiveUp);
    assert_eq!(PreferredBase::DefaultExact.allocation_request(ib, 0), AllocationRequest::At(ib));
    assert_eq!(PreferredBase::DefaultExact.allocation_request(ib, 1), AllocationRequest::GiveUp);
    assert_eq!(PreferredBase::TryExact(ACTUAL).allocation_request(ib, 0), AllocationRequest::At(ACTUAL));
    assert_eq!(PreferredBase::TryExact(ACTUAL).allocation_request(ib, 1), AllocationRequest::Anywhere);
    assert_eq!(PreferredBase::TryExact(ACTUAL).allocation_request(ib, 2), AllocationRequest::GiveUp);
}

#[test]
fn image_import_by_name_record() {
    let b = vec![0x07, 0x00, b'F', b'o', b'o', 0, 0xFF];
    let r = ImageImportByName::parse(&b, 0).unwrap();
    assert_eq!(r.hint, 7);
    assert_eq!(r.name, b"Foo".to_vec());
    assert_eq!(ImageImportByName::parse(&b[..5], 0), None);
}

#[test]
fn mixed_records_over_two_blocks() {
    let mut image = sample_image(10, 0x1000);
    // text words: a dir64 at 0x1010 (already present), a high-low at 0x1020, a padded
    // absolute record aimed at 0x1030
    put32(&mut image, 0x420, 0xFFFF_FFF0);
    put64(&mut image, 0x430, 0x1111_2222_3333_4444);
    put32(&mut image, 0x2400, 0x1000);
    put32(&mut image, 0x2404, 14);
    put16(&mut image, 0x2408, 0xA010);
    put16(&mut image, 0x240A, 0x3020);
    put16(&mut image, 0x240C, 0x0030);
    put32(&mut image, 0x240E, 0x2000);
    put32(&mut image, 0x2412, 12);
    put16(&mut image, 0x2416, 0xA518);
    put16(&mut image, 0x2418, 0xA600);
    put64(&mut image, 0x241A, 0);
    let loader = Loader::new(image);
    let h = loader.headers().unwrap();
    let mut arena = loader.map_module(&h, ACTUAL, 0x4000).unwrap();
    relocate(&h, &mut arena).unwrap();
    let delta = ACTUAL - PREFERRED;
    assert_eq!(get64(&arena.bytes, 0x1010), PREFERRED + 0x2000 + delta);
    assert_eq!(
        u32::from_le_bytes(arena.bytes[0x1020..0x1024].try_into().unwrap()),
        0xFFFF_FFF0u32.wrapping_add(delta as u32)
    );
    assert_eq!(&arena.bytes[0x1024..0x1028], &[0, 0, 0, 0]);
    assert_eq!(get64(&arena.bytes, 0x1030), 0x1111_2222_3333_4444);
    assert_eq!(get64(&arena.bytes, 0x2518), PREFERRED + 0x2600 + delta);
}

#[test]
fn protection_ignores_other_characteristics() {
    let c = Characteristics::MemRead.bits() | Characteristics::MemWrite.bits();
    assert_eq!(protection_for(c), protection_for(c | 0x0200_0040));
}
