use vstd::prelude::*;

use crate::bytes::{fits, le_u16, le_u32, le_u64, read_u16, read_u32, read_u64};
use crate::rva::Rva;

verus! {

/// Target machine tags.
#[derive(Clone, Copy, Debug, PartialEq, Eq, Structural)]
pub enum Machine {
    X64,
    I386,
}

impl Machine {
    pub fn code(&self) -> (r: u16)
        ensures
            r == (match self {
                Machine::X64 => 0x8664u16,
                Machine::I386 => 0x14cu16,
            }),
    {
        match self {
            Machine::X64 => 0x8664,
            Machine::I386 => 0x14c,
        }
    }
}

/// Magic numbers at the start of the optional header.
#[derive(Clone, Copy, Debug, PartialEq, Eq, Structural)]
pub enum OptionalHeaderSignature {
    X64,
    X86,
    Rom,
}

impl OptionalHeaderSignature {
    pub fn code(&self) -> (r: u16)
        ensures
            r == (match self {
                OptionalHeaderSignature::X64 => 523u16,
                OptionalHeaderSignature::X86 => 267u16,
                OptionalHeaderSignature::Rom => 263u16,
            }),
    {
        match self {
            OptionalHeaderSignature::X64 => 523,
            OptionalHeaderSignature::X86 => 267,
            OptionalHeaderSignature::Rom => 263,
        }
    }
}

pub const MEM_EXECUTE: u32 = 0x2000_0000;

pub const MEM_READ: u32 = 0x4000_0000;

pub const MEM_WRITE: u32 = 0x8000_0000;

/// Section characteristic flags.
#[derive(Clone, Copy, Debug, PartialEq, Eq, Structural)]
pub enum Characteristics {
    NoPad,
    CntCode,
    CntInitializedData,
    CntUninitializedData,
    Gprel,
    NumRelocationsOverflow,
    MemExecute,
    MemRead,
    MemWrite,
}

impl Characteristics {
    pub open spec fn spec_bits(self) -> u32 {
        match self {
            Characteristics::NoPad => 0x8u32,
            Characteristics::CntCode => 0x20u32,
            Characteristics::CntInitializedData => 0x40u32,
            Characteristics::CntUninitializedData => 0x80u32,
            Characteristics::Gprel => 0x8000u32,
            Characteristics::NumRelocationsOverflow => 0x100_0000u32,
            Characteristics::MemExecute => MEM_EXECUTE,
            Characteristics::MemRead => MEM_READ,
            Characteristics::MemWrite => MEM_WRITE,
        }
    }

    /// The flag's bit in a section header's characteristics word.
    pub fn bits(&self) -> (r: u32)
        ensures
            r == self.spec_bits(),
    {
        match self {
            Characteristics::NoPad => 0x8,
            Characteristics::CntCode => 0x20,
            Characteristics::CntInitializedData => 0x40,
            Characteristics::CntUninitializedData => 0x80,
            Characteristics::Gprel => 0x8000,
            Characteristics::NumRelocationsOverflow => 0x100_0000,
            Characteristics::MemExecute => MEM_EXECUTE,
            Characteristics::MemRead => MEM_READ,
            Characteristics::MemWrite => MEM_WRITE,
        }
    }
}

/// Image-wide flags of the file header.
#[derive(Clone, Copy, Debug, PartialEq, Eq, Structural)]
pub enum FileCharacteristics {
    RelocsStripped,
    ExecutableImage,
    LineNumsStripped,
    LocalSymsStripped,
    LargeAddressAware,
    X86Machine,
    DebugStripped,
    RemovableRunFromSwap,
    NetRunFromSwap,
    System,
    Dll,
    SingleProcessorOnly,
}

impl FileCharacteristics {
    pub fn bits(&self) -> (r: u16)
        ensures
            r == (match self {
                FileCharacteristics::RelocsStripped => 0x1u16,
                FileCharacteristics::ExecutableImage => 0x2u16,
                FileCharacteristics::LineNumsStripped => 0x4u16,
                FileCharacteristics::LocalSymsStripped => 0x8u16,
                FileCharacteristics::LargeAddressAware => 0x20u16,
                FileCharacteristics::X86Machine => 0x100u16,
                FileCharacteristics::DebugStripped => 0x200u16,
                FileCharacteristics::RemovableRunFromSwap => 0x400u16,
                FileCharacteristics::NetRunFromSwap => 0x800u16,
                FileCharacteristics::System => 0x1000u16,
                FileCharacteristics::Dll => 0x2000u16,
                FileCharacteristics::SingleProcessorOnly => 0x4000u16,
            }),
    {
        match self {
            FileCharacteristics::RelocsStripped => 0x1,
            FileCharacteristics::ExecutableImage => 0x2,
            FileCharacteristics::LineNumsStripped => 0x4,
            FileCharacteristics::LocalSymsStripped => 0x8,
            FileCharacteristics::LargeAddressAware => 0x20,
            FileCharacteristics::X86Machine => 0x100,
            FileCharacteristics::DebugStripped => 0x200,
            FileCharacteristics::RemovableRunFromSwap => 0x400,
            FileCharacteristics::NetRunFromSwap => 0x800,
            FileCharacteristics::System => 0x1000,
            FileCharacteristics::Dll => 0x2000,
            FileCharacteristics::SingleProcessorOnly => 0x4000,
        }
    }
}

/// Subsystems an image may declare.
#[derive(Clone, Copy, Debug, PartialEq, Eq, Structural)]
pub enum Subsystem {
    Unknown,
    Native,
    WindowsGui,
    WindowsCui,
    Os2Cui,
    PosixCui,
    WindowsCeGui,
    EfiApplication,
    EfiBootServiceDriver,
    EfiRuntimeDriver,
    EfiRom,
    XBox,
    WindowsBootApplication,
}

impl Subsystem {
    pub open spec fn spec_code(self) -> u16 {
        match self {
            Subsystem::Unknown => 0u16,
            Subsystem::Native => 1u16,
            Subsystem::WindowsGui => 2u16,
            Subsystem::WindowsCui => 3u16,
            Subsystem::Os2Cui => 5u16,
            Subsystem::PosixCui => 7u16,
            Subsystem::WindowsCeGui => 9u16,
            Subsystem::EfiApplication => 10u16,
            Subsystem::EfiBootServiceDriver => 11u16,
            Subsystem::EfiRuntimeDriver => 12u16,
            Subsystem::EfiRom => 13u16,
            Subsystem::XBox => 14u16,
            Subsystem::WindowsBootApplication => 16u16,
        }
    }

    pub fn code(&self) -> (r: u16)
        ensures
            r == self.spec_code(),
    {
        match self {
            Subsystem::Unknown => 0,
            Subsystem::Native => 1,
            Subsystem::WindowsGui => 2,
            Subsystem::WindowsCui => 3,
            Subsystem::Os2Cui => 5,
            Subsystem::PosixCui => 7,
            Subsystem::WindowsCeGui => 9,
            Subsystem::EfiApplication => 10,
            Subsystem::EfiBootServiceDriver => 11,
            Subsystem::EfiRuntimeDriver => 12,
            Subsystem::EfiRom => 13,
            Subsystem::XBox => 14,
            Subsystem::WindowsBootApplication => 16,
        }
    }
}

/// Indices into the optional header's data-directory array.
#[derive(Clone, Copy, Debug, PartialEq, Eq, Structural)]
pub enum DirectoryEntry {
    Export,
    Import,
    Resource,
    Exception,
    Security,
    Basereloc,
    Debug,
    Architecture,
    Globalptr,
    Tls,
    LoadConfig,
    BoundImport,
    Iat,
    DelayImport,
    ComDescriptor,
}

impl DirectoryEntry {
    pub open spec fn spec_index(self) -> usize {
        match self {
            DirectoryEntry::Export => 0usize,
            DirectoryEntry::Import => 1usize,
            DirectoryEntry::Resource => 2usize,
            DirectoryEntry::Exception => 3usize,
            DirectoryEntry::Security => 4usize,
            DirectoryEntry::Basereloc => 5usize,
            DirectoryEntry::Debug => 6usize,
            DirectoryEntry::Architecture => 7usize,
            DirectoryEntry::Globalptr => 8usize,
            DirectoryEntry::Tls => 9usize,
            DirectoryEntry::LoadConfig => 10usize,
            DirectoryEntry::BoundImport => 11usize,
            DirectoryEntry::Iat => 12usize,
            DirectoryEntry::DelayImport => 13usize,
            DirectoryEntry::ComDescriptor => 14usize,
        }
    }

    pub fn index(&self) -> (r: usize)
        ensures
            r == self.spec_index(),
            r < NUM_DATA_ENTRIES,
    {
        match self {
            DirectoryEntry::Export => 0,
            DirectoryEntry::Import => 1,
            DirectoryEntry::Resource => 2,
            DirectoryEntry::Exception => 3,
            DirectoryEntry::Security => 4,
            DirectoryEntry::Basereloc => 5,
            DirectoryEntry::Debug => 6,
            DirectoryEntry::Architecture => 7,
            DirectoryEntry::Globalptr => 8,
            DirectoryEntry::Tls => 9,
            DirectoryEntry::LoadConfig => 10,
            DirectoryEntry::BoundImport => 11,
            DirectoryEntry::Iat => 12,
            DirectoryEntry::DelayImport => 13,
            DirectoryEntry::ComDescriptor => 14,
        }
    }
}

/// Flags of the optional header's DLL-characteristics word.
#[derive(Clone, Copy, Debug, PartialEq, Eq, Structural)]
pub enum DllCharacteristics {
    DynamicBase,
    ForceIntegrity,
    NxCompat,
    NoIsolation,
    NoSeh,
    NoBind,
    WdmDriver,
    TerminalServerAware,
}

impl DllCharacteristics {
    pub fn bits(&self) -> (r: u16)
        ensures
            r == (match self {
                DllCharacteristics::DynamicBase => 0x40u16,
                DllCharacteristics::ForceIntegrity => 0x80u16,
                DllCharacteristics::NxCompat => 0x100u16,
                DllCharacteristics::NoIsolation => 0x200u16,
                DllCharacteristics::NoSeh => 0x400u16,
                DllCharacteristics::NoBind => 0x800u16,
                DllCharacteristics::WdmDriver => 0x2000u16,
                DllCharacteristics::TerminalServerAware => 0x8000u16,
            }),
    {
        match self {
            DllCharacteristics::DynamicBase => 0x40,
            DllCharacteristics::ForceIntegrity => 0x80,
            DllCharacteristics::NxCompat => 0x100,
            DllCharacteristics::NoIsolation => 0x200,
            DllCharacteristics::NoSeh => 0x400,
            DllCharacteristics::NoBind => 0x800,
            DllCharacteristics::WdmDriver => 0x2000,
            DllCharacteristics::TerminalServerAware => 0x8000,
        }
    }
}

/// The 4-bit type tag of a base-relocation record.
#[derive(Clone, Copy, Debug, PartialEq, Eq, Structural)]
pub struct RelocationType(pub u16);

pub const RELOCATE_ABSOLUTE: u16 = 0;

pub const RELOCATE_HIGH_LOW: u16 = 3;

pub const RELOCATE_DIR64: u16 = 10;

pub const NUM_DATA_ENTRIES: usize = 16;

pub const FILE_HEADER_SIZE: usize = 20;

pub const OPTIONAL_HEADER_SIZE: usize = 112;

pub const SECTION_HEADER_SIZE: usize = 40;

/// Offset of the PE header, as the DOS header gives it.
pub open spec fn pe_offset(s: Seq<u8>) -> int {
    le_u32(s, 0x3c)
}

/// Offset of the optional header.
pub open spec fn optional_offset(s: Seq<u8>) -> int {
    pe_offset(s) + 4 + FILE_HEADER_SIZE
}

/// Offset of the section table.
pub open spec fn sections_offset(s: Seq<u8>) -> int {
    optional_offset(s) + le_u16(s, pe_offset(s) + 4 + 16)
}

/// The DOS header; only the offset of the PE header is kept.
#[derive(Clone, Copy, Debug, PartialEq, Eq, Structural)]
pub struct DosHeader {
    pub offset_to_pe_header: u32,
}

/// Machine tag, section count and the size of the optional header.
#[derive(Clone, Copy, Debug, PartialEq, Eq, Structural)]
pub struct FileHeader {
    pub machine: u16,
    pub num_sections: u16,
    pub time_date: u32,
    pub p_symbol_table: u32,
    pub num_symbols: u32,
    pub size_optional_header: u16,
    pub characteristics: u16,
}

impl FileHeader {
    pub open spec fn read_from(self, s: Seq<u8>, at: int) -> bool {
        &&& self.machine == le_u16(s, at)
        &&& self.num_sections == le_u16(s, at + 2)
        &&& self.time_date == le_u32(s, at + 4)
        &&& self.p_symbol_table == le_u32(s, at + 8)
        &&& self.num_symbols == le_u32(s, at + 12)
        &&& self.size_optional_header == le_u16(s, at + 16)
        &&& self.characteristics == le_u16(s, at + 18)
    }

    pub fn parse(s: &[u8], at: usize) -> (r: Option<FileHeader>)
        ensures
            r is Some <==> fits(s@, at as int, FILE_HEADER_SIZE as int),
            r matches Some(h) ==> h.read_from(s@, at as int),
    {
        if at > s.len() || s.len() - at < FILE_HEADER_SIZE {
            return None;
        }
        Some(FileHeader {
            machine: read_u16(s, at).unwrap(),
            num_sections: read_u16(s, at + 2).unwrap(),
            time_date: read_u32(s, at + 4).unwrap(),
            p_symbol_table: read_u32(s, at + 8).unwrap(),
            num_symbols: read_u32(s, at + 12).unwrap(),
            size_optional_header: read_u16(s, at + 16).unwrap(),
            characteristics: read_u16(s, at + 18).unwrap(),
        })
    }
}

/// One entry of the data-directory array: where a directory lies and how large it is.
#[derive(Clone, Copy, Debug, PartialEq, Eq, Structural)]
pub struct DataEntry {
    pub virtual_address: Rva,
    pub size: u32,
}

impl DataEntry {
    pub open spec fn read_from(self, s: Seq<u8>, at: int) -> bool {
        self.virtual_address.value == le_u32(s, at) && self.size == le_u32(s, at + 4)
    }
}

/// The fields of the optional header that the loader uses.
#[derive(Clone, Debug)]
pub struct OptionalHeader {
    pub signature: u16,
    pub address_of_entry_point: u32,
    pub image_base: u64,
    pub section_alignment: u32,
    pub size_of_image: u32,
    pub size_of_headers: u32,
    pub subsystem: u16,
    pub num_of_rva_and_sizes: u32,
    pub data_entries: Vec<DataEntry>,
}

impl OptionalHeader {
    pub open spec fn read_from(self, s: Seq<u8>, at: int) -> bool {
        &&& self.signature == le_u16(s, at)
        &&& self.address_of_entry_point == le_u32(s, at + 16)
        &&& self.image_base == le_u64(s, at + 24)
        &&& self.section_alignment == le_u32(s, at + 32)
        &&& self.size_of_image == le_u32(s, at + 56)
        &&& self.size_of_headers == le_u32(s, at + 60)
        &&& self.subsystem == le_u16(s, at + 68)
        &&& self.num_of_rva_and_sizes == le_u32(s, at + 108)
        &&& self.data_entries@.len() == NUM_DATA_ENTRIES
        &&& forall|i: int|
            0 <= i < NUM_DATA_ENTRIES ==> #[trigger] self.data_entries@[i].read_from(
                s,
                at + OPTIONAL_HEADER_SIZE + 8 * i,
            )
    }

    pub open spec fn size_in_file() -> int {
        OPTIONAL_HEADER_SIZE + 8 * NUM_DATA_ENTRIES
    }

    pub fn parse(s: &[u8], at: usize) -> (r: Option<OptionalHeader>)
        ensures
            r is Some <==> fits(s@, at as int, Self::size_in_file()),
            r matches Some(h) ==> h.read_from(s@, at as int),
    {
        if at > s.len() || s.len() - at < OPTIONAL_HEADER_SIZE + 8 * NUM_DATA_ENTRIES {
            return None;
        }
        let mut data_entries: Vec<DataEntry> = Vec::new();
        let mut i: usize = 0;
        while i < NUM_DATA_ENTRIES
            invariant
                i <= NUM_DATA_ENTRIES,
                at + OPTIONAL_HEADER_SIZE + 8 * NUM_DATA_ENTRIES <= s.len(),
                data_entries@.len() == i,
                forall|k: int|
                    0 <= k < i ==> #[trigger] data_entries@[k].read_from(
                        s@,
                        at + OPTIONAL_HEADER_SIZE + 8 * k,
                    ),
            decreases NUM_DATA_ENTRIES - i,
        {
            let p = at + OPTIONAL_HEADER_SIZE + 8 * i;
            let entry = DataEntry {
                virtual_address: Rva { value: read_u32(s, p).unwrap() },
                size: read_u32(s, p + 4).unwrap(),
            };
            data_entries.push(entry);
            i = i + 1;
        }
        Some(OptionalHeader {
            signature: read_u16(s, at).unwrap(),
            address_of_entry_point: read_u32(s, at + 16).unwrap(),
            image_base: read_u64(s, at + 24).unwrap(),
            section_alignment: read_u32(s, at + 32).unwrap(),
            size_of_image: read_u32(s, at + 56).unwrap(),
            size_of_headers: read_u32(s, at + 60).unwrap(),
            subsystem: read_u16(s, at + 68).unwrap(),
            num_of_rva_and_sizes: read_u32(s, at + 108).unwrap(),
            data_entries,
        })
    }

    pub open spec fn spec_data_entry(self, e: DirectoryEntry) -> DataEntry {
        self.data_entries@[e.spec_index() as int]
    }

    /// The data directory that `e` names.
    pub fn data_entry(&self, e: DirectoryEntry) -> (r: DataEntry)
        requires
            self.data_entries@.len() == NUM_DATA_ENTRIES,
        ensures
            r == self.spec_data_entry(e),
    {
        self.data_entries[e.index()]
    }
}

/// One entry of the section table.
#[derive(Clone, Copy, Debug, PartialEq, Eq)]
pub struct ImageSectionHeader {
    pub name: [u8; 8],
    pub virtual_size: u32,
    pub virtual_address: Rva,
    pub size_of_raw_data: u32,
    pub p_raw_data: u32,
    pub characteristics: u32,
}

impl ImageSectionHeader {
    pub open spec fn read_from(self, s: Seq<u8>, at: int) -> bool {
        &&& self.name@ == s.subrange(at, at + 8)
        &&& self.virtual_size == le_u32(s, at + 8)
        &&& self.virtual_address.value == le_u32(s, at + 12)
        &&& self.size_of_raw_data == le_u32(s, at + 16)
        &&& self.p_raw_data == le_u32(s, at + 20)
        &&& self.characteristics == le_u32(s, at + 36)
    }

    pub fn parse(s: &[u8], at: usize) -> (r: Option<ImageSectionHeader>)
        ensures
            r is Some <==> fits(s@, at as int, SECTION_HEADER_SIZE as int),
            r matches Some(h) ==> h.read_from(s@, at as int),
    {
        if at > s.len() || s.len() - at < SECTION_HEADER_SIZE {
            return None;
        }
        let name: [u8; 8] = [
            s[at],
            s[at + 1],
            s[at + 2],
            s[at + 3],
            s[at + 4],
            s[at + 5],
            s[at + 6],
            s[at + 7],
        ];
        assert(name@ =~= s@.subrange(at as int, at + 8));
        Some(ImageSectionHeader {
            name,
            virtual_size: read_u32(s, at + 8).unwrap(),
            virtual_address: Rva { value: read_u32(s, at + 12).unwrap() },
            size_of_raw_data: read_u32(s, at + 16).unwrap(),
            p_raw_data: read_u32(s, at + 20).unwrap(),
            characteristics: read_u32(s, at + 36).unwrap(),
        })
    }
}

/// The headers of an image: the DOS header, the file and optional headers of the PE
/// header, and the section table that follows them.
#[derive(Clone, Debug)]
pub struct PeHeader {
    pub dos_header: DosHeader,
    pub file_header: FileHeader,
    pub optional_header: OptionalHeader,
    pub sections: Vec<ImageSectionHeader>,
}

/// The headers lie wholly inside `s`.
pub open spec fn headers_fit(s: Seq<u8>) -> bool {
    &&& fits(s, 0x3c, 4)
    &&& fits(s, pe_offset(s) + 4, FILE_HEADER_SIZE as int)
    &&& fits(s, optional_offset(s), OptionalHeader::size_in_file())
    &&& fits(s, sections_offset(s), SECTION_HEADER_SIZE * le_u16(s, pe_offset(s) + 4 + 2))
}

impl PeHeader {
    pub open spec fn read_from(self, s: Seq<u8>) -> bool {
        &&& self.dos_header.offset_to_pe_header == pe_offset(s)
        &&& self.file_header.read_from(s, pe_offset(s) + 4)
        &&& self.optional_header.read_from(s, optional_offset(s))
        &&& self.sections@.len() == self.file_header.num_sections
        &&& forall|i: int|
            0 <= i < self.sections@.len() ==> #[trigger] self.sections@[i].read_from(
                s,
                sections_offset(s) + SECTION_HEADER_SIZE * i,
            )
    }

    /// Reads the headers of the image in `s`; `None` when any of them runs past its end.
    pub fn parse(s: &[u8]) -> (r: Option<PeHeader>)
        ensures
            r is Some <==> headers_fit(s@),
            r matches Some(h) ==> h.read_from(s@),
    {
        let pe = match read_u32(s, 0x3c) {
            Some(v) => v,
            None => return None,
        };
        let dos_header = DosHeader { offset_to_pe_header: pe };
        let len = s.len() as u64;
        if pe as u64 + 4 > len {
            return None;
        }
        let file_header = match FileHeader::parse(s, pe as usize + 4) {
            Some(h) => h,
            None => return None,
        };
        let opt_at = pe as usize + 4 + FILE_HEADER_SIZE;
        let optional_header = match OptionalHeader::parse(s, opt_at) {
            Some(h) => h,
            None => return None,
        };
        let sec_at64 = opt_at as u64 + file_header.size_optional_header as u64;
        let n = file_header.num_sections as usize;
        if sec_at64 + (SECTION_HEADER_SIZE as u64) * (n as u64) > len {
            return None;
        }
        let sec_at = sec_at64 as usize;
        let mut sections: Vec<ImageSectionHeader> = Vec::new();
        let mut i: usize = 0;
        while i < n
            invariant
                i <= n,
                sec_at + SECTION_HEADER_SIZE * n <= s.len(),
                sections@.len() == i,
                forall|k: int|
                    0 <= k < i ==> #[trigger] sections@[k].read_from(
                        s@,
                        sec_at + SECTION_HEADER_SIZE * k,
                    ),
            decreases n - i,
        {
            let h = ImageSectionHeader::parse(s, sec_at + SECTION_HEADER_SIZE * i).unwrap();
            sections.push(h);
            i = i + 1;
        }
        Some(PeHeader { dos_header, file_header, optional_header, sections })
    }
}

/// The headers read from one buffer are the same, whichever value holds them.
pub proof fn lemma_headers_unique(g: PeHeader, h: PeHeader, s: Seq<u8>)
    requires
        g.read_from(s),
        h.read_from(s),
    ensures
        g.sections@ == h.sections@,
        g.optional_header.data_entries@ == h.optional_header.data_entries@,
        g.optional_header.image_base == h.optional_header.image_base,
        g.optional_header.size_of_headers == h.optional_header.size_of_headers,
        g.optional_header.section_alignment == h.optional_header.section_alignment,
        g.optional_header.address_of_entry_point == h.optional_header.address_of_entry_point,
{
    assert forall|i: int| 0 <= i < g.sections@.len() implies g.sections@[i] == h.sections@[i] by {
        assert(g.sections@[i].read_from(s, sections_offset(s) + SECTION_HEADER_SIZE * i));
        assert(h.sections@[i].read_from(s, sections_offset(s) + SECTION_HEADER_SIZE * i));
        assert(g.sections@[i].name =~= h.sections@[i].name);
    }
    assert(g.sections@ =~= h.sections@);
    let at = optional_offset(s);
    assert forall|i: int| 0 <= i < NUM_DATA_ENTRIES implies g.optional_header.data_entries@[i]
        == h.optional_header.data_entries@[i] by {
        assert(g.optional_header.data_entries@[i].read_from(s, at + OPTIONAL_HEADER_SIZE + 8 * i));
        assert(h.optional_header.data_entries@[i].read_from(s, at + OPTIONAL_HEADER_SIZE + 8 * i));
    }
    assert(g.optional_header.data_entries@ =~= h.optional_header.data_entries@);
}

} // verus!
