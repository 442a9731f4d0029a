//! Decoders for the DOS header, the COFF file header, the optional header,
//! the data-directory table and the section table. Every multi-byte field is
//! read little-endian through the byte cursor, and each decoder's contract
//! states the exact bytes every field comes from.

use vstd::prelude::*;

use crate::cursor::{le16, le32, le64, Cursor, PeError};

verus! {

/// The leading header of the image: the 2-byte magic and, at offset 60, the
/// 4-byte pointer to the COFF header. The reserved stub region between them
/// is skipped, not interpreted.
#[derive(Clone, Copy)]
pub struct DosHeader {
    pub magic: u16,
    pub e_lfanew: u32,
}

/// The COFF file header: 20 bytes.
#[derive(Clone, Copy)]
pub struct FileHeader {
    pub machine: u16,
    pub number_of_sections: u16,
    pub time_date_stamp: u32,
    pub pointer_to_symbol_table: u32,
    pub number_of_symbols: u32,
    pub size_of_optional_header: u16,
    pub characteristics: u16,
}

/// The optional header in its 64-bit layout: 112 bytes up to and including
/// the count of data directories.
#[derive(Clone, Copy)]
pub struct OptionalHeader {
    pub magic: u16,
    pub major_linker_version: u8,
    pub minor_linker_version: u8,
    pub size_of_code: u32,
    pub size_of_initialized_data: u32,
    pub size_of_uninitialized_data: u32,
    pub address_of_entry_point: u32,
    pub base_of_code: u32,
    pub image_base: u64,
    pub section_alignment: u32,
    pub file_alignment: u32,
    pub major_operating_system_version: u16,
    pub minor_operating_system_version: u16,
    pub major_image_version: u16,
    pub minor_image_version: u16,
    pub major_subsystem_version: u16,
    pub minor_subsystem_version: u16,
    pub win32_version_value: u32,
    pub size_of_image: u32,
    pub size_of_headers: u32,
    pub checksum: u32,
    pub subsystem: u16,
    pub dll_characteristics: u16,
    pub size_of_stack_reserve: u64,
    pub size_of_stack_commit: u64,
    pub size_of_heap_reserve: u64,
    pub size_of_heap_commit: u64,
    pub loader_flags: u32,
    pub number_of_rva_and_sizes: u32,
}

/// One entry of the section table: 40 bytes. The 8-byte name is kept as the
/// little-endian value of its bytes.
#[derive(Clone, Copy)]
pub struct OptionalHeaderSection {
    pub name: u64,
    pub physical_address: u32,
    pub virtual_address: u32,
    pub size_of_raw_data: u32,
    pub pointer_to_raw_data: u32,
    pub pointer_to_relocations: u32,
    pub pointer_to_line_numbers: u32,
    pub number_of_relocations: u16,
    pub number_of_line_numbers: u16,
    pub characteristics: u32,
}

/// One data-directory pair: 8 bytes.
#[derive(Clone, Copy)]
pub struct SectionDataDirectory {
    pub virtual_address: u32,
    pub size: u32,
}

/// Everything the COFF pointer leads to: signature, file header, optional
/// header, data directories and the section table.
pub struct ELfanew {
    pub signature: u32,
    pub file_header: FileHeader,
    pub optional_header: OptionalHeader,
    pub data_directories: Vec<SectionDataDirectory>,
    pub sections: Vec<OptionalHeaderSection>,
}

/// The DOS header fields of `s`, decoded from position `p`.
pub open spec fn spec_dos_header(s: Seq<u8>, p: int) -> DosHeader {
    DosHeader { magic: le16(s, p), e_lfanew: le32(s, p + 60) }
}

/// The COFF file-header fields of `s`, decoded from position `p`.
pub open spec fn spec_file_header(s: Seq<u8>, p: int) -> FileHeader {
    FileHeader {
        machine: le16(s, p),
        number_of_sections: le16(s, p + 2),
        time_date_stamp: le32(s, p + 4),
        pointer_to_symbol_table: le32(s, p + 8),
        number_of_symbols: le32(s, p + 12),
        size_of_optional_header: le16(s, p + 16),
        characteristics: le16(s, p + 18),
    }
}

/// The optional-header fields of `s`, decoded from position `p`.
pub open spec fn spec_optional_header(s: Seq<u8>, p: int) -> OptionalHeader {
    OptionalHeader {
        magic: le16(s, p),
        major_linker_version: s[p + 2],
        minor_linker_version: s[p + 3],
        size_of_code: le32(s, p + 4),
        size_of_initialized_data: le32(s, p + 8),
        size_of_uninitialized_data: le32(s, p + 12),
        address_of_entry_point: le32(s, p + 16),
        base_of_code: le32(s, p + 20),
        image_base: le64(s, p + 24),
        section_alignment: le32(s, p + 32),
        file_alignment: le32(s, p + 36),
        major_operating_system_version: le16(s, p + 40),
        minor_operating_system_version: le16(s, p + 42),
        major_image_version: le16(s, p + 44),
        minor_image_version: le16(s, p + 46),
        major_subsystem_version: le16(s, p + 48),
        minor_subsystem_version: le16(s, p + 50),
        win32_version_value: le32(s, p + 52),
        size_of_image: le32(s, p + 56),
        size_of_headers: le32(s, p + 60),
        checksum: le32(s, p + 64),
        subsystem: le16(s, p + 68),
        dll_characteristics: le16(s, p + 70),
        size_of_stack_reserve: le64(s, p + 72),
        size_of_stack_commit: le64(s, p + 80),
        size_of_heap_reserve: le64(s, p + 88),
        size_of_heap_commit: le64(s, p + 96),
        loader_flags: le32(s, p + 104),
        number_of_rva_and_sizes: le32(s, p + 108),
    }
}

/// One section-table entry of `s`, decoded from position `p`.
pub open spec fn spec_section(s: Seq<u8>, p: int) -> OptionalHeaderSection {
    OptionalHeaderSection {
        name: le64(s, p),
        physical_address: le32(s, p + 8),
        virtual_address: le32(s, p + 12),
        size_of_raw_data: le32(s, p + 16),
        pointer_to_raw_data: le32(s, p + 20),
        pointer_to_relocations: le32(s, p + 24),
        pointer_to_line_numbers: le32(s, p + 28),
        number_of_relocations: le16(s, p + 32),
        number_of_line_numbers: le16(s, p + 34),
        characteristics: le32(s, p + 36),
    }
}

/// One data-directory pair of `s`, decoded from position `p`.
pub open spec fn spec_data_dir(s: Seq<u8>, p: int) -> SectionDataDirectory {
    SectionDataDirectory { virtual_address: le32(s, p), size: le32(s, p + 4) }
}

/// The `n` data-directory pairs of `s` starting at position `p`.
pub open spec fn spec_data_dirs(s: Seq<u8>, p: int, n: int) -> Seq<SectionDataDirectory> {
    Seq::new(n as nat, |k: int| spec_data_dir(s, p + 8 * k))
}

/// The `n` section-table entries of `s` starting at position `p`.
pub open spec fn spec_sections(s: Seq<u8>, p: int, n: int) -> Seq<OptionalHeaderSection> {
    Seq::new(n as nat, |k: int| spec_section(s, p + 40 * k))
}

/// The count of data directories a COFF block at `p` declares.
pub open spec fn spec_num_data_dirs(s: Seq<u8>, p: int) -> int {
    le32(s, p + 132) as int
}

/// The count of sections a COFF block at `p` declares.
pub open spec fn spec_num_sections(s: Seq<u8>, p: int) -> int {
    le16(s, p + 6) as int
}

/// Whether a whole COFF block (signature through section table) starting at
/// `p` lies within `s`.
pub open spec fn spec_elfanew_ok(s: Seq<u8>, p: int) -> bool {
    &&& p + 136 <= s.len()
    &&& p + 136 + 8 * spec_num_data_dirs(s, p) + 40 * spec_num_sections(s, p) <= s.len()
}

/// The position just past a COFF block starting at `p`.
pub open spec fn spec_elfanew_end(s: Seq<u8>, p: int) -> int {
    p + 136 + 8 * spec_num_data_dirs(s, p) + 40 * spec_num_sections(s, p)
}

impl DosHeader {
    pub fn new() -> (r: DosHeader)
        ensures
            r == (DosHeader { magic: 0, e_lfanew: 0 }),
    {
        DosHeader { magic: 0, e_lfanew: 0 }
    }

    /// Decodes the DOS header at the cursor's position: 64 bytes.
    pub fn to_object(c: &mut Cursor) -> (r: Result<DosHeader, PeError>)
        ensures
            final(c).data == old(c).data,
            old(c).pos + 64 <= old(c).data@.len() ==> r == Ok::<DosHeader, PeError>(
                spec_dos_header(old(c).data@, old(c).pos as int),
            ) && final(c).pos == old(c).pos + 64,
            old(c).pos + 64 > old(c).data@.len() ==> r == Err::<DosHeader, PeError>(
                PeError::Truncated,
            ),
    {
        if !c.has(64) {
            return Err(PeError::Truncated);
        }
        let start = c.position();
        let magic = c.read_u16()?;
        c.seek(start + 60);
        let e_lfanew = c.read_u32()?;
        Ok(DosHeader { magic, e_lfanew })
    }
}

impl FileHeader {
    pub fn new() -> (r: FileHeader)
        ensures
            r == (FileHeader {
                machine: 0,
                number_of_sections: 0,
                time_date_stamp: 0,
                pointer_to_symbol_table: 0,
                number_of_symbols: 0,
                size_of_optional_header: 0,
                characteristics: 0,
            }),
    {
        FileHeader {
            machine: 0,
            number_of_sections: 0,
            time_date_stamp: 0,
            pointer_to_symbol_table: 0,
            number_of_symbols: 0,
            size_of_optional_header: 0,
            characteristics: 0,
        }
    }

    /// Decodes the COFF file header at the cursor's position: 20 bytes.
    pub fn to_object(c: &mut Cursor) -> (r: Result<FileHeader, PeError>)
        ensures
            final(c).data == old(c).data,
            old(c).pos + 20 <= old(c).data@.len() ==> r == Ok::<FileHeader, PeError>(
                spec_file_header(old(c).data@, old(c).pos as int),
            ) && final(c).pos == old(c).pos + 20,
            old(c).pos + 20 > old(c).data@.len() ==> r == Err::<FileHeader, PeError>(
                PeError::Truncated,
            ),
    {
        if !c.has(20) {
            return Err(PeError::Truncated);
        }
        let machine = c.read_u16()?;
        let number_of_sections = c.read_u16()?;
        let time_date_stamp = c.read_u32()?;
        let pointer_to_symbol_table = c.read_u32()?;
        let number_of_symbols = c.read_u32()?;
        let size_of_optional_header = c.read_u16()?;
        let characteristics = c.read_u16()?;
        Ok(
            FileHeader {
                machine,
                number_of_sections,
                time_date_stamp,
                pointer_to_symbol_table,
                number_of_symbols,
                size_of_optional_header,
                characteristics,
            },
        )
    }
}

impl OptionalHeader {
    pub fn new() -> (r: OptionalHeader)
        ensures
            r == spec_zero_optional_header(),
    {
        OptionalHeader {
            magic: 0,
            major_linker_version: 0,
            minor_linker_version: 0,
            size_of_code: 0,
            size_of_initialized_data: 0,
            size_of_uninitialized_data: 0,
            address_of_entry_point: 0,
            base_of_code: 0,
            image_base: 0,
            section_alignment: 0,
            file_alignment: 0,
            major_operating_system_version: 0,
            minor_operating_system_version: 0,
            major_image_version: 0,
            minor_image_version: 0,
            major_subsystem_version: 0,
            minor_subsystem_version: 0,
            win32_version_value: 0,
            size_of_image: 0,
            size_of_headers: 0,
            checksum: 0,
            subsystem: 0,
            dll_characteristics: 0,
            size_of_stack_reserve: 0,
            size_of_stack_commit: 0,
            size_of_heap_reserve: 0,
            size_of_heap_commit: 0,
            loader_flags: 0,
            number_of_rva_and_sizes: 0,
        }
    }

    /// Decodes the optional header at the cursor's position: 112 bytes.
    pub fn to_object(c: &mut Cursor) -> (r: Result<OptionalHeader, PeError>)
        ensures
            final(c).data == old(c).data,
            old(c).pos + 112 <= old(c).data@.len() ==> r == Ok::<OptionalHeader, PeError>(
                spec_optional_header(old(c).data@, old(c).pos as int),
            ) && final(c).pos == old(c).pos + 112,
            old(c).pos + 112 > old(c).data@.len() ==> r == Err::<OptionalHeader, PeError>(
                PeError::Truncated,
            ),
    {
        if !c.has(112) {
            return Err(PeError::Truncated);
        }
        let magic = c.read_u16()?;
        let major_linker_version = c.read_u8()?;
        let minor_linker_version = c.read_u8()?;
        let size_of_code = c.read_u32()?;
        let size_of_initialized_data = c.read_u32()?;
        let size_of_uninitialized_data = c.read_u32()?;
        let address_of_entry_point = c.read_u32()?;
        let base_of_code = c.read_u32()?;
        let image_base = c.read_u64()?;
        let section_alignment = c.read_u32()?;
        let file_alignment = c.read_u32()?;
        let major_operating_system_version = c.read_u16()?;
        let minor_operating_system_version = c.read_u16()?;
        let major_image_version = c.read_u16()?;
        let minor_image_version = c.read_u16()?;
        let major_subsystem_version = c.read_u16()?;
        let minor_subsystem_version = c.read_u16()?;
        let win32_version_value = c.read_u32()?;
        let size_of_image = c.read_u32()?;
        let size_of_headers = c.read_u32()?;
        let checksum = c.read_u32()?;
        let subsystem = c.read_u16()?;
        let dll_characteristics = c.read_u16()?;
        let size_of_stack_reserve = c.read_u64()?;
        let size_of_stack_commit = c.read_u64()?;
        let size_of_heap_reserve = c.read_u64()?;
        let size_of_heap_commit = c.read_u64()?;
        let loader_flags = c.read_u32()?;
        let number_of_rva_and_sizes = c.read_u32()?;
        Ok(
            OptionalHeader {
                magic,
                major_linker_version,
                minor_linker_version,
                size_of_code,
                size_of_initialized_data,
                size_of_uninitialized_data,
                address_of_entry_point,
                base_of_code,
                image_base,
                section_alignment,
                file_alignment,
                major_operating_system_version,
                minor_operating_system_version,
                major_image_version,
                minor_image_version,
                major_subsystem_version,
                minor_subsystem_version,
                win32_version_value,
                size_of_image,
                size_of_headers,
                checksum,
                subsystem,
                dll_characteristics,
                size_of_stack_reserve,
                size_of_stack_commit,
                size_of_heap_reserve,
                size_of_heap_commit,
                loader_flags,
                number_of_rva_and_sizes,
            },
        )
    }
}

/// An all-zero file header, as `FileHeader::new` builds it.
pub open spec fn spec_zero_file_header() -> FileHeader {
    FileHeader {
        machine: 0,
        number_of_sections: 0,
        time_date_stamp: 0,
        pointer_to_symbol_table: 0,
        number_of_symbols: 0,
        size_of_optional_header: 0,
        characteristics: 0,
    }
}

/// An all-zero optional header, as `OptionalHeader::new` builds it.
pub open spec fn spec_zero_optional_header() -> OptionalHeader {
    OptionalHeader {
        magic: 0,
        major_linker_version: 0,
        minor_linker_version: 0,
        size_of_code: 0,
        size_of_initialized_data: 0,
        size_of_uninitialized_data: 0,
        address_of_entry_point: 0,
        base_of_code: 0,
        image_base: 0,
        section_alignment: 0,
        file_alignment: 0,
        major_operating_system_version: 0,
        minor_operating_system_version: 0,
        major_image_version: 0,
        minor_image_version: 0,
        major_subsystem_version: 0,
        minor_subsystem_version: 0,
        win32_version_value: 0,
        size_of_image: 0,
        size_of_headers: 0,
        checksum: 0,
        subsystem: 0,
        dll_characteristics: 0,
        size_of_stack_reserve: 0,
        size_of_stack_commit: 0,
        size_of_heap_reserve: 0,
        size_of_heap_commit: 0,
        loader_flags: 0,
        number_of_rva_and_sizes: 0,
    }
}

impl OptionalHeaderSection {
    pub fn new() -> (r: OptionalHeaderSection)
        ensures
            r == (OptionalHeaderSection {
                name: 0,
                physical_address: 0,
                virtual_address: 0,
                size_of_raw_data: 0,
                pointer_to_raw_data: 0,
                pointer_to_relocations: 0,
                pointer_to_line_numbers: 0,
                number_of_relocations: 0,
                number_of_line_numbers: 0,
                characteristics: 0,
            }),
    {
        OptionalHeaderSection {
            name: 0,
            physical_address: 0,
            virtual_address: 0,
            size_of_raw_data: 0,
            pointer_to_raw_data: 0,
            pointer_to_relocations: 0,
            pointer_to_line_numbers: 0,
            number_of_relocations: 0,
            number_of_line_numbers: 0,
            characteristics: 0,
        }
    }

    /// Decodes one section-table entry at the cursor's position: 40 bytes.
    pub fn to_object(c: &mut Cursor) -> (r: Result<OptionalHeaderSection, PeError>)
        ensures
            final(c).data == old(c).data,
            old(c).pos + 40 <= old(c).data@.len() ==> r == Ok::<OptionalHeaderSection, PeError>(
                spec_section(old(c).data@, old(c).pos as int),
            ) && final(c).pos == old(c).pos + 40,
            old(c).pos + 40 > old(c).data@.len() ==> r == Err::<OptionalHeaderSection, PeError>(
                PeError::Truncated,
            ),
    {
        if !c.has(40) {
            return Err(PeError::Truncated);
        }
        let name = c.read_u64()?;
        let physical_address = c.read_u32()?;
        let virtual_address = c.read_u32()?;
        let size_of_raw_data = c.read_u32()?;
        let pointer_to_raw_data = c.read_u32()?;
        let pointer_to_relocations = c.read_u32()?;
        let pointer_to_line_numbers = c.read_u32()?;
        let number_of_relocations = c.read_u16()?;
        let number_of_line_numbers = c.read_u16()?;
        let characteristics = c.read_u32()?;
        Ok(
            OptionalHeaderSection {
                name,
                physical_address,
                virtual_address,
                size_of_raw_data,
                pointer_to_raw_data,
                pointer_to_relocations,
                pointer_to_line_numbers,
                number_of_relocations,
                number_of_line_numbers,
                characteristics,
            },
        )
    }
}

impl SectionDataDirectory {
    pub fn new() -> (r: SectionDataDirectory)
        ensures
            r == (SectionDataDirectory { virtual_address: 0, size: 0 }),
    {
        SectionDataDirectory { virtual_address: 0, size: 0 }
    }

    /// Decodes one data-directory pair at the cursor's position: 8 bytes.
    pub fn to_object(c: &mut Cursor) -> (r: Result<SectionDataDirectory, PeError>)
        ensures
            final(c).data == old(c).data,
            old(c).pos + 8 <= old(c).data@.len() ==> r == Ok::<SectionDataDirectory, PeError>(
                spec_data_dir(old(c).data@, old(c).pos as int),
            ) && final(c).pos == old(c).pos + 8,
            old(c).pos + 8 > old(c).data@.len() ==> r == Err::<SectionDataDirectory, PeError>(
                PeError::Truncated,
            ),
    {
        if !c.has(8) {
            return Err(PeError::Truncated);
        }
        let virtual_address = c.read_u32()?;
        let size = c.read_u32()?;
        Ok(SectionDataDirectory { virtual_address, size })
    }
}

impl ELfanew {
    pub fn new() -> (r: ELfanew)
        ensures
            r.signature == 0,
            r.file_header == spec_zero_file_header(),
            r.optional_header == spec_zero_optional_header(),
            r.data_directories@.len() == 0,
            r.sections@.len() == 0,
    {
        ELfanew {
            signature: 0,
            file_header: FileHeader::new(),
            optional_header: OptionalHeader::new(),
            data_directories: Vec::new(),
            sections: Vec::new(),
        }
    }

    /// Decodes the whole COFF block at the cursor's position: signature,
    /// file header, optional header, the declared number of data-directory
    /// pairs, and the declared number of section-table entries.
    pub fn to_object(c: &mut Cursor) -> (r: Result<ELfanew, PeError>)
        ensures
            final(c).data == old(c).data,
            ({
                let s = old(c).data@;
                let p = old(c).pos as int;
                match r {
                    Ok(e) => {
                        &&& spec_elfanew_ok(s, p)
                        &&& e.signature == le32(s, p)
                        &&& e.file_header == spec_file_header(s, p + 4)
                        &&& e.optional_header == spec_optional_header(s, p + 24)
                        &&& e.data_directories@ == spec_data_dirs(
                            s,
                            p + 136,
                            spec_num_data_dirs(s, p),
                        )
                        &&& e.sections@ == spec_sections(
                            s,
                            p + 136 + 8 * spec_num_data_dirs(s, p),
                            spec_num_sections(s, p),
                        )
                        &&& final(c).pos == spec_elfanew_end(s, p)
                    },
                    Err(e) => e == PeError::Truncated && !spec_elfanew_ok(s, p),
                }
            }),
    {
        let ghost s = c.data@;
        let ghost p = c.pos as int;
        if !c.has(136) {
            return Err(PeError::Truncated);
        }
        let signature = c.read_u32()?;
        let file_header = FileHeader::to_object(c)?;
        let optional_header = OptionalHeader::to_object(c)?;

        let ndirs = optional_header.number_of_rva_and_sizes;
        let mut data_directories: Vec<SectionDataDirectory> = Vec::new();
        proof {
            assert(data_directories@ =~= spec_data_dirs(s, p + 136, 0));
        }
        let mut i: u32 = 0;
        while i < ndirs
            invariant
                i <= ndirs,
                ndirs == spec_num_data_dirs(s, p),
                c.data == old(c).data,
                s == old(c).data@,
                p == old(c).pos as int,
                c.pos == p + 136 + 8 * i,
                c.pos <= s.len(),
                p + 136 <= s.len(),
                data_directories@ == spec_data_dirs(s, p + 136, i as int),
            decreases ndirs - i,
        {
            let d = match SectionDataDirectory::to_object(c) {
                Ok(d) => d,
                Err(_) => {
                    proof {
                        assert(p + 136 + 8 * i + 8 <= p + 136 + 8 * spec_num_data_dirs(s, p))
                            by (nonlinear_arith)
                            requires
                                i < ndirs,
                                ndirs == spec_num_data_dirs(s, p),
                        ;
                    }
                    return Err(PeError::Truncated);
                },
            };
            data_directories.push(d);
            i = i + 1;
            proof {
                assert(data_directories@ =~= spec_data_dirs(s, p + 136, i as int));
            }
        }

        let nsections = file_header.number_of_sections;
        let ghost q = p + 136 + 8 * spec_num_data_dirs(s, p);
        let mut sections: Vec<OptionalHeaderSection> = Vec::new();
        proof {
            assert(sections@ =~= spec_sections(s, q, 0));
        }
        let mut j: u16 = 0;
        while j < nsections
            invariant
                j <= nsections,
                nsections == spec_num_sections(s, p),
                q == p + 136 + 8 * spec_num_data_dirs(s, p),
                c.data == old(c).data,
                s == old(c).data@,
                p == old(c).pos as int,
                c.pos == q + 40 * j,
                c.pos <= s.len(),
                p + 136 <= s.len(),
                sections@ == spec_sections(s, q, j as int),
            decreases nsections - j,
        {
            let sec = match OptionalHeaderSection::to_object(c) {
                Ok(sec) => sec,
                Err(_) => {
                    proof {
                        assert(q + 40 * j + 40 <= q + 40 * spec_num_sections(s, p))
                            by (nonlinear_arith)
                            requires
                                j < nsections,
                                nsections == spec_num_sections(s, p),
                        ;
                    }
                    return Err(PeError::Truncated);
                },
            };
            sections.push(sec);
            j = j + 1;
            proof {
                assert(sections@ =~= spec_sections(s, q, j as int));
            }
        }

        Ok(ELfanew { signature, file_header, optional_header, data_directories, sections })
    }
}

} // verus!
