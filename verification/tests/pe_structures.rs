//! Tests of the low-level decoders: the byte cursor, the header structures
//! and the icon-directory structures, over hand-written byte buffers.

use browsewith::cursor::{Cursor, PeError};
use browsewith::headers::{DosHeader, FileHeader, OptionalHeaderSection};
use browsewith::icon::{parse_group, IconDir, IconDirEntry};
use browsewith::resources::{ResourceDataEntry, ResourceDirectoryString};
use browsewith::sections::rva_to_file_offset;

#[test]
fn cursor_reads_little_endian() {
    let data: Vec<u8> = vec![0x01, 0x02, 0x03, 0x04, 0x05, 0x06, 0x07, 0x08, 0xff];
    let mut c = Cursor::new(&data);
    assert_eq!(c.read_u16(), Ok(0x0201));
    assert_eq!(c.position(), 2);
    assert_eq!(c.read_u32(), Ok(0x06050403));
    assert_eq!(c.position(), 6);
    c.seek(0);
    assert_eq!(c.read_u64(), Ok(0x0807060504030201));
    assert_eq!(c.read_u8(), Ok(0xff));
    assert_eq!(c.read_u8(), Err(PeError::Truncated));
    c.seek(7);
    assert_eq!(c.read_u32(), Err(PeError::Truncated));
    assert_eq!(c.position(), 7);
    c.seek(5);
    assert_eq!(c.read_vec(4), Ok(vec![0x06, 0x07, 0x08, 0xff]));
}

#[test]
fn dos_header_decodes_magic_and_pointer() {
    let mut data = vec![0u8; 64];
    data[0] = 0x4d;
    data[1] = 0x5a;
    data[60..64].copy_from_slice(&0x1234u32.to_le_bytes());
    let mut c = Cursor::new(&data);
    let dos = DosHeader::to_object(&mut c).expect("decodes");
    assert_eq!(dos.magic, 0x5a4d);
    assert_eq!(dos.e_lfanew, 0x1234);

    let short = vec![0u8; 63];
    let mut c = Cursor::new(&short);
    assert!(matches!(DosHeader::to_object(&mut c), Err(PeError::Truncated)));

    let zero = DosHeader::new();
    assert_eq!(zero.magic, 0);
    assert_eq!(zero.e_lfanew, 0);
}

#[test]
fn file_header_fields_come_from_their_offsets() {
    let mut data = vec![0u8; 20];
    data[0..2].copy_from_slice(&0x8664u16.to_le_bytes());
    data[2..4].copy_from_slice(&3u16.to_le_bytes());
    data[16..18].copy_from_slice(&112u16.to_le_bytes());
    let mut c = Cursor::new(&data);
    let fh = FileHeader::to_object(&mut c).expect("decodes");
    assert_eq!(fh.machine, 0x8664);
    assert_eq!(fh.number_of_sections, 3);
    assert_eq!(fh.size_of_optional_header, 112);
    assert_eq!(FileHeader::new().machine, 0);
}

#[test]
fn section_translation_is_first_match_with_inclusive_bound() {
    let mut a = OptionalHeaderSection::new();
    a.virtual_address = 0x1000;
    a.size_of_raw_data = 0x200;
    a.pointer_to_raw_data = 0x400;
    let mut b = OptionalHeaderSection::new();
    b.virtual_address = 0x1100;
    b.size_of_raw_data = 0x200;
    b.pointer_to_raw_data = 0x800;
    let sections = vec![a, b];
    assert_eq!(rva_to_file_offset(&sections, 0x1000), Ok(0x400));
    assert_eq!(rva_to_file_offset(&sections, 0x1150), Ok(0x550));
    // The upper bound is inclusive, as the launcher has always read it.
    assert_eq!(rva_to_file_offset(&sections, 0x1200), Ok(0x600));
    // Past the first section's inclusive end, the second matches.
    assert_eq!(rva_to_file_offset(&sections, 0x1201), Ok(0x901));
    assert_eq!(rva_to_file_offset(&sections, 0x2000), Err(PeError::UnmappedAddress));
    assert_eq!(rva_to_file_offset(&vec![], 0), Err(PeError::UnmappedAddress));
}

#[test]
fn icon_dir_header_decode_and_from_buffer() {
    let mut data = vec![0u8; 6];
    data[2] = 1;
    data[4] = 3;
    let mut c = Cursor::new(&data);
    let d = IconDir::to_object(&mut c).expect("decodes");
    assert_eq!(d.reserved, 0);
    assert_eq!(d.image_type, 1);
    assert_eq!(d.number_of_images, 3);
    assert!(d.icon_entries.is_empty());

    let mut c = Cursor::new(&data);
    let mut dir = IconDir::new();
    dir.from_buffer(&mut c).expect("fills in");
    assert_eq!(dir.number_of_images, 3);

    let short: Vec<u8> = vec![0u8; 5];
    let mut c = Cursor::new(&short);
    let mut dir = IconDir::new();
    dir.number_of_images = 9;
    assert!(matches!(dir.from_buffer(&mut c), Err(PeError::Truncated)));
    // A failed fill leaves the value unchanged.
    assert_eq!(dir.number_of_images, 9);
}

#[test]
fn icon_dir_entry_decode_and_from_buffer() {
    let mut data = vec![0u8; 14];
    data[0] = 48; // width
    data[1] = 48; // height
    data[4..6].copy_from_slice(&1u16.to_le_bytes()); // image type
    data[6..8].copy_from_slice(&32u16.to_le_bytes()); // bit depth
    data[8..12].copy_from_slice(&900u32.to_le_bytes()); // size
    data[12..14].copy_from_slice(&2u16.to_le_bytes()); // resource identifier
    let mut c = Cursor::new(&data);
    let e = IconDirEntry::to_object(&mut c).expect("decodes");
    assert_eq!(e.width, 48);
    assert_eq!(e.height, 48);
    assert_eq!(e.image_type, 1);
    assert_eq!(e.bits_per_pixel, 32);
    assert_eq!(e.size, 900);
    assert_eq!(e.index, 2);

    let mut c = Cursor::new(&data);
    let mut entry = IconDirEntry::new();
    entry.from_buffer(&mut c).expect("fills in");
    assert_eq!(entry.size, 900);

    let short: Vec<u8> = vec![0u8; 13];
    let mut c = Cursor::new(&short);
    let mut entry = IconDirEntry::new();
    assert!(matches!(entry.from_buffer(&mut c), Err(PeError::Truncated)));
    assert_eq!(entry.size, 0);
}

#[test]
fn group_payload_parses_every_declared_entry() {
    let mut g = vec![0u8; 6 + 2 * 14];
    g[2] = 1;
    g[4] = 2; // two entries
    g[6] = 16;
    g[6 + 14] = 32;
    let d = parse_group(&g).expect("parses");
    assert_eq!(d.number_of_images, 2);
    assert_eq!(d.icon_entries.len(), 2);
    assert_eq!(d.icon_entries[0].width, 16);
    assert_eq!(d.icon_entries[1].width, 32);

    let mut short = g.clone();
    short.truncate(6 + 14);
    assert!(matches!(parse_group(&short), Err(PeError::Truncated)));
}

#[test]
fn leaf_and_string_decoders() {
    let mut data = vec![0u8; 16];
    data[0..4].copy_from_slice(&0x2000u32.to_le_bytes());
    data[4..8].copy_from_slice(&100u32.to_le_bytes());
    let mut c = Cursor::new(&data);
    let leaf = ResourceDataEntry::to_object(&mut c).expect("decodes");
    assert_eq!(leaf.offset_to_data, 0x2000);
    assert_eq!(leaf.size, 100);
    assert_eq!(ResourceDataEntry::new().size, 0);

    let two: Vec<u8> = vec![7, 0];
    let mut c = Cursor::new(&two);
    let s = ResourceDirectoryString::to_object(&mut c).expect("decodes");
    assert_eq!(s.length, 7);
    assert_eq!(s.string, "");
    assert_eq!(ResourceDirectoryString::new().length, 0);
}

#[test]
fn coff_block_reads_declared_directories_and_sections() {
    let mut data = vec![0u8; 192];
    data[0] = 0x50; // signature
    data[1] = 0x45;
    data[6..8].copy_from_slice(&1u16.to_le_bytes()); // one section
    // Two data directories, declared near the end of the optional header.
    data[24 + 108..24 + 112].copy_from_slice(&2u32.to_le_bytes());
    data[136..140].copy_from_slice(&0x3000u32.to_le_bytes()); // first pair
    data[140..144].copy_from_slice(&0x80u32.to_le_bytes());
    // The one section entry at 152.
    data[152..160].copy_from_slice(b".rsrc\0\0\0");
    data[152 + 12..152 + 16].copy_from_slice(&0x1000u32.to_le_bytes());
    let mut c = Cursor::new(&data);
    let e = browsewith::headers::ELfanew::to_object(&mut c).expect("decodes");
    assert_eq!(e.signature, 0x4550);
    assert_eq!(e.file_header.number_of_sections, 1);
    assert_eq!(e.optional_header.number_of_rva_and_sizes, 2);
    assert_eq!(e.data_directories.len(), 2);
    assert_eq!(e.data_directories[0].virtual_address, 0x3000);
    assert_eq!(e.data_directories[0].size, 0x80);
    assert_eq!(e.data_directories[1].virtual_address, 0);
    assert_eq!(e.sections.len(), 1);
    assert_eq!(e.sections[0].virtual_address, 0x1000);

    let short = data[..150].to_vec();
    let mut c = Cursor::new(&short);
    assert!(matches!(
        browsewith::headers::ELfanew::to_object(&mut c),
        Err(PeError::Truncated)
    ));
}
