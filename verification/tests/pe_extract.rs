//! End-to-end tests of the icon extraction over in-memory PE images built
//! byte by byte.

use browsewith::cursor::PeError;
use browsewith::extract::{extract_icon_bytes, extract_icon_bytes_for_size, parse_context};

const RSRC_FILE_OFF: usize = 512;
const RSRC_RVA: u32 = 0x1000;
const RSRC_RAW_SIZE: u32 = 4096;
const HIGH: u32 = 0x8000_0000;

#[derive(Clone)]
struct GroupEntry {
    width: u8,
    height: u8,
    reserved: u16,
    image_type: u16,
    bpp: u16,
    size: u32,
    index: u16,
}

impl GroupEntry {
    fn simple(width: u8, height: u8, bpp: u16, size: u32, index: u16) -> GroupEntry {
        GroupEntry { width, height, reserved: 0, image_type: 1, bpp, size, index }
    }
}

struct Fixture {
    data: Vec<u8>,
    /// Absolute file offset of each icon leaf's RVA field.
    icon_leaf_rva_fields: Vec<usize>,
    /// Absolute file offset of the resource root directory.
    root: usize,
}

fn put16(data: &mut Vec<u8>, off: usize, v: u16) {
    data[off..off + 2].copy_from_slice(&v.to_le_bytes());
}

fn put32(data: &mut Vec<u8>, off: usize, v: u32) {
    data[off..off + 4].copy_from_slice(&v.to_le_bytes());
}

/// Builds a minimal 64-bit PE image with one `.rsrc` section holding the
/// given icon payloads (resource identifiers 1, 2, ...) and group
/// directories.
fn build_pe(groups: &[Vec<GroupEntry>], icons: &[Vec<u8>]) -> Fixture {
    let n_icons = icons.len();
    let n_groups = groups.len();

    // Resource-relative layout.
    let root = 0usize;
    let icon_dir = 32usize; // root header 16 + 2 entries
    let group_dir = icon_dir + 16 + 8 * n_icons;
    let lang_dirs = group_dir + 16 + 8 * n_groups;
    let lang_size = 24usize; // 16-byte header + one entry
    let leaves = lang_dirs + lang_size * (n_icons + n_groups);
    let payloads = leaves + 16 * (n_icons + n_groups);

    let mut payload_offs: Vec<usize> = Vec::new();
    let mut cur = payloads;
    for p in icons {
        payload_offs.push(cur);
        cur += p.len();
    }
    let mut group_payload_offs: Vec<usize> = Vec::new();
    for g in groups {
        group_payload_offs.push(cur);
        cur += 6 + 14 * g.len();
    }
    let rsrc_len = cur;
    let total = RSRC_FILE_OFF + rsrc_len;
    let mut data = vec![0u8; total];

    // DOS header.
    data[0] = 0x4d;
    data[1] = 0x5a;
    put32(&mut data, 0x3c, 64);

    // PE signature at 64.
    data[64] = 0x50;
    data[65] = 0x45;

    // COFF file header at 68: machine, section count 1, ..., optional size.
    put16(&mut data, 68, 0x8664);
    put16(&mut data, 70, 1);
    put16(&mut data, 84, 112);

    // Optional header at 88: magic and, at its offset 108, the count of
    // data directories (zero here).
    put16(&mut data, 88, 0x20b);
    put32(&mut data, 88 + 108, 0);

    // Section table at 200: one entry named .rsrc.
    let sec = 200;
    data[sec..sec + 8].copy_from_slice(b".rsrc\0\0\0");
    put32(&mut data, sec + 8, rsrc_len as u32); // virtual size
    put32(&mut data, sec + 12, RSRC_RVA);
    put32(&mut data, sec + 16, RSRC_RAW_SIZE);
    put32(&mut data, sec + 20, RSRC_FILE_OFF as u32);

    // Resource root: two numbered entries, icon images and icon groups.
    let ra = |off: usize| RSRC_FILE_OFF + off;
    put16(&mut data, ra(root) + 14, 2);
    put32(&mut data, ra(root) + 16, 3);
    put32(&mut data, ra(root) + 20, HIGH | icon_dir as u32);
    put32(&mut data, ra(root) + 24, 14);
    put32(&mut data, ra(root) + 28, HIGH | group_dir as u32);

    // Icon-image type directory: one numbered entry per icon, identifiers
    // 1-based, each leading to a language directory.
    put16(&mut data, ra(icon_dir) + 14, n_icons as u16);
    for k in 0..n_icons {
        let e = ra(icon_dir) + 16 + 8 * k;
        put32(&mut data, e, (k + 1) as u32);
        put32(&mut data, e + 4, HIGH | (lang_dirs + lang_size * k) as u32);
    }

    // Group type directory: one numbered entry per group.
    put16(&mut data, ra(group_dir) + 14, n_groups as u16);
    for k in 0..n_groups {
        let e = ra(group_dir) + 16 + 8 * k;
        put32(&mut data, e, (0x100 + k) as u32);
        put32(&mut data, e + 4, HIGH | (lang_dirs + lang_size * (n_icons + k)) as u32);
    }

    // Language directories: one numbered entry each, leading to a leaf.
    let mut icon_leaf_rva_fields = Vec::new();
    for k in 0..n_icons + n_groups {
        let d = ra(lang_dirs + lang_size * k);
        put16(&mut data, d + 14, 1);
        put32(&mut data, d + 16, 0x0409);
        put32(&mut data, d + 20, (leaves + 16 * k) as u32);
    }

    // Leaves: RVA and size of each payload.
    for k in 0..n_icons {
        let l = ra(leaves + 16 * k);
        put32(&mut data, l, RSRC_RVA + payload_offs[k] as u32);
        put32(&mut data, l + 4, icons[k].len() as u32);
        icon_leaf_rva_fields.push(l);
    }
    for k in 0..n_groups {
        let l = ra(leaves + 16 * (n_icons + k));
        put32(&mut data, l, RSRC_RVA + group_payload_offs[k] as u32);
        put32(&mut data, l + 4, (6 + 14 * groups[k].len()) as u32);
    }

    // Icon payloads.
    for k in 0..n_icons {
        let o = ra(payload_offs[k]);
        data[o..o + icons[k].len()].copy_from_slice(&icons[k]);
    }

    // Group payloads: 6-byte header then 14-byte entries.
    for k in 0..n_groups {
        let g = ra(group_payload_offs[k]);
        put16(&mut data, g, 0);
        put16(&mut data, g + 2, 1);
        put16(&mut data, g + 4, groups[k].len() as u16);
        for (m, e) in groups[k].iter().enumerate() {
            let o = g + 6 + 14 * m;
            data[o] = e.width;
            data[o + 1] = e.height;
            put16(&mut data, o + 2, e.reserved);
            put16(&mut data, o + 4, e.image_type);
            put16(&mut data, o + 6, e.bpp);
            put32(&mut data, o + 8, e.size);
            put16(&mut data, o + 12, e.index);
        }
    }

    Fixture { data, icon_leaf_rva_fields, root: RSRC_FILE_OFF }
}

fn single_icon_fixture() -> (Fixture, Vec<u8>) {
    let payload: Vec<u8> = (0u8..200u8).collect();
    let groups = vec![vec![GroupEntry::simple(32, 32, 24, payload.len() as u32, 1)]];
    let fx = build_pe(&groups, &[payload.clone()]);
    (fx, payload)
}

fn three_size_fixture() -> (Fixture, [Vec<u8>; 3]) {
    let p16: Vec<u8> = vec![0x16; 40];
    let p32: Vec<u8> = vec![0x32; 60];
    let p48: Vec<u8> = vec![0x48; 80];
    let groups = vec![vec![
        GroupEntry::simple(16, 16, 32, p16.len() as u32, 1),
        GroupEntry::simple(32, 32, 32, p32.len() as u32, 2),
        GroupEntry::simple(48, 48, 32, p48.len() as u32, 3),
    ]];
    let fx = build_pe(&groups, &[p16.clone(), p32.clone(), p48.clone()]);
    (fx, [p16, p32, p48])
}

#[test]
fn single_icon_exact_bytes() {
    let (fx, payload) = single_icon_fixture();
    let out = extract_icon_bytes(&fx.data, 0).expect("extraction succeeds");

    let mut expected: Vec<u8> = Vec::new();
    expected.extend_from_slice(&[0, 0, 1, 0, 1, 0]);
    expected.push(32); // width
    expected.push(32); // height
    expected.extend_from_slice(&[0, 0]); // colors and reserved
    expected.extend_from_slice(&1u16.to_le_bytes()); // image type
    expected.extend_from_slice(&24u16.to_le_bytes()); // bit depth
    expected.extend_from_slice(&(payload.len() as u32).to_le_bytes());
    expected.extend_from_slice(&22u32.to_le_bytes()); // 6 + 16 * 1
    expected.extend_from_slice(&payload);
    assert_eq!(out, expected);
}

#[test]
fn count_field_matches_each_group() {
    let p1: Vec<u8> = vec![1; 30];
    let p2: Vec<u8> = vec![2; 30];
    let p3: Vec<u8> = vec![3; 30];
    let groups = vec![
        vec![
            GroupEntry::simple(16, 16, 8, 30, 1),
            GroupEntry::simple(32, 32, 8, 30, 2),
        ],
        vec![GroupEntry::simple(48, 48, 8, 30, 3)],
    ];
    let fx = build_pe(&groups, &[p1, p2, p3]);
    for (i, g) in groups.iter().enumerate() {
        let out = extract_icon_bytes(&fx.data, i).expect("every group extracts");
        let count = u16::from_le_bytes([out[4], out[5]]) as usize;
        assert_eq!(count, g.len());
        assert_eq!(out[2], 1);
        assert_eq!(out[3], 0);
    }
}

#[test]
fn multi_image_offsets_and_payloads() {
    let (fx, payloads) = three_size_fixture();
    let out = extract_icon_bytes(&fx.data, 0).expect("extraction succeeds");
    // Directory: 6 + 3 * 16 = 54 bytes; payloads follow in declared order.
    let base = 6 + 3 * 16;
    let off0 = u32::from_le_bytes([out[6 + 12], out[6 + 13], out[6 + 14], out[6 + 15]]);
    let off1 = u32::from_le_bytes([out[22 + 12], out[22 + 13], out[22 + 14], out[22 + 15]]);
    let off2 = u32::from_le_bytes([out[38 + 12], out[38 + 13], out[38 + 14], out[38 + 15]]);
    assert_eq!(off0 as usize, base);
    assert_eq!(off1 as usize, base + payloads[0].len());
    assert_eq!(off2 as usize, base + payloads[0].len() + payloads[1].len());
    assert_eq!(&out[base..base + payloads[0].len()], &payloads[0][..]);
    let b1 = base + payloads[0].len();
    assert_eq!(&out[b1..b1 + payloads[1].len()], &payloads[1][..]);
    let b2 = b1 + payloads[1].len();
    assert_eq!(&out[b2..b2 + payloads[2].len()], &payloads[2][..]);
    assert_eq!(out.len(), b2 + payloads[2].len());
}

#[test]
fn best_fit_picks_requested_width() {
    let (fx, payloads) = three_size_fixture();
    let out = extract_icon_bytes_for_size(&fx.data, 0, 16).expect("extraction succeeds");
    assert_eq!(out[6], 16);
    assert_eq!(&out[22..], &payloads[0][..]);
}

#[test]
fn best_fit_rounds_up_to_next_width() {
    let (fx, payloads) = three_size_fixture();
    let out = extract_icon_bytes_for_size(&fx.data, 0, 20).expect("extraction succeeds");
    assert_eq!(out[6], 32);
    assert_eq!(&out[22..], &payloads[1][..]);
}

#[test]
fn best_fit_falls_back_to_first_entry_when_nothing_is_wide_enough() {
    let (fx, payloads) = three_size_fixture();
    // Nothing is 64 wide or wider; the first entry of the group is kept.
    let out = extract_icon_bytes_for_size(&fx.data, 0, 64).expect("extraction succeeds");
    assert_eq!(out[6], 16);
    assert_eq!(&out[22..], &payloads[0][..]);
}

#[test]
fn best_fit_header_is_single_image() {
    let (fx, _) = three_size_fixture();
    let out = extract_icon_bytes_for_size(&fx.data, 0, 16).expect("extraction succeeds");
    assert_eq!(&out[0..6], &[0, 0, 1, 0, 1, 0]);
    let off = u32::from_le_bytes([out[18], out[19], out[20], out[21]]);
    assert_eq!(off, 22);
}

#[test]
fn index_out_of_range_is_resource_not_found() {
    let (fx, _) = single_icon_fixture();
    assert_eq!(extract_icon_bytes(&fx.data, 1), Err(PeError::ResourceNotFound));
    assert_eq!(extract_icon_bytes(&fx.data, 100), Err(PeError::ResourceNotFound));
    assert_eq!(
        extract_icon_bytes_for_size(&fx.data, 5, 16),
        Err(PeError::ResourceNotFound)
    );
}

#[test]
fn extraction_is_deterministic() {
    let (fx, _) = three_size_fixture();
    let a = extract_icon_bytes(&fx.data, 0).expect("first run succeeds");
    let b = extract_icon_bytes(&fx.data, 0).expect("second run succeeds");
    assert_eq!(a, b);
    let c = extract_icon_bytes_for_size(&fx.data, 0, 32).expect("first run succeeds");
    let d = extract_icon_bytes_for_size(&fx.data, 0, 32).expect("second run succeeds");
    assert_eq!(c, d);
}

#[test]
fn unmapped_rva_is_reported_not_substituted() {
    let (mut fx, _) = single_icon_fixture();
    // Point the icon leaf outside every section's range.
    let field = fx.icon_leaf_rva_fields[0];
    fx.data[field..field + 4].copy_from_slice(&0x0050_0000u32.to_le_bytes());
    assert_eq!(extract_icon_bytes(&fx.data, 0), Err(PeError::UnmappedAddress));
}

#[test]
fn truncation_anywhere_in_resource_data_is_reported() {
    let (fx, _) = single_icon_fixture();
    for cut in fx.root..fx.data.len() {
        let shorter = fx.data[..cut].to_vec();
        let r = extract_icon_bytes(&shorter, 0);
        assert_eq!(r, Err(PeError::Truncated), "cut at {}", cut);
    }
}

#[test]
fn truncated_headers_are_reported() {
    let (fx, _) = single_icon_fixture();
    let shorter = fx.data[..100].to_vec();
    assert_eq!(extract_icon_bytes(&shorter, 0), Err(PeError::Truncated));
    let tiny = fx.data[..10].to_vec();
    assert_eq!(extract_icon_bytes(&tiny, 0), Err(PeError::Truncated));
}

#[test]
fn bad_magic_and_signature_are_malformed() {
    let (fx, _) = single_icon_fixture();
    let mut bad_dos = fx.data.clone();
    bad_dos[0] = 0;
    assert_eq!(extract_icon_bytes(&bad_dos, 0), Err(PeError::MalformedImage));
    let mut bad_sig = fx.data.clone();
    bad_sig[64] = 0;
    assert_eq!(extract_icon_bytes(&bad_sig, 0), Err(PeError::MalformedImage));
}

#[test]
fn missing_resource_section_is_malformed() {
    let (fx, _) = single_icon_fixture();
    let mut no_rsrc = fx.data.clone();
    no_rsrc[200] = b'.';
    no_rsrc[201] = b't';
    no_rsrc[202] = b'x';
    no_rsrc[203] = b't';
    assert_eq!(extract_icon_bytes(&no_rsrc, 0), Err(PeError::MalformedImage));
}

#[test]
fn cyclic_tree_hits_depth_cap() {
    let (fx, _) = single_icon_fixture();
    let mut cyclic = fx.data.clone();
    // Make the root's first entry point back at the root as a directory.
    let field = fx.root + 20;
    cyclic[field..field + 4].copy_from_slice(&0x8000_0000u32.to_le_bytes());
    assert_eq!(extract_icon_bytes(&cyclic, 0), Err(PeError::MalformedImage));
}

#[test]
fn group_entry_with_unknown_identifier_is_resource_not_found() {
    let payload: Vec<u8> = vec![9; 20];
    let groups = vec![vec![GroupEntry::simple(32, 32, 8, 20, 7)]];
    let fx = build_pe(&groups, &[payload]);
    assert_eq!(extract_icon_bytes(&fx.data, 0), Err(PeError::ResourceNotFound));
}

#[test]
fn parse_context_finds_root_and_sections() {
    let (fx, _) = single_icon_fixture();
    let ctx = parse_context(&fx.data).expect("headers decode");
    assert_eq!(ctx.root_address, RSRC_FILE_OFF as u32);
    assert_eq!(ctx.sections.len(), 1);
    assert_eq!(ctx.sections[0].virtual_address, RSRC_RVA);
    assert_eq!(ctx.sections[0].pointer_to_raw_data, RSRC_FILE_OFF as u32);
    assert_eq!(ctx.sections[0].size_of_raw_data, RSRC_RAW_SIZE);
}
