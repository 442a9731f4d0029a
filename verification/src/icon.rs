//! Parsing of a group-icon payload and assembly of a standalone icon file:
//! a 6-byte header, one 16-byte directory entry per image, then the raw
//! image payloads, with each entry's data offset computed from the declared
//! sizes of the images before it.

use vstd::prelude::*;

use crate::cursor::{le16, le32, Cursor, PeError};

verus! {

/// The header of an icon container, and the icon directory entries read
/// from a group-icon payload.
pub struct IconDir {
    pub reserved: u16,
    pub image_type: u16,
    pub number_of_images: u16,
    pub icon_entries: Vec<IconDirEntry>,
}

/// One group-icon directory entry: 14 bytes in the group payload. The
/// `index` field is the 1-based resource identifier of the matching raw
/// icon image, not a byte offset.
#[derive(Clone, Copy)]
pub struct IconDirEntry {
    pub width: u8,
    pub height: u8,
    pub reserved: u16,
    pub image_type: u16,
    pub bits_per_pixel: u16,
    pub size: u32,
    pub index: u16,
}

/// The two bytes of `x`, least significant first.
pub open spec fn le16_bytes(x: u16) -> Seq<u8> {
    seq![(x % 0x100) as u8, (x / 0x100) as u8]
}

/// The four bytes of `x`, least significant first.
pub open spec fn le32_bytes(x: u32) -> Seq<u8> {
    seq![
        (x % 0x100) as u8,
        ((x / 0x100) % 0x100) as u8,
        ((x / 0x1_0000) % 0x100) as u8,
        ((x / 0x100_0000) % 0x100) as u8,
    ]
}

/// The icon-directory entry at position `p` of a group payload.
pub open spec fn spec_group_entry(s: Seq<u8>, p: int) -> IconDirEntry {
    IconDirEntry {
        width: s[p],
        height: s[p + 1],
        reserved: le16(s, p + 2),
        image_type: le16(s, p + 4),
        bits_per_pixel: le16(s, p + 6),
        size: le32(s, p + 8),
        index: le16(s, p + 12),
    }
}

/// The count of images a group payload declares.
pub open spec fn spec_group_count(g: Seq<u8>) -> int {
    le16(g, 4) as int
}

/// The decode of a whole group payload: the 6-byte header and the declared
/// number of 14-byte entries.
pub open spec fn spec_parse_group(g: Seq<u8>) -> Result<Seq<IconDirEntry>, PeError> {
    if g.len() < 6 {
        Err(PeError::Truncated)
    } else if 6 + 14 * spec_group_count(g) > g.len() {
        Err(PeError::Truncated)
    } else {
        Ok(Seq::new(spec_group_count(g) as nat, |k: int| spec_group_entry(g, 6 + 14 * k)))
    }
}

/// The in-output byte offset of image `k`: the header and directory take
/// `6 + 16 * count` bytes, and each earlier image its declared size.
pub open spec fn spec_entry_offset(entries: Seq<IconDirEntry>, k: int) -> int
    decreases k,
{
    if k <= 0 {
        6 + 16 * entries.len() as int
    } else {
        spec_entry_offset(entries, k - 1) + entries[k - 1].size
    }
}

/// Whether every written image offset fits the 4-byte field that holds it.
pub open spec fn spec_offsets_fit(entries: Seq<IconDirEntry>) -> bool {
    forall|k: int| 0 <= k < entries.len() ==> spec_entry_offset(entries, k) <= u32::MAX
}

/// Whether every entry's 1-based resource identifier names an existing raw
/// image.
pub open spec fn spec_indices_ok(entries: Seq<IconDirEntry>, icons: Seq<Seq<u8>>) -> bool {
    forall|k: int|
        0 <= k < entries.len() ==> 1 <= entries[k].index && entries[k].index <= icons.len()
}

/// The 16 bytes of one output directory entry: width, height, two zero
/// bytes, image type, bit depth, declared size, and the computed offset.
pub open spec fn spec_entry_bytes(e: IconDirEntry, offset: u32) -> Seq<u8> {
    seq![e.width, e.height, 0u8, 0u8] + le16_bytes(e.image_type) + le16_bytes(e.bits_per_pixel)
        + le32_bytes(e.size) + le32_bytes(offset)
}

/// The first `k` output directory entries, concatenated.
pub open spec fn spec_dir_bytes(entries: Seq<IconDirEntry>, k: int) -> Seq<u8>
    decreases k,
{
    if k <= 0 {
        Seq::empty()
    } else {
        spec_dir_bytes(entries, k - 1) + spec_entry_bytes(
            entries[k - 1],
            spec_entry_offset(entries, k - 1) as u32,
        )
    }
}

/// The first `k` image payloads, concatenated in entry order; entry `m`
/// contributes the raw image its 1-based identifier names.
pub open spec fn spec_payload_bytes(
    entries: Seq<IconDirEntry>,
    icons: Seq<Seq<u8>>,
    k: int,
) -> Seq<u8>
    decreases k,
{
    if k <= 0 {
        Seq::empty()
    } else {
        spec_payload_bytes(entries, icons, k - 1) + icons[entries[k - 1].index - 1]
    }
}

/// The 6-byte header of the assembled container, copied from the group
/// payload's own header fields.
pub open spec fn spec_header_bytes(g: Seq<u8>) -> Seq<u8> {
    le16_bytes(le16(g, 0)) + le16_bytes(le16(g, 2)) + le16_bytes(le16(g, 4))
}

/// The assembled icon container for a whole group: every advertised image,
/// in declared order. A group entry naming a missing raw image is a
/// `ResourceNotFound` error; one whose computed offset cannot fit its
/// 4-byte field is a `MalformedImage` error.
pub open spec fn spec_icon_from_data(g: Seq<u8>, icons: Seq<Seq<u8>>) -> Result<Seq<u8>, PeError> {
    match spec_parse_group(g) {
        Err(e) => Err(e),
        Ok(entries) => {
            if !spec_indices_ok(entries, icons) {
                Err(PeError::ResourceNotFound)
            } else if !spec_offsets_fit(entries) {
                Err(PeError::MalformedImage)
            } else {
                Ok(
                    spec_header_bytes(g) + spec_dir_bytes(entries, entries.len() as int)
                        + spec_payload_bytes(entries, icons, entries.len() as int),
                )
            }
        },
    }
}

/// The scan for the best-fitting image: the smallest width at or above the
/// requested size, ties broken by first occurrence, and index 0 kept when
/// nothing is large enough.
pub open spec fn spec_best_icon_from(
    entries: Seq<IconDirEntry>,
    size: int,
    k: int,
    best: int,
    best_size: int,
) -> int
    decreases entries.len() - k,
{
    if k < 0 || k >= entries.len() {
        best
    } else if entries[k].width >= size && entries[k].width < best_size {
        spec_best_icon_from(entries, size, k + 1, k, entries[k].width as int)
    } else {
        spec_best_icon_from(entries, size, k + 1, best, best_size)
    }
}

/// The index of the best-fitting image of a group for a requested size.
pub open spec fn spec_best_icon(entries: Seq<IconDirEntry>, size: int) -> int {
    spec_best_icon_from(entries, size, 0, 0, 65535)
}

/// The assembled single-image icon container for the best-fitting image of
/// a group. An empty group is a `ResourceNotFound` error, as is a chosen
/// entry naming a missing raw image.
pub open spec fn spec_icon_size_from_data(g: Seq<u8>, icons: Seq<Seq<u8>>, size: int) -> Result<
    Seq<u8>,
    PeError,
> {
    match spec_parse_group(g) {
        Err(e) => Err(e),
        Ok(entries) => {
            if entries.len() == 0 {
                Err(PeError::ResourceNotFound)
            } else {
                let e = entries[spec_best_icon(entries, size)];
                if e.index < 1 || e.index > icons.len() {
                    Err(PeError::ResourceNotFound)
                } else {
                    Ok(
                        le16_bytes(le16(g, 0)) + le16_bytes(le16(g, 2)) + seq![1u8, 0u8]
                            + spec_entry_bytes(e, 22) + icons[e.index - 1],
                    )
                }
            }
        },
    }
}

impl IconDir {
    pub fn new() -> (r: IconDir)
        ensures
            r.reserved == 0,
            r.image_type == 0,
            r.number_of_images == 0,
            r.icon_entries@.len() == 0,
    {
        IconDir { reserved: 0, image_type: 0, number_of_images: 0, icon_entries: Vec::new() }
    }

    /// Decodes the 6-byte header of an icon directory at the cursor's
    /// position; the entries are read separately.
    pub fn to_object(c: &mut Cursor) -> (r: Result<IconDir, PeError>)
        ensures
            final(c).data == old(c).data,
            old(c).pos + 6 <= old(c).data@.len() ==> (r matches Ok(d) && d.reserved == le16(
                old(c).data@,
                old(c).pos as int,
            ) && d.image_type == le16(old(c).data@, old(c).pos + 2) && d.number_of_images == le16(
                old(c).data@,
                old(c).pos + 4,
            ) && d.icon_entries@.len() == 0 && final(c).pos == old(c).pos + 6),
            old(c).pos + 6 > old(c).data@.len() ==> (r matches Err(e) && e == PeError::Truncated),
    {
        if !c.has(6) {
            return Err(PeError::Truncated);
        }
        let reserved = c.read_u16()?;
        let image_type = c.read_u16()?;
        let number_of_images = c.read_u16()?;
        Ok(IconDir { reserved, image_type, number_of_images, icon_entries: Vec::new() })
    }

    /// Replaces `self` with the header decoded at the cursor's position, or
    /// leaves it unchanged and hands the error back.
    pub fn from_buffer(&mut self, c: &mut Cursor) -> (r: Result<(), PeError>)
        ensures
            final(c).data == old(c).data,
            old(c).pos + 6 <= old(c).data@.len() ==> ({
                &&& r is Ok
                &&& final(self).reserved == le16(old(c).data@, old(c).pos as int)
                &&& final(self).image_type == le16(old(c).data@, old(c).pos + 2)
                &&& final(self).number_of_images == le16(old(c).data@, old(c).pos + 4)
                &&& final(self).icon_entries@.len() == 0
            }),
            old(c).pos + 6 > old(c).data@.len() ==> r == Err::<(), PeError>(PeError::Truncated)
                && *final(self) == *old(self),
    {
        match Self::to_object(c) {
            Ok(d) => {
                *self = d;
                Ok(())
            },
            Err(e) => Err(e),
        }
    }
}

impl IconDirEntry {
    pub fn new() -> (r: IconDirEntry)
        ensures
            r == (IconDirEntry {
                width: 0,
                height: 0,
                reserved: 0,
                image_type: 0,
                bits_per_pixel: 0,
                size: 0,
                index: 0,
            }),
    {
        IconDirEntry {
            width: 0,
            height: 0,
            reserved: 0,
            image_type: 0,
            bits_per_pixel: 0,
            size: 0,
            index: 0,
        }
    }

    /// Decodes one 14-byte group-icon entry at the cursor's position.
    pub fn to_object(c: &mut Cursor) -> (r: Result<IconDirEntry, PeError>)
        ensures
            final(c).data == old(c).data,
            old(c).pos + 14 <= old(c).data@.len() ==> r == Ok::<IconDirEntry, PeError>(
                spec_group_entry(old(c).data@, old(c).pos as int),
            ) && final(c).pos == old(c).pos + 14,
            old(c).pos + 14 > old(c).data@.len() ==> r == Err::<IconDirEntry, PeError>(
                PeError::Truncated,
            ),
    {
        if !c.has(14) {
            return Err(PeError::Truncated);
        }
        let width = c.read_u8()?;
        let height = c.read_u8()?;
        let reserved = c.read_u16()?;
        let image_type = c.read_u16()?;
        let bits_per_pixel = c.read_u16()?;
        let size = c.read_u32()?;
        let index = c.read_u16()?;
        Ok(IconDirEntry { width, height, reserved, image_type, bits_per_pixel, size, index })
    }

    /// Replaces `self` with the entry decoded at the cursor's position, or
    /// leaves it unchanged and hands the error back.
    pub fn from_buffer(&mut self, c: &mut Cursor) -> (r: Result<(), PeError>)
        ensures
            final(c).data == old(c).data,
            old(c).pos + 14 <= old(c).data@.len() ==> r is Ok && *final(self) == spec_group_entry(
                old(c).data@,
                old(c).pos as int,
            ),
            old(c).pos + 14 > old(c).data@.len() ==> r == Err::<(), PeError>(PeError::Truncated)
                && *final(self) == *old(self),
    {
        match Self::to_object(c) {
            Ok(d) => {
                *self = d;
                Ok(())
            },
            Err(e) => Err(e),
        }
    }
}

/// Decodes a whole group payload: the 6-byte header and every declared
/// entry.
pub fn parse_group(group: &Vec<u8>) -> (r: Result<IconDir, PeError>)
    ensures
        match r {
            Ok(d) => {
                &&& spec_parse_group(group@) == Ok::<Seq<IconDirEntry>, PeError>(d.icon_entries@)
                &&& d.reserved == le16(group@, 0)
                &&& d.image_type == le16(group@, 2)
                &&& d.number_of_images == spec_group_count(group@)
            },
            Err(e) => spec_parse_group(group@) == Err::<Seq<IconDirEntry>, PeError>(e),
        },
{
    let mut c = Cursor::new(group);
    let mut dir = IconDir::to_object(&mut c)?;
    let count: usize = dir.number_of_images as usize;
    let ghost g = group@;
    proof {
        assert(dir.icon_entries@ =~= Seq::new(0, |k: int| spec_group_entry(g, 6 + 14 * k)));
    }
    let mut k: usize = 0;
    while k < count
        invariant
            k <= count,
            count == spec_group_count(g),
            g == group@,
            c.data == group,
            c.pos == 6 + 14 * k,
            c.pos <= g.len(),
            dir.reserved == le16(g, 0),
            dir.image_type == le16(g, 2),
            dir.number_of_images == le16(g, 4),
            dir.icon_entries@ == Seq::new(k as nat, |m: int| spec_group_entry(g, 6 + 14 * m)),
        decreases count - k,
    {
        let e = match IconDirEntry::to_object(&mut c) {
            Ok(e) => e,
            Err(_) => {
                proof {
                    assert(6 + 14 * k + 14 <= 6 + 14 * spec_group_count(g)) by (nonlinear_arith)
                        requires
                            k < count,
                            count == spec_group_count(g),
                    ;
                }
                return Err(PeError::Truncated);
            },
        };
        dir.icon_entries.push(e);
        k = k + 1;
        proof {
            assert(dir.icon_entries@ =~= Seq::new(
                k as nat,
                |m: int| spec_group_entry(g, 6 + 14 * m),
            ));
        }
    }
    proof {
        assert(6 + 14 * spec_group_count(g) <= g.len());
        assert(dir.icon_entries@ =~= Seq::new(
            spec_group_count(g) as nat,
            |k: int| spec_group_entry(g, 6 + 14 * k),
        ));
    }
    Ok(dir)
}

} // verus!

verus! {

/// Appends the two little-endian bytes of `x`.
fn push_u16(out: &mut Vec<u8>, x: u16)
    ensures
        final(out)@ == old(out)@ + le16_bytes(x),
{
    let ghost before = out@;
    out.push((x % 0x100) as u8);
    out.push((x / 0x100) as u8);
    proof {
        assert(out@ =~= before + le16_bytes(x));
    }
}

/// Appends the four little-endian bytes of `x`.
fn push_u32(out: &mut Vec<u8>, x: u32)
    ensures
        final(out)@ == old(out)@ + le32_bytes(x),
{
    let ghost before = out@;
    out.push((x % 0x100) as u8);
    out.push(((x / 0x100) % 0x100) as u8);
    out.push(((x / 0x1_0000) % 0x100) as u8);
    out.push(((x / 0x100_0000) % 0x100) as u8);
    proof {
        assert(out@ =~= before + le32_bytes(x));
    }
}

/// Appends a copy of `src`.
fn push_bytes(out: &mut Vec<u8>, src: &Vec<u8>)
    ensures
        final(out)@ == old(out)@ + src@,
{
    let ghost before = out@;
    let n = src.len();
    let mut i: usize = 0;
    while i < n
        invariant
            i <= n,
            n == src@.len(),
            out@ == before + src@.subrange(0, i as int),
        decreases n - i,
    {
        out.push(src[i]);
        i = i + 1;
        proof {
            assert(out@ =~= before + src@.subrange(0, i as int));
        }
    }
    proof {
        assert(src@.subrange(0, n as int) =~= src@);
    }
}

/// Every written offset is bounded by the directory size plus `k` maximal
/// image sizes.
proof fn lemma_offset_bound(es: Seq<IconDirEntry>, k: int)
    requires
        0 <= k <= es.len(),
    ensures
        spec_entry_offset(es, k) <= 6 + 16 * es.len() + k * 0xffff_ffff,
    decreases k,
{
    if k > 0 {
        lemma_offset_bound(es, k - 1);
    }
}

/// Assembles the icon container holding every image a group advertises:
/// the group's own 6-byte header, one 16-byte directory entry per image
/// with its computed data offset, then the raw image payloads in declared
/// order.
pub fn icon_from_data(icon_group: &Vec<u8>, icon_resource_directories: &Vec<Vec<u8>>) -> (r: Result<
    Vec<u8>,
    PeError,
>)
    ensures
        ({
            let spec = spec_icon_from_data(
                icon_group@,
                crate::resources::vecs_view(icon_resource_directories@),
            );
            match r {
                Ok(v) => spec == Ok::<Seq<u8>, PeError>(v@),
                Err(e) => spec == Err::<Seq<u8>, PeError>(e),
            }
        }),
{
    let ghost g = icon_group@;
    let ghost icons = crate::resources::vecs_view(icon_resource_directories@);
    let dir = parse_group(icon_group)?;
    let entries = &dir.icon_entries;
    let ghost es = dir.icon_entries@;
    let n = entries.len();

    // Every entry must name an existing raw image by its 1-based identifier.
    let mut k: usize = 0;
    while k < n
        invariant
            k <= n,
            n == es.len(),
            es == dir.icon_entries@,
            entries == &dir.icon_entries,
            g == icon_group@,
            icons == crate::resources::vecs_view(icon_resource_directories@),
            spec_parse_group(g) == Ok::<Seq<IconDirEntry>, PeError>(es),
            forall|m: int| 0 <= m < k ==> 1 <= es[m].index && es[m].index <= icons.len(),
        decreases n - k,
    {
        let idx = entries[k].index;
        if idx == 0 || idx as usize > icon_resource_directories.len() {
            proof {
                assert(!(1 <= es[k as int].index && es[k as int].index <= icons.len()));
                assert(!spec_indices_ok(es, icons));
            }
            return Err(PeError::ResourceNotFound);
        }
        k = k + 1;
    }
    assert(spec_indices_ok(es, icons));

    // Every written offset must fit its 4-byte field.
    let mut off: u64 = 6 + 16 * (n as u64);
    let mut k: usize = 0;
    while k < n
        invariant
            k <= n,
            n == es.len(),
            es == dir.icon_entries@,
            entries == &dir.icon_entries,
            es.len() <= 0xffff,
            g == icon_group@,
            icons == crate::resources::vecs_view(icon_resource_directories@),
            spec_parse_group(g) == Ok::<Seq<IconDirEntry>, PeError>(es),
            spec_indices_ok(es, icons),
            off == spec_entry_offset(es, k as int),
            forall|m: int| 0 <= m < k ==> spec_entry_offset(es, m) <= u32::MAX,
        decreases n - k,
    {
        if off > 0xffff_ffff {
            proof {
                assert(spec_entry_offset(es, k as int) > u32::MAX);
                assert(!spec_offsets_fit(es));
            }
            return Err(PeError::MalformedImage);
        }
        proof {
            lemma_offset_bound(es, k as int);
        }
        off = off + entries[k].size as u64;
        k = k + 1;
    }
    assert(spec_offsets_fit(es));

    // The 6-byte file header, copied from the group's own header.
    let mut out: Vec<u8> = Vec::new();
    push_u16(&mut out, dir.reserved);
    push_u16(&mut out, dir.image_type);
    push_u16(&mut out, dir.number_of_images);
    proof {
        assert(out@ =~= spec_header_bytes(g));
    }

    // One 16-byte directory entry per image.
    let mut off: u64 = 6 + 16 * (n as u64);
    let mut k: usize = 0;
    while k < n
        invariant
            k <= n,
            n == es.len(),
            es == dir.icon_entries@,
            entries == &dir.icon_entries,
            es.len() <= 0xffff,
            g == icon_group@,
            spec_offsets_fit(es),
            off == spec_entry_offset(es, k as int),
            out@ == spec_header_bytes(g) + spec_dir_bytes(es, k as int),
        decreases n - k,
    {
        let ghost before = out@;
        let e = entries[k];
        out.push(e.width);
        out.push(e.height);
        out.push(0);
        out.push(0);
        push_u16(&mut out, e.image_type);
        push_u16(&mut out, e.bits_per_pixel);
        push_u32(&mut out, e.size);
        push_u32(&mut out, off as u32);
        proof {
            assert(out@ =~= before + spec_entry_bytes(e, spec_entry_offset(es, k as int) as u32));
            lemma_offset_bound(es, k as int);
        }
        off = off + e.size as u64;
        k = k + 1;
        proof {
            assert(out@ =~= spec_header_bytes(g) + spec_dir_bytes(es, k as int));
        }
    }

    // The raw image payloads, in declared order.
    let ghost dir_done = out@;
    let mut k: usize = 0;
    while k < n
        invariant
            k <= n,
            n == es.len(),
            es == dir.icon_entries@,
            entries == &dir.icon_entries,
            icons == crate::resources::vecs_view(icon_resource_directories@),
            spec_indices_ok(es, icons),
            dir_done == spec_header_bytes(g) + spec_dir_bytes(es, es.len() as int),
            g == icon_group@,
            out@ == dir_done + spec_payload_bytes(es, icons, k as int),
        decreases n - k,
    {
        let ghost before = out@;
        let idx = (entries[k].index - 1) as usize;
        push_bytes(&mut out, &icon_resource_directories[idx]);
        k = k + 1;
        proof {
            assert(icons[es[k - 1].index - 1] == icon_resource_directories@[idx as int]@);
            assert(out@ =~= dir_done + spec_payload_bytes(es, icons, k as int));
        }
    }
    proof {
        assert(out@ =~= spec_header_bytes(g) + spec_dir_bytes(es, es.len() as int)
            + spec_payload_bytes(es, icons, es.len() as int));
    }
    Ok(out)
}

/// Assembles a single-image icon container holding the best-fitting image
/// of a group for the requested pixel size: the smallest advertised width
/// at or above `size`, ties broken by first occurrence. When no image is
/// wide enough the first entry of the group is kept, as the launcher has
/// always done.
pub fn icon_size_from_data(
    icon_group: &Vec<u8>,
    icon_resource_directories: &Vec<Vec<u8>>,
    size: i32,
) -> (r: Result<Vec<u8>, PeError>)
    ensures
        ({
            let spec = spec_icon_size_from_data(
                icon_group@,
                crate::resources::vecs_view(icon_resource_directories@),
                size as int,
            );
            match r {
                Ok(v) => spec == Ok::<Seq<u8>, PeError>(v@),
                Err(e) => spec == Err::<Seq<u8>, PeError>(e),
            }
        }),
{
    let ghost g = icon_group@;
    let ghost icons = crate::resources::vecs_view(icon_resource_directories@);
    let dir = parse_group(icon_group)?;
    let entries = &dir.icon_entries;
    let ghost es = dir.icon_entries@;
    let n = entries.len();
    if n == 0 {
        return Err(PeError::ResourceNotFound);
    }

    let mut best_icon: usize = 0;
    let mut best_size: i32 = 65535;
    let mut k: usize = 0;
    while k < n
        invariant
            k <= n,
            n == es.len(),
            es == dir.icon_entries@,
            entries == &dir.icon_entries,
            best_icon < n,
            spec_best_icon(es, size as int) == spec_best_icon_from(
                es,
                size as int,
                k as int,
                best_icon as int,
                best_size as int,
            ),
        decreases n - k,
    {
        let w = entries[k].width as i32;
        if w >= size && w < best_size {
            best_icon = k;
            best_size = w;
        }
        k = k + 1;
    }

    let e = entries[best_icon];
    if e.index == 0 || e.index as usize > icon_resource_directories.len() {
        return Err(PeError::ResourceNotFound);
    }

    let mut out: Vec<u8> = Vec::new();
    push_u16(&mut out, dir.reserved);
    push_u16(&mut out, dir.image_type);
    out.push(1);
    out.push(0);
    out.push(e.width);
    out.push(e.height);
    out.push(0);
    out.push(0);
    push_u16(&mut out, e.image_type);
    push_u16(&mut out, e.bits_per_pixel);
    push_u32(&mut out, e.size);
    push_u32(&mut out, 22);
    push_bytes(&mut out, &icon_resource_directories[(e.index - 1) as usize]);
    proof {
        assert(icons[e.index - 1] == icon_resource_directories@[e.index - 1]@);
        assert(out@ =~= le16_bytes(le16(g, 0)) + le16_bytes(le16(g, 2)) + seq![1u8, 0u8]
            + spec_entry_bytes(e, 22) + icons[e.index - 1]);
    }
    Ok(out)
}

} // verus!

verus! {

/// The best-fit scan picks, when some image is wide enough, the first entry
/// of smallest width at or above the requested size; when none is, it keeps
/// the group's first entry.
pub proof fn lemma_best_icon_is_best(entries: Seq<IconDirEntry>, size: int)
    requires
        entries.len() > 0,
    ensures
        ({
            let b = spec_best_icon(entries, size);
            &&& 0 <= b < entries.len()
            &&& (exists|j: int|
                0 <= j < entries.len() && #[trigger] entries[j].width as int >= size) ==> {
                &&& entries[b].width as int >= size
                &&& forall|j: int|
                    0 <= j < entries.len() && #[trigger] entries[j].width as int >= size
                        ==> entries[b].width <= entries[j].width
                &&& forall|j: int|
                    0 <= j < b && #[trigger] entries[j].width as int >= size ==> entries[b].width
                        < entries[j].width
            }
            &&& (forall|j: int|
                0 <= j < entries.len() ==> (#[trigger] entries[j].width as int) < size) ==> b == 0
        }),
{
    lemma_best_icon_scan(entries, size, 0, 0, 65535);
}

/// The invariant of the best-fit scan: the running pair describes the
/// prefix already seen, and the rest of the scan turns it into the answer
/// for the whole sequence.
proof fn lemma_best_icon_scan(
    entries: Seq<IconDirEntry>,
    size: int,
    k: int,
    best: int,
    best_size: int,
)
    requires
        entries.len() > 0,
        0 <= k <= entries.len(),
        0 <= best < entries.len(),
        best_size == 65535 ==> best == 0 && (forall|j: int|
            0 <= j < k ==> (#[trigger] entries[j].width as int) < size),
        best_size < 65535 ==> ({
            &&& best < k
            &&& entries[best].width == best_size
            &&& entries[best].width as int >= size
            &&& forall|j: int|
                0 <= j < k && #[trigger] entries[j].width as int >= size ==> best_size
                    <= entries[j].width
            &&& forall|j: int|
                0 <= j < best && #[trigger] entries[j].width as int >= size ==> best_size
                    < entries[j].width
        }),
        best_size <= 65535,
    ensures
        ({
            let b = spec_best_icon_from(entries, size, k, best, best_size);
            &&& 0 <= b < entries.len()
            &&& (exists|j: int|
                0 <= j < entries.len() && #[trigger] entries[j].width as int >= size) ==> {
                &&& entries[b].width as int >= size
                &&& forall|j: int|
                    0 <= j < entries.len() && #[trigger] entries[j].width as int >= size
                        ==> entries[b].width <= entries[j].width
                &&& forall|j: int|
                    0 <= j < b && #[trigger] entries[j].width as int >= size ==> entries[b].width
                        < entries[j].width
            }
            &&& (forall|j: int|
                0 <= j < entries.len() ==> (#[trigger] entries[j].width as int) < size) ==> b
                == best
        }),
    decreases entries.len() - k,
{
    if k < entries.len() {
        if entries[k].width as int >= size && (entries[k].width as int) < best_size {
            lemma_best_icon_scan(entries, size, k + 1, k, entries[k].width as int);
        } else {
            lemma_best_icon_scan(entries, size, k + 1, best, best_size);
        }
    } else {
        if best_size < 65535 {
            assert(entries[best].width as int >= size);
        }
    }
}

} // verus!
