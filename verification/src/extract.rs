//! The public face of the image reader: decode the headers once into an
//! explicit, immutable parse context, walk the resource tree, and assemble
//! the requested icon. Each call is a pure function of the image bytes; no
//! state is shared between calls.

use vstd::prelude::*;

use crate::cursor::{le16, le32, Cursor, PeError};
use crate::headers::{
    spec_dos_header, spec_elfanew_ok, spec_num_data_dirs, spec_num_sections, spec_sections,
    DosHeader, ELfanew, OptionalHeaderSection,
};
use crate::icon::{icon_from_data, icon_size_from_data, spec_icon_from_data, spec_icon_size_from_data};
use crate::resources::{
    dir_view, get_dataentry, spec_collect_type, spec_parse_dir, vecs_view, ResourceDataDirectory,
    RESOURCE_MAX_DEPTH, RT_ICON, RT_ICON_GROUP,
};
use crate::sections::{find_rsrc_section, spec_find_rsrc};

verus! {

/// The little-endian value of the two magic bytes that open a valid image.
pub const DOS_MAGIC: u16 = 0x5a4d;

/// The little-endian value of the 4-byte signature at the COFF pointer.
pub const PE_SIGNATURE: u32 = 0x4550;

/// Everything later stages need from the headers: the fixed file offset of
/// the resource directory's root, and the decoded section table. Built once
/// per image and passed by reference; nothing global.
pub struct ParseContext {
    pub root_address: u32,
    pub sections: Vec<OptionalHeaderSection>,
}

/// The decode of the headers of `s` down to the resource root and section
/// table: magic and signature must match, the header block must lie within
/// the image, and a resource section must exist.
pub open spec fn spec_parse_context(s: Seq<u8>) -> Result<
    (u32, Seq<OptionalHeaderSection>),
    PeError,
> {
    if s.len() < 64 {
        Err(PeError::Truncated)
    } else if spec_dos_header(s, 0).magic != DOS_MAGIC {
        Err(PeError::MalformedImage)
    } else {
        let p = spec_dos_header(s, 0).e_lfanew as int;
        if !spec_elfanew_ok(s, p) {
            Err(PeError::Truncated)
        } else if le32(s, p) != PE_SIGNATURE {
            Err(PeError::MalformedImage)
        } else {
            let sections = spec_sections(
                s,
                p + 136 + 8 * spec_num_data_dirs(s, p),
                spec_num_sections(s, p),
            );
            match spec_find_rsrc(sections) {
                None => Err(PeError::MalformedImage),
                Some(rsrc) => Ok((rsrc.pointer_to_raw_data, sections)),
            }
        }
    }
}

/// The two payload lists an extraction needs: the group-icon payloads and
/// the raw icon-image payloads, each in file order.
pub open spec fn spec_icon_lists(s: Seq<u8>) -> Result<(Seq<Seq<u8>>, Seq<Seq<u8>>), PeError> {
    match spec_parse_context(s) {
        Err(e) => Err(e),
        Ok(ctx) => match spec_parse_dir(s, ctx.0 as int, ctx.0 as int, RESOURCE_MAX_DEPTH as nat) {
            Err(e) => Err(e),
            Ok(tree) => match spec_collect_type(s, ctx.1, tree.directories, RT_ICON, 0) {
                Err(e) => Err(e),
                Ok(icons) => match spec_collect_type(
                    s,
                    ctx.1,
                    tree.directories,
                    RT_ICON_GROUP,
                    0,
                ) {
                    Err(e) => Err(e),
                    Ok(groups) => Ok((groups, icons)),
                },
            },
        },
    }
}

/// The icon container for group `index` of image `s`, holding every image
/// the group advertises.
pub open spec fn spec_extract_icon(s: Seq<u8>, index: int) -> Result<Seq<u8>, PeError> {
    match spec_icon_lists(s) {
        Err(e) => Err(e),
        Ok(lists) => {
            if index >= lists.0.len() {
                Err(PeError::ResourceNotFound)
            } else {
                spec_icon_from_data(lists.0[index], lists.1)
            }
        },
    }
}

/// The single-image icon container for group `index` of image `s`, holding
/// the best fit for `size`.
pub open spec fn spec_extract_icon_for_size(s: Seq<u8>, index: int, size: int) -> Result<
    Seq<u8>,
    PeError,
> {
    match spec_icon_lists(s) {
        Err(e) => Err(e),
        Ok(lists) => {
            if index >= lists.0.len() {
                Err(PeError::ResourceNotFound)
            } else {
                spec_icon_size_from_data(lists.0[index], lists.1, size)
            }
        },
    }
}

/// Decodes the headers of an image into the parse context every later call
/// works from.
pub fn parse_context(data: &Vec<u8>) -> (r: Result<ParseContext, PeError>)
    ensures
        match r {
            Ok(ctx) => spec_parse_context(data@) == Ok::<(u32, Seq<OptionalHeaderSection>), PeError>(
                (ctx.root_address, ctx.sections@),
            ),
            Err(e) => spec_parse_context(data@) == Err::<
                (u32, Seq<OptionalHeaderSection>),
                PeError,
            >(e),
        },
{
    let mut c = Cursor::new(data);
    let dos = DosHeader::to_object(&mut c)?;
    if dos.magic != DOS_MAGIC {
        return Err(PeError::MalformedImage);
    }
    c.seek(dos.e_lfanew as usize);
    let e = ELfanew::to_object(&mut c)?;
    if e.signature != PE_SIGNATURE {
        return Err(PeError::MalformedImage);
    }
    let rsrc = find_rsrc_section(&e.sections)?;
    Ok(ParseContext { root_address: rsrc.pointer_to_raw_data, sections: e.sections })
}

/// Decodes the resource tree and collects the group-icon and icon-image
/// payload lists, in that order of failure.
pub fn icon_lists(data: &Vec<u8>) -> (r: Result<(Vec<Vec<u8>>, Vec<Vec<u8>>), PeError>)
    ensures
        match r {
            Ok(lists) => spec_icon_lists(data@) == Ok::<(Seq<Seq<u8>>, Seq<Seq<u8>>), PeError>(
                (vecs_view(lists.0@), vecs_view(lists.1@)),
            ),
            Err(e) => spec_icon_lists(data@) == Err::<(Seq<Seq<u8>>, Seq<Seq<u8>>), PeError>(e),
        },
{
    let ctx = parse_context(data)?;
    let mut c = Cursor::new(data);
    c.seek(ctx.root_address as usize);
    let tree = ResourceDataDirectory::to_object(&mut c, ctx.root_address, RESOURCE_MAX_DEPTH)?;
    let icons = get_dataentry(data, &ctx.sections, &tree, RT_ICON)?;
    let groups = get_dataentry(data, &ctx.sections, &tree, RT_ICON_GROUP)?;
    Ok((groups, icons))
}

/// Extracts group `icon_index` of the image as a standalone icon container
/// holding every size the group advertises. The result is a function of the
/// image bytes and the index alone: the same request always yields
/// byte-identical output.
pub fn extract_icon_bytes(data: &Vec<u8>, icon_index: usize) -> (r: Result<Vec<u8>, PeError>)
    ensures
        match r {
            Ok(v) => spec_extract_icon(data@, icon_index as int) == Ok::<Seq<u8>, PeError>(v@),
            Err(e) => spec_extract_icon(data@, icon_index as int) == Err::<Seq<u8>, PeError>(e),
        },
{
    let lists = icon_lists(data)?;
    let groups = lists.0;
    let icons = lists.1;
    if icon_index >= groups.len() {
        return Err(PeError::ResourceNotFound);
    }
    icon_from_data(&groups[icon_index], &icons)
}

/// Extracts group `icon_index` as a single-image icon container holding the
/// best fit for `min_pixel_size`: the smallest advertised width at or above
/// it, or the group's first image when none is wide enough. Deterministic
/// in the same way as `extract_icon_bytes`.
pub fn extract_icon_bytes_for_size(data: &Vec<u8>, icon_index: usize, min_pixel_size: i32) -> (r:
    Result<Vec<u8>, PeError>)
    ensures
        match r {
            Ok(v) => spec_extract_icon_for_size(data@, icon_index as int, min_pixel_size as int)
                == Ok::<Seq<u8>, PeError>(v@),
            Err(e) => spec_extract_icon_for_size(data@, icon_index as int, min_pixel_size as int)
                == Err::<Seq<u8>, PeError>(e),
        },
{
    let lists = icon_lists(data)?;
    let groups = lists.0;
    let icons = lists.1;
    if icon_index >= groups.len() {
        return Err(PeError::ResourceNotFound);
    }
    icon_size_from_data(&groups[icon_index], &icons, min_pixel_size)
}


/// What the facade hands back for a request: every advertised size when no
/// pixel size is asked for, the single best fit otherwise.
pub open spec fn spec_get_icon(s: Seq<u8>, index: int, size: Option<i32>) -> Result<
    Seq<u8>,
    PeError,
> {
    match size {
        Some(sz) => spec_extract_icon_for_size(s, index, sz as int),
        None => spec_extract_icon(s, index),
    }
}

/// Extracts group `icon_index` of the image: the whole group as a
/// multi-image icon container, or, when a pixel size is asked for, a
/// single-image container holding the best fit.
pub fn get_icon(data: &Vec<u8>, icon_index: usize, size: Option<i32>) -> (r: Result<
    Vec<u8>,
    PeError,
>)
    ensures
        match r {
            Ok(v) => spec_get_icon(data@, icon_index as int, size) == Ok::<Seq<u8>, PeError>(v@),
            Err(e) => spec_get_icon(data@, icon_index as int, size) == Err::<Seq<u8>, PeError>(e),
        },
{
    match size {
        Some(s) => extract_icon_bytes_for_size(data, icon_index, s),
        None => extract_icon_bytes(data, icon_index),
    }
}

/// For a well-formed image, every group index below the group count
/// succeeds, and the assembled container's count field (the two bytes at
/// offset 4) equals the entry count the group itself declares.
pub proof fn lemma_extract_count_field(s: Seq<u8>, i: int)
    requires
        0 <= i,
        spec_icon_lists(s) matches Ok(lists) && i < lists.0.len() && spec_icon_from_data(
            lists.0[i],
            lists.1,
        ) is Ok,
    ensures
        spec_extract_icon(s, i) is Ok,
        le16(spec_extract_icon(s, i)->Ok_0, 4) == le16((spec_icon_lists(s)->Ok_0).0[i], 4),
{
    let lists = spec_icon_lists(s)->Ok_0;
    let g = lists.0[i];
    let out = spec_extract_icon(s, i)->Ok_0;
    let hdr = crate::icon::spec_header_bytes(g);
    assert(out[4] == hdr[4]);
    assert(out[5] == hdr[5]);
    assert(hdr[4] == le16(g, 4) % 0x100);
    assert(hdr[5] == le16(g, 4) / 0x100);
    assert(le16(g, 4) % 0x100 + 0x100 * (le16(g, 4) / 0x100) == le16(g, 4));
}

/// Requesting a group index at or past the number of groups fails with
/// `ResourceNotFound`; it never panics and never yields bytes.
pub proof fn lemma_extract_index_out_of_range(s: Seq<u8>, i: int)
    requires
        spec_icon_lists(s) matches Ok(lists) && i >= lists.0.len(),
    ensures
        spec_extract_icon(s, i) == Err::<Seq<u8>, PeError>(PeError::ResourceNotFound),
        spec_extract_icon_for_size(s, i, 16) == Err::<Seq<u8>, PeError>(
            PeError::ResourceNotFound,
        ),
{
}

/// Extracting the same group of the same bytes twice yields byte-identical
/// output: the specification the executable functions are held to is a
/// function of the image and the index alone.
pub proof fn lemma_extract_deterministic(s: Seq<u8>, i: int, r1: Seq<u8>, r2: Seq<u8>)
    requires
        spec_extract_icon(s, i) == Ok::<Seq<u8>, PeError>(r1),
        spec_extract_icon(s, i) == Ok::<Seq<u8>, PeError>(r2),
    ensures
        r1 == r2,
{
}

} // verus!

verus! {

/// Header decode on a truncated copy: the same context, or `Truncated`.
#[verifier::rlimit(50)]
proof fn lemma_context_prefix(s: Seq<u8>, cut: int)
    requires
        0 <= cut <= s.len(),
    ensures
        spec_parse_context(s) is Ok ==> (spec_parse_context(s.take(cut)) == spec_parse_context(s)
            || spec_parse_context(s.take(cut)) == Err::<
            (u32, Seq<OptionalHeaderSection>),
            PeError,
        >(PeError::Truncated)),
{
    let s2 = s.take(cut);
    if spec_parse_context(s) is Ok && cut >= 64 {
        assert(le16(s2, 0) == le16(s, 0));
        assert(le32(s2, 60) == le32(s, 60));
        assert(spec_dos_header(s2, 0) == spec_dos_header(s, 0));
        let p = spec_dos_header(s, 0).e_lfanew as int;
        if spec_elfanew_ok(s2, p) {
            assert(le32(s2, p + 132) == le32(s, p + 132));
            assert(le16(s2, p + 6) == le16(s, p + 6));
            assert(spec_num_data_dirs(s2, p) == spec_num_data_dirs(s, p));
            assert(spec_num_sections(s2, p) == spec_num_sections(s, p));
            let q = p + 136 + 8 * spec_num_data_dirs(s, p);
            let ns = spec_num_sections(s, p);
            assert forall|k: int| 0 <= k < ns implies #[trigger] crate::headers::spec_section(
                s2,
                q + 40 * k,
            ) == crate::headers::spec_section(s, q + 40 * k) by {
                assert(q + 40 * k + 40 <= q + 40 * ns) by (nonlinear_arith)
                    requires
                        k < ns,
                ;
            }
            assert(spec_sections(s2, q, ns) =~= spec_sections(s, q, ns));
            assert(le32(s2, p) == le32(s, p));
        }
    }
}

/// The payload lists on a truncated copy: the same lists, or `Truncated`.
proof fn lemma_lists_prefix(s: Seq<u8>, cut: int)
    requires
        0 <= cut <= s.len(),
    ensures
        spec_icon_lists(s) is Ok ==> (spec_icon_lists(s.take(cut)) == spec_icon_lists(s)
            || spec_icon_lists(s.take(cut)) == Err::<(Seq<Seq<u8>>, Seq<Seq<u8>>), PeError>(
            PeError::Truncated,
        )),
{
    if spec_icon_lists(s) is Ok {
        lemma_context_prefix(s, cut);
        let ctx = spec_parse_context(s)->Ok_0;
        if spec_parse_context(s.take(cut)) == spec_parse_context(s) {
            crate::resources::lemma_dir_prefix(
                s,
                cut,
                ctx.0 as int,
                ctx.0 as int,
                RESOURCE_MAX_DEPTH as nat,
            );
            let tree = spec_parse_dir(
                s,
                ctx.0 as int,
                ctx.0 as int,
                RESOURCE_MAX_DEPTH as nat,
            )->Ok_0;
            crate::resources::lemma_collect_prefix(s, cut, ctx.1, tree.directories, RT_ICON, 0);
            crate::resources::lemma_collect_prefix(
                s,
                cut,
                ctx.1,
                tree.directories,
                RT_ICON_GROUP,
                0,
            );
        }
    }
}

/// A truncated copy of an image never yields different bytes or a
/// different error: where a request on the full image succeeds, the same
/// request on the copy either yields the byte-identical container (the cut
/// spared every byte the request reads) or fails with `Truncated`. In
/// particular no cut makes the extraction read out of bounds or hand back
/// garbage.
pub proof fn lemma_extract_truncation(s: Seq<u8>, cut: int, i: int)
    requires
        0 <= cut <= s.len(),
        spec_extract_icon(s, i) is Ok,
    ensures
        spec_extract_icon(s.take(cut), i) == spec_extract_icon(s, i) || spec_extract_icon(
            s.take(cut),
            i,
        ) == Err::<Seq<u8>, PeError>(PeError::Truncated),
{
    lemma_lists_prefix(s, cut);
}

/// The same truncation guarantee for the best-fit request.
pub proof fn lemma_extract_for_size_truncation(s: Seq<u8>, cut: int, i: int, size: int)
    requires
        0 <= cut <= s.len(),
        spec_extract_icon_for_size(s, i, size) is Ok,
    ensures
        spec_extract_icon_for_size(s.take(cut), i, size) == spec_extract_icon_for_size(s, i, size)
            || spec_extract_icon_for_size(s.take(cut), i, size) == Err::<Seq<u8>, PeError>(
            PeError::Truncated,
        ),
{
    lemma_lists_prefix(s, cut);
}

} // verus!
