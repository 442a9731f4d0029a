//! Translation of section-relative virtual addresses to physical file
//! offsets, and the lookup of the resource section. A failed translation is
//! a hard `UnmappedAddress` error, never a silent offset 0.

use vstd::prelude::*;

use crate::cursor::PeError;
use crate::headers::OptionalHeaderSection;

verus! {

/// The 8 name bytes of the resource section, `.rsrc` padded with zero bytes,
/// read as one little-endian value.
pub const RSRC_SECTION_NAME: u64 = 0x63_7273_722E;

/// Whether `rva` falls inside `sec`. The upper bound is inclusive, as the
/// launcher has always treated it.
pub open spec fn spec_section_contains(sec: OptionalHeaderSection, rva: u32) -> bool {
    sec.virtual_address <= rva <= sec.virtual_address + sec.size_of_raw_data
}

/// The physical file offset `rva` maps to through `sec`.
pub open spec fn spec_section_offset(sec: OptionalHeaderSection, rva: u32) -> u64
    recommends
        spec_section_contains(sec, rva),
{
    (rva - sec.virtual_address + sec.pointer_to_raw_data) as u64
}

/// The translation of `rva` through the sections from index `i` on: the
/// first section containing `rva` decides, and no match is an
/// `UnmappedAddress` error.
pub open spec fn spec_rva_from(sections: Seq<OptionalHeaderSection>, i: int, rva: u32) -> Result<
    u64,
    PeError,
>
    decreases sections.len() - i,
{
    if i < 0 || i >= sections.len() {
        Err(PeError::UnmappedAddress)
    } else if spec_section_contains(sections[i], rva) {
        Ok(spec_section_offset(sections[i], rva))
    } else {
        spec_rva_from(sections, i + 1, rva)
    }
}

/// The translation of `rva` through the whole section table.
pub open spec fn spec_rva_to_pa(sections: Seq<OptionalHeaderSection>, rva: u32) -> Result<
    u64,
    PeError,
> {
    spec_rva_from(sections, 0, rva)
}

/// An `rva` maps iff some section contains it.
pub proof fn lemma_rva_maps_iff_contained(sections: Seq<OptionalHeaderSection>, i: int, rva: u32)
    requires
        0 <= i <= sections.len(),
    ensures
        spec_rva_from(sections, i, rva) is Err <==> (forall|j: int|
            i <= j < sections.len() ==> !spec_section_contains(sections[j], rva)),
        spec_rva_from(sections, i, rva) is Err ==> spec_rva_from(sections, i, rva) == Err::<
            u64,
            PeError,
        >(PeError::UnmappedAddress),
    decreases sections.len() - i,
{
    if i < sections.len() {
        lemma_rva_maps_iff_contained(sections, i + 1, rva);
    }
}

/// Translates a relative virtual address to a physical file offset by a
/// linear scan of the section table; fails with `UnmappedAddress` when no
/// section contains the address.
pub fn rva_to_file_offset(sections: &Vec<OptionalHeaderSection>, rva: u32) -> (r: Result<
    u64,
    PeError,
>)
    ensures
        r == spec_rva_to_pa(sections@, rva),
{
    let n = sections.len();
    let mut i: usize = 0;
    while i < n
        invariant
            i <= n,
            n == sections@.len(),
            spec_rva_to_pa(sections@, rva) == spec_rva_from(sections@, i as int, rva),
        decreases n - i,
    {
        let sec = sections[i];
        if rva >= sec.virtual_address && rva as u64 <= sec.virtual_address as u64
            + sec.size_of_raw_data as u64 {
            return Ok(rva as u64 - sec.virtual_address as u64 + sec.pointer_to_raw_data as u64);
        }
        i = i + 1;
    }
    Err(PeError::UnmappedAddress)
}

/// The first section from index `i` on whose name is the resource section's.
pub open spec fn spec_find_rsrc_from(sections: Seq<OptionalHeaderSection>, i: int) -> Option<
    OptionalHeaderSection,
>
    decreases sections.len() - i,
{
    if i < 0 || i >= sections.len() {
        None
    } else if sections[i].name == RSRC_SECTION_NAME {
        Some(sections[i])
    } else {
        spec_find_rsrc_from(sections, i + 1)
    }
}

/// The first section named `.rsrc`, if any.
pub open spec fn spec_find_rsrc(sections: Seq<OptionalHeaderSection>) -> Option<
    OptionalHeaderSection,
> {
    spec_find_rsrc_from(sections, 0)
}

/// Finds the resource section by its reserved name, or fails with
/// `MalformedImage` when the table has none.
pub fn find_rsrc_section(sections: &Vec<OptionalHeaderSection>) -> (r: Result<
    OptionalHeaderSection,
    PeError,
>)
    ensures
        match r {
            Ok(sec) => spec_find_rsrc(sections@) == Some(sec),
            Err(e) => e == PeError::MalformedImage && spec_find_rsrc(sections@) is None,
        },
{
    let n = sections.len();
    let mut i: usize = 0;
    while i < n
        invariant
            i <= n,
            n == sections@.len(),
            spec_find_rsrc(sections@) == spec_find_rsrc_from(sections@, i as int),
        decreases n - i,
    {
        let sec = sections[i];
        if sec.name == RSRC_SECTION_NAME {
            return Ok(sec);
        }
        i = i + 1;
    }
    Err(PeError::MalformedImage)
}

} // verus!
