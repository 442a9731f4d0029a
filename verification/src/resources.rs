//! The resource directory tree: a recursive decode of the directory rooted
//! in the resource section, with a defensive depth cap, and the walks over
//! the decoded tree that the icon assembler needs.
//!
//! All child offsets inside the tree are relative to the fixed root address
//! of the resource directory, never to the current read position. The high
//! bit of an entry's offset field tells a nested sub-directory (set) from a
//! leaf data descriptor (clear); the low 31 bits are the offset itself.

use vstd::prelude::*;

use crate::cursor::{le16, le32, Cursor, PeError};

verus! {

/// How many nested directory levels below the root are decoded before a
/// deeper reference is treated as a malformed image. Real resource trees
/// are three levels deep; a corrupt file could claim cycles, so the decode
/// is bounded defensively.
pub const RESOURCE_MAX_DEPTH: u32 = 8;

/// The divisor that splits an entry's offset field: values at or above it
/// have the high bit set (a sub-directory), the remainder is the low 31
/// bits.
pub const HIGH_BIT: u32 = 0x8000_0000;

/// A leaf data descriptor: 16 bytes naming where the resource's bytes live
/// (as an RVA), and how many there are.
#[derive(Clone, Copy)]
pub struct ResourceDataEntry {
    pub offset_to_data: u32,
    pub size: u32,
    pub code_page: u32,
    pub reserved: u32,
}

/// What a directory entry points at: either a nested directory or a leaf
/// data descriptor. The tagged variant makes an entry with both or neither
/// unrepresentable.
pub enum ResourceNode {
    Directory(ResourceDataDirectory),
    Leaf(ResourceDataEntry),
}

/// One 8-byte entry of a resource directory: an identifier and the offset
/// field, with the node the offset leads to.
pub struct DirectoryEntry {
    pub resource_type_id: u32,
    pub offset: u32,
    pub resource: ResourceNode,
}

/// A decoded resource directory: the 16-byte header and its entries, named
/// ones first, then numbered ones, in file order.
pub struct ResourceDataDirectory {
    pub characteristics: u32,
    pub time_date_stamp: u32,
    pub major_version: u16,
    pub minor_version: u16,
    pub number_of_named_entries: u16,
    pub number_of_id_entries: u16,
    pub directories: Vec<DirectoryEntry>,
}

/// The mathematical shape of a decoded node.
pub enum ResourceNodeS {
    Directory(ResourceDataDirectoryS),
    Leaf(ResourceDataEntry),
}

/// The mathematical shape of a decoded entry.
pub struct DirectoryEntryS {
    pub resource_type_id: u32,
    pub offset: u32,
    pub resource: ResourceNodeS,
}

/// The mathematical shape of a decoded directory.
pub struct ResourceDataDirectoryS {
    pub characteristics: u32,
    pub time_date_stamp: u32,
    pub major_version: u16,
    pub minor_version: u16,
    pub number_of_named_entries: u16,
    pub number_of_id_entries: u16,
    pub directories: Seq<DirectoryEntryS>,
}

/// The shape of a directory value.
pub open spec fn dir_view(d: ResourceDataDirectory) -> ResourceDataDirectoryS
    decreases d,
{
    ResourceDataDirectoryS {
        characteristics: d.characteristics,
        time_date_stamp: d.time_date_stamp,
        major_version: d.major_version,
        minor_version: d.minor_version,
        number_of_named_entries: d.number_of_named_entries,
        number_of_id_entries: d.number_of_id_entries,
        directories: entries_view(d.directories@),
    }
}

/// The shapes of a sequence of entries.
pub open spec fn entries_view(es: Seq<DirectoryEntry>) -> Seq<DirectoryEntryS>
    decreases es,
{
    if es.len() == 0 {
        Seq::empty()
    } else {
        entries_view(es.drop_last()).push(entry_view(es.last()))
    }
}

/// The shape of an entry value.
pub open spec fn entry_view(e: DirectoryEntry) -> DirectoryEntryS
    decreases e,
{
    DirectoryEntryS {
        resource_type_id: e.resource_type_id,
        offset: e.offset,
        resource: node_view(e.resource),
    }
}

/// The shape of a node value.
pub open spec fn node_view(n: ResourceNode) -> ResourceNodeS
    decreases n,
{
    match n {
        ResourceNode::Directory(d) => ResourceNodeS::Directory(dir_view(d)),
        ResourceNode::Leaf(l) => ResourceNodeS::Leaf(l),
    }
}

/// `entries_view` maps the sequence pointwise.
pub proof fn lemma_entries_view_len(es: Seq<DirectoryEntry>)
    ensures
        entries_view(es).len() == es.len(),
        forall|k: int| 0 <= k < es.len() ==> entries_view(es)[k] == entry_view(es[k]),
    decreases es,
{
    if es.len() > 0 {
        lemma_entries_view_len(es.drop_last());
    }
}

/// The leaf data descriptor at position `p` of `s`.
pub open spec fn spec_leaf(s: Seq<u8>, p: int) -> ResourceDataEntry {
    ResourceDataEntry {
        offset_to_data: le32(s, p),
        size: le32(s, p + 4),
        code_page: le32(s, p + 8),
        reserved: le32(s, p + 12),
    }
}

/// The count of entries (named plus numbered) a directory header at `p`
/// declares.
pub open spec fn spec_dir_entry_count(s: Seq<u8>, p: int) -> int {
    le16(s, p + 12) + le16(s, p + 14)
}

/// The decode of the resource directory at absolute position `off`, with
/// all child offsets taken relative to `root`, descending at most `depth`
/// levels further.
pub open spec fn spec_parse_dir(s: Seq<u8>, root: int, off: int, depth: nat) -> Result<
    ResourceDataDirectoryS,
    PeError,
>
    decreases depth, 1nat, 0nat,
{
    if off + 16 > s.len() {
        Err(PeError::Truncated)
    } else {
        match spec_parse_entries(s, root, off + 16, spec_dir_entry_count(s, off) as nat, depth) {
            Err(e) => Err(e),
            Ok(es) => Ok(
                ResourceDataDirectoryS {
                    characteristics: le32(s, off),
                    time_date_stamp: le32(s, off + 4),
                    major_version: le16(s, off + 8),
                    minor_version: le16(s, off + 10),
                    number_of_named_entries: le16(s, off + 12),
                    number_of_id_entries: le16(s, off + 14),
                    directories: es,
                },
            ),
        }
    }
}

/// The decode of the first `n` 8-byte entries at `off`, in file order; the
/// error of the earliest failing entry wins.
pub open spec fn spec_parse_entries(s: Seq<u8>, root: int, off: int, n: nat, depth: nat) -> Result<
    Seq<DirectoryEntryS>,
    PeError,
>
    decreases depth, 0nat, n,
{
    if n == 0 {
        Ok(Seq::empty())
    } else {
        match spec_parse_entries(s, root, off, (n - 1) as nat, depth) {
            Err(e) => Err(e),
            Ok(pre) => match spec_parse_entry(s, root, off + 8 * (n - 1), depth) {
                Err(e) => Err(e),
                Ok(e) => Ok(pre.push(e)),
            },
        }
    }
}

/// The decode of the one 8-byte entry at `off` and of the node its offset
/// field leads to.
pub open spec fn spec_parse_entry(s: Seq<u8>, root: int, off: int, depth: nat) -> Result<
    DirectoryEntryS,
    PeError,
>
    decreases depth, 0nat, 0nat,
{
    if off + 8 > s.len() {
        Err(PeError::Truncated)
    } else {
        let id = le32(s, off);
        let raw = le32(s, off + 4);
        let target = root + raw % HIGH_BIT;
        if raw >= HIGH_BIT {
            if depth == 0 {
                Err(PeError::MalformedImage)
            } else {
                match spec_parse_dir(s, root, target, (depth - 1) as nat) {
                    Err(e) => Err(e),
                    Ok(d) => Ok(
                        DirectoryEntryS {
                            resource_type_id: id,
                            offset: raw,
                            resource: ResourceNodeS::Directory(d),
                        },
                    ),
                }
            }
        } else {
            if target + 16 > s.len() {
                Err(PeError::Truncated)
            } else {
                Ok(
                    DirectoryEntryS {
                        resource_type_id: id,
                        offset: raw,
                        resource: ResourceNodeS::Leaf(spec_leaf(s, target)),
                    },
                )
            }
        }
    }
}

/// A prefix decode plus a failing next entry fails the whole decode with
/// that entry's error.
proof fn lemma_entries_err_at(
    s: Seq<u8>,
    root: int,
    off: int,
    k: nat,
    m: nat,
    depth: nat,
    pre: Seq<DirectoryEntryS>,
    e: PeError,
)
    requires
        k < m,
        spec_parse_entries(s, root, off, k, depth) == Ok::<Seq<DirectoryEntryS>, PeError>(pre),
        spec_parse_entry(s, root, off + 8 * k, depth) == Err::<DirectoryEntryS, PeError>(e),
    ensures
        spec_parse_entries(s, root, off, m, depth) == Err::<Seq<DirectoryEntryS>, PeError>(e),
    decreases m,
{
    if m == k + 1 {
    } else {
        lemma_entries_err_at(s, root, off, k, (m - 1) as nat, depth, pre, e);
    }
}

impl ResourceDataEntry {
    pub fn new() -> (r: ResourceDataEntry)
        ensures
            r == (ResourceDataEntry { offset_to_data: 0, size: 0, code_page: 0, reserved: 0 }),
    {
        ResourceDataEntry { offset_to_data: 0, size: 0, code_page: 0, reserved: 0 }
    }

    /// Decodes one 16-byte leaf data descriptor at the cursor's position.
    pub fn to_object(c: &mut Cursor) -> (r: Result<ResourceDataEntry, PeError>)
        ensures
            final(c).data == old(c).data,
            old(c).pos + 16 <= old(c).data@.len() ==> r == Ok::<ResourceDataEntry, PeError>(
                spec_leaf(old(c).data@, old(c).pos as int),
            ) && final(c).pos == old(c).pos + 16,
            old(c).pos + 16 > old(c).data@.len() ==> r == Err::<ResourceDataEntry, PeError>(
                PeError::Truncated,
            ),
    {
        if !c.has(16) {
            return Err(PeError::Truncated);
        }
        let offset_to_data = c.read_u32()?;
        let size = c.read_u32()?;
        let code_page = c.read_u32()?;
        let reserved = c.read_u32()?;
        Ok(ResourceDataEntry { offset_to_data, size, code_page, reserved })
    }
}

impl ResourceDataDirectory {
    pub fn new() -> (r: ResourceDataDirectory)
        ensures
            r.characteristics == 0,
            r.time_date_stamp == 0,
            r.major_version == 0,
            r.minor_version == 0,
            r.number_of_named_entries == 0,
            r.number_of_id_entries == 0,
            r.directories@.len() == 0,
    {
        ResourceDataDirectory {
            characteristics: 0,
            time_date_stamp: 0,
            major_version: 0,
            minor_version: 0,
            number_of_named_entries: 0,
            number_of_id_entries: 0,
            directories: Vec::new(),
        }
    }

    /// Decodes the directory at the cursor's position, child offsets
    /// relative to `root`, descending at most `depth` further levels. The
    /// cursor ends just past this directory's own header and entries.
    pub fn to_object(c: &mut Cursor, root: u32, depth: u32) -> (r: Result<
        ResourceDataDirectory,
        PeError,
    >)
        ensures
            final(c).data == old(c).data,
            match r {
                Ok(d) => spec_parse_dir(
                    old(c).data@,
                    root as int,
                    old(c).pos as int,
                    depth as nat,
                ) == Ok::<ResourceDataDirectoryS, PeError>(dir_view(d)),
                Err(e) => spec_parse_dir(
                    old(c).data@,
                    root as int,
                    old(c).pos as int,
                    depth as nat,
                ) == Err::<ResourceDataDirectoryS, PeError>(e),
            },
        decreases depth, 1nat, 0nat,
    {
        let ghost s = c.data@;
        let ghost p = c.pos as int;
        if !c.has(16) {
            return Err(PeError::Truncated);
        }
        let characteristics = c.read_u32()?;
        let time_date_stamp = c.read_u32()?;
        let major_version = c.read_u16()?;
        let minor_version = c.read_u16()?;
        let number_of_named_entries = c.read_u16()?;
        let number_of_id_entries = c.read_u16()?;
        let total: usize = number_of_named_entries as usize + number_of_id_entries as usize;

        let mut directories: Vec<DirectoryEntry> = Vec::new();
        proof {
            assert(entries_view(directories@) =~= Seq::<DirectoryEntryS>::empty());
        }
        let mut k: usize = 0;
        while k < total
            invariant
                k <= total,
                total == spec_dir_entry_count(s, p),
                c.data == old(c).data,
                s == old(c).data@,
                p == old(c).pos as int,
                p + 16 <= s.len(),
                c.pos == p + 16 + 8 * k,
                directories@.len() == k,
                spec_parse_entries(s, root as int, p + 16, k as nat, depth as nat) == Ok::<
                    Seq<DirectoryEntryS>,
                    PeError,
                >(entries_view(directories@)),
            decreases total - k,
        {
            let ghost pre = entries_view(directories@);
            let ghost old_dirs = directories@;
            let entry = match DirectoryEntry::to_object(c, root, depth) {
                Ok(entry) => entry,
                Err(e) => {
                    proof {
                        lemma_entries_err_at(
                            s,
                            root as int,
                            p + 16,
                            k as nat,
                            total as nat,
                            depth as nat,
                            pre,
                            e,
                        );
                    }
                    return Err(e);
                },
            };
            directories.push(entry);
            k = k + 1;
            proof {
                assert(directories@.drop_last() =~= old_dirs);
                assert(directories@.last() == entry);
                assert(entries_view(directories@) == pre.push(entry_view(entry)));
            }
        }

        Ok(
            ResourceDataDirectory {
                characteristics,
                time_date_stamp,
                major_version,
                minor_version,
                number_of_named_entries,
                number_of_id_entries,
                directories,
            },
        )
    }
}

impl DirectoryEntry {
    pub fn new() -> (r: DirectoryEntry)
        ensures
            r.resource_type_id == 0,
            r.offset == 0,
            r.resource == (ResourceNode::Leaf(
                ResourceDataEntry { offset_to_data: 0, size: 0, code_page: 0, reserved: 0 },
            )),
    {
        DirectoryEntry {
            resource_type_id: 0,
            offset: 0,
            resource: ResourceNode::Leaf(ResourceDataEntry::new()),
        }
    }

    /// Decodes one 8-byte entry at the cursor's position and the node its
    /// offset leads to, then puts the cursor back just past the entry.
    pub fn to_object(c: &mut Cursor, root: u32, depth: u32) -> (r: Result<DirectoryEntry, PeError>)
        ensures
            final(c).data == old(c).data,
            match r {
                Ok(entry) => spec_parse_entry(
                    old(c).data@,
                    root as int,
                    old(c).pos as int,
                    depth as nat,
                ) == Ok::<DirectoryEntryS, PeError>(entry_view(entry)) && final(c).pos == old(
                    c,
                ).pos + 8,
                Err(e) => spec_parse_entry(
                    old(c).data@,
                    root as int,
                    old(c).pos as int,
                    depth as nat,
                ) == Err::<DirectoryEntryS, PeError>(e),
            },
        decreases depth, 0nat, 0nat,
    {
        let ghost s = c.data@;
        let ghost p = c.pos as int;
        if !c.has(8) {
            return Err(PeError::Truncated);
        }
        let resource_type_id = c.read_u32()?;
        let raw = c.read_u32()?;
        let pointer_save = c.position();
        let target64: u64 = root as u64 + (raw % HIGH_BIT) as u64;

        if raw >= HIGH_BIT {
            if depth == 0 {
                return Err(PeError::MalformedImage);
            }
            if target64 > c.data.len() as u64 {
                return Err(PeError::Truncated);
            }
            c.seek(target64 as usize);
            let child = ResourceDataDirectory::to_object(c, root, depth - 1)?;
            c.seek(pointer_save);
            Ok(
                DirectoryEntry {
                    resource_type_id,
                    offset: raw,
                    resource: ResourceNode::Directory(child),
                },
            )
        } else {
            if target64 > c.data.len() as u64 {
                return Err(PeError::Truncated);
            }
            c.seek(target64 as usize);
            let leaf = ResourceDataEntry::to_object(c)?;
            c.seek(pointer_save);
            Ok(DirectoryEntry { resource_type_id, offset: raw, resource: ResourceNode::Leaf(leaf) })
        }
    }
}

} // verus!

verus! {

/// The numeric resource type of raw icon images.
pub const RT_ICON: u32 = 0x0003;

/// The numeric resource type of group-icon directories.
pub const RT_ICON_GROUP: u32 = 0x000e;

/// The numeric resource type of version information.
pub const RT_VERSION: u32 = 0x0010;

/// The numeric resource type of manifests.
pub const RT_MANIFEST: u32 = 0x0018;

/// The first-leaf walk over a directory's entries, as the launcher has
/// always walked it: entries in order; a nested directory contributes the
/// first leaf of its own walk (an empty walk below it is a
/// `ResourceNotFound` error); a leaf entry ends the whole walk at once,
/// yielding that leaf alone. The flag says whether a leaf entry ended the
/// walk early.
pub open spec fn spec_first_leaves(es: Seq<DirectoryEntryS>) -> Result<
    (Seq<ResourceDataEntry>, bool),
    PeError,
>
    decreases es,
{
    if es.len() == 0 {
        Ok((Seq::empty(), false))
    } else {
        match es[0].resource {
            ResourceNodeS::Leaf(l) => Ok((seq![l], true)),
            ResourceNodeS::Directory(d) => match spec_first_leaves(d.directories) {
                Err(e) => Err(e),
                Ok(inner) => {
                    if inner.0.len() == 0 {
                        Err(PeError::ResourceNotFound)
                    } else {
                        match spec_first_leaves(es.drop_first()) {
                            Err(e) => Err(e),
                            Ok(rest) => {
                                if rest.1 {
                                    Ok(rest)
                                } else {
                                    Ok((seq![inner.0[0]] + rest.0, false))
                                }
                            },
                        }
                    }
                },
            },
        }
    }
}

/// Walks a decoded directory and hands back one leaf data descriptor per
/// entry, as `spec_first_leaves` describes.
pub fn get_resource_directoryentry_data(d: &ResourceDataDirectory) -> (r: Result<
    Vec<ResourceDataEntry>,
    PeError,
>)
    ensures
        match r {
            Ok(v) => spec_first_leaves(dir_view(*d).directories) matches Ok(p) && v@ == p.0,
            Err(e) => spec_first_leaves(dir_view(*d).directories) == Err::<
                (Seq<ResourceDataEntry>, bool),
                PeError,
            >(e),
        },
    decreases *d,
{
    let ghost es = dir_view(*d).directories;
    proof {
        lemma_entries_view_len(d.directories@);
        assert(es.skip(0) =~= es);
    }
    let n = d.directories.len();
    let mut acc: Vec<ResourceDataEntry> = Vec::new();
    let mut k: usize = 0;
    while k < n
        invariant
            k <= n,
            n == d.directories@.len(),
            es == dir_view(*d).directories,
            es.len() == n,
            forall|j: int| 0 <= j < n ==> es[j] == entry_view(d.directories@[j]),
            spec_first_leaves(es) == (match spec_first_leaves(es.skip(k as int)) {
                Err(e) => Err::<(Seq<ResourceDataEntry>, bool), PeError>(e),
                Ok(rest) => {
                    if rest.1 {
                        Ok::<(Seq<ResourceDataEntry>, bool), PeError>(rest)
                    } else {
                        Ok::<(Seq<ResourceDataEntry>, bool), PeError>((acc@ + rest.0, false))
                    }
                },
            }),
        decreases n - k,
    {
        let ghost skipk = es.skip(k as int);
        proof {
            assert(skipk[0] == es[k as int]);
            assert(skipk.drop_first() =~= es.skip(k as int + 1));
        }
        match &d.directories[k].resource {
            ResourceNode::Leaf(l) => {
                let mut one: Vec<ResourceDataEntry> = Vec::new();
                one.push(*l);
                proof {
                    assert(one@ =~= seq![*l]);
                }
                return Ok(one);
            },
            ResourceNode::Directory(child) => {
                let inner = match get_resource_directoryentry_data(child) {
                    Ok(inner) => inner,
                    Err(e) => {
                        return Err(e);
                    },
                };
                if inner.len() == 0 {
                    return Err(PeError::ResourceNotFound);
                }
                let ghost old_acc = acc@;
                acc.push(inner[0]);
                proof {
                    assert(acc@ =~= old_acc + seq![inner@[0]]);
                    assert forall|rest0: Seq<ResourceDataEntry>|
                        (old_acc + (seq![inner@[0]] + rest0)) =~= (acc@ + rest0) by {}
                }
            },
        }
        k = k + 1;
    }
    proof {
        assert(es.skip(n as int) =~= Seq::<DirectoryEntryS>::empty());
        assert(acc@ + Seq::<ResourceDataEntry>::empty() =~= acc@);
    }
    Ok(acc)
}

} // verus!

verus! {

/// The views of a sequence of byte vectors.
pub open spec fn vecs_view(vs: Seq<Vec<u8>>) -> Seq<Seq<u8>> {
    Seq::new(vs.len(), |k: int| vs[k]@)
}

/// The bytes a leaf data descriptor points at: its RVA translated through
/// the section table, then `size` bytes from that file offset.
pub open spec fn spec_leaf_data(
    s: Seq<u8>,
    sections: Seq<crate::headers::OptionalHeaderSection>,
    l: ResourceDataEntry,
) -> Result<Seq<u8>, PeError> {
    match crate::sections::spec_rva_to_pa(sections, l.offset_to_data) {
        Err(e) => Err(e),
        Ok(pa) => {
            if pa + l.size > s.len() {
                Err(PeError::Truncated)
            } else {
                Ok(s.subrange(pa as int, pa + l.size))
            }
        },
    }
}

/// The bytes of the leaves from index `i` on, in order; the earliest
/// failing leaf's error wins.
pub open spec fn spec_payloads_from(
    s: Seq<u8>,
    sections: Seq<crate::headers::OptionalHeaderSection>,
    leaves: Seq<ResourceDataEntry>,
    i: int,
) -> Result<Seq<Seq<u8>>, PeError>
    decreases leaves.len() - i,
{
    if i < 0 || i >= leaves.len() {
        Ok(Seq::empty())
    } else {
        match spec_leaf_data(s, sections, leaves[i]) {
            Err(e) => Err(e),
            Ok(b) => match spec_payloads_from(s, sections, leaves, i + 1) {
                Err(e) => Err(e),
                Ok(rest) => Ok(seq![b] + rest),
            },
        }
    }
}

/// Reads the bytes one leaf data descriptor points at, translating its RVA
/// through the section table first. A leaf whose address maps nowhere is an
/// `UnmappedAddress` error; one whose bytes run past the end of the image
/// is a `Truncated` error.
pub fn get_resource_dataentry_data(
    data: &Vec<u8>,
    sections: &Vec<crate::headers::OptionalHeaderSection>,
    leaf: ResourceDataEntry,
) -> (r: Result<Vec<u8>, PeError>)
    ensures
        match r {
            Ok(v) => spec_leaf_data(data@, sections@, leaf) == Ok::<Seq<u8>, PeError>(v@),
            Err(e) => spec_leaf_data(data@, sections@, leaf) == Err::<Seq<u8>, PeError>(e),
        },
{
    let pa = crate::sections::rva_to_file_offset(sections, leaf.offset_to_data)?;
    let mut c = Cursor::new(data);
    let len = data.len();
    if pa > len as u64 || leaf.size as u64 > len as u64 - pa {
        return Err(PeError::Truncated);
    }
    c.seek(pa as usize);
    let bytes = c.read_vec(leaf.size as usize)?;
    Ok(bytes)
}


/// The payload bytes of every resource of numeric type `ty`, walking the
/// root directory's entries from index `i` on, in order: a matching entry
/// whose node is a directory contributes the bytes of its first-leaf walk;
/// any other entry contributes nothing.
pub open spec fn spec_collect_type(
    s: Seq<u8>,
    sections: Seq<crate::headers::OptionalHeaderSection>,
    es: Seq<DirectoryEntryS>,
    ty: u32,
    i: int,
) -> Result<Seq<Seq<u8>>, PeError>
    decreases es.len() - i,
{
    if i < 0 || i >= es.len() {
        Ok(Seq::empty())
    } else {
        let head = if es[i].resource_type_id == ty && es[i].resource is Directory {
            match spec_first_leaves(es[i].resource->Directory_0.directories) {
                Err(e) => Err(e),
                Ok(p) => spec_payloads_from(s, sections, p.0, 0),
            }
        } else {
            Ok(Seq::empty())
        };
        match head {
            Err(e) => Err(e),
            Ok(hp) => match spec_collect_type(s, sections, es, ty, i + 1) {
                Err(e) => Err(e),
                Ok(rp) => Ok(hp + rp),
            },
        }
    }
}

/// Collects, in file order, the payload bytes of every resource of numeric
/// type `ty` under the root directory: for each matching entry, the
/// first-leaf walk names the leaves, and each leaf's bytes are read through
/// the section table.
pub fn get_dataentry(
    data: &Vec<u8>,
    sections: &Vec<crate::headers::OptionalHeaderSection>,
    root_dir: &ResourceDataDirectory,
    ty: u32,
) -> (r: Result<Vec<Vec<u8>>, PeError>)
    ensures
        ({
            let es = dir_view(*root_dir).directories;
            match r {
                Ok(v) => spec_collect_type(data@, sections@, es, ty, 0) == Ok::<
                    Seq<Seq<u8>>,
                    PeError,
                >(vecs_view(v@)),
                Err(e) => spec_collect_type(data@, sections@, es, ty, 0) == Err::<
                    Seq<Seq<u8>>,
                    PeError,
                >(e),
            }
        }),
{
    let ghost s = data@;
    let ghost secs = sections@;
    let ghost es = dir_view(*root_dir).directories;
    let ghost c0 = spec_collect_type(s, secs, es, ty, 0);
    proof {
        lemma_entries_view_len(root_dir.directories@);
    }
    let n = root_dir.directories.len();
    let mut acc: Vec<Vec<u8>> = Vec::new();
    proof {
        assert(vecs_view(acc@) =~= Seq::<Seq<u8>>::empty());
    }
    let mut i: usize = 0;
    while i < n
        invariant
            i <= n,
            n == root_dir.directories@.len(),
            s == data@,
            secs == sections@,
            es == dir_view(*root_dir).directories,
            c0 == spec_collect_type(s, secs, es, ty, 0),
            es.len() == n,
            forall|j: int| 0 <= j < n ==> es[j] == entry_view(root_dir.directories@[j]),
            c0 == (match spec_collect_type(s, secs, es, ty, i as int) {
                Err(e) => Err::<Seq<Seq<u8>>, PeError>(e),
                Ok(rest) => Ok::<Seq<Seq<u8>>, PeError>(vecs_view(acc@) + rest),
            }),
        decreases n - i,
    {
        let entry = &root_dir.directories[i];
        let mut matched = false;
        if entry.resource_type_id == ty {
            match &entry.resource {
                ResourceNode::Directory(child) => {
                    matched = true;
                    proof {
                        assert(es[i as int] == entry_view(root_dir.directories@[i as int]));
                        assert(es[i as int].resource == node_view(
                            ResourceNode::Directory(*child),
                        ));
                        assert(es[i as int].resource->Directory_0 == dir_view(*child));
                    }
                    let leaves = match get_resource_directoryentry_data(child) {
                        Ok(leaves) => leaves,
                        Err(e) => {
                            return Err(e);
                        },
                    };
                    proof {
                        match spec_payloads_from(s, secs, leaves@, 0) {
                            Ok(rest) => {
                                match spec_collect_type(s, secs, es, ty, i as int + 1) {
                                    Ok(rp) => {
                                        assert((vecs_view(acc@) + (rest + rp)) =~= (vecs_view(acc@)
                                            + rest + rp));
                                    },
                                    Err(_) => {},
                                }
                            },
                            Err(_) => {},
                        }
                    }
                    let nl = leaves.len();
                    let mut j: usize = 0;
                    while j < nl
                        invariant
                            j <= nl,
                            nl == leaves@.len(),
                            s == data@,
                            secs == sections@,
                            es == dir_view(*root_dir).directories,
                            c0 == spec_collect_type(s, secs, es, ty, 0),
                            i < es.len(),
                            c0 == (match spec_payloads_from(s, secs, leaves@, j as int) {
                                Err(e) => Err::<Seq<Seq<u8>>, PeError>(e),
                                Ok(rest) => (match spec_collect_type(
                                    s,
                                    secs,
                                    es,
                                    ty,
                                    i as int + 1,
                                ) {
                                    Err(e) => Err::<Seq<Seq<u8>>, PeError>(e),
                                    Ok(rp) => Ok::<Seq<Seq<u8>>, PeError>(
                                        vecs_view(acc@) + rest + rp,
                                    ),
                                }),
                            }),
                        decreases nl - j,
                    {
                        let b = match get_resource_dataentry_data(data, sections, leaves[j]) {
                            Ok(b) => b,
                            Err(e) => {
                                return Err(e);
                            },
                        };
                        let ghost old_acc = acc@;
                        acc.push(b);
                        j = j + 1;
                        proof {
                            assert(vecs_view(acc@) =~= vecs_view(old_acc).push(b@));
                            match spec_payloads_from(s, secs, leaves@, j as int) {
                                Ok(rest) => {
                                    match spec_collect_type(s, secs, es, ty, i as int + 1) {
                                        Ok(rp) => {
                                            assert((vecs_view(old_acc) + (seq![b@] + rest) + rp)
                                                =~= (vecs_view(acc@) + rest + rp));
                                        },
                                        Err(_) => {},
                                    }
                                },
                                Err(_) => {},
                            }
                        }
                    }
                    proof {
                        match spec_collect_type(s, secs, es, ty, i as int + 1) {
                            Ok(rp) => {
                                assert((vecs_view(acc@) + Seq::<Seq<u8>>::empty() + rp) =~= (
                                vecs_view(acc@) + rp));
                            },
                            Err(_) => {},
                        }
                    }
                },
                ResourceNode::Leaf(_) => {},
            }
        }
        if !matched {
            proof {
                match spec_collect_type(s, secs, es, ty, i as int + 1) {
                    Ok(rp) => {
                        assert((Seq::<Seq<u8>>::empty() + rp) =~= rp);
                    },
                    Err(_) => {},
                }
            }
        }
        i = i + 1;
    }
    Ok(acc)
}

} // verus!

verus! {

/// A leaf whose address falls inside no section fails with
/// `UnmappedAddress`: its bytes are never read, least of all from file
/// offset 0, which is a valid location that silent fallback would corrupt.
pub proof fn lemma_unmapped_leaf(
    s: Seq<u8>,
    sections: Seq<crate::headers::OptionalHeaderSection>,
    l: ResourceDataEntry,
)
    requires
        forall|j: int|
            0 <= j < sections.len() ==> !crate::sections::spec_section_contains(
                sections[j],
                l.offset_to_data,
            ),
    ensures
        spec_leaf_data(s, sections, l) == Err::<Seq<u8>, PeError>(PeError::UnmappedAddress),
{
    crate::sections::lemma_rva_maps_iff_contained(sections, 0, l.offset_to_data);
}

} // verus!

verus! {

/// A length-prefixed name string in the resource section. Only the 2-byte
/// length prefix is decoded; named entries play no part in icon lookup.
pub struct ResourceDirectoryString {
    pub length: u16,
    pub string: String,
}

impl ResourceDirectoryString {
    pub fn new() -> (r: ResourceDirectoryString)
        ensures
            r.length == 0,
            r.string@.len() == 0,
    {
        ResourceDirectoryString { length: 0, string: String::new() }
    }

    /// Decodes the 2-byte length prefix at the cursor's position.
    pub fn to_object(c: &mut Cursor) -> (r: Result<ResourceDirectoryString, PeError>)
        ensures
            final(c).data == old(c).data,
            old(c).pos + 2 <= old(c).data@.len() ==> (r matches Ok(d) && d.length == le16(
                old(c).data@,
                old(c).pos as int,
            ) && d.string@.len() == 0 && final(c).pos == old(c).pos + 2),
            old(c).pos + 2 > old(c).data@.len() ==> (r matches Err(e) && e == PeError::Truncated),
    {
        let length = c.read_u16()?;
        Ok(ResourceDirectoryString { length, string: String::new() })
    }
}

} // verus!

verus! {

/// Entry decode on a truncated copy: where the full image decodes an
/// entry, the copy decodes the same entry or fails with `Truncated`.
proof fn lemma_entry_prefix(s: Seq<u8>, cut: int, root: int, off: int, depth: nat)
    requires
        0 <= cut <= s.len(),
        0 <= root,
        0 <= off,
    ensures
        spec_parse_entry(s, root, off, depth) is Ok ==> (spec_parse_entry(
            s.take(cut),
            root,
            off,
            depth,
        ) == spec_parse_entry(s, root, off, depth) || spec_parse_entry(
            s.take(cut),
            root,
            off,
            depth,
        ) == Err::<DirectoryEntryS, PeError>(PeError::Truncated)),
    decreases depth, 0nat, 0nat,
{
    let s2 = s.take(cut);
    if spec_parse_entry(s, root, off, depth) is Ok {
        if off + 8 <= cut {
            assert(le32(s2, off) == le32(s, off));
            assert(le32(s2, off + 4) == le32(s, off + 4));
            let raw = le32(s, off + 4);
            let target = root + raw % HIGH_BIT;
            if raw >= HIGH_BIT {
                lemma_dir_prefix(s, cut, root, target, (depth - 1) as nat);
            } else {
                if target + 16 <= cut {
                    assert(spec_leaf(s2, target) == spec_leaf(s, target));
                }
            }
        }
    }
}

/// Entry-sequence decode on a truncated copy: the same entries, or
/// `Truncated`.
proof fn lemma_entries_prefix(s: Seq<u8>, cut: int, root: int, off: int, n: nat, depth: nat)
    requires
        0 <= cut <= s.len(),
        0 <= root,
        0 <= off,
    ensures
        spec_parse_entries(s, root, off, n, depth) is Ok ==> (spec_parse_entries(
            s.take(cut),
            root,
            off,
            n,
            depth,
        ) == spec_parse_entries(s, root, off, n, depth) || spec_parse_entries(
            s.take(cut),
            root,
            off,
            n,
            depth,
        ) == Err::<Seq<DirectoryEntryS>, PeError>(PeError::Truncated)),
    decreases depth, 0nat, n,
{
    if n > 0 && spec_parse_entries(s, root, off, n, depth) is Ok {
        lemma_entries_prefix(s, cut, root, off, (n - 1) as nat, depth);
        lemma_entry_prefix(s, cut, root, off + 8 * (n - 1), depth);
    }
}

/// Directory decode on a truncated copy: the same directory, or
/// `Truncated`.
#[verifier::rlimit(50)]
pub proof fn lemma_dir_prefix(s: Seq<u8>, cut: int, root: int, off: int, depth: nat)
    requires
        0 <= cut <= s.len(),
        0 <= root,
        0 <= off,
    ensures
        spec_parse_dir(s, root, off, depth) is Ok ==> (spec_parse_dir(
            s.take(cut),
            root,
            off,
            depth,
        ) == spec_parse_dir(s, root, off, depth) || spec_parse_dir(s.take(cut), root, off, depth)
            == Err::<ResourceDataDirectoryS, PeError>(PeError::Truncated)),
    decreases depth, 1nat, 0nat,
{
    let s2 = s.take(cut);
    if spec_parse_dir(s, root, off, depth) is Ok {
        if off + 16 <= cut {
            assert(le16(s2, off + 12) == le16(s, off + 12));
            assert(le16(s2, off + 14) == le16(s, off + 14));
            assert(spec_dir_entry_count(s2, off) == spec_dir_entry_count(s, off));
            lemma_entries_prefix(
                s,
                cut,
                root,
                off + 16,
                spec_dir_entry_count(s, off) as nat,
                depth,
            );
            assert(le32(s2, off) == le32(s, off));
            assert(le32(s2, off + 4) == le32(s, off + 4));
            assert(le16(s2, off + 8) == le16(s, off + 8));
            assert(le16(s2, off + 10) == le16(s, off + 10));
        }
    }
}

/// Leaf bytes on a truncated copy: the same bytes, or `Truncated`.
proof fn lemma_leaf_data_prefix(
    s: Seq<u8>,
    cut: int,
    sections: Seq<crate::headers::OptionalHeaderSection>,
    l: ResourceDataEntry,
)
    requires
        0 <= cut <= s.len(),
    ensures
        spec_leaf_data(s, sections, l) is Ok ==> (spec_leaf_data(s.take(cut), sections, l)
            == spec_leaf_data(s, sections, l) || spec_leaf_data(s.take(cut), sections, l) == Err::<
            Seq<u8>,
            PeError,
        >(PeError::Truncated)),
{
    let s2 = s.take(cut);
    if spec_leaf_data(s, sections, l) is Ok {
        match crate::sections::spec_rva_to_pa(sections, l.offset_to_data) {
            Ok(pa) => {
                if pa + l.size <= cut {
                    assert(s2.subrange(pa as int, pa + l.size) =~= s.subrange(
                        pa as int,
                        pa + l.size,
                    ));
                }
            },
            Err(_) => {},
        }
    }
}

/// Per-leaf payloads on a truncated copy: the same list, or `Truncated`.
proof fn lemma_payloads_prefix(
    s: Seq<u8>,
    cut: int,
    sections: Seq<crate::headers::OptionalHeaderSection>,
    leaves: Seq<ResourceDataEntry>,
    i: int,
)
    requires
        0 <= cut <= s.len(),
    ensures
        spec_payloads_from(s, sections, leaves, i) is Ok ==> (spec_payloads_from(
            s.take(cut),
            sections,
            leaves,
            i,
        ) == spec_payloads_from(s, sections, leaves, i) || spec_payloads_from(
            s.take(cut),
            sections,
            leaves,
            i,
        ) == Err::<Seq<Seq<u8>>, PeError>(PeError::Truncated)),
    decreases leaves.len() - i,
{
    if 0 <= i < leaves.len() && spec_payloads_from(s, sections, leaves, i) is Ok {
        lemma_leaf_data_prefix(s, cut, sections, leaves[i]);
        lemma_payloads_prefix(s, cut, sections, leaves, i + 1);
    }
}

/// Type-wide payload collection on a truncated copy: the same list, or
/// `Truncated`.
pub proof fn lemma_collect_prefix(
    s: Seq<u8>,
    cut: int,
    sections: Seq<crate::headers::OptionalHeaderSection>,
    es: Seq<DirectoryEntryS>,
    ty: u32,
    i: int,
)
    requires
        0 <= cut <= s.len(),
    ensures
        spec_collect_type(s, sections, es, ty, i) is Ok ==> (spec_collect_type(
            s.take(cut),
            sections,
            es,
            ty,
            i,
        ) == spec_collect_type(s, sections, es, ty, i) || spec_collect_type(
            s.take(cut),
            sections,
            es,
            ty,
            i,
        ) == Err::<Seq<Seq<u8>>, PeError>(PeError::Truncated)),
    decreases es.len() - i,
{
    if 0 <= i < es.len() && spec_collect_type(s, sections, es, ty, i) is Ok {
        if es[i].resource_type_id == ty && es[i].resource is Directory {
            match spec_first_leaves(es[i].resource->Directory_0.directories) {
                Ok(p) => {
                    lemma_payloads_prefix(s, cut, sections, p.0, 0);
                },
                Err(_) => {},
            }
        }
        lemma_collect_prefix(s, cut, sections, es, ty, i + 1);
    }
}

} // verus!
