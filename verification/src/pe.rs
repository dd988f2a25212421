//! The image analyser: validates the two-stage header signature of an
//! executable image held in its loaded form, extracts the section table, the
//! export information, the base-relocation entries and the import thunks, and
//! computes the load layout for a chosen base address.
//!
//! Every offset is validated against the image bounds before it is read; an
//! out-of-range offset is a parse failure, never a read.

use vstd::prelude::*;

use crate::EngineError;
use crate::buf::{copy_range, le16, le32, le64, read_u16, read_u32, read_u64};

verus! {

/// First signature: the two magic bytes opening every image.
pub const DOS_MAGIC: u64 = 0x5a4d;

/// Second signature, found at the offset the first header points to.
pub const PE_MAGIC: u64 = 0x4550;

/// The only machine type the engine recognises: the 64-bit type of the
/// platform it patches.
pub const MACHINE_X64: u64 = 0x8664;

/// Magic of the 64-bit optional header.
pub const OPT_MAGIC_PE64: u64 = 0x20b;

/// Byte offset of the pointer to the second header.
pub const PE_OFF_FIELD: usize = 0x3c;

/// A relocation entry of this type adds the load delta to the 64-bit value at
/// its target.
pub const RELOC_DIR64: u64 = 10;

/// A relocation entry of this type is alignment padding and changes nothing.
pub const RELOC_ABSOLUTE: u64 = 0;

/// Offset of the pointer to the second header, as read from the image.
pub open spec fn spec_pe_off(b: Seq<u8>) -> int {
    le32(b, PE_OFF_FIELD as int)
}

/// Number of entries in the section table.
pub open spec fn spec_num_sections(b: Seq<u8>) -> int {
    le16(b, spec_pe_off(b) + 6)
}

/// Declared size of the optional header.
pub open spec fn spec_opt_size(b: Seq<u8>) -> int {
    le16(b, spec_pe_off(b) + 20)
}

/// Offset of the section table.
pub open spec fn spec_sec_table_off(b: Seq<u8>) -> int {
    spec_pe_off(b) + 24 + spec_opt_size(b)
}

/// Relative address of the entry point.
pub open spec fn spec_entry_rva(b: Seq<u8>) -> int {
    le32(b, spec_pe_off(b) + 24 + 16)
}

/// The base address the image was linked for.
pub open spec fn spec_preferred_base(b: Seq<u8>) -> int {
    le64(b, spec_pe_off(b) + 24 + 24)
}

/// Size of the image once mapped.
pub open spec fn spec_image_size(b: Seq<u8>) -> int {
    le32(b, spec_pe_off(b) + 24 + 56)
}

/// Size of the header region copied verbatim when mapping.
pub open spec fn spec_headers_size(b: Seq<u8>) -> int {
    le32(b, spec_pe_off(b) + 24 + 60)
}

/// Relative address of data directory `k`.
pub open spec fn spec_dir_rva(b: Seq<u8>, k: int) -> int {
    le32(b, spec_pe_off(b) + 136 + 8 * k)
}

/// Declared size of data directory `k`.
pub open spec fn spec_dir_size(b: Seq<u8>, k: int) -> int {
    le32(b, spec_pe_off(b) + 140 + 8 * k)
}

/// Both header signatures are present, the machine type and optional-header
/// magic are the recognised ones, and every header field needed later lies
/// inside the image and is consistent with the image size.
pub open spec fn headers_wf(b: Seq<u8>) -> bool {
    &&& b.len() >= 0x40
    &&& le16(b, 0) == DOS_MAGIC
    &&& spec_pe_off(b) + 264 <= b.len()
    &&& le32(b, spec_pe_off(b)) == PE_MAGIC
    &&& le16(b, spec_pe_off(b) + 4) == MACHINE_X64
    &&& le16(b, spec_pe_off(b) + 24) == OPT_MAGIC_PE64
    &&& spec_opt_size(b) >= 240
    &&& spec_sec_table_off(b) + 40 * spec_num_sections(b) <= b.len()
    &&& 1 <= spec_image_size(b)
    &&& spec_entry_rva(b) < spec_image_size(b)
    &&& spec_headers_size(b) <= spec_image_size(b)
}

/// The header fields the parsers and the mapper work from.
pub struct HeaderInfo {
    pub pe_off: u64,
    pub num_sections: u64,
    pub sec_table_off: u64,
    pub entry_rva: u64,
    pub preferred_base: u64,
    pub image_size: u64,
    pub headers_size: u64,
}

/// `h` holds exactly the header fields of `b`.
pub open spec fn header_info_matches(b: Seq<u8>, h: HeaderInfo) -> bool {
    &&& h.pe_off == spec_pe_off(b)
    &&& h.num_sections == spec_num_sections(b)
    &&& h.sec_table_off == spec_sec_table_off(b)
    &&& h.entry_rva == spec_entry_rva(b)
    &&& h.preferred_base == spec_preferred_base(b)
    &&& h.image_size == spec_image_size(b)
    &&& h.headers_size == spec_headers_size(b)
}

/// Validates both header signatures, the machine type and the header bounds,
/// and returns the header fields.  Fails with `MalformedImage` exactly when
/// `headers_wf` does not hold of the bytes.
pub fn parse_headers(bytes: &Vec<u8>) -> (r: Result<HeaderInfo, EngineError>)
    ensures
        r is Ok <==> headers_wf(bytes@),
        r is Err ==> r == Err::<HeaderInfo, EngineError>(EngineError::MalformedImage),
        r is Ok ==> header_info_matches(bytes@, r.unwrap()),
{
    let len: usize = bytes.len();
    let len64: u64 = len as u64;
    if len < 0x40 {
        return Err(EngineError::MalformedImage);
    }
    if read_u16(bytes, 0) != DOS_MAGIC {
        return Err(EngineError::MalformedImage);
    }
    let pe_off = read_u32(bytes, PE_OFF_FIELD);
    if pe_off + 264 > len64 {
        return Err(EngineError::MalformedImage);
    }
    let pe = pe_off as usize;
    if read_u32(bytes, pe) != PE_MAGIC {
        return Err(EngineError::MalformedImage);
    }
    if read_u16(bytes, pe + 4) != MACHINE_X64 {
        return Err(EngineError::MalformedImage);
    }
    if read_u16(bytes, pe + 24) != OPT_MAGIC_PE64 {
        return Err(EngineError::MalformedImage);
    }
    let opt_size = read_u16(bytes, pe + 20);
    if opt_size < 240 {
        return Err(EngineError::MalformedImage);
    }
    let num_sections = read_u16(bytes, pe + 6);
    let sec_table_off = pe_off + 24 + opt_size;
    if sec_table_off + 40 * num_sections > len64 {
        return Err(EngineError::MalformedImage);
    }
    let image_size = read_u32(bytes, pe + 80);
    if image_size < 1 {
        return Err(EngineError::MalformedImage);
    }
    let entry_rva = read_u32(bytes, pe + 40);
    if entry_rva >= image_size {
        return Err(EngineError::MalformedImage);
    }
    let headers_size = read_u32(bytes, pe + 84);
    if headers_size > image_size {
        return Err(EngineError::MalformedImage);
    }
    let preferred_base = read_u64(bytes, pe + 48);
    Ok(
        HeaderInfo {
            pe_off,
            num_sections,
            sec_table_off,
            entry_rva,
            preferred_base,
            image_size,
            headers_size,
        },
    )
}

/// One entry of the section table.
pub struct SectionHeader {
    pub name: Vec<u8>,
    pub virtual_address: u64,
    pub virtual_size: u64,
    pub raw_offset: u64,
    pub raw_size: u64,
    pub characteristics: u64,
}

/// Offset of section `i`'s table entry.
pub open spec fn spec_section_off(b: Seq<u8>, i: int) -> int {
    spec_sec_table_off(b) + 40 * i
}

/// Name bytes of section `i`.
pub open spec fn spec_section_name(b: Seq<u8>, i: int) -> Seq<u8> {
    b.subrange(spec_section_off(b, i), spec_section_off(b, i) + 8)
}

/// Mapped size of section `i`.
pub open spec fn spec_section_vsize(b: Seq<u8>, i: int) -> int {
    le32(b, spec_section_off(b, i) + 8)
}

/// Mapped address of section `i`, relative to the load base.
pub open spec fn spec_section_va(b: Seq<u8>, i: int) -> int {
    le32(b, spec_section_off(b, i) + 12)
}

/// Stored size of section `i` in the raw image.
pub open spec fn spec_section_raw_size(b: Seq<u8>, i: int) -> int {
    le32(b, spec_section_off(b, i) + 16)
}

/// Offset of section `i`'s stored bytes in the raw image.
pub open spec fn spec_section_raw_off(b: Seq<u8>, i: int) -> int {
    le32(b, spec_section_off(b, i) + 20)
}

/// Characteristics flags of section `i`.
pub open spec fn spec_section_chars(b: Seq<u8>, i: int) -> int {
    le32(b, spec_section_off(b, i) + 36)
}

/// Every section's mapped range lies inside the mapped image.
pub open spec fn sections_wf(b: Seq<u8>) -> bool {
    forall|i: int|
        0 <= i < spec_num_sections(b) ==> spec_section_va(b, i) + spec_section_vsize(b, i)
            <= spec_image_size(b)
}

/// Section `i` of the vector holds exactly the fields of section `i` of `b`.
pub open spec fn section_matches(b: Seq<u8>, s: SectionHeader, i: int) -> bool {
    &&& s.name@ == spec_section_name(b, i)
    &&& s.virtual_address == spec_section_va(b, i)
    &&& s.virtual_size == spec_section_vsize(b, i)
    &&& s.raw_offset == spec_section_raw_off(b, i)
    &&& s.raw_size == spec_section_raw_size(b, i)
    &&& s.characteristics == spec_section_chars(b, i)
}

/// Reads the section table.  Fails with `MalformedImage` exactly when a
/// section's mapped range falls outside the mapped image.
pub fn parse_sections(bytes: &Vec<u8>, h: &HeaderInfo) -> (r: Result<
    Vec<SectionHeader>,
    EngineError,
>)
    requires
        headers_wf(bytes@),
        header_info_matches(bytes@, *h),
    ensures
        r is Ok <==> sections_wf(bytes@),
        r is Err ==> r == Err::<Vec<SectionHeader>, EngineError>(EngineError::MalformedImage),
        r is Ok ==> ({
            let ss = r.unwrap()@;
            &&& ss.len() == spec_num_sections(bytes@)
            &&& forall|i: int| 0 <= i < ss.len() ==> section_matches(bytes@, ss[i], i)
        }),
{
    let len: usize = bytes.len();
    let mut sections: Vec<SectionHeader> = Vec::new();
    let n: usize = h.num_sections as usize;
    let mut i: usize = 0;
    while i < n
        invariant
            headers_wf(bytes@),
            header_info_matches(bytes@, *h),
            n == spec_num_sections(bytes@),
            i <= n,
            len == bytes@.len(),
            sections@.len() == i,
            forall|k: int| 0 <= k < i ==> section_matches(bytes@, sections@[k], k),
            forall|k: int|
                0 <= k < i ==> spec_section_va(bytes@, k) + spec_section_vsize(bytes@, k)
                    <= spec_image_size(bytes@),
        decreases n - i,
    {
        let off: usize = (h.sec_table_off + 40 * (i as u64)) as usize;
        let name = copy_range(bytes, off, off + 8);
        let virtual_size = read_u32(bytes, off + 8);
        let virtual_address = read_u32(bytes, off + 12);
        let raw_size = read_u32(bytes, off + 16);
        let raw_offset = read_u32(bytes, off + 20);
        let characteristics = read_u32(bytes, off + 36);
        if virtual_address + virtual_size > h.image_size {
            proof {
                assert(spec_section_va(bytes@, i as int) + spec_section_vsize(bytes@, i as int)
                    > spec_image_size(bytes@));
                assert(!sections_wf(bytes@));
            }
            return Err(EngineError::MalformedImage);
        }
        sections.push(
            SectionHeader {
                name,
                virtual_address,
                virtual_size,
                raw_offset,
                raw_size,
                characteristics,
            },
        );
        i += 1;
    }
    Ok(sections)
}

/// One exported symbol: its name bytes and its address relative to the load
/// base.
pub struct ExportEntry {
    pub name: Vec<u8>,
    pub rva: u64,
}

/// One base-relocation entry: the address, relative to the load base, of a
/// 64-bit value that must be shifted by the load delta.
pub struct RelocEntry {
    pub rva: u64,
}

/// One import: the symbol name looked up in another image's exports, and the
/// address table slot, relative to the load base, that receives the resolved
/// address.
pub struct ImportEntry {
    pub name: Vec<u8>,
    pub iat_rva: u64,
}

/// Whether some entry of `es` carries exactly the name `name`.
pub open spec fn has_export(es: Seq<ExportEntry>, name: Seq<u8>) -> bool {
    exists|i: int| 0 <= i < es.len() && es[i].name@ == name
}

/// The parsed load layout of one image: where it is (or will be) based, how
/// large its mapped form is, and its sections, exports, relocations and
/// imports, all validated against the image bounds.
pub struct ParsedLayout {
    pub base: u64,
    pub image_size: u64,
    pub entry_rva: u64,
    pub preferred_base: u64,
    pub sections: Vec<SectionHeader>,
    pub exports: Vec<ExportEntry>,
    pub relocs: Vec<RelocEntry>,
    pub imports: Vec<ImportEntry>,
}

impl ParsedLayout {
    /// Every relative address of the layout was validated against the image
    /// size, and absolute addresses computed from `base` stay inside the
    /// address width.
    pub open spec fn wf(self) -> bool {
        &&& self.base + self.image_size <= u64::MAX
        &&& 1 <= self.image_size
        &&& self.entry_rva < self.image_size
        &&& forall|i: int|
            0 <= i < self.exports@.len() ==> self.exports@[i].rva < self.image_size
        &&& forall|i: int|
            0 <= i < self.sections@.len() ==> self.sections@[i].virtual_address
                + self.sections@[i].virtual_size <= self.image_size
        &&& forall|i: int|
            0 <= i < self.imports@.len() ==> self.imports@[i].iat_rva + 8 <= self.image_size
    }

    /// Looks the name up in the image's exports and returns its absolute
    /// address (the load base plus the first matching entry's relative
    /// address).  The address always lies inside the image's mapped bounds.
    /// Fails with `NotFound` exactly when no export carries the name.
    pub fn resolve_export(&self, name: &Vec<u8>) -> (r: Result<u64, EngineError>)
        requires
            self.wf(),
        ensures
            r is Ok <==> has_export(self.exports@, name@),
            r is Err ==> r == Err::<u64, EngineError>(EngineError::NotFound),
            r is Ok ==> exists|i: int|
                #![auto]
                0 <= i < self.exports@.len() && self.exports@[i].name@ == name@ && (forall|j: int|
                    0 <= j < i ==> self.exports@[j].name@ != name@) && r == Ok::<
                    u64,
                    EngineError,
                >((self.base + self.exports@[i].rva) as u64),
            r is Ok ==> self.base <= r.unwrap() < self.base + self.image_size,
    {
        let mut i: usize = 0;
        let n: usize = self.exports.len();
        while i < n
            invariant
                self.wf(),
                n == self.exports@.len(),
                i <= n,
                forall|j: int| 0 <= j < i ==> self.exports@[j].name@ != name@,
            decreases n - i,
        {
            if crate::buf::bytes_eq(&self.exports[i].name, name) {
                let addr = self.base + self.exports[i].rva;
                proof {
                    assert(0 <= i < self.exports@.len() && self.exports@[i as int].name@ == name@
                        && (forall|j: int| 0 <= j < i ==> self.exports@[j].name@ != name@) && Ok::<
                        u64,
                        EngineError,
                    >(addr) == Ok::<u64, EngineError>(
                        (self.base + self.exports@[i as int].rva) as u64,
                    ));
                }
                return Ok(addr);
            }
            i += 1;
        }
        Err(EngineError::NotFound)
    }
}

/// The bytes at offset `i` of `d` match `p` wherever the mask is set.
pub open spec fn pattern_matches_at(d: Seq<u8>, p: Seq<u8>, m: Seq<bool>, i: int) -> bool {
    &&& 0 <= i
    &&& i + p.len() <= d.len()
    &&& forall|j: int| 0 <= j < p.len() && m[j] ==> d[i + j] == p[j]
}

/// The pattern matches somewhere in `d`.
pub open spec fn has_pattern(d: Seq<u8>, p: Seq<u8>, m: Seq<bool>) -> bool {
    exists|i: int| pattern_matches_at(d, p, m, i)
}

fn matches_at(data: &Vec<u8>, pattern: &Vec<u8>, mask: &Vec<bool>, i: usize) -> (r: bool)
    requires
        pattern@.len() == mask@.len(),
        i + pattern@.len() <= data@.len(),
    ensures
        r == pattern_matches_at(data@, pattern@, mask@, i as int),
{
    let mut j: usize = 0;
    let n: usize = pattern.len();
    while j < n
        invariant
            pattern@.len() == mask@.len(),
            i + pattern@.len() <= data@.len(),
            n == pattern@.len(),
            j <= n,
            forall|k: int| 0 <= k < j && mask@[k] ==> data@[i + k] == pattern@[k],
        decreases n - j,
    {
        let _dlen: usize = data.len();
        if mask[j] && data[i + j] != pattern[j] {
            proof {
                assert(mask@[j as int] && data@[i + j] != pattern@[j as int]);
            }
            return false;
        }
        j += 1;
    }
    true
}

impl ParsedLayout {
    /// Scans the image bytes for the first position whose bytes equal the
    /// pattern wherever the mask is set, and returns that position as an
    /// absolute address.  This is the degraded-confidence resolution path for
    /// call sites that export no symbol.  Fails with `NotFound` exactly when
    /// no position matches.
    pub fn find_pattern(&self, data: &Vec<u8>, pattern: &Vec<u8>, mask: &Vec<bool>) -> (r: Result<
        u64,
        EngineError,
    >)
        requires
            self.wf(),
            data@.len() == self.image_size,
            pattern@.len() == mask@.len(),
            1 <= pattern@.len(),
        ensures
            r is Ok <==> has_pattern(data@, pattern@, mask@),
            r is Err ==> r == Err::<u64, EngineError>(EngineError::NotFound),
            r is Ok ==> exists|i: int|
                #![auto]
                pattern_matches_at(data@, pattern@, mask@, i) && (forall|k: int|
                    0 <= k < i ==> !pattern_matches_at(data@, pattern@, mask@, k)) && r == Ok::<
                    u64,
                    EngineError,
                >((self.base + i) as u64),
            r is Ok ==> self.base <= r.unwrap() < self.base + self.image_size,
    {
        let dlen: usize = data.len();
        let plen: usize = pattern.len();
        if plen > dlen {
            proof {
                assert(forall|t: int| !pattern_matches_at(data@, pattern@, mask@, t));
            }
            return Err(EngineError::NotFound);
        }
        let last: usize = dlen - plen;
        let mut i: usize = 0;
        while i <= last
            invariant
                self.wf(),
                data@.len() == self.image_size,
                pattern@.len() == mask@.len(),
                1 <= pattern@.len(),
                plen == pattern@.len(),
                dlen == data@.len(),
                last == dlen - plen,
                i <= last + 1,
                forall|k: int| 0 <= k < i ==> !pattern_matches_at(data@, pattern@, mask@, k),
            decreases last + 1 - i,
        {
            if matches_at(data, pattern, mask, i) {
                let addr = self.base + (i as u64);
                proof {
                    assert(pattern_matches_at(data@, pattern@, mask@, i as int) && (forall|k: int|
                        0 <= k < i ==> !pattern_matches_at(data@, pattern@, mask@, k)) && Ok::<
                        u64,
                        EngineError,
                    >(addr) == Ok::<u64, EngineError>((self.base + i as int) as u64));
                }
                return Ok(addr);
            }
            i += 1;
        }
        proof {
            assert forall|t: int| !pattern_matches_at(data@, pattern@, mask@, t) by {
                if 0 <= t && t + pattern@.len() <= data@.len() {
                    assert(t < i);
                }
            }
        }
        Err(EngineError::NotFound)
    }
}

/// The zero-terminated byte string starting at `off`, read no further than
/// `end`.
pub open spec fn cstr_at(b: Seq<u8>, off: int, end: int) -> Seq<u8>
    decreases end - off,
{
    if off < 0 || off >= end || off >= b.len() || b[off] == 0 {
        Seq::empty()
    } else {
        seq![b[off]] + cstr_at(b, off + 1, end)
    }
}

/// A zero terminator exists at or after `off`, before `end`.
pub open spec fn has_cstr(b: Seq<u8>, off: int, end: int) -> bool {
    exists|e: int| off <= e < end && b[e] == 0
}

/// Reads the zero-terminated string at `off`.  Fails with `MalformedImage`
/// exactly when no terminator lies before `end`.
fn read_cstr(bytes: &Vec<u8>, off: u64, end: u64) -> (r: Result<Vec<u8>, EngineError>)
    requires
        end <= bytes@.len(),
    ensures
        r is Ok <==> has_cstr(bytes@, off as int, end as int),
        r is Err ==> r == Err::<Vec<u8>, EngineError>(EngineError::MalformedImage),
        r is Ok ==> r.unwrap()@ == cstr_at(bytes@, off as int, end as int),
{
    if off >= end {
        return Err(EngineError::MalformedImage);
    }
    let mut acc: Vec<u8> = Vec::new();
    let mut j: u64 = off;
    while j < end
        invariant
            end <= bytes@.len(),
            off <= j <= end,
            forall|k: int| off <= k < j ==> bytes@[k] != 0,
            cstr_at(bytes@, off as int, end as int) == acc@ + cstr_at(
                bytes@,
                j as int,
                end as int,
            ),
        decreases end - j,
    {
        let _blen: usize = bytes.len();
        let c = bytes[j as usize];
        if c == 0 {
            proof {
                assert(off <= j < end && bytes@[j as int] == 0);
                assert(cstr_at(bytes@, j as int, end as int) == Seq::<u8>::empty());
                assert(acc@ + Seq::<u8>::empty() =~= acc@);
            }
            return Ok(acc);
        }
        let ghost acc0 = acc@;
        acc.push(c);
        j += 1;
        proof {
            assert(acc@ =~= acc0 + seq![bytes@[j - 1]]);
            assert(cstr_at(bytes@, j - 1, end as int) == seq![bytes@[j - 1]] + cstr_at(
                bytes@,
                j as int,
                end as int,
            ));
            assert(acc0 + (seq![bytes@[j - 1]] + cstr_at(bytes@, j as int, end as int)) =~= (acc0
                + seq![bytes@[j - 1]]) + cstr_at(bytes@, j as int, end as int));
        }
    }
    proof {
        assert(!has_cstr(bytes@, off as int, end as int));
    }
    Err(EngineError::MalformedImage)
}

/// Relative address of the export directory; zero when the image exports
/// nothing.
pub open spec fn spec_export_dir(b: Seq<u8>) -> int {
    spec_dir_rva(b, 0)
}

/// Number of named exports.
pub open spec fn spec_export_count(b: Seq<u8>) -> int {
    if spec_export_dir(b) == 0 {
        0
    } else {
        le32(b, spec_export_dir(b) + 24)
    }
}

/// Number of entries of the export address table.
pub open spec fn spec_export_nfuncs(b: Seq<u8>) -> int {
    le32(b, spec_export_dir(b) + 20)
}

/// Relative address of the export address table.
pub open spec fn spec_export_funcs(b: Seq<u8>) -> int {
    le32(b, spec_export_dir(b) + 28)
}

/// Relative address of the export name pointer table.
pub open spec fn spec_export_names(b: Seq<u8>) -> int {
    le32(b, spec_export_dir(b) + 32)
}

/// Relative address of the export ordinal table.
pub open spec fn spec_export_ords(b: Seq<u8>) -> int {
    le32(b, spec_export_dir(b) + 36)
}

/// Relative address of export `i`'s name string.
pub open spec fn spec_export_name_rva(b: Seq<u8>, i: int) -> int {
    le32(b, spec_export_names(b) + 4 * i)
}

/// Ordinal of export `i`: its index into the export address table.
pub open spec fn spec_export_ord(b: Seq<u8>, i: int) -> int {
    le16(b, spec_export_ords(b) + 2 * i)
}

/// Relative address of export `i`'s code or data.
pub open spec fn spec_export_rva(b: Seq<u8>, i: int) -> int {
    le32(b, spec_export_funcs(b) + 4 * spec_export_ord(b, i))
}

/// Name bytes of export `i`.
pub open spec fn spec_export_name(b: Seq<u8>, i: int) -> Seq<u8> {
    cstr_at(b, spec_export_name_rva(b, i), spec_image_size(b))
}

/// Export `i`'s name is terminated inside the image, its ordinal indexes the
/// address table, and its address lies inside the mapped image.
pub open spec fn export_entry_wf(b: Seq<u8>, i: int) -> bool {
    &&& has_cstr(b, spec_export_name_rva(b, i), spec_image_size(b))
    &&& spec_export_ord(b, i) < spec_export_nfuncs(b)
    &&& spec_export_rva(b, i) < spec_image_size(b)
}

/// The export directory, its three tables and every entry lie inside the
/// mapped image.
pub open spec fn exports_wf(b: Seq<u8>) -> bool {
    spec_export_dir(b) == 0 || ({
        &&& spec_export_dir(b) + 40 <= spec_image_size(b)
        &&& spec_export_names(b) + 4 * spec_export_count(b) <= spec_image_size(b)
        &&& spec_export_ords(b) + 2 * spec_export_count(b) <= spec_image_size(b)
        &&& spec_export_funcs(b) + 4 * spec_export_nfuncs(b) <= spec_image_size(b)
        &&& forall|i: int| 0 <= i < spec_export_count(b) ==> export_entry_wf(b, i)
    })
}

/// Reads the named exports.  Fails with `MalformedImage` exactly when the
/// export directory or one of its entries falls outside the image.
pub fn parse_exports(bytes: &Vec<u8>, h: &HeaderInfo) -> (r: Result<Vec<ExportEntry>, EngineError>)
    requires
        headers_wf(bytes@),
        spec_image_size(bytes@) <= bytes@.len(),
        header_info_matches(bytes@, *h),
    ensures
        r is Ok <==> exports_wf(bytes@),
        r is Err ==> r == Err::<Vec<ExportEntry>, EngineError>(EngineError::MalformedImage),
        r is Ok ==> ({
            let es = r.unwrap()@;
            &&& es.len() == spec_export_count(bytes@)
            &&& forall|i: int|
                0 <= i < es.len() ==> es[i].name@ == spec_export_name(bytes@, i) && es[i].rva
                    == spec_export_rva(bytes@, i) && es[i].rva < spec_image_size(bytes@)
        }),
{
    let _blen: usize = bytes.len();
    let pe: usize = h.pe_off as usize;
    let dir = read_u32(bytes, pe + 136);
    let mut exports: Vec<ExportEntry> = Vec::new();
    if dir == 0 {
        return Ok(exports);
    }
    if dir + 40 > h.image_size {
        return Err(EngineError::MalformedImage);
    }
    let d: usize = dir as usize;
    let count = read_u32(bytes, d + 24);
    let nfuncs = read_u32(bytes, d + 20);
    let funcs = read_u32(bytes, d + 28);
    let names = read_u32(bytes, d + 32);
    let ords = read_u32(bytes, d + 36);
    if names + 4 * count > h.image_size {
        return Err(EngineError::MalformedImage);
    }
    if ords + 2 * count > h.image_size {
        return Err(EngineError::MalformedImage);
    }
    if funcs + 4 * nfuncs > h.image_size {
        return Err(EngineError::MalformedImage);
    }
    let n: usize = count as usize;
    let mut i: usize = 0;
    while i < n
        invariant
            headers_wf(bytes@),
            spec_image_size(bytes@) <= bytes@.len(),
            header_info_matches(bytes@, *h),
            spec_export_dir(bytes@) == dir,
            dir != 0,
            n == spec_export_count(bytes@),
            count == n,
            nfuncs == spec_export_nfuncs(bytes@),
            funcs == spec_export_funcs(bytes@),
            names == spec_export_names(bytes@),
            ords == spec_export_ords(bytes@),
            names + 4 * count <= h.image_size,
            ords + 2 * count <= h.image_size,
            funcs + 4 * nfuncs <= h.image_size,
            i <= n,
            exports@.len() == i,
            forall|k: int| 0 <= k < i ==> export_entry_wf(bytes@, k),
            forall|k: int|
                0 <= k < i ==> exports@[k].name@ == spec_export_name(bytes@, k) && exports@[k].rva
                    == spec_export_rva(bytes@, k) && exports@[k].rva < spec_image_size(bytes@),
        decreases n - i,
    {
        let _blen2: usize = bytes.len();
        let name_rva = read_u32(bytes, (names as usize) + 4 * i);
        let name = match read_cstr(bytes, name_rva, h.image_size) {
            Ok(v) => v,
            Err(e) => {
                proof {
                    assert(!export_entry_wf(bytes@, i as int));
                    assert(!exports_wf(bytes@));
                }
                return Err(EngineError::MalformedImage);
            },
        };
        let ord = read_u16(bytes, (ords as usize) + 2 * i);
        if ord >= nfuncs {
            proof {
                assert(!export_entry_wf(bytes@, i as int));
                assert(!exports_wf(bytes@));
            }
            return Err(EngineError::MalformedImage);
        }
        let rva = read_u32(bytes, (funcs as usize) + 4 * (ord as usize));
        if rva >= h.image_size {
            proof {
                assert(!export_entry_wf(bytes@, i as int));
                assert(!exports_wf(bytes@));
            }
            return Err(EngineError::MalformedImage);
        }
        exports.push(ExportEntry { name, rva });
        i += 1;
    }
    Ok(exports)
}

/// Relative address of the base-relocation directory.
pub open spec fn spec_reloc_dir(b: Seq<u8>) -> int {
    spec_dir_rva(b, 5)
}

/// Declared size of the base-relocation directory.
pub open spec fn spec_reloc_dir_size(b: Seq<u8>) -> int {
    spec_dir_size(b, 5)
}

/// Whether the image carries base relocations at all.
pub open spec fn spec_reloc_present(b: Seq<u8>) -> bool {
    spec_reloc_dir(b) != 0 && spec_reloc_dir_size(b) != 0
}

/// Page address of the relocation block at `off`.
pub open spec fn spec_block_page(b: Seq<u8>, off: int) -> int {
    le32(b, off)
}

/// Declared size of the relocation block at `off`, header included.
pub open spec fn spec_block_size(b: Seq<u8>, off: int) -> int {
    le32(b, off + 4)
}

/// Number of two-byte entries of the block at `off`.
pub open spec fn spec_block_nentries(b: Seq<u8>, off: int) -> int {
    (spec_block_size(b, off) - 8) / 2
}

/// Raw value of entry `k` of the block at `block`: type in the top four bits,
/// page offset in the low twelve.
pub open spec fn spec_entry_val(b: Seq<u8>, block: int, k: int) -> int {
    le16(b, block + 8 + 2 * k)
}

/// Type of entry `k` of the block at `block`.
pub open spec fn spec_entry_type(b: Seq<u8>, block: int, k: int) -> int {
    spec_entry_val(b, block, k) / 0x1000
}

/// Target address, relative to the load base, of entry `k` of the block at
/// `block`.
pub open spec fn spec_entry_target(b: Seq<u8>, block: int, k: int) -> int {
    spec_block_page(b, block) + spec_entry_val(b, block, k) % 0x1000
}

/// Every entry of the block at `block` is either padding or the 64-bit kind.
pub open spec fn block_entries_wf(b: Seq<u8>, block: int) -> bool {
    forall|k: int|
        0 <= k < spec_block_nentries(b, block) ==> (spec_entry_type(b, block, k) == RELOC_ABSOLUTE
            || spec_entry_type(b, block, k) == RELOC_DIR64)
}

/// The targets of the first `k` entries of the block at `block` that are of
/// the 64-bit kind, in order.
pub open spec fn block_relocs(b: Seq<u8>, block: int, k: int) -> Seq<int>
    decreases k,
{
    if k <= 0 {
        Seq::empty()
    } else {
        block_relocs(b, block, k - 1) + (if spec_entry_type(b, block, k - 1) == RELOC_DIR64 {
            seq![spec_entry_target(b, block, k - 1)]
        } else {
            Seq::empty()
        })
    }
}

/// The relocation blocks tile `[off, end)` exactly, each well-sized and with
/// recognised entry types only.
pub open spec fn reloc_region_wf(b: Seq<u8>, off: int, end: int) -> bool
    decreases end - off,
{
    if off >= end {
        off == end
    } else if off + 8 > end {
        false
    } else {
        let bs = spec_block_size(b, off);
        if bs < 8 || bs % 2 != 0 || off + bs > end {
            false
        } else {
            block_entries_wf(b, off) && reloc_region_wf(b, off + bs, end)
        }
    }
}

/// The relocation targets listed in `[off, end)`, in order.
pub open spec fn reloc_region_list(b: Seq<u8>, off: int, end: int) -> Seq<int>
    decreases end - off,
{
    if off + 8 <= end {
        let bs = spec_block_size(b, off);
        if bs >= 8 && off + bs <= end {
            block_relocs(b, off, spec_block_nentries(b, off)) + reloc_region_list(b, off + bs, end)
        } else {
            Seq::empty()
        }
    } else {
        Seq::empty()
    }
}

/// The relocation directory lies inside the mapped image and its blocks are
/// well-formed.
pub open spec fn relocs_wf(b: Seq<u8>) -> bool {
    !spec_reloc_present(b) || ({
        &&& spec_reloc_dir(b) + spec_reloc_dir_size(b) <= spec_image_size(b)
        &&& reloc_region_wf(b, spec_reloc_dir(b), spec_reloc_dir(b) + spec_reloc_dir_size(b))
    })
}

/// All relocation targets of the image, relative to the load base, in order.
pub open spec fn spec_relocs(b: Seq<u8>) -> Seq<int> {
    if !spec_reloc_present(b) {
        Seq::empty()
    } else {
        reloc_region_list(b, spec_reloc_dir(b), spec_reloc_dir(b) + spec_reloc_dir_size(b))
    }
}

/// Reads the base-relocation entries of the 64-bit kind.  Fails with
/// `MalformedImage` exactly when the directory falls outside the image, a
/// block is ill-sized, or an entry has an unrecognised type.
pub fn parse_relocs(bytes: &Vec<u8>, h: &HeaderInfo) -> (r: Result<Vec<RelocEntry>, EngineError>)
    requires
        headers_wf(bytes@),
        spec_image_size(bytes@) <= bytes@.len(),
        header_info_matches(bytes@, *h),
    ensures
        r is Ok <==> relocs_wf(bytes@),
        r is Err ==> r == Err::<Vec<RelocEntry>, EngineError>(EngineError::MalformedImage),
        r is Ok ==> ({
            let rs = r.unwrap()@;
            &&& rs.len() == spec_relocs(bytes@).len()
            &&& forall|i: int| 0 <= i < rs.len() ==> rs[i].rva == spec_relocs(bytes@)[i]
        }),
{
    let _blen: usize = bytes.len();
    let pe: usize = h.pe_off as usize;
    let dir = read_u32(bytes, pe + 176);
    let dsz = read_u32(bytes, pe + 180);
    let mut relocs: Vec<RelocEntry> = Vec::new();
    if dir == 0 || dsz == 0 {
        return Ok(relocs);
    }
    if dir + dsz > h.image_size {
        return Err(EngineError::MalformedImage);
    }
    let end: u64 = dir + dsz;
    let mut off: u64 = dir;
    while off < end
        invariant
            headers_wf(bytes@),
            spec_image_size(bytes@) <= bytes@.len(),
            header_info_matches(bytes@, *h),
            spec_reloc_dir(bytes@) == dir,
            spec_reloc_dir_size(bytes@) == dsz,
            spec_reloc_present(bytes@),
            end == dir + dsz,
            end <= h.image_size,
            dir <= off <= end,
            reloc_region_wf(bytes@, dir as int, end as int) == reloc_region_wf(
                bytes@,
                off as int,
                end as int,
            ),
            reloc_region_list(bytes@, dir as int, end as int) =~= relocs@.map_values(
                |e: RelocEntry| e.rva as int,
            ) + reloc_region_list(bytes@, off as int, end as int),
        decreases end - off,
    {
        let _blen2: usize = bytes.len();
        if off + 8 > end {
            proof {
                assert(!reloc_region_wf(bytes@, off as int, end as int));
                assert(!relocs_wf(bytes@));
            }
            return Err(EngineError::MalformedImage);
        }
        let page = read_u32(bytes, off as usize);
        let bs = read_u32(bytes, (off as usize) + 4);
        if bs < 8 || bs % 2 != 0 || off + bs > end {
            proof {
                assert(!reloc_region_wf(bytes@, off as int, end as int));
                assert(!relocs_wf(bytes@));
            }
            return Err(EngineError::MalformedImage);
        }
        let n: u64 = (bs - 8) / 2;
        let ghost prevm = relocs@.map_values(|e: RelocEntry| e.rva as int);
        let mut k: u64 = 0;
        while k < n
            invariant
                headers_wf(bytes@),
                spec_image_size(bytes@) <= bytes@.len(),
                header_info_matches(bytes@, *h),
                spec_reloc_dir(bytes@) == dir,
                spec_reloc_dir_size(bytes@) == dsz,
                spec_reloc_present(bytes@),
                end == dir + dsz,
                reloc_region_wf(bytes@, dir as int, end as int) == reloc_region_wf(
                    bytes@,
                    off as int,
                    end as int,
                ),
                dir <= off,
                off + 8 <= end <= h.image_size,
                spec_block_size(bytes@, off as int) == bs,
                8 <= bs,
                off + bs <= end,
                n == spec_block_nentries(bytes@, off as int),
                k <= n,
                spec_block_page(bytes@, off as int) == page,
                forall|kk: int|
                    0 <= kk < k ==> (spec_entry_type(bytes@, off as int, kk) == RELOC_ABSOLUTE
                        || spec_entry_type(bytes@, off as int, kk) == RELOC_DIR64),
                relocs@.map_values(|e: RelocEntry| e.rva as int) =~= prevm + block_relocs(
                    bytes@,
                    off as int,
                    k as int,
                ),
            decreases n - k,
        {
            let _blen3: usize = bytes.len();
            let ent = read_u16(bytes, (off as usize) + 8 + 2 * (k as usize));
            let typ = ent / 0x1000;
            let ghost oldm = relocs@.map_values(|e: RelocEntry| e.rva as int);
            if typ == RELOC_DIR64 {
                relocs.push(RelocEntry { rva: page + ent % 0x1000 });
                proof {
                    assert(spec_entry_type(bytes@, off as int, k as int) == typ);
                    assert(relocs@.last().rva == spec_entry_target(bytes@, off as int, k as int));
                    assert(relocs@.map_values(|e: RelocEntry| e.rva as int) =~= oldm + seq![
                        spec_entry_target(bytes@, off as int, k as int),
                    ]);
                }
            } else if typ != RELOC_ABSOLUTE {
                proof {
                    assert(spec_entry_type(bytes@, off as int, k as int) == typ);
                    assert(!block_entries_wf(bytes@, off as int));
                    assert(!reloc_region_wf(bytes@, off as int, end as int));
                    assert(!relocs_wf(bytes@));
                }
                return Err(EngineError::MalformedImage);
            } else {
                proof {
                    assert(spec_entry_type(bytes@, off as int, k as int) == typ);
                }
            }
            k += 1;
            proof {
                assert(block_relocs(bytes@, off as int, k as int) == block_relocs(
                    bytes@,
                    off as int,
                    k - 1,
                ) + (if spec_entry_type(bytes@, off as int, k - 1) == RELOC_DIR64 {
                    seq![spec_entry_target(bytes@, off as int, k - 1)]
                } else {
                    Seq::empty()
                }));
                assert(relocs@.map_values(|e: RelocEntry| e.rva as int) =~= prevm + block_relocs(
                    bytes@,
                    off as int,
                    k as int,
                ));
            }
        }
        proof {
            assert(block_entries_wf(bytes@, off as int));
            assert(reloc_region_wf(bytes@, off as int, end as int) == reloc_region_wf(
                bytes@,
                off + bs,
                end as int,
            ));
            assert(reloc_region_list(bytes@, off as int, end as int) == block_relocs(
                bytes@,
                off as int,
                spec_block_nentries(bytes@, off as int),
            ) + reloc_region_list(bytes@, off + bs, end as int));
            assert(reloc_region_list(bytes@, dir as int, end as int) =~= relocs@.map_values(
                |e: RelocEntry| e.rva as int,
            ) + reloc_region_list(bytes@, off + bs, end as int));
        }
        off = off + bs;
    }
    proof {
        assert(reloc_region_wf(bytes@, off as int, end as int));
        assert(reloc_region_list(bytes@, off as int, end as int) =~= Seq::<int>::empty());
        assert(relocs@.map_values(|e: RelocEntry| e.rva as int) =~= reloc_region_list(
            bytes@,
            dir as int,
            end as int,
        ));
    }
    Ok(relocs)
}

/// Relative address of the import directory.
pub open spec fn spec_import_dir(b: Seq<u8>) -> int {
    spec_dir_rva(b, 1)
}

/// Whether the image carries an import table at all.
pub open spec fn spec_import_present(b: Seq<u8>) -> bool {
    spec_import_dir(b) != 0 && spec_dir_size(b, 1) != 0
}

/// Lookup-table field of the import descriptor at `off`.
pub open spec fn spec_desc_oft(b: Seq<u8>, off: int) -> int {
    le32(b, off)
}

/// Name field of the import descriptor at `off`.
pub open spec fn spec_desc_name(b: Seq<u8>, off: int) -> int {
    le32(b, off + 12)
}

/// Address-table field of the import descriptor at `off`.
pub open spec fn spec_desc_ft(b: Seq<u8>, off: int) -> int {
    le32(b, off + 16)
}

/// Whether the descriptor at `off` is the all-zero terminator.
pub open spec fn spec_desc_is_end(b: Seq<u8>, off: int) -> bool {
    spec_desc_oft(b, off) == 0 && spec_desc_name(b, off) == 0 && spec_desc_ft(b, off) == 0
}

/// Where the descriptor's symbol names are read from: the lookup table when
/// one is given, the address table otherwise.
pub open spec fn spec_desc_lookup(b: Seq<u8>, off: int) -> int {
    if spec_desc_oft(b, off) != 0 {
        spec_desc_oft(b, off)
    } else {
        spec_desc_ft(b, off)
    }
}

/// Thunk `k` of the lookup table at `lu`.
pub open spec fn spec_thunk(b: Seq<u8>, lu: int, k: int) -> int {
    le64(b, lu + 8 * k)
}

/// From thunk `k` on, the lookup table at `lu` stays inside the image until a
/// zero terminator; every thunk names its symbol by a string terminated
/// inside the image, and its address-table slot at `ft` lies inside the
/// image.
pub open spec fn thunk_region_wf(b: Seq<u8>, lu: int, ft: int, k: int) -> bool
    decreases spec_image_size(b) - (lu + 8 * k),
{
    if lu + 8 * k < 0 || lu + 8 * k + 8 > spec_image_size(b) {
        false
    } else if spec_thunk(b, lu, k) == 0 {
        true
    } else {
        let t = spec_thunk(b, lu, k);
        &&& t < 0x8000_0000_0000_0000
        &&& t + 2 < spec_image_size(b)
        &&& has_cstr(b, t + 2, spec_image_size(b))
        &&& ft + 8 * k + 8 <= spec_image_size(b)
        &&& thunk_region_wf(b, lu, ft, k + 1)
    }
}

/// The imports named from thunk `k` on: each symbol name paired with the
/// address-table slot, relative to the load base, that receives the resolved
/// address.
pub open spec fn thunk_region_list(b: Seq<u8>, lu: int, ft: int, k: int) -> Seq<(Seq<u8>, int)>
    decreases spec_image_size(b) - (lu + 8 * k),
{
    if lu + 8 * k < 0 || lu + 8 * k + 8 > spec_image_size(b) {
        Seq::empty()
    } else if spec_thunk(b, lu, k) == 0 {
        Seq::empty()
    } else {
        let t = spec_thunk(b, lu, k);
        if t < 0x8000_0000_0000_0000 {
            seq![(cstr_at(b, t + 2, spec_image_size(b)), ft + 8 * k)] + thunk_region_list(
                b,
                lu,
                ft,
                k + 1,
            )
        } else {
            Seq::empty()
        }
    }
}

/// The descriptor table starting at `off` stays inside the image until its
/// all-zero terminator, and every descriptor's thunks are well-formed.
pub open spec fn import_descs_wf(b: Seq<u8>, off: int) -> bool
    decreases spec_image_size(b) - off,
{
    if off < 0 || off + 20 > spec_image_size(b) {
        false
    } else if spec_desc_is_end(b, off) {
        true
    } else {
        thunk_region_wf(b, spec_desc_lookup(b, off), spec_desc_ft(b, off), 0) && import_descs_wf(
            b,
            off + 20,
        )
    }
}

/// The imports of all descriptors from `off` on, in order.
pub open spec fn import_descs_list(b: Seq<u8>, off: int) -> Seq<(Seq<u8>, int)>
    decreases spec_image_size(b) - off,
{
    if off < 0 || off + 20 > spec_image_size(b) {
        Seq::empty()
    } else if spec_desc_is_end(b, off) {
        Seq::empty()
    } else {
        thunk_region_list(b, spec_desc_lookup(b, off), spec_desc_ft(b, off), 0)
            + import_descs_list(b, off + 20)
    }
}

/// The import directory, its descriptors and their thunks are well-formed.
pub open spec fn imports_wf(b: Seq<u8>) -> bool {
    !spec_import_present(b) || import_descs_wf(b, spec_import_dir(b))
}

/// All imports of the image: symbol names paired with address-table slots.
pub open spec fn spec_imports(b: Seq<u8>) -> Seq<(Seq<u8>, int)> {
    if !spec_import_present(b) {
        Seq::empty()
    } else {
        import_descs_list(b, spec_import_dir(b))
    }
}

/// Reads the by-name imports.  Fails with `MalformedImage` exactly when a
/// descriptor, a thunk, a symbol string or an address-table slot falls
/// outside the image, a terminator is missing, or an import is by ordinal
/// rather than by name.
#[verifier::rlimit(60)]
pub fn parse_imports(bytes: &Vec<u8>, h: &HeaderInfo) -> (r: Result<Vec<ImportEntry>, EngineError>)
    requires
        headers_wf(bytes@),
        spec_image_size(bytes@) <= bytes@.len(),
        header_info_matches(bytes@, *h),
    ensures
        r is Ok <==> imports_wf(bytes@),
        r is Err ==> r == Err::<Vec<ImportEntry>, EngineError>(EngineError::MalformedImage),
        r is Ok ==> ({
            let es = r.unwrap()@;
            &&& es.len() == spec_imports(bytes@).len()
            &&& forall|i: int|
                0 <= i < es.len() ==> es[i].name@ == spec_imports(bytes@)[i].0 && es[i].iat_rva
                    == spec_imports(bytes@)[i].1 && es[i].iat_rva + 8 <= spec_image_size(bytes@)
        }),
{
    let _blen: usize = bytes.len();
    let pe: usize = h.pe_off as usize;
    let dir = read_u32(bytes, pe + 144);
    let dsz = read_u32(bytes, pe + 148);
    let mut imports: Vec<ImportEntry> = Vec::new();
    if dir == 0 || dsz == 0 {
        return Ok(imports);
    }
    proof {
        assert(spec_image_size(bytes@) < 0x1_0000_0000);
    }
    let mut off: u64 = dir;
    while off + 20 <= h.image_size
        invariant
            headers_wf(bytes@),
            spec_image_size(bytes@) <= bytes@.len(),
            header_info_matches(bytes@, *h),
            h.image_size < 0x1_0000_0000,
            off < 0x1_0000_0000,
            spec_import_dir(bytes@) == dir,
            spec_import_present(bytes@),
            dir <= off,
            import_descs_wf(bytes@, dir as int) == import_descs_wf(bytes@, off as int),
            import_descs_list(bytes@, dir as int) =~= imports@.map_values(
                |e: ImportEntry| (e.name@, e.iat_rva as int),
            ) + import_descs_list(bytes@, off as int),
            forall|i: int|
                0 <= i < imports@.len() ==> imports@[i].iat_rva + 8 <= spec_image_size(bytes@),
        decreases h.image_size - off,
    {
        let _blen2: usize = bytes.len();
        let oft = read_u32(bytes, off as usize);
        let nm = read_u32(bytes, (off as usize) + 12);
        let ft = read_u32(bytes, (off as usize) + 16);
        if oft == 0 && nm == 0 && ft == 0 {
            proof {
                assert(spec_desc_is_end(bytes@, off as int));
                assert(import_descs_wf(bytes@, off as int));
                assert(import_descs_list(bytes@, off as int) =~= Seq::<(Seq<u8>, int)>::empty());
                assert(imports@.map_values(|e: ImportEntry| (e.name@, e.iat_rva as int))
                    =~= spec_imports(bytes@));
            }
            return Ok(imports);
        }
        let lu: u64 = if oft != 0 {
            oft
        } else {
            ft
        };
        let ghost prevm = imports@.map_values(|e: ImportEntry| (e.name@, e.iat_rva as int));
        let ghost mut seen: Seq<(Seq<u8>, int)> = Seq::empty();
        let mut k: u64 = 0;
        let mut done: bool = false;
        while !done && lu + 8 * k + 8 <= h.image_size
            invariant
                headers_wf(bytes@),
                spec_image_size(bytes@) <= bytes@.len(),
                header_info_matches(bytes@, *h),
                h.image_size < 0x1_0000_0000,
                off < 0x1_0000_0000,
                lu < 0x1_0000_0000,
                ft < 0x1_0000_0000,
                spec_import_dir(bytes@) == dir,
                spec_import_present(bytes@),
                dir <= off,
                off + 20 <= h.image_size,
                import_descs_wf(bytes@, dir as int) == import_descs_wf(bytes@, off as int),
                import_descs_list(bytes@, dir as int) =~= prevm + import_descs_list(
                    bytes@,
                    off as int,
                ),
                !spec_desc_is_end(bytes@, off as int),
                spec_desc_lookup(bytes@, off as int) == lu,
                spec_desc_ft(bytes@, off as int) == ft,
                8 * k <= h.image_size,
                thunk_region_wf(bytes@, lu as int, ft as int, 0) == (if done {
                    true
                } else {
                    thunk_region_wf(bytes@, lu as int, ft as int, k as int)
                }),
                thunk_region_list(bytes@, lu as int, ft as int, 0) =~= seen + (if done {
                    Seq::<(Seq<u8>, int)>::empty()
                } else {
                    thunk_region_list(bytes@, lu as int, ft as int, k as int)
                }),
                imports@.map_values(|e: ImportEntry| (e.name@, e.iat_rva as int)) =~= prevm + seen,
                forall|i: int|
                    0 <= i < imports@.len() ==> imports@[i].iat_rva + 8 <= spec_image_size(bytes@),
            decreases (if done {
                0int
            } else {
                h.image_size - lu - 8 * k + 1
            }),
        {
            let _blen3: usize = bytes.len();
            let t = read_u64(bytes, (lu + 8 * k) as usize);
            if t == 0 {
                done = true;
            } else {
                if t >= 0x8000_0000_0000_0000 {
                    proof {
                        assert(!thunk_region_wf(bytes@, lu as int, ft as int, k as int));
                        assert(!import_descs_wf(bytes@, off as int));
                        assert(!imports_wf(bytes@));
                    }
                    return Err(EngineError::MalformedImage);
                }
                if t + 2 >= h.image_size {
                    proof {
                        assert(!thunk_region_wf(bytes@, lu as int, ft as int, k as int));
                        assert(!import_descs_wf(bytes@, off as int));
                        assert(!imports_wf(bytes@));
                    }
                    return Err(EngineError::MalformedImage);
                }
                let name = match read_cstr(bytes, t + 2, h.image_size) {
                    Ok(v) => v,
                    Err(_) => {
                        proof {
                            assert(!thunk_region_wf(bytes@, lu as int, ft as int, k as int));
                            assert(!import_descs_wf(bytes@, off as int));
                            assert(!imports_wf(bytes@));
                        }
                        return Err(EngineError::MalformedImage);
                    },
                };
                if ft + 8 * k + 8 > h.image_size {
                    proof {
                        assert(!thunk_region_wf(bytes@, lu as int, ft as int, k as int));
                        assert(!import_descs_wf(bytes@, off as int));
                        assert(!imports_wf(bytes@));
                    }
                    return Err(EngineError::MalformedImage);
                }
                let ghost oldm = imports@.map_values(|e: ImportEntry| (e.name@, e.iat_rva as int));
                imports.push(ImportEntry { name, iat_rva: ft + 8 * k });
                k += 1;
                proof {
                    assert(imports@.map_values(|e: ImportEntry| (e.name@, e.iat_rva as int))
                        =~= oldm + seq![
                        (
                            cstr_at(bytes@, t + 2, spec_image_size(bytes@)),
                            spec_desc_ft(bytes@, off as int) + 8 * (k - 1),
                        ),
                    ]);
                    assert(thunk_region_list(bytes@, lu as int, ft as int, k - 1) == seq![
                        (
                            cstr_at(bytes@, t + 2, spec_image_size(bytes@)),
                            spec_desc_ft(bytes@, off as int) + 8 * (k - 1),
                        ),
                    ] + thunk_region_list(bytes@, lu as int, ft as int, k as int));
                    seen = seen + seq![
                        (
                            cstr_at(bytes@, t + 2, spec_image_size(bytes@)),
                            spec_desc_ft(bytes@, off as int) + 8 * (k - 1),
                        ),
                    ];
                    assert(thunk_region_list(bytes@, lu as int, ft as int, 0) =~= seen
                        + thunk_region_list(bytes@, lu as int, ft as int, k as int));
                }
            }
        }
        if !done {
            proof {
                assert(!thunk_region_wf(bytes@, lu as int, ft as int, k as int));
                assert(!import_descs_wf(bytes@, off as int));
                assert(!imports_wf(bytes@));
            }
            return Err(EngineError::MalformedImage);
        }
        proof {
            assert(thunk_region_wf(bytes@, lu as int, ft as int, 0));
            assert(import_descs_wf(bytes@, off as int) == import_descs_wf(bytes@, off + 20));
            assert(import_descs_list(bytes@, off as int) == thunk_region_list(
                bytes@,
                lu as int,
                ft as int,
                0,
            ) + import_descs_list(bytes@, off + 20));
            assert(import_descs_list(bytes@, dir as int) =~= (prevm + seen) + import_descs_list(
                bytes@,
                off + 20,
            ));
        }
        off = off + 20;
    }
    proof {
        assert(!import_descs_wf(bytes@, off as int));
        assert(!imports_wf(bytes@));
    }
    Err(EngineError::MalformedImage)
}

/// Every header field, section, export, relocation block and import of the
/// image, held in its loaded form, is valid and lies inside the image bounds.
pub open spec fn image_wf(b: Seq<u8>) -> bool {
    &&& headers_wf(b)
    &&& spec_image_size(b) <= b.len()
    &&& sections_wf(b)
    &&& exports_wf(b)
    &&& relocs_wf(b)
    &&& imports_wf(b)
}

/// Parses an image held in its loaded form: validates the two header
/// signatures and the machine type, and extracts the section table, the
/// exports, the relocation entries and the imports, every offset checked
/// against the image bounds.  Fails with `MalformedImage` exactly when the
/// image is not well-formed.  The returned layout is based at zero until
/// `compute_relocated_addresses` chooses a load base.
pub fn parse(bytes: &Vec<u8>) -> (r: Result<ParsedLayout, EngineError>)
    ensures
        r is Ok <==> image_wf(bytes@),
        r is Err ==> r == Err::<ParsedLayout, EngineError>(EngineError::MalformedImage),
        r is Ok ==> ({
            let l = r.unwrap();
            &&& l.wf()
            &&& l.base == 0
            &&& l.image_size == spec_image_size(bytes@)
            &&& l.entry_rva == spec_entry_rva(bytes@)
            &&& l.preferred_base == spec_preferred_base(bytes@)
            &&& l.sections@.len() == spec_num_sections(bytes@)
            &&& (forall|i: int|
                0 <= i < l.sections@.len() ==> section_matches(bytes@, l.sections@[i], i))
            &&& l.exports@.len() == spec_export_count(bytes@)
            &&& (forall|i: int|
                0 <= i < l.exports@.len() ==> l.exports@[i].name@ == spec_export_name(bytes@, i)
                    && l.exports@[i].rva == spec_export_rva(bytes@, i))
            &&& l.relocs@.len() == spec_relocs(bytes@).len()
            &&& (forall|i: int|
                0 <= i < l.relocs@.len() ==> l.relocs@[i].rva == spec_relocs(bytes@)[i])
            &&& l.imports@.len() == spec_imports(bytes@).len()
            &&& (forall|i: int|
                0 <= i < l.imports@.len() ==> l.imports@[i].name@ == spec_imports(bytes@)[i].0
                    && l.imports@[i].iat_rva == spec_imports(bytes@)[i].1)
        }),
{
    let h = match parse_headers(bytes) {
        Ok(h) => h,
        Err(e) => {
            return Err(e);
        },
    };
    if h.image_size > bytes.len() as u64 {
        return Err(EngineError::MalformedImage);
    }
    let sections = match parse_sections(bytes, &h) {
        Ok(v) => v,
        Err(e) => {
            return Err(e);
        },
    };
    let exports = match parse_exports(bytes, &h) {
        Ok(v) => v,
        Err(e) => {
            return Err(e);
        },
    };
    let relocs = match parse_relocs(bytes, &h) {
        Ok(v) => v,
        Err(e) => {
            return Err(e);
        },
    };
    let imports = match parse_imports(bytes, &h) {
        Ok(v) => v,
        Err(e) => {
            return Err(e);
        },
    };
    proof {
        assert forall|i: int| 0 <= i < exports@.len() implies exports@[i].rva < spec_image_size(
            bytes@,
        ) by {
            assert(exports@[i].rva == spec_export_rva(bytes@, i));
        }
    }
    Ok(
        ParsedLayout {
            base: 0,
            image_size: h.image_size,
            entry_rva: h.entry_rva,
            preferred_base: h.preferred_base,
            sections,
            exports,
            relocs,
            imports,
        },
    )
}

/// The absolute addresses of an image's landmarks once a load base is chosen.
pub struct LoadMap {
    pub entry: u64,
    pub section_addresses: Vec<u64>,
    pub export_addresses: Vec<u64>,
}

impl ParsedLayout {
    /// Adds the chosen load base to every relative address, producing the
    /// absolute addresses of the sections, the exports and the entry point,
    /// and records the base in the layout for later resolutions.
    pub fn compute_relocated_addresses(&mut self, base: u64) -> (m: LoadMap)
        requires
            old(self).wf(),
            base + old(self).image_size <= u64::MAX,
        ensures
            final(self).base == base,
            final(self).image_size == old(self).image_size,
            final(self).entry_rva == old(self).entry_rva,
            final(self).preferred_base == old(self).preferred_base,
            final(self).sections@ == old(self).sections@,
            final(self).exports@ == old(self).exports@,
            final(self).relocs@ == old(self).relocs@,
            final(self).imports@ == old(self).imports@,
            final(self).wf(),
            m.entry == base + old(self).entry_rva,
            m.section_addresses@.len() == old(self).sections@.len(),
            forall|i: int|
                0 <= i < old(self).sections@.len() ==> m.section_addresses@[i] == base + old(
                    self,
                ).sections@[i].virtual_address,
            m.export_addresses@.len() == old(self).exports@.len(),
            forall|i: int|
                0 <= i < old(self).exports@.len() ==> m.export_addresses@[i] == base + old(
                    self,
                ).exports@[i].rva,
    {
        let entry = base + self.entry_rva;
        let mut section_addresses: Vec<u64> = Vec::new();
        let ns: usize = self.sections.len();
        let mut i: usize = 0;
        while i < ns
            invariant
                *self == *old(self),
                old(self).wf(),
                base + old(self).image_size <= u64::MAX,
                ns == self.sections@.len(),
                i <= ns,
                section_addresses@.len() == i,
                forall|k: int|
                    0 <= k < i ==> section_addresses@[k] == base
                        + self.sections@[k].virtual_address,
            decreases ns - i,
        {
            section_addresses.push(base + self.sections[i].virtual_address);
            i += 1;
        }
        let mut export_addresses: Vec<u64> = Vec::new();
        let ne: usize = self.exports.len();
        let mut j: usize = 0;
        while j < ne
            invariant
                *self == *old(self),
                old(self).wf(),
                base + old(self).image_size <= u64::MAX,
                ne == self.exports@.len(),
                j <= ne,
                export_addresses@.len() == j,
                forall|k: int|
                    0 <= k < j ==> export_addresses@[k] == base + self.exports@[k].rva,
            decreases ne - j,
        {
            export_addresses.push(base + self.exports[j].rva);
            j += 1;
        }
        self.base = base;
        LoadMap { entry, section_addresses, export_addresses }
    }
}

} // verus!
