//! The manual mapper: copies a raw payload image into an allocated region in
//! its mapped form, shifts every relocation target by the load delta,
//! resolves the payload's imports against the privileged image's exports, and
//! computes per-section memory protections and the entry point.  The mapped
//! module is never registered with the platform's own module bookkeeping.

use vstd::prelude::*;

use crate::EngineError;
use crate::buf::{copy_range, le64, le64_bytes, read_u64, splice, u64_to_le_bytes, write_bytes};
use crate::pe::{
    ExportEntry, ImportEntry, ParsedLayout, RelocEntry, has_export, headers_wf, image_wf, parse,
    parse_headers, parse_sections, sections_wf, spec_entry_rva, spec_headers_size,
    spec_image_size, spec_imports, spec_num_sections, spec_preferred_base, spec_relocs,
    spec_section_chars, spec_section_raw_off, spec_section_raw_size, spec_section_va,
};

verus! {

/// Section characteristics flag: the section holds executable code.
pub const SECTION_EXECUTE: u64 = 0x2000_0000;

/// Section characteristics flag: the section is readable.
pub const SECTION_READ: u64 = 0x4000_0000;

/// Section characteristics flag: the section is writable.
pub const SECTION_WRITE: u64 = 0x8000_0000;

/// Protection bit granted to readable sections.
pub const PROT_READ: u64 = 1;

/// Protection bit granted to writable sections.
pub const PROT_WRITE: u64 = 2;

/// Protection bit granted to executable sections.
pub const PROT_EXECUTE: u64 = 4;

/// The protection mask a section's characteristics call for.
pub open spec fn spec_protection(chars: u64) -> u64 {
    ((if chars & SECTION_READ != 0 {
        PROT_READ
    } else {
        0
    }) + (if chars & SECTION_WRITE != 0 {
        PROT_WRITE
    } else {
        0
    }) + (if chars & SECTION_EXECUTE != 0 {
        PROT_EXECUTE
    } else {
        0
    })) as u64
}

/// Computes the protection mask a section's characteristics call for.
pub fn protection_of(chars: u64) -> (r: u64)
    ensures
        r == spec_protection(chars),
{
    let mut r: u64 = 0;
    if chars & SECTION_READ != 0 {
        r = r + PROT_READ;
    }
    if chars & SECTION_WRITE != 0 {
        r = r + PROT_WRITE;
    }
    if chars & SECTION_EXECUTE != 0 {
        r = r + PROT_EXECUTE;
    }
    r
}

/// A raw (stored-form) image whose headers are valid and whose sections can
/// be copied: every stored range lies inside the raw bytes and every mapped
/// range inside the mapped image size.
pub open spec fn raw_wf(b: Seq<u8>) -> bool {
    &&& headers_wf(b)
    &&& sections_wf(b)
    &&& spec_headers_size(b) <= b.len()
    &&& forall|i: int|
        0 <= i < spec_num_sections(b) ==> spec_section_raw_off(b, i) + spec_section_raw_size(b, i)
            <= b.len() && spec_section_va(b, i) + spec_section_raw_size(b, i) <= spec_image_size(b)
}

/// A sequence of `n` zero bytes.
pub open spec fn zero_seq(n: int) -> Seq<u8> {
    Seq::new(n as nat, |j: int| 0u8)
}

/// The mapped image after the headers and the first `i` sections of the raw
/// image are copied to their mapped offsets over a zeroed region.
pub open spec fn spec_mapped_upto(b: Seq<u8>, i: int) -> Seq<u8>
    decreases i,
{
    if i <= 0 {
        splice(zero_seq(spec_image_size(b)), 0, b.subrange(0, spec_headers_size(b)))
    } else {
        splice(
            spec_mapped_upto(b, i - 1),
            spec_section_va(b, i - 1),
            b.subrange(
                spec_section_raw_off(b, i - 1),
                spec_section_raw_off(b, i - 1) + spec_section_raw_size(b, i - 1),
            ),
        )
    }
}

/// The mapped form of the raw image `b`.
pub open spec fn spec_mapped(b: Seq<u8>) -> Seq<u8> {
    spec_mapped_upto(b, spec_num_sections(b))
}

/// Copies a raw image into its mapped form: a zeroed region of the mapped
/// image size, with the header region and then each section copied to its
/// mapped offset.  Fails with `MalformedImage` exactly when the headers are
/// invalid or a section falls outside the raw bytes or the mapped size.
pub fn map_sections(raw: &Vec<u8>) -> (r: Result<Vec<u8>, EngineError>)
    ensures
        r is Ok <==> raw_wf(raw@),
        r is Err ==> r == Err::<Vec<u8>, EngineError>(EngineError::MalformedImage),
        r is Ok ==> r.unwrap()@ == spec_mapped(raw@) && r.unwrap()@.len() == spec_image_size(raw@),
{
    let _rlen: usize = raw.len();
    let h = match parse_headers(raw) {
        Ok(h) => h,
        Err(e) => {
            return Err(e);
        },
    };
    if h.headers_size > raw.len() as u64 {
        return Err(EngineError::MalformedImage);
    }
    let sections = match parse_sections(raw, &h) {
        Ok(v) => v,
        Err(e) => {
            return Err(e);
        },
    };
    proof {
        assert(spec_image_size(raw@) < 0x1_0000_0000);
    }
    let size: usize = h.image_size as usize;
    let mut mapped: Vec<u8> = Vec::new();
    let mut z: usize = 0;
    while z < size
        invariant
            z <= size,
            mapped@ =~= zero_seq(z as int),
        decreases size - z,
    {
        mapped.push(0);
        z += 1;
        proof {
            assert(mapped@ =~= zero_seq(z as int));
        }
    }
    let head = copy_range(raw, 0, h.headers_size as usize);
    write_bytes(&mut mapped, 0, &head);
    proof {
        assert(mapped@ == spec_mapped_upto(raw@, 0));
    }
    let ns: usize = sections.len();
    let mut i: usize = 0;
    while i < ns
        invariant
            raw_wf(raw@) == (forall|k: int|
                i <= k < spec_num_sections(raw@) ==> spec_section_raw_off(raw@, k)
                    + spec_section_raw_size(raw@, k) <= raw@.len() && spec_section_va(raw@, k)
                    + spec_section_raw_size(raw@, k) <= spec_image_size(raw@)),
            headers_wf(raw@),
            sections_wf(raw@),
            spec_headers_size(raw@) <= raw@.len(),
            crate::pe::header_info_matches(raw@, h),
            ns == spec_num_sections(raw@),
            ns == sections@.len(),
            forall|k: int|
                0 <= k < ns ==> crate::pe::section_matches(raw@, sections@[k], k),
            i <= ns,
            mapped@ == spec_mapped_upto(raw@, i as int),
            mapped@.len() == spec_image_size(raw@),
        decreases ns - i,
    {
        let _rlen2: usize = raw.len();
        let _mlen: usize = mapped.len();
        let ro = sections[i].raw_offset;
        let rs = sections[i].raw_size;
        let va = sections[i].virtual_address;
        if ro + rs > raw.len() as u64 || va + rs > h.image_size {
            proof {
                assert(!(spec_section_raw_off(raw@, i as int) + spec_section_raw_size(
                    raw@,
                    i as int,
                ) <= raw@.len() && spec_section_va(raw@, i as int) + spec_section_raw_size(
                    raw@,
                    i as int,
                ) <= spec_image_size(raw@)));
                assert(!raw_wf(raw@));
            }
            return Err(EngineError::MalformedImage);
        }
        let seg = copy_range(raw, ro as usize, (ro + rs) as usize);
        write_bytes(&mut mapped, va as usize, &seg);
        i += 1;
        proof {
            assert(mapped@ == spec_mapped_upto(raw@, i as int));
        }
    }
    proof {
        assert(raw_wf(raw@));
    }
    Ok(mapped)
}

/// `(base - preferred) modulo` the address width: the delta added to every
/// relocation target.
pub open spec fn spec_load_delta(base: u64, preferred: u64) -> u64 {
    ((base - preferred) % 0x1_0000_0000_0000_0000) as u64
}

/// Computes the load delta between the allocated base and the base the image
/// was linked for.
pub fn load_delta(base: u64, preferred: u64) -> (r: u64)
    ensures
        r == spec_load_delta(base, preferred),
{
    if base >= preferred {
        base - preferred
    } else {
        proof {
            assert((base - preferred) % 0x1_0000_0000_0000_0000 == base - preferred
                + 0x1_0000_0000_0000_0000);
        }
        u64::MAX - (preferred - base) + 1
    }
}

/// `(a + d) modulo` the address width.
pub open spec fn spec_wrap_add(a: u64, d: u64) -> u64 {
    ((a + d) % 0x1_0000_0000_0000_0000) as u64
}

/// Adds the load delta to a relocated value, wrapping at the address width.
pub fn wrap_add(a: u64, d: u64) -> (r: u64)
    ensures
        r == spec_wrap_add(a, d),
{
    if a <= u64::MAX - d {
        a + d
    } else {
        proof {
            assert((a + d) % 0x1_0000_0000_0000_0000 == a + d - 0x1_0000_0000_0000_0000);
        }
        a - (u64::MAX - d) - 1
    }
}

/// Whether a relocation target of eight bytes at `rva` lies inside an
/// allocated region of `len` bytes.
pub open spec fn spec_reloc_ok(len: int, rva: int) -> bool {
    rva + 8 <= len
}

/// The image after the first `i` relocation targets are shifted by `delta`,
/// in order.
pub open spec fn spec_apply_relocs(m: Seq<u8>, rvas: Seq<int>, delta: u64, i: int) -> Seq<u8>
    decreases i,
{
    if i <= 0 {
        m
    } else {
        let p = spec_apply_relocs(m, rvas, delta, i - 1);
        splice(p, rvas[i - 1], le64_bytes(spec_wrap_add((le64(p, rvas[i - 1])) as u64, delta)))
    }
}

/// Applies the relocation entries against the allocated region: adds `delta`
/// to the 64-bit value at every target, in order.  Fails with
/// `RelocationOutOfRange` exactly when a target falls outside the region;
/// entries before the first such target are applied, none after it, and the
/// failure aborts the mapping: no completed module is produced.
pub fn apply_relocations(image: &mut Vec<u8>, relocs: &Vec<RelocEntry>, delta: u64) -> (r: Result<
    (),
    EngineError,
>)
    ensures
        final(image)@.len() == old(image)@.len(),
        r is Ok <==> (forall|i: int|
            0 <= i < relocs@.len() ==> spec_reloc_ok(
                old(image)@.len() as int,
                relocs@[i].rva as int,
            )),
        r is Err ==> r == Err::<(), EngineError>(EngineError::RelocationOutOfRange),
        r is Ok ==> final(image)@ == spec_apply_relocs(
            old(image)@,
            relocs@.map_values(|e: RelocEntry| e.rva as int),
            delta,
            relocs@.len() as int,
        ),
        r is Err ==> exists|k: int|
            #![auto]
            0 <= k < relocs@.len() && !spec_reloc_ok(old(image)@.len() as int, relocs@[k].rva as int)
                && (forall|j: int|
                0 <= j < k ==> spec_reloc_ok(old(image)@.len() as int, relocs@[j].rva as int))
                && final(image)@ == spec_apply_relocs(
                old(image)@,
                relocs@.map_values(|e: RelocEntry| e.rva as int),
                delta,
                k,
            ),
{
    let len: usize = image.len();
    let len64: u64 = len as u64;
    let n: usize = relocs.len();
    let mut i: usize = 0;
    while i < n
        invariant
            n == relocs@.len(),
            i <= n,
            image@.len() == old(image)@.len(),
            len == old(image)@.len(),
            len64 == len,
            forall|j: int|
                0 <= j < i ==> spec_reloc_ok(old(image)@.len() as int, relocs@[j].rva as int),
            image@ == spec_apply_relocs(
                old(image)@,
                relocs@.map_values(|e: RelocEntry| e.rva as int),
                delta,
                i as int,
            ),
        decreases n - i,
    {
        let rva = relocs[i].rva;
        if rva > len64 || len64 - rva < 8 {
            proof {
                assert(!spec_reloc_ok(old(image)@.len() as int, relocs@[i as int].rva as int));
            }
            return Err(EngineError::RelocationOutOfRange);
        }
        let v = read_u64(image, rva as usize);
        let nv = wrap_add(v, delta);
        let bytes = u64_to_le_bytes(nv);
        write_bytes(image, rva as usize, &bytes);
        i += 1;
        proof {
            let rvas = relocs@.map_values(|e: RelocEntry| e.rva as int);
            assert(spec_apply_relocs(old(image)@, rvas, delta, i as int) == splice(
                spec_apply_relocs(old(image)@, rvas, delta, i - 1),
                rvas[i - 1],
                le64_bytes(
                    spec_wrap_add(
                        (le64(spec_apply_relocs(old(image)@, rvas, delta, i - 1), rvas[i - 1]))
                            as u64,
                        delta,
                    ),
                ),
            ));
        }
    }
    Ok(())
}

/// Entry `i` of `es` is the first whose name is `name`.
pub open spec fn spec_export_match(es: Seq<ExportEntry>, name: Seq<u8>, i: int) -> bool {
    &&& 0 <= i < es.len()
    &&& es[i].name@ == name
    &&& forall|j: int| 0 <= j < i ==> es[j].name@ != name
}

/// Two first matches are the same entry.
pub proof fn lemma_export_match_unique(es: Seq<ExportEntry>, name: Seq<u8>, i: int, j: int)
    requires
        spec_export_match(es, name, i),
        spec_export_match(es, name, j),
    ensures
        i == j,
{
    if i < j {
        assert(es[i].name@ != name);
    } else if j < i {
        assert(es[j].name@ != name);
    }
}

/// The index of the first export named `name`, if any.
pub open spec fn spec_find_export(es: Seq<ExportEntry>, name: Seq<u8>) -> Option<int> {
    if has_export(es, name) {
        Some(choose|i: int| spec_export_match(es, name, i))
    } else {
        None
    }
}

/// Finds the first export named `name`.
fn find_export(es: &Vec<ExportEntry>, name: &Vec<u8>) -> (r: Option<usize>)
    ensures
        match r {
            Some(i) => 0 <= i < es@.len() && spec_find_export(es@, name@) == Some(i as int),
            None => spec_find_export(es@, name@) is None,
        },
{
    let n: usize = es.len();
    let mut i: usize = 0;
    while i < n
        invariant
            n == es@.len(),
            i <= n,
            forall|j: int| 0 <= j < i ==> es@[j].name@ != name@,
        decreases n - i,
    {
        if crate::buf::bytes_eq(&es[i].name, name) {
            proof {
                assert(spec_export_match(es@, name@, i as int));
                assert(has_export(es@, name@));
                let w = choose|k: int| spec_export_match(es@, name@, k);
                lemma_export_match_unique(es@, name@, w, i as int);
            }
            return Some(i);
        }
        i += 1;
    }
    proof {
        assert(!has_export(es@, name@));
    }
    None
}

/// The image after the first `i` imports are resolved: where the name is
/// found among the exports, the export's absolute address is written into the
/// import's address-table slot; where it is not, the slot is untouched.
pub open spec fn spec_apply_imports(
    m: Seq<u8>,
    imps: Seq<(Seq<u8>, int)>,
    base: u64,
    es: Seq<ExportEntry>,
    i: int,
) -> Seq<u8>
    decreases i,
{
    if i <= 0 {
        m
    } else {
        let p = spec_apply_imports(m, imps, base, es, i - 1);
        match spec_find_export(es, imps[i - 1].0) {
            Some(e) => splice(p, imps[i - 1].1, le64_bytes((base + es[e].rva) as u64)),
            None => p,
        }
    }
}

/// The names among the first `i` imports that no export carries, in order.
pub open spec fn spec_unresolved(imps: Seq<(Seq<u8>, int)>, es: Seq<ExportEntry>, i: int) -> Seq<
    Seq<u8>,
>
    decreases i,
{
    if i <= 0 {
        Seq::empty()
    } else {
        spec_unresolved(imps, es, i - 1) + (if spec_find_export(es, imps[i - 1].0) is None {
            seq![imps[i - 1].0]
        } else {
            Seq::empty()
        })
    }
}

/// Whether `name` is among the names deemed required.
pub open spec fn spec_required_contains(req: Seq<Vec<u8>>, name: Seq<u8>) -> bool {
    exists|i: int| 0 <= i < req.len() && req[i]@ == name
}

/// Some import's name is absent from the exports and deemed required.
pub open spec fn spec_import_blocked(
    imps: Seq<(Seq<u8>, int)>,
    es: Seq<ExportEntry>,
    req: Seq<Vec<u8>>,
) -> bool {
    exists|k: int|
        0 <= k < imps.len() && spec_find_export(es, imps[k].0) is None && spec_required_contains(
            req,
            imps[k].0,
        )
}

/// Whether `name` is among the required names.
fn contains_name(req: &Vec<Vec<u8>>, name: &Vec<u8>) -> (r: bool)
    ensures
        r == spec_required_contains(req@, name@),
{
    let n: usize = req.len();
    let mut i: usize = 0;
    while i < n
        invariant
            n == req@.len(),
            i <= n,
            forall|j: int| 0 <= j < i ==> req@[j]@ != name@,
        decreases n - i,
    {
        if crate::buf::bytes_eq(&req[i], name) {
            proof {
                assert(req@[i as int]@ == name@);
            }
            return true;
        }
        i += 1;
    }
    false
}

/// Resolves the payload's imports against the privileged image's exports:
/// writes each found export's absolute address into the import's
/// address-table slot and returns the names that were not found, the soft
/// failures.  Fails with `ImportUnresolved`, before writing anything, exactly
/// when an absent name is deemed required.
pub fn resolve_imports(
    image: &mut Vec<u8>,
    imports: &Vec<ImportEntry>,
    privileged: &ParsedLayout,
    required: &Vec<Vec<u8>>,
) -> (r: Result<Vec<Vec<u8>>, EngineError>)
    requires
        privileged.wf(),
        forall|i: int|
            0 <= i < imports@.len() ==> imports@[i].iat_rva + 8 <= old(image)@.len(),
    ensures
        final(image)@.len() == old(image)@.len(),
        r is Err <==> spec_import_blocked(
            imports@.map_values(|e: ImportEntry| (e.name@, e.iat_rva as int)),
            privileged.exports@,
            required@,
        ),
        r is Err ==> r == Err::<Vec<Vec<u8>>, EngineError>(EngineError::ImportUnresolved)
            && final(image)@ == old(image)@,
        r is Ok ==> ({
            let imps = imports@.map_values(|e: ImportEntry| (e.name@, e.iat_rva as int));
            &&& final(image)@ == spec_apply_imports(
                old(image)@,
                imps,
                privileged.base,
                privileged.exports@,
                imps.len() as int,
            )
            &&& r.unwrap()@.map_values(|v: Vec<u8>| v@) == spec_unresolved(
                imps,
                privileged.exports@,
                imps.len() as int,
            )
        }),
{
    let n: usize = imports.len();
    let ghost imps = imports@.map_values(|e: ImportEntry| (e.name@, e.iat_rva as int));
    let mut i: usize = 0;
    while i < n
        invariant
            n == imports@.len(),
            i <= n,
            imps == imports@.map_values(|e: ImportEntry| (e.name@, e.iat_rva as int)),
            image@ == old(image)@,
            forall|j: int|
                0 <= j < i ==> !(spec_find_export(privileged.exports@, imps[j].0) is None
                    && spec_required_contains(required@, imps[j].0)),
        decreases n - i,
    {
        match find_export(&privileged.exports, &imports[i].name) {
            Some(_) => {},
            None => {
                if contains_name(required, &imports[i].name) {
                    proof {
                        assert(spec_find_export(privileged.exports@, imps[i as int].0) is None
                            && spec_required_contains(required@, imps[i as int].0));
                    }
                    return Err(EngineError::ImportUnresolved);
                }
            },
        }
        i += 1;
    }
    let mut unresolved: Vec<Vec<u8>> = Vec::new();
    let mut k: usize = 0;
    while k < n
        invariant
            n == imports@.len(),
            k <= n,
            privileged.wf(),
            imps == imports@.map_values(|e: ImportEntry| (e.name@, e.iat_rva as int)),
            forall|j: int|
                0 <= j < imports@.len() ==> imports@[j].iat_rva + 8 <= old(image)@.len(),
            image@.len() == old(image)@.len(),
            image@ == spec_apply_imports(
                old(image)@,
                imps,
                privileged.base,
                privileged.exports@,
                k as int,
            ),
            unresolved@.map_values(|v: Vec<u8>| v@) =~= spec_unresolved(
                imps,
                privileged.exports@,
                k as int,
            ),
        decreases n - k,
    {
        let _ilen: usize = image.len();
        let ghost oldu = unresolved@.map_values(|v: Vec<u8>| v@);
        match find_export(&privileged.exports, &imports[k].name) {
            Some(e) => {
                let addr = privileged.base + privileged.exports[e].rva;
                let bytes = u64_to_le_bytes(addr);
                write_bytes(image, imports[k].iat_rva as usize, &bytes);
            },
            None => {
                let nlen: usize = imports[k].name.len();
                unresolved.push(copy_range(&imports[k].name, 0, nlen));
                proof {
                    assert(imports@[k as int].name@.subrange(0, nlen as int) =~= imports@[k as int].name@);
                }
            },
        }
        k += 1;
        proof {
            assert(spec_apply_imports(
                old(image)@,
                imps,
                privileged.base,
                privileged.exports@,
                k as int,
            ) == (match spec_find_export(privileged.exports@, imps[k - 1].0) {
                Some(e) => splice(
                    spec_apply_imports(
                        old(image)@,
                        imps,
                        privileged.base,
                        privileged.exports@,
                        k - 1,
                    ),
                    imps[k - 1].1,
                    le64_bytes((privileged.base + privileged.exports@[e].rva) as u64),
                ),
                None => spec_apply_imports(
                    old(image)@,
                    imps,
                    privileged.base,
                    privileged.exports@,
                    k - 1,
                ),
            }));
            assert(unresolved@.map_values(|v: Vec<u8>| v@) =~= oldu + (if spec_find_export(
                privileged.exports@,
                imps[k - 1].0,
            ) is None {
                seq![imps[k - 1].0]
            } else {
                Seq::empty()
            }));
        }
    }
    Ok(unresolved)
}

/// The final in-memory form of the payload after relocation and import
/// fixups: where it sits, its bytes, its entry point, the soft-failed import
/// names, and the protection mask each section's characteristics call for.
pub struct MappedModule {
    pub base: u64,
    pub entry: u64,
    pub image: Vec<u8>,
    pub unresolved: Vec<Vec<u8>>,
    pub protections: Vec<u64>,
}

/// Every relocation target of the mapped image `b` lies inside it.
pub open spec fn spec_relocs_in_range(b: Seq<u8>) -> bool {
    forall|i: int| 0 <= i < spec_relocs(b).len() ==> spec_relocs(b)[i] + 8 <= b.len()
}

/// Maps a raw payload into a region granted at `alloc_base`: copies the
/// sections to their mapped offsets, applies the relocations against the
/// granted base, resolves the imports against the privileged image's exports,
/// and computes the per-section protections and the entry point.
///
/// Fails with `MalformedImage` when the payload cannot be read or its mapped
/// form cannot be parsed; with `AllocationFailed` when the mapped image would
/// exceed what the allocator can grant; with `RelocationOutOfRange` when a
/// relocation target falls outside the allocated region — the mapping is then
/// abandoned, never completed; and with `ImportUnresolved` when a required
/// import name is absent from the privileged image's exports.
#[verifier::rlimit(100)]
#[verifier::spinoff_prover]
pub fn map_payload(
    raw: &Vec<u8>,
    alloc_base: u64,
    alloc_limit: u64,
    privileged: &ParsedLayout,
    required: &Vec<Vec<u8>>,
) -> (r: Result<MappedModule, EngineError>)
    requires
        privileged.wf(),
        alloc_base + alloc_limit <= u64::MAX,
    ensures
        r == Err::<MappedModule, EngineError>(EngineError::MalformedImage) ==> (!raw_wf(raw@) || (
        raw_wf(raw@) && spec_image_size(raw@) <= alloc_limit && !image_wf(spec_mapped(raw@)))),
        r == Err::<MappedModule, EngineError>(EngineError::AllocationFailed) ==> (raw_wf(raw@)
            && spec_image_size(raw@) > alloc_limit),
        r == Err::<MappedModule, EngineError>(EngineError::RelocationOutOfRange) ==> (raw_wf(raw@)
            && spec_image_size(raw@) <= alloc_limit && image_wf(spec_mapped(raw@))
            && !spec_relocs_in_range(spec_mapped(raw@))),
        r == Err::<MappedModule, EngineError>(EngineError::ImportUnresolved) ==> (raw_wf(raw@)
            && spec_image_size(raw@) <= alloc_limit && image_wf(spec_mapped(raw@))
            && spec_relocs_in_range(spec_mapped(raw@)) && spec_import_blocked(
            spec_imports(spec_mapped(raw@)),
            privileged.exports@,
            required@,
        )),
        r is Ok <==> (raw_wf(raw@) && spec_image_size(raw@) <= alloc_limit && image_wf(
            spec_mapped(raw@),
        ) && spec_relocs_in_range(spec_mapped(raw@)) && !spec_import_blocked(
            spec_imports(spec_mapped(raw@)),
            privileged.exports@,
            required@,
        )),
        r is Ok ==> ({
            let m = r.unwrap();
            let mapped0 = spec_mapped(raw@);
            let rvas = spec_relocs(mapped0);
            let imps = spec_imports(mapped0);
            let delta = spec_load_delta(alloc_base, spec_preferred_base(mapped0) as u64);
            let relocated = spec_apply_relocs(mapped0, rvas, delta, rvas.len() as int);
            &&& m.base == alloc_base
            &&& m.entry == alloc_base + spec_entry_rva(mapped0)
            &&& m.image@ == spec_apply_imports(
                relocated,
                imps,
                privileged.base,
                privileged.exports@,
                imps.len() as int,
            )
            &&& m.image@.len() == spec_image_size(raw@)
            &&& m.unresolved@.map_values(|v: Vec<u8>| v@) == spec_unresolved(
                imps,
                privileged.exports@,
                imps.len() as int,
            )
            &&& m.protections@.len() == spec_num_sections(mapped0)
            &&& (forall|i: int|
                0 <= i < m.protections@.len() ==> m.protections@[i] == spec_protection(
                    spec_section_chars(mapped0, i) as u64,
                ))
        }),
{
    let mut mapped = match map_sections(raw) {
        Ok(v) => v,
        Err(e) => {
            return Err(e);
        },
    };
    if mapped.len() as u64 > alloc_limit {
        return Err(EngineError::AllocationFailed);
    }
    let layout = match parse(&mapped) {
        Ok(l) => l,
        Err(e) => {
            return Err(e);
        },
    };
    let delta = load_delta(alloc_base, layout.preferred_base);
    proof {
        assert(layout.relocs@.map_values(|e: RelocEntry| e.rva as int) =~= spec_relocs(mapped@));
    }
    match apply_relocations(&mut mapped, &layout.relocs, delta) {
        Ok(()) => {
            proof {
                assert forall|i: int|
                    0 <= i < spec_relocs(spec_mapped(raw@)).len() implies spec_relocs(
                    spec_mapped(raw@),
                )[i] + 8 <= spec_mapped(raw@).len() by {
                    assert(spec_relocs(spec_mapped(raw@))[i] == layout.relocs@[i].rva);
                }
                assert(spec_relocs_in_range(spec_mapped(raw@)));
            }
        },
        Err(e) => {
            proof {
                let k = choose|k: int|
                    #![auto]
                    0 <= k < layout.relocs@.len() && !spec_reloc_ok(
                        spec_mapped(raw@).len() as int,
                        layout.relocs@[k].rva as int,
                    );
                assert(spec_relocs(spec_mapped(raw@))[k] == layout.relocs@[k].rva);
                assert(!spec_relocs_in_range(spec_mapped(raw@)));
            }
            return Err(e);
        },
    }
    proof {
        assert(layout.imports@.map_values(|e: ImportEntry| (e.name@, e.iat_rva as int))
            =~= spec_imports(spec_mapped(raw@)));
        assert forall|i: int| 0 <= i < layout.imports@.len() implies layout.imports@[i].iat_rva + 8
            <= mapped@.len() by {
            assert(layout.imports@[i].iat_rva + 8 <= layout.image_size);
        }
    }
    let unresolved = match resolve_imports(&mut mapped, &layout.imports, privileged, required) {
        Ok(u) => u,
        Err(e) => {
            return Err(e);
        },
    };
    let mut protections: Vec<u64> = Vec::new();
    let ns: usize = layout.sections.len();
    let mut i: usize = 0;
    while i < ns
        invariant
            ns == layout.sections@.len(),
            i <= ns,
            protections@.len() == i,
            forall|k: int|
                0 <= k < i ==> protections@[k] == spec_protection(
                    layout.sections@[k].characteristics,
                ),
        decreases ns - i,
    {
        protections.push(protection_of(layout.sections[i].characteristics));
        i += 1;
    }
    let entry = alloc_base + layout.entry_rva;
    Ok(MappedModule { base: alloc_base, entry, image: mapped, unresolved, protections })
}

} // verus!
