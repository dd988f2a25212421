//! Hook installation and removal.
//!
//! A hook redirects execution at a target address to engine-controlled logic
//! by overwriting the bytes there with an unconditional jump.  The bytes that
//! were overwritten are captured in a descriptor, so that the original code
//! can later be restored byte-for-byte and resumed.

use vstd::prelude::*;

use crate::EngineError;
use crate::buf::{copy_range, le64_bytes, splice, write_bytes};

verus! {

/// Length of the patch written at a hook target: a full-size register-indirect
/// jump (`mov rax, imm64; jmp rax`) on a 64-bit instruction set.
pub const PATCH_LEN: usize = 12;

/// The stage of the boot chain a hook belongs to.
#[derive(Clone, Copy, Debug, PartialEq, Eq, Structural)]
pub enum StageTag {
    Stage1,
    Stage2,
    Stage3,
}

/// The patch bytes for a jump to `redirect`.
pub open spec fn jump_bytes(redirect: u64) -> Seq<u8> {
    seq![0x48u8, 0xb8u8] + le64_bytes(redirect) + seq![0xffu8, 0xe0u8]
}

/// Builds the patch bytes for a jump to `redirect`.
pub fn make_jump(redirect: u64) -> (r: Vec<u8>)
    ensures
        r@ == jump_bytes(redirect),
        r@.len() == PATCH_LEN,
{
    let mut r: Vec<u8> = Vec::new();
    r.push(0x48);
    r.push(0xb8);
    let imm = crate::buf::u64_to_le_bytes(redirect);
    let mut i: usize = 0;
    while i < 8
        invariant
            i <= 8,
            imm@ == le64_bytes(redirect),
            r@ == seq![0x48u8, 0xb8u8] + imm@.subrange(0, i as int),
        decreases 8 - i,
    {
        r.push(imm[i]);
        i += 1;
        proof {
            assert(r@ =~= seq![0x48u8, 0xb8u8] + imm@.subrange(0, i as int));
        }
    }
    r.push(0xff);
    r.push(0xe0);
    proof {
        assert(imm@.subrange(0, 8) =~= imm@);
        assert(r@ =~= jump_bytes(redirect));
    }
    r
}

/// A region of loaded memory the engine may patch: its load address, its
/// bytes, and whether its pages are currently writable.
pub struct Memory {
    pub base: u64,
    pub bytes: Vec<u8>,
    pub writable: bool,
}

impl Memory {
    /// The region's addresses fit the platform's address width.
    pub open spec fn wf(self) -> bool {
        self.base + self.bytes@.len() <= u64::MAX + 1
    }

    /// Whether `n` bytes starting at address `addr` lie inside the region.
    pub open spec fn contains_range(self, addr: u64, n: int) -> bool {
        self.base <= addr && addr - self.base + n <= self.bytes@.len()
    }
}

/// A record of one installed hook: where it was placed, where it redirects,
/// which stage placed it, and the bytes it overwrote.
pub struct HookDescriptor {
    pub target: u64,
    pub redirect: u64,
    pub stage: StageTag,
    pub original: Vec<u8>,
}

impl HookDescriptor {
    /// The captured bytes cover exactly the patched region, so restoration
    /// is byte-exact.
    pub open spec fn wf(self) -> bool {
        self.original@.len() == PATCH_LEN
    }
}

/// Captures the `PATCH_LEN` bytes at `target`, overwrites them with a jump to
/// `redirect`, and returns the descriptor that undoes the patch.
///
/// Fails with `WriteProtected` when the region is not writable, and with
/// `PatchTargetNotFound` when the patch would not lie inside the region; the
/// memory is untouched in either case.
pub fn install(mem: &mut Memory, target: u64, redirect: u64, stage: StageTag) -> (r: Result<
    HookDescriptor,
    EngineError,
>)
    requires
        old(mem).wf(),
    ensures
        final(mem).base == old(mem).base,
        final(mem).writable == old(mem).writable,
        final(mem).bytes@.len() == old(mem).bytes@.len(),
        r is Ok <==> old(mem).writable && old(mem).contains_range(target, PATCH_LEN as int),
        match r {
            Ok(d) => ({
                let off = target - old(mem).base;
                &&& d.target == target
                &&& d.redirect == redirect
                &&& d.stage == stage
                &&& d.original@ == old(mem).bytes@.subrange(off, off + PATCH_LEN)
                &&& d.wf()
                &&& final(mem).bytes@ == splice(old(mem).bytes@, off, jump_bytes(redirect))
            }),
            Err(e) => {
                &&& final(mem).bytes@ == old(mem).bytes@
                &&& (e == EngineError::WriteProtected <==> !old(mem).writable)
                &&& (e == EngineError::PatchTargetNotFound <==> old(mem).writable && !old(
                    mem,
                ).contains_range(target, PATCH_LEN as int))
            },
        },
{
    if !mem.writable {
        return Err(EngineError::WriteProtected);
    }
    let len: usize = mem.bytes.len();
    let len64: u64 = len as u64;
    if target < mem.base {
        return Err(EngineError::PatchTargetNotFound);
    }
    let off64: u64 = target - mem.base;
    if off64 > len64 || len64 - off64 < PATCH_LEN as u64 {
        return Err(EngineError::PatchTargetNotFound);
    }
    let off: usize = off64 as usize;
    let original = copy_range(&mem.bytes, off, off + PATCH_LEN);
    let jump = make_jump(redirect);
    write_bytes(&mut mem.bytes, off, &jump);
    Ok(HookDescriptor { target, redirect, stage, original })
}

/// Writes the descriptor's captured bytes back over the patch and returns the
/// address at which original execution resumes.
///
/// Fails with `WriteProtected` or `PatchTargetNotFound` exactly as `install`
/// does; the memory is untouched in either case.
pub fn trampoline_resume(mem: &mut Memory, d: &HookDescriptor) -> (r: Result<u64, EngineError>)
    requires
        old(mem).wf(),
        d.wf(),
    ensures
        final(mem).base == old(mem).base,
        final(mem).writable == old(mem).writable,
        final(mem).bytes@.len() == old(mem).bytes@.len(),
        r is Ok <==> old(mem).writable && old(mem).contains_range(d.target, PATCH_LEN as int),
        match r {
            Ok(resume) => ({
                let off = d.target - old(mem).base;
                &&& resume == d.target
                &&& final(mem).bytes@ == splice(old(mem).bytes@, off, d.original@)
            }),
            Err(e) => {
                &&& final(mem).bytes@ == old(mem).bytes@
                &&& (e == EngineError::WriteProtected <==> !old(mem).writable)
                &&& (e == EngineError::PatchTargetNotFound <==> old(mem).writable && !old(
                    mem,
                ).contains_range(d.target, PATCH_LEN as int))
            },
        },
{
    if !mem.writable {
        return Err(EngineError::WriteProtected);
    }
    let len: usize = mem.bytes.len();
    let len64: u64 = len as u64;
    if d.target < mem.base {
        return Err(EngineError::PatchTargetNotFound);
    }
    let off64: u64 = d.target - mem.base;
    if off64 > len64 || len64 - off64 < PATCH_LEN as u64 {
        return Err(EngineError::PatchTargetNotFound);
    }
    let off: usize = off64 as usize;
    write_bytes(&mut mem.bytes, off, &d.original);
    Ok(d.target)
}

/// Installing a hook and then writing the captured bytes back restores the
/// memory exactly: patch followed by restore is the identity on the whole
/// buffer, whatever the redirect was.
pub proof fn lemma_install_restore_roundtrip(m: Seq<u8>, off: int, redirect: u64)
    requires
        0 <= off,
        off + PATCH_LEN <= m.len(),
    ensures
        splice(splice(m, off, jump_bytes(redirect)), off, m.subrange(off, off + PATCH_LEN)) == m,
{
    assert(jump_bytes(redirect).len() == PATCH_LEN);
    assert(splice(splice(m, off, jump_bytes(redirect)), off, m.subrange(off, off + PATCH_LEN))
        =~= m);
}

} // verus!
