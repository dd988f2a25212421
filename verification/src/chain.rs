//! The chain orchestrator: a state machine that sequences the three boot
//! stages.  Each stage's image is read and analysed, a hook is installed at
//! the resolved target, and control is transferred onward; the hook firing
//! advances the machine.  A failure at any stage halts the whole chain — an
//! unhooked intermediate stage cannot safely lead to a correctly mapped
//! payload — and no transition is reversible.

use vstd::prelude::*;

use crate::EngineError;
use crate::buf::splice;
use crate::hook::{
    HookDescriptor, Memory, PATCH_LEN, StageTag, install, jump_bytes,
};
use crate::mapper::{lemma_export_match_unique, spec_export_match};
use crate::pe::{ParsedLayout, has_export, has_pattern, pattern_matches_at};

verus! {

/// The chain's progress, from the first stage's image being loaded to the
/// privileged stage resuming with the payload mapped.  `Halted` is the fatal
/// state every failure leads to.
#[derive(Clone, Copy, Debug, PartialEq, Eq, Structural)]
pub enum ChainState {
    Stage1Loaded,
    Stage1HookFired,
    Stage2Loaded,
    Stage2HookFired,
    Stage3Loaded,
    Stage3HookFired,
    Resumed,
    Halted,
}

/// What the surrounding platform reports to the orchestrator.
#[derive(Clone, Copy, Debug, PartialEq, Eq, Structural)]
pub enum ChainEvent {
    /// The hook installed in the given stage fired.
    HookFired(StageTag),
    /// The given stage's image was loaded by the previous stage.
    StageLoaded(StageTag),
    /// The privileged stage resumes its normal startup, payload mapped.
    ResumeTransfer,
    /// Anything that went wrong outside the machine itself.
    Fault,
}

/// The transition table.  Only the expected event advances the chain; any
/// other event, and `Fault` in particular, halts it.  `Resumed` and `Halted`
/// are terminal.
pub open spec fn chain_step_spec(s: ChainState, e: ChainEvent) -> ChainState {
    match (s, e) {
        (ChainState::Stage1Loaded, ChainEvent::HookFired(StageTag::Stage1)) => ChainState::Stage1HookFired,
        (ChainState::Stage1HookFired, ChainEvent::StageLoaded(StageTag::Stage2)) => ChainState::Stage2Loaded,
        (ChainState::Stage2Loaded, ChainEvent::HookFired(StageTag::Stage2)) => ChainState::Stage2HookFired,
        (ChainState::Stage2HookFired, ChainEvent::StageLoaded(StageTag::Stage3)) => ChainState::Stage3Loaded,
        (ChainState::Stage3Loaded, ChainEvent::HookFired(StageTag::Stage3)) => ChainState::Stage3HookFired,
        (ChainState::Stage3HookFired, ChainEvent::ResumeTransfer) => ChainState::Resumed,
        (ChainState::Resumed, _) => ChainState::Resumed,
        (_, _) => ChainState::Halted,
    }
}

/// How far along the chain a state is.
pub open spec fn chain_rank(s: ChainState) -> int {
    match s {
        ChainState::Stage1Loaded => 0,
        ChainState::Stage1HookFired => 1,
        ChainState::Stage2Loaded => 2,
        ChainState::Stage2HookFired => 3,
        ChainState::Stage3Loaded => 4,
        ChainState::Stage3HookFired => 5,
        ChainState::Resumed => 6,
        ChainState::Halted => 7,
    }
}

/// No transition is reversible: every event leaves the chain where it is or
/// moves it forward, never back.
pub proof fn lemma_chain_monotone(s: ChainState, e: ChainEvent)
    ensures
        chain_rank(chain_step_spec(s, e)) >= chain_rank(s),
{
}

/// `Resumed` and `Halted` are terminal: no event leaves them.
pub proof fn lemma_chain_terminal(s: ChainState, e: ChainEvent)
    requires
        s == ChainState::Resumed || s == ChainState::Halted,
    ensures
        chain_step_spec(s, e) == s,
{
}

/// Performs one transition of the chain's state machine.
pub fn chain_step(s: ChainState, e: ChainEvent) -> (r: ChainState)
    ensures
        r == chain_step_spec(s, e),
{
    match (s, e) {
        (ChainState::Stage1Loaded, ChainEvent::HookFired(StageTag::Stage1)) => ChainState::Stage1HookFired,
        (ChainState::Stage1HookFired, ChainEvent::StageLoaded(StageTag::Stage2)) => ChainState::Stage2Loaded,
        (ChainState::Stage2Loaded, ChainEvent::HookFired(StageTag::Stage2)) => ChainState::Stage2HookFired,
        (ChainState::Stage2HookFired, ChainEvent::StageLoaded(StageTag::Stage3)) => ChainState::Stage3Loaded,
        (ChainState::Stage3Loaded, ChainEvent::HookFired(StageTag::Stage3)) => ChainState::Stage3HookFired,
        (ChainState::Stage3HookFired, ChainEvent::ResumeTransfer) => ChainState::Resumed,
        (ChainState::Resumed, _) => ChainState::Resumed,
        (_, _) => ChainState::Halted,
    }
}

/// The stage whose image is loaded and awaiting its hook, if the chain is in
/// such a state.
pub open spec fn stage_of_state(s: ChainState) -> Option<StageTag> {
    match s {
        ChainState::Stage1Loaded => Some(StageTag::Stage1),
        ChainState::Stage2Loaded => Some(StageTag::Stage2),
        ChainState::Stage3Loaded => Some(StageTag::Stage3),
        _ => None,
    }
}

/// Returns the stage whose image is loaded and awaiting its hook.
pub fn current_stage(s: ChainState) -> (r: Option<StageTag>)
    ensures
        r == stage_of_state(s),
{
    match s {
        ChainState::Stage1Loaded => Some(StageTag::Stage1),
        ChainState::Stage2Loaded => Some(StageTag::Stage2),
        ChainState::Stage3Loaded => Some(StageTag::Stage3),
        _ => None,
    }
}

/// Which resolution path located a hook target.  A pattern match is the
/// degraded-confidence path, taken only when the symbol is not exported; the
/// caller should log when it was used, since pattern matches are fragile
/// across platform versions.
#[derive(Clone, Copy, Debug, PartialEq, Eq, Structural)]
pub enum ResolutionKind {
    Export,
    Pattern,
}

/// Position `i` is the first at which the masked pattern matches.
pub open spec fn pattern_first_match(d: Seq<u8>, p: Seq<u8>, m: Seq<bool>, i: int) -> bool {
    &&& pattern_matches_at(d, p, m, i)
    &&& forall|k: int| 0 <= k < i ==> !pattern_matches_at(d, p, m, k)
}

/// Two first pattern matches are the same position.
pub proof fn lemma_pattern_first_unique(d: Seq<u8>, p: Seq<u8>, m: Seq<bool>, i: int, j: int)
    requires
        pattern_first_match(d, p, m, i),
        pattern_first_match(d, p, m, j),
    ensures
        i == j,
{
    if i < j {
        assert(!pattern_matches_at(d, p, m, i));
    } else if j < i {
        assert(!pattern_matches_at(d, p, m, j));
    }
}

/// The orchestrator's record: where the chain stands and every hook placed so
/// far, at most one per stage, so no site is ever patched twice.
pub struct Chain {
    pub state: ChainState,
    pub hooks: Vec<HookDescriptor>,
}

impl Chain {
    /// Each recorded hook captures a full patch, and no two hooks belong to
    /// the same stage (hooks are not stacked on one site).
    pub open spec fn wf(self) -> bool {
        &&& forall|i: int| 0 <= i < self.hooks@.len() ==> self.hooks@[i].wf()
        &&& forall|i: int, j: int|
            0 <= i < j < self.hooks@.len() ==> self.hooks@[i].stage != self.hooks@[j].stage
    }

    /// A fresh chain: the first stage's image is loaded, nothing is hooked.
    pub fn new() -> (c: Chain)
        ensures
            c.state == ChainState::Stage1Loaded,
            c.hooks@.len() == 0,
            c.wf(),
    {
        Chain { state: ChainState::Stage1Loaded, hooks: Vec::new() }
    }

    /// Reports an event to the state machine.
    pub fn advance(&mut self, e: ChainEvent)
        ensures
            final(self).state == chain_step_spec(old(self).state, e),
            final(self).hooks@ == old(self).hooks@,
            final(self).wf() == old(self).wf(),
    {
        self.state = chain_step(self.state, e);
    }

    /// One stage's hook placement: resolves the target in the analysed image
    /// — by exported symbol first, by masked byte pattern as the degraded
    /// fallback — installs the redirect there and records the descriptor.
    /// Any failure halts the chain: a resolution miss or an unpatchable
    /// target surfaces as `PatchTargetNotFound`, an unwritable region as
    /// `WriteProtected`, and the memory is left untouched.
    pub fn install_stage_hook(
        &mut self,
        mem: &mut Memory,
        layout: &ParsedLayout,
        symbol: &Vec<u8>,
        pattern: &Vec<u8>,
        mask: &Vec<bool>,
        redirect: u64,
    ) -> (r: Result<(ResolutionKind, u64), EngineError>)
        requires
            old(self).wf(),
            stage_of_state(old(self).state) is Some,
            forall|i: int|
                0 <= i < old(self).hooks@.len() ==> old(self).hooks@[i].stage != stage_of_state(
                    old(self).state,
                ).unwrap(),
            layout.wf(),
            old(mem).wf(),
            layout.base == old(mem).base,
            old(mem).bytes@.len() == layout.image_size,
            pattern@.len() == mask@.len(),
            1 <= pattern@.len(),
        ensures
            final(mem).base == old(mem).base,
            final(mem).writable == old(mem).writable,
            final(mem).bytes@.len() == old(mem).bytes@.len(),
            r is Err ==> final(self).state == ChainState::Halted && final(self).hooks@ == old(
                self,
            ).hooks@ && final(mem).bytes@ == old(mem).bytes@ && (r == Err::<
                (ResolutionKind, u64),
                EngineError,
            >(EngineError::PatchTargetNotFound) || r == Err::<(ResolutionKind, u64), EngineError>(
                EngineError::WriteProtected,
            )),
            r == Err::<(ResolutionKind, u64), EngineError>(EngineError::WriteProtected) ==> !old(
                mem,
            ).writable,
            (!has_export(layout.exports@, symbol@) && !has_pattern(
                old(mem).bytes@,
                pattern@,
                mask@,
            )) ==> r == Err::<(ResolutionKind, u64), EngineError>(EngineError::PatchTargetNotFound),
            (old(mem).writable && exists|i: int|
                #![auto]
                spec_export_match(layout.exports@, symbol@, i) && old(mem).contains_range(
                    ((layout.base + layout.exports@[i].rva) as u64),
                    PATCH_LEN as int,
                )) ==> r is Ok,
            (old(mem).writable && !has_export(layout.exports@, symbol@) && exists|i: int|
                #![auto]
                pattern_first_match(old(mem).bytes@, pattern@, mask@, i) && old(
                    mem,
                ).contains_range(((layout.base + i) as u64), PATCH_LEN as int)) ==> r is Ok,
            r is Ok ==> ({
                let kind = r.unwrap().0;
                let target = r.unwrap().1;
                let d = final(self).hooks@.last();
                &&& final(self).state == old(self).state
                &&& final(self).wf()
                &&& final(self).hooks@.len() == old(self).hooks@.len() + 1
                &&& final(self).hooks@.subrange(0, old(self).hooks@.len() as int) == old(
                    self,
                ).hooks@
                &&& d.target == target
                &&& d.redirect == redirect
                &&& d.stage == stage_of_state(old(self).state).unwrap()
                &&& d.wf()
                &&& old(mem).writable
                &&& old(mem).contains_range(target, PATCH_LEN as int)
                &&& d.original@ == old(mem).bytes@.subrange(
                    target - old(mem).base,
                    target - old(mem).base + PATCH_LEN,
                )
                &&& final(mem).bytes@ == splice(
                    old(mem).bytes@,
                    target - old(mem).base,
                    jump_bytes(redirect),
                )
                &&& (kind == ResolutionKind::Export ==> exists|i: int|
                    #![auto]
                    spec_export_match(layout.exports@, symbol@, i) && target == (layout.base
                        + layout.exports@[i].rva) as u64)
                &&& (kind == ResolutionKind::Pattern ==> !has_export(layout.exports@, symbol@)
                    && exists|i: int|
                    #![auto]
                    pattern_first_match(old(mem).bytes@, pattern@, mask@, i) && target == (
                    layout.base + i) as u64)
            }),
    {
        let stage = match current_stage(self.state) {
            Some(st) => st,
            None => {
                proof {
                    assert(false);
                }
                StageTag::Stage1
            },
        };
        let resolved: (u64, ResolutionKind) = match layout.resolve_export(symbol) {
            Ok(addr) => (addr, ResolutionKind::Export),
            Err(_) => {
                match layout.find_pattern(&mem.bytes, pattern, mask) {
                    Ok(addr) => (addr, ResolutionKind::Pattern),
                    Err(_) => {
                        self.state = chain_step(self.state, ChainEvent::Fault);
                        return Err(EngineError::PatchTargetNotFound);
                    },
                }
            },
        };
        let target = resolved.0;
        let kind = resolved.1;
        proof {
            if kind == ResolutionKind::Export {
                let j = choose|j: int|
                    #![auto]
                    0 <= j < layout.exports@.len() && layout.exports@[j].name@ == symbol@ && (
                    forall|k: int| 0 <= k < j ==> layout.exports@[k].name@ != symbol@) && target == (
                    layout.base + layout.exports@[j].rva) as u64;
                assert(spec_export_match(layout.exports@, symbol@, j));
            } else {
                let j = choose|j: int|
                    #![auto]
                    pattern_matches_at(mem.bytes@, pattern@, mask@, j) && (forall|k: int|
                        0 <= k < j ==> !pattern_matches_at(mem.bytes@, pattern@, mask@, k))
                        && target == (layout.base + j) as u64;
                assert(pattern_first_match(mem.bytes@, pattern@, mask@, j));
            }
        }
        match install(mem, target, redirect, stage) {
            Ok(d) => {
                self.hooks.push(d);
                Ok((kind, target))
            },
            Err(e) => {
                proof {
                    if old(mem).writable {
                        if kind == ResolutionKind::Export {
                            let j = choose|j: int|
                                spec_export_match(layout.exports@, symbol@, j) && target == (
                                layout.base + layout.exports@[j].rva) as u64;
                            if exists|i: int|
                                #![auto]
                                spec_export_match(layout.exports@, symbol@, i) && old(
                                    mem,
                                ).contains_range(
                                    ((layout.base + layout.exports@[i].rva) as u64),
                                    PATCH_LEN as int,
                                ) {
                                let i = choose|i: int|
                                    #![auto]
                                    spec_export_match(layout.exports@, symbol@, i) && old(
                                        mem,
                                    ).contains_range(
                                        ((layout.base + layout.exports@[i].rva) as u64),
                                        PATCH_LEN as int,
                                    );
                                lemma_export_match_unique(layout.exports@, symbol@, i, j);
                            }
                        } else {
                            let j = choose|j: int|
                                pattern_first_match(mem.bytes@, pattern@, mask@, j) && target == (
                                layout.base + j) as u64;
                            if exists|i: int|
                                #![auto]
                                pattern_first_match(old(mem).bytes@, pattern@, mask@, i) && old(
                                    mem,
                                ).contains_range(((layout.base + i) as u64), PATCH_LEN as int) {
                                let i = choose|i: int|
                                    #![auto]
                                    pattern_first_match(old(mem).bytes@, pattern@, mask@, i) && old(
                                        mem,
                                    ).contains_range(((layout.base + i) as u64), PATCH_LEN as int);
                                lemma_pattern_first_unique(
                                    old(mem).bytes@,
                                    pattern@,
                                    mask@,
                                    i,
                                    j,
                                );
                            }
                        }
                    }
                }
                self.state = chain_step(self.state, ChainEvent::Fault);
                Err(e)
            },
        }
    }
}

} // verus!
