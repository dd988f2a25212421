//! A verified engine for staged boot-image hooking and manual mapping.
//!
//! The engine analyses executable images in their loaded form, places
//! byte-exact redirect hooks that can later be undone, carries a payload
//! record across independently executing stages through a handoff channel,
//! and maps a raw payload image into an allocated region by applying its
//! relocations and import fixups.  Everything here is pure computation over
//! byte buffers and plain values; reading images from storage, changing page
//! attributes and transferring control belong to the surrounding platform.

use vstd::prelude::*;

pub mod buf;
pub mod chain;
pub mod channel;
pub mod hook;
pub mod mapper;
pub mod pe;

verus! {

/// Every failure the engine can report.
#[derive(Clone, Copy, Debug, PartialEq, Eq, Structural)]
pub enum EngineError {
    /// A header field, signature or directory offset of an image is invalid
    /// or falls outside the image bounds.
    MalformedImage,
    /// An export name or a byte pattern was not found in the image.
    NotFound,
    /// A hook target could not be resolved, or lies outside the patchable
    /// region.
    PatchTargetNotFound,
    /// The region holding a hook target cannot be written.
    WriteProtected,
    /// The handoff channel was consumed before a record was published, or a
    /// second time.
    ChannelEmpty,
    /// The allocator cannot grant a region large enough for the mapped image.
    AllocationFailed,
    /// A relocation entry points outside the allocated region.
    RelocationOutOfRange,
    /// A required import name is absent from the privileged image's exports.
    ImportUnresolved,
}

} // verus!
