use hookchain::EngineError;
use hookchain::chain::{Chain, ChainEvent, ChainState, ResolutionKind, chain_step};
use hookchain::channel::{ChannelState, HandoffChannel};
use hookchain::hook::{Memory, PATCH_LEN, StageTag, install, trampoline_resume};
use hookchain::mapper::{apply_relocations, map_payload, map_sections, protection_of};
use hookchain::pe::{ParsedLayout, RelocEntry, parse};

fn put16(b: &mut Vec<u8>, off: usize, v: u16) {
    b[off] = v as u8;
    b[off + 1] = (v >> 8) as u8;
}

fn put32(b: &mut Vec<u8>, off: usize, v: u32) {
    for i in 0..4 {
        b[off + i] = (v >> (8 * i)) as u8;
    }
}

fn put64(b: &mut Vec<u8>, off: usize, v: u64) {
    for i in 0..8 {
        b[off + i] = (v >> (8 * i)) as u8;
    }
}

fn read64(b: &[u8], off: usize) -> u64 {
    let mut v: u64 = 0;
    for i in 0..8 {
        v |= (b[off + i] as u64) << (8 * i);
    }
    v
}

const PE: usize = 0x40;
const OPT: usize = PE + 24;
const DIRS: usize = PE + 136;
const SECT: usize = PE + 264;

/// A minimal well-formed 64-bit image in its loaded form: one section at
/// 0x200..0x600, headers declared as the first 0x200 bytes.
fn base_image() -> Vec<u8> {
    let mut b = vec![0u8; 0x600];
    put16(&mut b, 0, 0x5a4d);
    put32(&mut b, 0x3c, PE as u32);
    put32(&mut b, PE, 0x4550);
    put16(&mut b, PE + 4, 0x8664);
    put16(&mut b, PE + 6, 1); // one section
    put16(&mut b, PE + 20, 240); // optional header size
    put16(&mut b, OPT, 0x20b);
    put32(&mut b, OPT + 16, 0x180); // entry point
    put64(&mut b, OPT + 24, 0x10000); // preferred base
    put32(&mut b, OPT + 56, 0x600); // size of image
    put32(&mut b, OPT + 60, 0x200); // size of headers
    // section: ".text", mapped 0x200..0x600, stored 0x200..0x600
    b[SECT..SECT + 5].copy_from_slice(b".text");
    put32(&mut b, SECT + 8, 0x400); // virtual size
    put32(&mut b, SECT + 12, 0x200); // virtual address
    put32(&mut b, SECT + 16, 0x400); // raw size
    put32(&mut b, SECT + 20, 0x200); // raw offset
    put32(&mut b, SECT + 36, 0x6000_0020); // code | read | execute
    b
}

/// The base image plus an export table: "EntryA" at relative offset 0x100.
fn exporting_image() -> Vec<u8> {
    let mut b = base_image();
    put32(&mut b, DIRS, 0x200); // export directory
    put32(&mut b, DIRS + 4, 0x100);
    put32(&mut b, 0x214, 1); // number of functions
    put32(&mut b, 0x218, 1); // number of names
    put32(&mut b, 0x21c, 0x230); // address table
    put32(&mut b, 0x220, 0x238); // name pointer table
    put32(&mut b, 0x224, 0x240); // ordinal table
    put32(&mut b, 0x230, 0x100); // EntryA's relative address
    put32(&mut b, 0x238, 0x250); // name string
    put16(&mut b, 0x240, 0);
    b[0x250..0x257].copy_from_slice(b"EntryA\0");
    b
}

/// A payload importing one symbol by name, with one 64-bit relocation on its
/// import slot at 0x280.
fn payload_image(symbol: &[u8]) -> Vec<u8> {
    let mut b = base_image();
    // import directory: one descriptor at 0x200, terminator after it
    put32(&mut b, DIRS + 8, 0x200);
    put32(&mut b, DIRS + 12, 40);
    put32(&mut b, 0x200, 0x240); // lookup table
    put32(&mut b, 0x20c, 0x260); // provider name
    put32(&mut b, 0x210, 0x280); // address table
    put64(&mut b, 0x240, 0x300); // thunk: name at 0x300
    b[0x260..0x264].copy_from_slice(b"krn\0");
    b[0x302..0x302 + symbol.len()].copy_from_slice(symbol);
    // one relocation block: page 0x280, one 64-bit entry at offset 0, one pad
    put32(&mut b, DIRS + 40, 0x400);
    put32(&mut b, DIRS + 44, 12);
    put32(&mut b, 0x400, 0x280);
    put32(&mut b, 0x404, 12);
    put16(&mut b, 0x408, 0xa000);
    put16(&mut b, 0x40a, 0);
    b
}

fn privileged_layout() -> ParsedLayout {
    let img = exporting_image();
    let mut layout = parse(&img).expect("well-formed image");
    layout.compute_relocated_addresses(0x7000);
    layout
}

#[test]
fn parse_accepts_well_formed_image() {
    let img = exporting_image();
    let layout = parse(&img).expect("well-formed image");
    assert_eq!(layout.image_size, 0x600);
    assert_eq!(layout.entry_rva, 0x180);
    assert_eq!(layout.preferred_base, 0x10000);
    assert_eq!(layout.sections.len(), 1);
    assert_eq!(layout.sections[0].virtual_address, 0x200);
    assert_eq!(layout.exports.len(), 1);
    assert_eq!(layout.exports[0].name, b"EntryA".to_vec());
    assert_eq!(layout.exports[0].rva, 0x100);
}

#[test]
fn parse_rejects_short_image() {
    assert!(matches!(parse(&vec![0u8; 16]), Err(EngineError::MalformedImage)));
}

#[test]
fn parse_rejects_bad_machine() {
    let mut img = exporting_image();
    put16(&mut img, PE + 4, 0x014c);
    assert!(matches!(parse(&img), Err(EngineError::MalformedImage)));
}

#[test]
fn parse_rejects_section_outside_image() {
    let mut img = base_image();
    put32(&mut img, SECT + 8, 0x500); // 0x200 + 0x500 > 0x600
    assert!(matches!(parse(&img), Err(EngineError::MalformedImage)));
}

#[test]
fn resolve_export_at_chosen_base() {
    // stage 1 exports "EntryA" at relative offset 0x100; loaded at 0x1000
    let img = exporting_image();
    let mut layout = parse(&img).expect("well-formed image");
    let map = layout.compute_relocated_addresses(0x1000);
    assert_eq!(layout.resolve_export(&b"EntryA".to_vec()), Ok(0x1100));
    assert_eq!(map.entry, 0x1180);
    assert_eq!(map.export_addresses, vec![0x1100]);
    assert_eq!(map.section_addresses, vec![0x1200]);
}

#[test]
fn resolve_export_absent_name() {
    let img = exporting_image();
    let layout = parse(&img).expect("well-formed image");
    assert_eq!(layout.resolve_export(&b"EntryB".to_vec()), Err(EngineError::NotFound));
}

#[test]
fn find_pattern_with_mask() {
    let img = exporting_image();
    let mut layout = parse(&img).expect("well-formed image");
    let mut data = img.clone();
    data[0x300] = 0xde;
    data[0x301] = 0x11;
    data[0x302] = 0xad;
    layout.compute_relocated_addresses(0x1000);
    let pattern = vec![0xdeu8, 0x00, 0xad];
    let mask = vec![true, false, true];
    assert_eq!(layout.find_pattern(&data, &pattern, &mask), Ok(0x1300));
    let absent = vec![0xbau8, 0xbe];
    assert_eq!(
        layout.find_pattern(&data, &absent, &vec![true, true]),
        Err(EngineError::NotFound)
    );
}

#[test]
fn install_then_resume_restores_original_bytes() {
    // install(0x1100, 0x2000) then trampoline_resume: memory as before
    let img = exporting_image();
    let before = img.clone();
    let mut mem = Memory { base: 0x1000, bytes: img, writable: true };
    let d = install(&mut mem, 0x1100, 0x2000, StageTag::Stage1).expect("patchable");
    assert_eq!(d.target, 0x1100);
    assert_eq!(d.redirect, 0x2000);
    assert_eq!(d.original.len(), PATCH_LEN);
    assert_eq!(d.original[..], before[0x100..0x100 + PATCH_LEN]);
    assert_ne!(mem.bytes, before);
    // the patch is a mov rax, 0x2000; jmp rax
    assert_eq!(mem.bytes[0x100], 0x48);
    assert_eq!(mem.bytes[0x101], 0xb8);
    assert_eq!(read64(&mem.bytes, 0x102), 0x2000);
    assert_eq!(mem.bytes[0x10a], 0xff);
    assert_eq!(mem.bytes[0x10b], 0xe0);
    let resume = trampoline_resume(&mut mem, &d).expect("patchable");
    assert_eq!(resume, 0x1100);
    assert_eq!(mem.bytes, before);
}

#[test]
fn install_refuses_write_protected_region() {
    let mut mem = Memory { base: 0x1000, bytes: vec![0u8; 64], writable: false };
    assert!(matches!(
        install(&mut mem, 0x1000, 0x2000, StageTag::Stage1),
        Err(EngineError::WriteProtected)
    ));
}

#[test]
fn install_refuses_target_outside_region() {
    let mut mem = Memory { base: 0x1000, bytes: vec![0u8; 64], writable: true };
    assert!(matches!(
        install(&mut mem, 0x2000, 0x3000, StageTag::Stage1),
        Err(EngineError::PatchTargetNotFound)
    ));
    // too close to the end for a full jump
    assert!(matches!(
        install(&mut mem, 0x1038, 0x3000, StageTag::Stage1),
        Err(EngineError::PatchTargetNotFound)
    ));
}

#[test]
fn publish_then_consume_returns_record() {
    // publish(0x9000, 0x400), then consume from another execution context
    let mut channel = HandoffChannel::new();
    assert!(channel.publish(0x9000, 0x400));
    later_execution_context(&mut channel);
}

fn later_execution_context(channel: &mut HandoffChannel) {
    assert_eq!(channel.consume(), Ok((0x9000, 0x400)));
}

#[test]
fn consume_before_publish_is_channel_empty() {
    let mut channel = HandoffChannel::new();
    assert_eq!(channel.consume(), Err(EngineError::ChannelEmpty));
}

#[test]
fn consume_twice_is_channel_empty() {
    let mut channel = HandoffChannel::new();
    assert!(channel.publish(0x9000, 0x400));
    assert_eq!(channel.consume(), Ok((0x9000, 0x400)));
    assert_eq!(channel.consume(), Err(EngineError::ChannelEmpty));
}

#[test]
fn double_publish_is_refused_and_keeps_record() {
    let mut channel = HandoffChannel::new();
    assert!(channel.publish(0x9000, 0x400));
    assert!(!channel.publish(0xdead, 0xbeef));
    assert_eq!(channel.state, ChannelState::Published { address: 0x9000, length: 0x400 });
    assert_eq!(channel.consume(), Ok((0x9000, 0x400)));
}

#[test]
fn relocation_outside_region_is_fatal() {
    // a target past the end of the allocated region never yields a mapping
    let mut image = vec![0u8; 32];
    let relocs = vec![RelocEntry { rva: 0x100 }];
    assert_eq!(
        apply_relocations(&mut image, &relocs, 0x1000),
        Err(EngineError::RelocationOutOfRange)
    );
}

#[test]
fn relocation_applies_delta_in_order() {
    let mut image = vec![0u8; 32];
    put64(&mut image, 8, 0x10010);
    let relocs = vec![RelocEntry { rva: 8 }, RelocEntry { rva: 8 }];
    apply_relocations(&mut image, &relocs, 0x30000).expect("in range");
    assert_eq!(read64(&image, 8), 0x10010 + 0x30000 + 0x30000);
}

#[test]
fn map_sections_copies_headers_and_sections() {
    let img = exporting_image();
    let mapped = map_sections(&img).expect("well-formed raw image");
    assert_eq!(mapped.len(), 0x600);
    assert_eq!(mapped, img); // stored layout equals mapped layout here
}

#[test]
fn map_payload_rejects_small_allocation() {
    let raw = payload_image(b"EntryA\0");
    let privileged = privileged_layout();
    assert!(matches!(
        map_payload(&raw, 0x40000, 16, &privileged, &vec![]),
        Err(EngineError::AllocationFailed)
    ));
}

#[test]
fn map_payload_resolves_import_and_relocates() {
    let raw = payload_image(b"EntryA\0");
    let privileged = privileged_layout();
    let m = map_payload(&raw, 0x40000, 0x1000, &privileged, &vec![]).expect("mappable");
    assert_eq!(m.base, 0x40000);
    assert_eq!(m.entry, 0x40180);
    assert_eq!(m.unresolved, Vec::<Vec<u8>>::new());
    // the import slot holds the privileged image's EntryA, written after the
    // relocation shifted the zeroed slot by the load delta
    assert_eq!(read64(&m.image, 0x280), 0x7100);
    assert_eq!(m.protections.len(), 1);
    assert_eq!(m.protections[0], 1 | 4); // read | execute
}

#[test]
fn map_payload_relocation_out_of_range() {
    let mut raw = payload_image(b"EntryA\0");
    put32(&mut raw, 0x400, 0x5fc); // page so near the end the slot overruns
    let privileged = privileged_layout();
    assert!(matches!(
        map_payload(&raw, 0x40000, 0x1000, &privileged, &vec![]),
        Err(EngineError::RelocationOutOfRange)
    ));
}

#[test]
fn absent_import_is_soft_unless_required() {
    // a symbol the privileged image does not export: mapping completes with
    // the import recorded as unresolved
    let raw = payload_image(b"MissingSym\0");
    let privileged = privileged_layout();
    let m = map_payload(&raw, 0x40000, 0x1000, &privileged, &vec![]).expect("soft failure");
    assert_eq!(m.unresolved, vec![b"MissingSym".to_vec()]);
    // the unresolved slot keeps only the relocation delta
    assert_eq!(read64(&m.image, 0x280), 0x30000);
    // the same import deemed required: mapping fails
    assert!(matches!(
        map_payload(&raw, 0x40000, 0x1000, &privileged, &vec![b"MissingSym".to_vec()]),
        Err(EngineError::ImportUnresolved)
    ));
}

#[test]
fn protection_masks_follow_characteristics() {
    assert_eq!(protection_of(0x4000_0000), 1);
    assert_eq!(protection_of(0xc000_0000), 1 | 2);
    assert_eq!(protection_of(0x6000_0020), 1 | 4);
    assert_eq!(protection_of(0xe000_0000), 1 | 2 | 4);
    assert_eq!(protection_of(0), 0);
}

#[test]
fn chain_walks_to_resumed() {
    let mut c = Chain::new();
    assert_eq!(c.state, ChainState::Stage1Loaded);
    c.advance(ChainEvent::HookFired(StageTag::Stage1));
    assert_eq!(c.state, ChainState::Stage1HookFired);
    c.advance(ChainEvent::StageLoaded(StageTag::Stage2));
    c.advance(ChainEvent::HookFired(StageTag::Stage2));
    c.advance(ChainEvent::StageLoaded(StageTag::Stage3));
    c.advance(ChainEvent::HookFired(StageTag::Stage3));
    assert_eq!(c.state, ChainState::Stage3HookFired);
    c.advance(ChainEvent::ResumeTransfer);
    assert_eq!(c.state, ChainState::Resumed);
    // terminal: later events change nothing
    c.advance(ChainEvent::Fault);
    assert_eq!(c.state, ChainState::Resumed);
}

#[test]
fn chain_halts_on_out_of_order_event() {
    assert_eq!(
        chain_step(ChainState::Stage1Loaded, ChainEvent::HookFired(StageTag::Stage2)),
        ChainState::Halted
    );
    assert_eq!(chain_step(ChainState::Stage1Loaded, ChainEvent::Fault), ChainState::Halted);
    assert_eq!(chain_step(ChainState::Halted, ChainEvent::ResumeTransfer), ChainState::Halted);
}

#[test]
fn stage_hook_by_export_and_halt_on_miss() {
    let img = exporting_image();
    let mut layout = parse(&img).expect("well-formed image");
    layout.compute_relocated_addresses(0x1000);
    let mut mem = Memory { base: 0x1000, bytes: img.clone(), writable: true };
    let mut c = Chain::new();
    let (kind, target) = c
        .install_stage_hook(
            &mut mem,
            &layout,
            &b"EntryA".to_vec(),
            &vec![0x90u8],
            &vec![true],
            0x2000,
        )
        .expect("resolvable");
    assert_eq!(kind, ResolutionKind::Export);
    assert_eq!(target, 0x1100);
    assert_eq!(c.hooks.len(), 1);
    assert_eq!(c.hooks[0].stage, StageTag::Stage1);
    assert_eq!(c.state, ChainState::Stage1Loaded);

    // a chain whose symbol and pattern both miss halts
    let mut mem2 = Memory { base: 0x1000, bytes: img, writable: true };
    let mut c2 = Chain::new();
    let r = c2.install_stage_hook(
        &mut mem2,
        &layout,
        &b"EntryB".to_vec(),
        &vec![0xbau8, 0xbe, 0xba, 0xbe],
        &vec![true, true, true, true],
        0x2000,
    );
    assert_eq!(r, Err(EngineError::PatchTargetNotFound));
    assert_eq!(c2.state, ChainState::Halted);
    assert_eq!(c2.hooks.len(), 0);
}

#[test]
fn stage_hook_by_pattern_when_symbol_missing() {
    let mut img = exporting_image();
    img[0x340] = 0xde;
    img[0x341] = 0xad;
    let mut layout = parse(&img).expect("well-formed image");
    layout.compute_relocated_addresses(0x1000);
    let mut mem = Memory { base: 0x1000, bytes: img, writable: true };
    let mut c = Chain::new();
    let (kind, target) = c
        .install_stage_hook(
            &mut mem,
            &layout,
            &b"NoSuchSymbol".to_vec(),
            &vec![0xdeu8, 0xad],
            &vec![true, true],
            0x2000,
        )
        .expect("pattern resolvable");
    assert_eq!(kind, ResolutionKind::Pattern);
    assert_eq!(target, 0x1340);
}
