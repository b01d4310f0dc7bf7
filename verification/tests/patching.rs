use resolver_hook::encode::{branch, push_le32, rel32, CALL_REL32, JMP_REL32};
use resolver_hook::error::Error;
use resolver_hook::hooks::{
    install_animstate_hook, ANIMSTATE_UPDATE_END_OFFSET, ANIMSTATE_UPDATE_PATCH_LEN,
};
use resolver_hook::patch::{Module, Patch};

fn module(base: usize, size: u32) -> Module {
    Module::from_name(b"server.dll".to_vec(), base, Some(size)).unwrap()
}

fn decode_target(code: &[u8], at: usize) -> usize {
    let disp = i32::from_le_bytes([code[1], code[2], code[3], code[4]]) as i64;
    (at as i64 + 5 + disp) as usize
}

#[test]
fn rel32_forward_and_backward() {
    assert_eq!(rel32(0x1005, 0x2000), 0xFFB);
    assert_eq!(rel32(0x2005, 0x1000), 0xFFFF_EFFB);
    assert_eq!(rel32(0x1000, 0x1000), 0);
    assert_eq!(rel32(0x1_0000_0000, 0), 0);
}

#[test]
fn le32_bytes() {
    let mut out = vec![0xAA];
    push_le32(&mut out, 0x1234_5678);
    assert_eq!(out, vec![0xAA, 0x78, 0x56, 0x34, 0x12]);
}

#[test]
fn branch_bytes() {
    assert_eq!(branch(JMP_REL32, 0x1000, 0x2000), vec![0xE9, 0xFB, 0x0F, 0x00, 0x00]);
    assert_eq!(branch(CALL_REL32, 0x2000, 0x1000), vec![0xE8, 0xFB, 0xEF, 0xFF, 0xFF]);
    let b = branch(JMP_REL32, 0x7000_0000, 0x1000_0000);
    assert_eq!(decode_target(&b, 0x7000_0000), 0x1000_0000);
}

#[test]
fn module_lookup_errors() {
    assert_eq!(
        Module::from_name(b"server.dll".to_vec(), 0, Some(0x1000)).err(),
        Some(Error::GetModuleHandle { name: b"server.dll".to_vec() })
    );
    assert_eq!(
        Module::from_name(b"server.dll".to_vec(), 0x1000_0000, None).err(),
        Some(Error::GetModuleInfo { name: b"server.dll".to_vec() })
    );
    let m = module(0x1000_0000, 0x50_0000);
    assert_eq!(m.base(), 0x1000_0000);
    assert_eq!(m.size(), 0x50_0000);
    assert_eq!(m.name(), &b"server.dll".to_vec());
}

#[test]
fn proc_lookup() {
    let m = module(0x1000_0000, 0x50_0000);
    assert_eq!(
        m.proc(b"Msg".to_vec(), 0),
        Err(Error::GetProcAddress { name: b"Msg".to_vec() })
    );
    assert_eq!(m.proc(b"Msg".to_vec(), 0x7700_1234), Ok(0x7700_1234));
}

fn sample_patch() -> (Patch, Vec<u8>) {
    let code = vec![0x55, 0x8B, 0xEC, 0x83, 0xEC, 0x10];
    module(0x1000_0000, 0x50_0000).patch(0x100, 0x2000_0000, 0x3000_0000, code)
}

#[test]
fn trampoline_layout() {
    let (patch, image) = sample_patch();
    assert_eq!(image.len(), 16);
    assert_eq!(&image[..6], &[0x55, 0x8B, 0xEC, 0x83, 0xEC, 0x10]);
    assert_eq!(image[6], 0xE8);
    assert_eq!(decode_target(&image[6..11], 0x3000_0006), 0x2000_0000);
    assert_eq!(image[11], 0xE9);
    assert_eq!(decode_target(&image[11..16], 0x3000_000B), 0x1000_0106);
    assert!(!patch.enabled());
    assert_eq!(patch.trampoline(), 0x3000_0000);
    assert_eq!(patch.offset(), 0x100);
    assert_eq!(patch.backup_bytes(), &vec![0x55, 0x8B, 0xEC, 0x83, 0xEC, 0x10]);
    assert_eq!(patch.module().base(), 0x1000_0000);
}

#[test]
fn enable_and_disable_alternate() {
    let (mut patch, _) = sample_patch();
    let error = Error::Patch { module_name: b"server.dll".to_vec(), module_base: 0x1000_0000, offset: 0x100 };
    assert_eq!(patch.disable().err(), Some(error.clone()));
    let w = patch.enable().unwrap();
    assert!(patch.enabled());
    assert_eq!(w.address, 0x1000_0100);
    assert_eq!(w.bytes.len(), 5);
    assert_eq!(w.bytes[0], 0xE9);
    assert_eq!(decode_target(&w.bytes, 0x1000_0100), 0x3000_0000);
    assert_eq!(patch.enable().err(), Some(error.clone()));
    assert!(patch.enabled());
    let back = patch.disable().unwrap();
    assert!(!patch.enabled());
    assert_eq!(back.address, 0x1000_0100);
    assert_eq!(back.bytes, vec![0x55, 0x8B, 0xEC, 0x83, 0xEC, 0x10]);
    assert_eq!(patch.disable().err(), Some(error));
}

#[test]
fn enable_then_disable_restores_memory() {
    let (mut patch, _) = sample_patch();
    let mut memory = vec![0xCCu8; 0x200];
    memory[0x100..0x106].copy_from_slice(&[0x55, 0x8B, 0xEC, 0x83, 0xEC, 0x10]);
    let before = memory.clone();
    for w in [patch.enable().unwrap(), patch.disable().unwrap()] {
        let at = w.address - 0x1000_0000;
        memory[at..at + w.bytes.len()].copy_from_slice(&w.bytes);
        if patch.enabled() {
            assert_ne!(memory, before);
        }
    }
    assert_eq!(memory, before);
}

#[test]
fn install_hook_enables_patch() {
    let server = module(0x1000_0000, 0x50_0000);
    let code = vec![0x8B, 0x4D, 0x08, 0x89, 0x01, 0x90];
    let (patch, image, write) =
        install_animstate_hook(server, 0x6000_0000, 0x3000_0000, code.clone()).unwrap();
    assert!(patch.enabled());
    assert_eq!(patch.offset(), ANIMSTATE_UPDATE_END_OFFSET);
    assert_eq!(image.len(), ANIMSTATE_UPDATE_PATCH_LEN + 10);
    assert_eq!(&image[..6], &code[..]);
    assert_eq!(write.address, 0x1000_0000 + 0x43346C);
    assert_eq!(decode_target(&write.bytes, write.address), 0x3000_0000);
}
