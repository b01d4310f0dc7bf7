//! Installation of the hook at the end of the animation-state update.

use vstd::prelude::*;
use crate::error::Error;
use crate::patch::{
    spec_code_address, spec_enable_bytes, spec_trampoline, spec_with_enabled, CodeWrite, Module,
    Patch, PatchView, TRAMPOLINE_TAIL_LEN,
};

verus! {

/// Offset of the end of the animation-state update in `server.dll`, where the
/// hook is placed.
pub const ANIMSTATE_UPDATE_END_OFFSET: usize = 0x43346C;

/// Number of bytes of the function the hook saves at that offset.
pub const ANIMSTATE_UPDATE_PATCH_LEN: usize = 6;

/// Installs the hook in `server`: prepares the patch of the
/// animation-state update's end, diverting it to `hook` through a trampoline
/// placed at `trampoline`, and enables it. `code` holds the bytes found at
/// that place. Returns the enabled patch, the bytes of the trampoline, and
/// the `jmp` to write over the function; enabling a fresh patch never fails.
pub fn install_animstate_hook(server: Module, hook: usize, trampoline: usize, code: Vec<u8>) -> (r:
    Result<(Patch, Vec<u8>, CodeWrite), Error>)
    requires
        code@.len() == ANIMSTATE_UPDATE_PATCH_LEN,
        ANIMSTATE_UPDATE_END_OFFSET + ANIMSTATE_UPDATE_PATCH_LEN <= server@.size,
        trampoline + ANIMSTATE_UPDATE_PATCH_LEN + TRAMPOLINE_TAIL_LEN <= usize::MAX,
    ensures
        r matches Ok((patch, image, write)) && patch@ == spec_with_enabled(
            PatchView {
                module: server@,
                trampoline,
                offset: ANIMSTATE_UPDATE_END_OFFSET,
                backup: code@,
                enabled: false,
            },
            true,
        ) && image@ == spec_trampoline(
            code@,
            trampoline as int,
            hook as int,
            server@.base + ANIMSTATE_UPDATE_END_OFFSET,
        ) && write.address == spec_code_address(patch@) && write.bytes@ == spec_enable_bytes(
            patch@,
        ),
        r matches Ok((patch, image, write)) && patch@.enabled && patch@.module == server@
            && patch@.offset == ANIMSTATE_UPDATE_END_OFFSET && patch@.trampoline == trampoline
            && patch@.backup == code@ && write.address == server@.base
            + ANIMSTATE_UPDATE_END_OFFSET && image@.len() == ANIMSTATE_UPDATE_PATCH_LEN
            + TRAMPOLINE_TAIL_LEN && image@.subrange(0, ANIMSTATE_UPDATE_PATCH_LEN as int)
            == code@,
{
    let (mut patch, image) = server.patch(ANIMSTATE_UPDATE_END_OFFSET, hook, trampoline, code);
    let write = patch.enable()?;
    proof {
        let t = spec_trampoline(
            code@,
            trampoline as int,
            hook as int,
            server@.base + ANIMSTATE_UPDATE_END_OFFSET,
        );
        assert(t.subrange(0, ANIMSTATE_UPDATE_PATCH_LEN as int) =~= code@);
    }
    Ok((patch, image, write))
}

} // verus!
