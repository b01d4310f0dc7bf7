//! Modules of the process and the code patches applied to them.
//!
//! A [`Patch`] diverts the function at `base + offset` of a module into a
//! trampoline: enabling it overwrites the first bytes of the function with a
//! `jmp` to the trampoline; the trampoline runs the saved bytes of the function,
//! `call`s the hook and `jmp`s back behind them. Disabling it puts the saved
//! bytes back. Writing the bytes into the process is the caller's part: the
//! methods here hand out [`CodeWrite`]s.

use vstd::prelude::*;
use portable_atomic::AtomicBool;
use crate::encode::{
    branch, lemma_le32_roundtrip, spec_le32_value, spec_rel32, in_rel32_reach, lemma_branch_lands, spec_branch, spec_branch_target, BRANCH_LEN,
    CALL_REL32, JMP_REL32,
};
use crate::error::{copy_bytes, Error, ErrorView};
use crate::flag::{flag_compare_exchange, flag_contents, flag_load, new_flag};

verus! {

/// Length of the trampoline behind the saved bytes: a `call` and a `jmp`.
pub const TRAMPOLINE_TAIL_LEN: usize = 10;

/// A module loaded in the process: its name (the bytes of the C string,
/// without the nul), the address of its image and the image's size.
#[derive(Debug)]
pub struct Module {
    name: Vec<u8>,
    base: usize,
    size: usize,
}

/// The mathematical content of a [`Module`].
pub struct ModuleView {
    pub name: Seq<u8>,
    pub base: usize,
    pub size: usize,
}

impl Module {
    #[verifier::type_invariant]
    spec fn inv(self) -> bool {
        self.base + self.size <= usize::MAX
    }
}

impl View for Module {
    type V = ModuleView;

    closed spec fn view(&self) -> ModuleView {
        ModuleView { name: self.name@, base: self.base, size: self.size }
    }
}

/// Bytes to be written into the process at an address.
#[derive(Debug, Clone, PartialEq, Eq)]
pub struct CodeWrite {
    pub address: usize,
    pub bytes: Vec<u8>,
}

/// The mathematical content of a [`CodeWrite`].
pub struct CodeWriteView {
    pub address: usize,
    pub bytes: Seq<u8>,
}

impl View for CodeWrite {
    type V = CodeWriteView;

    open spec fn view(&self) -> CodeWriteView {
        CodeWriteView { address: self.address, bytes: self.bytes@ }
    }
}

/// Memory after `bytes` have been written at `address`.
pub open spec fn spec_apply_write(mem: Map<int, u8>, address: int, bytes: Seq<u8>) -> Map<int, u8> {
    Map::new(
        |a: int| mem.dom().contains(a) || address <= a < address + bytes.len(),
        |a: int|
            if address <= a < address + bytes.len() {
                bytes[a - address]
            } else {
                mem[a]
            },
    )
}

/// Whether `mem` holds `bytes` at `address`.
pub open spec fn spec_holds(mem: Map<int, u8>, address: int, bytes: Seq<u8>) -> bool {
    forall|i: int|
        0 <= i < bytes.len() ==> mem.dom().contains(address + i) && #[trigger] mem[address + i]
            == bytes[i]
}

/// The trampoline for the function at `code_address` whose first bytes are
/// `code`, placed at `at`: the saved bytes, a `call` of `target`, and a `jmp`
/// back to the first byte behind the saved ones.
pub open spec fn spec_trampoline(code: Seq<u8>, at: int, target: int, code_address: int) -> Seq<
    u8,
> {
    code + spec_branch(CALL_REL32, at + code.len(), target) + spec_branch(
        JMP_REL32,
        at + code.len() + BRANCH_LEN,
        code_address + code.len(),
    )
}

impl Module {
    /// The module named `name`, from the loader's answers: `handle` is the
    /// module handle (0 when the loader knows no such module) and `image_size`
    /// the size of its image (`None` when the loader could not describe it).
    pub fn from_name(name: Vec<u8>, handle: usize, image_size: Option<u32>) -> (r: Result<
        Module,
        Error,
    >)
        requires
            handle != 0 && image_size is Some ==> handle + image_size->0 <= usize::MAX,
        ensures
            handle == 0 ==> (r matches Err(e) && e@ == (ErrorView::GetModuleHandle { name: name@ })),
            handle != 0 && image_size is None ==> (r matches Err(e) && e@
                == (ErrorView::GetModuleInfo { name: name@ })),
            handle != 0 && image_size is Some ==> (r matches Ok(m) && m@ == (ModuleView {
                name: name@,
                base: handle,
                size: image_size->0 as usize,
            })),
    {
        if handle == 0 {
            return Err(Error::GetModuleHandle { name });
        }
        match image_size {
            None => Err(Error::GetModuleInfo { name }),
            Some(size) => Ok(Module { name, base: handle, size: size as usize }),
        }
    }

    /// The address of the procedure `name`, from the loader's answer `address`
    /// (0 when the module exports no such procedure).
    pub fn proc(&self, name: Vec<u8>, address: usize) -> (r: Result<usize, Error>)
        ensures
            address == 0 ==> (r matches Err(e) && e@ == (ErrorView::GetProcAddress { name: name@ })),
            address != 0 ==> r == Ok::<usize, Error>(address),
    {
        if address == 0 {
            Err(Error::GetProcAddress { name })
        } else {
            Ok(address)
        }
    }

    pub fn name(&self) -> (r: &Vec<u8>)
        ensures
            r@ == self@.name,
    {
        &self.name
    }

    pub fn base(&self) -> (r: usize)
        ensures
            r == self@.base,
    {
        self.base
    }

    pub fn size(&self) -> (r: usize)
        ensures
            r == self@.size,
    {
        self.size
    }
}


/// A patch of the function at `offset` in a module: the address of its
/// trampoline, the bytes of the function it saved, and whether it is enabled.
#[derive(Debug)]
pub struct Patch {
    module: Module,
    trampoline: usize,
    offset: usize,
    backup_bytes: Vec<u8>,
    enabled: AtomicBool,
}

/// The mathematical content of a [`Patch`].
pub struct PatchView {
    pub module: ModuleView,
    pub trampoline: usize,
    pub offset: usize,
    pub backup: Seq<u8>,
    pub enabled: bool,
}

impl Patch {
    #[verifier::type_invariant]
    spec fn inv(self) -> bool {
        &&& self.module.base + self.module.size <= usize::MAX
        &&& self.offset + self.backup_bytes@.len() <= self.module.size
        &&& self.offset + BRANCH_LEN <= self.module.size
        &&& self.trampoline + self.backup_bytes@.len() + TRAMPOLINE_TAIL_LEN <= usize::MAX
        &&& flag_contents(self.enabled).len() == 1
    }
}

impl View for Patch {
    type V = PatchView;

    closed spec fn view(&self) -> PatchView {
        PatchView {
            module: self.module@,
            trampoline: self.trampoline,
            offset: self.offset,
            backup: self.backup_bytes@,
            enabled: flag_contents(self.enabled)[0],
        }
    }
}

/// The address of the patched function.
pub open spec fn spec_code_address(p: PatchView) -> int {
    p.module.base + p.offset
}

/// What enabling writes over the function: a `jmp` to the trampoline.
pub open spec fn spec_enable_bytes(p: PatchView) -> Seq<u8> {
    spec_branch(JMP_REL32, spec_code_address(p), p.trampoline as int)
}

/// The error of toggling the patch into the state it is already in.
pub open spec fn spec_patch_error(p: PatchView) -> ErrorView {
    ErrorView::Patch { module_name: p.module.name, module_base: p.module.base, offset: p.offset }
}

/// The patch with its flag set to `enabled`.
pub open spec fn spec_with_enabled(p: PatchView, enabled: bool) -> PatchView {
    PatchView { enabled, ..p }
}

impl Module {
    /// Prepares a patch of the function at `offset`, whose first bytes are
    /// `code`, diverting it to `target` through a trampoline placed at
    /// `trampoline`. Returns the patch, disabled, and the bytes to write at
    /// `trampoline`.
    pub fn patch(self, offset: usize, target: usize, trampoline: usize, code: Vec<u8>) -> (r: (
        Patch,
        Vec<u8>,
    ))
        requires
            offset + code@.len() <= self@.size,
            offset + BRANCH_LEN <= self@.size,
            trampoline + code@.len() + TRAMPOLINE_TAIL_LEN <= usize::MAX,
        ensures
            r.0@ == (PatchView {
                module: self@,
                trampoline,
                offset,
                backup: code@,
                enabled: false,
            }),
            r.1@ == spec_trampoline(code@, trampoline as int, target as int, self@.base + offset),
    {
        proof {
            use_type_invariant(&self);
        }
        let n = code.len();
        let code_address = self.base + offset;
        let mut image = copy_bytes(&code);
        let call = branch(CALL_REL32, trampoline + n, target);
        let back = branch(JMP_REL32, trampoline + n + BRANCH_LEN, code_address + n);
        let mut i: usize = 0;
        while i < BRANCH_LEN
            invariant
                0 <= i <= BRANCH_LEN,
                call@.len() == BRANCH_LEN,
                image@ == code@ + call@.subrange(0, i as int),
            decreases BRANCH_LEN - i,
        {
            image.push(call[i]);
            i = i + 1;
            assert(image@ =~= code@ + call@.subrange(0, i as int));
        }
        let mut j: usize = 0;
        while j < BRANCH_LEN
            invariant
                0 <= j <= BRANCH_LEN,
                call@.len() == BRANCH_LEN,
                back@.len() == BRANCH_LEN,
                image@ == code@ + call@ + back@.subrange(0, j as int),
            decreases BRANCH_LEN - j,
        {
            image.push(back[j]);
            j = j + 1;
            assert(image@ =~= code@ + call@ + back@.subrange(0, j as int));
        }
        assert(call@.subrange(0, BRANCH_LEN as int) =~= call@);
        assert(back@.subrange(0, BRANCH_LEN as int) =~= back@);
        let patch = Patch {
            module: self,
            trampoline,
            offset,
            backup_bytes: code,
            enabled: new_flag(false),
        };
        (patch, image)
    }
}

impl Patch {
    /// Enables the patch. A disabled patch becomes enabled, and the result is
    /// the `jmp` to the trampoline to write over the function; an enabled one
    /// is left as it is and the result is [`Error::Patch`].
    pub fn enable(&mut self) -> (r: Result<CodeWrite, Error>)
        ensures
            old(self)@.enabled ==> (r matches Err(e) && e@ == spec_patch_error(old(self)@)) 
                && final(self)@ == old(self)@,
            !old(self)@.enabled ==> (r matches Ok(w) && w.address == spec_code_address(old(self)@)
                && w.bytes@ == spec_enable_bytes(old(self)@)) && final(self)@ == spec_with_enabled(
                old(self)@,
                true,
            ),
            old(self)@.enabled ==> (r matches Err(e) && e@ == (ErrorView::Patch {
                module_name: old(self)@.module.name,
                module_base: old(self)@.module.base,
                offset: old(self)@.offset,
            })),
            !old(self)@.enabled ==> (r matches Ok(w) && w.address == old(self)@.module.base + old(
                self,
            )@.offset && w.bytes@.len() == 5 && w.bytes@[0] == 0xE9 && spec_le32_value(
                w.bytes@.subrange(1, 5),
            ) == (old(self)@.trampoline - (old(self)@.module.base + old(self)@.offset + 5))
                % 0x1_0000_0000),
            !old(self)@.enabled ==> final(self)@.enabled && final(self)@.module == old(self)@.module
                && final(self)@.trampoline == old(self)@.trampoline && final(self)@.offset == old(
                self,
            )@.offset && final(self)@.backup == old(self)@.backup,
    {
        proof {
            use_type_invariant(&*self);
        }
        let exchanged = flag_compare_exchange(&mut self.enabled, false, true);
        if exchanged.is_err() {
            return Err(
                Error::Patch {
                    module_name: copy_bytes(&self.module.name),
                    module_base: self.module.base,
                    offset: self.offset,
                },
            );
        }
        let code_address = self.module.base + self.offset;
        proof {
            lemma_enable_bytes(self@);
            lemma_with_enabled(old(self)@, true);
        }
        Ok(CodeWrite { address: code_address, bytes: branch(JMP_REL32, code_address, self.trampoline) })
    }

    /// Disables the patch. An enabled patch becomes disabled, and the result
    /// is the saved bytes of the function to write back over the function; a disabled
    /// one is left as it is and the result is [`Error::Patch`].
    pub fn disable(&mut self) -> (r: Result<CodeWrite, Error>)
        ensures
            !old(self)@.enabled ==> (r matches Err(e) && e@ == spec_patch_error(old(self)@))
                && final(self)@ == old(self)@,
            old(self)@.enabled ==> (r matches Ok(w) && w.address == spec_code_address(old(self)@)
                && w.bytes@ == old(self)@.backup) && final(self)@ == spec_with_enabled(
                old(self)@,
                false,
            ),
            !old(self)@.enabled ==> (r matches Err(e) && e@ == (ErrorView::Patch {
                module_name: old(self)@.module.name,
                module_base: old(self)@.module.base,
                offset: old(self)@.offset,
            })),
            old(self)@.enabled ==> (r matches Ok(w) && w.address == old(self)@.module.base + old(
                self,
            )@.offset),
            old(self)@.enabled ==> !final(self)@.enabled && final(self)@.module == old(self)@.module
                && final(self)@.trampoline == old(self)@.trampoline && final(self)@.offset == old(
                self,
            )@.offset && final(self)@.backup == old(self)@.backup,
    {
        proof {
            use_type_invariant(&*self);
        }
        let exchanged = flag_compare_exchange(&mut self.enabled, true, false);
        if exchanged.is_err() {
            return Err(
                Error::Patch {
                    module_name: copy_bytes(&self.module.name),
                    module_base: self.module.base,
                    offset: self.offset,
                },
            );
        }
        proof {
            lemma_enable_bytes(self@);
            lemma_with_enabled(old(self)@, false);
        }
        Ok(
            CodeWrite {
                address: self.module.base + self.offset,
                bytes: copy_bytes(&self.backup_bytes),
            },
        )
    }

    /// Whether the patch is enabled.
    pub fn enabled(&self) -> (r: bool)
        ensures
            r == self@.enabled,
    {
        proof {
            use_type_invariant(self);
        }
        flag_load(&self.enabled)
    }

    /// The patched module.
    pub fn module(&self) -> (r: &Module)
        ensures
            r@ == self@.module,
    {
        &self.module
    }

    /// The address of the trampoline.
    pub fn trampoline(&self) -> (r: usize)
        ensures
            r == self@.trampoline,
    {
        self.trampoline
    }

    /// The offset of the patched function in the module.
    pub fn offset(&self) -> (r: usize)
        ensures
            r == self@.offset,
    {
        self.offset
    }

    /// The saved first bytes of the function.
    pub fn backup_bytes(&self) -> (r: &Vec<u8>)
        ensures
            r@ == self@.backup,
    {
        &self.backup_bytes
    }
}

/// Enabling a disabled patch and then disabling it again leaves the patch as
/// it was and puts back every byte of the function that the enable overwrote,
/// when at least a whole `jmp` was saved.
pub proof fn lemma_enable_then_disable_restores(p: PatchView, mem: Map<int, u8>)
    requires
        !p.enabled,
        p.backup.len() >= BRANCH_LEN,
        spec_holds(mem, spec_code_address(p), p.backup),
    ensures
        spec_with_enabled(spec_with_enabled(p, true), false) == p,
        spec_apply_write(
            spec_apply_write(mem, spec_code_address(p), spec_enable_bytes(p)),
            spec_code_address(p),
            p.backup,
        ) == mem,
{
    let c = spec_code_address(p);
    let after = spec_apply_write(
        spec_apply_write(mem, c, spec_enable_bytes(p)),
        c,
        p.backup,
    );
    assert forall|a: int| #[trigger] after.dom().contains(a) == mem.dom().contains(a) by {
        if c <= a < c + p.backup.len() {
            assert(mem[c + (a - c)] == p.backup[a - c]);
            assert(mem.dom().contains(c + (a - c)));
        }
    }
    assert forall|a: int| after.dom().contains(a) implies #[trigger] after[a] == mem[a] by {
        if c <= a < c + p.backup.len() {
            assert(mem[c + (a - c)] == p.backup[a - c]);
        }
    }
    assert(after =~= mem);
}

/// With the patch enabled, a call of the function jumps into the trampoline,
/// which runs the saved bytes, calls `target`, and jumps back behind the saved
/// bytes, when each branch is within 2 GiB of its destination.
pub proof fn lemma_hook_control_flow(p: PatchView, target: int)
    requires
        in_rel32_reach(spec_code_address(p) + BRANCH_LEN, p.trampoline as int),
        in_rel32_reach(p.trampoline + p.backup.len() + BRANCH_LEN, target),
        in_rel32_reach(
            p.trampoline + p.backup.len() + 2 * BRANCH_LEN,
            spec_code_address(p) + p.backup.len(),
        ),
    ensures
        spec_enable_bytes(p)[0] == JMP_REL32,
        spec_branch_target(spec_enable_bytes(p), spec_code_address(p)) == p.trampoline,
        ({
            let t = spec_trampoline(p.backup, p.trampoline as int, target, spec_code_address(p));
            let n = p.backup.len() as int;
            &&& t.len() == n + 2 * BRANCH_LEN
            &&& t.subrange(0, n) == p.backup
            &&& t[n] == CALL_REL32
            &&& spec_branch_target(t.subrange(n, n + BRANCH_LEN), p.trampoline + n) == target
            &&& t[n + BRANCH_LEN] == JMP_REL32
            &&& spec_branch_target(
                t.subrange(n + BRANCH_LEN, n + 2 * BRANCH_LEN),
                p.trampoline + n + BRANCH_LEN,
            ) == spec_code_address(p) + n
        }),
{
    let c = spec_code_address(p);
    let n = p.backup.len() as int;
    let tr = p.trampoline as int;
    lemma_branch_lands(JMP_REL32, c, tr);
    lemma_branch_lands(CALL_REL32, tr + n, target);
    lemma_branch_lands(JMP_REL32, tr + n + BRANCH_LEN, c + n);
    let call = spec_branch(CALL_REL32, tr + n, target);
    let back = spec_branch(JMP_REL32, tr + n + BRANCH_LEN, c + n);
    let t = spec_trampoline(p.backup, tr, target, c);
    assert(t =~= p.backup + call + back);
    assert(t.subrange(0, n) =~= p.backup);
    assert(t.subrange(n, n + BRANCH_LEN) =~= call);
    assert(t.subrange(n + BRANCH_LEN, n + 2 * BRANCH_LEN) =~= back);
}

/// The patched function is at the module's base plus the patch's offset, and
/// what enabling writes there is a `jmp` (`0xE9`) whose little-endian
/// displacement is the trampoline's address minus the address behind the
/// five-byte `jmp`, modulo 2^32; the processor takes it to the trampoline
/// whenever the trampoline is within 2 GiB.
pub proof fn lemma_enable_bytes(p: PatchView)
    ensures
        spec_code_address(p) == p.module.base + p.offset,
        spec_enable_bytes(p).len() == 5,
        spec_enable_bytes(p)[0] == 0xE9,
        spec_le32_value(spec_enable_bytes(p).subrange(1, 5)) == (p.trampoline - (p.module.base
            + p.offset + 5)) % 0x1_0000_0000,
        in_rel32_reach(p.module.base + p.offset + 5, p.trampoline as int) ==> spec_branch_target(
            spec_enable_bytes(p),
            p.module.base + p.offset,
        ) == p.trampoline,
{
    let c = p.module.base + p.offset;
    let disp = spec_rel32(c + BRANCH_LEN, p.trampoline as int);
    lemma_le32_roundtrip(disp);
    assert(spec_enable_bytes(p).subrange(1, 5) =~= crate::encode::spec_le32(disp));
    let d = p.trampoline - (c + 5);
    vstd::arithmetic::div_mod::lemma_mod_bound(d, 0x1_0000_0000);
    if in_rel32_reach(c + 5, p.trampoline as int) {
        lemma_branch_lands(JMP_REL32, c, p.trampoline as int);
    }
}

/// Toggling the flag of a patch sets it to the value asked for and keeps the
/// module, the trampoline, the offset and the saved bytes.
pub proof fn lemma_with_enabled(p: PatchView, enabled: bool)
    ensures
        spec_with_enabled(p, enabled).enabled == enabled,
        spec_with_enabled(p, enabled).module == p.module,
        spec_with_enabled(p, enabled).trampoline == p.trampoline,
        spec_with_enabled(p, enabled).offset == p.offset,
        spec_with_enabled(p, enabled).backup == p.backup,
        spec_with_enabled(spec_with_enabled(p, !enabled), enabled) == spec_with_enabled(p, enabled),
{
}

} // verus!
