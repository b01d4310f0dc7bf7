//! Encoding of x86 `jmp rel32` / `call rel32` instructions.
//!
//! A rel32 branch is five bytes: an opcode followed by a little-endian
//! 32-bit displacement, counted from the address of the next instruction.
//! Addresses are taken modulo 2^32 in the displacement, which is how the
//! hook code writes them.

use vstd::prelude::*;
use vstd::arithmetic::div_mod::lemma_fundamental_div_mod;
use vstd::arithmetic::div_mod::lemma_fundamental_div_mod_converse;

verus! {

/// Opcode of `jmp rel32`.
pub const JMP_REL32: u8 = 0xE9;

/// Opcode of `call rel32`.
pub const CALL_REL32: u8 = 0xE8;

/// Length in bytes of a rel32 branch instruction.
pub const BRANCH_LEN: usize = 5;

/// The displacement field of a rel32 branch whose following instruction starts
/// at `next` and which lands at `dest`, reduced modulo 2^32.
pub open spec fn spec_rel32(next: int, dest: int) -> u32 {
    ((dest - next) % 0x1_0000_0000) as u32
}

/// The four little-endian bytes of `v`.
pub open spec fn spec_le32(v: u32) -> Seq<u8> {
    seq![
        (v % 0x100) as u8,
        ((v / 0x100) % 0x100) as u8,
        ((v / 0x1_0000) % 0x100) as u8,
        (v / 0x100_0000) as u8,
    ]
}

/// The bytes of a rel32 branch with the given opcode, placed at address `at`,
/// that transfers control to `dest`.
pub open spec fn spec_branch(opcode: u8, at: int, dest: int) -> Seq<u8> {
    seq![opcode] + spec_le32(spec_rel32(at + BRANCH_LEN, dest))
}

/// The unsigned value of four little-endian bytes.
pub open spec fn spec_le32_value(b: Seq<u8>) -> int {
    b[0] + 0x100 * b[1] + 0x1_0000 * b[2] + 0x100_0000 * b[3]
}

/// Reads a 32-bit unsigned value as a two's complement signed one.
pub open spec fn spec_sign_extend32(v: int) -> int {
    if v < 0x8000_0000 {
        v
    } else {
        v - 0x1_0000_0000
    }
}

/// Where a rel32 branch whose bytes are `code`, placed at `at`, transfers control,
/// as the processor decodes it.
pub open spec fn spec_branch_target(code: Seq<u8>, at: int) -> int {
    at + BRANCH_LEN + spec_sign_extend32(spec_le32_value(code.subrange(1, 5)))
}

/// Whether `dest` is within reach of a rel32 branch whose next instruction is at `next`.
pub open spec fn in_rel32_reach(next: int, dest: int) -> bool {
    -0x8000_0000 <= dest - next < 0x8000_0000
}

proof fn lemma_negative_mod(k: int, m: int)
    requires
        k > 0,
    ensures
        (-k) % 0x1_0000_0000 == (if m == 0 { 0 } else { 0x1_0000_0000 - m }) <== m
            == k % 0x1_0000_0000,
{
    if m == k % 0x1_0000_0000 {
        let d: int = 0x1_0000_0000;
        lemma_fundamental_div_mod(k, d);
        let q = k / d;
        assert(k == d * q + m);
        if m == 0 {
            assert(-k == (-q) * d + 0) by (nonlinear_arith)
                requires
                    k == d * q + m,
                    m == 0,
            ;
            lemma_fundamental_div_mod_converse(-k, d, -q, 0);
        } else {
            assert(0 < m < d) by {
                vstd::arithmetic::div_mod::lemma_mod_pos_bound(k, d);
            }
            assert(-k == (-q - 1) * d + (d - m)) by (nonlinear_arith)
                requires
                    k == d * q + m,
            ;
            lemma_fundamental_div_mod_converse(-k, d, -q - 1, d - m);
        }
    }
}

/// The displacement field of a rel32 branch from `next` to `dest`, modulo 2^32.
pub fn rel32(next: usize, dest: usize) -> (r: u32)
    ensures
        r == spec_rel32(next as int, dest as int),
{
    if dest >= next {
        let d: u64 = (dest - next) as u64;
        (d % 0x1_0000_0000) as u32
    } else {
        let k: u64 = (next - dest) as u64;
        let m: u64 = k % 0x1_0000_0000;
        proof {
            lemma_negative_mod(k as int, m as int);
        }
        if m == 0 {
            0
        } else {
            (0x1_0000_0000 - m) as u32
        }
    }
}

/// Appends the four little-endian bytes of `v` to `out`.
pub fn push_le32(out: &mut Vec<u8>, v: u32)
    ensures
        final(out)@ == old(out)@ + spec_le32(v),
{
    out.push((v % 0x100) as u8);
    out.push(((v / 0x100) % 0x100) as u8);
    out.push(((v / 0x1_0000) % 0x100) as u8);
    out.push((v / 0x100_0000) as u8);
    assert(final(out)@ =~= old(out)@ + spec_le32(v));
}

/// The five bytes of a rel32 branch with opcode `opcode`, placed at `at`,
/// that lands at `dest`.
pub fn branch(opcode: u8, at: usize, dest: usize) -> (r: Vec<u8>)
    requires
        at + BRANCH_LEN <= usize::MAX,
    ensures
        r@ == spec_branch(opcode, at as int, dest as int),
        r@.len() == BRANCH_LEN,
{
    let mut out: Vec<u8> = Vec::new();
    out.push(opcode);
    let disp = rel32(at + BRANCH_LEN, dest);
    push_le32(&mut out, disp);
    assert(out@ =~= spec_branch(opcode, at as int, dest as int));
    out
}

/// Four little-endian bytes read back give the value they were written from.
pub proof fn lemma_le32_roundtrip(v: u32)
    ensures
        spec_le32(v).len() == 4,
        spec_le32_value(spec_le32(v)) == v,
{
    let b = spec_le32(v);
    let b0: u8 = b[0];
    let b1: u8 = b[1];
    let b2: u8 = b[2];
    let b3: u8 = b[3];
    assert(b0 == v % 0x100 && b1 == (v / 0x100) % 0x100 && b2 == (v / 0x1_0000) % 0x100 && b3
        == v / 0x100_0000);
    assert(b0 + 0x100 * b1 + 0x1_0000 * b2 + 0x100_0000 * b3 == v) by (bit_vector)
        requires
            b0 == v % 0x100,
            b1 == (v / 0x100) % 0x100,
            b2 == (v / 0x1_0000) % 0x100,
            b3 == v / 0x100_0000,
    ;
}

/// A rel32 branch encoded from `at` to `dest` is decoded by the processor as a
/// branch to `dest`, whenever `dest` lies within 2 GiB of the next instruction.
pub proof fn lemma_branch_lands(opcode: u8, at: int, dest: int)
    requires
        in_rel32_reach(at + BRANCH_LEN, dest),
    ensures
        spec_branch(opcode, at, dest).len() == BRANCH_LEN,
        spec_branch(opcode, at, dest)[0] == opcode,
        spec_branch_target(spec_branch(opcode, at, dest), at) == dest,
{
    let next = at + BRANCH_LEN;
    let disp = spec_rel32(next, dest);
    lemma_le32_roundtrip(disp);
    let code = spec_branch(opcode, at, dest);
    assert(code.subrange(1, 5) =~= spec_le32(disp));
    let diff = dest - next;
    let d: int = 0x1_0000_0000;
    if diff >= 0 {
        lemma_fundamental_div_mod_converse(diff, d, 0, diff);
    } else {
        lemma_fundamental_div_mod_converse(diff, d, -1, diff + d);
    }
}

} // verus!
