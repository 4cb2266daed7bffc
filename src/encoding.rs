//! Instruction words of the handful of PowerPC forms that patches use.

use vstd::prelude::*;

verus! {

/// Primary opcode of the relative and absolute branch instructions.
pub const BRANCH_OPCODE: u32 = 18;

/// Mask of the 24-bit word displacement field of a branch, in place.
pub const BRANCH_DISPLACEMENT_MASK: u32 = 0x03FF_FFFC;

/// The canonical no-op, `ori r0, r0, 0`.
pub const NOP_WORD: u32 = 0x6000_0000;

/// Primary opcode field of `addis`, in place.
pub const ADDIS_WORD: u32 = 0x3C00_0000;

/// The displacement that a branch at `address` to `destination` carries:
/// the destination itself when absolute, else the two's-complement distance.
pub open spec fn branch_displacement(address: u32, destination: u32, aa: bool) -> u32 {
    if aa {
        destination
    } else {
        destination.wrapping_sub(address)
    }
}

/// The word of `b`, `ba`, `bl` or `bla`.
pub open spec fn branch_word(address: u32, destination: u32, aa: bool, lk: bool) -> u32 {
    (BRANCH_OPCODE << 26u32) | (BRANCH_DISPLACEMENT_MASK & branch_displacement(address, destination, aa))
        | ((if aa { 1u32 } else { 0u32 }) << 1u32) | (if lk { 1u32 } else { 0u32 })
}

/// The word of `addis rD, rA, imm`.
pub open spec fn addis_word(reg_d: u8, reg_a: u8, imm: i16) -> u32 {
    ADDIS_WORD | (((reg_d as u32) & 0x1F) << 21u32) | (((reg_a as u32) & 0x1F) << 16u32) | ((
    imm as u16) as u32)
}

/// Encodes a branch from `address` to `destination`; `aa` selects absolute
/// addressing and `lk` makes it a call that sets the link register.
pub fn build_branch_instruction(address: u32, destination: u32, aa: bool, lk: bool) -> (r: u32)
    ensures
        r == branch_word(address, destination, aa, lk),
        r >> 26u32 == BRANCH_OPCODE,
        r & BRANCH_DISPLACEMENT_MASK == branch_displacement(address, destination, aa)
            & BRANCH_DISPLACEMENT_MASK,
        (r & 2 != 0) == aa,
        (r & 1 != 0) == lk,
{
    let bits_dest = if aa {
        destination
    } else {
        destination.wrapping_sub(address)
    };
    let bits_aa: u32 = if aa { 1 } else { 0 };
    let bits_lk: u32 = if lk { 1 } else { 0 };
    let r = (BRANCH_OPCODE << 26u32) | (BRANCH_DISPLACEMENT_MASK & bits_dest) | (bits_aa << 1u32)
        | bits_lk;
    proof {
        assert(r >> 26u32 == 18u32 && r & 0x03FF_FFFCu32 == bits_dest & 0x03FF_FFFCu32 && (r & 2
            != 0) == (bits_aa == 1) && (r & 1 != 0) == (bits_lk == 1)) by (bit_vector)
            requires
                r == (18u32 << 26u32) | (0x03FF_FFFCu32 & bits_dest) | (bits_aa << 1u32) | bits_lk,
                bits_aa <= 1,
                bits_lk <= 1,
        ;
    }
    r
}

/// Encodes `addis rD, rA, imm`: `rD = rA + (imm << 16)`, or `imm << 16` when
/// `rA` is 0. Register numbers keep their low five bits.
pub fn build_addis_instruction(reg_d: u8, reg_a: u8, imm: i16) -> (r: u32)
    ensures
        r == addis_word(reg_d, reg_a, imm),
        r >> 26u32 == 15,
        (r >> 21u32) & 0x1F == (reg_d as u32) & 0x1F,
        (r >> 16u32) & 0x1F == (reg_a as u32) & 0x1F,
        r & 0xFFFF == (imm as u16) as u32,
{
    let d = reg_d as u32;
    let a = reg_a as u32;
    let i = (imm as u16) as u32;
    let r = ADDIS_WORD | ((d & 0x1F) << 21u32) | ((a & 0x1F) << 16u32) | i;
    proof {
        assert(r >> 26u32 == 15 && (r >> 21u32) & 0x1F == d & 0x1F && (r >> 16u32) & 0x1F == a
            & 0x1F && r & 0xFFFF == i) by (bit_vector)
            requires
                r == 0x3C00_0000u32 | ((d & 0x1F) << 21u32) | ((a & 0x1F) << 16u32) | i,
                i <= 0xFFFF,
        ;
    }
    r
}

/// Encodes `lis rD, imm`, the `addis` form with `rA` = 0.
pub fn build_lis_instruction(register: u8, imm: i16) -> (r: u32)
    ensures
        r == addis_word(register, 0, imm),
{
    build_addis_instruction(register, 0, imm)
}

} // verus!
