//! Operand extraction from a 16-bit instruction word.
use vstd::prelude::*;

verus! {

/// The 12-bit address operand `nnn`.
pub open spec fn addr_of(op: u16) -> u16 {
    op & 0x0fff
}

/// The first register operand `x`.
pub open spec fn x_of(op: u16) -> u16 {
    (op >> 8u16) & 0x0f
}

/// The second register operand `y`.
pub open spec fn y_of(op: u16) -> u16 {
    (op >> 4u16) & 0x0f
}

/// The 8-bit immediate operand `kk`.
pub open spec fn byte_of(op: u16) -> u16 {
    op & 0x00ff
}

/// The low nibble `n`.
pub open spec fn nibble_of(op: u16) -> u16 {
    op & 0x000f
}

/// The instruction group: the high nibble, kept in place.
pub open spec fn group_of(op: u16) -> u16 {
    op & 0xf000
}

/// Facts about the operand ranges that every decoder result obeys.
pub proof fn lemma_operand_ranges(op: u16)
    ensures
        addr_of(op) < 0x1000,
        x_of(op) < 16,
        y_of(op) < 16,
        byte_of(op) < 0x100,
        nibble_of(op) < 16,
        nibble_of(byte_of(op)) == nibble_of(op),
        op == 0x00E0 || op == 0x00EE ==> group_of(op) == 0,
{
    assert(op & 0x0fff < 0x1000) by (bit_vector);
    assert((op >> 8u16) & 0x0f < 16) by (bit_vector);
    assert((op >> 4u16) & 0x0f < 16) by (bit_vector);
    assert(op & 0x00ff < 0x100) by (bit_vector);
    assert(op & 0x000f < 16) by (bit_vector);
    assert((op & 0x00ff) & 0x000f == op & 0x000f) by (bit_vector);
    assert(op == 0x00E0 || op == 0x00EE ==> op & 0xf000 == 0) by (bit_vector);
}

/// Extracts the address operand `nnn` (the low 12 bits).
pub fn _get_nnn(opcode: u16) -> (r: u16)
    ensures
        r == addr_of(opcode),
        r < 0x1000,
{
    proof {
        lemma_operand_ranges(opcode);
    }
    opcode & 0x0fff
}

/// Extracts the first register index `x` (bits 8 to 11).
pub fn _get_x(opcode: u16) -> (r: u16)
    ensures
        r == x_of(opcode),
        r < 16,
{
    proof {
        lemma_operand_ranges(opcode);
    }
    (opcode >> 8) & 0x0f
}

/// Extracts the second register index `y` (bits 4 to 7).
pub fn _get_y(opcode: u16) -> (r: u16)
    ensures
        r == y_of(opcode),
        r < 16,
{
    proof {
        lemma_operand_ranges(opcode);
    }
    (opcode >> 4) & 0x0f
}

/// Extracts the immediate byte `kk` (the low 8 bits).
pub fn _get_kk(opcode: u16) -> (r: u16)
    ensures
        r == byte_of(opcode),
        r < 0x100,
{
    proof {
        lemma_operand_ranges(opcode);
    }
    opcode & 0x00ff
}

/// Extracts the low nibble `n`.
pub fn _get_last(opcode: u16) -> (r: u16)
    ensures
        r == nibble_of(opcode),
        r < 16,
{
    proof {
        lemma_operand_ranges(opcode);
    }
    opcode & 0x000f
}

} // verus!
