//! Decoding of the 16-bit opcode word: the instruction class (top nibble),
//! the register indices `x` and `y`, and the immediates `n`, `nn`, `nnn`.

use vstd::prelude::*;

verus! {

/// The instruction class: the opcode with everything but the top nibble masked off.
pub open spec fn op_class(op: u16) -> u16 {
    op & 0xF000
}

/// Register index `x`: bits 8..12 of the opcode.
pub open spec fn op_x(op: u16) -> u16 {
    (op & 0x0F00) >> 8
}

/// Register index `y`: bits 4..8 of the opcode.
pub open spec fn op_y(op: u16) -> u16 {
    (op & 0x00F0) >> 4
}

/// Four-bit immediate `n`: the low nibble.
pub open spec fn op_n(op: u16) -> u16 {
    op & 0x000F
}

/// Eight-bit immediate `nn`: the low byte.
pub open spec fn op_nn(op: u16) -> u16 {
    op & 0x00FF
}

/// Twelve-bit address `nnn`: the low three nibbles.
pub open spec fn op_nnn(op: u16) -> u16 {
    op & 0x0FFF
}

/// Big-endian composition of the two memory bytes at PC and PC+1.
pub open spec fn compose_opcode(b0: u8, b1: u8) -> u16 {
    ((b0 as u16) << 8) | (b1 as u16)
}

/// Ranges of the decoded fields.
pub proof fn lemma_decode_bounds(op: u16)
    ensures
        op_x(op) < 16,
        op_y(op) < 16,
        op_n(op) < 16,
        op_nn(op) < 256,
        op_nnn(op) < 4096,
{
    assert((op & 0x0F00) >> 8 < 16 && (op & 0x00F0) >> 4 < 16 && op & 0x000F < 16 && op & 0x00FF
        < 256 && op & 0x0FFF < 4096) by (bit_vector);
}

/// The instruction class is one of the sixteen top-nibble values, and the
/// two assigned opcodes of class zero really sit in class zero.
pub proof fn lemma_class_split(op: u16)
    ensures
        op_class(op) == 0x0000 || op_class(op) == 0x1000 || op_class(op) == 0x2000 || op_class(op)
            == 0x3000 || op_class(op) == 0x4000 || op_class(op) == 0x5000 || op_class(op) == 0x6000
            || op_class(op) == 0x7000 || op_class(op) == 0x8000 || op_class(op) == 0x9000
            || op_class(op) == 0xA000 || op_class(op) == 0xB000 || op_class(op) == 0xC000
            || op_class(op) == 0xD000 || op_class(op) == 0xE000 || op_class(op) == 0xF000,
        op == 0x00E0 ==> op_class(op) == 0x0000,
        op == 0x00EE ==> op_class(op) == 0x0000,
{
    assert((op & 0xF000 == 0x0000 || op & 0xF000 == 0x1000 || op & 0xF000 == 0x2000 || op & 0xF000
        == 0x3000 || op & 0xF000 == 0x4000 || op & 0xF000 == 0x5000 || op & 0xF000 == 0x6000 || op
        & 0xF000 == 0x7000 || op & 0xF000 == 0x8000 || op & 0xF000 == 0x9000 || op & 0xF000
        == 0xA000 || op & 0xF000 == 0xB000 || op & 0xF000 == 0xC000 || op & 0xF000 == 0xD000 || op
        & 0xF000 == 0xE000 || op & 0xF000 == 0xF000) && (op == 0x00E0 ==> op & 0xF000 == 0x0000)
        && (op == 0x00EE ==> op & 0xF000 == 0x0000)) by (bit_vector);
}

/// The composed opcode is the big-endian value of the byte pair: for every
/// `b0` and `b1` it equals `(b0 << 8) | b1`, that is, `256 * b0 + b1`.
pub proof fn lemma_compose_opcode(b0: u8, b1: u8)
    ensures
        compose_opcode(b0, b1) == 256 * (b0 as int) + (b1 as int),
{
    assert((((b0 as u16) << 8) | (b1 as u16)) == (b0 as u16) * 256 + (b1 as u16)) by (bit_vector);
}

} // verus!
