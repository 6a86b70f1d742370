//! The instruction handlers. Each one reads the current opcode word from the
//! machine, performs exactly one instruction, and advances the program
//! counter itself: +2 normally, +4 on a taken skip, or an absolute assignment
//! for jumps, calls and returns.
//!
//! Every handler runs only after the caller has validated the fetch address
//! and the instruction's own memory and stack conditions (`requires`); the
//! dispatcher in `crate::vm` performs those checks and surfaces the fatal
//! conditions instead.

use vstd::prelude::*;

use crate::decode::{lemma_decode_bounds, op_n, op_nn, op_nnn, op_x, op_y};
use crate::screen::{
    before, draw_collision, draw_seq, lemma_pix_forward, lemma_pix_inverse, partial_collision,
    partial_pixel, pix_index, row_bit,
};
use crate::vm::{
    frame_delay_pc, frame_i_pc, frame_pc, frame_ram_pc, frame_screen_pc, frame_screen_v_pc,
    frame_sound_pc, frame_sp_pc, frame_stack_pc, frame_v_pc, Vm,
};
use rand::Rng;

verus! {

/// The wrapped 8-bit sum.
pub open spec fn sum8(a: u8, b: u8) -> u8 {
    ((a + b) % 256) as u8
}

/// The carry flag of an 8-bit addition: 1 exactly when the unsigned sum
/// exceeds 255.
pub open spec fn carry8(a: u8, b: u8) -> u8 {
    if a + b > 255 {
        1u8
    } else {
        0u8
    }
}

/// The wrapped 8-bit difference `a - b`.
pub open spec fn diff8(a: u8, b: u8) -> u8 {
    ((a + 256 - b) % 256) as u8
}

/// The no-borrow flag of an 8-bit subtraction `a - b`: 1 exactly when the
/// minuend is at least the subtrahend.
pub open spec fn noborrow8(a: u8, b: u8) -> u8 {
    if a >= b {
        1u8
    } else {
        0u8
    }
}

/// Bit 0 of a byte.
pub open spec fn lsb8(a: u8) -> u8 {
    (a % 2) as u8
}

/// Bit 7 of a byte.
pub open spec fn msb8(a: u8) -> u8 {
    (a / 128) as u8
}

/// The wrapped 8-bit left shift by one.
pub open spec fn shl8(a: u8) -> u8 {
    ((2 * a) % 256) as u8
}

/// Memory after V0..Vx inclusive were copied to addresses i..i+x.
pub open spec fn write_regs(ram: Seq<u8>, v: Seq<u8>, i: int, x: int) -> Seq<u8> {
    Seq::new(ram.len(), |a: int| if i <= a <= i + x { v[a - i] } else { ram[a] })
}

/// Registers after V0..Vx inclusive were filled from addresses i..i+x.
pub open spec fn read_regs(v: Seq<u8>, ram: Seq<u8>, i: int, x: int) -> Seq<u8> {
    Seq::new(v.len(), |k: int| if 0 <= k <= x { ram[i + k] } else { v[k] })
}

/// Dumping V0..Vx to memory and immediately loading the same range back
/// reproduces the registers exactly.
pub proof fn lemma_dump_load_round_trip(v: Seq<u8>, ram: Seq<u8>, i: int, x: int)
    requires
        v.len() == 16,
        ram.len() == 4096,
        0 <= x < 16,
        0 <= i,
        i + x < 4096,
    ensures
        read_regs(v, write_regs(ram, v, i, x), i, x) == v,
{
    assert(read_regs(v, write_regs(ram, v, i, x), i, x) =~= v);
}

/// 00E0: clear the screen and set the dirty flag.
pub open spec fn cls_rel(pre: Vm, post: Vm) -> bool {
    &&& frame_screen_pc(pre, post)
    &&& post.screen@.len() == 2048
    &&& forall|p: int| 0 <= p < 2048 ==> post.screen@[p] == 0
    &&& post.draw_flag
    &&& post.pc == pre.pc + 2
}

pub fn cls(vm: &mut Vm)
    requires
        old(vm).wf(),
        old(vm).pc <= 4094,
    ensures
        final(vm).wf(),
        cls_rel(*old(vm), *final(vm)),
{
    vm.screen = crate::vm::filled(2048, 0u8);
    vm.draw_flag = true;
    vm.pc = vm.pc + 2;
}

/// 00EE: return from a subroutine. The popped entry is the address of the
/// call instruction, so execution resumes at the instruction after it.
pub open spec fn ret_rel(pre: Vm, post: Vm) -> bool {
    &&& frame_sp_pc(pre, post)
    &&& post.sp == pre.sp - 1
    &&& post.pc == pre.stack@[pre.sp - 1] + 2
}

pub fn ret(vm: &mut Vm)
    requires
        old(vm).wf(),
        old(vm).pc <= 4094,
        old(vm).sp >= 1,
    ensures
        final(vm).wf(),
        ret_rel(*old(vm), *final(vm)),
{
    vm.sp = vm.sp - 1;
    vm.pc = vm.stack[vm.sp as usize] + 2;
}

/// 1NNN: jump to address nnn.
pub open spec fn jp_addr_rel(pre: Vm, post: Vm) -> bool {
    &&& frame_pc(pre, post)
    &&& post.pc == op_nnn(pre.opcode)
}

pub fn jp_addr(vm: &mut Vm)
    requires
        old(vm).wf(),
        old(vm).pc <= 4094,
    ensures
        final(vm).wf(),
        jp_addr_rel(*old(vm), *final(vm)),
{
    vm.pc = vm.opcode & 0x0FFF;
}

/// 2NNN: push the current program counter and jump to the subroutine at nnn.
pub open spec fn call_addr_rel(pre: Vm, post: Vm) -> bool {
    &&& frame_stack_pc(pre, post)
    &&& post.stack@ == pre.stack@.update(pre.sp as int, pre.pc)
    &&& post.sp == pre.sp + 1
    &&& post.pc == op_nnn(pre.opcode)
}

pub fn call_addr(vm: &mut Vm)
    requires
        old(vm).wf(),
        old(vm).pc <= 4094,
        old(vm).sp < 16,
    ensures
        final(vm).wf(),
        call_addr_rel(*old(vm), *final(vm)),
{
    vm.stack[vm.sp as usize] = vm.pc;
    vm.sp = vm.sp + 1;
    vm.pc = vm.opcode & 0x0FFF;
}

/// 3XNN: skip the next instruction if Vx equals nn.
pub open spec fn se_vx_byte_rel(pre: Vm, post: Vm) -> bool {
    &&& frame_pc(pre, post)
    &&& post.pc == (if pre.v@[op_x(pre.opcode) as int] == op_nn(pre.opcode) as u8 {
        pre.pc + 4
    } else {
        pre.pc + 2
    })
}

pub fn se_vx_byte(vm: &mut Vm)
    requires
        old(vm).wf(),
        old(vm).pc <= 4094,
    ensures
        final(vm).wf(),
        se_vx_byte_rel(*old(vm), *final(vm)),
{
    proof {
        lemma_decode_bounds(vm.opcode);
    }
    let x = ((vm.opcode & 0x0F00) >> 8) as usize;
    if vm.v[x] == (vm.opcode & 0x00FF) as u8 {
        vm.pc = vm.pc + 4;
    } else {
        vm.pc = vm.pc + 2;
    }
}

/// 4XNN: skip the next instruction if Vx does not equal nn.
pub open spec fn sne_vx_byte_rel(pre: Vm, post: Vm) -> bool {
    &&& frame_pc(pre, post)
    &&& post.pc == (if pre.v@[op_x(pre.opcode) as int] != op_nn(pre.opcode) as u8 {
        pre.pc + 4
    } else {
        pre.pc + 2
    })
}

pub fn sne_vx_byte(vm: &mut Vm)
    requires
        old(vm).wf(),
        old(vm).pc <= 4094,
    ensures
        final(vm).wf(),
        sne_vx_byte_rel(*old(vm), *final(vm)),
{
    proof {
        lemma_decode_bounds(vm.opcode);
    }
    let x = ((vm.opcode & 0x0F00) >> 8) as usize;
    if vm.v[x] != (vm.opcode & 0x00FF) as u8 {
        vm.pc = vm.pc + 4;
    } else {
        vm.pc = vm.pc + 2;
    }
}

/// 5XY0: skip the next instruction if Vx equals Vy.
pub open spec fn se_vx_vy_rel(pre: Vm, post: Vm) -> bool {
    &&& frame_pc(pre, post)
    &&& post.pc == (if pre.v@[op_x(pre.opcode) as int] == pre.v@[op_y(pre.opcode) as int] {
        pre.pc + 4
    } else {
        pre.pc + 2
    })
}

pub fn se_vx_vy(vm: &mut Vm)
    requires
        old(vm).wf(),
        old(vm).pc <= 4094,
    ensures
        final(vm).wf(),
        se_vx_vy_rel(*old(vm), *final(vm)),
{
    proof {
        lemma_decode_bounds(vm.opcode);
    }
    let x = ((vm.opcode & 0x0F00) >> 8) as usize;
    let y = ((vm.opcode & 0x00F0) >> 4) as usize;
    if vm.v[x] == vm.v[y] {
        vm.pc = vm.pc + 4;
    } else {
        vm.pc = vm.pc + 2;
    }
}

/// 9XY0: skip the next instruction if Vx does not equal Vy.
pub open spec fn sne_vx_vy_rel(pre: Vm, post: Vm) -> bool {
    &&& frame_pc(pre, post)
    &&& post.pc == (if pre.v@[op_x(pre.opcode) as int] != pre.v@[op_y(pre.opcode) as int] {
        pre.pc + 4
    } else {
        pre.pc + 2
    })
}

pub fn sne_vx_vy(vm: &mut Vm)
    requires
        old(vm).wf(),
        old(vm).pc <= 4094,
    ensures
        final(vm).wf(),
        sne_vx_vy_rel(*old(vm), *final(vm)),
{
    proof {
        lemma_decode_bounds(vm.opcode);
    }
    let x = ((vm.opcode & 0x0F00) >> 8) as usize;
    let y = ((vm.opcode & 0x00F0) >> 4) as usize;
    if vm.v[x] != vm.v[y] {
        vm.pc = vm.pc + 4;
    } else {
        vm.pc = vm.pc + 2;
    }
}

/// 6XNN: load the immediate nn into Vx.
pub open spec fn ld_vx_byte_rel(pre: Vm, post: Vm) -> bool {
    &&& frame_v_pc(pre, post)
    &&& post.v@ == pre.v@.update(op_x(pre.opcode) as int, op_nn(pre.opcode) as u8)
    &&& post.pc == pre.pc + 2
}

pub fn ld_vx_byte(vm: &mut Vm)
    requires
        old(vm).wf(),
        old(vm).pc <= 4094,
    ensures
        final(vm).wf(),
        ld_vx_byte_rel(*old(vm), *final(vm)),
{
    proof {
        lemma_decode_bounds(vm.opcode);
    }
    let x = ((vm.opcode & 0x0F00) >> 8) as usize;
    vm.v[x] = (vm.opcode & 0x00FF) as u8;
    vm.pc = vm.pc + 2;
}

/// 7XNN: add the immediate nn to Vx, wrapping on 8-bit overflow; no flag.
pub open spec fn add_vx_byte_rel(pre: Vm, post: Vm) -> bool {
    &&& frame_v_pc(pre, post)
    &&& post.v@ == pre.v@.update(
        op_x(pre.opcode) as int,
        sum8(pre.v@[op_x(pre.opcode) as int], op_nn(pre.opcode) as u8),
    )
    &&& post.pc == pre.pc + 2
}

pub fn add_vx_byte(vm: &mut Vm)
    requires
        old(vm).wf(),
        old(vm).pc <= 4094,
    ensures
        final(vm).wf(),
        add_vx_byte_rel(*old(vm), *final(vm)),
{
    proof {
        lemma_decode_bounds(vm.opcode);
    }
    let x = ((vm.opcode & 0x0F00) >> 8) as usize;
    let nn = (vm.opcode & 0x00FF) as u8;
    vm.v[x] = (((vm.v[x] as u16) + (nn as u16)) % 256) as u8;
    vm.pc = vm.pc + 2;
}

/// 8XY0: copy Vy into Vx.
pub open spec fn ld_vx_vy_rel(pre: Vm, post: Vm) -> bool {
    &&& frame_v_pc(pre, post)
    &&& post.v@ == pre.v@.update(op_x(pre.opcode) as int, pre.v@[op_y(pre.opcode) as int])
    &&& post.pc == pre.pc + 2
}

pub fn ld_vx_vy(vm: &mut Vm)
    requires
        old(vm).wf(),
        old(vm).pc <= 4094,
    ensures
        final(vm).wf(),
        ld_vx_vy_rel(*old(vm), *final(vm)),
{
    proof {
        lemma_decode_bounds(vm.opcode);
    }
    let x = ((vm.opcode & 0x0F00) >> 8) as usize;
    let y = ((vm.opcode & 0x00F0) >> 4) as usize;
    vm.v[x] = vm.v[y];
    vm.pc = vm.pc + 2;
}

/// 8XY1: bitwise OR of Vx and Vy into Vx; no flag.
pub open spec fn or_vx_vy_rel(pre: Vm, post: Vm) -> bool {
    &&& frame_v_pc(pre, post)
    &&& post.v@ == pre.v@.update(
        op_x(pre.opcode) as int,
        pre.v@[op_x(pre.opcode) as int] | pre.v@[op_y(pre.opcode) as int],
    )
    &&& post.pc == pre.pc + 2
}

pub fn or_vx_vy(vm: &mut Vm)
    requires
        old(vm).wf(),
        old(vm).pc <= 4094,
    ensures
        final(vm).wf(),
        or_vx_vy_rel(*old(vm), *final(vm)),
{
    proof {
        lemma_decode_bounds(vm.opcode);
    }
    let x = ((vm.opcode & 0x0F00) >> 8) as usize;
    let y = ((vm.opcode & 0x00F0) >> 4) as usize;
    vm.v[x] = vm.v[x] | vm.v[y];
    vm.pc = vm.pc + 2;
}

/// 8XY2: bitwise AND of Vx and Vy into Vx; no flag.
pub open spec fn and_vx_vy_rel(pre: Vm, post: Vm) -> bool {
    &&& frame_v_pc(pre, post)
    &&& post.v@ == pre.v@.update(
        op_x(pre.opcode) as int,
        pre.v@[op_x(pre.opcode) as int] & pre.v@[op_y(pre.opcode) as int],
    )
    &&& post.pc == pre.pc + 2
}

pub fn and_vx_vy(vm: &mut Vm)
    requires
        old(vm).wf(),
        old(vm).pc <= 4094,
    ensures
        final(vm).wf(),
        and_vx_vy_rel(*old(vm), *final(vm)),
{
    proof {
        lemma_decode_bounds(vm.opcode);
    }
    let x = ((vm.opcode & 0x0F00) >> 8) as usize;
    let y = ((vm.opcode & 0x00F0) >> 4) as usize;
    vm.v[x] = vm.v[x] & vm.v[y];
    vm.pc = vm.pc + 2;
}

/// 8XY3: bitwise XOR of Vx and Vy into Vx; no flag.
pub open spec fn xor_vx_vy_rel(pre: Vm, post: Vm) -> bool {
    &&& frame_v_pc(pre, post)
    &&& post.v@ == pre.v@.update(
        op_x(pre.opcode) as int,
        pre.v@[op_x(pre.opcode) as int] ^ pre.v@[op_y(pre.opcode) as int],
    )
    &&& post.pc == pre.pc + 2
}

pub fn xor_vx_vy(vm: &mut Vm)
    requires
        old(vm).wf(),
        old(vm).pc <= 4094,
    ensures
        final(vm).wf(),
        xor_vx_vy_rel(*old(vm), *final(vm)),
{
    proof {
        lemma_decode_bounds(vm.opcode);
    }
    let x = ((vm.opcode & 0x0F00) >> 8) as usize;
    let y = ((vm.opcode & 0x00F0) >> 4) as usize;
    vm.v[x] = vm.v[x] ^ vm.v[y];
    vm.pc = vm.pc + 2;
}

/// 8XY4: Vx becomes the wrapped sum of Vx and Vy, then VF becomes the carry.
pub open spec fn add_vx_vy_rel(pre: Vm, post: Vm) -> bool {
    let vx = pre.v@[op_x(pre.opcode) as int];
    let vy = pre.v@[op_y(pre.opcode) as int];
    &&& frame_v_pc(pre, post)
    &&& post.v@ == pre.v@.update(op_x(pre.opcode) as int, sum8(vx, vy)).update(15, carry8(vx, vy))
    &&& post.pc == pre.pc + 2
}

pub fn add_vx_vy(vm: &mut Vm)
    requires
        old(vm).wf(),
        old(vm).pc <= 4094,
    ensures
        final(vm).wf(),
        add_vx_vy_rel(*old(vm), *final(vm)),
        (final(vm).v@[15] == 1 <==> old(vm).v@[op_x(old(vm).opcode) as int] + old(vm).v@[op_y(
            old(vm).opcode,
        ) as int] > 255),
        op_x(old(vm).opcode) != 15 ==> final(vm).v@[op_x(old(vm).opcode) as int] == (old(
            vm,
        ).v@[op_x(old(vm).opcode) as int] + old(vm).v@[op_y(old(vm).opcode) as int]) % 256,
{
    proof {
        lemma_decode_bounds(vm.opcode);
    }
    let x = ((vm.opcode & 0x0F00) >> 8) as usize;
    let y = ((vm.opcode & 0x00F0) >> 4) as usize;
    let vx = vm.v[x];
    let vy = vm.v[y];
    let carry: u8 = if (vx as u16) + (vy as u16) > 255 {
        1
    } else {
        0
    };
    vm.v[x] = (((vx as u16) + (vy as u16)) % 256) as u8;
    vm.v[15] = carry;
    vm.pc = vm.pc + 2;
}

/// 8XY5: VF becomes the no-borrow flag of Vx - Vy, then Vx becomes the
/// wrapped difference.
pub open spec fn sub_vx_vy_rel(pre: Vm, post: Vm) -> bool {
    let vx = pre.v@[op_x(pre.opcode) as int];
    let vy = pre.v@[op_y(pre.opcode) as int];
    &&& frame_v_pc(pre, post)
    &&& post.v@ == pre.v@.update(15, noborrow8(vx, vy)).update(op_x(pre.opcode) as int, diff8(vx, vy))
    &&& post.pc == pre.pc + 2
}

pub fn sub_vx_vy(vm: &mut Vm)
    requires
        old(vm).wf(),
        old(vm).pc <= 4094,
    ensures
        final(vm).wf(),
        sub_vx_vy_rel(*old(vm), *final(vm)),
        op_x(old(vm).opcode) != 15 ==> (final(vm).v@[15] == 1 <==> old(vm).v@[op_x(
            old(vm).opcode,
        ) as int] >= old(vm).v@[op_y(old(vm).opcode) as int]),
        final(vm).v@[op_x(old(vm).opcode) as int] == (old(vm).v@[op_x(old(vm).opcode) as int] - old(
            vm,
        ).v@[op_y(old(vm).opcode) as int]) % 256,
{
    proof {
        lemma_decode_bounds(vm.opcode);
    }
    let x = ((vm.opcode & 0x0F00) >> 8) as usize;
    let y = ((vm.opcode & 0x00F0) >> 4) as usize;
    let vx = vm.v[x];
    let vy = vm.v[y];
    vm.v[15] = if vx >= vy {
        1
    } else {
        0
    };
    vm.v[x] = (((vx as u16) + 256 - (vy as u16)) % 256) as u8;
    vm.pc = vm.pc + 2;
}

/// 8XY7: VF becomes the no-borrow flag of Vy - Vx, then Vx becomes the
/// wrapped difference, in that operand order.
pub open spec fn subn_vx_vy_rel(pre: Vm, post: Vm) -> bool {
    let vx = pre.v@[op_x(pre.opcode) as int];
    let vy = pre.v@[op_y(pre.opcode) as int];
    &&& frame_v_pc(pre, post)
    &&& post.v@ == pre.v@.update(15, noborrow8(vy, vx)).update(op_x(pre.opcode) as int, diff8(vy, vx))
    &&& post.pc == pre.pc + 2
}

pub fn subn_vx_vy(vm: &mut Vm)
    requires
        old(vm).wf(),
        old(vm).pc <= 4094,
    ensures
        final(vm).wf(),
        subn_vx_vy_rel(*old(vm), *final(vm)),
{
    proof {
        lemma_decode_bounds(vm.opcode);
    }
    let x = ((vm.opcode & 0x0F00) >> 8) as usize;
    let y = ((vm.opcode & 0x00F0) >> 4) as usize;
    let vx = vm.v[x];
    let vy = vm.v[y];
    vm.v[15] = if vy >= vx {
        1
    } else {
        0
    };
    vm.v[x] = (((vy as u16) + 256 - (vx as u16)) % 256) as u8;
    vm.pc = vm.pc + 2;
}

/// 8XY6: VF becomes bit 0 of Vx before the shift, then Vx is shifted right
/// by one. Vy plays no part.
pub open spec fn shr_vx_vy_rel(pre: Vm, post: Vm) -> bool {
    let vx = pre.v@[op_x(pre.opcode) as int];
    &&& frame_v_pc(pre, post)
    &&& post.v@ == pre.v@.update(15, lsb8(vx)).update(op_x(pre.opcode) as int, (vx / 2) as u8)
    &&& post.pc == pre.pc + 2
}

pub fn shr_vx_vy(vm: &mut Vm)
    requires
        old(vm).wf(),
        old(vm).pc <= 4094,
    ensures
        final(vm).wf(),
        shr_vx_vy_rel(*old(vm), *final(vm)),
        op_x(old(vm).opcode) != 15 ==> final(vm).v@[15] == lsb8(
            old(vm).v@[op_x(old(vm).opcode) as int],
        ),
{
    proof {
        lemma_decode_bounds(vm.opcode);
    }
    let x = ((vm.opcode & 0x0F00) >> 8) as usize;
    let vx = vm.v[x];
    vm.v[15] = vx % 2;
    vm.v[x] = vx / 2;
    vm.pc = vm.pc + 2;
}

/// 8XYE: VF becomes bit 7 of Vx before the shift, then Vx is shifted left
/// by one, wrapping. Vy plays no part.
pub open spec fn shl_vx_vy_rel(pre: Vm, post: Vm) -> bool {
    let vx = pre.v@[op_x(pre.opcode) as int];
    &&& frame_v_pc(pre, post)
    &&& post.v@ == pre.v@.update(15, msb8(vx)).update(op_x(pre.opcode) as int, shl8(vx))
    &&& post.pc == pre.pc + 2
}

pub fn shl_vx_vy(vm: &mut Vm)
    requires
        old(vm).wf(),
        old(vm).pc <= 4094,
    ensures
        final(vm).wf(),
        shl_vx_vy_rel(*old(vm), *final(vm)),
{
    proof {
        lemma_decode_bounds(vm.opcode);
    }
    let x = ((vm.opcode & 0x0F00) >> 8) as usize;
    let vx = vm.v[x];
    vm.v[15] = vx / 128;
    vm.v[x] = ((2 * (vx as u16)) % 256) as u8;
    vm.pc = vm.pc + 2;
}

/// ANNN: load the address nnn into the index register.
pub open spec fn ld_i_addr_rel(pre: Vm, post: Vm) -> bool {
    &&& frame_i_pc(pre, post)
    &&& post.i == op_nnn(pre.opcode)
    &&& post.pc == pre.pc + 2
}

pub fn ld_i_addr(vm: &mut Vm)
    requires
        old(vm).wf(),
        old(vm).pc <= 4094,
    ensures
        final(vm).wf(),
        ld_i_addr_rel(*old(vm), *final(vm)),
{
    vm.i = vm.opcode & 0x0FFF;
    vm.pc = vm.pc + 2;
}

/// BNNN: jump to nnn plus V0.
pub open spec fn jp_v0_addr_rel(pre: Vm, post: Vm) -> bool {
    &&& frame_pc(pre, post)
    &&& post.pc == op_nnn(pre.opcode) + pre.v@[0]
}

pub fn jp_v0_addr(vm: &mut Vm)
    requires
        old(vm).wf(),
        old(vm).pc <= 4094,
    ensures
        final(vm).wf(),
        jp_v0_addr_rel(*old(vm), *final(vm)),
{
    proof {
        lemma_decode_bounds(vm.opcode);
    }
    vm.pc = (vm.opcode & 0x0FFF) + (vm.v[0] as u16);
}

/// CXNN: Vx becomes a random byte masked by nn.
///
/// The drawn byte is not pinned down: the contract states only that some
/// byte was masked and stored, and that every bit outside the mask is zero.
pub open spec fn rnd_vx_byte_rel(pre: Vm, post: Vm) -> bool {
    &&& frame_v_pc(pre, post)
    &&& exists|r: u8|
        post.v@ == pre.v@.update(op_x(pre.opcode) as int, #[trigger] (r & (op_nn(pre.opcode) as u8)))
    &&& post.pc == pre.pc + 2
}

pub fn rnd_vx_byte(vm: &mut Vm)
    requires
        old(vm).wf(),
        old(vm).pc <= 4094,
    ensures
        final(vm).wf(),
        rnd_vx_byte_rel(*old(vm), *final(vm)),
        final(vm).v@[op_x(old(vm).opcode) as int] & !(op_nn(old(vm).opcode) as u8) == 0,
{
    proof {
        lemma_decode_bounds(vm.opcode);
    }
    let x = ((vm.opcode & 0x0F00) >> 8) as usize;
    let mask = (vm.opcode & 0x00FF) as u8;
    let r = random_byte();
    let masked = r & mask;
    proof {
        assert((r & mask) & !mask == 0) by (bit_vector);
    }
    vm.v[x] = masked;
    vm.pc = vm.pc + 2;
}

/// Relies on `rand::thread_rng` and `rand::Rng::gen`: one byte drawn from
/// the thread-local generator. Nothing can be promised of its value.
#[verifier::external_body]
fn random_byte() -> u8 {
    rand::thread_rng().gen::<u8>()
}

/// DXYN: XOR-blit an n-row, 8-column sprite read from memory at the index
/// register onto the screen at pixel coordinates (Vx, Vy), wrapping the
/// coordinates modulo the screen dimensions. VF becomes 1 exactly when a
/// previously-set pixel is toggled off; the dirty flag is set.
pub open spec fn drw_vx_vy_n_rel(pre: Vm, post: Vm) -> bool {
    let vx = pre.v@[op_x(pre.opcode) as int];
    let vy = pre.v@[op_y(pre.opcode) as int];
    let n = op_n(pre.opcode) as int;
    &&& frame_screen_v_pc(pre, post)
    &&& post.screen@ == draw_seq(pre.screen@, pre.ram@, pre.i as int, vx, vy, n)
    &&& post.v@ == pre.v@.update(
        15,
        if draw_collision(pre.screen@, pre.ram@, pre.i as int, vx, vy, n) {
            1u8
        } else {
            0u8
        },
    )
    &&& post.draw_flag
    &&& post.pc == pre.pc + 2
}

#[verifier::loop_isolation(false)]
pub fn drw_vx_vy_n(vm: &mut Vm)
    requires
        old(vm).wf(),
        old(vm).pc <= 4094,
        old(vm).i + op_n(old(vm).opcode) <= 4096,
    ensures
        final(vm).wf(),
        drw_vx_vy_n_rel(*old(vm), *final(vm)),
{
    proof {
        lemma_decode_bounds(vm.opcode);
    }
    let x = ((vm.opcode & 0x0F00) >> 8) as usize;
    let y = ((vm.opcode & 0x00F0) >> 4) as usize;
    let vx = vm.v[x];
    let vy = vm.v[y];
    let n = (vm.opcode & 0x000F) as usize;
    let i = vm.i as usize;
    let ghost s0 = vm.screen@;
    let ghost ram0 = vm.ram@;
    let mut collision: u8 = 0;
    let mut row: usize = 0;
    while row < n
        invariant
            row <= n,
            frame_screen_pc(*old(vm), *vm),
            vm.pc == old(vm).pc,
            vm.draw_flag == old(vm).draw_flag,
            vm.screen@.len() == 2048,
            forall|p: int|
                0 <= p < 2048 ==> vm.screen@[p] == partial_pixel(
                    s0,
                    ram0,
                    i as int,
                    vx,
                    vy,
                    row as int,
                    0,
                    p,
                ),
            forall|p: int| 0 <= p < 2048 ==> vm.screen@[p] <= 1,
            collision <= 1,
            collision == 1 <==> partial_collision(s0, ram0, i as int, vx, vy, row as int, 0),
        decreases n - row,
    {
        let sprite = vm.ram[i + row];
        let mut col: usize = 0;
        while col < 8
            invariant
                col <= 8,
                row < n,
                sprite == ram0[i + row],
                frame_screen_pc(*old(vm), *vm),
                vm.pc == old(vm).pc,
                vm.draw_flag == old(vm).draw_flag,
                vm.screen@.len() == 2048,
                forall|p: int|
                    0 <= p < 2048 ==> vm.screen@[p] == partial_pixel(
                        s0,
                        ram0,
                        i as int,
                        vx,
                        vy,
                        row as int,
                        col as int,
                        p,
                    ),
                forall|p: int| 0 <= p < 2048 ==> vm.screen@[p] <= 1,
                collision <= 1,
                collision == 1 <==> partial_collision(
                    s0,
                    ram0,
                    i as int,
                    vx,
                    vy,
                    row as int,
                    col as int,
                ),
            decreases 8 - col,
        {
            let ghost coll0 = collision;
            let bit = (sprite >> ((7 - col) as u8)) & 1;
            proof {
                assert(bit == row_bit(ram0[i + row], col as int));
            }
            if bit == 1 {
                let px = ((vx as usize + col) % 64) + 64 * ((vy as usize + row) % 32);
                proof {
                    lemma_pix_inverse(vx, vy, row as int, col as int);
                    assert(px == pix_index(vx, vy, row as int, col as int));
                }
                let cur = vm.screen[px];
                if cur == 1 {
                    collision = 1;
                }
                vm.screen[px] = 1 - cur;
                proof {
                    assert(cur == s0[px as int]);
                    assert forall|p: int| 0 <= p < 2048 implies vm.screen@[p] == partial_pixel(
                        s0,
                        ram0,
                        i as int,
                        vx,
                        vy,
                        row as int,
                        col + 1,
                        p,
                    ) by {
                        lemma_pix_forward(vx, vy, p);
                    }
                    // The collision flag matches the positions processed so far.
                    if collision == 1 {
                        if coll0 == 1 {
                            let (r, c) = choose|r: int, c: int|
                                {
                                    &&& 0 <= r
                                    &&& 0 <= c < 8
                                    &&& before(r, c, row as int, col as int)
                                    &&& #[trigger] row_bit(ram0[i + r], c) == 1
                                    &&& s0[pix_index(vx, vy, r, c)] == 1
                                };
                            assert(before(r, c, row as int, col + 1));
                        } else {
                            assert(before(row as int, col as int, row as int, col + 1));
                            assert(s0[pix_index(vx, vy, row as int, col as int)] == 1);
                        }
                        assert(partial_collision(s0, ram0, i as int, vx, vy, row as int, col + 1));
                    }
                    if partial_collision(s0, ram0, i as int, vx, vy, row as int, col + 1) {
                        let (r, c) = choose|r: int, c: int|
                            {
                                &&& 0 <= r
                                &&& 0 <= c < 8
                                &&& before(r, c, row as int, col + 1)
                                &&& #[trigger] row_bit(ram0[i + r], c) == 1
                                &&& s0[pix_index(vx, vy, r, c)] == 1
                            };
                        if r == row as int && c == col as int {
                            assert(collision == 1);
                        } else {
                            assert(before(r, c, row as int, col as int));
                            assert(partial_collision(s0, ram0, i as int, vx, vy, row as int, col as int));
                        }
                    }
                }
            } else {
                proof {
                    assert forall|p: int| 0 <= p < 2048 implies vm.screen@[p] == partial_pixel(
                        s0,
                        ram0,
                        i as int,
                        vx,
                        vy,
                        row as int,
                        col + 1,
                        p,
                    ) by {
                        lemma_pix_forward(vx, vy, p);
                    }
                    if partial_collision(s0, ram0, i as int, vx, vy, row as int, col + 1) {
                        let (r, c) = choose|r: int, c: int|
                            {
                                &&& 0 <= r
                                &&& 0 <= c < 8
                                &&& before(r, c, row as int, col + 1)
                                &&& #[trigger] row_bit(ram0[i + r], c) == 1
                                &&& s0[pix_index(vx, vy, r, c)] == 1
                            };
                        assert(before(r, c, row as int, col as int));
                        assert(partial_collision(s0, ram0, i as int, vx, vy, row as int, col as int));
                    }
                }
            }
            col = col + 1;
        }
        proof {
            // A fully processed row is the same boundary as the next row at
            // column zero.
            assert forall|p: int| 0 <= p < 2048 implies partial_pixel(
                s0,
                ram0,
                i as int,
                vx,
                vy,
                row as int,
                8,
                p,
            ) == partial_pixel(s0, ram0, i as int, vx, vy, row + 1, 0, p) by {
                lemma_pix_forward(vx, vy, p);
            }
            if partial_collision(s0, ram0, i as int, vx, vy, row as int, 8) {
                let (r, c) = choose|r: int, c: int|
                    {
                        &&& 0 <= r
                        &&& 0 <= c < 8
                        &&& before(r, c, row as int, 8)
                        &&& #[trigger] row_bit(ram0[i + r], c) == 1
                        &&& s0[pix_index(vx, vy, r, c)] == 1
                    };
                assert(before(r, c, row + 1, 0));
                assert(partial_collision(s0, ram0, i as int, vx, vy, row + 1, 0));
            }
            if partial_collision(s0, ram0, i as int, vx, vy, row + 1, 0) {
                let (r, c) = choose|r: int, c: int|
                    {
                        &&& 0 <= r
                        &&& 0 <= c < 8
                        &&& before(r, c, row + 1, 0)
                        &&& #[trigger] row_bit(ram0[i + r], c) == 1
                        &&& s0[pix_index(vx, vy, r, c)] == 1
                    };
                assert(before(r, c, row as int, 8));
                assert(partial_collision(s0, ram0, i as int, vx, vy, row as int, 8));
            }
        }
        row = row + 1;
    }
    vm.v[15] = collision;
    vm.draw_flag = true;
    vm.pc = vm.pc + 2;
    proof {
        assert(vm.screen@ =~= draw_seq(s0, ram0, old(vm).i as int, vx, vy, op_n(
            old(vm).opcode,
        ) as int));
    }
}

/// Draw is idempotent under double-XOR: two successive draws of the same
/// sprite at the same coordinates, with nothing external changing in
/// between, restore the framebuffer to its pre-draw state; and when every
/// pixel covered by a set sprite bit was set beforehand, the second draw
/// reports no collision, leaving VF at 0. (On other inputs the flag is not
/// 0: a set sprite bit over a clear pixel is toggled on by the first draw
/// and back off by the second, which is a collision.)
///
/// The registers holding the coordinates must not be VF itself, which the
/// first draw overwrites.
pub proof fn lemma_drw_twice(pre: Vm, mid: Vm, post: Vm)
    requires
        pre.wf(),
        op_x(pre.opcode) != 15,
        op_y(pre.opcode) != 15,
        pre.i + op_n(pre.opcode) <= 4096,
        drw_vx_vy_n_rel(pre, mid),
        drw_vx_vy_n_rel(mid, post),
    ensures
        post.screen@ == pre.screen@,
        (forall|r: int, c: int|
            0 <= r < op_n(pre.opcode) && 0 <= c < 8 && #[trigger] row_bit(
                pre.ram@[pre.i + r],
                c,
            ) == 1 ==> pre.screen@[pix_index(
                pre.v@[op_x(pre.opcode) as int],
                pre.v@[op_y(pre.opcode) as int],
                r,
                c,
            )] == 1) ==> post.v@[15] == 0,
{
    lemma_decode_bounds(pre.opcode);
    let vx = pre.v@[op_x(pre.opcode) as int];
    let vy = pre.v@[op_y(pre.opcode) as int];
    let n = op_n(pre.opcode) as int;
    crate::screen::lemma_draw_twice_restores(pre.screen@, pre.ram@, pre.i as int, vx, vy, n);
    if forall|r: int, c: int|
        0 <= r < n && 0 <= c < 8 && #[trigger] row_bit(pre.ram@[pre.i + r], c) == 1
            ==> pre.screen@[pix_index(vx, vy, r, c)] == 1 {
        crate::screen::lemma_draw_twice_no_collision(
            pre.screen@,
            pre.ram@,
            pre.i as int,
            vx,
            vy,
            n,
        );
    }
}

/// EX9E: skip the next instruction if the key indexed by Vx is pressed.
pub open spec fn skp_vx_rel(pre: Vm, post: Vm) -> bool {
    &&& frame_pc(pre, post)
    &&& post.pc == (if pre.key_states@[pre.v@[op_x(pre.opcode) as int] as int] {
        pre.pc + 4
    } else {
        pre.pc + 2
    })
}

pub fn skp_vx(vm: &mut Vm)
    requires
        old(vm).wf(),
        old(vm).pc <= 4094,
        old(vm).v@[op_x(old(vm).opcode) as int] < 16,
    ensures
        final(vm).wf(),
        skp_vx_rel(*old(vm), *final(vm)),
{
    proof {
        lemma_decode_bounds(vm.opcode);
    }
    let x = ((vm.opcode & 0x0F00) >> 8) as usize;
    let key = vm.v[x] as usize;
    if vm.key_states[key] {
        vm.pc = vm.pc + 4;
    } else {
        vm.pc = vm.pc + 2;
    }
}

/// EXA1: skip the next instruction if the key indexed by Vx is not pressed.
pub open spec fn sknp_vx_rel(pre: Vm, post: Vm) -> bool {
    &&& frame_pc(pre, post)
    &&& post.pc == (if !pre.key_states@[pre.v@[op_x(pre.opcode) as int] as int] {
        pre.pc + 4
    } else {
        pre.pc + 2
    })
}

pub fn sknp_vx(vm: &mut Vm)
    requires
        old(vm).wf(),
        old(vm).pc <= 4094,
        old(vm).v@[op_x(old(vm).opcode) as int] < 16,
    ensures
        final(vm).wf(),
        sknp_vx_rel(*old(vm), *final(vm)),
{
    proof {
        lemma_decode_bounds(vm.opcode);
    }
    let x = ((vm.opcode & 0x0F00) >> 8) as usize;
    let key = vm.v[x] as usize;
    if !vm.key_states[key] {
        vm.pc = vm.pc + 4;
    } else {
        vm.pc = vm.pc + 2;
    }
}

/// FX07: load the delay timer into Vx.
pub open spec fn ld_vx_dt_rel(pre: Vm, post: Vm) -> bool {
    &&& frame_v_pc(pre, post)
    &&& post.v@ == pre.v@.update(op_x(pre.opcode) as int, pre.delay_timer)
    &&& post.pc == pre.pc + 2
}

pub fn ld_vx_dt(vm: &mut Vm)
    requires
        old(vm).wf(),
        old(vm).pc <= 4094,
    ensures
        final(vm).wf(),
        ld_vx_dt_rel(*old(vm), *final(vm)),
{
    proof {
        lemma_decode_bounds(vm.opcode);
    }
    let x = ((vm.opcode & 0x0F00) >> 8) as usize;
    vm.v[x] = vm.delay_timer;
    vm.pc = vm.pc + 2;
}

/// FX0A: block on a key press. If some key is pressed, the lowest pressed
/// index is stored into Vx and the program counter advances; if none is,
/// nothing moves, so the same instruction is fetched again next cycle.
pub open spec fn ld_vx_k_rel(pre: Vm, post: Vm) -> bool {
    let ks = pre.key_states@;
    &&& frame_v_pc(pre, post)
    &&& if exists|k: int| 0 <= k < 16 && ks[k] {
        exists|k: int|
            {
                &&& 0 <= k < 16
                &&& ks[k]
                &&& forall|j: int| 0 <= j < k ==> !ks[j]
                &&& post.v@ == pre.v@.update(op_x(pre.opcode) as int, k as u8)
                &&& post.pc == pre.pc + 2
            }
    } else {
        post.v@ == pre.v@ && post.pc == pre.pc
    }
}

#[verifier::loop_isolation(false)]
pub fn ld_vx_k(vm: &mut Vm)
    requires
        old(vm).wf(),
        old(vm).pc <= 4094,
    ensures
        final(vm).wf(),
        ld_vx_k_rel(*old(vm), *final(vm)),
{
    proof {
        lemma_decode_bounds(vm.opcode);
    }
    let x = ((vm.opcode & 0x0F00) >> 8) as usize;
    let mut k: usize = 0;
    while k < 16
        invariant
            k <= 16,
            *vm == *old(vm),
            forall|j: int| 0 <= j < k ==> !vm.key_states@[j],
        decreases 16 - k,
    {
        if vm.key_states[k] {
            vm.v[x] = k as u8;
            vm.pc = vm.pc + 2;
            return ;
        }
        k = k + 1;
    }
}

/// FX15: load Vx into the delay timer.
pub open spec fn ld_dt_vx_rel(pre: Vm, post: Vm) -> bool {
    &&& frame_delay_pc(pre, post)
    &&& post.delay_timer == pre.v@[op_x(pre.opcode) as int]
    &&& post.pc == pre.pc + 2
}

pub fn ld_dt_vx(vm: &mut Vm)
    requires
        old(vm).wf(),
        old(vm).pc <= 4094,
    ensures
        final(vm).wf(),
        ld_dt_vx_rel(*old(vm), *final(vm)),
{
    proof {
        lemma_decode_bounds(vm.opcode);
    }
    let x = ((vm.opcode & 0x0F00) >> 8) as usize;
    vm.delay_timer = vm.v[x];
    vm.pc = vm.pc + 2;
}

/// FX18: load Vx into the sound timer.
pub open spec fn ld_st_vx_rel(pre: Vm, post: Vm) -> bool {
    &&& frame_sound_pc(pre, post)
    &&& post.sound_timer == pre.v@[op_x(pre.opcode) as int]
    &&& post.pc == pre.pc + 2
}

pub fn ld_st_vx(vm: &mut Vm)
    requires
        old(vm).wf(),
        old(vm).pc <= 4094,
    ensures
        final(vm).wf(),
        ld_st_vx_rel(*old(vm), *final(vm)),
{
    proof {
        lemma_decode_bounds(vm.opcode);
    }
    let x = ((vm.opcode & 0x0F00) >> 8) as usize;
    vm.sound_timer = vm.v[x];
    vm.pc = vm.pc + 2;
}

/// FX1E: add Vx, widened, to the index register, wrapping at 16 bits.
pub open spec fn add_i_vx_rel(pre: Vm, post: Vm) -> bool {
    &&& frame_i_pc(pre, post)
    &&& post.i == ((pre.i + pre.v@[op_x(pre.opcode) as int]) % 65536) as u16
    &&& post.pc == pre.pc + 2
}

pub fn add_i_vx(vm: &mut Vm)
    requires
        old(vm).wf(),
        old(vm).pc <= 4094,
    ensures
        final(vm).wf(),
        add_i_vx_rel(*old(vm), *final(vm)),
{
    proof {
        lemma_decode_bounds(vm.opcode);
    }
    let x = ((vm.opcode & 0x0F00) >> 8) as usize;
    vm.i = (((vm.i as u32) + (vm.v[x] as u32)) % 65536) as u16;
    vm.pc = vm.pc + 2;
}

/// FX29: point the index register at the 5-byte font glyph for the low
/// nibble of Vx. A value above 0xF is out-of-contract input; the glyph
/// index is taken modulo the 16-glyph table, deterministically.
pub open spec fn ld_f_vx_rel(pre: Vm, post: Vm) -> bool {
    &&& frame_i_pc(pre, post)
    &&& post.i == (pre.v@[op_x(pre.opcode) as int] % 16) * 5
    &&& post.pc == pre.pc + 2
}

pub fn ld_f_vx(vm: &mut Vm)
    requires
        old(vm).wf(),
        old(vm).pc <= 4094,
    ensures
        final(vm).wf(),
        ld_f_vx_rel(*old(vm), *final(vm)),
{
    proof {
        lemma_decode_bounds(vm.opcode);
    }
    let x = ((vm.opcode & 0x0F00) >> 8) as usize;
    vm.i = ((vm.v[x] % 16) as u16) * 5;
    vm.pc = vm.pc + 2;
}

/// FX33: store the three decimal digits of Vx (hundreds, tens, ones) at
/// addresses i, i+1 and i+2.
pub open spec fn ld_b_vx_rel(pre: Vm, post: Vm) -> bool {
    let vx = pre.v@[op_x(pre.opcode) as int];
    &&& frame_ram_pc(pre, post)
    &&& post.ram@ == pre.ram@.update(pre.i as int, (vx / 100) as u8).update(
        pre.i + 1,
        ((vx / 10) % 10) as u8,
    ).update(pre.i + 2, (vx % 10) as u8)
    &&& post.pc == pre.pc + 2
}

pub fn ld_b_vx(vm: &mut Vm)
    requires
        old(vm).wf(),
        old(vm).pc <= 4094,
        old(vm).i + 2 < 4096,
    ensures
        final(vm).wf(),
        ld_b_vx_rel(*old(vm), *final(vm)),
{
    proof {
        lemma_decode_bounds(vm.opcode);
    }
    let x = ((vm.opcode & 0x0F00) >> 8) as usize;
    let vx = vm.v[x];
    let i = vm.i as usize;
    vm.ram[i] = vx / 100;
    vm.ram[i + 1] = (vx / 10) % 10;
    vm.ram[i + 2] = vx % 10;
    vm.pc = vm.pc + 2;
}

/// FX55: copy V0..Vx inclusive into memory starting at the index register.
pub open spec fn ld_i_vx_rel(pre: Vm, post: Vm) -> bool {
    &&& frame_ram_pc(pre, post)
    &&& post.ram@ == write_regs(pre.ram@, pre.v@, pre.i as int, op_x(pre.opcode) as int)
    &&& post.pc == pre.pc + 2
}

#[verifier::loop_isolation(false)]
pub fn ld_i_vx(vm: &mut Vm)
    requires
        old(vm).wf(),
        old(vm).pc <= 4094,
        old(vm).i + op_x(old(vm).opcode) < 4096,
    ensures
        final(vm).wf(),
        ld_i_vx_rel(*old(vm), *final(vm)),
{
    proof {
        lemma_decode_bounds(vm.opcode);
    }
    let x = ((vm.opcode & 0x0F00) >> 8) as usize;
    let i = vm.i as usize;
    let mut k: usize = 0;
    while k < x + 1
        invariant
            k <= x + 1,
            crate::vm::frame_ram(*old(vm), *vm),
            vm.ram@.len() == 4096,
            forall|j: int| 0 <= j < k ==> vm.ram@[i + j] == old(vm).v@[j],
            forall|a: int| 0 <= a < 4096 && !(i <= a < i + k) ==> vm.ram@[a] == old(vm).ram@[a],
        decreases x + 1 - k,
    {
        vm.ram[i + k] = vm.v[k];
        k = k + 1;
    }
    vm.pc = vm.pc + 2;
    proof {
        assert(vm.ram@ =~= write_regs(old(vm).ram@, old(vm).v@, old(vm).i as int, op_x(
            old(vm).opcode,
        ) as int));
    }
}

/// FX65: fill V0..Vx inclusive from memory starting at the index register.
pub open spec fn ld_vx_i_rel(pre: Vm, post: Vm) -> bool {
    &&& frame_v_pc(pre, post)
    &&& post.v@ == read_regs(pre.v@, pre.ram@, pre.i as int, op_x(pre.opcode) as int)
    &&& post.pc == pre.pc + 2
}

#[verifier::loop_isolation(false)]
pub fn ld_vx_i(vm: &mut Vm)
    requires
        old(vm).wf(),
        old(vm).pc <= 4094,
        old(vm).i + op_x(old(vm).opcode) < 4096,
    ensures
        final(vm).wf(),
        ld_vx_i_rel(*old(vm), *final(vm)),
{
    proof {
        lemma_decode_bounds(vm.opcode);
    }
    let x = ((vm.opcode & 0x0F00) >> 8) as usize;
    let i = vm.i as usize;
    let mut k: usize = 0;
    while k < x + 1
        invariant
            k <= x + 1,
            frame_v_pc(*old(vm), *vm),
            vm.pc == old(vm).pc,
            vm.v@.len() == 16,
            forall|j: int| 0 <= j < k ==> vm.v@[j] == old(vm).ram@[i + j],
            forall|j: int| k <= j < 16 ==> vm.v@[j] == old(vm).v@[j],
        decreases x + 1 - k,
    {
        vm.v[k] = vm.ram[i + k];
        k = k + 1;
    }
    vm.pc = vm.pc + 2;
    proof {
        assert(vm.v@ =~= read_regs(old(vm).v@, old(vm).ram@, old(vm).i as int, op_x(
            old(vm).opcode,
        ) as int));
    }
}

} // verus!
