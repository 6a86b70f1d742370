//! The virtual machine: its state, its lifecycle, and the fetch-decode-execute
//! cycle. The instruction handlers themselves live in `crate::opcodes`.

use vstd::prelude::*;

use crate::decode::{
    compose_opcode, lemma_class_split, lemma_decode_bounds, op_class, op_n, op_nn, op_x,
};
use crate::opcodes;

verus! {

/// A fatal condition: a malformed program or misuse of the machine. These are
/// surfaced to the driver instead of being handled internally; the machine
/// state is left as it was.
#[derive(Clone, Copy, Debug, PartialEq, Eq, Structural)]
pub enum VmError {
    /// A call was issued while the call stack already held 16 return addresses.
    StackOverflow,
    /// A return was issued while the call stack was empty.
    StackUnderflow,
    /// A program image larger than the memory left above the reserved region.
    RomTooLarge,
    /// An instruction fetch at an address beyond the end of memory.
    FetchOutOfBounds,
    /// A data access through the index register beyond the end of memory.
    AddressOutOfBounds,
    /// A key-matrix access with a register value above 0xF.
    KeyOutOfRange,
}

/// The virtual machine.
///
/// It owns all machine state: memory, registers, the call stack, the two
/// countdown timers, the framebuffer and the key matrix. The fields are
/// public because the external collaborators work on them directly: the
/// input source writes `key_states`, the renderer reads `screen` and clears
/// `draw_flag` once presented.
pub struct Vm {
    /// The current instruction word, re-derived from memory on every cycle.
    pub opcode: u16,
    /// 4096 bytes of memory. Addresses 0x000-0x1FF are reserved; the built-in
    /// font occupies the low region and programs are loaded from 0x200.
    pub ram: Vec<u8>,
    /// The sixteen 8-bit registers V0-VF. Register 0xF doubles as the
    /// carry/borrow/collision flag but is otherwise an ordinary register.
    pub v: Vec<u8>,
    /// The 16-bit index register used by draw, BCD and block load/store.
    pub i: u16,
    /// The program counter; starts at 0x200.
    pub pc: u16,
    /// The framebuffer: 64x32 pixels, one byte per pixel, row-major
    /// (`row * 64 + col`), each byte 0 or 1.
    pub screen: Vec<u8>,
    /// Pressed state of the sixteen keys, one per hexadecimal digit.
    pub key_states: Vec<bool>,
    /// Delay timer: decremented once per cycle while non-zero.
    pub delay_timer: u8,
    /// Sound timer: decremented once per cycle while non-zero; the value 1
    /// passing to 0 is the edge the audio collaborator observes.
    pub sound_timer: u8,
    /// Saved return addresses.
    pub stack: Vec<u16>,
    /// Number of call-stack entries in use; never exceeds 16.
    pub sp: u16,
    /// Set when the framebuffer changed since it was last presented.
    pub draw_flag: bool,
}

impl Vm {
    /// Well-formedness: the fixed sizes of the state arrays, the stack
    /// pointer within its depth, every saved return address a valid fetch
    /// address, and every pixel 0 or 1.
    pub open spec fn wf(self) -> bool {
        &&& self.ram@.len() == 4096
        &&& self.v@.len() == 16
        &&& self.screen@.len() == 2048
        &&& self.key_states@.len() == 16
        &&& self.stack@.len() == 16
        &&& self.sp <= 16
        &&& forall|k: int| 0 <= k < 16 ==> self.stack@[k] <= 4094
        &&& forall|p: int| 0 <= p < 2048 ==> self.screen@[p] <= 1
    }
}

/// Both machines hold exactly the same state, field for field.
pub open spec fn same_state(a: Vm, b: Vm) -> bool {
    &&& b.opcode == a.opcode
    &&& b.ram@ == a.ram@
    &&& b.v@ == a.v@
    &&& b.i == a.i
    &&& b.pc == a.pc
    &&& b.screen@ == a.screen@
    &&& b.key_states@ == a.key_states@
    &&& b.delay_timer == a.delay_timer
    &&& b.sound_timer == a.sound_timer
    &&& b.stack@ == a.stack@
    &&& b.sp == a.sp
    &&& b.draw_flag == a.draw_flag
}

/// Only the program counter may differ.
pub open spec fn frame_pc(a: Vm, b: Vm) -> bool {
    &&& b.opcode == a.opcode
    &&& b.ram@ == a.ram@
    &&& b.v@ == a.v@
    &&& b.i == a.i
    &&& b.screen@ == a.screen@
    &&& b.key_states@ == a.key_states@
    &&& b.delay_timer == a.delay_timer
    &&& b.sound_timer == a.sound_timer
    &&& b.stack@ == a.stack@
    &&& b.sp == a.sp
    &&& b.draw_flag == a.draw_flag
}

/// Only the registers and the program counter may differ.
pub open spec fn frame_v_pc(a: Vm, b: Vm) -> bool {
    &&& b.opcode == a.opcode
    &&& b.ram@ == a.ram@
    &&& b.i == a.i
    &&& b.screen@ == a.screen@
    &&& b.key_states@ == a.key_states@
    &&& b.delay_timer == a.delay_timer
    &&& b.sound_timer == a.sound_timer
    &&& b.stack@ == a.stack@
    &&& b.sp == a.sp
    &&& b.draw_flag == a.draw_flag
}

/// Only the index register and the program counter may differ.
pub open spec fn frame_i_pc(a: Vm, b: Vm) -> bool {
    &&& b.opcode == a.opcode
    &&& b.ram@ == a.ram@
    &&& b.v@ == a.v@
    &&& b.screen@ == a.screen@
    &&& b.key_states@ == a.key_states@
    &&& b.delay_timer == a.delay_timer
    &&& b.sound_timer == a.sound_timer
    &&& b.stack@ == a.stack@
    &&& b.sp == a.sp
    &&& b.draw_flag == a.draw_flag
}

/// Only memory and the program counter may differ.
pub open spec fn frame_ram_pc(a: Vm, b: Vm) -> bool {
    &&& b.opcode == a.opcode
    &&& b.v@ == a.v@
    &&& b.i == a.i
    &&& b.screen@ == a.screen@
    &&& b.key_states@ == a.key_states@
    &&& b.delay_timer == a.delay_timer
    &&& b.sound_timer == a.sound_timer
    &&& b.stack@ == a.stack@
    &&& b.sp == a.sp
    &&& b.draw_flag == a.draw_flag
}

/// Only memory may differ.
pub open spec fn frame_ram(a: Vm, b: Vm) -> bool {
    &&& b.opcode == a.opcode
    &&& b.v@ == a.v@
    &&& b.i == a.i
    &&& b.pc == a.pc
    &&& b.screen@ == a.screen@
    &&& b.key_states@ == a.key_states@
    &&& b.delay_timer == a.delay_timer
    &&& b.sound_timer == a.sound_timer
    &&& b.stack@ == a.stack@
    &&& b.sp == a.sp
    &&& b.draw_flag == a.draw_flag
}

/// Only the framebuffer, the dirty flag and the program counter may differ.
pub open spec fn frame_screen_pc(a: Vm, b: Vm) -> bool {
    &&& b.opcode == a.opcode
    &&& b.ram@ == a.ram@
    &&& b.v@ == a.v@
    &&& b.i == a.i
    &&& b.key_states@ == a.key_states@
    &&& b.delay_timer == a.delay_timer
    &&& b.sound_timer == a.sound_timer
    &&& b.stack@ == a.stack@
    &&& b.sp == a.sp
}

/// Only the framebuffer, the dirty flag, the registers and the program
/// counter may differ.
pub open spec fn frame_screen_v_pc(a: Vm, b: Vm) -> bool {
    &&& b.opcode == a.opcode
    &&& b.ram@ == a.ram@
    &&& b.i == a.i
    &&& b.key_states@ == a.key_states@
    &&& b.delay_timer == a.delay_timer
    &&& b.sound_timer == a.sound_timer
    &&& b.stack@ == a.stack@
    &&& b.sp == a.sp
}

/// Only the stack pointer and the program counter may differ.
pub open spec fn frame_sp_pc(a: Vm, b: Vm) -> bool {
    &&& b.opcode == a.opcode
    &&& b.ram@ == a.ram@
    &&& b.v@ == a.v@
    &&& b.i == a.i
    &&& b.screen@ == a.screen@
    &&& b.key_states@ == a.key_states@
    &&& b.delay_timer == a.delay_timer
    &&& b.sound_timer == a.sound_timer
    &&& b.stack@ == a.stack@
    &&& b.draw_flag == a.draw_flag
}

/// Only the call stack, the stack pointer and the program counter may differ.
pub open spec fn frame_stack_pc(a: Vm, b: Vm) -> bool {
    &&& b.opcode == a.opcode
    &&& b.ram@ == a.ram@
    &&& b.v@ == a.v@
    &&& b.i == a.i
    &&& b.screen@ == a.screen@
    &&& b.key_states@ == a.key_states@
    &&& b.delay_timer == a.delay_timer
    &&& b.sound_timer == a.sound_timer
    &&& b.draw_flag == a.draw_flag
}

/// Only the delay timer and the program counter may differ.
pub open spec fn frame_delay_pc(a: Vm, b: Vm) -> bool {
    &&& b.opcode == a.opcode
    &&& b.ram@ == a.ram@
    &&& b.v@ == a.v@
    &&& b.i == a.i
    &&& b.screen@ == a.screen@
    &&& b.key_states@ == a.key_states@
    &&& b.sound_timer == a.sound_timer
    &&& b.stack@ == a.stack@
    &&& b.sp == a.sp
    &&& b.draw_flag == a.draw_flag
}

/// Only the sound timer and the program counter may differ.
pub open spec fn frame_sound_pc(a: Vm, b: Vm) -> bool {
    &&& b.opcode == a.opcode
    &&& b.ram@ == a.ram@
    &&& b.v@ == a.v@
    &&& b.i == a.i
    &&& b.screen@ == a.screen@
    &&& b.key_states@ == a.key_states@
    &&& b.delay_timer == a.delay_timer
    &&& b.stack@ == a.stack@
    &&& b.sp == a.sp
    &&& b.draw_flag == a.draw_flag
}

/// One timer tick: each countdown register is decremented if non-zero and
/// clamps at zero; nothing else moves.
pub open spec fn tick_rel(pre: Vm, post: Vm) -> bool {
    &&& post.opcode == pre.opcode
    &&& post.ram@ == pre.ram@
    &&& post.v@ == pre.v@
    &&& post.i == pre.i
    &&& post.pc == pre.pc
    &&& post.screen@ == pre.screen@
    &&& post.key_states@ == pre.key_states@
    &&& post.stack@ == pre.stack@
    &&& post.sp == pre.sp
    &&& post.draw_flag == pre.draw_flag
    &&& post.delay_timer == (if pre.delay_timer > 0 {
        (pre.delay_timer - 1) as u8
    } else {
        0u8
    })
    &&& post.sound_timer == (if pre.sound_timer > 0 {
        (pre.sound_timer - 1) as u8
    } else {
        0u8
    })
}

/// A vector of `n` copies of `val`.
#[verifier::loop_isolation(false)]
pub(crate) fn filled<T: Copy>(n: usize, val: T) -> (r: Vec<T>)
    ensures
        r@.len() == n,
        forall|k: int| 0 <= k < n ==> r@[k] == val,
{
    let mut r: Vec<T> = Vec::new();
    let mut k: usize = 0;
    while k < n
        invariant
            k <= n,
            r@.len() == k,
            forall|j: int| 0 <= j < k ==> r@[j] == val,
        decreases n - k,
    {
        r.push(val);
        k = k + 1;
    }
    r
}

impl Vm {
    /// A machine with every piece of state zeroed, the program counter at
    /// 0x200, no key pressed, and the dirty flag set so that the first
    /// presentation shows the blank screen.
    pub fn init() -> (vm: Vm)
        ensures
            vm.wf(),
            vm.opcode == 0,
            vm.i == 0,
            vm.pc == 0x200,
            vm.sp == 0,
            vm.delay_timer == 0,
            vm.sound_timer == 0,
            vm.draw_flag,
            forall|a: int| 0 <= a < 4096 ==> vm.ram@[a] == 0,
            forall|k: int| 0 <= k < 16 ==> vm.v@[k] == 0,
            forall|p: int| 0 <= p < 2048 ==> vm.screen@[p] == 0,
            forall|k: int| 0 <= k < 16 ==> !vm.key_states@[k],
            forall|k: int| 0 <= k < 16 ==> vm.stack@[k] == 0,
    {
        Vm {
            opcode: 0,
            ram: filled(4096, 0u8),
            v: filled(16, 0u8),
            i: 0,
            pc: 0x200,
            screen: filled(2048, 0u8),
            key_states: filled(16, false),
            delay_timer: 0,
            sound_timer: 0,
            stack: filled(16, 0u16),
            sp: 0,
            draw_flag: true,
        }
    }

    /// One timer tick, run at the end of every cycle: each countdown
    /// register is decremented if non-zero and never goes below zero.
    pub fn update_timers(&mut self)
        ensures
            tick_rel(*old(self), *final(self)),
            old(self).wf() ==> final(self).wf(),
    {
        if self.delay_timer > 0 {
            self.delay_timer = self.delay_timer - 1;
        }
        if self.sound_timer > 0 {
            self.sound_timer = self.sound_timer - 1;
        }
    }

    /// The key matrix is mutated by the input collaborator writing
    /// `key_states` directly; the machine itself has nothing to do on a
    /// key-state sweep.
    pub fn set_keys(&self) {
    }

    /// Copies the built-in font into the low memory region: 16 glyphs of 5
    /// bytes each, one per hexadecimal digit.
    #[verifier::loop_isolation(false)]
    pub fn load_font(&mut self)
        requires
            old(self).wf(),
        ensures
            final(self).wf(),
            frame_ram(*old(self), *final(self)),
            forall|a: int| 0 <= a < 80 ==> final(self).ram@[a] == font_seq()[a],
            forall|a: int| 80 <= a < 4096 ==> final(self).ram@[a] == old(self).ram@[a],
    {
        let font = font_bytes();
        let mut k: usize = 0;
        while k < 80
            invariant
                k <= 80,
                frame_ram(*old(self), *self),
                self.ram@.len() == 4096,
                forall|a: int| 0 <= a < k ==> self.ram@[a] == font_seq()[a],
                forall|a: int| k <= a < 4096 ==> self.ram@[a] == old(self).ram@[a],
            decreases 80 - k,
        {
            self.ram[k] = font[k];
            k = k + 1;
        }
    }

    /// A machine in its start state with the font loaded: ready to take a
    /// program image.
    pub fn new() -> (vm: Vm)
        ensures
            vm.wf(),
            vm.opcode == 0,
            vm.i == 0,
            vm.pc == 0x200,
            vm.sp == 0,
            vm.delay_timer == 0,
            vm.sound_timer == 0,
            vm.draw_flag,
            forall|a: int| 0 <= a < 80 ==> vm.ram@[a] == font_seq()[a],
            forall|a: int| 80 <= a < 4096 ==> vm.ram@[a] == 0,
            forall|k: int| 0 <= k < 16 ==> vm.v@[k] == 0,
            forall|p: int| 0 <= p < 2048 ==> vm.screen@[p] == 0,
            forall|k: int| 0 <= k < 16 ==> !vm.key_states@[k],
    {
        let mut vm = Vm::init();
        vm.load_font();
        vm
    }

    /// Copies a program image into memory starting at 0x200. Fails, leaving
    /// the machine untouched, exactly when the image does not fit into the
    /// 3584 bytes above the reserved region.
    #[verifier::loop_isolation(false)]
    pub fn load_game(&mut self, game: &Vec<u8>) -> (r: Result<(), VmError>)
        requires
            old(self).wf(),
        ensures
            final(self).wf(),
            game@.len() > 3584 ==> r == Err::<(), VmError>(VmError::RomTooLarge) && same_state(
                *old(self),
                *final(self),
            ),
            game@.len() <= 3584 ==> r == Ok::<(), VmError>(()) && frame_ram(
                *old(self),
                *final(self),
            ) && (forall|k: int|
                0 <= k < game@.len() ==> final(self).ram@[0x200 + k] == game@[k]) && (forall|a: int|
                0 <= a < 4096 && !(0x200 <= a < 0x200 + game@.len()) ==> final(self).ram@[a] == old(
                    self,
                ).ram@[a]),
    {
        if game.len() > 3584 {
            return Err(VmError::RomTooLarge);
        }
        let n = game.len();
        let mut k: usize = 0;
        while k < n
            invariant
                k <= n,
                frame_ram(*old(self), *self),
                self.ram@.len() == 4096,
                forall|j: int| 0 <= j < k ==> self.ram@[0x200 + j] == game@[j],
                forall|a: int|
                    0 <= a < 4096 && !(0x200 <= a < 0x200 + k) ==> self.ram@[a] == old(self).ram@[a],
            decreases n - k,
        {
            self.ram[0x200 + k] = game[k];
            k = k + 1;
        }
        Ok(())
    }
}

/// An unrecognized opcode bit pattern: tolerated rather than fatal. The
/// program counter advances by 2 and nothing else moves, so execution keeps
/// its forward progress.
pub open spec fn unknown_rel(pre: Vm, post: Vm) -> bool {
    &&& frame_pc(pre, post)
    &&& post.pc == pre.pc + 2
}

/// The machine as it stands with the freshly fetched opcode word in place.
pub open spec fn with_opcode(m: Vm, op: u16) -> Vm {
    Vm {
        opcode: op,
        ram: m.ram,
        v: m.v,
        i: m.i,
        pc: m.pc,
        screen: m.screen,
        key_states: m.key_states,
        delay_timer: m.delay_timer,
        sound_timer: m.sound_timer,
        stack: m.stack,
        sp: m.sp,
        draw_flag: m.draw_flag,
    }
}

/// The opcode word fetched big-endian from the two memory bytes at PC.
pub open spec fn fetch_opcode(m: Vm) -> u16 {
    compose_opcode(m.ram@[m.pc as int], m.ram@[m.pc as int + 1])
}

/// The fatal condition, if any, that the current opcode would run into on
/// this machine state: exactly these make the dispatcher refuse to execute.
pub open spec fn fatal_of(m: Vm) -> Option<VmError> {
    let op = m.opcode;
    if op == 0x00EE && m.sp == 0 {
        Some(VmError::StackUnderflow)
    } else if op_class(op) == 0x2000 && m.sp >= 16 {
        Some(VmError::StackOverflow)
    } else if op_class(op) == 0xD000 && m.i + op_n(op) > 4096 {
        Some(VmError::AddressOutOfBounds)
    } else if op_class(op) == 0xE000 && (op_nn(op) == 0x9E || op_nn(op) == 0xA1) && m.v@[op_x(
        op,
    ) as int] >= 16 {
        Some(VmError::KeyOutOfRange)
    } else if op_class(op) == 0xF000 && op_nn(op) == 0x33 && m.i + 2 >= 4096 {
        Some(VmError::AddressOutOfBounds)
    } else if op_class(op) == 0xF000 && (op_nn(op) == 0x55 || op_nn(op) == 0x65) && m.i + op_x(op)
        >= 4096 {
        Some(VmError::AddressOutOfBounds)
    } else {
        None
    }
}

/// The dispatch table: which instruction relation the machine follows for
/// the current opcode, selected by the top nibble and, within classes 0, 8,
/// E and F, a secondary nibble or byte. Anything unassigned is tolerated as
/// an unknown opcode.
pub open spec fn dispatch_rel(pre: Vm, post: Vm) -> bool {
    let op = pre.opcode;
    if op_class(op) == 0x0000 {
        if op == 0x00E0 {
            opcodes::cls_rel(pre, post)
        } else if op == 0x00EE {
            opcodes::ret_rel(pre, post)
        } else {
            unknown_rel(pre, post)
        }
    } else if op_class(op) == 0x1000 {
        opcodes::jp_addr_rel(pre, post)
    } else if op_class(op) == 0x2000 {
        opcodes::call_addr_rel(pre, post)
    } else if op_class(op) == 0x3000 {
        opcodes::se_vx_byte_rel(pre, post)
    } else if op_class(op) == 0x4000 {
        opcodes::sne_vx_byte_rel(pre, post)
    } else if op_class(op) == 0x5000 {
        opcodes::se_vx_vy_rel(pre, post)
    } else if op_class(op) == 0x6000 {
        opcodes::ld_vx_byte_rel(pre, post)
    } else if op_class(op) == 0x7000 {
        opcodes::add_vx_byte_rel(pre, post)
    } else if op_class(op) == 0x8000 {
        if op_n(op) == 0x0 {
            opcodes::ld_vx_vy_rel(pre, post)
        } else if op_n(op) == 0x1 {
            opcodes::or_vx_vy_rel(pre, post)
        } else if op_n(op) == 0x2 {
            opcodes::and_vx_vy_rel(pre, post)
        } else if op_n(op) == 0x3 {
            opcodes::xor_vx_vy_rel(pre, post)
        } else if op_n(op) == 0x4 {
            opcodes::add_vx_vy_rel(pre, post)
        } else if op_n(op) == 0x5 {
            opcodes::sub_vx_vy_rel(pre, post)
        } else if op_n(op) == 0x6 {
            opcodes::shr_vx_vy_rel(pre, post)
        } else if op_n(op) == 0x7 {
            opcodes::subn_vx_vy_rel(pre, post)
        } else if op_n(op) == 0xE {
            opcodes::shl_vx_vy_rel(pre, post)
        } else {
            unknown_rel(pre, post)
        }
    } else if op_class(op) == 0x9000 {
        opcodes::sne_vx_vy_rel(pre, post)
    } else if op_class(op) == 0xA000 {
        opcodes::ld_i_addr_rel(pre, post)
    } else if op_class(op) == 0xB000 {
        opcodes::jp_v0_addr_rel(pre, post)
    } else if op_class(op) == 0xC000 {
        opcodes::rnd_vx_byte_rel(pre, post)
    } else if op_class(op) == 0xD000 {
        opcodes::drw_vx_vy_n_rel(pre, post)
    } else if op_class(op) == 0xE000 {
        if op_nn(op) == 0x9E {
            opcodes::skp_vx_rel(pre, post)
        } else if op_nn(op) == 0xA1 {
            opcodes::sknp_vx_rel(pre, post)
        } else {
            unknown_rel(pre, post)
        }
    } else if op_class(op) == 0xF000 {
        if op_nn(op) == 0x07 {
            opcodes::ld_vx_dt_rel(pre, post)
        } else if op_nn(op) == 0x0A {
            opcodes::ld_vx_k_rel(pre, post)
        } else if op_nn(op) == 0x15 {
            opcodes::ld_dt_vx_rel(pre, post)
        } else if op_nn(op) == 0x18 {
            opcodes::ld_st_vx_rel(pre, post)
        } else if op_nn(op) == 0x1E {
            opcodes::add_i_vx_rel(pre, post)
        } else if op_nn(op) == 0x29 {
            opcodes::ld_f_vx_rel(pre, post)
        } else if op_nn(op) == 0x33 {
            opcodes::ld_b_vx_rel(pre, post)
        } else if op_nn(op) == 0x55 {
            opcodes::ld_i_vx_rel(pre, post)
        } else if op_nn(op) == 0x65 {
            opcodes::ld_vx_i_rel(pre, post)
        } else {
            unknown_rel(pre, post)
        }
    } else {
        unknown_rel(pre, post)
    }
}

impl Vm {
    /// Decodes the current opcode word and executes exactly one instruction.
    ///
    /// The fatal conditions — stack overflow on call, stack underflow on
    /// return, and a data access through the index register beyond memory —
    /// are checked here, before the handler runs, and surfaced as an error
    /// with the machine untouched. An unrecognized bit pattern is tolerated:
    /// the program counter advances by 2 and execution continues.
    pub fn translate_opcode(&mut self) -> (r: Result<(), VmError>)
        requires
            old(self).wf(),
            old(self).pc <= 4094,
        ensures
            final(self).wf(),
            (match fatal_of(*old(self)) {
                Some(e) => r == Err::<(), VmError>(e) && same_state(*old(self), *final(self)),
                None => r == Ok::<(), VmError>(()) && dispatch_rel(*old(self), *final(self)),
            }),
    {
        proof {
            lemma_decode_bounds(self.opcode);
            lemma_class_split(self.opcode);
        }
        let cls = self.opcode & 0xF000;
        if cls == 0x0000 {
            if self.opcode == 0x00E0 {
                opcodes::cls(self);
            } else if self.opcode == 0x00EE {
                if self.sp == 0 {
                    return Err(VmError::StackUnderflow);
                }
                opcodes::ret(self);
            } else {
                self.pc = self.pc + 2;
            }
        } else if cls == 0x1000 {
            opcodes::jp_addr(self);
        } else if cls == 0x2000 {
            if self.sp >= 16 {
                return Err(VmError::StackOverflow);
            }
            opcodes::call_addr(self);
        } else if cls == 0x3000 {
            opcodes::se_vx_byte(self);
        } else if cls == 0x4000 {
            opcodes::sne_vx_byte(self);
        } else if cls == 0x5000 {
            opcodes::se_vx_vy(self);
        } else if cls == 0x6000 {
            opcodes::ld_vx_byte(self);
        } else if cls == 0x7000 {
            opcodes::add_vx_byte(self);
        } else if cls == 0x8000 {
            let sub = self.opcode & 0x000F;
            if sub == 0x0 {
                opcodes::ld_vx_vy(self);
            } else if sub == 0x1 {
                opcodes::or_vx_vy(self);
            } else if sub == 0x2 {
                opcodes::and_vx_vy(self);
            } else if sub == 0x3 {
                opcodes::xor_vx_vy(self);
            } else if sub == 0x4 {
                opcodes::add_vx_vy(self);
            } else if sub == 0x5 {
                opcodes::sub_vx_vy(self);
            } else if sub == 0x6 {
                opcodes::shr_vx_vy(self);
            } else if sub == 0x7 {
                opcodes::subn_vx_vy(self);
            } else if sub == 0xE {
                opcodes::shl_vx_vy(self);
            } else {
                self.pc = self.pc + 2;
            }
        } else if cls == 0x9000 {
            opcodes::sne_vx_vy(self);
        } else if cls == 0xA000 {
            opcodes::ld_i_addr(self);
        } else if cls == 0xB000 {
            opcodes::jp_v0_addr(self);
        } else if cls == 0xC000 {
            opcodes::rnd_vx_byte(self);
        } else if cls == 0xD000 {
            if (self.i as usize) + ((self.opcode & 0x000F) as usize) > 4096 {
                return Err(VmError::AddressOutOfBounds);
            }
            opcodes::drw_vx_vy_n(self);
        } else if cls == 0xE000 {
            let nn = self.opcode & 0x00FF;
            let x = ((self.opcode & 0x0F00) >> 8) as usize;
            if nn == 0x9E {
                if self.v[x] >= 16 {
                    return Err(VmError::KeyOutOfRange);
                }
                opcodes::skp_vx(self);
            } else if nn == 0xA1 {
                if self.v[x] >= 16 {
                    return Err(VmError::KeyOutOfRange);
                }
                opcodes::sknp_vx(self);
            } else {
                self.pc = self.pc + 2;
            }
        } else {
            let nn = self.opcode & 0x00FF;
            if nn == 0x07 {
                opcodes::ld_vx_dt(self);
            } else if nn == 0x0A {
                opcodes::ld_vx_k(self);
            } else if nn == 0x15 {
                opcodes::ld_dt_vx(self);
            } else if nn == 0x18 {
                opcodes::ld_st_vx(self);
            } else if nn == 0x1E {
                opcodes::add_i_vx(self);
            } else if nn == 0x29 {
                opcodes::ld_f_vx(self);
            } else if nn == 0x33 {
                if (self.i as usize) + 2 >= 4096 {
                    return Err(VmError::AddressOutOfBounds);
                }
                opcodes::ld_b_vx(self);
            } else if nn == 0x55 {
                let x = ((self.opcode & 0x0F00) >> 8) as usize;
                if (self.i as usize) + x >= 4096 {
                    return Err(VmError::AddressOutOfBounds);
                }
                opcodes::ld_i_vx(self);
            } else if nn == 0x65 {
                let x = ((self.opcode & 0x0F00) >> 8) as usize;
                if (self.i as usize) + x >= 4096 {
                    return Err(VmError::AddressOutOfBounds);
                }
                opcodes::ld_vx_i(self);
            } else {
                self.pc = self.pc + 2;
            }
        }
        Ok(())
    }

    /// One full cycle: fetch the opcode word at PC big-endian, execute
    /// exactly one instruction, then give both timers their tick. A fetch
    /// beyond memory, or a fatal condition of the fetched instruction,
    /// stops the cycle with the state as it was (the fetched word aside)
    /// and no timer tick.
    pub fn emulate_cycle(&mut self) -> (r: Result<(), VmError>)
        requires
            old(self).wf(),
        ensures
            final(self).wf(),
            old(self).pc > 4094 ==> r == Err::<(), VmError>(VmError::FetchOutOfBounds)
                && same_state(*old(self), *final(self)),
            old(self).pc <= 4094 ==> ({
                let fetched = with_opcode(*old(self), fetch_opcode(*old(self)));
                match fatal_of(fetched) {
                    Some(e) => r == Err::<(), VmError>(e) && same_state(fetched, *final(self)),
                    None => r == Ok::<(), VmError>(()) && exists|mid: Vm|
                        #[trigger] dispatch_rel(fetched, mid) && tick_rel(mid, *final(self)),
                }
            }),
    {
        if self.pc > 4094 {
            return Err(VmError::FetchOutOfBounds);
        }
        let pc = self.pc as usize;
        let hi = self.ram[pc];
        let lo = self.ram[pc + 1];
        self.opcode = ((hi as u16) << 8) | (lo as u16);
        proof {
            assert(*self == with_opcode(*old(self), fetch_opcode(*old(self))));
        }
        match self.translate_opcode() {
            Err(e) => {
                return Err(e);
            },
            Ok(()) => {},
        }
        let ghost mid = *self;
        self.update_timers();
        proof {
            let fetched = with_opcode(*old(self), fetch_opcode(*old(self)));
            assert(dispatch_rel(fetched, mid) && tick_rel(mid, *self));
        }
        Ok(())
    }
}

/// The built-in font: 16 glyphs of 5 rows each, one glyph per hexadecimal
/// digit, the high nibble of each byte holding the four pixels of one row.
pub open spec fn font_seq() -> Seq<u8> {
    seq![
        0xF0u8, 0x90, 0x90, 0x90, 0xF0,  // 0
        0x20, 0x60, 0x20, 0x20, 0x70,  // 1
        0xF0, 0x10, 0xF0, 0x80, 0xF0,  // 2
        0xF0, 0x10, 0xF0, 0x10, 0xF0,  // 3
        0x90, 0x90, 0xF0, 0x10, 0x10,  // 4
        0xF0, 0x80, 0xF0, 0x10, 0xF0,  // 5
        0xF0, 0x80, 0xF0, 0x90, 0xF0,  // 6
        0xF0, 0x10, 0x20, 0x40, 0x40,  // 7
        0xF0, 0x90, 0xF0, 0x90, 0xF0,  // 8
        0xF0, 0x90, 0xF0, 0x10, 0xF0,  // 9
        0xF0, 0x90, 0xF0, 0x90, 0x90,  // A
        0xE0, 0x90, 0xE0, 0x90, 0xE0,  // B
        0xF0, 0x80, 0x80, 0x80, 0xF0,  // C
        0xE0, 0x90, 0x90, 0x90, 0xE0,  // D
        0xF0, 0x80, 0xF0, 0x80, 0xF0,  // E
        0xF0, 0x80, 0xF0, 0x80, 0x80,  // F
    ]
}

/// The font as a vector, in glyph order.
fn font_bytes() -> (f: Vec<u8>)
    ensures
        f@ == font_seq(),
{
    let mut f: Vec<u8> = Vec::new();
    f.push(0xF0); f.push(0x90); f.push(0x90); f.push(0x90); f.push(0xF0);  // 0
    f.push(0x20); f.push(0x60); f.push(0x20); f.push(0x20); f.push(0x70);  // 1
    f.push(0xF0); f.push(0x10); f.push(0xF0); f.push(0x80); f.push(0xF0);  // 2
    f.push(0xF0); f.push(0x10); f.push(0xF0); f.push(0x10); f.push(0xF0);  // 3
    f.push(0x90); f.push(0x90); f.push(0xF0); f.push(0x10); f.push(0x10);  // 4
    f.push(0xF0); f.push(0x80); f.push(0xF0); f.push(0x10); f.push(0xF0);  // 5
    f.push(0xF0); f.push(0x80); f.push(0xF0); f.push(0x90); f.push(0xF0);  // 6
    f.push(0xF0); f.push(0x10); f.push(0x20); f.push(0x40); f.push(0x40);  // 7
    f.push(0xF0); f.push(0x90); f.push(0xF0); f.push(0x90); f.push(0xF0);  // 8
    f.push(0xF0); f.push(0x90); f.push(0xF0); f.push(0x10); f.push(0xF0);  // 9
    f.push(0xF0); f.push(0x90); f.push(0xF0); f.push(0x90); f.push(0x90);  // A
    f.push(0xE0); f.push(0x90); f.push(0xE0); f.push(0x90); f.push(0xE0);  // B
    f.push(0xF0); f.push(0x80); f.push(0x80); f.push(0x80); f.push(0xF0);  // C
    f.push(0xE0); f.push(0x90); f.push(0x90); f.push(0x90); f.push(0xE0);  // D
    f.push(0xF0); f.push(0x80); f.push(0xF0); f.push(0x80); f.push(0xF0);  // E
    f.push(0xF0); f.push(0x80); f.push(0xF0); f.push(0x80); f.push(0x80);  // F
    assert(f@ =~= font_seq());
    f
}

} // verus!
