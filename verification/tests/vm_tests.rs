use chip8::vm::{Vm, VmError};

#[test]
fn test_init_state() {
    let vm = Vm::init();
    assert_eq!(vm.pc, 0x200);
    assert_eq!(vm.i, 0);
    assert_eq!(vm.opcode, 0);
    assert_eq!(vm.sp, 0);
    assert_eq!(vm.delay_timer, 0);
    assert_eq!(vm.sound_timer, 0);
    assert!(vm.draw_flag);
    assert_eq!(vm.ram.len(), 4096);
    assert_eq!(vm.v.len(), 16);
    assert_eq!(vm.screen.len(), 2048);
    assert_eq!(vm.key_states.len(), 16);
    assert_eq!(vm.stack.len(), 16);
    assert!(vm.ram.iter().all(|&b| b == 0));
    assert!(vm.screen.iter().all(|&p| p == 0));
    assert!(vm.key_states.iter().all(|&k| !k));
}

#[test]
fn test_new_loads_font() {
    let vm = Vm::new();
    assert_eq!(vm.pc, 0x200);
    // Glyph 0 starts with 0xF0 and ends with 0xF0.
    assert_eq!(vm.ram[0], 0xF0);
    assert_eq!(vm.ram[4], 0xF0);
    // Glyph 1 starts with 0x20.
    assert_eq!(vm.ram[5], 0x20);
    // Last byte of glyph F.
    assert_eq!(vm.ram[79], 0x80);
    // Memory above the font is untouched.
    assert_eq!(vm.ram[80], 0);
    assert_eq!(vm.ram[0x200], 0);
}

#[test]
fn test_load_game_copies_bytes() {
    let mut vm = Vm::new();
    let rom: Vec<u8> = vec![0x12, 0x34, 0x56];
    let r = vm.load_game(&rom);
    assert_eq!(r, Ok(()));
    assert_eq!(vm.ram[0x200], 0x12);
    assert_eq!(vm.ram[0x201], 0x34);
    assert_eq!(vm.ram[0x202], 0x56);
    assert_eq!(vm.ram[0x203], 0);
    assert_eq!(vm.ram[0x1FF], 0);
}

#[test]
fn test_load_game_too_large() {
    let mut vm = Vm::new();
    let rom: Vec<u8> = vec![0xAB; 3585];
    let r = vm.load_game(&rom);
    assert_eq!(r, Err(VmError::RomTooLarge));
    assert_eq!(vm.ram[0x200], 0);
}

#[test]
fn test_load_game_largest_fit() {
    let mut vm = Vm::new();
    let rom: Vec<u8> = vec![0xCD; 3584];
    let r = vm.load_game(&rom);
    assert_eq!(r, Ok(()));
    assert_eq!(vm.ram[0xFFF], 0xCD);
}

#[test]
fn test_fetch_composes_opcode() {
    // The two bytes at PC compose big-endian: (b0 << 8) | b1.
    let mut vm = Vm::init();
    vm.ram[0x200] = 0x12;
    vm.ram[0x201] = 0x34;
    let r = vm.emulate_cycle();
    assert_eq!(r, Ok(()));
    assert_eq!(vm.opcode, 0x1234);
    assert_eq!(vm.opcode, (0x12u16 << 8) | 0x34u16);
    // 0x1234 is a jump: PC takes the low three nibbles.
    assert_eq!(vm.pc, 0x234);
}

#[test]
fn test_unknown_opcode_advances_pc_only() {
    // A reserved class-zero pattern: everything but PC stays put.
    let mut vm = Vm::init();
    vm.v[5] = 7;
    vm.i = 0x321;
    vm.ram[0x300] = 99;
    let r = vm.emulate_cycle();
    assert_eq!(r, Ok(()));
    assert_eq!(vm.pc, 0x202);
    assert_eq!(vm.v[5], 7);
    assert_eq!(vm.v[0xF], 0);
    assert_eq!(vm.i, 0x321);
    assert_eq!(vm.ram[0x300], 99);
    assert_eq!(vm.sp, 0);
    assert!(vm.screen.iter().all(|&p| p == 0));
}

#[test]
fn test_timer_decrement_to_zero_and_stays() {
    // Delay timer 5 reads 0 after five cycles of timer-neutral opcodes and
    // stays there.
    let mut vm = Vm::init();
    vm.delay_timer = 5;
    for k in 0..5 {
        assert_eq!(vm.delay_timer, 5 - k);
        let r = vm.emulate_cycle();
        assert_eq!(r, Ok(()));
    }
    assert_eq!(vm.delay_timer, 0);
    for _ in 0..3 {
        let r = vm.emulate_cycle();
        assert_eq!(r, Ok(()));
        assert_eq!(vm.delay_timer, 0);
    }
}

#[test]
fn test_sound_timer_edge() {
    let mut vm = Vm::init();
    vm.sound_timer = 2;
    assert_eq!(vm.emulate_cycle(), Ok(()));
    assert_eq!(vm.sound_timer, 1);
    assert_eq!(vm.emulate_cycle(), Ok(()));
    assert_eq!(vm.sound_timer, 0);
    assert_eq!(vm.emulate_cycle(), Ok(()));
    assert_eq!(vm.sound_timer, 0);
}

#[test]
fn test_fetch_out_of_bounds() {
    let mut vm = Vm::init();
    vm.pc = 4095;
    let r = vm.emulate_cycle();
    assert_eq!(r, Err(VmError::FetchOutOfBounds));
    assert_eq!(vm.pc, 4095);
}

#[test]
fn test_stack_underflow_on_return() {
    let mut vm = Vm::init();
    vm.ram[0x200] = 0x00;
    vm.ram[0x201] = 0xEE;
    let r = vm.emulate_cycle();
    assert_eq!(r, Err(VmError::StackUnderflow));
    assert_eq!(vm.pc, 0x200);
    assert_eq!(vm.sp, 0);
}

#[test]
fn test_stack_overflow_on_call() {
    let mut vm = Vm::init();
    vm.ram[0x200] = 0x23;
    vm.ram[0x201] = 0x00;
    vm.sp = 16;
    let r = vm.emulate_cycle();
    assert_eq!(r, Err(VmError::StackOverflow));
    assert_eq!(vm.pc, 0x200);
    assert_eq!(vm.sp, 16);
}

#[test]
fn test_call_and_return() {
    let mut vm = Vm::init();
    // 0x200: call 0x300; 0x300: return.
    vm.ram[0x200] = 0x23;
    vm.ram[0x201] = 0x00;
    vm.ram[0x300] = 0x00;
    vm.ram[0x301] = 0xEE;
    assert_eq!(vm.emulate_cycle(), Ok(()));
    assert_eq!(vm.pc, 0x300);
    assert_eq!(vm.sp, 1);
    assert_eq!(vm.stack[0], 0x200);
    assert_eq!(vm.emulate_cycle(), Ok(()));
    assert_eq!(vm.pc, 0x202);
    assert_eq!(vm.sp, 0);
}

#[test]
fn test_draw_address_out_of_bounds() {
    let mut vm = Vm::init();
    // Draw five rows with the index register too close to the end of memory.
    vm.ram[0x200] = 0xD0;
    vm.ram[0x201] = 0x15;
    vm.i = 4092;
    let r = vm.emulate_cycle();
    assert_eq!(r, Err(VmError::AddressOutOfBounds));
    assert_eq!(vm.pc, 0x200);
    assert_eq!(vm.v[0xF], 0);
}

#[test]
fn test_key_out_of_range() {
    let mut vm = Vm::init();
    vm.ram[0x200] = 0xE1;
    vm.ram[0x201] = 0x9E;
    vm.v[1] = 16;
    let r = vm.emulate_cycle();
    assert_eq!(r, Err(VmError::KeyOutOfRange));
    assert_eq!(vm.pc, 0x200);
}

#[test]
fn test_bcd_address_out_of_bounds() {
    let mut vm = Vm::init();
    vm.ram[0x200] = 0xF1;
    vm.ram[0x201] = 0x33;
    vm.i = 4094;
    let r = vm.emulate_cycle();
    assert_eq!(r, Err(VmError::AddressOutOfBounds));
    assert_eq!(vm.pc, 0x200);
}

#[test]
fn test_register_dump_address_out_of_bounds() {
    let mut vm = Vm::init();
    // Dump V0..V3 with only three bytes of memory left.
    vm.ram[0x200] = 0xF3;
    vm.ram[0x201] = 0x55;
    vm.i = 4093;
    let r = vm.emulate_cycle();
    assert_eq!(r, Err(VmError::AddressOutOfBounds));
    assert_eq!(vm.pc, 0x200);
}

#[test]
fn test_block_on_key_holds_pc() {
    // No key pressed: the same instruction is re-fetched next cycle.
    let mut vm = Vm::init();
    vm.ram[0x200] = 0xF1;
    vm.ram[0x201] = 0x0A;
    let r = vm.emulate_cycle();
    assert_eq!(r, Ok(()));
    assert_eq!(vm.pc, 0x200);
}

#[test]
fn test_block_on_key_takes_pressed_key() {
    let mut vm = Vm::init();
    vm.ram[0x200] = 0xF1;
    vm.ram[0x201] = 0x0A;
    vm.key_states[0x3] = true;
    let r = vm.emulate_cycle();
    assert_eq!(r, Ok(()));
    assert_eq!(vm.v[1], 0x3);
    assert_eq!(vm.pc, 0x202);
}

#[test]
fn test_update_timers_direct() {
    let mut vm = Vm::init();
    vm.delay_timer = 2;
    vm.sound_timer = 1;
    vm.update_timers();
    assert_eq!(vm.delay_timer, 1);
    assert_eq!(vm.sound_timer, 0);
    vm.update_timers();
    assert_eq!(vm.delay_timer, 0);
    assert_eq!(vm.sound_timer, 0);
}

#[test]
fn test_load_font_direct() {
    let mut vm = Vm::init();
    vm.load_font();
    assert_eq!(vm.ram[0], 0xF0);
    assert_eq!(vm.ram[9], 0x70);
    assert_eq!(vm.ram[79], 0x80);
    assert_eq!(vm.ram[80], 0);
}

#[test]
fn test_translate_unknown_in_class_8() {
    let mut vm = Vm::init();
    vm.opcode = 0x812F;
    vm.v[1] = 11;
    vm.v[2] = 22;
    let r = vm.translate_opcode();
    assert_eq!(r, Ok(()));
    assert_eq!(vm.pc, 0x202);
    assert_eq!(vm.v[1], 11);
    assert_eq!(vm.v[2], 22);
    assert_eq!(vm.v[0xF], 0);
}

#[test]
fn test_translate_unknown_in_class_e() {
    let mut vm = Vm::init();
    vm.opcode = 0xE1FF;
    let r = vm.translate_opcode();
    assert_eq!(r, Ok(()));
    assert_eq!(vm.pc, 0x202);
}

#[test]
fn test_small_program_runs() {
    // v1 = 5; v1 += 3; jump back to the start.
    let mut vm = Vm::new();
    let rom: Vec<u8> = vec![0x61, 0x05, 0x71, 0x03, 0x12, 0x00];
    assert_eq!(vm.load_game(&rom), Ok(()));
    assert_eq!(vm.emulate_cycle(), Ok(()));
    assert_eq!(vm.v[1], 5);
    assert_eq!(vm.pc, 0x202);
    assert_eq!(vm.emulate_cycle(), Ok(()));
    assert_eq!(vm.v[1], 8);
    assert_eq!(vm.pc, 0x204);
    assert_eq!(vm.emulate_cycle(), Ok(()));
    assert_eq!(vm.pc, 0x200);
}

#[test]
fn test_set_keys_is_inert() {
    let vm = Vm::init();
    vm.set_keys();
    assert_eq!(vm.pc, 0x200);
}
