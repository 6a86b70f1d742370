use chip8::opcodes::{
    add_i_vx, add_vx_byte, add_vx_vy, and_vx_vy, call_addr, cls, drw_vx_vy_n, jp_addr, jp_v0_addr,
    ld_b_vx, ld_dt_vx, ld_f_vx, ld_i_addr, ld_i_vx, ld_st_vx, ld_vx_byte, ld_vx_dt, ld_vx_i,
    ld_vx_k, ld_vx_vy, or_vx_vy, ret, rnd_vx_byte, se_vx_byte, se_vx_vy, shl_vx_vy, shr_vx_vy,
    sknp_vx, skp_vx, sne_vx_byte, sne_vx_vy, sub_vx_vy, subn_vx_vy, xor_vx_vy,
};
use chip8::vm::Vm;

fn vm_with(op: u16) -> Vm {
    let mut vm = Vm::init();
    vm.opcode = op;
    vm
}

#[test]
fn test_cls_clears_and_marks_dirty() {
    let mut vm = vm_with(0x00E0);
    vm.screen[123] = 1;
    vm.draw_flag = false;
    cls(&mut vm);
    assert!(vm.screen.iter().all(|&p| p == 0));
    assert!(vm.draw_flag);
    assert_eq!(vm.pc, 0x202);
}

#[test]
fn test_jp_addr() {
    let mut vm = vm_with(0x1ABC);
    jp_addr(&mut vm);
    assert_eq!(vm.pc, 0xABC);
}

#[test]
fn test_call_then_ret() {
    let mut vm = vm_with(0x2400);
    call_addr(&mut vm);
    assert_eq!(vm.pc, 0x400);
    assert_eq!(vm.sp, 1);
    assert_eq!(vm.stack[0], 0x200);
    vm.opcode = 0x00EE;
    ret(&mut vm);
    assert_eq!(vm.pc, 0x202);
    assert_eq!(vm.sp, 0);
}

#[test]
fn test_se_vx_byte() {
    let mut vm = vm_with(0x3142);
    vm.v[1] = 0x42;
    se_vx_byte(&mut vm);
    assert_eq!(vm.pc, 0x204);
    let mut vm = vm_with(0x3142);
    vm.v[1] = 0x41;
    se_vx_byte(&mut vm);
    assert_eq!(vm.pc, 0x202);
}

#[test]
fn test_sne_vx_byte() {
    let mut vm = vm_with(0x4142);
    vm.v[1] = 0x42;
    sne_vx_byte(&mut vm);
    assert_eq!(vm.pc, 0x202);
    let mut vm = vm_with(0x4142);
    vm.v[1] = 0x00;
    sne_vx_byte(&mut vm);
    assert_eq!(vm.pc, 0x204);
}

#[test]
fn test_se_and_sne_vx_vy() {
    let mut vm = vm_with(0x5120);
    vm.v[1] = 9;
    vm.v[2] = 9;
    se_vx_vy(&mut vm);
    assert_eq!(vm.pc, 0x204);
    let mut vm = vm_with(0x9120);
    vm.v[1] = 9;
    vm.v[2] = 8;
    sne_vx_vy(&mut vm);
    assert_eq!(vm.pc, 0x204);
}

#[test]
fn test_ld_vx_byte() {
    let mut vm = vm_with(0x6A77);
    ld_vx_byte(&mut vm);
    assert_eq!(vm.v[0xA], 0x77);
    assert_eq!(vm.pc, 0x202);
}

#[test]
fn test_add_vx_byte_wraps_without_flag() {
    let mut vm = vm_with(0x7102);
    vm.v[1] = 255;
    vm.v[0xF] = 0;
    add_vx_byte(&mut vm);
    assert_eq!(vm.v[1], 1);
    assert_eq!(vm.v[0xF], 0);
    assert_eq!(vm.pc, 0x202);
}

#[test]
fn test_ld_or_and_xor() {
    let mut vm = vm_with(0x8120);
    vm.v[2] = 0x5A;
    ld_vx_vy(&mut vm);
    assert_eq!(vm.v[1], 0x5A);

    let mut vm = vm_with(0x8121);
    vm.v[1] = 0b1100;
    vm.v[2] = 0b1010;
    or_vx_vy(&mut vm);
    assert_eq!(vm.v[1], 0b1110);

    let mut vm = vm_with(0x8122);
    vm.v[1] = 0b1100;
    vm.v[2] = 0b1010;
    and_vx_vy(&mut vm);
    assert_eq!(vm.v[1], 0b1000);

    let mut vm = vm_with(0x8123);
    vm.v[1] = 0b1100;
    vm.v[2] = 0b1010;
    xor_vx_vy(&mut vm);
    assert_eq!(vm.v[1], 0b0110);
}

#[test]
fn test_add_vx_vy_carry() {
    // Carry set exactly when the unsigned sum exceeds 255; result is mod 256.
    let mut vm = vm_with(0x8124);
    vm.v[1] = 200;
    vm.v[2] = 100;
    add_vx_vy(&mut vm);
    assert_eq!(vm.v[1], 44);
    assert_eq!(vm.v[0xF], 1);

    let mut vm = vm_with(0x8124);
    vm.v[1] = 155;
    vm.v[2] = 100;
    vm.v[0xF] = 1;
    add_vx_vy(&mut vm);
    assert_eq!(vm.v[1], 255);
    assert_eq!(vm.v[0xF], 0);
}

#[test]
fn test_sub_vx_vy_borrow() {
    // VF is 1 exactly when there is no borrow (Vx >= Vy); result is mod 256.
    let mut vm = vm_with(0x8125);
    vm.v[1] = 100;
    vm.v[2] = 30;
    sub_vx_vy(&mut vm);
    assert_eq!(vm.v[1], 70);
    assert_eq!(vm.v[0xF], 1);

    let mut vm = vm_with(0x8125);
    vm.v[1] = 30;
    vm.v[2] = 100;
    sub_vx_vy(&mut vm);
    assert_eq!(vm.v[1], 186);
    assert_eq!(vm.v[0xF], 0);
}

#[test]
fn test_subn_vx_vy() {
    let mut vm = vm_with(0x8127);
    vm.v[1] = 30;
    vm.v[2] = 100;
    subn_vx_vy(&mut vm);
    assert_eq!(vm.v[1], 70);
    assert_eq!(vm.v[0xF], 1);

    let mut vm = vm_with(0x8127);
    vm.v[1] = 100;
    vm.v[2] = 30;
    subn_vx_vy(&mut vm);
    assert_eq!(vm.v[1], 186);
    assert_eq!(vm.v[0xF], 0);
}

#[test]
fn test_shr_flag_is_pre_shift_bit0() {
    // VF takes the pre-shift bit 0 of Vx, whatever Vy holds.
    let mut vm = vm_with(0x8126);
    vm.v[1] = 0b1011;
    vm.v[2] = 0xFF;
    shr_vx_vy(&mut vm);
    assert_eq!(vm.v[0xF], 1);
    assert_eq!(vm.v[1], 0b101);

    let mut vm = vm_with(0x8126);
    vm.v[1] = 0b1010;
    vm.v[2] = 0x01;
    shr_vx_vy(&mut vm);
    assert_eq!(vm.v[0xF], 0);
    assert_eq!(vm.v[1], 0b101);
}

#[test]
fn test_shl_flag_is_pre_shift_bit7() {
    let mut vm = vm_with(0x812E);
    vm.v[1] = 0b1000_0001;
    shl_vx_vy(&mut vm);
    assert_eq!(vm.v[0xF], 1);
    assert_eq!(vm.v[1], 0b0000_0010);

    let mut vm = vm_with(0x812E);
    vm.v[1] = 0b0100_0000;
    shl_vx_vy(&mut vm);
    assert_eq!(vm.v[0xF], 0);
    assert_eq!(vm.v[1], 0b1000_0000);
}

#[test]
fn test_ld_i_addr() {
    let mut vm = vm_with(0xA123);
    ld_i_addr(&mut vm);
    assert_eq!(vm.i, 0x123);
    assert_eq!(vm.pc, 0x202);
}

#[test]
fn test_jp_v0_addr() {
    let mut vm = vm_with(0xB300);
    vm.v[0] = 0x21;
    jp_v0_addr(&mut vm);
    assert_eq!(vm.pc, 0x321);
}

#[test]
fn test_rnd_with_zero_mask_is_zero() {
    // Whatever byte the generator hands back, a zero mask clears it.
    let mut vm = vm_with(0xC100);
    vm.v[1] = 0xAA;
    rnd_vx_byte(&mut vm);
    assert_eq!(vm.v[1], 0);
    assert_eq!(vm.pc, 0x202);
}

#[test]
fn test_rnd_respects_mask() {
    for _ in 0..32 {
        let mut vm = vm_with(0xC50F);
        rnd_vx_byte(&mut vm);
        assert!(vm.v[5] <= 0x0F);
    }
}

#[test]
fn test_draw_sets_pixels_and_flag() {
    let mut vm = vm_with(0xD121);
    vm.v[1] = 8;
    vm.v[2] = 3;
    vm.i = 0x500;
    vm.ram[0x500] = 0b1010_0000;
    vm.draw_flag = false;
    drw_vx_vy_n(&mut vm);
    assert_eq!(vm.screen[3 * 64 + 8], 1);
    assert_eq!(vm.screen[3 * 64 + 9], 0);
    assert_eq!(vm.screen[3 * 64 + 10], 1);
    assert_eq!(vm.v[0xF], 0);
    assert!(vm.draw_flag);
    assert_eq!(vm.pc, 0x202);
}

#[test]
fn test_draw_wraps_columns() {
    // x = 60: the eight sprite columns land on 60..63 and wrap to 0..3.
    let mut vm = vm_with(0xD121);
    vm.v[1] = 60;
    vm.v[2] = 5;
    vm.i = 0x500;
    vm.ram[0x500] = 0xFF;
    drw_vx_vy_n(&mut vm);
    for col in [60usize, 61, 62, 63, 0, 1, 2, 3] {
        assert_eq!(vm.screen[5 * 64 + col], 1);
    }
    assert_eq!(vm.screen[5 * 64 + 4], 0);
    assert_eq!(vm.screen[5 * 64 + 59], 0);
    assert_eq!(vm.v[0xF], 0);
}

#[test]
fn test_draw_wraps_rows() {
    // y = 31 with two rows: the second row wraps to the top of the screen.
    let mut vm = vm_with(0xD122);
    vm.v[1] = 0;
    vm.v[2] = 31;
    vm.i = 0x500;
    vm.ram[0x500] = 0x80;
    vm.ram[0x501] = 0x80;
    drw_vx_vy_n(&mut vm);
    assert_eq!(vm.screen[31 * 64], 1);
    assert_eq!(vm.screen[0], 1);
}

#[test]
fn test_draw_collision_flag() {
    // Drawing over set pixels toggles them off and reports the collision.
    let mut vm = vm_with(0xD121);
    vm.v[1] = 0;
    vm.v[2] = 0;
    vm.i = 0x500;
    vm.ram[0x500] = 0b1100_0000;
    vm.screen[0] = 1;
    drw_vx_vy_n(&mut vm);
    assert_eq!(vm.v[0xF], 1);
    assert_eq!(vm.screen[0], 0);
    assert_eq!(vm.screen[1], 1);
}

#[test]
fn test_draw_twice_restores_previously_set_region() {
    // All covered pixels set beforehand: the first draw clears them
    // (collision), the second restores them with VF back at 0.
    let mut vm = vm_with(0xD121);
    vm.v[1] = 4;
    vm.v[2] = 2;
    vm.i = 0x500;
    vm.ram[0x500] = 0b1111_0000;
    for col in 4..8 {
        vm.screen[2 * 64 + col] = 1;
    }
    let before: Vec<u8> = vm.screen.clone();
    drw_vx_vy_n(&mut vm);
    assert_eq!(vm.v[0xF], 1);
    assert!(vm.screen.iter().all(|&p| p == 0));
    vm.opcode = 0xD121;
    vm.pc = 0x200;
    drw_vx_vy_n(&mut vm);
    assert_eq!(vm.screen, before);
    assert_eq!(vm.v[0xF], 0);
}

#[test]
fn test_draw_twice_restores_blank_screen() {
    // Double-XOR restores a blank framebuffer too; there the second draw
    // necessarily toggles freshly drawn pixels off, so it reports VF = 1.
    let mut vm = vm_with(0xD122);
    vm.v[1] = 10;
    vm.v[2] = 7;
    vm.i = 0x500;
    vm.ram[0x500] = 0xA5;
    vm.ram[0x501] = 0x5A;
    drw_vx_vy_n(&mut vm);
    vm.opcode = 0xD122;
    vm.pc = 0x200;
    drw_vx_vy_n(&mut vm);
    assert!(vm.screen.iter().all(|&p| p == 0));
    assert_eq!(vm.v[0xF], 1);
}

#[test]
fn test_skp_and_sknp() {
    let mut vm = vm_with(0xE19E);
    vm.v[1] = 0x4;
    vm.key_states[0x4] = true;
    skp_vx(&mut vm);
    assert_eq!(vm.pc, 0x204);

    let mut vm = vm_with(0xE19E);
    vm.v[1] = 0x4;
    skp_vx(&mut vm);
    assert_eq!(vm.pc, 0x202);

    let mut vm = vm_with(0xE1A1);
    vm.v[1] = 0x4;
    sknp_vx(&mut vm);
    assert_eq!(vm.pc, 0x204);

    let mut vm = vm_with(0xE1A1);
    vm.v[1] = 0x4;
    vm.key_states[0x4] = true;
    sknp_vx(&mut vm);
    assert_eq!(vm.pc, 0x202);
}

#[test]
fn test_timer_transfers() {
    let mut vm = vm_with(0xF107);
    vm.delay_timer = 42;
    ld_vx_dt(&mut vm);
    assert_eq!(vm.v[1], 42);

    let mut vm = vm_with(0xF215);
    vm.v[2] = 77;
    ld_dt_vx(&mut vm);
    assert_eq!(vm.delay_timer, 77);

    let mut vm = vm_with(0xF318);
    vm.v[3] = 99;
    ld_st_vx(&mut vm);
    assert_eq!(vm.sound_timer, 99);
}

#[test]
fn test_block_on_key_picks_lowest_pressed() {
    let mut vm = vm_with(0xF50A);
    vm.key_states[0xB] = true;
    vm.key_states[0x6] = true;
    ld_vx_k(&mut vm);
    assert_eq!(vm.v[5], 0x6);
    assert_eq!(vm.pc, 0x202);
}

#[test]
fn test_block_on_key_no_key_is_a_no_op() {
    let mut vm = vm_with(0xF50A);
    vm.v[5] = 123;
    ld_vx_k(&mut vm);
    assert_eq!(vm.v[5], 123);
    assert_eq!(vm.pc, 0x200);
}

#[test]
fn test_add_i_vx_wraps_at_16_bits() {
    let mut vm = vm_with(0xF11E);
    vm.i = 0x0FFE;
    vm.v[1] = 4;
    add_i_vx(&mut vm);
    assert_eq!(vm.i, 0x1002);

    let mut vm = vm_with(0xF11E);
    vm.i = 0xFFFF;
    vm.v[1] = 2;
    add_i_vx(&mut vm);
    assert_eq!(vm.i, 1);
}

#[test]
fn test_font_address() {
    let mut vm = vm_with(0xF129);
    vm.v[1] = 0xA;
    ld_f_vx(&mut vm);
    assert_eq!(vm.i, 50);

    // A register value above 0xF takes its glyph index modulo the table.
    let mut vm = vm_with(0xF129);
    vm.v[1] = 0x1A;
    ld_f_vx(&mut vm);
    assert_eq!(vm.i, 50);
}

#[test]
fn test_bcd_store() {
    let mut vm = vm_with(0xF133);
    vm.v[1] = 229;
    vm.i = 0x300;
    ld_b_vx(&mut vm);
    assert_eq!(vm.ram[0x300], 2);
    assert_eq!(vm.ram[0x301], 2);
    assert_eq!(vm.ram[0x302], 9);
    assert_eq!(vm.pc, 0x202);
}

#[test]
fn test_bcd_store_small_value() {
    let mut vm = vm_with(0xF233);
    vm.v[2] = 7;
    vm.i = 0x300;
    ld_b_vx(&mut vm);
    assert_eq!(vm.ram[0x300], 0);
    assert_eq!(vm.ram[0x301], 0);
    assert_eq!(vm.ram[0x302], 7);
}

#[test]
fn test_register_dump_and_load_round_trip() {
    // Store V0..V3 = [1,2,3,4] at I, clear the registers, load them back.
    let mut vm = vm_with(0xF355);
    vm.v[0] = 1;
    vm.v[1] = 2;
    vm.v[2] = 3;
    vm.v[3] = 4;
    vm.v[4] = 0xEE;
    vm.i = 0x400;
    ld_i_vx(&mut vm);
    assert_eq!(vm.ram[0x400], 1);
    assert_eq!(vm.ram[0x401], 2);
    assert_eq!(vm.ram[0x402], 3);
    assert_eq!(vm.ram[0x403], 4);
    assert_eq!(vm.ram[0x404], 0);
    for k in 0..4 {
        vm.v[k] = 0;
    }
    vm.opcode = 0xF365;
    vm.pc = 0x200;
    ld_vx_i(&mut vm);
    assert_eq!(&vm.v[0..4], &[1, 2, 3, 4]);
    assert_eq!(vm.v[4], 0xEE);
    assert_eq!(vm.pc, 0x202);
}
