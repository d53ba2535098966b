use chip8::vm::{VM, VmError};

#[test]
fn new_machine_state() {
    let vm = VM::new();
    assert_eq!(vm.pc(), 0x200);
    assert_eq!(vm.index(), 0);
    assert_eq!(vm.delay_timer(), 0);
    assert_eq!(vm.sound_timer(), 0);
    for x in 0..16u8 {
        assert_eq!(vm.register(x), 0);
    }
}

#[test]
fn font_resident_in_low_memory() {
    let vm = VM::new();
    // glyph 0 starts with 0xF0, glyph 1 with 0x20, glyph F ends with 0x80
    assert_eq!(vm.ram_at(0), 0xF0);
    assert_eq!(vm.ram_at(5), 0x20);
    assert_eq!(vm.ram_at(79), 0x80);
    assert_eq!(vm.ram_at(80), 0);
    assert_eq!(vm.ram_at(0x200), 0);
}

#[test]
fn load_immediate_reads_back() {
    let mut vm = VM::new();
    vm.ld_vx_kk(0, 0x05);
    assert_eq!(vm.register(0), 0x05);
    vm.ld_vx_kk(7, 0xFF);
    assert_eq!(vm.register(7), 0xFF);
    vm.ld_vx_kk(15, 0xAB);
    assert_eq!(vm.register(15), 0xAB);
    vm.ld_vx_kk(7, 0x00);
    assert_eq!(vm.register(7), 0x00);
}

#[test]
fn add_immediate_wraps_without_flag() {
    let mut vm = VM::new();
    vm.ld_vx_kk(1, 250);
    vm.ld_vx_kk(15, 0);
    vm.add_vx_kk(1, 10);
    assert_eq!(vm.register(1), 4);
    assert_eq!(vm.register(15), 0); // no carry flag for 7xkk
}

#[test]
fn add_registers_no_carry() {
    let mut vm = VM::new();
    vm.ld_vx_kk(0, 5);
    vm.ld_vx_kk(1, 3);
    vm.add_vx_vy(0, 1);
    assert_eq!(vm.register(0), 8);
    assert_eq!(vm.register(15), 0);
}

#[test]
fn add_registers_with_carry() {
    let mut vm = VM::new();
    vm.ld_vx_kk(2, 0xFF);
    vm.ld_vx_kk(3, 0x01);
    vm.add_vx_vy(2, 3);
    assert_eq!(vm.register(2), 0);
    assert_eq!(vm.register(15), 1);
}

#[test]
fn add_registers_carry_boundary() {
    let mut vm = VM::new();
    vm.ld_vx_kk(2, 0xFF);
    vm.ld_vx_kk(3, 0x00);
    vm.add_vx_vy(2, 3);
    assert_eq!(vm.register(2), 0xFF);
    assert_eq!(vm.register(15), 0); // sum of exactly 255 carries nothing
}

#[test]
fn sub_registers_flag_is_strict_greater() {
    let mut vm = VM::new();
    vm.ld_vx_kk(0, 9);
    vm.ld_vx_kk(1, 4);
    vm.sub_vx_vy(0, 1);
    assert_eq!(vm.register(0), 5);
    assert_eq!(vm.register(15), 1);

    vm.ld_vx_kk(0, 4);
    vm.ld_vx_kk(1, 9);
    vm.sub_vx_vy(0, 1);
    assert_eq!(vm.register(0), 251); // 4 - 9 wraps
    assert_eq!(vm.register(15), 0);

    vm.ld_vx_kk(0, 7);
    vm.ld_vx_kk(1, 7);
    vm.sub_vx_vy(0, 1);
    assert_eq!(vm.register(0), 0);
    assert_eq!(vm.register(15), 0); // equal operands: no flag
}

#[test]
fn subn_registers_flag() {
    let mut vm = VM::new();
    vm.ld_vx_kk(0, 4);
    vm.ld_vx_kk(1, 9);
    vm.subn_vx_vy(0, 1);
    assert_eq!(vm.register(0), 5);
    assert_eq!(vm.register(15), 1);

    vm.ld_vx_kk(0, 9);
    vm.ld_vx_kk(1, 4);
    vm.subn_vx_vy(0, 1);
    assert_eq!(vm.register(0), 251);
    assert_eq!(vm.register(15), 0);
}

#[test]
fn shift_right_sets_vf_to_lsb() {
    for vx in [0u8, 1, 2, 3, 0x80, 0x81, 0xFE, 0xFF] {
        let mut vm = VM::new();
        vm.ld_vx_kk(4, vx);
        vm.shr_vx_vy(4, 0);
        assert_eq!(vm.register(15), vx & 1);
        assert_eq!(vm.register(4), vx >> 1);
    }
}

#[test]
fn shift_left_sets_vf_to_msb() {
    for vx in [0u8, 1, 0x7F, 0x80, 0x81, 0xFF] {
        let mut vm = VM::new();
        vm.ld_vx_kk(4, vx);
        vm.shl_vx_vy(4, 0);
        assert_eq!(vm.register(15), vx >> 7);
        assert_eq!(vm.register(4), vx << 1);
    }
}

#[test]
fn bitwise_ops() {
    let mut vm = VM::new();
    vm.ld_vx_kk(0, 0b1100);
    vm.ld_vx_kk(1, 0b1010);
    vm.or_vx_vy(0, 1);
    assert_eq!(vm.register(0), 0b1110);

    vm.ld_vx_kk(0, 0b1100);
    vm.and_vx_vy(0, 1);
    assert_eq!(vm.register(0), 0b1000);

    vm.ld_vx_kk(0, 0b1100);
    vm.xor_vx_vy(0, 1);
    assert_eq!(vm.register(0), 0b0110);

    vm.ld_vx_vy(2, 1);
    assert_eq!(vm.register(2), 0b1010);
}

#[test]
fn bcd_of_157() {
    let mut vm = VM::new();
    vm.ld_vx_kk(3, 157);
    vm.ld_i_addr(0x300);
    vm.ld_b_vx(3);
    assert_eq!(vm.ram_at(0x300), 1);
    assert_eq!(vm.ram_at(0x301), 5);
    assert_eq!(vm.ram_at(0x302), 7);
}

#[test]
fn bcd_of_small_value() {
    let mut vm = VM::new();
    vm.ld_vx_kk(3, 7);
    vm.ld_i_addr(0x300);
    vm.ld_b_vx(3);
    assert_eq!(vm.ram_at(0x300), 0);
    assert_eq!(vm.ram_at(0x301), 0);
    assert_eq!(vm.ram_at(0x302), 7);
}

#[test]
fn ret_on_empty_stack_is_underflow() {
    let mut vm = VM::new();
    let pc_before = vm.pc();
    assert_eq!(vm.ret(), Err(VmError::StackUnderflow));
    assert_eq!(vm.pc(), pc_before); // machine untouched
    // a second attempt still fails the same way: nothing went negative
    assert_eq!(vm.ret(), Err(VmError::StackUnderflow));
}

#[test]
fn call_then_ret_restores_pc() {
    let mut vm = VM::new();
    assert_eq!(vm.call(0x400), Ok(()));
    assert_eq!(vm.pc(), 0x400);
    assert_eq!(vm.ret(), Ok(()));
    assert_eq!(vm.pc(), 0x200);
}

#[test]
fn call_overflows_after_sixteen_levels() {
    let mut vm = VM::new();
    for k in 0..16 {
        assert_eq!(vm.call(0x300 + k), Ok(()));
    }
    assert_eq!(vm.call(0x320), Err(VmError::StackOverflow));
    assert_eq!(vm.pc(), 0x30F); // the failed call moved nothing
}

#[test]
fn tick_timers_floor_at_zero() {
    let mut vm = VM::new();
    vm.tick_timers();
    assert_eq!(vm.delay_timer(), 0); // DT = 0 stays 0
    assert_eq!(vm.sound_timer(), 0);
}

#[test]
fn tick_timers_decrement_independently() {
    let mut vm = VM::new();
    vm.ld_vx_kk(0, 2);
    vm.ld_dt_vx(0);
    vm.ld_vx_kk(1, 5);
    vm.ld_st_vx(1);
    vm.tick_timers();
    assert_eq!(vm.delay_timer(), 1);
    assert_eq!(vm.sound_timer(), 4);
    vm.tick_timers();
    vm.tick_timers();
    assert_eq!(vm.delay_timer(), 0); // floored
    assert_eq!(vm.sound_timer(), 2); // still running
}

#[test]
fn timer_load_and_read() {
    let mut vm = VM::new();
    vm.ld_vx_kk(6, 42);
    vm.ld_dt_vx(6);
    assert_eq!(vm.delay_timer(), 42);
    vm.ld_vx_dt(9);
    assert_eq!(vm.register(9), 42);
    vm.ld_st_vx(6);
    assert_eq!(vm.sound_timer(), 42);
}

#[test]
fn skip_equal_immediate() {
    let mut vm = VM::new();
    vm.ld_vx_kk(0, 7);
    vm.se_vx_kk(0, 7);
    assert_eq!(vm.pc(), 0x202);
    vm.se_vx_kk(0, 8);
    assert_eq!(vm.pc(), 0x202);
    vm.sne_vx_kk(0, 8);
    assert_eq!(vm.pc(), 0x204);
    vm.sne_vx_kk(0, 7);
    assert_eq!(vm.pc(), 0x204);
}

#[test]
fn skip_equal_registers() {
    let mut vm = VM::new();
    vm.ld_vx_kk(0, 7);
    vm.ld_vx_kk(1, 7);
    vm.se_vx_vy(0, 1);
    assert_eq!(vm.pc(), 0x202);
    vm.sne_vx_vy(0, 1);
    assert_eq!(vm.pc(), 0x202);
    vm.ld_vx_kk(1, 8);
    vm.se_vx_vy(0, 1);
    assert_eq!(vm.pc(), 0x202);
    vm.sne_vx_vy(0, 1);
    assert_eq!(vm.pc(), 0x204);
}

#[test]
fn jumps() {
    let mut vm = VM::new();
    vm.jp(0x123);
    assert_eq!(vm.pc(), 0x123);
    vm.sys(0x456);
    assert_eq!(vm.pc(), 0x456);
    vm.ld_vx_kk(0, 0x10);
    vm.jp_v0_addr(0xFFF);
    assert_eq!(vm.pc(), (0xFFF + 0x10) % 4096); // wraps in 12 bits
}

#[test]
fn index_register_ops() {
    let mut vm = VM::new();
    vm.ld_i_addr(0xFFE);
    assert_eq!(vm.index(), 0xFFE);
    vm.ld_vx_kk(0, 5);
    vm.add_i_vx(0);
    assert_eq!(vm.index(), 3); // 0xFFE + 5 wraps in 12 bits
}

#[test]
fn font_address_uses_low_nibble() {
    let mut vm = VM::new();
    vm.ld_vx_kk(0, 0x0A);
    vm.ld_f_vx(0);
    assert_eq!(vm.index(), 50); // glyph A at 10 * 5
    vm.ld_vx_kk(0, 0xA7); // only the low nibble names the glyph
    vm.ld_f_vx(0);
    assert_eq!(vm.index(), 35);
}

#[test]
fn block_transfer_roundtrip_inclusive() {
    let mut vm = VM::new();
    for x in 0..6u8 {
        vm.ld_vx_kk(x, 10 + x);
    }
    vm.ld_i_addr(0x250);
    vm.ld_i_vx(5); // copies V0..=V5
    for k in 0..6u16 {
        assert_eq!(vm.ram_at(0x250 + k), 10 + k as u8);
    }
    assert_eq!(vm.ram_at(0x256), 0); // V6 was not copied
    for x in 0..6u8 {
        vm.ld_vx_kk(x, 0);
    }
    vm.ld_vx_i(5); // reads them back, V0..=V5 inclusive
    for x in 0..6u8 {
        assert_eq!(vm.register(x), 10 + x);
    }
    assert_eq!(vm.register(6), 0);
}

#[test]
fn keypad_skips() {
    let mut vm = VM::new();
    vm.ld_vx_kk(0, 0x0B);
    vm.skp_vx(0);
    assert_eq!(vm.pc(), 0x200); // key up: no skip
    vm.sknp_vx(0);
    assert_eq!(vm.pc(), 0x202); // key up: skip
    vm.set_key(0x0B, true);
    vm.skp_vx(0);
    assert_eq!(vm.pc(), 0x204); // key down: skip
    vm.sknp_vx(0);
    assert_eq!(vm.pc(), 0x204);
    vm.set_key(0x0B, false);
    vm.skp_vx(0);
    assert_eq!(vm.pc(), 0x204);
}

#[test]
fn key_wait_rewinds_until_pressed() {
    let mut vm = VM::new();
    vm.jp(0x300);
    vm.ld_vx_k(2);
    assert_eq!(vm.pc(), 0x2FE); // no key: rewound by one instruction
    vm.jp(0x300);
    vm.set_key(0x7, true);
    vm.ld_vx_k(2);
    assert_eq!(vm.pc(), 0x300); // key found: no rewind
    assert_eq!(vm.register(2), 0x7);
}

#[test]
fn key_wait_takes_lowest_pressed() {
    let mut vm = VM::new();
    vm.set_key(0xC, true);
    vm.set_key(0x3, true);
    vm.ld_vx_k(0);
    assert_eq!(vm.register(0), 0x3);
}

#[test]
fn random_is_masked() {
    // with mask 0 the random byte is fully masked away
    let mut vm = VM::new();
    vm.ld_vx_kk(1, 0xAA);
    vm.rnd_vx_kk(1, 0x00);
    assert_eq!(vm.register(1), 0);
    // with mask 0x0F only the low nibble can survive
    for _ in 0..16 {
        vm.rnd_vx_kk(1, 0x0F);
        assert!(vm.register(1) < 16);
    }
}

#[test]
fn rom_too_large_is_rejected() {
    let mut vm = VM::new();
    let rom = vec![0xAAu8; 3585];
    assert_eq!(vm.load_rom(&rom), Err(VmError::RomTooLarge));
    assert_eq!(vm.ram_at(0x200), 0); // nothing was copied

    let rom = vec![0xAAu8; 3584];
    assert_eq!(vm.load_rom(&rom), Ok(()));
    assert_eq!(vm.ram_at(0x200), 0xAA);
    assert_eq!(vm.ram_at(0xFFF), 0xAA);
}

#[test]
fn load_rom_copies_verbatim() {
    let mut vm = VM::new();
    let rom = vec![0x60u8, 0x05, 0x61, 0x03];
    assert_eq!(vm.load_rom(&rom), Ok(()));
    assert_eq!(vm.ram_at(0x200), 0x60);
    assert_eq!(vm.ram_at(0x201), 0x05);
    assert_eq!(vm.ram_at(0x202), 0x61);
    assert_eq!(vm.ram_at(0x203), 0x03);
    assert_eq!(vm.ram_at(0x204), 0);
    assert_eq!(vm.ram_at(0x1FF), 0); // reserved region untouched
}
