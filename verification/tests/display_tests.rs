use chip8::display::Screen;
use chip8::vm::VM;

/// A machine with an all-ones sprite row at `0x200` and `I` pointing at it.
fn vm_with_solid_row() -> VM {
    let mut vm = VM::new();
    let rom = vec![0xFFu8];
    assert_eq!(vm.load_rom(&rom), Ok(()));
    vm.ld_i_addr(0x200);
    vm
}

#[test]
fn screen_starts_blank_and_flagged() {
    let s = Screen::new();
    assert!(s.draw_flag());
    for y in 0..32 {
        for x in 0..64 {
            assert!(!s.get_pixel_state(x, y));
        }
    }
}

#[test]
fn screen_xor_and_flag() {
    let mut s = Screen::new();
    s.set_draw_flag(false);
    assert!(!s.draw_flag());
    s.xor_pixel(10, 20, true);
    assert!(s.get_pixel_state(10, 20));
    s.xor_pixel(10, 20, true);
    assert!(!s.get_pixel_state(10, 20));
    s.xor_pixel(10, 20, false);
    assert!(!s.get_pixel_state(10, 20));
    s.clear();
    assert!(s.draw_flag());
}

#[test]
fn draw_solid_row() {
    let mut vm = vm_with_solid_row();
    vm.ld_vx_kk(0, 5); // x origin
    vm.ld_vx_kk(1, 6); // y origin
    vm.drw_vx_vy_n(0, 1, 1);
    for bit in 0..8usize {
        assert!(vm.pixel(5 + bit, 6));
    }
    assert!(!vm.pixel(4, 6));
    assert!(!vm.pixel(13, 6));
    assert_eq!(vm.register(15), 0); // clear region: no collision
    assert!(vm.draw_flag());
}

#[test]
fn draw_twice_restores_display() {
    let mut vm = vm_with_solid_row();
    vm.ld_vx_kk(0, 5);
    vm.ld_vx_kk(1, 6);
    vm.drw_vx_vy_n(0, 1, 1);
    vm.drw_vx_vy_n(0, 1, 1);
    for y in 0..32 {
        for x in 0..64 {
            assert!(!vm.pixel(x, y)); // back to the pre-draw state
        }
    }
    assert_eq!(vm.register(15), 1); // the second draw erased lit pixels
}

#[test]
fn draw_overlap_sets_collision_flag() {
    let mut vm = vm_with_solid_row();
    vm.ld_vx_kk(0, 10);
    vm.ld_vx_kk(1, 4);
    vm.drw_vx_vy_n(0, 1, 1);
    assert_eq!(vm.register(15), 0); // all-clear region
    vm.ld_vx_kk(0, 17); // overlaps the old row in exactly one pixel
    vm.drw_vx_vy_n(0, 1, 1);
    assert_eq!(vm.register(15), 1);
    assert!(!vm.pixel(17, 4)); // the shared pixel was toggled off
    assert!(vm.pixel(18, 4));
}

#[test]
fn draw_wraps_at_right_edge() {
    let mut vm = vm_with_solid_row();
    vm.ld_vx_kk(0, 60);
    vm.ld_vx_kk(1, 0);
    vm.drw_vx_vy_n(0, 1, 1);
    for x in 60..64usize {
        assert!(vm.pixel(x, 0));
    }
    for x in 0..4usize {
        assert!(vm.pixel(x, 0)); // four columns wrapped onto x = 0..3
    }
    for x in 4..60usize {
        assert!(!vm.pixel(x, 0));
    }
}

#[test]
fn draw_wraps_at_bottom_edge() {
    let mut vm = VM::new();
    let rom = vec![0x80u8, 0x80]; // two rows, leftmost pixel each
    assert_eq!(vm.load_rom(&rom), Ok(()));
    vm.ld_i_addr(0x200);
    vm.ld_vx_kk(0, 0);
    vm.ld_vx_kk(1, 31);
    vm.drw_vx_vy_n(0, 1, 2);
    assert!(vm.pixel(0, 31));
    assert!(vm.pixel(0, 0)); // second row wrapped to the top
    assert!(!vm.pixel(0, 1));
}

#[test]
fn draw_origin_wraps_modulo_screen() {
    let mut vm = vm_with_solid_row();
    vm.ld_vx_kk(0, 64 + 5); // x = 69 starts at column 5
    vm.ld_vx_kk(1, 32 + 6); // y = 38 starts at row 6
    vm.drw_vx_vy_n(0, 1, 1);
    for bit in 0..8usize {
        assert!(vm.pixel(5 + bit, 6));
    }
}

#[test]
fn draw_a_font_glyph() {
    let mut vm = VM::new();
    vm.ld_vx_kk(0, 0); // glyph 0
    vm.ld_f_vx(0);
    assert_eq!(vm.index(), 0);
    vm.ld_vx_kk(1, 0);
    vm.ld_vx_kk(2, 0);
    vm.drw_vx_vy_n(1, 2, 5);
    // glyph 0 row 0 is 0xF0: pixels 0..4 lit, 4..8 dark
    for x in 0..4usize {
        assert!(vm.pixel(x, 0));
    }
    for x in 4..8usize {
        assert!(!vm.pixel(x, 0));
    }
    // row 1 is 0x90
    assert!(vm.pixel(0, 1));
    assert!(!vm.pixel(1, 1));
    assert!(!vm.pixel(2, 1));
    assert!(vm.pixel(3, 1));
}

#[test]
fn cls_clears_and_flags() {
    let mut vm = vm_with_solid_row();
    vm.ld_vx_kk(0, 5);
    vm.ld_vx_kk(1, 6);
    vm.drw_vx_vy_n(0, 1, 1);
    vm.clear_draw_flag();
    assert!(!vm.draw_flag());
    vm.cls();
    assert!(vm.draw_flag());
    for y in 0..32 {
        for x in 0..64 {
            assert!(!vm.pixel(x, y));
        }
    }
}

#[test]
fn clear_draw_flag_after_presenting() {
    let mut vm = VM::new();
    assert!(vm.draw_flag()); // the first frame still needs presenting
    vm.clear_draw_flag();
    assert!(!vm.draw_flag());
    vm.ld_vx_kk(0, 0);
    vm.ld_vx_kk(1, 0);
    vm.drw_vx_vy_n(0, 1, 0); // even an empty draw raises the flag
    assert!(vm.draw_flag());
}

#[test]
fn screen_accessor_matches_pixels() {
    let mut vm = vm_with_solid_row();
    vm.ld_vx_kk(0, 2);
    vm.ld_vx_kk(1, 3);
    vm.drw_vx_vy_n(0, 1, 1);
    let s = vm.screen();
    assert!(s.get_pixel_state(2, 3));
    assert!(!s.get_pixel_state(2, 4));
    assert!(s.draw_flag());
}
