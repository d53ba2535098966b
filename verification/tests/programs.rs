use chip8::decode::{Instruction, decode_opcode};
use chip8::vm::{VM, VmError};

#[test]
fn program_add_small() {
    // V0 <- 5; V1 <- 3; V0 <- V0 + V1
    let mut vm = VM::new();
    let rom = vec![0x60u8, 0x05, 0x61, 0x03, 0x80, 0x14];
    assert_eq!(vm.load_rom(&rom), Ok(()));
    for _ in 0..3 {
        assert_eq!(vm.decode(), Ok(()));
    }
    assert_eq!(vm.register(0), 8);
    assert_eq!(vm.register(15), 0);
    assert_eq!(vm.pc(), 0x206);
}

#[test]
fn program_add_wraps_with_carry() {
    // V2 <- 255; V3 <- 1; V2 <- V2 + V3
    let mut vm = VM::new();
    let rom = vec![0x62u8, 0xFF, 0x63, 0x01, 0x82, 0x34];
    assert_eq!(vm.load_rom(&rom), Ok(()));
    for _ in 0..3 {
        assert_eq!(vm.decode(), Ok(()));
    }
    assert_eq!(vm.register(2), 0);
    assert_eq!(vm.register(15), 1);
}

#[test]
fn unknown_opcode_is_an_error() {
    let mut vm = VM::new();
    let rom = vec![0xF0u8, 0x99]; // F-family with an unknown low byte
    assert_eq!(vm.load_rom(&rom), Ok(()));
    assert_eq!(vm.decode(), Err(VmError::UnknownOpcode(0xF099)));
    assert_eq!(vm.pc(), 0x200); // the failed cycle moved nothing
}

#[test]
fn unknown_alu_suffix_is_an_error() {
    let mut vm = VM::new();
    let rom = vec![0x80u8, 0x18]; // 8xy8 is outside the table
    assert_eq!(vm.load_rom(&rom), Ok(()));
    assert_eq!(vm.decode(), Err(VmError::UnknownOpcode(0x8018)));
}

#[test]
fn empty_memory_is_not_silently_skipped() {
    // 0x0000 is a sys-jump to 0, not a no-op, per the decode table
    let mut vm = VM::new();
    assert_eq!(vm.ram_at(0x200), 0);
    assert_eq!(vm.decode(), Ok(()));
    assert_eq!(vm.pc(), 0);
}

#[test]
fn program_call_and_return() {
    let mut vm = VM::new();
    // 0x200: call 0x204;  0x204: return
    let rom = vec![0x22u8, 0x04, 0x00, 0x00, 0x00, 0xEE];
    assert_eq!(vm.load_rom(&rom), Ok(()));
    assert_eq!(vm.decode(), Ok(()));
    assert_eq!(vm.pc(), 0x204);
    assert_eq!(vm.decode(), Ok(()));
    assert_eq!(vm.pc(), 0x202); // back just past the call
}

#[test]
fn program_return_without_call_fails() {
    let mut vm = VM::new();
    let rom = vec![0x00u8, 0xEE];
    assert_eq!(vm.load_rom(&rom), Ok(()));
    assert_eq!(vm.decode(), Err(VmError::StackUnderflow));
    assert_eq!(vm.pc(), 0x200);
}

#[test]
fn program_deep_calls_overflow() {
    let mut vm = VM::new();
    // 0x200: call 0x200 — each cycle pushes another frame
    let rom = vec![0x22u8, 0x00];
    assert_eq!(vm.load_rom(&rom), Ok(()));
    for _ in 0..16 {
        assert_eq!(vm.decode(), Ok(()));
    }
    assert_eq!(vm.decode(), Err(VmError::StackOverflow));
    assert_eq!(vm.pc(), 0x200);
}

#[test]
fn program_key_wait_spins_cooperatively() {
    let mut vm = VM::new();
    let rom = vec![0xF1u8, 0x0A]; // wait for a key into V1
    assert_eq!(vm.load_rom(&rom), Ok(()));
    assert_eq!(vm.decode(), Ok(()));
    assert_eq!(vm.pc(), 0x200); // no key: the same opcode runs again
    assert_eq!(vm.decode(), Ok(()));
    assert_eq!(vm.pc(), 0x200);
    vm.set_key(0xB, true);
    assert_eq!(vm.decode(), Ok(()));
    assert_eq!(vm.pc(), 0x202); // key found: execution moves on
    assert_eq!(vm.register(1), 0xB);
}

#[test]
fn program_skip_jumps_over_instruction() {
    let mut vm = VM::new();
    // V0 <- 7; skip if V0 == 7; V0 <- 1 (skipped); V1 <- 2
    let rom = vec![0x60u8, 0x07, 0x30, 0x07, 0x60, 0x01, 0x61, 0x02];
    assert_eq!(vm.load_rom(&rom), Ok(()));
    for _ in 0..3 {
        assert_eq!(vm.decode(), Ok(()));
    }
    assert_eq!(vm.register(0), 7);
    assert_eq!(vm.register(1), 2);
}

#[test]
fn program_draw_and_clear() {
    let mut vm = VM::new();
    // I <- 0x20A; V0 <- 1; V1 <- 2; draw 1 row; clear screen
    let rom = vec![0xA2u8, 0x0A, 0x60, 0x01, 0x61, 0x02, 0xD0, 0x11, 0x00, 0xE0, 0xFF];
    assert_eq!(vm.load_rom(&rom), Ok(()));
    for _ in 0..4 {
        assert_eq!(vm.decode(), Ok(()));
    }
    for bit in 0..8usize {
        assert!(vm.pixel(1 + bit, 2));
    }
    assert_eq!(vm.decode(), Ok(()));
    for y in 0..32 {
        for x in 0..64 {
            assert!(!vm.pixel(x, y));
        }
    }
}

#[test]
fn program_sys_jumps() {
    let mut vm = VM::new();
    let rom = vec![0x01u8, 0x23]; // 0nnn: jump to 0x123
    assert_eq!(vm.load_rom(&rom), Ok(()));
    assert_eq!(vm.decode(), Ok(()));
    assert_eq!(vm.pc(), 0x123);
}

#[test]
fn program_random_masked_to_zero() {
    let mut vm = VM::new();
    vm.ld_vx_kk(5, 0x55);
    let rom = vec![0xC5u8, 0x00]; // V5 <- random & 0
    assert_eq!(vm.load_rom(&rom), Ok(()));
    assert_eq!(vm.decode(), Ok(()));
    assert_eq!(vm.register(5), 0);
}

#[test]
fn decoder_covers_every_family() {
    assert_eq!(decode_opcode(0x00E0), Some(Instruction::Cls));
    assert_eq!(decode_opcode(0x00EE), Some(Instruction::Ret));
    assert_eq!(decode_opcode(0x0123), Some(Instruction::Sys(0x123)));
    assert_eq!(decode_opcode(0x1ABC), Some(Instruction::Jp(0xABC)));
    assert_eq!(decode_opcode(0x2ABC), Some(Instruction::Call(0xABC)));
    assert_eq!(decode_opcode(0x3A12), Some(Instruction::SeVxKk(0xA, 0x12)));
    assert_eq!(decode_opcode(0x4A12), Some(Instruction::SneVxKk(0xA, 0x12)));
    assert_eq!(decode_opcode(0x5AB0), Some(Instruction::SeVxVy(0xA, 0xB)));
    assert_eq!(decode_opcode(0x5AB1), None);
    assert_eq!(decode_opcode(0x6A12), Some(Instruction::LdVxKk(0xA, 0x12)));
    assert_eq!(decode_opcode(0x7A12), Some(Instruction::AddVxKk(0xA, 0x12)));
    assert_eq!(decode_opcode(0x8AB0), Some(Instruction::LdVxVy(0xA, 0xB)));
    assert_eq!(decode_opcode(0x8AB1), Some(Instruction::OrVxVy(0xA, 0xB)));
    assert_eq!(decode_opcode(0x8AB2), Some(Instruction::AndVxVy(0xA, 0xB)));
    assert_eq!(decode_opcode(0x8AB3), Some(Instruction::XorVxVy(0xA, 0xB)));
    assert_eq!(decode_opcode(0x8AB4), Some(Instruction::AddVxVy(0xA, 0xB)));
    assert_eq!(decode_opcode(0x8AB5), Some(Instruction::SubVxVy(0xA, 0xB)));
    assert_eq!(decode_opcode(0x8AB6), Some(Instruction::ShrVx(0xA)));
    assert_eq!(decode_opcode(0x8AB7), Some(Instruction::SubnVxVy(0xA, 0xB)));
    assert_eq!(decode_opcode(0x8ABE), Some(Instruction::ShlVx(0xA)));
    assert_eq!(decode_opcode(0x8AB9), None);
    assert_eq!(decode_opcode(0x9AB0), Some(Instruction::SneVxVy(0xA, 0xB)));
    assert_eq!(decode_opcode(0x9AB5), None);
    assert_eq!(decode_opcode(0xAABC), Some(Instruction::LdIAddr(0xABC)));
    assert_eq!(decode_opcode(0xBABC), Some(Instruction::JpV0Addr(0xABC)));
    assert_eq!(decode_opcode(0xCA12), Some(Instruction::RndVxKk(0xA, 0x12)));
    assert_eq!(decode_opcode(0xDAB7), Some(Instruction::DrwVxVyN(0xA, 0xB, 7)));
    assert_eq!(decode_opcode(0xEA9E), Some(Instruction::SkpVx(0xA)));
    assert_eq!(decode_opcode(0xEAA1), Some(Instruction::SknpVx(0xA)));
    assert_eq!(decode_opcode(0xEA00), None);
    assert_eq!(decode_opcode(0xFA07), Some(Instruction::LdVxDt(0xA)));
    assert_eq!(decode_opcode(0xFA0A), Some(Instruction::LdVxK(0xA)));
    assert_eq!(decode_opcode(0xFA15), Some(Instruction::LdDtVx(0xA)));
    assert_eq!(decode_opcode(0xFA18), Some(Instruction::LdStVx(0xA)));
    assert_eq!(decode_opcode(0xFA1E), Some(Instruction::AddIVx(0xA)));
    assert_eq!(decode_opcode(0xFA29), Some(Instruction::LdFVx(0xA)));
    assert_eq!(decode_opcode(0xFA33), Some(Instruction::LdBVx(0xA)));
    assert_eq!(decode_opcode(0xFA55), Some(Instruction::LdIVx(0xA)));
    assert_eq!(decode_opcode(0xFA65), Some(Instruction::LdVxI(0xA)));
    assert_eq!(decode_opcode(0xFAFF), None);
}
