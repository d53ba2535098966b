//! The CHIP-8 machine: registers, memory, stack, timers, keypad and screen,
//! together with the fetch-decode-execute engine.
//!
//! Every instruction handler is a public method with a functional contract
//! stated over [`VmView`], the mathematical model of the machine.  The only
//! unverified ingredient is the random byte drawn for the `Cxkk` instruction.

use vstd::prelude::*;

use crate::decode::Instruction;
use crate::decode::decode_opcode;
use crate::decode::spec_decode;
use crate::display::Screen;
use crate::display::ScreenView;
use crate::display::pixel_index;

verus! {

/// Errors surfaced to the driver.  All are fatal to the running program.
#[derive(Clone, Copy, Debug, PartialEq, Eq, Structural)]
pub enum VmError {
    /// The opcode (carried here) matches no entry of the decode table.
    UnknownOpcode(u16),
    /// A `2nnn` call was executed with 16 nested calls already active.
    StackOverflow,
    /// A `00EE` return was executed with no active call.
    StackUnderflow,
    /// The ROM does not fit in memory above the reserved region.
    RomTooLarge,
}

/// Mathematical model of a [`VM`].
///
/// `stack` holds only the active return addresses, bottom first; `registers`
/// are `V0..=VF` and `VF == registers[15]` doubles as the flag register.
#[verifier::ext_equal]
pub ghost struct VmView {
    pub ram: Seq<u8>,
    pub registers: Seq<u8>,
    pub i: u16,
    pub dt: u8,
    pub st: u8,
    pub pc: u16,
    pub stack: Seq<u16>,
    pub screen: ScreenView,
    pub keys: Seq<bool>,
}

impl VmView {
    /// Well-formedness: the sizes fixed by the machine definition, and the
    /// 12-bit range of the two address registers.
    pub open spec fn wf(self) -> bool {
        &&& self.ram.len() == 4096
        &&& self.registers.len() == 16
        &&& self.stack.len() <= 16
        &&& self.screen.wf()
        &&& self.keys.len() == 16
        &&& self.pc < 4096
        &&& self.i < 4096
        &&& forall|k: int| 0 <= k < self.stack.len() ==> self.stack[k] < 4096
    }
}

/// `a + b` on bytes with 8-bit wraparound.
pub open spec fn wrap_add8(a: u8, b: u8) -> u8 {
    ((a + b) % 256) as u8
}

/// `a - b` on bytes with 8-bit wraparound.
pub open spec fn wrap_sub8(a: u8, b: u8) -> u8 {
    ((a - b) % 256) as u8
}

/// The program counter after one fetch: two bytes further, wrapping within
/// the 12-bit address space.
pub open spec fn next_pc(pc: u16) -> u16 {
    ((pc + 2) % 4096) as u16
}

/// The program counter rewound by one instruction, wrapping within the
/// 12-bit address space; used by the key-wait instruction to retry.
pub open spec fn prev_pc(pc: u16) -> u16 {
    ((pc + 4094) % 4096) as u16
}

/// `00E0`: a blank screen that needs a redraw; nothing else moves.
pub open spec fn spec_cls(v: VmView) -> VmView {
    VmView { screen: ScreenView { pixels: ScreenView::blank(), draw_flag: true }, ..v }
}

/// `00EE`: pop the return address into the program counter, or fail on an
/// empty stack, leaving the machine untouched.
pub open spec fn spec_ret(v: VmView) -> Result<VmView, VmError> {
    if v.stack.len() == 0 {
        Err(VmError::StackUnderflow)
    } else {
        Ok(VmView { pc: v.stack.last(), stack: v.stack.drop_last(), ..v })
    }
}

/// `1nnn` (and `0nnn`): jump.
pub open spec fn spec_jp(v: VmView, nnn: u16) -> VmView {
    VmView { pc: nnn, ..v }
}

/// `2nnn`: push the current program counter and jump, or fail on a full
/// stack, leaving the machine untouched.
pub open spec fn spec_call(v: VmView, nnn: u16) -> Result<VmView, VmError> {
    if v.stack.len() >= 16 {
        Err(VmError::StackOverflow)
    } else {
        Ok(VmView { stack: v.stack.push(v.pc), pc: nnn, ..v })
    }
}

/// Skip the next instruction when `cond` holds.
pub open spec fn spec_skip_if(v: VmView, cond: bool) -> VmView {
    VmView { pc: if cond { next_pc(v.pc) } else { v.pc }, ..v }
}

/// `6xkk`: `Vx <- kk`.
pub open spec fn spec_ld_vx_kk(v: VmView, x: u8, kk: u8) -> VmView {
    VmView { registers: v.registers.update(x as int, kk), ..v }
}

/// `7xkk`: `Vx <- Vx + kk`, wrapping, no flag.
pub open spec fn spec_add_vx_kk(v: VmView, x: u8, kk: u8) -> VmView {
    VmView { registers: v.registers.update(x as int, wrap_add8(v.registers[x as int], kk)), ..v }
}

/// `8xy0`: `Vx <- Vy`.
pub open spec fn spec_ld_vx_vy(v: VmView, x: u8, y: u8) -> VmView {
    VmView { registers: v.registers.update(x as int, v.registers[y as int]), ..v }
}

/// `8xy1`: `Vx <- Vx | Vy`.
pub open spec fn spec_or_vx_vy(v: VmView, x: u8, y: u8) -> VmView {
    VmView {
        registers: v.registers.update(x as int, v.registers[x as int] | v.registers[y as int]),
        ..v
    }
}

/// `8xy2`: `Vx <- Vx & Vy`.
pub open spec fn spec_and_vx_vy(v: VmView, x: u8, y: u8) -> VmView {
    VmView {
        registers: v.registers.update(x as int, v.registers[x as int] & v.registers[y as int]),
        ..v
    }
}

/// `8xy3`: `Vx <- Vx ^ Vy`.
pub open spec fn spec_xor_vx_vy(v: VmView, x: u8, y: u8) -> VmView {
    VmView {
        registers: v.registers.update(x as int, v.registers[x as int] ^ v.registers[y as int]),
        ..v
    }
}

/// `8xy4`: `Vx <- Vx + Vy` with 8-bit wraparound; then `VF <-` carry.
pub open spec fn spec_add_vx_vy(v: VmView, x: u8, y: u8) -> VmView {
    let sum = wrap_add8(v.registers[x as int], v.registers[y as int]);
    let carry: u8 = if v.registers[x as int] + v.registers[y as int] > 255 { 1 } else { 0 };
    VmView { registers: v.registers.update(x as int, sum).update(15, carry), ..v }
}

/// `8xy5`: `Vx <- Vx - Vy` with 8-bit wraparound; then `VF <-` no-borrow.
pub open spec fn spec_sub_vx_vy(v: VmView, x: u8, y: u8) -> VmView {
    let diff = wrap_sub8(v.registers[x as int], v.registers[y as int]);
    let flag: u8 = if v.registers[x as int] > v.registers[y as int] { 1 } else { 0 };
    VmView { registers: v.registers.update(x as int, diff).update(15, flag), ..v }
}

/// `8xy6`: `VF <-` the low bit of `Vx`; then `Vx` is halved (the flag write
/// comes first, as on the reference interpreter, so `x = 15` shifts the
/// freshly written flag).
pub open spec fn spec_shr_vx(v: VmView, x: u8) -> VmView {
    let lsb = v.registers[x as int] % 2;
    let r1 = v.registers.update(15, lsb);
    VmView { registers: r1.update(x as int, r1[x as int] / 2), ..v }
}

/// `8xy7`: `Vx <- Vy - Vx` with 8-bit wraparound; then `VF <-` no-borrow.
pub open spec fn spec_subn_vx_vy(v: VmView, x: u8, y: u8) -> VmView {
    let diff = wrap_sub8(v.registers[y as int], v.registers[x as int]);
    let flag: u8 = if v.registers[y as int] > v.registers[x as int] { 1 } else { 0 };
    VmView { registers: v.registers.update(x as int, diff).update(15, flag), ..v }
}

/// `8xyE`: `VF <-` the high bit of `Vx`; then `Vx` is doubled, wrapping
/// (flag first, as in [`spec_shr_vx`]).
pub open spec fn spec_shl_vx(v: VmView, x: u8) -> VmView {
    let msb = v.registers[x as int] / 128;
    let r1 = v.registers.update(15, msb);
    VmView { registers: r1.update(x as int, ((r1[x as int] * 2) % 256) as u8), ..v }
}

/// `Annn`: `I <- nnn`.
pub open spec fn spec_ld_i_addr(v: VmView, nnn: u16) -> VmView {
    VmView { i: nnn, ..v }
}

/// `Bnnn`: jump to `nnn + V0`, wrapping within the 12-bit address space.
pub open spec fn spec_jp_v0_addr(v: VmView, nnn: u16) -> VmView {
    VmView { pc: (((nnn + v.registers[0]) % 4096) as u16), ..v }
}

/// `Cxkk`: `Vx <- rnd & kk` for the byte `rnd` the generator produced.
pub open spec fn spec_rnd_vx_kk(v: VmView, x: u8, kk: u8, rnd: u8) -> VmView {
    VmView { registers: v.registers.update(x as int, rnd & kk), ..v }
}

/// The `bit`-th pixel of sprite row byte `byte`, most significant first.
pub open spec fn sprite_bit(byte: u8, bit: int) -> bool {
    (byte >> ((7 - bit) as u8)) & 1 == 1
}

/// Sprite row `row` of a draw: the byte at `I + row`, wrapping within the
/// 12-bit address space.
pub open spec fn sprite_row(ram: Seq<u8>, i: int, row: int) -> u8 {
    ram[(i + row) % 4096]
}

/// Row-major index of the pixel that sprite bit (`row`, `bit`) lands on
/// when drawing at origin (`xs`, `ys`): both coordinates wrap at the
/// screen edges, so pixels past an edge reappear on the opposite side.
pub open spec fn draw_target(xs: int, ys: int, row: int, bit: int) -> int {
    ((ys + row) % 32) * 64 + ((xs + bit) % 64)
}

/// Whether the first `m` sprite bits of a draw — counted in drawing
/// order, bit `m` sitting in row `m / 8` at offset `m % 8` — toggle
/// pixel `p` an odd number of times.
pub open spec fn flips_upto(ram: Seq<u8>, i: int, xs: int, ys: int, m: nat, p: int) -> bool
    decreases m,
{
    if m == 0 {
        false
    } else {
        let prev = (m - 1) as nat;
        let r = prev as int / 8;
        let b = prev as int % 8;
        flips_upto(ram, i, xs, ys, prev, p) != (sprite_bit(sprite_row(ram, i, r), b)
            && draw_target(xs, ys, r, b) == p)
    }
}

/// Whether one of the first `m` sprite bits is set and lands on a pixel
/// that was lit before the draw began.
pub open spec fn collision_upto(
    px: Seq<bool>,
    ram: Seq<u8>,
    i: int,
    xs: int,
    ys: int,
    m: nat,
) -> bool
    decreases m,
{
    if m == 0 {
        false
    } else {
        let prev = (m - 1) as nat;
        let r = prev as int / 8;
        let b = prev as int % 8;
        collision_upto(px, ram, i, xs, ys, prev) || (sprite_bit(sprite_row(ram, i, r), b)
            && px[draw_target(xs, ys, r, b)])
    }
}

/// The pixels after drawing `n` sprite rows from `ram` at `i` with origin
/// (`xs`, `ys`): each set sprite bit XOR-toggles the pixel it lands on,
/// and a clear sprite bit leaves its pixel alone.
pub open spec fn draw_pixels(
    px: Seq<bool>,
    ram: Seq<u8>,
    i: int,
    xs: int,
    ys: int,
    n: nat,
) -> Seq<bool> {
    Seq::new(2048, |p: int| px[p] != flips_upto(ram, i, xs, ys, 8 * n, p))
}

/// The collision flag of a draw: whether some set sprite bit lands on an
/// already-lit pixel.
pub open spec fn draw_collision(
    px: Seq<bool>,
    ram: Seq<u8>,
    i: int,
    xs: int,
    ys: int,
    n: nat,
) -> bool {
    collision_upto(px, ram, i, xs, ys, 8 * n)
}

/// `Dxyn`: `VF` is reset first (so for `x = 15` or `y = 15` the origin
/// comes from the reset register), then the sprite is XOR-drawn with both
/// coordinates taken modulo the screen size, `VF` ends as the collision
/// flag, and the redraw flag is raised.
pub open spec fn spec_drw_vx_vy_n(v: VmView, x: u8, y: u8, n: u8) -> VmView {
    let regs0 = v.registers.update(15, 0u8);
    let xs = regs0[x as int] as int % 64;
    let ys = regs0[y as int] as int % 32;
    let coll = draw_collision(v.screen.pixels, v.ram, v.i as int, xs, ys, n as nat);
    VmView {
        registers: regs0.update(15, if coll { 1u8 } else { 0u8 }),
        screen: ScreenView {
            pixels: draw_pixels(v.screen.pixels, v.ram, v.i as int, xs, ys, n as nat),
            draw_flag: true,
        },
        ..v
    }
}

/// Drawing the same sprite twice at the same origin restores every
/// pixel: each sprite bit XOR-toggles the same pixel both times, and a
/// draw changes neither the sprite memory nor the origin.
pub proof fn lemma_draw_twice_restores(
    px: Seq<bool>,
    ram: Seq<u8>,
    i: int,
    xs: int,
    ys: int,
    n: nat,
)
    requires
        px.len() == 2048,
    ensures
        draw_pixels(draw_pixels(px, ram, i, xs, ys, n), ram, i, xs, ys, n) == px,
{
    let px1 = draw_pixels(px, ram, i, xs, ys, n);
    assert(draw_pixels(px1, ram, i, xs, ys, n) =~= px);
}

/// No sprite bit of the first `m` can collide on an all-dark screen.
proof fn lemma_collision_upto_clear(px: Seq<bool>, ram: Seq<u8>, i: int, xs: int, ys: int, m: nat)
    requires
        px.len() == 2048,
        0 <= xs < 64,
        0 <= ys < 32,
        m <= 128,
        forall|p: int| 0 <= p < 2048 ==> !px[p],
    ensures
        !collision_upto(px, ram, i, xs, ys, m),
    decreases m,
{
    if m > 0 {
        lemma_collision_upto_clear(px, ram, i, xs, ys, (m - 1) as nat);
        let r = (m - 1) as int / 8;
        let b = (m - 1) as int % 8;
        assert(0 <= draw_target(xs, ys, r, b) < 2048);
        assert(!px[draw_target(xs, ys, r, b)]);
    }
}

/// A draw onto an all-dark screen reports no collision: `VF` stays 0.
pub proof fn lemma_draw_clear_no_collision(
    px: Seq<bool>,
    ram: Seq<u8>,
    i: int,
    xs: int,
    ys: int,
    n: nat,
)
    requires
        px.len() == 2048,
        0 <= xs < 64,
        0 <= ys < 32,
        n <= 16,
        forall|p: int| 0 <= p < 2048 ==> !px[p],
    ensures
        !draw_collision(px, ram, i, xs, ys, n),
{
    lemma_collision_upto_clear(px, ram, i, xs, ys, 8 * n);
}

/// Once some prefix of the sprite bits collides, every longer prefix
/// still collides: the collision flag is sticky within one draw.
proof fn lemma_collision_upto_mono(
    px: Seq<bool>,
    ram: Seq<u8>,
    i: int,
    xs: int,
    ys: int,
    m1: nat,
    m2: nat,
)
    requires
        m1 <= m2,
        collision_upto(px, ram, i, xs, ys, m1),
    ensures
        collision_upto(px, ram, i, xs, ys, m2),
    decreases m2,
{
    if m1 < m2 {
        lemma_collision_upto_mono(px, ram, i, xs, ys, m1, (m2 - 1) as nat);
    }
}

/// A set sprite bit that lands on an already-lit pixel makes the draw
/// report a collision: `VF` becomes 1.
pub proof fn lemma_draw_overlap_collides(
    px: Seq<bool>,
    ram: Seq<u8>,
    i: int,
    xs: int,
    ys: int,
    n: nat,
    r: int,
    b: int,
)
    requires
        0 <= r < n,
        0 <= b < 8,
        n <= 16,
        sprite_bit(sprite_row(ram, i, r), b),
        px[draw_target(xs, ys, r, b)],
    ensures
        draw_collision(px, ram, i, xs, ys, n),
{
    let m = (8 * r + b + 1) as nat;
    assert((m - 1) as int / 8 == r && (m - 1) as int % 8 == b);
    assert(collision_upto(px, ram, i, xs, ys, m));
    lemma_collision_upto_mono(px, ram, i, xs, ys, m, 8 * n);
}

/// Edge wrap: a sprite bit whose column would run past the right screen
/// edge reappears at the left, on column `xs + bit - 64`.  A sprite drawn
/// at `xs = 60`, say, puts bits 4 through 7 onto columns 0 through 3.
pub proof fn lemma_draw_edge_wrap(xs: int, ys: int, row: int, bit: int)
    requires
        0 <= ys,
        0 <= row,
        0 <= bit < 8,
        0 <= xs < 64,
        64 <= xs + bit,
    ensures
        draw_target(xs, ys, row, bit) == ((ys + row) % 32) * 64 + (xs + bit - 64),
{
    assert((xs + bit) % 64 == xs + bit - 64);
}

/// `Ex9E`: skip if the key named by the low nibble of `Vx` is down.
pub open spec fn spec_skp_vx(v: VmView, x: u8) -> VmView {
    spec_skip_if(v, v.keys[(v.registers[x as int] % 16) as int])
}

/// `ExA1`: skip if the key named by the low nibble of `Vx` is up.
pub open spec fn spec_sknp_vx(v: VmView, x: u8) -> VmView {
    spec_skip_if(v, !v.keys[(v.registers[x as int] % 16) as int])
}

/// `Fx07`: `Vx <- DT`.
pub open spec fn spec_ld_vx_dt(v: VmView, x: u8) -> VmView {
    VmView { registers: v.registers.update(x as int, v.dt), ..v }
}

/// The lowest pressed key at or above index `k`, if any.
pub open spec fn first_pressed_from(keys: Seq<bool>, k: int) -> Option<int>
    decreases 16 - k,
{
    if k < 0 || k >= 16 {
        None
    } else if keys[k] {
        Some(k)
    } else {
        first_pressed_from(keys, k + 1)
    }
}

/// `Fx0A`: if a key is down, store the lowest such index in `Vx`;
/// otherwise rewind the program counter so the same opcode is fetched
/// again on the next cycle.  The engine never blocks.
pub open spec fn spec_ld_vx_k(v: VmView, x: u8) -> VmView {
    match first_pressed_from(v.keys, 0) {
        Some(k) => VmView { registers: v.registers.update(x as int, k as u8), ..v },
        None => VmView { pc: prev_pc(v.pc), ..v },
    }
}

/// `Fx15`: `DT <- Vx`.
pub open spec fn spec_ld_dt_vx(v: VmView, x: u8) -> VmView {
    VmView { dt: v.registers[x as int], ..v }
}

/// `Fx18`: `ST <- Vx`.
pub open spec fn spec_ld_st_vx(v: VmView, x: u8) -> VmView {
    VmView { st: v.registers[x as int], ..v }
}

/// `Fx1E`: `I <- I + Vx`, wrapping within the 12-bit address space.
pub open spec fn spec_add_i_vx(v: VmView, x: u8) -> VmView {
    VmView { i: (((v.i + v.registers[x as int]) % 4096) as u16), ..v }
}

/// `Fx29`: `I <-` the address of the font glyph for the low nibble of `Vx`
/// (glyph base 0, five bytes per glyph).
pub open spec fn spec_ld_f_vx(v: VmView, x: u8) -> VmView {
    VmView { i: ((5 * (v.registers[x as int] % 16)) as u16), ..v }
}

/// `Fx33`: the BCD digits of `Vx` stored at `I`, `I+1`, `I+2`
/// (hundreds, tens, ones), wrapping within the 12-bit address space.
pub open spec fn spec_ld_b_vx(v: VmView, x: u8) -> VmView {
    let vx = v.registers[x as int];
    let a0 = (v.i % 4096) as int;
    let a1 = ((v.i + 1) % 4096) as int;
    let a2 = ((v.i + 2) % 4096) as int;
    VmView {
        ram: v.ram.update(a0, vx / 100).update(a1, (vx / 10) % 10).update(a2, vx % 10),
        ..v
    }
}

/// The register slot that a memory address receives in a `Fx55` block copy
/// starting at `i`: the distance from `i`, wrapping within the 12-bit
/// address space.
pub open spec fn copy_slot(i: int, a: int) -> int {
    (a - i) % 4096
}

/// Memory after the first `count` registers of a `Fx55` block copy landed:
/// address `a` holds register `copy_slot(i, a)` when that slot was copied,
/// and its old byte otherwise.
pub open spec fn copied_ram(v: VmView, count: int) -> Seq<u8> {
    Seq::new(
        4096,
        |a: int|
            if copy_slot(v.i as int, a) < count {
                v.registers[copy_slot(v.i as int, a)]
            } else {
                v.ram[a]
            },
    )
}

/// `Fx55`: copy `V0..=Vx` into memory at `I..`, wrapping within the 12-bit
/// address space; memory outside the copied range is untouched.
pub open spec fn spec_ld_i_vx(v: VmView, x: u8) -> VmView {
    VmView { ram: copied_ram(v, x + 1), ..v }
}

/// `Fx65`: copy memory at `I..` into `V0..=Vx`, wrapping within the 12-bit
/// address space; registers above `Vx` are untouched.
pub open spec fn spec_ld_vx_i(v: VmView, x: u8) -> VmView {
    VmView {
        registers: Seq::new(
            16,
            |k: int| if k <= x { v.ram[((v.i + k) % 4096) as int] } else { v.registers[k] },
        ),
        ..v
    }
}

/// One 60Hz tick: each timer steps toward zero independently and floors
/// at zero.
pub open spec fn spec_tick_timers(v: VmView) -> VmView {
    VmView {
        dt: if v.dt > 0 { (v.dt - 1) as u8 } else { 0 },
        st: if v.st > 0 { (v.st - 1) as u8 } else { 0 },
        ..v
    }
}

/// Memory after the first `count` ROM bytes landed at `0x200..`.
pub open spec fn loaded_ram(v: VmView, rom: Seq<u8>, count: int) -> Seq<u8> {
    Seq::new(
        4096,
        |a: int| if 0x200 <= a < 0x200 + count { rom[a - 0x200] } else { v.ram[a] },
    )
}

/// Loading a ROM: its bytes land verbatim at `0x200..`, or the load is
/// rejected outright when they would not fit below `0x1000`.
pub open spec fn spec_load_rom(v: VmView, rom: Seq<u8>) -> Result<VmView, VmError> {
    if rom.len() > 3584 {
        Err(VmError::RomTooLarge)
    } else {
        Ok(VmView { ram: loaded_ram(v, rom, rom.len() as int), ..v })
    }
}

/// The opcode at the program counter: two consecutive bytes, big-endian,
/// the second fetched with 12-bit wraparound.
pub open spec fn spec_fetch(v: VmView) -> u16 {
    (v.ram[v.pc as int] * 256 + v.ram[((v.pc + 1) % 4096) as int]) as u16
}

/// What one decoded instruction does to the machine.  `v` is the state
/// with the program counter already advanced past the instruction, and
/// `rnd` is the byte a `Cxkk` consumes; every other instruction ignores
/// it.  The two stack faults are the only errors here.
pub open spec fn spec_execute(v: VmView, instr: Instruction, rnd: u8) -> Result<VmView, VmError> {
    match instr {
        Instruction::Cls => Ok(spec_cls(v)),
        Instruction::Ret => spec_ret(v),
        Instruction::Sys(nnn) => Ok(spec_jp(v, nnn)),
        Instruction::Jp(nnn) => Ok(spec_jp(v, nnn)),
        Instruction::Call(nnn) => spec_call(v, nnn),
        Instruction::SeVxKk(x, kk) => Ok(spec_skip_if(v, v.registers[x as int] == kk)),
        Instruction::SneVxKk(x, kk) => Ok(spec_skip_if(v, v.registers[x as int] != kk)),
        Instruction::SeVxVy(x, y) => Ok(
            spec_skip_if(v, v.registers[x as int] == v.registers[y as int]),
        ),
        Instruction::LdVxKk(x, kk) => Ok(spec_ld_vx_kk(v, x, kk)),
        Instruction::AddVxKk(x, kk) => Ok(spec_add_vx_kk(v, x, kk)),
        Instruction::LdVxVy(x, y) => Ok(spec_ld_vx_vy(v, x, y)),
        Instruction::OrVxVy(x, y) => Ok(spec_or_vx_vy(v, x, y)),
        Instruction::AndVxVy(x, y) => Ok(spec_and_vx_vy(v, x, y)),
        Instruction::XorVxVy(x, y) => Ok(spec_xor_vx_vy(v, x, y)),
        Instruction::AddVxVy(x, y) => Ok(spec_add_vx_vy(v, x, y)),
        Instruction::SubVxVy(x, y) => Ok(spec_sub_vx_vy(v, x, y)),
        Instruction::ShrVx(x) => Ok(spec_shr_vx(v, x)),
        Instruction::SubnVxVy(x, y) => Ok(spec_subn_vx_vy(v, x, y)),
        Instruction::ShlVx(x) => Ok(spec_shl_vx(v, x)),
        Instruction::SneVxVy(x, y) => Ok(
            spec_skip_if(v, v.registers[x as int] != v.registers[y as int]),
        ),
        Instruction::LdIAddr(nnn) => Ok(spec_ld_i_addr(v, nnn)),
        Instruction::JpV0Addr(nnn) => Ok(spec_jp_v0_addr(v, nnn)),
        Instruction::RndVxKk(x, kk) => Ok(spec_rnd_vx_kk(v, x, kk, rnd)),
        Instruction::DrwVxVyN(x, y, n) => Ok(spec_drw_vx_vy_n(v, x, y, n)),
        Instruction::SkpVx(x) => Ok(spec_skp_vx(v, x)),
        Instruction::SknpVx(x) => Ok(spec_sknp_vx(v, x)),
        Instruction::LdVxDt(x) => Ok(spec_ld_vx_dt(v, x)),
        Instruction::LdVxK(x) => Ok(spec_ld_vx_k(v, x)),
        Instruction::LdDtVx(x) => Ok(spec_ld_dt_vx(v, x)),
        Instruction::LdStVx(x) => Ok(spec_ld_st_vx(v, x)),
        Instruction::AddIVx(x) => Ok(spec_add_i_vx(v, x)),
        Instruction::LdFVx(x) => Ok(spec_ld_f_vx(v, x)),
        Instruction::LdBVx(x) => Ok(spec_ld_b_vx(v, x)),
        Instruction::LdIVx(x) => Ok(spec_ld_i_vx(v, x)),
        Instruction::LdVxI(x) => Ok(spec_ld_vx_i(v, x)),
    }
}

/// One full cycle from `pre`: fetch the opcode at the program counter,
/// advance the counter by two (before execution, so jump and call targets
/// are not perturbed), decode, and execute.  An opcode outside the decode
/// table or a stack fault is an error; a cycle that errs is understood to
/// leave the machine exactly as it was.
pub open spec fn spec_cycle(pre: VmView, rnd: u8) -> Result<VmView, VmError> {
    let op = spec_fetch(pre);
    match spec_decode(op) {
        None => Err(VmError::UnknownOpcode(op)),
        Some(instr) => spec_execute(VmView { pc: next_pc(pre.pc), ..pre }, instr, rnd),
    }
}

/// The CHIP-8 virtual machine.
pub struct VM {
    ram: Vec<u8>,
    registers: Vec<u8>,
    i: u16,
    dt: u8,
    st: u8,
    pc: u16,
    stack: Vec<u16>,
    display: Screen,
    keys: Vec<bool>,
}

impl View for VM {
    type V = VmView;

    closed spec fn view(&self) -> VmView {
        VmView {
            ram: self.ram@,
            registers: self.registers@,
            i: self.i,
            dt: self.dt,
            st: self.st,
            pc: self.pc,
            stack: self.stack@,
            screen: self.display@,
            keys: self.keys@,
        }
    }
}

/// The built-in font: sixteen 5-byte glyphs for the hex digits `0..=F`,
/// resident at addresses `0..80` from construction on.
pub open spec fn font_seq() -> Seq<u8> {
    seq![
        0xF0u8, 0x90, 0x90, 0x90, 0xF0, // 0
        0x20, 0x60, 0x20, 0x20, 0x70, // 1
        0xF0, 0x10, 0xF0, 0x80, 0xF0, // 2
        0xF0, 0x10, 0xF0, 0x10, 0xF0, // 3
        0x90, 0x90, 0xF0, 0x10, 0x10, // 4
        0xF0, 0x80, 0xF0, 0x10, 0xF0, // 5
        0xF0, 0x80, 0xF0, 0x90, 0xF0, // 6
        0xF0, 0x10, 0x20, 0x40, 0x40, // 7
        0xF0, 0x90, 0xF0, 0x90, 0xF0, // 8
        0xF0, 0x90, 0xF0, 0x10, 0xF0, // 9
        0xF0, 0x90, 0xF0, 0x90, 0x90, // A
        0xE0, 0x90, 0xE0, 0x90, 0xE0, // B
        0xF0, 0x80, 0x80, 0x80, 0xF0, // C
        0xE0, 0x90, 0x90, 0x90, 0xE0, // D
        0xF0, 0x80, 0xF0, 0x80, 0xF0, // E
        0xF0, 0x80, 0xF0, 0x80, 0x80, // F
    ]
}

/// Memory as it looks at construction: the font, then zeroes up to 4KB.
pub open spec fn initial_ram() -> Seq<u8> {
    font_seq() + Seq::new(4016, |j: int| 0u8)
}

/// The font bytes as an executable vector.
fn font_data() -> (v: Vec<u8>)
    ensures
        v@ == font_seq(),
{
    let v: Vec<u8> = vec![
        0xF0u8, 0x90, 0x90, 0x90, 0xF0, // 0
        0x20, 0x60, 0x20, 0x20, 0x70, // 1
        0xF0, 0x10, 0xF0, 0x80, 0xF0, // 2
        0xF0, 0x10, 0xF0, 0x10, 0xF0, // 3
        0x90, 0x90, 0xF0, 0x10, 0x10, // 4
        0xF0, 0x80, 0xF0, 0x10, 0xF0, // 5
        0xF0, 0x80, 0xF0, 0x90, 0xF0, // 6
        0xF0, 0x10, 0x20, 0x40, 0x40, // 7
        0xF0, 0x90, 0xF0, 0x90, 0xF0, // 8
        0xF0, 0x90, 0xF0, 0x10, 0xF0, // 9
        0xF0, 0x90, 0xF0, 0x90, 0x90, // A
        0xE0, 0x90, 0xE0, 0x90, 0xE0, // B
        0xF0, 0x80, 0x80, 0x80, 0xF0, // C
        0xE0, 0x90, 0x90, 0x90, 0xE0, // D
        0xF0, 0x80, 0xF0, 0x80, 0xF0, // E
        0xF0, 0x80, 0xF0, 0x80, 0x80, // F
    ];
    proof {
        assert(v@ =~= font_seq());
    }
    v
}

impl VM {
    /// A machine with the font loaded, all other state zeroed and the
    /// program counter at the conventional entry point `0x200`.
    pub fn new() -> (vm: VM)
        ensures
            vm@.wf(),
            vm@.ram == initial_ram(),
            vm@.registers == Seq::new(16, |k: int| 0u8),
            vm@.i == 0,
            vm@.dt == 0,
            vm@.st == 0,
            vm@.pc == 0x200,
            vm@.stack == Seq::<u16>::empty(),
            vm@.screen.pixels == ScreenView::blank(),
            vm@.screen.draw_flag == true,
            vm@.keys == Seq::new(16, |k: int| false),
    {
        let mut ram = font_data();
        while ram.len() < 4096
            invariant
                80 <= ram@.len() <= 4096,
                ram@.take(80) == font_seq(),
                forall|a: int| 80 <= a < ram@.len() ==> ram@[a] == 0u8,
            decreases 4096 - ram@.len(),
        {
            ram.push(0);
        }
        let mut registers: Vec<u8> = Vec::new();
        let mut keys: Vec<bool> = Vec::new();
        let mut k: usize = 0;
        while k < 16
            invariant
                k <= 16,
                registers@ == Seq::new(k as nat, |j: int| 0u8),
                keys@ == Seq::new(k as nat, |j: int| false),
            decreases 16 - k,
        {
            registers.push(0);
            keys.push(false);
            k = k + 1;
            proof {
                assert(registers@ =~= Seq::new(k as nat, |j: int| 0u8));
                assert(keys@ =~= Seq::new(k as nat, |j: int| false));
            }
        }
        let vm = VM {
            ram,
            registers,
            i: 0,
            dt: 0,
            st: 0,
            pc: 0x200,
            stack: Vec::new(),
            display: Screen::new(),
            keys,
        };
        proof {
            assert(vm@.ram =~= initial_ram());
        }
        vm
    }

    /// Read register `Vx`.
    pub fn register(&self, x: u8) -> (r: u8)
        requires
            self@.wf(),
            x < 16,
        ensures
            r == self@.registers[x as int],
    {
        self.registers[x as usize]
    }

    /// The current program counter.
    pub fn pc(&self) -> (r: u16)
        ensures
            r == self@.pc,
    {
        self.pc
    }

    /// The index register `I`.
    pub fn index(&self) -> (r: u16)
        ensures
            r == self@.i,
    {
        self.i
    }

    /// The delay timer.
    pub fn delay_timer(&self) -> (r: u8)
        ensures
            r == self@.dt,
    {
        self.dt
    }

    /// The sound timer; a tone should sound while it is above zero.
    pub fn sound_timer(&self) -> (r: u8)
        ensures
            r == self@.st,
    {
        self.st
    }

    /// Read the memory byte at `addr`.
    pub fn ram_at(&self, addr: u16) -> (r: u8)
        requires
            self@.wf(),
            addr < 4096,
        ensures
            r == self@.ram[addr as int],
    {
        self.ram[addr as usize]
    }

    /// Read-only access to the screen, for the renderer.
    pub fn screen(&self) -> (r: &Screen)
        ensures
            r@ == self@.screen,
    {
        &self.display
    }

    /// Read pixel `(x, y)` of the display buffer.
    pub fn pixel(&self, x: usize, y: usize) -> (r: bool)
        requires
            self@.wf(),
            x < 64,
            y < 32,
        ensures
            r == self@.screen.pixel(x as int, y as int),
    {
        self.display.get_pixel_state(x, y)
    }

    /// Whether the display changed since the renderer last presented it.
    pub fn draw_flag(&self) -> (r: bool)
        ensures
            r == self@.screen.draw_flag,
    {
        self.display.draw_flag()
    }

    /// Lower the redraw flag after presenting a frame.
    pub fn clear_draw_flag(&mut self)
        requires
            old(self)@.wf(),
        ensures
            final(self)@.wf(),
            final(self)@ == (VmView {
                screen: ScreenView { pixels: old(self)@.screen.pixels, draw_flag: false },
                ..old(self)@
            }),
    {
        self.display.set_draw_flag(false);
    }

    /// Press or release one of the 16 keys.
    pub fn set_key(&mut self, idx: usize, pressed: bool)
        requires
            old(self)@.wf(),
            idx < 16,
        ensures
            final(self)@.wf(),
            final(self)@ == (VmView { keys: old(self)@.keys.update(idx as int, pressed), ..old(self)@ }),
    {
        self.keys.set(idx, pressed);
    }
}

/// The address `(i + k) % 4096` is the one and only address whose
/// [`copy_slot`] relative to `i` is `k`.
proof fn lemma_copy_slot_inverse(i: int, k: int, a: int)
    requires
        0 <= i < 4096,
        0 <= k < 4096,
        0 <= a < 4096,
    ensures
        copy_slot(i, a) == k <==> a == (i + k) % 4096,
{
    if a >= i {
        assert((a - i) % 4096 == a - i);
    } else {
        assert((a - i) % 4096 == a - i + 4096);
    }
    if i + k < 4096 {
        assert((i + k) % 4096 == i + k);
    } else {
        assert((i + k) % 4096 == i + k - 4096);
    }
}

/// Distinct sprite bits of one draw land on distinct pixels: row offsets
/// stay below the screen height and bit offsets below a row's width, so
/// wrapping cannot fold one sprite bit onto another.
proof fn lemma_target_injective(xs: int, ys: int, r1: int, b1: int, r2: int, b2: int)
    requires
        0 <= xs < 64,
        0 <= ys < 32,
        0 <= r1 < 32,
        0 <= b1 < 8,
        0 <= r2 < 32,
        0 <= b2 < 8,
        draw_target(xs, ys, r1, b1) == draw_target(xs, ys, r2, b2),
    ensures
        r1 == r2 && b1 == b2,
{
    let a1 = (ys + r1) % 32;
    let c1 = (xs + b1) % 64;
    let a2 = (ys + r2) % 32;
    let c2 = (xs + b2) % 64;
    assert(0 <= a1 < 32 && 0 <= a2 < 32 && 0 <= c1 < 64 && 0 <= c2 < 64);
    assert(a1 == a2 && c1 == c2);
    if ys + r1 < 32 {
        assert(a1 == ys + r1);
    } else {
        assert(a1 == ys + r1 - 32);
    }
    if ys + r2 < 32 {
        assert(a2 == ys + r2);
    } else {
        assert(a2 == ys + r2 - 32);
    }
    if xs + b1 < 64 {
        assert(c1 == xs + b1);
    } else {
        assert(c1 == xs + b1 - 64);
    }
    if xs + b2 < 64 {
        assert(c2 == xs + b2);
    } else {
        assert(c2 == xs + b2 - 64);
    }
}

/// If no sprite bit strictly before position `m` lands on pixel `p`, the
/// first `m` bits leave `p` untouched.
proof fn lemma_flips_upto_no_target(ram: Seq<u8>, i: int, xs: int, ys: int, m: nat, p: int)
    requires
        forall|r: int, b: int|
            0 <= r && 0 <= b < 8 && 8 * r + b < m ==> draw_target(xs, ys, r, b) != p,
    ensures
        !flips_upto(ram, i, xs, ys, m, p),
    decreases m,
{
    if m > 0 {
        let prev = (m - 1) as nat;
        lemma_flips_upto_no_target(ram, i, xs, ys, prev, p);
        let r = prev as int / 8;
        let b = prev as int % 8;
        assert(0 <= r && 0 <= b < 8 && 8 * r + b < m);
        assert(draw_target(xs, ys, r, b) != p);
    }
}

/// Relies on `rand::random`: one byte from the thread-local generator.
/// Nothing is assumed about its value; every caller must hold for every
/// possible byte.
#[verifier::external_body]
fn random_byte() -> u8 {
    rand::random()
}

impl VM {
    /// Load a ROM: the bytes land verbatim at `0x200..`; a ROM that would
    /// not fit below the end of memory is rejected and nothing changes.
    pub fn load_rom(&mut self, rom: &Vec<u8>) -> (r: Result<(), VmError>)
        requires
            old(self)@.wf(),
        ensures
            final(self)@.wf(),
            rom@.len() > 3584 ==> r == Err::<(), VmError>(VmError::RomTooLarge) && final(self)@
                == old(self)@,
            rom@.len() <= 3584 ==> r == Ok::<(), VmError>(()) && spec_load_rom(old(self)@, rom@)
                == Ok::<VmView, VmError>(final(self)@),
    {
        if rom.len() > 3584 {
            return Err(VmError::RomTooLarge);
        }
        proof {
            assert(loaded_ram(old(self)@, rom@, 0) =~= old(self)@.ram);
            assert(self@ =~= (VmView { ram: loaded_ram(old(self)@, rom@, 0), ..old(self)@ }));
        }
        let mut k: usize = 0;
        while k < rom.len()
            invariant
                old(self)@.wf(),
                self@.wf(),
                rom@.len() <= 3584,
                k <= rom@.len(),
                self@ == (VmView { ram: loaded_ram(old(self)@, rom@, k as int), ..old(self)@ }),
            decreases rom@.len() - k,
        {
            self.ram.set(0x200 + k, rom[k]);
            k = k + 1;
            proof {
                assert(self@.ram =~= loaded_ram(old(self)@, rom@, k as int));
                assert(self@ =~= (VmView {
                    ram: loaded_ram(old(self)@, rom@, k as int),
                    ..old(self)@
                }));
            }
        }
        proof {
            assert(self@.ram =~= loaded_ram(old(self)@, rom@, rom@.len() as int));
        }
        Ok(())
    }

    /// One 60Hz tick: each timer steps toward zero independently and can
    /// never fall below zero.
    pub fn tick_timers(&mut self)
        requires
            old(self)@.wf(),
        ensures
            final(self)@.wf(),
            final(self)@ == spec_tick_timers(old(self)@),
            old(self)@.dt == 0 ==> final(self)@.dt == 0,
            old(self)@.st == 0 ==> final(self)@.st == 0,
    {
        if self.dt > 0 {
            self.dt = self.dt - 1;
        }
        if self.st > 0 {
            self.st = self.st - 1;
        }
    }

    /// `00E0`: clear the display and raise the redraw flag.
    pub fn cls(&mut self)
        requires
            old(self)@.wf(),
        ensures
            final(self)@.wf(),
            final(self)@ == spec_cls(old(self)@),
    {
        self.display.clear();
    }

    /// `00EE`: return from a subroutine.  With an empty stack this reports
    /// [`VmError::StackUnderflow`] and leaves the machine untouched; the
    /// stack depth never goes below zero.
    pub fn ret(&mut self) -> (r: Result<(), VmError>)
        requires
            old(self)@.wf(),
        ensures
            final(self)@.wf(),
            old(self)@.stack.len() == 0 ==> r == Err::<(), VmError>(VmError::StackUnderflow)
                && final(self)@ == old(self)@,
            old(self)@.stack.len() > 0 ==> r == Ok::<(), VmError>(()) && spec_ret(old(self)@)
                == Ok::<VmView, VmError>(final(self)@),
    {
        match self.stack.pop() {
            Some(addr) => {
                self.pc = addr;
                Ok(())
            }
            None => Err(VmError::StackUnderflow),
        }
    }

    /// `0nnn`: a machine-code routine, treated as a plain jump.
    pub fn sys(&mut self, nnn: u16)
        requires
            old(self)@.wf(),
            nnn < 4096,
        ensures
            final(self)@.wf(),
            final(self)@ == spec_jp(old(self)@, nnn),
    {
        self.jp(nnn);
    }

    /// `1nnn`: jump to `nnn`.
    pub fn jp(&mut self, nnn: u16)
        requires
            old(self)@.wf(),
            nnn < 4096,
        ensures
            final(self)@.wf(),
            final(self)@ == spec_jp(old(self)@, nnn),
    {
        self.pc = nnn;
    }

    /// `2nnn`: call the subroutine at `nnn`.  With 16 calls already active
    /// this reports [`VmError::StackOverflow`] and leaves the machine
    /// untouched.
    pub fn call(&mut self, nnn: u16) -> (r: Result<(), VmError>)
        requires
            old(self)@.wf(),
            nnn < 4096,
        ensures
            final(self)@.wf(),
            old(self)@.stack.len() >= 16 ==> r == Err::<(), VmError>(VmError::StackOverflow)
                && final(self)@ == old(self)@,
            old(self)@.stack.len() < 16 ==> r == Ok::<(), VmError>(()) && spec_call(
                old(self)@,
                nnn,
            ) == Ok::<VmView, VmError>(final(self)@),
    {
        if self.stack.len() >= 16 {
            return Err(VmError::StackOverflow);
        }
        self.stack.push(self.pc);
        self.pc = nnn;
        Ok(())
    }

    /// `3xkk`: skip the next instruction if `Vx == kk`.
    pub fn se_vx_kk(&mut self, x: u8, kk: u8)
        requires
            old(self)@.wf(),
            x < 16,
        ensures
            final(self)@.wf(),
            final(self)@ == spec_skip_if(old(self)@, old(self)@.registers[x as int] == kk),
    {
        if self.registers[x as usize] == kk {
            self.pc = (self.pc + 2) % 4096;
        }
    }

    /// `4xkk`: skip the next instruction if `Vx != kk`.
    pub fn sne_vx_kk(&mut self, x: u8, kk: u8)
        requires
            old(self)@.wf(),
            x < 16,
        ensures
            final(self)@.wf(),
            final(self)@ == spec_skip_if(old(self)@, old(self)@.registers[x as int] != kk),
    {
        if self.registers[x as usize] != kk {
            self.pc = (self.pc + 2) % 4096;
        }
    }

    /// `5xy0`: skip the next instruction if `Vx == Vy`.
    pub fn se_vx_vy(&mut self, x: u8, y: u8)
        requires
            old(self)@.wf(),
            x < 16,
            y < 16,
        ensures
            final(self)@.wf(),
            final(self)@ == spec_skip_if(
                old(self)@,
                old(self)@.registers[x as int] == old(self)@.registers[y as int],
            ),
    {
        if self.registers[x as usize] == self.registers[y as usize] {
            self.pc = (self.pc + 2) % 4096;
        }
    }

    /// `6xkk`: `Vx <- kk`; afterwards register `x` reads back as `kk`.
    pub fn ld_vx_kk(&mut self, x: u8, kk: u8)
        requires
            old(self)@.wf(),
            x < 16,
        ensures
            final(self)@.wf(),
            final(self)@ == spec_ld_vx_kk(old(self)@, x, kk),
            final(self)@.registers[x as int] == kk,
    {
        self.registers.set(x as usize, kk);
    }

    /// `7xkk`: `Vx <- Vx + kk`, wrapping; no flag is written.
    pub fn add_vx_kk(&mut self, x: u8, kk: u8)
        requires
            old(self)@.wf(),
            x < 16,
        ensures
            final(self)@.wf(),
            final(self)@ == spec_add_vx_kk(old(self)@, x, kk),
    {
        let vx = self.registers[x as usize];
        let sum = ((vx as u16 + kk as u16) % 256) as u8;
        self.registers.set(x as usize, sum);
    }

    /// `8xy0`: `Vx <- Vy`.
    pub fn ld_vx_vy(&mut self, x: u8, y: u8)
        requires
            old(self)@.wf(),
            x < 16,
            y < 16,
        ensures
            final(self)@.wf(),
            final(self)@ == spec_ld_vx_vy(old(self)@, x, y),
    {
        let vy = self.registers[y as usize];
        self.registers.set(x as usize, vy);
    }

    /// `8xy1`: `Vx <- Vx | Vy`.
    pub fn or_vx_vy(&mut self, x: u8, y: u8)
        requires
            old(self)@.wf(),
            x < 16,
            y < 16,
        ensures
            final(self)@.wf(),
            final(self)@ == spec_or_vx_vy(old(self)@, x, y),
    {
        let r = self.registers[x as usize] | self.registers[y as usize];
        self.registers.set(x as usize, r);
    }

    /// `8xy2`: `Vx <- Vx & Vy`.
    pub fn and_vx_vy(&mut self, x: u8, y: u8)
        requires
            old(self)@.wf(),
            x < 16,
            y < 16,
        ensures
            final(self)@.wf(),
            final(self)@ == spec_and_vx_vy(old(self)@, x, y),
    {
        let r = self.registers[x as usize] & self.registers[y as usize];
        self.registers.set(x as usize, r);
    }

    /// `8xy3`: `Vx <- Vx ^ Vy`.
    pub fn xor_vx_vy(&mut self, x: u8, y: u8)
        requires
            old(self)@.wf(),
            x < 16,
            y < 16,
        ensures
            final(self)@.wf(),
            final(self)@ == spec_xor_vx_vy(old(self)@, x, y),
    {
        let r = self.registers[x as usize] ^ self.registers[y as usize];
        self.registers.set(x as usize, r);
    }

    /// `8xy4`: `Vx <- Vx + Vy` with the low 8 bits kept; `VF` is then 1
    /// exactly when the unsigned sum exceeded 255, else 0.
    pub fn add_vx_vy(&mut self, x: u8, y: u8)
        requires
            old(self)@.wf(),
            x < 16,
            y < 16,
        ensures
            final(self)@.wf(),
            final(self)@ == spec_add_vx_vy(old(self)@, x, y),
            final(self)@.registers[15] == (if old(self)@.registers[x as int] + old(
                self,
            )@.registers[y as int] > 255 {
                1u8
            } else {
                0u8
            }),
            x != 15 ==> final(self)@.registers[x as int] == wrap_add8(
                old(self)@.registers[x as int],
                old(self)@.registers[y as int],
            ),
    {
        let vx = self.registers[x as usize];
        let vy = self.registers[y as usize];
        let sum16 = vx as u16 + vy as u16;
        self.registers.set(x as usize, (sum16 % 256) as u8);
        if sum16 > 255 {
            self.registers.set(15, 1);
        } else {
            self.registers.set(15, 0);
        }
    }

    /// `8xy5`: `Vx <- Vx - Vy` with 8-bit wraparound; `VF` is then 1
    /// exactly when `Vx > Vy` held before the subtraction, else 0.
    pub fn sub_vx_vy(&mut self, x: u8, y: u8)
        requires
            old(self)@.wf(),
            x < 16,
            y < 16,
        ensures
            final(self)@.wf(),
            final(self)@ == spec_sub_vx_vy(old(self)@, x, y),
            final(self)@.registers[15] == (if old(self)@.registers[x as int] > old(
                self,
            )@.registers[y as int] {
                1u8
            } else {
                0u8
            }),
    {
        let vx = self.registers[x as usize];
        let vy = self.registers[y as usize];
        let flag = vx > vy;
        let diff = ((vx as u16 + 256 - vy as u16) % 256) as u8;
        proof {
            assert(vx as u16 + 256 - vy as u16 == vx - vy + 256);
            assert((vx - vy + 256) % 256 == (vx - vy) % 256);
        }
        self.registers.set(x as usize, diff);
        if flag {
            self.registers.set(15, 1);
        } else {
            self.registers.set(15, 0);
        }
    }

    /// `8xy6`: `VF <-` the pre-shift low bit of `Vx`; then `Vx` is halved.
    /// The flag is written first, so for `x = 15` the shift acts on the
    /// freshly written flag.
    pub fn shr_vx_vy(&mut self, x: u8, _y: u8)
        requires
            old(self)@.wf(),
            x < 16,
        ensures
            final(self)@.wf(),
            final(self)@ == spec_shr_vx(old(self)@, x),
            x != 15 ==> final(self)@.registers[15] == old(self)@.registers[x as int] % 2,
    {
        let lsb = self.registers[x as usize] % 2;
        self.registers.set(15, lsb);
        let cur = self.registers[x as usize];
        self.registers.set(x as usize, cur / 2);
    }

    /// `8xy7`: `Vx <- Vy - Vx` with 8-bit wraparound; `VF` is then 1
    /// exactly when `Vy > Vx` held before the subtraction, else 0.
    pub fn subn_vx_vy(&mut self, x: u8, y: u8)
        requires
            old(self)@.wf(),
            x < 16,
            y < 16,
        ensures
            final(self)@.wf(),
            final(self)@ == spec_subn_vx_vy(old(self)@, x, y),
            final(self)@.registers[15] == (if old(self)@.registers[y as int] > old(
                self,
            )@.registers[x as int] {
                1u8
            } else {
                0u8
            }),
    {
        let vx = self.registers[x as usize];
        let vy = self.registers[y as usize];
        let flag = vy > vx;
        let diff = ((vy as u16 + 256 - vx as u16) % 256) as u8;
        proof {
            assert(vy as u16 + 256 - vx as u16 == vy - vx + 256);
            assert((vy - vx + 256) % 256 == (vy - vx) % 256);
        }
        self.registers.set(x as usize, diff);
        if flag {
            self.registers.set(15, 1);
        } else {
            self.registers.set(15, 0);
        }
    }

    /// `8xyE`: `VF <-` the pre-shift high bit of `Vx`; then `Vx` is
    /// doubled, wrapping.  The flag is written first, as in
    /// [`VM::shr_vx_vy`].
    pub fn shl_vx_vy(&mut self, x: u8, _y: u8)
        requires
            old(self)@.wf(),
            x < 16,
        ensures
            final(self)@.wf(),
            final(self)@ == spec_shl_vx(old(self)@, x),
            x != 15 ==> final(self)@.registers[15] == old(self)@.registers[x as int] / 128,
    {
        let msb = self.registers[x as usize] / 128;
        self.registers.set(15, msb);
        let cur = self.registers[x as usize];
        let doubled = ((cur as u16 * 2) % 256) as u8;
        self.registers.set(x as usize, doubled);
    }

    /// `9xy0`: skip the next instruction if `Vx != Vy`.
    pub fn sne_vx_vy(&mut self, x: u8, y: u8)
        requires
            old(self)@.wf(),
            x < 16,
            y < 16,
        ensures
            final(self)@.wf(),
            final(self)@ == spec_skip_if(
                old(self)@,
                old(self)@.registers[x as int] != old(self)@.registers[y as int],
            ),
    {
        if self.registers[x as usize] != self.registers[y as usize] {
            self.pc = (self.pc + 2) % 4096;
        }
    }

    /// `Annn`: `I <- nnn`.
    pub fn ld_i_addr(&mut self, nnn: u16)
        requires
            old(self)@.wf(),
            nnn < 4096,
        ensures
            final(self)@.wf(),
            final(self)@ == spec_ld_i_addr(old(self)@, nnn),
    {
        self.i = nnn;
    }

    /// `Bnnn`: jump to `nnn + V0`, wrapping within the 12-bit address
    /// space.
    pub fn jp_v0_addr(&mut self, nnn: u16)
        requires
            old(self)@.wf(),
            nnn < 4096,
        ensures
            final(self)@.wf(),
            final(self)@ == spec_jp_v0_addr(old(self)@, nnn),
    {
        self.pc = (nnn + self.registers[0] as u16) % 4096;
    }

    /// `Cxkk`: `Vx <-` a fresh random byte ANDed with `kk`.  The contract
    /// promises only that some byte was masked and stored: two calls with
    /// equal arguments may differ.
    pub fn rnd_vx_kk(&mut self, x: u8, kk: u8)
        requires
            old(self)@.wf(),
            x < 16,
        ensures
            final(self)@.wf(),
            exists|rnd: u8| final(self)@ == spec_rnd_vx_kk(old(self)@, x, kk, rnd),
    {
        let rnd = random_byte();
        let masked = rnd & kk;
        self.registers.set(x as usize, masked);
        proof {
            assert(self@ == spec_rnd_vx_kk(old(self)@, x, kk, rnd));
        }
    }

    /// `Dxyn`: draw the `n`-row sprite at memory location `I` at position
    /// `(Vx mod 64, Vy mod 32)`.  Set sprite bits XOR-toggle their pixels,
    /// coordinates wrap at the screen edges, `VF` becomes 1 exactly when a
    /// set sprite bit lands on an already-lit pixel, and the redraw flag
    /// is raised.
    #[verifier::loop_isolation(false)]
    pub fn drw_vx_vy_n(&mut self, x: u8, y: u8, n: u8)
        requires
            old(self)@.wf(),
            x < 16,
            y < 16,
            n < 16,
        ensures
            final(self)@.wf(),
            final(self)@ == spec_drw_vx_vy_n(old(self)@, x, y, n),
    {
        self.registers.set(15, 0);
        self.display.set_draw_flag(true);
        let x_pos = self.registers[x as usize] % 64;
        let y_pos = self.registers[y as usize] % 32;
        let ghost pre = old(self)@;
        let ghost regs0: Seq<u8> = pre.registers.update(15, 0u8);
        let ghost px0: Seq<bool> = pre.screen.pixels;
        let ghost ram0: Seq<u8> = pre.ram;
        let ghost i0: int = pre.i as int;
        let ghost xs: int = x_pos as int;
        let ghost ys: int = y_pos as int;
        let mut row: usize = 0;
        while row < n as usize
            invariant
                row <= n as usize,
                self@.ram == pre.ram,
                self@.i == pre.i,
                self@.dt == pre.dt,
                self@.st == pre.st,
                self@.pc == pre.pc,
                self@.stack == pre.stack,
                self@.keys == pre.keys,
                self@.screen.draw_flag == true,
                self@.screen.pixels.len() == 2048,
                self@.registers == (if collision_upto(px0, ram0, i0, xs, ys, (8 * row) as nat) {
                    regs0.update(15, 1u8)
                } else {
                    regs0
                }),
                forall|p: int|
                    0 <= p < 2048 ==> self@.screen.pixels[p] == (px0[p] != flips_upto(
                        ram0,
                        i0,
                        xs,
                        ys,
                        (8 * row) as nat,
                        p,
                    )),
            decreases n as usize - row,
        {
            let sprite_byte = self.ram[(self.i as usize + row) % 4096];
            proof {
                assert(sprite_byte == sprite_row(ram0, i0, row as int));
            }
            let mut j: usize = 0;
            while j < 8
                invariant
                    j <= 8,
                    row < n as usize,
                    sprite_byte == sprite_row(ram0, i0, row as int),
                    self@.ram == pre.ram,
                    self@.i == pre.i,
                    self@.dt == pre.dt,
                    self@.st == pre.st,
                    self@.pc == pre.pc,
                    self@.stack == pre.stack,
                    self@.keys == pre.keys,
                    self@.screen.draw_flag == true,
                    self@.screen.pixels.len() == 2048,
                    self@.registers == (if collision_upto(
                        px0,
                        ram0,
                        i0,
                        xs,
                        ys,
                        (8 * row + j) as nat,
                    ) {
                        regs0.update(15, 1u8)
                    } else {
                        regs0
                    }),
                    forall|p: int|
                        0 <= p < 2048 ==> self@.screen.pixels[p] == (px0[p] != flips_upto(
                            ram0,
                            i0,
                            xs,
                            ys,
                            (8 * row + j) as nat,
                            p,
                        )),
                decreases 8 - j,
            {
                let shift = (7 - j) as u8;
                let on = ((sprite_byte >> shift) & 1) == 1;
                let col = (x_pos as usize + j) % 64;
                let rw = (y_pos as usize + row) % 32;
                let ghost mprev: nat = (8 * row + j) as nat;
                let ghost t: int = draw_target(xs, ys, row as int, j as int);
                proof {
                    assert(mprev as int / 8 == row as int && mprev as int % 8 == j as int);
                    assert(on == sprite_bit(sprite_row(ram0, i0, row as int), j as int));
                    assert(pixel_index(col as int, rw as int) == t);
                    assert(0 <= t < 2048);
                    assert forall|r: int, b: int|
                        0 <= r && 0 <= b < 8 && 8 * r + b < mprev implies draw_target(
                        xs,
                        ys,
                        r,
                        b,
                    ) != t by {
                        if draw_target(xs, ys, r, b) == t {
                            lemma_target_injective(xs, ys, r, b, row as int, j as int);
                        }
                    }
                    lemma_flips_upto_no_target(ram0, i0, xs, ys, mprev, t);
                }
                if on {
                    let cur = self.display.get_pixel_state(col, rw);
                    proof {
                        assert(cur == px0[t]);
                    }
                    if cur {
                        self.registers.set(15, 1);
                        proof {
                            assert(self@.registers =~= regs0.update(15, 1u8));
                        }
                    }
                    self.display.xor_pixel(col, rw, true);
                }
                j = j + 1;
                proof {
                    let mnew: nat = (8 * row + j) as nat;
                    assert(mnew == mprev + 1);
                    assert((mnew - 1) as nat == mprev);
                    assert(collision_upto(px0, ram0, i0, xs, ys, mnew) == (collision_upto(
                        px0,
                        ram0,
                        i0,
                        xs,
                        ys,
                        mprev,
                    ) || (sprite_bit(sprite_row(ram0, i0, row as int), j as int - 1)
                        && px0[draw_target(xs, ys, row as int, j as int - 1)])));
                    assert forall|p: int| 0 <= p < 2048 implies self@.screen.pixels[p] == (px0[p]
                        != flips_upto(ram0, i0, xs, ys, mnew, p)) by {
                        assert(flips_upto(ram0, i0, xs, ys, mnew, p) == (flips_upto(
                            ram0,
                            i0,
                            xs,
                            ys,
                            mprev,
                            p,
                        ) != (sprite_bit(sprite_row(ram0, i0, row as int), j as int - 1)
                            && draw_target(xs, ys, row as int, j as int - 1) == p)));
                    }
                }
            }
            row = row + 1;
            proof {
                assert((8 * (row - 1) + 8) as nat == (8 * row) as nat);
            }
        }
        proof {
            assert(self@.screen.pixels =~= draw_pixels(px0, ram0, i0, xs, ys, n as nat));
            if !draw_collision(px0, ram0, i0, xs, ys, n as nat) {
                assert(self@.registers =~= regs0.update(15, 0u8));
            }
            assert(self@ =~= spec_drw_vx_vy_n(pre, x, y, n));
        }
    }

    /// `Ex9E`: skip the next instruction if the key named by the low
    /// nibble of `Vx` is down.
    pub fn skp_vx(&mut self, x: u8)
        requires
            old(self)@.wf(),
            x < 16,
        ensures
            final(self)@.wf(),
            final(self)@ == spec_skp_vx(old(self)@, x),
    {
        let vx = self.registers[x as usize];
        let key = self.keys[(vx % 16) as usize];
        if key {
            self.pc = (self.pc + 2) % 4096;
        }
    }

    /// `ExA1`: skip the next instruction if the key named by the low
    /// nibble of `Vx` is up.
    pub fn sknp_vx(&mut self, x: u8)
        requires
            old(self)@.wf(),
            x < 16,
        ensures
            final(self)@.wf(),
            final(self)@ == spec_sknp_vx(old(self)@, x),
    {
        let vx = self.registers[x as usize];
        let key = self.keys[(vx % 16) as usize];
        if !key {
            self.pc = (self.pc + 2) % 4096;
        }
    }

    /// `Fx07`: `Vx <- DT`.
    pub fn ld_vx_dt(&mut self, x: u8)
        requires
            old(self)@.wf(),
            x < 16,
        ensures
            final(self)@.wf(),
            final(self)@ == spec_ld_vx_dt(old(self)@, x),
    {
        let dt = self.dt;
        self.registers.set(x as usize, dt);
    }

    /// `Fx0A`: wait for a key.  If some key is down, the lowest such index
    /// lands in `Vx`; otherwise the program counter is rewound by one
    /// instruction so the same opcode runs again next cycle.  The call
    /// itself never blocks.
    pub fn ld_vx_k(&mut self, x: u8)
        requires
            old(self)@.wf(),
            x < 16,
        ensures
            final(self)@.wf(),
            final(self)@ == spec_ld_vx_k(old(self)@, x),
    {
        let mut k: usize = 0;
        let mut found: bool = false;
        while k < 16 && !found
            invariant
                old(self)@.wf(),
                self@ == old(self)@,
                k <= 16,
                !found ==> first_pressed_from(self@.keys, 0) == first_pressed_from(
                    self@.keys,
                    k as int,
                ),
                found ==> k < 16 && first_pressed_from(self@.keys, 0) == Some(k as int),
            decreases 16 - k, (if found { 0int } else { 1int }),
        {
            if self.keys[k] {
                found = true;
            } else {
                k = k + 1;
            }
        }
        if found {
            self.registers.set(x as usize, k as u8);
        } else {
            self.pc = (self.pc + 4094) % 4096;
        }
    }

    /// `Fx15`: `DT <- Vx`.
    pub fn ld_dt_vx(&mut self, x: u8)
        requires
            old(self)@.wf(),
            x < 16,
        ensures
            final(self)@.wf(),
            final(self)@ == spec_ld_dt_vx(old(self)@, x),
    {
        self.dt = self.registers[x as usize];
    }

    /// `Fx18`: `ST <- Vx`.
    pub fn ld_st_vx(&mut self, x: u8)
        requires
            old(self)@.wf(),
            x < 16,
        ensures
            final(self)@.wf(),
            final(self)@ == spec_ld_st_vx(old(self)@, x),
    {
        self.st = self.registers[x as usize];
    }

    /// `Fx1E`: `I <- I + Vx`, wrapping within the 12-bit address space.
    pub fn add_i_vx(&mut self, x: u8)
        requires
            old(self)@.wf(),
            x < 16,
        ensures
            final(self)@.wf(),
            final(self)@ == spec_add_i_vx(old(self)@, x),
    {
        self.i = (self.i + self.registers[x as usize] as u16) % 4096;
    }

    /// `Fx29`: `I <-` the address of the font glyph for the low nibble of
    /// `Vx`: glyphs are five bytes each, starting at address 0.
    pub fn ld_f_vx(&mut self, x: u8)
        requires
            old(self)@.wf(),
            x < 16,
        ensures
            final(self)@.wf(),
            final(self)@ == spec_ld_f_vx(old(self)@, x),
    {
        let digit = self.registers[x as usize] % 16;
        self.i = 5 * digit as u16;
    }

    /// `Fx33`: store the BCD digits of `Vx` — hundreds, tens, ones — at
    /// `I`, `I+1`, `I+2`, wrapping within the 12-bit address space.
    pub fn ld_b_vx(&mut self, x: u8)
        requires
            old(self)@.wf(),
            x < 16,
        ensures
            final(self)@.wf(),
            final(self)@ == spec_ld_b_vx(old(self)@, x),
            final(self)@.ram[((old(self)@.i + 2) % 4096) as int] == old(self)@.registers[x as int]
                % 10,
    {
        let vx = self.registers[x as usize];
        let i0 = self.i as usize;
        let i1 = (self.i as usize + 1) % 4096;
        let i2 = (self.i as usize + 2) % 4096;
        self.ram.set(i0, vx / 100);
        self.ram.set(i1, (vx / 10) % 10);
        self.ram.set(i2, vx % 10);
        proof {
            assert(old(self)@.i % 4096 == old(self)@.i as int);
        }
    }

    /// `Fx55`: copy `V0..=Vx` into memory starting at `I`, wrapping within
    /// the 12-bit address space; all other memory is untouched.
    pub fn ld_i_vx(&mut self, x: u8)
        requires
            old(self)@.wf(),
            x < 16,
        ensures
            final(self)@.wf(),
            final(self)@ == spec_ld_i_vx(old(self)@, x),
    {
        proof {
            assert(copied_ram(old(self)@, 0) =~= old(self)@.ram);
            assert(self@ =~= (VmView { ram: copied_ram(old(self)@, 0), ..old(self)@ }));
        }
        let mut k: usize = 0;
        while k <= x as usize
            invariant
                old(self)@.wf(),
                self@.wf(),
                x < 16,
                k <= x + 1,
                self@ == (VmView { ram: copied_ram(old(self)@, k as int), ..old(self)@ }),
            decreases x + 1 - k,
        {
            let addr = (self.i as usize + k) % 4096;
            self.ram.set(addr, self.registers[k]);
            k = k + 1;
            proof {
                let pre = old(self)@;
                let kk = k as int;
                assert forall|a: int| 0 <= a < 4096 implies self@.ram[a] == copied_ram(
                    pre,
                    kk,
                )[a] by {
                    lemma_copy_slot_inverse(pre.i as int, kk - 1, a);
                }
                assert(self@.ram =~= copied_ram(pre, kk));
                assert(self@ =~= (VmView { ram: copied_ram(pre, kk), ..pre }));
            }
        }
    }

    /// `Fx65`: read memory starting at `I` into `V0..=Vx`, wrapping within
    /// the 12-bit address space; registers above `Vx` are untouched.
    pub fn ld_vx_i(&mut self, x: u8)
        requires
            old(self)@.wf(),
            x < 16,
        ensures
            final(self)@.wf(),
            final(self)@ == spec_ld_vx_i(old(self)@, x),
    {
        proof {
            let pre = old(self)@;
            assert(Seq::new(
                16,
                |j: int| if j < 0 { pre.ram[((pre.i + j) % 4096) as int] } else { pre.registers[j] },
            ) =~= pre.registers);
            assert(self@ =~= (VmView {
                registers: Seq::new(
                    16,
                    |j: int|
                        if j < 0 {
                            pre.ram[((pre.i + j) % 4096) as int]
                        } else {
                            pre.registers[j]
                        },
                ),
                ..pre
            }));
        }
        let mut k: usize = 0;
        while k <= x as usize
            invariant
                old(self)@.wf(),
                self@.wf(),
                x < 16,
                k <= x + 1,
                self@ == (VmView {
                    registers: Seq::new(
                        16,
                        |j: int|
                            if j < k {
                                old(self)@.ram[((old(self)@.i + j) % 4096) as int]
                            } else {
                                old(self)@.registers[j]
                            },
                    ),
                    ..old(self)@
                }),
            decreases x + 1 - k,
        {
            let addr = (self.i as usize + k) % 4096;
            let byte = self.ram[addr];
            self.registers.set(k, byte);
            k = k + 1;
            proof {
                let pre = old(self)@;
                assert(self@.registers =~= Seq::new(
                    16,
                    |j: int|
                        if j < k {
                            pre.ram[((pre.i + j) % 4096) as int]
                        } else {
                            pre.registers[j]
                        },
                ));
            }
        }
        proof {
            assert(self@.registers =~= spec_ld_vx_i(old(self)@, x).registers);
        }
    }

    /// One fetch-decode-execute cycle: read the big-endian opcode at the
    /// program counter, advance the counter by two (before execution, so
    /// jump and call targets are not perturbed), and run exactly one
    /// instruction.  A cycle that reports an error — an opcode outside
    /// the decode table, or a stack fault — leaves the machine exactly as
    /// it was.  The call never blocks: the key-wait instruction retries by
    /// rewinding the program counter instead.
    pub fn decode(&mut self) -> (r: Result<(), VmError>)
        requires
            old(self)@.wf(),
        ensures
            final(self)@.wf(),
            (match r {
                Ok(()) => exists|rnd: u8|
                    spec_cycle(old(self)@, rnd) == Ok::<VmView, VmError>(final(self)@),
                Err(e) => final(self)@ == old(self)@ && spec_cycle(old(self)@, 0) == Err::<
                    VmView,
                    VmError,
                >(e),
            }),
    {
        let hi = self.ram[self.pc as usize];
        let lo = self.ram[((self.pc as usize) + 1) % 4096];
        let op = (hi as u16) * 256 + (lo as u16);
        proof {
            assert(op == spec_fetch(self@));
            crate::decode::lemma_decode_wf(op);
        }
        let instr = match decode_opcode(op) {
            Some(ins) => ins,
            None => {
                return Err(VmError::UnknownOpcode(op));
            }
        };
        let ghost pre = old(self)@;
        let saved_pc = self.pc;
        self.pc = (self.pc + 2) % 4096;
        let ghost mid = self@;
        proof {
            assert(mid == (VmView { pc: next_pc(pre.pc), ..pre }));
        }
        match instr {
            Instruction::Cls => {
                self.cls();
                proof {
                    assert(spec_cycle(pre, 0u8) == Ok::<VmView, VmError>(self@));
                }
            }
            Instruction::Ret => {
                match self.ret() {
                    Ok(()) => {
                        proof {
                            assert(spec_cycle(pre, 0u8) == Ok::<VmView, VmError>(self@));
                        }
                    }
                    Err(e) => {
                        self.pc = saved_pc;
                        proof {
                            assert(self@ == pre);
                        }
                        return Err(e);
                    }
                }
            }
            Instruction::Sys(nnn) => {
                self.sys(nnn);
                proof {
                    assert(spec_cycle(pre, 0u8) == Ok::<VmView, VmError>(self@));
                }
            }
            Instruction::Jp(nnn) => {
                self.jp(nnn);
                proof {
                    assert(spec_cycle(pre, 0u8) == Ok::<VmView, VmError>(self@));
                }
            }
            Instruction::Call(nnn) => {
                match self.call(nnn) {
                    Ok(()) => {
                        proof {
                            assert(spec_cycle(pre, 0u8) == Ok::<VmView, VmError>(self@));
                        }
                    }
                    Err(e) => {
                        self.pc = saved_pc;
                        proof {
                            assert(self@ == pre);
                        }
                        return Err(e);
                    }
                }
            }
            Instruction::SeVxKk(x, kk) => {
                self.se_vx_kk(x, kk);
                proof {
                    assert(spec_cycle(pre, 0u8) == Ok::<VmView, VmError>(self@));
                }
            }
            Instruction::SneVxKk(x, kk) => {
                self.sne_vx_kk(x, kk);
                proof {
                    assert(spec_cycle(pre, 0u8) == Ok::<VmView, VmError>(self@));
                }
            }
            Instruction::SeVxVy(x, y) => {
                self.se_vx_vy(x, y);
                proof {
                    assert(spec_cycle(pre, 0u8) == Ok::<VmView, VmError>(self@));
                }
            }
            Instruction::LdVxKk(x, kk) => {
                self.ld_vx_kk(x, kk);
                proof {
                    assert(spec_cycle(pre, 0u8) == Ok::<VmView, VmError>(self@));
                }
            }
            Instruction::AddVxKk(x, kk) => {
                self.add_vx_kk(x, kk);
                proof {
                    assert(spec_cycle(pre, 0u8) == Ok::<VmView, VmError>(self@));
                }
            }
            Instruction::LdVxVy(x, y) => {
                self.ld_vx_vy(x, y);
                proof {
                    assert(spec_cycle(pre, 0u8) == Ok::<VmView, VmError>(self@));
                }
            }
            Instruction::OrVxVy(x, y) => {
                self.or_vx_vy(x, y);
                proof {
                    assert(spec_cycle(pre, 0u8) == Ok::<VmView, VmError>(self@));
                }
            }
            Instruction::AndVxVy(x, y) => {
                self.and_vx_vy(x, y);
                proof {
                    assert(spec_cycle(pre, 0u8) == Ok::<VmView, VmError>(self@));
                }
            }
            Instruction::XorVxVy(x, y) => {
                self.xor_vx_vy(x, y);
                proof {
                    assert(spec_cycle(pre, 0u8) == Ok::<VmView, VmError>(self@));
                }
            }
            Instruction::AddVxVy(x, y) => {
                self.add_vx_vy(x, y);
                proof {
                    assert(spec_cycle(pre, 0u8) == Ok::<VmView, VmError>(self@));
                }
            }
            Instruction::SubVxVy(x, y) => {
                self.sub_vx_vy(x, y);
                proof {
                    assert(spec_cycle(pre, 0u8) == Ok::<VmView, VmError>(self@));
                }
            }
            Instruction::ShrVx(x) => {
                self.shr_vx_vy(x, 0);
                proof {
                    assert(spec_cycle(pre, 0u8) == Ok::<VmView, VmError>(self@));
                }
            }
            Instruction::SubnVxVy(x, y) => {
                self.subn_vx_vy(x, y);
                proof {
                    assert(spec_cycle(pre, 0u8) == Ok::<VmView, VmError>(self@));
                }
            }
            Instruction::ShlVx(x) => {
                self.shl_vx_vy(x, 0);
                proof {
                    assert(spec_cycle(pre, 0u8) == Ok::<VmView, VmError>(self@));
                }
            }
            Instruction::SneVxVy(x, y) => {
                self.sne_vx_vy(x, y);
                proof {
                    assert(spec_cycle(pre, 0u8) == Ok::<VmView, VmError>(self@));
                }
            }
            Instruction::LdIAddr(nnn) => {
                self.ld_i_addr(nnn);
                proof {
                    assert(spec_cycle(pre, 0u8) == Ok::<VmView, VmError>(self@));
                }
            }
            Instruction::JpV0Addr(nnn) => {
                self.jp_v0_addr(nnn);
                proof {
                    assert(spec_cycle(pre, 0u8) == Ok::<VmView, VmError>(self@));
                }
            }
            Instruction::RndVxKk(x, kk) => {
                self.rnd_vx_kk(x, kk);
                proof {
                    let rnd0 = choose|rnd: u8| self@ == spec_rnd_vx_kk(mid, x, kk, rnd);
                    assert(spec_cycle(pre, rnd0) == Ok::<VmView, VmError>(self@));
                }
            }
            Instruction::DrwVxVyN(x, y, n) => {
                self.drw_vx_vy_n(x, y, n);
                proof {
                    assert(spec_cycle(pre, 0u8) == Ok::<VmView, VmError>(self@));
                }
            }
            Instruction::SkpVx(x) => {
                self.skp_vx(x);
                proof {
                    assert(spec_cycle(pre, 0u8) == Ok::<VmView, VmError>(self@));
                }
            }
            Instruction::SknpVx(x) => {
                self.sknp_vx(x);
                proof {
                    assert(spec_cycle(pre, 0u8) == Ok::<VmView, VmError>(self@));
                }
            }
            Instruction::LdVxDt(x) => {
                self.ld_vx_dt(x);
                proof {
                    assert(spec_cycle(pre, 0u8) == Ok::<VmView, VmError>(self@));
                }
            }
            Instruction::LdVxK(x) => {
                self.ld_vx_k(x);
                proof {
                    assert(spec_cycle(pre, 0u8) == Ok::<VmView, VmError>(self@));
                }
            }
            Instruction::LdDtVx(x) => {
                self.ld_dt_vx(x);
                proof {
                    assert(spec_cycle(pre, 0u8) == Ok::<VmView, VmError>(self@));
                }
            }
            Instruction::LdStVx(x) => {
                self.ld_st_vx(x);
                proof {
                    assert(spec_cycle(pre, 0u8) == Ok::<VmView, VmError>(self@));
                }
            }
            Instruction::AddIVx(x) => {
                self.add_i_vx(x);
                proof {
                    assert(spec_cycle(pre, 0u8) == Ok::<VmView, VmError>(self@));
                }
            }
            Instruction::LdFVx(x) => {
                self.ld_f_vx(x);
                proof {
                    assert(spec_cycle(pre, 0u8) == Ok::<VmView, VmError>(self@));
                }
            }
            Instruction::LdBVx(x) => {
                self.ld_b_vx(x);
                proof {
                    assert(spec_cycle(pre, 0u8) == Ok::<VmView, VmError>(self@));
                }
            }
            Instruction::LdIVx(x) => {
                self.ld_i_vx(x);
                proof {
                    assert(spec_cycle(pre, 0u8) == Ok::<VmView, VmError>(self@));
                }
            }
            Instruction::LdVxI(x) => {
                self.ld_vx_i(x);
                proof {
                    assert(spec_cycle(pre, 0u8) == Ok::<VmView, VmError>(self@));
                }
            }
        }
        Ok(())
    }
}

} // verus!
