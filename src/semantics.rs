use vstd::prelude::*;
use crate::error::Error;
use crate::variant::{EmulationSystem, ShiftSource, quirks_of, width_of, height_of};
use crate::display::{Blit, bit_set, shifted_up, shifted_down, rows_scrolled};

verus! {

/// The abstract state of a machine.
#[verifier::ext_equal]
pub struct MachineView {
    pub system: EmulationSystem,
    /// Framebuffer, column-major: pixel (x, y) is at `x * height + y`.
    pub display: Seq<bool>,
    pub ram: Seq<u8>,
    pub pc: u16,
    pub index: u16,
    pub regs: Seq<u8>,
    /// Return addresses, bottom first.
    pub stack: Seq<u16>,
    pub delay: u8,
    pub sound: u8,
    /// Key mask latched by the key-wait instruction.
    pub latch: u16,
    pub high_res: bool,
    /// Register bank saved and restored by `Fx75` / `Fx85`.
    pub flags: Seq<u8>,
}

/// Address of the small font glyphs.
pub const SMALL_FONT_BASE: u16 = 0x050;
/// Address of the big font glyphs.
pub const BIG_FONT_BASE: u16 = 0x0A0;
/// Address where programs are loaded and where an empty-stack return resumes.
pub const PROGRAM_START: u16 = 0x200;

/// The address two bytes further on, wrapping around the 4 KiB address space.
pub open spec fn advance(pc: u16) -> u16 {
    ((pc + 2) % 4096) as u16
}

/// The address two bytes back, wrapping around the 4 KiB address space.
pub open spec fn retreat(pc: u16) -> u16 {
    ((pc + 4094) % 4096) as u16
}

/// The big-endian instruction word at `pc`.
pub open spec fn fetch(ram: Seq<u8>, pc: u16) -> u16 {
    (ram[pc as int] as int * 256 + ram[(pc + 1) % 4096] as int) as u16
}

pub open spec fn op_of(ins: u16) -> int {
    ins as int / 4096
}

pub open spec fn x_of(ins: u16) -> int {
    (ins as int / 256) % 16
}

pub open spec fn y_of(ins: u16) -> int {
    (ins as int / 16) % 16
}

pub open spec fn n_of(ins: u16) -> int {
    ins as int % 16
}

pub open spec fn nn_of(ins: u16) -> int {
    ins as int % 256
}

pub open spec fn nnn_of(ins: u16) -> int {
    ins as int % 4096
}

/// How far address `a` lies past `base`, modulo the address space.
pub open spec fn offset_from(a: int, base: int) -> int {
    (a - base) % 4096
}

/// Index of the lowest set bit of `d` at or above `i`, or 16 if there is none.
pub open spec fn first_bit_from(d: u16, i: int) -> int
    decreases 16 - i,
{
    if i >= 16 || i < 0 {
        16
    } else if bit_set(d, i as u16) {
        i
    } else {
        first_bit_from(d, i + 1)
    }
}

/// The sprite draw that `Dxyn` performs in state `m`.
pub open spec fn draw_blit(m: MachineView, x: int, y: int, n: int) -> Blit {
    let scale: usize = if m.system == EmulationSystem::SuperChip && !m.high_res { 2 } else { 1 };
    let w = width_of(m.system) as usize;
    let h = height_of(m.system) as usize;
    let wide = m.high_res && n == 0;
    Blit {
        width: w,
        height: h,
        scale,
        x0: (m.regs[x] as int % (w / scale) as int) as usize,
        y0: (m.regs[y] as int % (h / scale) as int) as usize,
        rows: if wide { 16 } else { n as usize },
        wide,
    }
}

/// The value of `VF` after a draw: in high resolution the number of rows that
/// collided plus the rows clipped at the bottom; otherwise 1 on any collision.
pub open spec fn draw_flag(m: MachineView, b: Blit) -> u8 {
    let hits = b.hit_count(m.ram, m.index, m.display, b.drawn_rows());
    if m.high_res {
        (hits + (b.rows - b.drawn_rows())) as u8
    } else if hits > 0 {
        1
    } else {
        0
    }
}

/// Effect of `Dxyn`: the sprite XOR-drawn and `VF` set from the collisions.
#[verifier::opaque]
pub open spec fn draw_step(m: MachineView, x: int, y: int, n: int) -> MachineView {
    let b = draw_blit(m, x, y, n);
    MachineView {
        display: Seq::new(m.display.len(), |k: int| m.display[k] != b.covers(m.ram, m.index, k)),
        regs: m.regs.update(15, draw_flag(m, b)),
        ..m
    }
}

pub open spec fn skip_if(m: MachineView, c: bool) -> MachineView {
    if c {
        MachineView { pc: advance(m.pc), ..m }
    } else {
        m
    }
}

pub open spec fn with_reg(m: MachineView, x: int, v: u8) -> MachineView {
    MachineView { regs: m.regs.update(x, v), ..m }
}

/// `Vx = v` and then `VF = f`.
pub open spec fn with_reg_flag(m: MachineView, x: int, v: u8, f: u8) -> MachineView {
    MachineView { regs: m.regs.update(x, v).update(15, f), ..m }
}

/// `Vx = v`, then `VF = f` when a flag is given.
pub open spec fn set_regs(regs: Seq<u8>, x: int, v: u8, f: Option<u8>) -> Seq<u8> {
    match f {
        Some(f) => regs.update(x, v).update(15, f),
        None => regs.update(x, v),
    }
}

/// The registers after an `8xyn` arithmetic or logic instruction, or `None`
/// for an encoding outside the group.
#[verifier::opaque]
pub open spec fn alu_step(system: EmulationSystem, regs: Seq<u8>, x: int, y: int, n: int) -> Option<Seq<u8>> {
    let vx = regs[x];
    let vy = regs[y];
    let q = quirks_of(system);
    let src = if q.shift_source == ShiftSource::FromY { vy } else { vx };
    let clear = if q.logic_clears_flag { Some(0u8) } else { None };
    if n == 0 {
        Some(set_regs(regs, x, vy, None))
    } else if n == 1 {
        Some(set_regs(regs, x, vx | vy, clear))
    } else if n == 2 {
        Some(set_regs(regs, x, vx & vy, clear))
    } else if n == 3 {
        Some(set_regs(regs, x, vx ^ vy, clear))
    } else if n == 4 {
        Some(set_regs(regs, x, ((vx + vy) % 256) as u8, Some(if vx + vy > 255 { 1u8 } else { 0u8 })))
    } else if n == 5 {
        Some(set_regs(regs, x, ((vx - vy) % 256) as u8, Some(if vx >= vy { 1u8 } else { 0u8 })))
    } else if n == 7 {
        Some(set_regs(regs, x, ((vy - vx) % 256) as u8, Some(if vy >= vx { 1u8 } else { 0u8 })))
    } else if n == 6 {
        Some(set_regs(regs, x, src / 2, Some(src % 2)))
    } else if n == 0xE {
        Some(set_regs(regs, x, ((src * 2) % 256) as u8, Some(src / 128)))
    } else {
        None
    }
}

/// Effect of the `Fxnn` group common to both variants, given the held keys.
#[verifier::opaque]
pub open spec fn misc_step(m: MachineView, x: int, nn: int, keys: u16) -> Option<MachineView> {
    let vx = m.regs[x];
    let inc = quirks_of(m.system).load_store_increments_index;
    let index_after = if inc { ((m.index + x + 1) % 65536) as u16 } else { m.index };
    if nn == 0x07 {
        Some(with_reg(m, x, m.delay))
    } else if nn == 0x15 {
        Some(MachineView { delay: vx, ..m })
    } else if nn == 0x18 {
        Some(MachineView { sound: vx, ..m })
    } else if nn == 0x1E {
        Some(MachineView { index: ((m.index + vx) % 65536) as u16, ..m })
    } else if nn == 0x0A {
        if keys < m.latch {
            let released = first_bit_from((m.latch - keys) as u16, 0);
            Some(MachineView { regs: m.regs.update(x, released as u8), latch: 0, ..m })
        } else {
            Some(MachineView { latch: keys, pc: retreat(m.pc), ..m })
        }
    } else if nn == 0x29 {
        Some(MachineView { index: (SMALL_FONT_BASE + (vx % 16) * 5) as u16, ..m })
    } else if nn == 0x33 {
        Some(
            MachineView {
                ram: m.ram.update(m.index as int % 4096, vx / 100).update((m.index + 1) % 4096, (vx / 10) % 10)
                    .update((m.index + 2) % 4096, vx % 10),
                ..m
            },
        )
    } else if nn == 0x55 {
        Some(
            MachineView {
                ram: Seq::new(
                    4096,
                    |a: int| if offset_from(a, m.index as int) <= x { m.regs[offset_from(a, m.index as int)] } else { m.ram[a] },
                ),
                index: index_after,
                ..m
            },
        )
    } else if nn == 0x65 {
        Some(
            MachineView {
                regs: Seq::new(16, |r: int| if r <= x { m.ram[(m.index + r) % 4096] } else { m.regs[r] }),
                index: index_after,
                ..m
            },
        )
    } else {
        None
    }
}

/// Effect of the opcodes that only the extended variant has.
#[verifier::opaque]
pub open spec fn extended_step(m: MachineView, ins: u16) -> (MachineView, Result<bool, Error>) {
    let x = x_of(ins);
    let h = height_of(m.system) as int;
    if m.system != EmulationSystem::SuperChip {
        (m, Err(Error::IllegalInstruction(ins)))
    } else if ins == 0x00FD {
        (m, Err(Error::ProgramExited))
    } else if ins == 0x00FE {
        (MachineView { high_res: false, ..m }, Ok(false))
    } else if ins == 0x00FF {
        (MachineView { high_res: true, ..m }, Ok(false))
    } else if ins == 0x00FB {
        (MachineView { display: shifted_up(m.display, (if m.high_res { 4int } else { 8int }) * h), ..m }, Ok(true))
    } else if ins == 0x00FC {
        (MachineView { display: shifted_down(m.display, (if m.high_res { 4int } else { 8int }) * h), ..m }, Ok(true))
    } else if ins / 16 == 0x00C {
        let rows = if m.high_res { n_of(ins) } else { 2 * n_of(ins) };
        (MachineView { display: rows_scrolled(m.display, h, rows), ..m }, Ok(true))
    } else if op_of(ins) == 0xF && nn_of(ins) == 0x30 {
        (MachineView { index: (BIG_FONT_BASE + (m.regs[x] % 16) * 10) as u16, ..m }, Ok(false))
    } else if op_of(ins) == 0xF && nn_of(ins) == 0x75 {
        (MachineView { flags: Seq::new(16, |r: int| if r <= x { m.regs[r] } else { m.flags[r] }), ..m }, Ok(false))
    } else if op_of(ins) == 0xF && nn_of(ins) == 0x85 {
        (MachineView { regs: Seq::new(16, |r: int| if r <= x { m.flags[r] } else { m.regs[r] }), ..m }, Ok(false))
    } else {
        (m, Err(Error::IllegalInstruction(ins)))
    }
}

/// Effect of instruction `ins` on a state whose program counter has already
/// been advanced past it, given the held keys and a random byte: the new state,
/// and whether the framebuffer changed or why execution stopped.
pub open spec fn execute(m: MachineView, ins: u16, keys: u16, rnd: u8) -> (MachineView, Result<bool, Error>) {
    let op = op_of(ins);
    let x = x_of(ins);
    let y = y_of(ins);
    let n = n_of(ins);
    let nn = nn_of(ins);
    let nnn = nnn_of(ins);
    let vx = m.regs[x];
    let vy = m.regs[y];
    if op == 0 && y == 0xE && n == 0 {
        (MachineView { display: Seq::new(m.display.len(), |k: int| false), ..m }, Ok(true))
    } else if op == 0 && y == 0xE && n == 0xE {
        if m.stack.len() == 0 {
            (MachineView { pc: PROGRAM_START, ..m }, Ok(false))
        } else {
            (MachineView { pc: m.stack.last(), stack: m.stack.drop_last(), ..m }, Ok(false))
        }
    } else if op == 1 {
        (MachineView { pc: nnn as u16, ..m }, Ok(false))
    } else if op == 2 {
        if m.stack.len() >= 16 {
            (m, Err(Error::StackOverflow))
        } else {
            (MachineView { pc: nnn as u16, stack: m.stack.push(m.pc), ..m }, Ok(false))
        }
    } else if op == 3 {
        (skip_if(m, vx == nn), Ok(false))
    } else if op == 4 {
        (skip_if(m, vx != nn), Ok(false))
    } else if op == 5 {
        (skip_if(m, vx == vy), Ok(false))
    } else if op == 9 {
        (skip_if(m, vx != vy), Ok(false))
    } else if op == 6 {
        (with_reg(m, x, nn as u8), Ok(false))
    } else if op == 7 {
        (with_reg(m, x, ((vx + nn) % 256) as u8), Ok(false))
    } else if op == 8 && alu_step(m.system, m.regs, x, y, n).is_some() {
        (MachineView { regs: alu_step(m.system, m.regs, x, y, n).unwrap(), ..m }, Ok(false))
    } else if op == 0xA {
        (MachineView { index: nnn as u16, ..m }, Ok(false))
    } else if op == 0xB {
        let offset = if quirks_of(m.system).jump_uses_vx { vx } else { m.regs[0] };
        (MachineView { pc: ((nnn + offset) % 4096) as u16, ..m }, Ok(false))
    } else if op == 0xC {
        (with_reg(m, x, rnd & (nn as u8)), Ok(false))
    } else if op == 0xD {
        (draw_step(m, x, y, n), Ok(true))
    } else if op == 0xE && nn == 0x9E {
        (skip_if(m, bit_set(keys, (vx % 16) as u16)), Ok(false))
    } else if op == 0xE && nn == 0xA1 {
        (skip_if(m, !bit_set(keys, (vx % 16) as u16)), Ok(false))
    } else if op == 0xF && misc_step(m, x, nn, keys).is_some() {
        (misc_step(m, x, nn, keys).unwrap(), Ok(false))
    } else {
        extended_step(m, ins)
    }
}

/// One fetch-decode-execute step: the state after it, and its result.
pub open spec fn step(m: MachineView, keys: u16, rnd: u8) -> (MachineView, Result<bool, Error>) {
    execute(MachineView { pc: advance(m.pc), ..m }, fetch(m.ram, m.pc), keys, rnd)
}

} // verus!
