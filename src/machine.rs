use vstd::prelude::*;
use crate::display::{blit, bit_set_exec, shift, scroll_rows, Blit};
use crate::error::Error;
use vstd::arithmetic::div_mod::{lemma_fundamental_div_mod, lemma_fundamental_div_mod_converse};
use crate::font::{default_big_font, default_font};
use crate::semantics::{
    MachineView, PROGRAM_START, advance, fetch, first_bit_from, draw_blit, draw_flag, draw_step,
    offset_from, alu_step, misc_step, extended_step, execute, step,
};
use crate::stack::{stack_items, stack_new, stack_pop, stack_push, stack_to_vec};
use crate::variant::{EmulationSystem, ShiftSource, Quirks, width_of, height_of};

verus! {

/// Size of the address space in bytes.
pub const MEMORY_SIZE: usize = 4096;

/// The complete state of an emulated machine.
pub struct MachineState {
    system: EmulationSystem,
    display_buffer: Vec<bool>,
    ram: Vec<u8>,
    program_counter: u16,
    index_register: u16,
    var_registers: Vec<u8>,
    stack: heapless::Vec<u16, 16>,
    delay_timer: u8,
    /// Counts down at the timer rate; a tone sounds while it is nonzero.
    pub sound_timer: u8,
    previous_keystate: u16,
    high_res: bool,
    user_flags: Vec<u8>,
}

impl View for MachineState {
    type V = MachineView;

    closed spec fn view(&self) -> MachineView {
        MachineView {
            system: self.system,
            display: self.display_buffer@,
            ram: self.ram@,
            pc: self.program_counter,
            index: self.index_register,
            regs: self.var_registers@,
            stack: stack_items(self.stack),
            delay: self.delay_timer,
            sound: self.sound_timer,
            latch: self.previous_keystate,
            high_res: self.high_res,
            flags: self.user_flags@,
        }
    }
}

/// Shape invariants of a machine state.
pub open spec fn view_wf(m: MachineView) -> bool {
    &&& m.ram.len() == 4096
    &&& m.regs.len() == 16
    &&& m.flags.len() == 16
    &&& m.display.len() == width_of(m.system) * height_of(m.system)
    &&& m.pc < 4096
    &&& m.stack.len() <= 16
    &&& forall|i: int| 0 <= i < m.stack.len() ==> #[trigger] m.stack[i] < 4096
    &&& (m.high_res ==> m.system == EmulationSystem::SuperChip)
}

/// The state right after construction: blank memory and display, registers
/// zero, the program counter at the program start.
pub open spec fn initial_view(system: EmulationSystem) -> MachineView {
    MachineView {
        system,
        display: Seq::new(width_of(system) * height_of(system), |k: int| false),
        ram: Seq::new(4096, |a: int| 0u8),
        pc: PROGRAM_START,
        index: 0,
        regs: Seq::new(16, |r: int| 0u8),
        stack: Seq::empty(),
        delay: 0,
        sound: 0,
        latch: 0,
        high_res: false,
        flags: Seq::new(16, |r: int| 0u8),
    }
}

/// `ram` with `bytes` written from address `base` on.
pub open spec fn written(ram: Seq<u8>, base: int, bytes: Seq<u8>) -> Seq<u8> {
    Seq::new(
        ram.len(),
        |a: int| if base <= a < base + bytes.len() { bytes[a - base] } else { ram[a] },
    )
}

fn zeros<T: Copy>(len: usize, zero: T) -> (r: Vec<T>)
    ensures
        r@ == Seq::new(len as nat, |i: int| zero),
{
    let mut r: Vec<T> = Vec::new();
    let mut i: usize = 0;
    while i < len
        invariant
            i <= len,
            r@ == Seq::new(i as nat, |k: int| zero),
        decreases len - i,
    {
        r.push(zero);
        i = i + 1;
        assert(r@ =~= Seq::new(i as nat, |k: int| zero));
    }
    r
}

impl Default for MachineState {
    /// A classic machine with zeroed memory, registers and display.
    fn default() -> (r: Self)
        ensures
            r.wf(),
            r@ == initial_view(EmulationSystem::Chip8),
    {
        MachineState::new(EmulationSystem::Chip8)
    }
}

impl MachineState {
    pub open spec fn wf(&self) -> bool {
        view_wf(self@)
    }

    /// A machine of the given variant with zeroed memory, registers and
    /// display, and the program counter at the program start.
    pub fn new(system: EmulationSystem) -> (r: Self)
        ensures
            r.wf(),
            r@ == initial_view(system),
    {
        let w = system.display_width();
        let h = system.display_height();
        let r = MachineState {
            system,
            display_buffer: zeros(w * h, false),
            ram: zeros(MEMORY_SIZE, 0u8),
            program_counter: PROGRAM_START,
            index_register: 0,
            var_registers: zeros(16, 0u8),
            stack: stack_new(),
            delay_timer: 0,
            sound_timer: 0,
            previous_keystate: 0,
            high_res: false,
            user_flags: zeros(16, 0u8),
        };
        assert(r@ =~= initial_view(system));
        r
    }

    /// Writes `bytes` into memory from address `base` on.
    fn write_memory(&mut self, base: usize, bytes: &[u8])
        requires
            old(self).wf(),
            base + bytes@.len() <= 4096,
        ensures
            final(self).wf(),
            final(self)@ == (MachineView { ram: written(old(self)@.ram, base as int, bytes@), ..old(self)@ }),
    {
        let mut i: usize = 0;
        while i < bytes.len()
            invariant
                self.wf(),
                base + bytes@.len() <= 4096,
                i <= bytes@.len(),
                self@ == (MachineView { ram: written(old(self)@.ram, base as int, bytes@.take(i as int)), ..old(self)@ }),
            decreases bytes@.len() - i,
        {
            self.ram.set(base + i, bytes[i]);
            i = i + 1;
            assert(self.ram@ =~= written(old(self)@.ram, base as int, bytes@.take(i as int)));
        }
        assert(bytes@.take(i as int) =~= bytes@);
    }

    /// Loads the small font: 16 glyphs of 5 bytes at address 0x050.
    pub fn load_font(&mut self, font: &[u8; 0x50])
        requires
            old(self).wf(),
        ensures
            final(self).wf(),
            final(self)@ == (MachineView { ram: written(old(self)@.ram, 0x050, font@), ..old(self)@ }),
    {
        self.write_memory(0x050, font.as_slice());
    }

    /// Loads the big font: 16 glyphs of 10 bytes at address 0x0A0.
    pub fn load_big_font(&mut self, big_font: &[u8; 0xA0])
        requires
            old(self).wf(),
        ensures
            final(self).wf(),
            final(self)@ == (MachineView { ram: written(old(self)@.ram, 0x0A0, big_font@), ..old(self)@ }),
    {
        self.write_memory(0x0A0, big_font.as_slice());
    }

    /// Loads the built-in small font, and for the extended variant the
    /// built-in big font too.
    pub fn load_default_font(&mut self)
        requires
            old(self).wf(),
        ensures
            final(self).wf(),
            final(self)@ == (MachineView { ram: final(self)@.ram, ..old(self)@ }),
            forall|a: int|
                0 <= a < 4096 && !(0x050 <= a < 0x140) ==> #[trigger] final(self)@.ram[a]
                    == old(self)@.ram[a],
            old(self)@.system == EmulationSystem::Chip8 ==> final(self)@.ram == written(
                old(self)@.ram,
                0x050,
                crate::font::small_font_glyphs(),
            ),
            old(self)@.system == EmulationSystem::SuperChip ==> final(self)@.ram == written(
                written(old(self)@.ram, 0x050, crate::font::small_font_glyphs()),
                0x0A0,
                crate::font::big_font_glyphs(),
            ),
    {
        let font = default_font();
        self.load_font(&font);
        if self.system == EmulationSystem::SuperChip {
            let big = default_big_font();
            self.load_big_font(&big);
        }
    }

    /// Loads a program at address 0x200.
    pub fn load_program(&mut self, program: &[u8])
        requires
            old(self).wf(),
            program@.len() <= 4096 - 0x200,
        ensures
            final(self).wf(),
            final(self)@ == (MachineView { ram: written(old(self)@.ram, 0x200, program@), ..old(self)@ }),
    {
        self.write_memory(0x200, program);
    }

    /// Decrements each nonzero timer by one.
    pub fn tick_timer(&mut self)
        requires
            old(self).wf(),
        ensures
            final(self).wf(),
            final(self)@ == (MachineView {
                delay: if old(self)@.delay > 0 { (old(self)@.delay - 1) as u8 } else { 0 },
                sound: if old(self)@.sound > 0 { (old(self)@.sound - 1) as u8 } else { 0 },
                ..old(self)@
            }),
    {
        if self.delay_timer > 0 {
            self.delay_timer -= 1;
        }
        if self.sound_timer > 0 {
            self.sound_timer -= 1;
        }
    }

    /// Executes the `8xyn` group. Returns false, changing nothing, for an
    /// encoding outside the group.
    fn exec_alu(&mut self, x: usize, y: usize, n: u16) -> (matched: bool)
        requires
            old(self).wf(),
            x < 16,
            y < 16,
        ensures
            final(self).wf(),
            matched == alu_step(old(self)@.system, old(self)@.regs, x as int, y as int, n as int).is_some(),
            final(self)@ == (MachineView {
                regs: if matched {
                    alu_step(old(self)@.system, old(self)@.regs, x as int, y as int, n as int).unwrap()
                } else {
                    old(self)@.regs
                },
                ..old(self)@
            }),
    {
        reveal(alu_step);
        let ghost m = self@;
        let q: Quirks = self.system.quirks();
        let vx = self.var_registers[x];
        let vy = self.var_registers[y];
        let src = if q.shift_source == ShiftSource::FromY { vy } else { vx };
        if n == 0 {
            self.var_registers.set(x, vy);
        } else if n == 1 || n == 2 || n == 3 {
            let v = if n == 1 {
                vx | vy
            } else if n == 2 {
                vx & vy
            } else {
                vx ^ vy
            };
            self.var_registers.set(x, v);
            if q.logic_clears_flag {
                self.var_registers.set(15, 0);
            }
        } else if n == 4 {
            let sum = vx as u16 + vy as u16;
            self.var_registers.set(x, (sum % 256) as u8);
            self.var_registers.set(15, if sum > 255 { 1 } else { 0 });
        } else if n == 5 {
            self.var_registers.set(x, vx.wrapping_sub(vy));
            self.var_registers.set(15, if vx >= vy { 1 } else { 0 });
        } else if n == 7 {
            self.var_registers.set(x, vy.wrapping_sub(vx));
            self.var_registers.set(15, if vy >= vx { 1 } else { 0 });
        } else if n == 6 {
            self.var_registers.set(x, src / 2);
            self.var_registers.set(15, src % 2);
        } else if n == 0xE {
            self.var_registers.set(x, ((src as u16 * 2) % 256) as u8);
            self.var_registers.set(15, src / 128);
        } else {
            return false;
        }
        assert(self.var_registers@ =~= alu_step(m.system, m.regs, x as int, y as int, n as int).unwrap());
        assert(self@ =~= (MachineView { regs: self.var_registers@, ..m }));
        true
    }

    /// `Fx55`: stores `V0..=Vx` to memory from the index register on.
    fn store_registers(&mut self, x: usize)
        requires
            old(self).wf(),
            x < 16,
        ensures
            final(self).wf(),
            final(self)@ == misc_step(old(self)@, x as int, 0x55, 0).unwrap(),
    {
        reveal(misc_step);
        let ghost m = self@;
        let base = self.index_register as usize;
        let mut i: usize = 0;
        while i <= x
            invariant
                self.wf(),
                x < 16,
                base == m.index,
                i <= x + 1,
                self@ == (MachineView {
                    ram: Seq::new(
                        4096,
                        |a: int| if offset_from(a, base as int) < i { m.regs[offset_from(a, base as int)] } else { m.ram[a] },
                    ),
                    ..m
                }),
            decreases x + 1 - i,
        {
            let addr = (base + i) % 4096;
            let v = self.var_registers[i];
            self.ram.set(addr, v);
            proof {
                assert forall|a: int| 0 <= a < 4096 implies (#[trigger] offset_from(a, base as int) == i) == (a == addr) by {
                    lemma_offset(a, base as int, i as int);
                }
            }
            i = i + 1;
            assert(self.ram@ =~= Seq::new(
                4096,
                |a: int| if offset_from(a, base as int) < i { m.regs[offset_from(a, base as int)] } else { m.ram[a] },
            ));
        }
        if self.system.quirks().load_store_increments_index {
            self.index_register = ((self.index_register as usize + x + 1) % 65536) as u16;
        }
        assert(self@.ram =~= misc_step(m, x as int, 0x55, 0).unwrap().ram);
        assert(self@ =~= misc_step(m, x as int, 0x55, 0).unwrap());
    }

    /// `Fx65`: loads `V0..=Vx` from memory from the index register on.
    fn load_registers(&mut self, x: usize)
        requires
            old(self).wf(),
            x < 16,
        ensures
            final(self).wf(),
            final(self)@ == misc_step(old(self)@, x as int, 0x65, 0).unwrap(),
    {
        reveal(misc_step);
        let ghost m = self@;
        let base = self.index_register as usize;
        let mut i: usize = 0;
        while i <= x
            invariant
                self.wf(),
                x < 16,
                base == m.index,
                i <= x + 1,
                self@ == (MachineView {
                    regs: Seq::new(16, |r: int| if r < i { m.ram[(base + r) % 4096] } else { m.regs[r] }),
                    ..m
                }),
            decreases x + 1 - i,
        {
            let v = self.ram[(base + i) % 4096];
            self.var_registers.set(i, v);
            i = i + 1;
            assert(self.var_registers@ =~= Seq::new(
                16,
                |r: int| if r < i { m.ram[(base + r) % 4096] } else { m.regs[r] },
            ));
        }
        if self.system.quirks().load_store_increments_index {
            self.index_register = ((self.index_register as usize + x + 1) % 65536) as u16;
        }
        assert(self@.regs =~= misc_step(m, x as int, 0x65, 0).unwrap().regs);
        assert(self@ =~= misc_step(m, x as int, 0x65, 0).unwrap());
    }

    /// `Fx0A`: records a released key in `Vx`, or latches the held keys and
    /// moves the program counter back so that the instruction runs again.
    fn wait_key(&mut self, x: usize, keys: u16)
        requires
            old(self).wf(),
            x < 16,
        ensures
            final(self).wf(),
            final(self)@ == misc_step(old(self)@, x as int, 0x0A, keys).unwrap(),
    {
        reveal(misc_step);
        let ghost m = self@;
        if keys < self.previous_keystate {
            let diff = self.previous_keystate - keys;
            let mut i: u16 = 0;
            while i < 16 && !bit_set_exec(diff, i)
                invariant
                    i <= 16,
                    first_bit_from(diff, 0) == first_bit_from(diff, i as int),
                decreases 16 - i,
            {
                i = i + 1;
            }
            self.var_registers.set(x, i as u8);
            self.previous_keystate = 0;
        } else {
            self.previous_keystate = keys;
            self.program_counter = (self.program_counter + 4094) % 4096;
        }
        assert(self@ =~= misc_step(m, x as int, 0x0A, keys).unwrap());
    }

    /// Executes the `Fxnn` group common to both variants. Returns false,
    /// changing nothing, for an encoding outside the group.
    fn exec_misc(&mut self, x: usize, nn: u16, keys: u16) -> (matched: bool)
        requires
            old(self).wf(),
            x < 16,
        ensures
            final(self).wf(),
            matched == misc_step(old(self)@, x as int, nn as int, keys).is_some(),
            matched ==> final(self)@ == misc_step(old(self)@, x as int, nn as int, keys).unwrap(),
            !matched ==> final(self)@ == old(self)@,
    {
        reveal(misc_step);
        let ghost m = self@;
        let vx = self.var_registers[x];
        if nn == 0x07 {
            self.var_registers.set(x, self.delay_timer);
        } else if nn == 0x15 {
            self.delay_timer = vx;
        } else if nn == 0x18 {
            self.sound_timer = vx;
        } else if nn == 0x1E {
            self.index_register = ((self.index_register as u32 + vx as u32) % 65536) as u16;
        } else if nn == 0x0A {
            self.wait_key(x, keys);
            return true;
        } else if nn == 0x29 {
            self.index_register = (vx as u16 % 16) * 5 + 0x050;
        } else if nn == 0x33 {
            let base = self.index_register as usize;
            self.ram.set(base % 4096, vx / 100);
            self.ram.set((base + 1) % 4096, (vx / 10) % 10);
            self.ram.set((base + 2) % 4096, vx % 10);
        } else if nn == 0x55 {
            self.store_registers(x);
            return true;
        } else if nn == 0x65 {
            self.load_registers(x);
            return true;
        } else {
            return false;
        }
        assert(self@ =~= misc_step(m, x as int, nn as int, keys).unwrap());
        true
    }

    /// `Dxyn`: draws a sprite and sets `VF` from the collisions.
    fn exec_draw(&mut self, x: usize, y: usize, n: u16)
        requires
            old(self).wf(),
            x < 16,
            y < 16,
            n < 16,
        ensures
            final(self).wf(),
            final(self)@ == draw_step(old(self)@, x as int, y as int, n as int),
    {
        reveal(draw_step);
        let ghost m = self@;
        let w = self.system.display_width();
        let h = self.system.display_height();
        let scale: usize = if self.system == EmulationSystem::SuperChip && !self.high_res { 2 } else { 1 };
        let wide = self.high_res && n == 0;
        let b = Blit {
            width: w,
            height: h,
            scale,
            x0: self.var_registers[x] as usize % (w / scale),
            y0: self.var_registers[y] as usize % (h / scale),
            rows: if wide { 16 } else { n as usize },
            wide,
        };
        assert(b == draw_blit(m, x as int, y as int, n as int));
        let hits = blit(&mut self.display_buffer, &self.ram, self.index_register, b);
        let lh = h / scale;
        let drawn = if b.rows + b.y0 <= lh { b.rows } else { lh - b.y0 };
        let flag: u8 = if self.high_res {
            hits + (b.rows - drawn) as u8
        } else if hits > 0 {
            1
        } else {
            0
        };
        assert(flag == draw_flag(m, b));
        self.var_registers.set(15, flag);
        assert(self@.display =~= draw_step(m, x as int, y as int, n as int).display);
        assert(self@ =~= draw_step(m, x as int, y as int, n as int));
    }

    /// Executes an opcode that only the extended variant has; on the classic
    /// variant every such encoding is illegal.
    fn exec_extended(&mut self, ins: u16) -> (r: Result<bool, Error>)
        requires
            old(self).wf(),
        ensures
            final(self).wf(),
            (final(self)@, r) == extended_step(old(self)@, ins),
    {
        reveal(extended_step);
        let ghost m = self@;
        let x = ((ins / 256) % 16) as usize;
        let n = (ins % 16) as usize;
        let nn = ins % 256;
        let is_f = ins / 4096 == 0xF;
        let h = self.system.display_height();
        if self.system != EmulationSystem::SuperChip {
            return Err(Error::IllegalInstruction(ins));
        }
        if ins == 0x00FD {
            return Err(Error::ProgramExited);
        }
        let r = if ins == 0x00FE {
            self.high_res = false;
            Ok(false)
        } else if ins == 0x00FF {
            self.high_res = true;
            Ok(false)
        } else if ins == 0x00FB || ins == 0x00FC {
            let columns: usize = if self.high_res { 4 } else { 8 };
            let shifted = shift(&self.display_buffer, columns * h, ins == 0x00FB);
            self.display_buffer = shifted;
            Ok(true)
        } else if ins / 16 == 0x00C {
            let rows = if self.high_res { n } else { 2 * n };
            let scrolled = scroll_rows(&self.display_buffer, h, rows);
            self.display_buffer = scrolled;
            Ok(true)
        } else if is_f && nn == 0x30 {
            self.index_register = (self.var_registers[x] as u16 % 16) * 10 + 0x0A0;
            Ok(false)
        } else if is_f && nn == 0x75 {
            let mut i: usize = 0;
            while i <= x
                invariant
                    self.wf(),
                    x < 16,
                    i <= x + 1,
                    self@ == (MachineView {
                        flags: Seq::new(16, |r: int| if r < i { m.regs[r] } else { m.flags[r] }),
                        ..m
                    }),
                decreases x + 1 - i,
            {
                let v = self.var_registers[i];
                self.user_flags.set(i, v);
                i = i + 1;
                assert(self.user_flags@ =~= Seq::new(16, |r: int| if r < i { m.regs[r] } else { m.flags[r] }));
            }
            Ok(false)
        } else if is_f && nn == 0x85 {
            let mut i: usize = 0;
            while i <= x
                invariant
                    self.wf(),
                    x < 16,
                    i <= x + 1,
                    self@ == (MachineView {
                        regs: Seq::new(16, |r: int| if r < i { m.flags[r] } else { m.regs[r] }),
                        ..m
                    }),
                decreases x + 1 - i,
            {
                let v = self.user_flags[i];
                self.var_registers.set(i, v);
                i = i + 1;
                assert(self.var_registers@ =~= Seq::new(16, |r: int| if r < i { m.flags[r] } else { m.regs[r] }));
            }
            Ok(false)
        } else {
            return Err(Error::IllegalInstruction(ins));
        };
        assert(self@.regs =~= extended_step(m, ins).0.regs);
        assert(self@.flags =~= extended_step(m, ins).0.flags);
        assert(self@ =~= extended_step(m, ins).0);
        r
    }

    /// Executes one instruction: fetches the word at the program counter,
    /// advances the counter past it and applies the instruction, with
    /// `held_keys` as the keypad mask (bit i set while key i is held) and
    /// `random` as the byte that `Cxnn` uses. Returns whether the framebuffer
    /// changed, or why the program cannot go on.
    pub fn tick(&mut self, held_keys: u16, random: u8) -> (r: Result<bool, Error>)
        requires
            old(self).wf(),
        ensures
            final(self).wf(),
            (final(self)@, r) == step(old(self)@, held_keys, random),
    {
        let ghost m0 = self@;
        let pc = self.program_counter;
        let ins: u16 = self.ram[pc as usize] as u16 * 256 + self.ram[((pc + 1) % 4096) as usize] as u16;
        self.program_counter = (pc + 2) % 4096;
        let ghost m = self@;
        assert(m == (MachineView { pc: advance(m0.pc), ..m0 }));
        assert(ins == fetch(m0.ram, m0.pc));

        let op = ins / 4096;
        let x = ((ins / 256) % 16) as usize;
        let y = ((ins / 16) % 16) as usize;
        let n = ins % 16;
        let nn = ins % 256;
        let nnn = ins % 4096;
        let vx = self.var_registers[x];
        let vy = self.var_registers[y];

        if op == 0 && y == 0xE && n == 0 {
            let len = self.display_buffer.len();
            self.display_buffer = zeros(len, false);
            assert(self@ =~= execute(m, ins, held_keys, random).0);
            return Ok(true);
        }
        if op == 0 && y == 0xE && n == 0xE {
            match stack_pop(&mut self.stack) {
                Some(addr) => self.program_counter = addr,
                None => self.program_counter = PROGRAM_START,
            }
        } else if op == 1 {
            self.program_counter = nnn;
        } else if op == 2 {
            match stack_push(&mut self.stack, self.program_counter) {
                Ok(()) => self.program_counter = nnn,
                Err(_) => return Err(Error::StackOverflow),
            }
            proof {
                assert forall|i: int| 0 <= i < self@.stack.len() implies #[trigger] self@.stack[i] < 4096 by {
                    if i < m.stack.len() {
                        assert(self@.stack[i] == m.stack[i]);
                    }
                }
            }
        } else if op == 3 || op == 4 || op == 5 || op == 9 {
            let c = if op == 3 {
                vx as u16 == nn
            } else if op == 4 {
                vx as u16 != nn
            } else if op == 5 {
                vx == vy
            } else {
                vx != vy
            };
            if c {
                self.program_counter = (self.program_counter + 2) % 4096;
            }
        } else if op == 6 {
            self.var_registers.set(x, nn as u8);
        } else if op == 7 {
            self.var_registers.set(x, ((vx as u16 + nn) % 256) as u8);
        } else if op == 8 {
            if !self.exec_alu(x, y, n) {
                return self.exec_extended(ins);
            }
        } else if op == 0xA {
            self.index_register = nnn;
        } else if op == 0xB {
            let offset = if self.system.quirks().jump_uses_vx { vx } else { self.var_registers[0] };
            self.program_counter = (nnn + offset as u16) % 4096;
        } else if op == 0xC {
            self.var_registers.set(x, random & (nn as u8));
        } else if op == 0xD {
            self.exec_draw(x, y, n);
            return Ok(true);
        } else if op == 0xE && (nn == 0x9E || nn == 0xA1) {
            let held = bit_set_exec(held_keys, vx as u16 % 16);
            if held == (nn == 0x9E) {
                self.program_counter = (self.program_counter + 2) % 4096;
            }
        } else if op == 0xF {
            if !self.exec_misc(x, nn, held_keys) {
                return self.exec_extended(ins);
            }
        } else {
            return self.exec_extended(ins);
        }
        assert(self@.regs =~= execute(m, ins, held_keys, random).0.regs);
        assert(self@ =~= execute(m, ins, held_keys, random).0);
        Ok(false)
    }

    /// The emulated variant.
    pub fn system(&self) -> (r: EmulationSystem)
        ensures
            r == self@.system,
    {
        self.system
    }

    /// Width of the framebuffer in pixels.
    pub fn display_width(&self) -> (r: usize)
        ensures
            r == width_of(self@.system),
    {
        self.system.display_width()
    }

    /// Height of the framebuffer in pixels.
    pub fn display_height(&self) -> (r: usize)
        ensures
            r == height_of(self@.system),
    {
        self.system.display_height()
    }

    /// Whether the pixel at column `x`, row `y` is lit.
    pub fn pixel(&self, x: usize, y: usize) -> (r: bool)
        requires
            self.wf(),
            x < width_of(self@.system),
            y < height_of(self@.system),
        ensures
            r == self@.display[x * height_of(self@.system) + y],
    {
        let h = self.system.display_height();
        assert(x * h + y < width_of(self@.system) * h) by (nonlinear_arith)
            requires
                x + 1 <= width_of(self@.system),
                y < h,
        ;
        self.display_buffer[x * h + y]
    }

    /// The program counter.
    pub fn program_counter(&self) -> (r: u16)
        ensures
            r == self@.pc,
    {
        self.program_counter
    }

    /// The index register.
    pub fn index_register(&self) -> (r: u16)
        ensures
            r == self@.index,
    {
        self.index_register
    }

    /// General register `Vi`.
    pub fn register(&self, i: usize) -> (r: u8)
        requires
            self.wf(),
            i < 16,
        ensures
            r == self@.regs[i as int],
    {
        self.var_registers[i]
    }

    /// The byte at `address`.
    pub fn memory(&self, address: usize) -> (r: u8)
        requires
            self.wf(),
            address < MEMORY_SIZE,
        ensures
            r == self@.ram[address as int],
    {
        self.ram[address]
    }

    /// The pending return addresses, bottom first.
    pub fn stack(&self) -> (r: Vec<u16>)
        ensures
            r@ == self@.stack,
    {
        stack_to_vec(&self.stack)
    }

    /// The delay timer.
    pub fn delay_timer(&self) -> (r: u8)
        ensures
            r == self@.delay,
    {
        self.delay_timer
    }

    /// Whether the extended variant's high-resolution mode is on.
    pub fn high_res(&self) -> (r: bool)
        ensures
            r == self@.high_res,
    {
        self.high_res
    }
}

/// An address lies `i` bytes past `base`, modulo the address space, exactly
/// when it is `base + i` reduced into the address space.
pub proof fn lemma_offset(a: int, base: int, i: int)
    requires
        0 <= a < 4096,
        0 <= i < 4096,
        base >= 0,
    ensures
        ((a - base) % 4096 == i) == (a == (base + i) % 4096),
{
    lemma_fundamental_div_mod(a - base, 4096);
    lemma_fundamental_div_mod(base + i, 4096);
    let q1 = (a - base) / 4096;
    let q2 = (base + i) / 4096;
    if (a - base) % 4096 == i {
        lemma_fundamental_div_mod_converse(base + i, 4096, -q1, a);
    }
    if a == (base + i) % 4096 {
        lemma_fundamental_div_mod_converse(a - base, 4096, -q2, i);
    }
}

} // verus!
