use vstd::prelude::*;
use crate::display::Blit;
use vstd::arithmetic::div_mod::lemma_fundamental_div_mod;
use crate::error::Error;
use crate::machine::view_wf;
use crate::semantics::{
    MachineView, PROGRAM_START, advance, retreat, fetch, op_of, nn_of, nnn_of, x_of, y_of, n_of, extended_step, alu_step, misc_step,
    draw_blit, draw_step, step, offset_from,
};
use crate::variant::{EmulationSystem, quirks_of};

verus! {

/// Whether every return address on the stack is even.
pub open spec fn stack_even(m: MachineView) -> bool {
    forall|i: int| 0 <= i < m.stack.len() ==> #[trigger] m.stack[i] % 2 == 0
}

/// Whether the instruction at the program counter, if it is a jump or a call,
/// targets an even address.
pub open spec fn jumps_even(m: MachineView) -> bool {
    let ins = fetch(m.ram, m.pc);
    let offset = if quirks_of(m.system).jump_uses_vx { m.regs[x_of(ins)] } else { m.regs[0] };
    &&& (op_of(ins) == 1 || op_of(ins) == 2) ==> nnn_of(ins) % 2 == 0
    &&& op_of(ins) == 0xB ==> (nnn_of(ins) + offset) % 2 == 0
}

/// A step keeps the state well formed, so the program counter stays inside the
/// address space; and from an even program counter and even return addresses,
/// a step whose jump target is even keeps both even.
pub proof fn lemma_pc_stays_even(m: MachineView, keys: u16, rnd: u8)
    requires
        view_wf(m),
        m.pc % 2 == 0,
        stack_even(m),
        jumps_even(m),
    ensures
        step(m, keys, rnd).0.pc < 4096,
        step(m, keys, rnd).0.pc % 2 == 0,
        stack_even(step(m, keys, rnd).0),
{
    let ins = fetch(m.ram, m.pc);
    let ma = MachineView { pc: advance(m.pc), ..m };
    let s = step(m, keys, rnd).0;
    let op = op_of(ins);
    lemma_wrap_even(m.pc + 2);
    lemma_wrap_even(ma.pc + 2);
    lemma_wrap_even(ma.pc + 4094);
    assert(ma.pc % 2 == 0);
    assert(advance(ma.pc) % 2 == 0);
    assert(retreat(ma.pc) % 2 == 0);
    if m.stack.len() > 0 {
        assert(m.stack[m.stack.len() - 1] % 2 == 0);
    }
    if op == 0xB {
        let offset = if quirks_of(m.system).jump_uses_vx { m.regs[x_of(ins)] } else { m.regs[0] };
        lemma_wrap_even(nnn_of(ins) + offset);
    }
    if op == 0xD {
        lemma_draw_keeps_control(ma, x_of(ins), y_of(ins), n_of(ins));
    } else if op == 0xF {
        lemma_misc_keeps_control(ma, x_of(ins), nn_of(ins), keys);
        lemma_extended_keeps_control(ma, ins);
    } else if op == 8 || op == 0 || op == 0xE {
        lemma_extended_keeps_control(ma, ins);
    }
    assert(s.pc % 2 == 0);
    assert forall|i: int| 0 <= i < s.stack.len() implies #[trigger] s.stack[i] % 2 == 0 by {
        if i < m.stack.len() {
            assert(m.stack[i] % 2 == 0);
        }
    }
}

proof fn lemma_wrap_even(a: int)
    requires
        a >= 0,
        a % 2 == 0,
    ensures
        (a % 4096) % 2 == 0,
{
    lemma_fundamental_div_mod(a, 4096);
}

proof fn lemma_misc_keeps_control(m: MachineView, x: int, nn: int, keys: u16)
    requires
        m.pc < 4096,
        0 <= x < 16,
    ensures
        misc_step(m, x, nn, keys).is_some() ==> misc_step(m, x, nn, keys).unwrap().stack == m.stack
            && (misc_step(m, x, nn, keys).unwrap().pc == m.pc || misc_step(m, x, nn, keys).unwrap().pc
            == retreat(m.pc)),
{
    reveal(misc_step);
}

proof fn lemma_draw_keeps_control(m: MachineView, x: int, y: int, n: int)
    ensures
        draw_step(m, x, y, n).stack == m.stack,
        draw_step(m, x, y, n).pc == m.pc,
{
    reveal(draw_step);
}

proof fn lemma_extended_keeps_control(m: MachineView, ins: u16)
    ensures
        extended_step(m, ins).0.stack == m.stack,
        extended_step(m, ins).0.pc == m.pc,
{
    reveal(extended_step);
}

/// `00E0` blanks every pixel and reports the framebuffer as changed.
pub proof fn lemma_clear_screen(m: MachineView, keys: u16, rnd: u8)
    requires
        view_wf(m),
        fetch(m.ram, m.pc) == 0x00E0,
    ensures
        step(m, keys, rnd).1 == Ok::<bool, Error>(true),
        step(m, keys, rnd).0.display.len() == m.display.len(),
        forall|k: int| 0 <= k < m.display.len() ==> !#[trigger] step(m, keys, rnd).0.display[k],
{
}

/// `00EE` on an empty stack resumes at the program start and does not fail.
pub proof fn lemma_return_on_empty_stack(m: MachineView, keys: u16, rnd: u8)
    requires
        view_wf(m),
        fetch(m.ram, m.pc) == 0x00EE,
        m.stack.len() == 0,
    ensures
        step(m, keys, rnd).1 == Ok::<bool, Error>(false),
        step(m, keys, rnd).0.pc == PROGRAM_START,
{
}

/// `2nnn` pushes the address after it and jumps while fewer than 16 returns
/// are pending; with 16 pending it fails with `StackOverflow`, the stack intact.
pub proof fn lemma_call_depth(m: MachineView, keys: u16, rnd: u8)
    requires
        view_wf(m),
        op_of(fetch(m.ram, m.pc)) == 2,
    ensures
        m.stack.len() < 16 ==> step(m, keys, rnd).1 == Ok::<bool, Error>(false)
            && step(m, keys, rnd).0.stack == m.stack.push(advance(m.pc))
            && step(m, keys, rnd).0.pc == nnn_of(fetch(m.ram, m.pc)),
        m.stack.len() >= 16 ==> step(m, keys, rnd).1 == Err::<bool, Error>(Error::StackOverflow)
            && step(m, keys, rnd).0.stack == m.stack,
{
}

/// `8xy5` subtracts with borrow identically on both variants.
pub proof fn lemma_sub_same_on_both_variants(regs: Seq<u8>, x: int, y: int)
    requires
        regs.len() == 16,
        0 <= x < 16,
        0 <= y < 16,
    ensures
        alu_step(EmulationSystem::Chip8, regs, x, y, 5) == alu_step(
            EmulationSystem::SuperChip,
            regs,
            x,
            y,
            5,
        ),
        alu_step(EmulationSystem::Chip8, regs, x, y, 5).unwrap()[15] == (if regs[x] >= regs[y] {
            1u8
        } else {
            0u8
        }),
{
    reveal(alu_step);
}

/// `8xy1` clears `VF` on the classic variant whatever it held, and leaves it
/// as it was on the extended variant (unless `VF` is the destination).
pub proof fn lemma_or_flag(regs: Seq<u8>, x: int, y: int)
    requires
        regs.len() == 16,
        0 <= x < 16,
        0 <= y < 16,
    ensures
        alu_step(EmulationSystem::Chip8, regs, x, y, 1).unwrap()[15] == 0,
        x != 15 ==> alu_step(EmulationSystem::SuperChip, regs, x, y, 1).unwrap()[15] == regs[15],
{
    reveal(alu_step);
}

proof fn lemma_hit_count_positive(b: Blit, ram: Seq<u8>, index: u16, before: Seq<bool>, r: int, hit: int)
    requires
        0 <= hit < r,
        b.row_hit(ram, index, before, hit),
    ensures
        b.hit_count(ram, index, before, r) > 0,
    decreases r,
{
    if hit < r - 1 {
        lemma_hit_count_positive(b, ram, index, before, r - 1, hit);
        lemma_hit_count_nonneg(b, ram, index, before, r - 1);
    } else {
        lemma_hit_count_nonneg(b, ram, index, before, r - 1);
    }
}

proof fn lemma_hit_count_nonneg(b: Blit, ram: Seq<u8>, index: u16, before: Seq<bool>, r: int)
    ensures
        b.hit_count(ram, index, before, r) >= 0,
    decreases r,
{
    if r > 0 {
        lemma_hit_count_nonneg(b, ram, index, before, r - 1);
    }
}

/// Drawing the same sprite twice at the same place restores every pixel. In
/// low resolution the second draw sets `VF` to 1 when the first lit any pixel.
pub proof fn lemma_draw_twice(m: MachineView, x: int, y: int, n: int)
    requires
        view_wf(m),
        0 <= x < 15,
        0 <= y < 15,
        0 <= n < 16,
    ensures
        draw_step(draw_step(m, x, y, n), x, y, n).display == m.display,
        !m.high_res && (exists|k: int|
            0 <= k < m.display.len() && draw_blit(m, x, y, n).covers(m.ram, m.index, k)
                && !#[trigger] m.display[k]) ==> draw_step(draw_step(m, x, y, n), x, y, n).regs[15]
            == 1,
{
    reveal(draw_step);
    let m1 = draw_step(m, x, y, n);
    let b = draw_blit(m, x, y, n);
    assert(draw_blit(m1, x, y, n) == b);
    assert(draw_step(m1, x, y, n).display =~= m.display);
    if !m.high_res && (exists|k: int|
        0 <= k < m.display.len() && b.covers(m.ram, m.index, k) && !#[trigger] m.display[k]) {
        let k = choose|k: int|
            0 <= k < m.display.len() && b.covers(m.ram, m.index, k) && !#[trigger] m.display[k];
        assert(m1.display[k]);
        assert(b.row_hit(m1.ram, m1.index, m1.display, b.dy(k)));
        lemma_hit_count_positive(b, m1.ram, m1.index, m1.display, b.drawn_rows(), b.dy(k));
    }
}

/// Storing `V0..=Vx` with `Fx55` and loading them back with `Fx65` from the
/// same base address gives back the original registers.
pub proof fn lemma_store_load_round_trip(m: MachineView, x: int, keys: u16)
    requires
        view_wf(m),
        0 <= x < 16,
    ensures
        misc_step(
            MachineView { index: m.index, ..misc_step(m, x, 0x55, keys).unwrap() },
            x,
            0x65,
            keys,
        ).unwrap().regs == m.regs,
{
    reveal(misc_step);
    let m1 = MachineView { index: m.index, ..misc_step(m, x, 0x55, keys).unwrap() };
    let m2 = misc_step(m1, x, 0x65, keys).unwrap();
    assert forall|r: int| 0 <= r < 16 implies #[trigger] m2.regs[r] == m.regs[r] by {
        if r <= x {
            let a = (m.index + r) % 4096;
            crate::machine::lemma_offset(a, m.index as int, r);
            assert(offset_from(a, m.index as int) == r);
        }
    }
    assert(m2.regs =~= m.regs);
}

} // verus!
