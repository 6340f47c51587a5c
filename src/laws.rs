//! Properties of the machine that relate several operations or hold of every
//! state, proved over the model.
use vstd::prelude::*;
use crate::model::{
    after_reset, blank_screen, collides, drawn, execute_instr, first_pressed, font,
    initial_state, instr_of, is_skip, loaded_program, readable, skip_taken, sprite_hits, step,
    writable, Instr, MachineState, FONT_SIZE, NUM_KEYS, NUM_REGS, START_ADDR,
};

verus! {

/// Resetting twice leaves the machine exactly as resetting once does, and the
/// state reached is well formed.
pub proof fn lemma_reset_idempotent(s: MachineState)
    ensures
        after_reset(after_reset(s)) == after_reset(s),
        after_reset(s).wf(),
{
}

/// After initialisation the font table occupies exactly addresses 0 to 79, and
/// the rest of memory is zero.
pub proof fn lemma_font_in_place()
    ensures
        initial_state().ram.subrange(0, FONT_SIZE as int) == font(),
        forall|a: int| FONT_SIZE <= a < initial_state().ram.len() ==> initial_state().ram[a] == 0,
{
    assert(initial_state().ram.subrange(0, FONT_SIZE as int) =~= font());
}

/// Loading a program leaves every byte below the start address, the font
/// table among them, as it was.
pub proof fn lemma_load_keeps_font(s: MachineState, prog: Seq<u8>)
    requires
        s.wf(),
    ensures
        loaded_program(s.ram, prog).subrange(0, START_ADDR as int) == s.ram.subrange(
            0,
            START_ADDR as int,
        ),
{
    assert(loaded_program(s.ram, prog).subrange(0, START_ADDR as int) =~= s.ram.subrange(
        0,
        START_ADDR as int,
    ));
}

/// No instruction writes below the start address: a cycle that succeeds leaves
/// the font table and the rest of low memory as they were.
pub proof fn lemma_step_keeps_low_memory(s: MachineState)
    requires
        s.wf(),
        step(s) is Ok,
    ensures
        step(s)->Ok_0.ram.subrange(0, START_ADDR as int) == s.ram.subrange(0, START_ADDR as int),
{
    assert(step(s)->Ok_0.ram.subrange(0, START_ADDR as int) =~= s.ram.subrange(
        0,
        START_ADDR as int,
    ));
}

/// Every cycle that succeeds keeps the state well formed.
pub proof fn lemma_step_wf(s: MachineState)
    requires
        s.wf(),
        step(s) is Ok,
    ensures
        step(s)->Ok_0.wf(),
{
}

/// `7xnn` adds modulo 256 and leaves VF alone unless VF is the target.
pub proof fn lemma_add_imm_wraps(s: MachineState, x: u8, nn: u8)
    requires
        s.wf(),
        x < NUM_REGS,
    ensures
        execute_instr(s, Instr::AddImm(x, nn)) is Ok,
        execute_instr(s, Instr::AddImm(x, nn))->Ok_0.v[x as int] == (s.v[x as int] + nn) % 256,
        x != 0xF ==> execute_instr(s, Instr::AddImm(x, nn))->Ok_0.v[0xF] == s.v[0xF],
{
}

/// `8xy4` sets VF to 1 exactly when the true sum reaches 256, and stores the
/// sum modulo 256 (unless VF is the target, which the flag overwrites).
pub proof fn lemma_add_reg_carry(s: MachineState, x: u8, y: u8)
    requires
        s.wf(),
        x < NUM_REGS,
        y < NUM_REGS,
    ensures
        execute_instr(s, Instr::AddReg(x, y)) is Ok,
        execute_instr(s, Instr::AddReg(x, y))->Ok_0.v[0xF] == 1 <==> s.v[x as int] + s.v[y as int]
            >= 256,
        execute_instr(s, Instr::AddReg(x, y))->Ok_0.v[0xF] == 0 <==> s.v[x as int] + s.v[y as int]
            < 256,
        x != 0xF ==> execute_instr(s, Instr::AddReg(x, y))->Ok_0.v[x as int] == (s.v[x as int]
            + s.v[y as int]) % 256,
{
}

/// `8xy5` sets VF to 0 exactly when `Vx < Vy` (a borrow), and the stored
/// difference is the true one plus 256 in that case.
pub proof fn lemma_sub_borrow(s: MachineState, x: u8, y: u8)
    requires
        s.wf(),
        x < NUM_REGS,
        y < NUM_REGS,
    ensures
        execute_instr(s, Instr::SubReg(x, y)) is Ok,
        execute_instr(s, Instr::SubReg(x, y))->Ok_0.v[0xF] == 0 <==> s.v[x as int] < s.v[y as int],
        execute_instr(s, Instr::SubReg(x, y))->Ok_0.v[0xF] == 1 <==> s.v[x as int] >= s.v[y as int],
        x != 0xF ==> execute_instr(s, Instr::SubReg(x, y))->Ok_0.v[x as int] == s.v[x as int]
            - s.v[y as int] + (if s.v[x as int] < s.v[y as int] { 256int } else { 0 }),
{
}

/// `8xy7` sets VF to 0 exactly when `Vy < Vx` (a borrow), and the stored
/// difference `Vy - Vx` is the true one plus 256 in that case.
pub proof fn lemma_sub_rev_borrow(s: MachineState, x: u8, y: u8)
    requires
        s.wf(),
        x < NUM_REGS,
        y < NUM_REGS,
    ensures
        execute_instr(s, Instr::SubRev(x, y)) is Ok,
        execute_instr(s, Instr::SubRev(x, y))->Ok_0.v[0xF] == 0 <==> s.v[y as int] < s.v[x as int],
        execute_instr(s, Instr::SubRev(x, y))->Ok_0.v[0xF] == 1 <==> s.v[y as int] >= s.v[x as int],
        x != 0xF ==> execute_instr(s, Instr::SubRev(x, y))->Ok_0.v[x as int] == s.v[y as int]
            - s.v[x as int] + (if s.v[y as int] < s.v[x as int] { 256int } else { 0 }),
{
}

/// A cycle that runs a conditional skip moves the PC on by 4 when the
/// condition holds and by 2 when it does not; it fails only on a key skip
/// whose key index is out of range.
pub proof fn lemma_skip_advance(s: MachineState, ins: Instr)
    requires
        s.wf(),
        s.can_fetch(),
        instr_of(s.opcode()) == Some(ins),
        is_skip(ins),
    ensures
        step(s) is Ok ==> step(s)->Ok_0.pc == s.pc + (if skip_taken(s, ins) { 4int } else { 2 }),
        step(s) is Err <==> match ins {
            Instr::SkipKey(x) | Instr::SkipNoKey(x) => s.v[x as int] >= NUM_KEYS,
            _ => false,
        },
{
    assert(skip_taken(s.with_pc(s.pc + 2), ins) == skip_taken(s, ins));
}

/// The state with every register cleared to zero.
pub open spec fn zeroed_regs(s: MachineState) -> MachineState {
    MachineState { v: Seq::new(NUM_REGS as nat, |r: int| 0u8), ..s }
}

/// Storing `V0..=Vx` at `I` and loading the same range back into a zeroed
/// register file with the same `I` gives back the original registers.
pub proof fn lemma_store_load_round_trip(s: MachineState, x: u8)
    requires
        s.wf(),
        x < NUM_REGS,
        writable(s.i as int, x + 1),
    ensures
        execute_instr(s, Instr::StoreRegs(x)) is Ok,
        execute_instr(
            zeroed_regs(execute_instr(s, Instr::StoreRegs(x))->Ok_0),
            Instr::LoadRegs(x),
        ) is Ok,
        forall|r: int|
            0 <= r <= x ==> (#[trigger] execute_instr(
                zeroed_regs(execute_instr(s, Instr::StoreRegs(x))->Ok_0),
                Instr::LoadRegs(x),
            )->Ok_0.v[r]) == s.v[r],
{
}

/// Drawing a sprite that lights at least one pixel on a blank screen reports
/// no collision; drawing it again at the same place reports one and blanks the
/// screen again.
pub proof fn lemma_redraw_collides(s: MachineState, x: u8, y: u8, n: u8)
    requires
        s.wf(),
        x < 0xF,
        y < 0xF,
        n < 16,
        readable(s.i as int, n as int),
        s.screen == blank_screen(),
        exists|p: int|
            0 <= p < s.screen.len() && #[trigger] sprite_hits(
                s.ram,
                s.i as int,
                s.v[x as int] as int,
                s.v[y as int] as int,
                8 * n,
                p,
            ),
    ensures
        execute_instr(s, Instr::Draw(x, y, n)) is Ok,
        execute_instr(s, Instr::Draw(x, y, n))->Ok_0.v[0xF] == 0,
        execute_instr(execute_instr(s, Instr::Draw(x, y, n))->Ok_0, Instr::Draw(x, y, n)) is Ok,
        execute_instr(execute_instr(s, Instr::Draw(x, y, n))->Ok_0, Instr::Draw(x, y, n))->Ok_0.v[0xF]
            == 1,
        execute_instr(execute_instr(s, Instr::Draw(x, y, n))->Ok_0, Instr::Draw(x, y, n))->Ok_0.screen
            == s.screen,
{
    let (i, vx, vy, k) = (s.i as int, s.v[x as int] as int, s.v[y as int] as int, 8 * n);
    let t = execute_instr(s, Instr::Draw(x, y, n))->Ok_0;
    assert(t.ram == s.ram && t.i == s.i);
    assert(t.v[x as int] == s.v[x as int] && t.v[y as int] == s.v[y as int]);
    assert(!collides(s.screen, s.ram, i, vx, vy, n as int));
    let p = choose|p: int| 0 <= p < s.screen.len() && sprite_hits(s.ram, i, vx, vy, k, p);
    assert(t.screen[p]);
    assert(collides(t.screen, s.ram, i, vx, vy, n as int));
    assert(drawn(t.screen, s.ram, i, vx, vy, n as int) =~= s.screen);
}

/// No key pressed means no key found.
proof fn lemma_none_pressed(keys: Seq<bool>, k: int)
    requires
        forall|j: int| k <= j < NUM_KEYS ==> !keys[j],
    ensures
        first_pressed(keys, k) is None,
    decreases NUM_KEYS - k,
{
    if k < NUM_KEYS {
        lemma_none_pressed(keys, k + 1);
    }
}

/// With no key pressed, a cycle on `Fx0A` changes nothing: the PC moves past
/// the instruction and back, so the next cycle fetches it again.
pub proof fn lemma_wait_key_stalls(s: MachineState, x: u8)
    requires
        s.wf(),
        s.can_fetch(),
        instr_of(s.opcode()) == Some(Instr::WaitKey(x)),
        forall|k: int| 0 <= k < NUM_KEYS ==> !s.keys[k],
    ensures
        step(s) == Ok::<MachineState, crate::model::Fault>(s),
{
    lemma_none_pressed(s.keys, 0);
}

/// A call followed, at the called address, by a return resumes at the
/// instruction right after the call, with the stack as it was.
pub proof fn lemma_call_return(s: MachineState, nnn: u16)
    requires
        s.wf(),
        s.can_fetch(),
        instr_of(s.opcode()) == Some(Instr::Call(nnn)),
        s.sp < 16,
    ensures
        step(s) is Ok,
        step(s)->Ok_0.pc == nnn,
        step(s)->Ok_0.can_fetch() && instr_of(step(s)->Ok_0.opcode()) == Some(Instr::Return) ==> {
            &&& step(step(s)->Ok_0) is Ok
            &&& step(step(s)->Ok_0)->Ok_0.pc == s.pc + 2
            &&& step(step(s)->Ok_0)->Ok_0.sp == s.sp
        },
{
}

} // verus!
