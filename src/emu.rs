//! The executable machine.
use vstd::prelude::*;
use vstd::arithmetic::div_mod::{lemma_fundamental_div_mod, lemma_fundamental_div_mod_converse};
use crate::model::{
    font, initial_state, after_reset, timers_ticked, loaded_program, program_fits, outcome_is,
    instr_of, execute_instr, step, alu, is_alu, blank_screen, first_pressed, sprite_col,
    sprite_row, sprite_hits, sprite_bit, stored_regs, loaded_regs, Fault, Instr, MachineState,
    FONT_SIZE, INITIAL_SEED, NUM_KEYS, NUM_REGS, RAM_SIZE, SCREEN_HEIGHT, SCREEN_SIZE,
    SCREEN_WIDTH, STACK_SIZE, START_ADDR,
};

verus! {

/// A CHIP-8 machine: it owns all of its state.
///
/// Several instructions (`8xy4` to `8xyE`, `Dxyn`) overwrite VF with a flag,
/// whatever value it held before.
pub struct Emu {
    pc: u16,
    ram: [u8; RAM_SIZE],
    screen: [bool; SCREEN_SIZE],
    v_reg: [u8; NUM_REGS],
    i_reg: u16,
    sp: u16,
    stack: [u16; STACK_SIZE],
    dt: u8,
    st: u8,
    keys: [bool; NUM_KEYS],
    seed: u32,
}

impl View for Emu {
    type V = MachineState;

    closed spec fn view(&self) -> MachineState {
        MachineState {
            pc: self.pc,
            ram: self.ram@,
            screen: self.screen@,
            v: self.v_reg@,
            i: self.i_reg,
            sp: self.sp,
            stack: self.stack@,
            dt: self.dt,
            st: self.st,
            keys: self.keys@,
            seed: self.seed,
        }
    }
}

/// The glyphs of the sixteen hexadecimal digits.
fn font_table() -> (r: [u8; FONT_SIZE])
    ensures
        r@ == font(),
{
    let t: [u8; FONT_SIZE] = [
        0xF0, 0x90, 0x90, 0x90, 0xF0,
        0x20, 0x60, 0x20, 0x20, 0x70,
        0xF0, 0x10, 0xF0, 0x80, 0xF0,
        0xF0, 0x10, 0xF0, 0x10, 0xF0,
        0x90, 0x90, 0xF0, 0x10, 0x10,
        0xF0, 0x80, 0xF0, 0x10, 0xF0,
        0xF0, 0x80, 0xF0, 0x90, 0xF0,
        0xF0, 0x10, 0x20, 0x40, 0x40,
        0xF0, 0x90, 0xF0, 0x90, 0xF0,
        0xF0, 0x90, 0xF0, 0x10, 0xF0,
        0xF0, 0x90, 0xF0, 0x90, 0x90,
        0xE0, 0x90, 0xE0, 0x90, 0xE0,
        0xF0, 0x80, 0x80, 0x80, 0xF0,
        0xE0, 0x90, 0x90, 0x90, 0xE0,
        0xF0, 0x80, 0xF0, 0x80, 0xF0,
        0xF0, 0x80, 0xF0, 0x80, 0x80,
    ];
    assert(t@ =~= font());
    t
}

/// Splits an opcode into its four nibbles and names the instruction they form,
/// or gives `None` when they form none.
pub fn decode(op: u16) -> (r: Option<Instr>)
    ensures
        r == instr_of(op),
        r matches Some(ins) ==> ins.wf(),
{
    let d1 = op / 0x1000;
    let x = ((op / 0x100) % 0x10) as u8;
    let y = ((op / 0x10) % 0x10) as u8;
    let n = (op % 0x10) as u8;
    let nn = (op % 0x100) as u8;
    let nnn = op % 0x1000;
    match d1 {
        0 => {
            if op == 0 {
                Some(Instr::Nop)
            } else if op == 0x00E0 {
                Some(Instr::Clear)
            } else if op == 0x00EE {
                Some(Instr::Return)
            } else {
                None
            }
        },
        1 => Some(Instr::Jump(nnn)),
        2 => Some(Instr::Call(nnn)),
        3 => Some(Instr::SkipEqImm(x, nn)),
        4 => Some(Instr::SkipNeImm(x, nn)),
        5 => if n == 0 { Some(Instr::SkipEqReg(x, y)) } else { None },
        6 => Some(Instr::SetImm(x, nn)),
        7 => Some(Instr::AddImm(x, nn)),
        8 => match n {
            0 => Some(Instr::Move(x, y)),
            1 => Some(Instr::Or(x, y)),
            2 => Some(Instr::And(x, y)),
            3 => Some(Instr::Xor(x, y)),
            4 => Some(Instr::AddReg(x, y)),
            5 => Some(Instr::SubReg(x, y)),
            6 => Some(Instr::ShiftRight(x)),
            7 => Some(Instr::SubRev(x, y)),
            0xE => Some(Instr::ShiftLeft(x)),
            _ => None,
        },
        9 => if n == 0 { Some(Instr::SkipNeReg(x, y)) } else { None },
        0xA => Some(Instr::SetIndex(nnn)),
        0xB => Some(Instr::JumpOffset(nnn)),
        0xC => Some(Instr::Random(x, nn)),
        0xD => Some(Instr::Draw(x, y, n)),
        0xE => match nn {
            0x9E => Some(Instr::SkipKey(x)),
            0xA1 => Some(Instr::SkipNoKey(x)),
            _ => None,
        },
        _ => match nn {
            0x07 => Some(Instr::GetDelay(x)),
            0x0A => Some(Instr::WaitKey(x)),
            0x15 => Some(Instr::SetDelay(x)),
            0x18 => Some(Instr::SetSound(x)),
            0x1E => Some(Instr::AddIndex(x)),
            0x29 => Some(Instr::FontChar(x)),
            0x33 => Some(Instr::Bcd(x)),
            0x55 => Some(Instr::StoreRegs(x)),
            0x65 => Some(Instr::LoadRegs(x)),
            _ => None,
        },
    }
}

/// The lowest index of a pressed key, scanning upwards from 0.
fn first_key(keys: &[bool; NUM_KEYS]) -> (r: Option<usize>)
    ensures
        match first_pressed(keys@, 0) {
            Some(k) => r == Some(k as usize) && 0 <= k < NUM_KEYS,
            None => r is None,
        },
{
    let mut k: usize = 0;
    while k < NUM_KEYS
        invariant
            k <= NUM_KEYS,
            first_pressed(keys@, 0) == first_pressed(keys@, k as int),
        decreases NUM_KEYS - k,
    {
        if keys[k] {
            return Some(k);
        }
        k = k + 1;
    }
    None
}

/// Pixel `p` is the destination of sprite bit `(row, col)` drawn at `(vx, vy)`
/// exactly when `(row, col)` is the sprite position of `p`.
proof fn lemma_sprite_pixel(vx: int, vy: int, row: int, col: int, p: int)
    requires
        0 <= vx,
        0 <= vy,
        0 <= row < SCREEN_HEIGHT,
        0 <= col < SCREEN_WIDTH,
        0 <= p < SCREEN_SIZE,
    ensures
        (p == ((vy + row) % 32) * 64 + (vx + col) % 64) <==> (sprite_col(vx, p) == col
            && sprite_row(vy, p) == row),
        0 <= sprite_col(vx, p) < 64,
        0 <= sprite_row(vy, p) < 32,
{
    let px = p % 64;
    let py = p / 64;
    lemma_fundamental_div_mod(p, 64);
    lemma_fundamental_div_mod(vx + col, 64);
    lemma_fundamental_div_mod(vy + row, 32);
    lemma_fundamental_div_mod(px - vx, 64);
    lemma_fundamental_div_mod(py - vy, 32);
    let tx = (vx + col) % 64;
    let ty = (vy + row) % 32;
    if px == tx {
        lemma_fundamental_div_mod_converse(px - vx, 64, -((vx + col) / 64), col);
    }
    if sprite_col(vx, p) == col {
        lemma_fundamental_div_mod_converse(vx + col, 64, -((px - vx) / 64), px);
    }
    if py == ty {
        lemma_fundamental_div_mod_converse(py - vy, 32, -((vy + row) / 32), row);
    }
    if sprite_row(vy, p) == row {
        lemma_fundamental_div_mod_converse(vy + row, 32, -((py - vy) / 32), py);
    }
    if p == ty * 64 + tx {
        lemma_fundamental_div_mod_converse(p, 64, ty, tx);
    }
}

impl Emu {
    /// A machine in its initial state: everything zero, the font table at
    /// addresses 0 to 79, the PC at the start address.
    pub fn new() -> (r: Emu)
        ensures
            r@ == initial_state(),
            r@.wf(),
    {
        let glyphs = font_table();
        let mut ram = [0u8; RAM_SIZE];
        let mut k: usize = 0;
        while k < FONT_SIZE
            invariant
                k <= FONT_SIZE,
                glyphs@ == font(),
                forall|a: int| 0 <= a < k ==> ram@[a] == font()[a],
                forall|a: int| k <= a < RAM_SIZE ==> ram@[a] == 0u8,
            decreases FONT_SIZE - k,
        {
            ram[k] = glyphs[k];
            k = k + 1;
        }
        let e = Emu {
            pc: START_ADDR,
            ram,
            screen: [false; SCREEN_SIZE],
            v_reg: [0u8; NUM_REGS],
            i_reg: 0,
            sp: 0,
            stack: [0u16; STACK_SIZE],
            dt: 0,
            st: 0,
            keys: [false; NUM_KEYS],
            seed: INITIAL_SEED,
        };
        assert(e@.ram =~= initial_state().ram);
        assert(e@.screen =~= initial_state().screen);
        assert(e@.v =~= initial_state().v);
        assert(e@.stack =~= initial_state().stack);
        assert(e@.keys =~= initial_state().keys);
        e
    }

    /// Puts the machine back in its initial state, whatever state it was in.
    pub fn reset(&mut self)
        ensures
            final(self)@ == after_reset(old(self)@),
            final(self)@.wf(),
    {
        *self = Emu::new();
    }

    /// Decrements each nonzero timer by one. A sound timer that goes from 1 to
    /// 0 is the caller's signal to end the tone.
    pub fn tick_timers(&mut self)
        requires
            old(self)@.wf(),
        ensures
            final(self)@.wf(),
            final(self)@ == timers_ticked(old(self)@),
    {
        if self.dt > 0 {
            self.dt = self.dt - 1;
        }
        if self.st > 0 {
            self.st = self.st - 1;
        }
    }

    /// Copies a program image to memory from the start address on; an image
    /// longer than the space above that address is refused.
    pub fn load(&mut self, program: &[u8]) -> (r: Result<(), Fault>)
        requires
            old(self)@.wf(),
        ensures
            final(self)@.wf(),
            outcome_is(
                old(self)@,
                final(self)@,
                r,
                if program_fits(program@.len() as int) {
                    Ok(MachineState { ram: loaded_program(old(self)@.ram, program@), ..old(self)@ })
                } else {
                    Err(Fault::ProgramTooLarge(program@.len() as usize))
                },
            ),
    {
        if program.len() > RAM_SIZE - START_ADDR as usize {
            return Err(Fault::ProgramTooLarge(program.len()));
        }
        let mut ram = self.ram;
        let base = START_ADDR as usize;
        let mut k: usize = 0;
        while k < program.len()
            invariant
                base == START_ADDR,
                program_fits(program@.len() as int),
                k <= program@.len(),
                forall|a: int|
                    0 <= a < RAM_SIZE ==> ram@[a] == (if base <= a < base + k {
                        program@[a - base]
                    } else {
                        self.ram@[a]
                    }),
            decreases program.len() - k,
        {
            ram[base + k] = program[k];
            k = k + 1;
        }
        assert(ram@ =~= loaded_program(self.ram@, program@));
        self.ram = ram;
        Ok(())
    }

    /// Marks key `index` pressed or released; an index of 16 or more is refused.
    pub fn set_key(&mut self, index: usize, pressed: bool) -> (r: Result<(), Fault>)
        requires
            old(self)@.wf(),
        ensures
            final(self)@.wf(),
            outcome_is(
                old(self)@,
                final(self)@,
                r,
                if index < NUM_KEYS {
                    Ok(MachineState { keys: old(self)@.keys.update(index as int, pressed), ..old(self)@ })
                } else {
                    Err(Fault::BadKey(index))
                },
            ),
    {
        if index >= NUM_KEYS {
            return Err(Fault::BadKey(index));
        }
        self.keys[index] = pressed;
        Ok(())
    }

    /// The framebuffer, row-major: pixel `(x, y)` is at `y * 64 + x`.
    pub fn display(&self) -> (r: &[bool; SCREEN_SIZE])
        ensures
            r@ == self@.screen,
    {
        &self.screen
    }

    /// Whether pixel `(x, y)` is lit.
    pub fn pixel(&self, x: usize, y: usize) -> (r: bool)
        requires
            x < SCREEN_WIDTH,
            y < SCREEN_HEIGHT,
        ensures
            r == self@.screen[y * SCREEN_WIDTH + x],
    {
        self.screen[y * SCREEN_WIDTH + x]
    }

    pub fn pc(&self) -> (r: u16)
        ensures
            r == self@.pc,
    {
        self.pc
    }

    /// Register `Vx`.
    pub fn register(&self, x: usize) -> (r: u8)
        requires
            x < NUM_REGS,
        ensures
            r == self@.v[x as int],
    {
        self.v_reg[x]
    }

    /// The index register `I`.
    pub fn index(&self) -> (r: u16)
        ensures
            r == self@.i,
    {
        self.i_reg
    }

    /// The byte at `addr`.
    pub fn memory(&self, addr: usize) -> (r: u8)
        requires
            addr < RAM_SIZE,
        ensures
            r == self@.ram[addr as int],
    {
        self.ram[addr]
    }

    /// The number of return addresses on the call stack.
    pub fn stack_depth(&self) -> (r: u16)
        ensures
            r == self@.sp,
    {
        self.sp
    }

    pub fn delay_timer(&self) -> (r: u8)
        ensures
            r == self@.dt,
    {
        self.dt
    }

    pub fn sound_timer(&self) -> (r: u8)
        ensures
            r == self@.st,
    {
        self.st
    }

    /// Whether key `index` is marked pressed.
    pub fn key(&self, index: usize) -> (r: bool)
        requires
            index < NUM_KEYS,
        ensures
            r == self@.keys[index as int],
    {
        self.keys[index]
    }

    /// Reads the big-endian opcode at the PC and moves the PC past it.
    fn fetch(&mut self) -> (r: Result<u16, Fault>)
        ensures
            old(self)@.can_fetch() ==> r == Ok::<u16, Fault>(old(self)@.opcode()) && final(self)@
                == old(self)@.with_pc(old(self)@.pc + 2),
            !old(self)@.can_fetch() ==> r == Err::<u16, Fault>(Fault::BadAddress(old(self)@.pc))
                && final(self)@ == old(self)@,
    {
        if self.pc as usize + 1 >= RAM_SIZE {
            return Err(Fault::BadAddress(self.pc));
        }
        let hi = self.ram[self.pc as usize] as u16;
        let lo = self.ram[self.pc as usize + 1] as u16;
        let op = hi * 0x100 + lo;
        self.pc = self.pc + 2;
        Ok(op)
    }

    fn push(&mut self, val: u16)
        requires
            old(self).sp < STACK_SIZE,
        ensures
            final(self)@ == (MachineState {
                stack: old(self)@.stack.update(old(self).sp as int, val),
                sp: (old(self).sp + 1) as u16,
                ..old(self)@
            }),
    {
        self.stack[self.sp as usize] = val;
        self.sp = self.sp + 1;
    }

    fn pop(&mut self) -> (r: u16)
        requires
            0 < old(self).sp <= STACK_SIZE,
        ensures
            r == old(self)@.stack[old(self).sp - 1],
            final(self)@ == (MachineState { sp: (old(self).sp - 1) as u16, ..old(self)@ }),
    {
        self.sp = self.sp - 1;
        self.stack[self.sp as usize]
    }

    /// Runs one fetch-decode-execute cycle. On a fault nothing changes and the
    /// fault names the opcode or the address at issue.
    pub fn tick(&mut self) -> (r: Result<(), Fault>)
        requires
            old(self)@.wf(),
        ensures
            final(self)@.wf(),
            outcome_is(old(self)@, final(self)@, r, step(old(self)@)),
    {
        let op = match self.fetch() {
            Ok(op) => op,
            Err(e) => return Err(e),
        };
        let r = self.execute(op);
        if r.is_err() {
            self.pc = self.pc - 2;
        }
        r
    }

    fn execute(&mut self, op: u16) -> (r: Result<(), Fault>)
        requires
            old(self)@.wf(),
            2 <= old(self).pc <= RAM_SIZE,
        ensures
            final(self)@.wf(),
            outcome_is(
                old(self)@,
                final(self)@,
                r,
                match instr_of(op) {
                    None => Err(Fault::UnknownOpcode(op)),
                    Some(ins) => execute_instr(old(self)@, ins),
                },
            ),
    {
        match decode(op) {
            None => Err(Fault::UnknownOpcode(op)),
            Some(ins) => self.run(ins),
        }
    }

    fn run(&mut self, ins: Instr) -> (r: Result<(), Fault>)
        requires
            old(self)@.wf(),
            ins.wf(),
            2 <= old(self).pc <= RAM_SIZE,
        ensures
            final(self)@.wf(),
            outcome_is(old(self)@, final(self)@, r, execute_instr(old(self)@, ins)),
    {
        match ins {
            Instr::Nop => {},
            Instr::Clear => {
                self.screen = [false; SCREEN_SIZE];
                assert(self.screen@ =~= blank_screen());
            },
            Instr::Return => {
                if self.sp == 0 {
                    return Err(Fault::StackUnderflow);
                }
                self.pc = self.pop();
            },
            Instr::Jump(nnn) => {
                self.pc = nnn;
            },
            Instr::Call(nnn) => {
                if self.sp as usize >= STACK_SIZE {
                    return Err(Fault::StackOverflow);
                }
                self.push(self.pc);
                self.pc = nnn;
            },
            Instr::SkipEqImm(x, nn) => {
                if self.v_reg[x as usize] == nn {
                    self.pc = self.pc + 2;
                }
            },
            Instr::SkipNeImm(x, nn) => {
                if self.v_reg[x as usize] != nn {
                    self.pc = self.pc + 2;
                }
            },
            Instr::SkipEqReg(x, y) => {
                if self.v_reg[x as usize] == self.v_reg[y as usize] {
                    self.pc = self.pc + 2;
                }
            },
            Instr::SkipNeReg(x, y) => {
                if self.v_reg[x as usize] != self.v_reg[y as usize] {
                    self.pc = self.pc + 2;
                }
            },
            Instr::SkipKey(x) => {
                let k = self.v_reg[x as usize] as usize;
                if k >= NUM_KEYS {
                    return Err(Fault::BadKey(k));
                }
                if self.keys[k] {
                    self.pc = self.pc + 2;
                }
            },
            Instr::SkipNoKey(x) => {
                let k = self.v_reg[x as usize] as usize;
                if k >= NUM_KEYS {
                    return Err(Fault::BadKey(k));
                }
                if !self.keys[k] {
                    self.pc = self.pc + 2;
                }
            },
            Instr::SetIndex(nnn) => {
                self.i_reg = nnn;
            },
            Instr::JumpOffset(nnn) => {
                self.pc = self.v_reg[0] as u16 + nnn;
            },
            Instr::Random(x, nn) => {
                let s = self.seed;
                let a = s ^ (s << 13u32);
                let b = a ^ (a >> 17u32);
                self.seed = b ^ (b << 5u32);
                self.v_reg[x as usize] = ((self.seed >> 24u32) as u8) & nn;
            },
            Instr::Draw(x, y, n) => {
                return self.draw(x, y, n);
            },
            Instr::GetDelay(x) => {
                self.v_reg[x as usize] = self.dt;
            },
            Instr::WaitKey(x) => {
                self.wait_key(x);
            },
            Instr::SetDelay(x) => {
                self.dt = self.v_reg[x as usize];
            },
            Instr::SetSound(x) => {
                self.st = self.v_reg[x as usize];
            },
            Instr::AddIndex(x) => {
                self.i_reg = self.i_reg.wrapping_add(self.v_reg[x as usize] as u16);
            },
            Instr::FontChar(x) => {
                self.i_reg = self.v_reg[x as usize] as u16 * 5;
            },
            Instr::Bcd(x) => {
                return self.store_bcd(x);
            },
            Instr::StoreRegs(x) => {
                return self.store_regs(x);
            },
            Instr::LoadRegs(x) => {
                return self.load_regs(x);
            },
            _ => {
                self.alu(ins);
            },
        }
        Ok(())
    }

    /// The arithmetic and logic instructions.
    fn alu(&mut self, ins: Instr)
        requires
            ins.wf(),
            is_alu(ins),
        ensures
            final(self)@ == alu(old(self)@, ins),
    {
        match ins {
            Instr::SetImm(x, nn) => {
                self.v_reg[x as usize] = nn;
            },
            Instr::AddImm(x, nn) => {
                let a = self.v_reg[x as usize];
                self.v_reg[x as usize] = ((a as u16 + nn as u16) % 0x100) as u8;
            },
            Instr::Move(x, y) => {
                self.v_reg[x as usize] = self.v_reg[y as usize];
            },
            Instr::Or(x, y) => {
                self.v_reg[x as usize] = self.v_reg[x as usize] | self.v_reg[y as usize];
            },
            Instr::And(x, y) => {
                self.v_reg[x as usize] = self.v_reg[x as usize] & self.v_reg[y as usize];
            },
            Instr::Xor(x, y) => {
                self.v_reg[x as usize] = self.v_reg[x as usize] ^ self.v_reg[y as usize];
            },
            Instr::AddReg(x, y) => {
                let sum = self.v_reg[x as usize] as u16 + self.v_reg[y as usize] as u16;
                self.v_reg[x as usize] = (sum % 0x100) as u8;
                self.v_reg[0xF] = if sum >= 0x100 { 1 } else { 0 };
            },
            Instr::SubReg(x, y) => {
                let (a, b) = (self.v_reg[x as usize], self.v_reg[y as usize]);
                self.v_reg[x as usize] = ((a as u16 + 0x100 - b as u16) % 0x100) as u8;
                self.v_reg[0xF] = if a < b { 0 } else { 1 };
            },
            Instr::ShiftRight(x) => {
                let a = self.v_reg[x as usize];
                self.v_reg[x as usize] = a / 2;
                self.v_reg[0xF] = a % 2;
            },
            Instr::SubRev(x, y) => {
                let (a, b) = (self.v_reg[x as usize], self.v_reg[y as usize]);
                self.v_reg[x as usize] = ((b as u16 + 0x100 - a as u16) % 0x100) as u8;
                self.v_reg[0xF] = if b < a { 0 } else { 1 };
            },
            Instr::ShiftLeft(x) => {
                let a = self.v_reg[x as usize];
                self.v_reg[x as usize] = ((a as u16 * 2) % 0x100) as u8;
                self.v_reg[0xF] = a / 0x80;
            },
            _ => {},
        }
    }

    /// `Dxyn`: XOR-draws the sprite of `n` rows at `I` at `(Vx, Vy)`, wrapping
    /// at the edges; VF tells whether a lit pixel went dark.
    fn draw(&mut self, x: u8, y: u8, n: u8) -> (r: Result<(), Fault>)
        requires
            x < 16,
            y < 16,
            n < 16,
        ensures
            outcome_is(old(self)@, final(self)@, r, execute_instr(old(self)@, Instr::Draw(x, y, n))),
    {
        let base = self.i_reg as usize;
        if base + n as usize > RAM_SIZE {
            return Err(Fault::BadAddress(self.i_reg));
        }
        let vx = self.v_reg[x as usize] as usize;
        let vy = self.v_reg[y as usize] as usize;
        let ghost ram = self.ram@;
        let ghost old_screen = self.screen@;
        let mut screen = self.screen;
        let mut hit = false;
        let total = 8 * n as usize;
        let mut k: usize = 0;
        while k < total
            invariant
                total == 8 * n,
                n < 16,
                base + n <= RAM_SIZE,
                vx < 256,
                vy < 256,
                k <= total,
                ram == self.ram@,
                old_screen == self.screen@,
                forall|p: int|
                    0 <= p < SCREEN_SIZE ==> screen@[p] == (old_screen[p] != sprite_hits(
                        ram,
                        base as int,
                        vx as int,
                        vy as int,
                        k as int,
                        p,
                    )),
                hit == exists|p: int|
                    0 <= p < SCREEN_SIZE && old_screen[p] && sprite_hits(
                        ram,
                        base as int,
                        vx as int,
                        vy as int,
                        k as int,
                        p,
                    ),
            decreases total - k,
        {
            let row = k / 8;
            let col = k % 8;
            let byte = self.ram[base + row];
            let set = (byte >> (7 - col as u8)) & 1 == 1;
            let dest = ((vy + row) % SCREEN_HEIGHT) * SCREEN_WIDTH + (vx + col) % SCREEN_WIDTH;
            let ghost (b, vxi, vyi, ki) = (base as int, vx as int, vy as int, k as int);
            assert(set == sprite_bit(ram[b + row], col as int));
            assert forall|p: int| 0 <= p < SCREEN_SIZE implies #[trigger] sprite_hits(
                ram,
                b,
                vxi,
                vyi,
                ki + 1,
                p,
            ) == (sprite_hits(ram, b, vxi, vyi, ki, p) || (p == dest && set)) by {
                lemma_sprite_pixel(vxi, vyi, row as int, col as int, p);
                let c = sprite_col(vxi, p);
                let rr = sprite_row(vyi, p);
                if c < 8 && rr * 8 + c == ki {
                    lemma_fundamental_div_mod_converse(ki, 8, rr, c);
                }
            }
            proof {
                lemma_sprite_pixel(vxi, vyi, row as int, col as int, dest as int);
                assert(!sprite_hits(ram, b, vxi, vyi, ki, dest as int));
            }
            if set {
                if screen[dest] {
                    hit = true;
                }
                screen[dest] = !screen[dest];
            }
            assert(hit == exists|p: int|
                0 <= p < SCREEN_SIZE && old_screen[p] && sprite_hits(ram, b, vxi, vyi, ki + 1, p)) by {
                if set && old_screen[dest as int] {
                    assert(sprite_hits(ram, b, vxi, vyi, ki + 1, dest as int));
                }
            }
            k = k + 1;
        }
        let flag: u8 = if hit { 1 } else { 0 };
        self.v_reg[0xF] = flag;
        assert(screen@ =~= crate::model::drawn(old_screen, ram, base as int, vx as int, vy as int, n as int));
        self.screen = screen;
        Ok(())
    }

    /// `Fx0A`: puts the lowest pressed key in `Vx`, or moves the PC back so
    /// that the instruction runs again next cycle.
    fn wait_key(&mut self, x: u8)
        requires
            x < 16,
            2 <= old(self).pc,
        ensures
            Ok::<MachineState, Fault>(final(self)@) == execute_instr(old(self)@, Instr::WaitKey(x)),
    {
        match first_key(&self.keys) {
            Some(k) => {
                self.v_reg[x as usize] = k as u8;
            },
            None => {
                self.pc = self.pc - 2;
            },
        }
    }

    /// `Fx33`: the decimal digits of `Vx` at `I`, `I + 1`, `I + 2`.
    fn store_bcd(&mut self, x: u8) -> (r: Result<(), Fault>)
        requires
            x < 16,
        ensures
            outcome_is(old(self)@, final(self)@, r, execute_instr(old(self)@, Instr::Bcd(x))),
    {
        let base = self.i_reg as usize;
        if base < START_ADDR as usize || base + 3 > RAM_SIZE {
            return Err(Fault::BadAddress(self.i_reg));
        }
        let val = self.v_reg[x as usize];
        self.ram[base] = val / 100;
        self.ram[base + 1] = (val / 10) % 10;
        self.ram[base + 2] = val % 10;
        Ok(())
    }

    /// `Fx55`: `V0..=Vx` to memory from `I` on.
    fn store_regs(&mut self, x: u8) -> (r: Result<(), Fault>)
        requires
            x < 16,
        ensures
            outcome_is(old(self)@, final(self)@, r, execute_instr(old(self)@, Instr::StoreRegs(x))),
    {
        let base = self.i_reg as usize;
        let count = x as usize + 1;
        if base < START_ADDR as usize || base + count > RAM_SIZE {
            return Err(Fault::BadAddress(self.i_reg));
        }
        let mut ram = self.ram;
        let mut k: usize = 0;
        while k < count
            invariant
                count == x + 1,
                x < 16,
                base == self.i_reg,
                base + count <= RAM_SIZE,
                k <= count,
                forall|a: int|
                    0 <= a < RAM_SIZE ==> ram@[a] == (if base <= a < base + k {
                        self.v_reg@[a - base]
                    } else {
                        self.ram@[a]
                    }),
            decreases count - k,
        {
            ram[base + k] = self.v_reg[k];
            k = k + 1;
        }
        assert(ram@ =~= stored_regs(self@, x as int));
        self.ram = ram;
        Ok(())
    }

    /// `Fx65`: `V0..=Vx` from memory from `I` on.
    fn load_regs(&mut self, x: u8) -> (r: Result<(), Fault>)
        requires
            x < 16,
        ensures
            outcome_is(old(self)@, final(self)@, r, execute_instr(old(self)@, Instr::LoadRegs(x))),
    {
        let base = self.i_reg as usize;
        let count = x as usize + 1;
        if base + count > RAM_SIZE {
            return Err(Fault::BadAddress(self.i_reg));
        }
        let mut v = self.v_reg;
        let mut k: usize = 0;
        while k < count
            invariant
                count == x + 1,
                x < 16,
                base == self.i_reg,
                base + count <= RAM_SIZE,
                k <= count,
                forall|r: int|
                    0 <= r < NUM_REGS ==> v@[r] == (if r < k {
                        self.ram@[base + r]
                    } else {
                        self.v_reg@[r]
                    }),
            decreases count - k,
        {
            v[k] = self.ram[base + k];
            k = k + 1;
        }
        assert(v@ =~= loaded_regs(self@, x as int));
        self.v_reg = v;
        Ok(())
    }
}

} // verus!
