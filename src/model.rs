//! The mathematical model of the machine and the meaning of every instruction.
use vstd::prelude::*;

verus! {

/// Width of the framebuffer in pixels.
pub const SCREEN_WIDTH: usize = 64;

/// Height of the framebuffer in pixels.
pub const SCREEN_HEIGHT: usize = 32;

/// Number of bytes of addressable memory.
pub const RAM_SIZE: usize = 4096;

/// Number of pixels of the framebuffer.
pub const SCREEN_SIZE: usize = 2048;

/// Number of general-purpose registers, V0 to VF.
pub const NUM_REGS: usize = 16;

/// Capacity of the call stack.
pub const STACK_SIZE: usize = 16;

/// Number of keys on the hexadecimal keypad.
pub const NUM_KEYS: usize = 16;

/// Number of bytes of the built-in font table.
pub const FONT_SIZE: usize = 80;

/// Address at which programs are loaded and execution starts; nothing below it
/// is ever written once the font table is in place.
pub const START_ADDR: u16 = 0x200;

/// Seed of the pseudo-random generator behind `Cxnn` in a fresh machine.
pub const INITIAL_SEED: u32 = 0x2545_f491;

/// A fatal condition. The machine that reports it is left as it was before the
/// failing call.
#[derive(Debug, Clone, Copy, PartialEq, Eq, Structural)]
pub enum Fault {
    /// The opcode matches no known instruction form.
    UnknownOpcode(u16),
    /// A fetch or memory access at this base address (PC or I) would leave
    /// memory, or a store would write below the program area.
    BadAddress(u16),
    /// A call with all sixteen stack slots in use.
    StackOverflow,
    /// A return with an empty call stack.
    StackUnderflow,
    /// A program image of this length does not fit above the start address.
    ProgramTooLarge(usize),
    /// A key index of 16 or more.
    BadKey(usize),
}

/// A decoded instruction. `x` and `y` name registers (below 16), `n` is a
/// 4-bit count, `nn` an 8-bit immediate and `nnn` a 12-bit address.
#[derive(Debug, Clone, Copy, PartialEq, Eq, Structural)]
pub enum Instr {
    /// `0000`: do nothing.
    Nop,
    /// `00E0`: clear the framebuffer.
    Clear,
    /// `00EE`: return from a subroutine.
    Return,
    /// `1nnn`: jump to `nnn`.
    Jump(u16),
    /// `2nnn`: call the subroutine at `nnn`.
    Call(u16),
    /// `3xnn`: skip the next instruction if `Vx == nn`.
    SkipEqImm(u8, u8),
    /// `4xnn`: skip if `Vx != nn`.
    SkipNeImm(u8, u8),
    /// `5xy0`: skip if `Vx == Vy`.
    SkipEqReg(u8, u8),
    /// `6xnn`: `Vx = nn`.
    SetImm(u8, u8),
    /// `7xnn`: `Vx += nn`, wrapping, flag untouched.
    AddImm(u8, u8),
    /// `8xy0`: `Vx = Vy`.
    Move(u8, u8),
    /// `8xy1`: `Vx |= Vy`.
    Or(u8, u8),
    /// `8xy2`: `Vx &= Vy`.
    And(u8, u8),
    /// `8xy3`: `Vx ^= Vy`.
    Xor(u8, u8),
    /// `8xy4`: `Vx += Vy`, VF = carry.
    AddReg(u8, u8),
    /// `8xy5`: `Vx -= Vy`, VF = no borrow.
    SubReg(u8, u8),
    /// `8xy6`: `Vx >>= 1`, VF = the bit shifted out.
    ShiftRight(u8),
    /// `8xy7`: `Vx = Vy - Vx`, VF = no borrow.
    SubRev(u8, u8),
    /// `8xyE`: `Vx <<= 1`, VF = the bit shifted out.
    ShiftLeft(u8),
    /// `9xy0`: skip if `Vx != Vy`.
    SkipNeReg(u8, u8),
    /// `Annn`: `I = nnn`.
    SetIndex(u16),
    /// `Bnnn`: jump to `V0 + nnn`.
    JumpOffset(u16),
    /// `Cxnn`: `Vx = random byte & nn`. The byte comes from a xorshift
    /// generator held in the machine, so a fresh machine is reproducible.
    Random(u8, u8),
    /// `Dxyn`: XOR-draw the `n`-row sprite at `I` at `(Vx, Vy)`, wrapping at
    /// the edges; VF = 1 when some lit pixel goes dark, else 0. Drawing the
    /// same sprite twice in place erases it.
    Draw(u8, u8, u8),
    /// `Ex9E`: skip if the key `Vx` is pressed.
    SkipKey(u8),
    /// `ExA1`: skip if the key `Vx` is not pressed.
    SkipNoKey(u8),
    /// `Fx07`: `Vx = delay timer`.
    GetDelay(u8),
    /// `Fx0A`: wait for a key press and put its index in `Vx`.
    WaitKey(u8),
    /// `Fx15`: `delay timer = Vx`.
    SetDelay(u8),
    /// `Fx18`: `sound timer = Vx`.
    SetSound(u8),
    /// `Fx1E`: `I += Vx`, wrapping.
    AddIndex(u8),
    /// `Fx29`: `I =` address of the glyph of digit `Vx`.
    FontChar(u8),
    /// `Fx33`: store the decimal digits of `Vx` at `I`, `I+1`, `I+2`.
    Bcd(u8),
    /// `Fx55`: store `V0..=Vx` at `I`.
    StoreRegs(u8),
    /// `Fx65`: load `V0..=Vx` from `I`.
    LoadRegs(u8),
}

impl Instr {
    /// Register indices below 16, counts below 16, addresses below 4096: true
    /// of every instruction that decoding produces.
    pub open spec fn wf(self) -> bool {
        match self {
            Instr::Jump(nnn) | Instr::Call(nnn) | Instr::SetIndex(nnn) | Instr::JumpOffset(nnn) => nnn < 0x1000,
            Instr::SkipEqImm(x, _) | Instr::SkipNeImm(x, _) | Instr::SetImm(x, _) | Instr::AddImm(x, _)
            | Instr::Random(x, _) => x < 16,
            Instr::SkipEqReg(x, y) | Instr::Move(x, y) | Instr::Or(x, y) | Instr::And(x, y)
            | Instr::Xor(x, y) | Instr::AddReg(x, y) | Instr::SubReg(x, y) | Instr::SubRev(x, y)
            | Instr::SkipNeReg(x, y) => x < 16 && y < 16,
            Instr::Draw(x, y, n) => x < 16 && y < 16 && n < 16,
            Instr::ShiftRight(x) | Instr::ShiftLeft(x) | Instr::SkipKey(x) | Instr::SkipNoKey(x)
            | Instr::GetDelay(x) | Instr::WaitKey(x) | Instr::SetDelay(x) | Instr::SetSound(x)
            | Instr::AddIndex(x) | Instr::FontChar(x) | Instr::Bcd(x) | Instr::StoreRegs(x)
            | Instr::LoadRegs(x) => x < 16,
            _ => true,
        }
    }
}

/// The whole state of a machine, as values.
pub struct MachineState {
    pub pc: u16,
    pub ram: Seq<u8>,
    pub screen: Seq<bool>,
    pub v: Seq<u8>,
    pub i: u16,
    pub sp: u16,
    pub stack: Seq<u16>,
    pub dt: u8,
    pub st: u8,
    pub keys: Seq<bool>,
    pub seed: u32,
}

/// The built-in glyphs of the hexadecimal digits, five rows of each.
pub open spec fn font() -> Seq<u8> {
    seq![
        0xF0u8, 0x90, 0x90, 0x90, 0xF0,
        0x20, 0x60, 0x20, 0x20, 0x70,
        0xF0, 0x10, 0xF0, 0x80, 0xF0,
        0xF0, 0x10, 0xF0, 0x10, 0xF0,
        0x90, 0x90, 0xF0, 0x10, 0x10,
        0xF0, 0x80, 0xF0, 0x10, 0xF0,
        0xF0, 0x80, 0xF0, 0x90, 0xF0,
        0xF0, 0x10, 0x20, 0x40, 0x40,
        0xF0, 0x90, 0xF0, 0x90, 0xF0,
        0xF0, 0x90, 0xF0, 0x10, 0xF0,
        0xF0, 0x90, 0xF0, 0x90, 0x90,
        0xE0, 0x90, 0xE0, 0x90, 0xE0,
        0xF0, 0x80, 0x80, 0x80, 0xF0,
        0xE0, 0x90, 0x90, 0x90, 0xE0,
        0xF0, 0x80, 0xF0, 0x80, 0xF0,
        0xF0, 0x80, 0xF0, 0x80, 0x80,
    ]
}

/// A framebuffer with every pixel dark.
pub open spec fn blank_screen() -> Seq<bool> {
    Seq::new(SCREEN_SIZE as nat, |p: int| false)
}

/// The state of a freshly initialised machine: everything zero, the font table
/// at the bottom of memory, the PC at the start address.
pub open spec fn initial_state() -> MachineState {
    MachineState {
        pc: START_ADDR,
        ram: Seq::new(RAM_SIZE as nat, |a: int| if a < FONT_SIZE { font()[a] } else { 0u8 }),
        screen: blank_screen(),
        v: Seq::new(NUM_REGS as nat, |r: int| 0u8),
        i: 0,
        sp: 0,
        stack: Seq::new(STACK_SIZE as nat, |k: int| 0u16),
        dt: 0,
        st: 0,
        keys: Seq::new(NUM_KEYS as nat, |k: int| false),
        seed: INITIAL_SEED,
    }
}

/// What a reset makes of any state: the initial state, whatever came before.
pub open spec fn after_reset(s: MachineState) -> MachineState {
    initial_state()
}

/// The xorshift step of the generator behind `Cxnn`.
pub open spec fn next_seed(s: u32) -> u32 {
    let a = s ^ (s << 13u32);
    let b = a ^ (a >> 17u32);
    b ^ (b << 5u32)
}

/// The byte that a generator state hands out.
pub open spec fn random_byte(s: u32) -> u8 {
    (s >> 24u32) as u8
}

/// Bit `col` of a sprite row, counted from the most significant bit.
pub open spec fn sprite_bit(b: u8, col: int) -> bool {
    (b >> ((7 - col) as u8)) & 1u8 == 1u8
}

/// Column of pixel `p` relative to a sprite drawn at column `vx`, with wrap-around.
pub open spec fn sprite_col(vx: int, p: int) -> int {
    (p % (SCREEN_WIDTH as int) - vx) % (SCREEN_WIDTH as int)
}

/// Row of pixel `p` relative to a sprite drawn at row `vy`, with wrap-around.
pub open spec fn sprite_row(vy: int, p: int) -> int {
    (p / (SCREEN_WIDTH as int) - vy) % (SCREEN_HEIGHT as int)
}

/// Whether pixel `p` is hit by one of the first `k` sprite bits (rows of eight,
/// most significant bit first) of the sprite at `ram[i..]` drawn at `(vx, vy)`.
pub open spec fn sprite_hits(ram: Seq<u8>, i: int, vx: int, vy: int, k: int, p: int) -> bool {
    let col = sprite_col(vx, p);
    let row = sprite_row(vy, p);
    col < 8 && row * 8 + col < k && sprite_bit(ram[i + row], col)
}

/// The framebuffer after XOR-drawing the `n`-row sprite at `ram[i..]` at `(vx, vy)`.
pub open spec fn drawn(screen: Seq<bool>, ram: Seq<u8>, i: int, vx: int, vy: int, n: int) -> Seq<bool> {
    Seq::new(screen.len(), |p: int| screen[p] != sprite_hits(ram, i, vx, vy, 8 * n, p))
}

/// Whether drawing that sprite turns some lit pixel off.
pub open spec fn collides(screen: Seq<bool>, ram: Seq<u8>, i: int, vx: int, vy: int, n: int) -> bool {
    exists|p: int| 0 <= p < screen.len() && screen[p] && sprite_hits(ram, i, vx, vy, 8 * n, p)
}

/// The lowest index at or above `k` of a pressed key, if any.
pub open spec fn first_pressed(keys: Seq<bool>, k: int) -> Option<int>
    decreases NUM_KEYS - k,
{
    if k >= NUM_KEYS {
        None
    } else if keys[k] {
        Some(k)
    } else {
        first_pressed(keys, k + 1)
    }
}

/// Whether `len` bytes from `addr` lie inside memory and at or above the start address.
pub open spec fn writable(addr: int, len: int) -> bool {
    START_ADDR <= addr && addr + len <= RAM_SIZE
}

/// Whether `len` bytes from `addr` lie inside memory.
pub open spec fn readable(addr: int, len: int) -> bool {
    addr + len <= RAM_SIZE
}

/// The decoding of an opcode, keyed on its four nibbles, most significant first.
pub open spec fn instr_of(op: u16) -> Option<Instr> {
    let d1 = op / 0x1000;
    let x = ((op / 0x100) % 0x10) as u8;
    let y = ((op / 0x10) % 0x10) as u8;
    let n = (op % 0x10) as u8;
    let nn = (op % 0x100) as u8;
    let nnn = op % 0x1000;
    if d1 == 0 {
        if op == 0 {
            Some(Instr::Nop)
        } else if op == 0x00E0 {
            Some(Instr::Clear)
        } else if op == 0x00EE {
            Some(Instr::Return)
        } else {
            None
        }
    } else if d1 == 1 {
        Some(Instr::Jump(nnn))
    } else if d1 == 2 {
        Some(Instr::Call(nnn))
    } else if d1 == 3 {
        Some(Instr::SkipEqImm(x, nn))
    } else if d1 == 4 {
        Some(Instr::SkipNeImm(x, nn))
    } else if d1 == 5 {
        if n == 0 { Some(Instr::SkipEqReg(x, y)) } else { None }
    } else if d1 == 6 {
        Some(Instr::SetImm(x, nn))
    } else if d1 == 7 {
        Some(Instr::AddImm(x, nn))
    } else if d1 == 8 {
        if n == 0 {
            Some(Instr::Move(x, y))
        } else if n == 1 {
            Some(Instr::Or(x, y))
        } else if n == 2 {
            Some(Instr::And(x, y))
        } else if n == 3 {
            Some(Instr::Xor(x, y))
        } else if n == 4 {
            Some(Instr::AddReg(x, y))
        } else if n == 5 {
            Some(Instr::SubReg(x, y))
        } else if n == 6 {
            Some(Instr::ShiftRight(x))
        } else if n == 7 {
            Some(Instr::SubRev(x, y))
        } else if n == 0xE {
            Some(Instr::ShiftLeft(x))
        } else {
            None
        }
    } else if d1 == 9 {
        if n == 0 { Some(Instr::SkipNeReg(x, y)) } else { None }
    } else if d1 == 0xA {
        Some(Instr::SetIndex(nnn))
    } else if d1 == 0xB {
        Some(Instr::JumpOffset(nnn))
    } else if d1 == 0xC {
        Some(Instr::Random(x, nn))
    } else if d1 == 0xD {
        Some(Instr::Draw(x, y, n))
    } else if d1 == 0xE {
        if nn == 0x9E {
            Some(Instr::SkipKey(x))
        } else if nn == 0xA1 {
            Some(Instr::SkipNoKey(x))
        } else {
            None
        }
    } else {
        if nn == 0x07 {
            Some(Instr::GetDelay(x))
        } else if nn == 0x0A {
            Some(Instr::WaitKey(x))
        } else if nn == 0x15 {
            Some(Instr::SetDelay(x))
        } else if nn == 0x18 {
            Some(Instr::SetSound(x))
        } else if nn == 0x1E {
            Some(Instr::AddIndex(x))
        } else if nn == 0x29 {
            Some(Instr::FontChar(x))
        } else if nn == 0x33 {
            Some(Instr::Bcd(x))
        } else if nn == 0x55 {
            Some(Instr::StoreRegs(x))
        } else if nn == 0x65 {
            Some(Instr::LoadRegs(x))
        } else {
            None
        }
    }
}

impl MachineState {
    /// Every sequence has its fixed length and the stack pointer is in range.
    pub open spec fn wf(self) -> bool {
        &&& self.ram.len() == RAM_SIZE
        &&& self.screen.len() == SCREEN_SIZE
        &&& self.v.len() == NUM_REGS
        &&& self.stack.len() == STACK_SIZE
        &&& self.keys.len() == NUM_KEYS
        &&& self.sp <= STACK_SIZE
    }

    pub open spec fn reg(self, x: u8) -> u8 {
        self.v[x as int]
    }

    pub open spec fn with_pc(self, pc: int) -> MachineState {
        MachineState { pc: pc as u16, ..self }
    }

    pub open spec fn with_reg(self, x: int, val: u8) -> MachineState {
        MachineState { v: self.v.update(x, val), ..self }
    }

    /// Skips the next instruction when `cond` holds.
    pub open spec fn skip_if(self, cond: bool) -> MachineState {
        if cond { self.with_pc(self.pc + 2) } else { self }
    }

    /// Sets `Vx` to `val`, then VF to `flag`.
    pub open spec fn with_flagged(self, x: u8, val: u8, flag: u8) -> MachineState {
        self.with_reg(x as int, val).with_reg(0xF, flag)
    }

    /// The opcode at the PC, big-endian.
    pub open spec fn opcode(self) -> u16 {
        (self.ram[self.pc as int] * 0x100 + self.ram[self.pc + 1]) as u16
    }

    /// Whether both bytes of the opcode at the PC lie inside memory.
    pub open spec fn can_fetch(self) -> bool {
        self.pc + 1 < RAM_SIZE
    }
}

/// An integer reduced modulo 256, as an 8-bit register holds it.
pub open spec fn wrap8(a: int) -> u8 {
    (a % 0x100) as u8
}

/// The effect of the arithmetic and logic instructions (`6xnn`, `7xnn`, `8xy_`).
pub open spec fn alu(s: MachineState, ins: Instr) -> MachineState {
    match ins {
        Instr::SetImm(x, nn) => s.with_reg(x as int, nn),
        Instr::AddImm(x, nn) => s.with_reg(x as int, wrap8(s.reg(x) + nn)),
        Instr::Move(x, y) => s.with_reg(x as int, s.reg(y)),
        Instr::Or(x, y) => s.with_reg(x as int, s.reg(x) | s.reg(y)),
        Instr::And(x, y) => s.with_reg(x as int, s.reg(x) & s.reg(y)),
        Instr::Xor(x, y) => s.with_reg(x as int, s.reg(x) ^ s.reg(y)),
        Instr::AddReg(x, y) => s.with_flagged(
            x,
            wrap8(s.reg(x) + s.reg(y)),
            if s.reg(x) + s.reg(y) >= 0x100 { 1 } else { 0 },
        ),
        Instr::SubReg(x, y) => s.with_flagged(
            x,
            wrap8(s.reg(x) - s.reg(y)),
            if s.reg(x) < s.reg(y) { 0 } else { 1 },
        ),
        Instr::ShiftRight(x) => s.with_flagged(x, s.reg(x) / 2, s.reg(x) % 2),
        Instr::SubRev(x, y) => s.with_flagged(
            x,
            wrap8(s.reg(y) - s.reg(x)),
            if s.reg(y) < s.reg(x) { 0 } else { 1 },
        ),
        Instr::ShiftLeft(x) => s.with_flagged(x, wrap8(s.reg(x) * 2), s.reg(x) / 0x80),
        _ => s,
    }
}

/// Whether `ins` is one of the arithmetic and logic instructions.
pub open spec fn is_alu(ins: Instr) -> bool {
    match ins {
        Instr::SetImm(..) | Instr::AddImm(..) | Instr::Move(..) | Instr::Or(..) | Instr::And(..)
        | Instr::Xor(..) | Instr::AddReg(..) | Instr::SubReg(..) | Instr::ShiftRight(..)
        | Instr::SubRev(..) | Instr::ShiftLeft(..) => true,
        _ => false,
    }
}

/// The skip condition of the six conditional-skip instructions, on a state whose
/// key indices are in range.
pub open spec fn skip_taken(s: MachineState, ins: Instr) -> bool {
    match ins {
        Instr::SkipEqImm(x, nn) => s.reg(x) == nn,
        Instr::SkipNeImm(x, nn) => s.reg(x) != nn,
        Instr::SkipEqReg(x, y) => s.reg(x) == s.reg(y),
        Instr::SkipNeReg(x, y) => s.reg(x) != s.reg(y),
        Instr::SkipKey(x) => s.keys[s.reg(x) as int],
        Instr::SkipNoKey(x) => !s.keys[s.reg(x) as int],
        _ => false,
    }
}

/// Whether `ins` is one of the six conditional-skip instructions.
pub open spec fn is_skip(ins: Instr) -> bool {
    match ins {
        Instr::SkipEqImm(..) | Instr::SkipNeImm(..) | Instr::SkipEqReg(..) | Instr::SkipNeReg(..)
        | Instr::SkipKey(..) | Instr::SkipNoKey(..) => true,
        _ => false,
    }
}

/// Memory after storing `V0..=Vx` from address `i` on.
pub open spec fn stored_regs(s: MachineState, x: int) -> Seq<u8> {
    Seq::new(s.ram.len(), |a: int| if s.i <= a <= s.i + x { s.v[a - s.i] } else { s.ram[a] })
}

/// Registers after loading `V0..=Vx` from address `i` on.
pub open spec fn loaded_regs(s: MachineState, x: int) -> Seq<u8> {
    Seq::new(s.v.len(), |r: int| if r <= x { s.ram[s.i + r] } else { s.v[r] })
}

/// Memory after writing the decimal digits of `val` at `i`, `i + 1`, `i + 2`.
pub open spec fn bcd_stored(ram: Seq<u8>, i: int, val: u8) -> Seq<u8> {
    ram.update(i, val / 100).update(i + 1, (val / 10) % 10).update(i + 2, val % 10)
}

/// The effect of an instruction on a state whose PC already points past it.
pub open spec fn execute_instr(s: MachineState, ins: Instr) -> Result<MachineState, Fault> {
    match ins {
        Instr::Nop => Ok(s),
        Instr::Clear => Ok(MachineState { screen: blank_screen(), ..s }),
        Instr::Return => if s.sp == 0 {
            Err(Fault::StackUnderflow)
        } else {
            Ok(MachineState { sp: (s.sp - 1) as u16, pc: s.stack[s.sp - 1], ..s })
        },
        Instr::Jump(nnn) => Ok(s.with_pc(nnn as int)),
        Instr::Call(nnn) => if s.sp >= STACK_SIZE {
            Err(Fault::StackOverflow)
        } else {
            Ok(
                MachineState {
                    stack: s.stack.update(s.sp as int, s.pc),
                    sp: (s.sp + 1) as u16,
                    pc: nnn,
                    ..s
                },
            )
        },
        Instr::SkipEqImm(..) | Instr::SkipNeImm(..) | Instr::SkipEqReg(..) | Instr::SkipNeReg(..) => Ok(
            s.skip_if(skip_taken(s, ins)),
        ),
        Instr::SkipKey(x) | Instr::SkipNoKey(x) => if s.reg(x) >= NUM_KEYS {
            Err(Fault::BadKey(s.reg(x) as usize))
        } else {
            Ok(s.skip_if(skip_taken(s, ins)))
        },
        Instr::SetIndex(nnn) => Ok(MachineState { i: nnn, ..s }),
        Instr::JumpOffset(nnn) => Ok(s.with_pc(s.v[0] + nnn)),
        Instr::Random(x, nn) => {
            let seed = next_seed(s.seed);
            Ok(MachineState { seed, ..s.with_reg(x as int, random_byte(seed) & nn) })
        },
        Instr::Draw(x, y, n) => if !readable(s.i as int, n as int) {
            Err(Fault::BadAddress(s.i))
        } else {
            let (vx, vy) = (s.reg(x) as int, s.reg(y) as int);
            let hit = collides(s.screen, s.ram, s.i as int, vx, vy, n as int);
            Ok(
                MachineState {
                    screen: drawn(s.screen, s.ram, s.i as int, vx, vy, n as int),
                    ..s.with_reg(0xF, if hit { 1 } else { 0 })
                },
            )
        },
        Instr::GetDelay(x) => Ok(s.with_reg(x as int, s.dt)),
        Instr::WaitKey(x) => match first_pressed(s.keys, 0) {
            Some(k) => Ok(s.with_reg(x as int, k as u8)),
            None => Ok(s.with_pc(s.pc - 2)),
        },
        Instr::SetDelay(x) => Ok(MachineState { dt: s.reg(x), ..s }),
        Instr::SetSound(x) => Ok(MachineState { st: s.reg(x), ..s }),
        Instr::AddIndex(x) => Ok(MachineState { i: ((s.i + s.reg(x)) % 0x10000) as u16, ..s }),
        Instr::FontChar(x) => Ok(MachineState { i: (s.reg(x) * 5) as u16, ..s }),
        Instr::Bcd(x) => if !writable(s.i as int, 3) {
            Err(Fault::BadAddress(s.i))
        } else {
            Ok(MachineState { ram: bcd_stored(s.ram, s.i as int, s.reg(x)), ..s })
        },
        Instr::StoreRegs(x) => if !writable(s.i as int, x + 1) {
            Err(Fault::BadAddress(s.i))
        } else {
            Ok(MachineState { ram: stored_regs(s, x as int), ..s })
        },
        Instr::LoadRegs(x) => if !readable(s.i as int, x + 1) {
            Err(Fault::BadAddress(s.i))
        } else {
            Ok(MachineState { v: loaded_regs(s, x as int), ..s })
        },
        _ => Ok(alu(s, ins)),
    }
}

/// One fetch-decode-execute cycle. On a fault the state is left as it was.
pub open spec fn step(s: MachineState) -> Result<MachineState, Fault> {
    if !s.can_fetch() {
        Err(Fault::BadAddress(s.pc))
    } else {
        match instr_of(s.opcode()) {
            None => Err(Fault::UnknownOpcode(s.opcode())),
            Some(ins) => execute_instr(s.with_pc(s.pc + 2), ins),
        }
    }
}

/// One timer tick: each nonzero timer goes down by one.
pub open spec fn timers_ticked(s: MachineState) -> MachineState {
    MachineState {
        dt: if s.dt > 0 { (s.dt - 1) as u8 } else { 0 },
        st: if s.st > 0 { (s.st - 1) as u8 } else { 0 },
        ..s
    }
}

/// Memory after copying `prog` to the start address.
pub open spec fn loaded_program(ram: Seq<u8>, prog: Seq<u8>) -> Seq<u8> {
    Seq::new(
        ram.len(),
        |a: int|
            if START_ADDR <= a < START_ADDR + prog.len() {
                prog[a - START_ADDR]
            } else {
                ram[a]
            },
    )
}

/// Whether a call left the machine as `expected` says: the new state on
/// success, the old state and the same fault on failure.
pub open spec fn outcome_is(
    before: MachineState,
    after: MachineState,
    r: Result<(), Fault>,
    expected: Result<MachineState, Fault>,
) -> bool {
    match expected {
        Ok(t) => r is Ok && after == t,
        Err(e) => r == Err::<(), Fault>(e) && after == before,
    }
}

/// Whether a program image of `len` bytes fits above the start address.
pub open spec fn program_fits(len: int) -> bool {
    START_ADDR + len <= RAM_SIZE
}

} // verus!
