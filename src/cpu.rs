use vstd::prelude::*;
use crate::display::{blank_screen, Display, N_PIXELS, SCREEN_HEIGHT, SCREEN_WIDTH};
use crate::instruction::{decode_spec, Instruction};
use crate::keypad::{Keypad, N_KEYS};
use crate::ram::{Ram, RAM_SIZE};

verus! {

/// Number of general-purpose registers.
pub const N_REGS: usize = 16;

/// Depth of the call stack.
pub const STACK_SIZE: usize = 16;

/// Index of the flag register.
pub const VF: usize = 0xF;

/// Address of the first font glyph; glyph `d` starts at `FONT_START + 5 * d`.
pub const FONT_START: u16 = 0x50;

/// Where the program counter starts.
pub const PC_START: u16 = 0x200;

/// Why an instruction could not be executed.
#[derive(Debug, Clone, Copy, PartialEq, Eq, Structural)]
pub enum FaultKind {
    /// The word encodes no instruction.
    InvalidOpcode,
    /// A call with the stack already full.
    StackOverflow,
    /// A return with the stack empty.
    StackUnderflow,
    /// The instruction, or the memory it reads or writes, lies past the end of memory.
    AddressOutOfRange,
    /// A key instruction named a key above 0xF.
    KeyOutOfRange,
}

/// A fatal fault: what went wrong, the instruction word (0 when it could
/// not be fetched) and its address.
#[derive(Debug, Clone, Copy, PartialEq, Eq, Structural)]
pub struct Fault {
    pub kind: FaultKind,
    pub opcode: u16,
    pub pc: u16,
}

/// The whole state of the machine, as mathematical values.
pub struct Machine {
    pub v: Seq<u8>,
    pub i: u16,
    pub pc: u16,
    pub stack: Seq<u16>,
    pub sp: u8,
    pub delay_timer: u8,
    pub sound_timer: u8,
    pub mem: Seq<u8>,
    pub screen: Seq<bool>,
    pub keys: Seq<bool>,
}

impl Machine {
    /// Every component has its fixed size and the stack pointer is in range.
    pub open spec fn wf(self) -> bool {
        &&& self.v.len() == N_REGS
        &&& self.stack.len() == STACK_SIZE
        &&& self.sp <= STACK_SIZE
        &&& self.mem.len() == RAM_SIZE
        &&& self.screen.len() == N_PIXELS
        &&& self.keys.len() == N_KEYS
    }
}

/// The CPU: registers, program counter, call stack and timers.
pub struct Cpu {
    pub v: [u8; N_REGS],
    pub i: u16,
    pub pc: u16,
    pub stack: [u16; STACK_SIZE],
    pub sp: u8,
    pub delay_timer: u8,
    pub sound_timer: u8,
}

/// The machine made of a CPU, its memory, its screen and its keypad.
pub open spec fn machine(cpu: Cpu, ram: Ram, display: Display, keypad: Keypad) -> Machine {
    Machine {
        v: cpu.v@,
        i: cpu.i,
        pc: cpu.pc,
        stack: cpu.stack@,
        sp: cpu.sp,
        delay_timer: cpu.delay_timer,
        sound_timer: cpu.sound_timer,
        mem: ram.mem@,
        screen: display.buffer@,
        keys: keypad.keys@,
    }
}

/// `m` with register `x` set to `val`.
pub open spec fn set_reg(m: Machine, x: usize, val: u8) -> Machine {
    Machine { v: m.v.update(x as int, val), ..m }
}

/// `m` with register `x` set to `val`, then the flag register to `flag`.
pub open spec fn set_reg_flag(m: Machine, x: usize, val: u8, flag: u8) -> Machine {
    Machine { v: m.v.update(x as int, val).update(VF as int, flag), ..m }
}

/// `m` with the next instruction skipped when `cond` holds.
pub open spec fn skip_if(m: Machine, cond: bool) -> Machine {
    if cond {
        Machine { pc: (m.pc + 2) as u16, ..m }
    } else {
        m
    }
}

/// Bit `col` of a sprite row, counted from the most significant bit.
pub open spec fn sprite_bit(b: u8, col: int) -> bool {
    (b >> ((7 - col) as u8)) & 1u8 == 1u8
}

/// The pixel that column `col` of row `row` of a sprite at `(x0, y0)` lands on.
pub open spec fn pixel_at(x0: int, y0: int, row: int, col: int) -> int {
    (x0 + col) % (SCREEN_WIDTH as int) + ((y0 + row) % (SCREEN_HEIGHT as int)) * (SCREEN_WIDTH as int)
}

/// Whether a set bit of rows `r0..r1`, columns `0..cols`, of the sprite
/// stored at `i` and drawn at `(x0, y0)` lands on pixel `p`.
pub open spec fn lit_by(
    mem: Seq<u8>,
    i: u16,
    x0: int,
    y0: int,
    r0: int,
    r1: int,
    cols: int,
    p: int,
) -> bool {
    exists|r: int, c: int|
        r0 <= r < r1 && 0 <= c < cols && #[trigger] pixel_at(x0, y0, r, c) == p && sprite_bit(
            mem[i + r],
            c,
        )
}

/// Whether the `n`-row sprite stored at `i`, drawn at `(vx, vy)`, toggles pixel `p`.
pub open spec fn sprite_covers(mem: Seq<u8>, i: u16, vx: u8, vy: u8, n: u8, p: int) -> bool {
    lit_by(mem, i, vx as int % SCREEN_WIDTH as int, vy as int % SCREEN_HEIGHT as int, 0, n as int, 8, p)
}

/// Whether drawing the sprite toggles a pixel that was lit.
pub open spec fn sprite_collides(mem: Seq<u8>, i: u16, screen: Seq<bool>, vx: u8, vy: u8, n: u8) -> bool {
    exists|p: int| 0 <= p < N_PIXELS && #[trigger] sprite_covers(mem, i, vx, vy, n, p) && screen[p]
}

/// The screen after XOR-drawing the sprite: every covered pixel flips.
pub open spec fn drawn_screen(mem: Seq<u8>, i: u16, screen: Seq<bool>, vx: u8, vy: u8, n: u8) -> Seq<bool> {
    Seq::new(N_PIXELS as nat, |p: int| screen[p] != sprite_covers(mem, i, vx, vy, n, p))
}

/// The flag register after drawing: 1 when a lit pixel was turned off.
pub open spec fn collision_flag(mem: Seq<u8>, i: u16, screen: Seq<bool>, vx: u8, vy: u8, n: u8) -> u8 {
    if sprite_collides(mem, i, screen, vx, vy, n) {
        1
    } else {
        0
    }
}

/// The machine after drawing the `n`-row sprite at `m.i` at `(vx, vy)`.
pub open spec fn draw(m: Machine, vx: u8, vy: u8, n: u8) -> Machine {
    Machine {
        screen: drawn_screen(m.mem, m.i, m.screen, vx, vy, n),
        v: m.v.update(VF as int, collision_flag(m.mem, m.i, m.screen, vx, vy, n)),
        ..m
    }
}

/// Key `k` is the lowest-numbered key pressed.
pub open spec fn is_first_pressed(keys: Seq<bool>, k: int) -> bool {
    0 <= k < N_KEYS && keys[k] && forall|j: int| 0 <= j < k ==> !keys[j]
}

/// Waiting for a key: the lowest pressed key goes to register `x`; with no
/// key pressed the same instruction runs again.
pub open spec fn wait_key(m: Machine, x: usize) -> Machine {
    if exists|k: int| is_first_pressed(m.keys, k) {
        set_reg(m, x, (choose|k: int| is_first_pressed(m.keys, k)) as u8)
    } else {
        Machine { pc: (m.pc - 2) as u16, ..m }
    }
}

/// The memory after storing the decimal digits of `val` at `i`.
pub open spec fn bcd(mem: Seq<u8>, i: int, val: u8) -> Seq<u8> {
    mem.update(i, val / 100).update(i + 1, (val / 10) % 10).update(i + 2, val % 10)
}

/// The memory after storing registers `0..=x` at `i..=i + x`.
pub open spec fn store_regs(mem: Seq<u8>, v: Seq<u8>, i: int, x: int) -> Seq<u8> {
    Seq::new(mem.len(), |a: int| if i <= a <= i + x { v[a - i] } else { mem[a] })
}

/// The registers after loading registers `0..=x` from `i..=i + x`.
pub open spec fn load_regs(mem: Seq<u8>, v: Seq<u8>, i: int, x: int) -> Seq<u8> {
    Seq::new(v.len(), |r: int| if r <= x { mem[i + r] } else { v[r] })
}

/// What executing `ins` does to `m`, whose program counter already points
/// past the instruction; `rnd` is the random byte a random instruction draws.
pub open spec fn step(m: Machine, ins: Instruction, rnd: u8) -> Result<Machine, FaultKind> {
    match ins {
        Instruction::Nop => Ok(m),
        Instruction::Cls => Ok(Machine { screen: blank_screen(), ..m }),
        Instruction::Ret => if m.sp == 0 {
            Err(FaultKind::StackUnderflow)
        } else {
            Ok(Machine { sp: (m.sp - 1) as u8, pc: m.stack[m.sp - 1], ..m })
        },
        Instruction::Jp { addr } => Ok(Machine { pc: addr, ..m }),
        Instruction::Call { addr } => if m.sp >= STACK_SIZE {
            Err(FaultKind::StackOverflow)
        } else {
            Ok(
                Machine {
                    stack: m.stack.update(m.sp as int, m.pc),
                    sp: (m.sp + 1) as u8,
                    pc: addr,
                    ..m
                },
            )
        },
        Instruction::SeByte { x, byte } => Ok(skip_if(m, m.v[x as int] == byte)),
        Instruction::SneByte { x, byte } => Ok(skip_if(m, m.v[x as int] != byte)),
        Instruction::SeReg { x, y } => Ok(skip_if(m, m.v[x as int] == m.v[y as int])),
        Instruction::LdByte { x, byte } => Ok(set_reg(m, x, byte)),
        Instruction::AddByte { x, byte } => Ok(set_reg(m, x, ((m.v[x as int] + byte) % 256) as u8)),
        Instruction::LdReg { x, y } => Ok(set_reg(m, x, m.v[y as int])),
        Instruction::Or { x, y } => Ok(set_reg(m, x, m.v[x as int] | m.v[y as int])),
        Instruction::And { x, y } => Ok(set_reg(m, x, m.v[x as int] & m.v[y as int])),
        Instruction::Xor { x, y } => Ok(set_reg(m, x, m.v[x as int] ^ m.v[y as int])),
        Instruction::AddReg { x, y } => {
            let s = m.v[x as int] + m.v[y as int];
            Ok(set_reg_flag(m, x, (s % 256) as u8, if s > 255 { 1 } else { 0 }))
        },
        Instruction::Sub { x, y } => {
            let (a, b) = (m.v[x as int], m.v[y as int]);
            Ok(set_reg_flag(m, x, ((a - b + 256) % 256) as u8, if a >= b { 1 } else { 0 }))
        },
        Instruction::Shr { x } => Ok(set_reg_flag(m, x, m.v[x as int] / 2, m.v[x as int] % 2)),
        Instruction::SubN { x, y } => {
            let (a, b) = (m.v[x as int], m.v[y as int]);
            Ok(set_reg_flag(m, x, ((b - a + 256) % 256) as u8, if b >= a { 1 } else { 0 }))
        },
        Instruction::Shl { x } => Ok(
            set_reg_flag(m, x, ((m.v[x as int] * 2) % 256) as u8, m.v[x as int] / 128),
        ),
        Instruction::SneReg { x, y } => Ok(skip_if(m, m.v[x as int] != m.v[y as int])),
        Instruction::LdI { addr } => Ok(Machine { i: addr, ..m }),
        Instruction::JpV0 { addr } => Ok(Machine { pc: (addr + m.v[0]) as u16, ..m }),
        Instruction::Rnd { x, byte } => Ok(set_reg(m, x, rnd & byte)),
        Instruction::Drw { x, y, n } => if m.i + n > RAM_SIZE {
            Err(FaultKind::AddressOutOfRange)
        } else {
            Ok(draw(m, m.v[x as int], m.v[y as int], n))
        },
        Instruction::Skp { x } => if m.v[x as int] >= N_KEYS {
            Err(FaultKind::KeyOutOfRange)
        } else {
            Ok(skip_if(m, m.keys[m.v[x as int] as int]))
        },
        Instruction::Sknp { x } => if m.v[x as int] >= N_KEYS {
            Err(FaultKind::KeyOutOfRange)
        } else {
            Ok(skip_if(m, !m.keys[m.v[x as int] as int]))
        },
        Instruction::LdVxDt { x } => Ok(set_reg(m, x, m.delay_timer)),
        Instruction::LdKey { x } => Ok(wait_key(m, x)),
        Instruction::LdDtVx { x } => Ok(Machine { delay_timer: m.v[x as int], ..m }),
        Instruction::LdStVx { x } => Ok(Machine { sound_timer: m.v[x as int], ..m }),
        Instruction::AddI { x } => Ok(Machine { i: ((m.i + m.v[x as int]) % 0x10000) as u16, ..m }),
        Instruction::LdF { x } => Ok(Machine { i: (FONT_START + 5 * m.v[x as int]) as u16, ..m }),
        Instruction::LdB { x } => if m.i + 3 > RAM_SIZE {
            Err(FaultKind::AddressOutOfRange)
        } else {
            Ok(Machine { mem: bcd(m.mem, m.i as int, m.v[x as int]), ..m })
        },
        Instruction::StoreRegs { x } => if m.i + x + 1 > RAM_SIZE {
            Err(FaultKind::AddressOutOfRange)
        } else {
            Ok(Machine { mem: store_regs(m.mem, m.v, m.i as int, x as int), ..m })
        },
        Instruction::LoadRegs { x } => if m.i + x + 1 > RAM_SIZE {
            Err(FaultKind::AddressOutOfRange)
        } else {
            Ok(Machine { v: load_regs(m.mem, m.v, m.i as int, x as int), ..m })
        },
    }
}

/// The instruction jumps, calls, returns, skips and the key wait.
pub open spec fn changes_flow(ins: Instruction) -> bool {
    match ins {
        Instruction::Nop
        | Instruction::Ret
        | Instruction::Jp { .. }
        | Instruction::Call { .. }
        | Instruction::SeByte { .. }
        | Instruction::SneByte { .. }
        | Instruction::SeReg { .. }
        | Instruction::SneReg { .. }
        | Instruction::JpV0 { .. }
        | Instruction::Skp { .. }
        | Instruction::Sknp { .. }
        | Instruction::LdKey { .. } => true,
        _ => false,
    }
}

/// The instruction writes registers, timers or the index register and nothing else.
pub open spec fn changes_registers_only(ins: Instruction) -> bool {
    match ins {
        Instruction::LdByte { .. }
        | Instruction::AddByte { .. }
        | Instruction::LdReg { .. }
        | Instruction::Or { .. }
        | Instruction::And { .. }
        | Instruction::Xor { .. }
        | Instruction::AddReg { .. }
        | Instruction::Sub { .. }
        | Instruction::Shr { .. }
        | Instruction::SubN { .. }
        | Instruction::Shl { .. }
        | Instruction::Rnd { .. }
        | Instruction::LdI { .. }
        | Instruction::LdVxDt { .. }
        | Instruction::LdDtVx { .. }
        | Instruction::LdStVx { .. }
        | Instruction::AddI { .. }
        | Instruction::LdF { .. } => true,
        _ => false,
    }
}

/// The instruction writes memory or the screen.
pub open spec fn changes_memory(ins: Instruction) -> bool {
    match ins {
        Instruction::Cls
        | Instruction::Drw { .. }
        | Instruction::LdB { .. }
        | Instruction::StoreRegs { .. }
        | Instruction::LoadRegs { .. } => true,
        _ => false,
    }
}

/// The instruction word at `pc`, big-endian.
pub open spec fn word_at(mem: Seq<u8>, pc: int) -> u16 {
    (mem[pc] * 256 + mem[pc + 1]) as u16
}

/// One fetch/decode/execute cycle on `m`.
pub open spec fn cycle(m: Machine, rnd: u8) -> Result<Machine, Fault> {
    if m.pc + 1 >= RAM_SIZE {
        Err(Fault { kind: FaultKind::AddressOutOfRange, opcode: 0, pc: m.pc })
    } else {
        let op = word_at(m.mem, m.pc as int);
        let fetched = Machine { pc: (m.pc + 2) as u16, ..m };
        match decode_spec(op) {
            None => Err(Fault { kind: FaultKind::InvalidOpcode, opcode: op, pc: m.pc }),
            Some(ins) => match step(fetched, ins, rnd) {
                Ok(next) => Ok(next),
                Err(kind) => Err(Fault { kind, opcode: op, pc: m.pc }),
            },
        }
    }
}

/// A run's outcome `r` leaving `post` agrees with the model's `res` from `pre`:
/// on success `post` is the model's state, on a fault nothing changed.
pub open spec fn agrees<E>(res: Result<Machine, E>, r: Result<(), E>, pre: Machine, post: Machine) -> bool {
    match r {
        Ok(()) => res == Ok::<Machine, E>(post),
        Err(e) => res == Err::<Machine, E>(e) && post == pre,
    }
}

/// Distinct cells of a sprite of at most 16 rows land on distinct pixels.
proof fn lemma_pixel_at_injective(x0: int, y0: int, r1: int, c1: int, r2: int, c2: int)
    requires
        0 <= x0 < SCREEN_WIDTH,
        0 <= y0 < SCREEN_HEIGHT,
        0 <= r1 < 16,
        0 <= r2 < 16,
        0 <= c1 < 8,
        0 <= c2 < 8,
        pixel_at(x0, y0, r1, c1) == pixel_at(x0, y0, r2, c2),
    ensures
        r1 == r2,
        c1 == c2,
{
    let a1 = (x0 + c1) % 64;
    let a2 = (x0 + c2) % 64;
    let b1 = (y0 + r1) % 32;
    let b2 = (y0 + r2) % 32;
    assert(0 <= a1 < 64 && 0 <= a2 < 64 && 0 <= b1 < 32 && 0 <= b2 < 32);
    assert(a1 + b1 * 64 == a2 + b2 * 64);
    assert(b1 == b2 && a1 == a2) by (nonlinear_arith)
        requires
            a1 + b1 * 64 == a2 + b2 * 64,
            0 <= a1 < 64,
            0 <= a2 < 64,
    ;
}

/// One more column of a row adds exactly that column's pixel.
proof fn lemma_lit_by_col(mem: Seq<u8>, i: u16, x0: int, y0: int, row: int, col: int, p: int)
    requires
        0 <= col,
    ensures
        lit_by(mem, i, x0, y0, row, row + 1, col + 1, p) == (lit_by(mem, i, x0, y0, row, row + 1, col, p)
            || (pixel_at(x0, y0, row, col) == p && sprite_bit(mem[i + row], col))),
{
    let r1 = row + 1;
    let c1 = col + 1;
    if lit_by(mem, i, x0, y0, row, r1, c1, p) {
        let (r, c) = choose|r: int, c: int|
            row <= r < r1 && 0 <= c < c1 && #[trigger] pixel_at(x0, y0, r, c) == p
                && sprite_bit(mem[i + r], c);
        assert(r == row);
        if c < col {
            assert(lit_by(mem, i, x0, y0, row, r1, col, p));
        } else {
            assert(c == col);
        }
    }
    if lit_by(mem, i, x0, y0, row, r1, col, p) {
        let (r, c) = choose|r: int, c: int|
            row <= r < r1 && 0 <= c < col && #[trigger] pixel_at(x0, y0, r, c) == p
                && sprite_bit(mem[i + r], c);
        assert(lit_by(mem, i, x0, y0, row, r1, c1, p));
    }
    if pixel_at(x0, y0, row, col) == p && sprite_bit(mem[i + row], col) {
        assert(lit_by(mem, i, x0, y0, row, r1, c1, p));
    }
}

/// A finished row joins the rows before it.
proof fn lemma_lit_by_row(mem: Seq<u8>, i: u16, x0: int, y0: int, row: int, p: int)
    requires
        0 <= row,
    ensures
        lit_by(mem, i, x0, y0, 0, row + 1, 8, p) == (lit_by(mem, i, x0, y0, 0, row, 8, p) || lit_by(
            mem,
            i,
            x0,
            y0,
            row,
            row + 1,
            8,
            p,
        )),
{
    if lit_by(mem, i, x0, y0, 0, row + 1, 8, p) {
        let (r, c) = choose|r: int, c: int|
            0 <= r < row + 1 && 0 <= c < 8 && #[trigger] pixel_at(x0, y0, r, c) == p
                && sprite_bit(mem[i + r], c);
        assert(pixel_at(x0, y0, r, c) == p);
    }
    if lit_by(mem, i, x0, y0, 0, row, 8, p) {
        let (r, c) = choose|r: int, c: int|
            0 <= r < row && 0 <= c < 8 && #[trigger] pixel_at(x0, y0, r, c) == p
                && sprite_bit(mem[i + r], c);
        assert(pixel_at(x0, y0, r, c) == p);
    }
    if lit_by(mem, i, x0, y0, row, row + 1, 8, p) {
        let (r, c) = choose|r: int, c: int|
            row <= r < row + 1 && 0 <= c < 8 && #[trigger] pixel_at(x0, y0, r, c) == p
                && sprite_bit(mem[i + r], c);
        assert(pixel_at(x0, y0, r, c) == p);
    }
}

/// A pixel that the cell `(row, col)` lands on is not lit by the cells drawn before it.
proof fn lemma_lit_by_fresh(mem: Seq<u8>, i: u16, x0: int, y0: int, row: int, col: int)
    requires
        0 <= x0 < SCREEN_WIDTH,
        0 <= y0 < SCREEN_HEIGHT,
        0 <= row < 16,
        0 <= col < 8,
    ensures
        !lit_by(mem, i, x0, y0, 0, row, 8, pixel_at(x0, y0, row, col)),
        !lit_by(mem, i, x0, y0, row, row + 1, col, pixel_at(x0, y0, row, col)),
{
    let p = pixel_at(x0, y0, row, col);
    if lit_by(mem, i, x0, y0, 0, row, 8, p) {
        let (r, c) = choose|r: int, c: int|
            0 <= r < row && 0 <= c < 8 && #[trigger] pixel_at(x0, y0, r, c) == p
                && sprite_bit(mem[i + r], c);
        lemma_pixel_at_injective(x0, y0, r, c, row, col);
    }
    if lit_by(mem, i, x0, y0, row, row + 1, col, p) {
        let (r, c) = choose|r: int, c: int|
            row <= r < row + 1 && 0 <= c < col && #[trigger] pixel_at(x0, y0, r, c) == p
                && sprite_bit(mem[i + r], c);
        lemma_pixel_at_injective(x0, y0, r, c, row, col);
    }
}

/// Relies on rand::random: a byte from the thread-local generator; nothing
/// is known of its value.
#[verifier::external_body]
fn random_byte() -> (r: u8) {
    rand::random::<u8>()
}

/// The lowest-numbered pressed key, if any.
fn first_pressed(keypad: &Keypad) -> (r: Option<u8>)
    ensures
        r matches Some(k) ==> is_first_pressed(keypad.keys@, k as int),
        r is None ==> forall|k: int| 0 <= k < N_KEYS ==> !keypad.keys@[k],
{
    let mut k: usize = 0;
    while k < N_KEYS
        invariant
            k <= N_KEYS,
            forall|j: int| 0 <= j < k ==> !keypad.keys@[j],
        decreases N_KEYS - k,
    {
        if keypad.is_pressed(k) {
            return Some(k as u8);
        }
        k = k + 1;
    }
    None
}

impl Cpu {
    /// The stack pointer does not exceed the stack's depth.
    pub open spec fn wf(&self) -> bool {
        self.sp <= STACK_SIZE
    }

    /// Registers, timers and stack zeroed, program counter at `PC_START`.
    pub fn new() -> (r: Cpu)
        ensures
            r.wf(),
            r.v@ == Seq::new(N_REGS as nat, |k: int| 0u8),
            r.i == 0,
            r.pc == PC_START,
            r.stack@ == Seq::new(STACK_SIZE as nat, |k: int| 0u16),
            r.sp == 0,
            r.delay_timer == 0,
            r.sound_timer == 0,
    {
        let r = Cpu {
            v: [0u8; N_REGS],
            i: 0,
            pc: PC_START,
            stack: [0u16; STACK_SIZE],
            sp: 0,
            delay_timer: 0,
            sound_timer: 0,
        };
        assert(r.v@ =~= Seq::new(N_REGS as nat, |k: int| 0u8));
        assert(r.stack@ =~= Seq::new(STACK_SIZE as nat, |k: int| 0u16));
        r
    }
    /// Reads the big-endian instruction word at `pc` and advances `pc` by 2;
    /// fails, changing nothing, when the word lies past the end of memory.
    pub fn fetch(&mut self, ram: &Ram) -> (r: Result<u16, Fault>)
        ensures
            old(self).pc + 1 < RAM_SIZE ==> r == Ok::<u16, Fault>(word_at(ram.mem@, old(self).pc as int))
                && *final(self) == (Cpu { pc: (old(self).pc + 2) as u16, ..*old(self) }),
            old(self).pc + 1 >= RAM_SIZE ==> r == Err::<u16, Fault>(
                Fault { kind: FaultKind::AddressOutOfRange, opcode: 0, pc: old(self).pc },
            ) && *final(self) == *old(self),
    {
        let pc = self.pc;
        if pc as usize + 1 >= RAM_SIZE {
            return Err(Fault { kind: FaultKind::AddressOutOfRange, opcode: 0, pc });
        }
        self.pc = pc + 2;
        let high = ram.read_byte(pc) as u16;
        let low = ram.read_byte(pc + 1) as u16;
        Ok(high * 256 + low)
    }

    /// Runs one fetch/decode/execute cycle. On a fault nothing changes and
    /// the fault names the instruction word and its address. Whatever byte a
    /// random instruction drew, the outcome is the model's for that byte.
    pub fn tick(&mut self, ram: &mut Ram, display: &mut Display, keypad: &mut Keypad) -> (r: Result<(), Fault>)
        requires
            old(self).wf(),
        ensures
            final(self).wf(),
            *final(keypad) == *old(keypad),
            exists|rnd: u8|
                agrees(
                    #[trigger] cycle(machine(*old(self), *old(ram), *old(display), *old(keypad)), rnd),
                    r,
                    machine(*old(self), *old(ram), *old(display), *old(keypad)),
                    machine(*final(self), *final(ram), *final(display), *final(keypad)),
                ),
    {
        let ghost pre = machine(*self, *ram, *display, *keypad);
        let pc = self.pc;
        let opcode = match self.fetch(ram) {
            Ok(op) => op,
            Err(f) => {
                assert(agrees(cycle(pre, 0), Err::<(), Fault>(f), pre, pre));
                return Err(f);
            },
        };
        let ins = match Instruction::decode(opcode) {
            Some(ins) => ins,
            None => {
                self.pc = pc;
                let f = Fault { kind: FaultKind::InvalidOpcode, opcode, pc };
                assert(machine(*self, *ram, *display, *keypad) == pre);
                assert(agrees(cycle(pre, 0), Err::<(), Fault>(f), pre, pre));
                return Err(f);
            },
        };
        let rnd: u8 = match ins {
            Instruction::Rnd { .. } => random_byte(),
            _ => 0,
        };
        match self.execute(ins, rnd, ram, display, keypad) {
            Ok(()) => {
                assert(agrees(cycle(pre, rnd), Ok::<(), Fault>(()), pre, machine(*self, *ram, *display, *keypad)));
                Ok(())
            },
            Err(kind) => {
                self.pc = pc;
                let f = Fault { kind, opcode, pc };
                assert(machine(*self, *ram, *display, *keypad) == pre);
                assert(agrees(cycle(pre, rnd), Err::<(), Fault>(f), pre, pre));
                Err(f)
            },
        }
    }

    /// XOR-draws the `n`-row sprite at `I` at `(Vx, Vy)`, wrapping at the
    /// screen's edges, and sets the flag register to the collision bit.
    fn draw_sprite(&mut self, x: usize, y: usize, n: u8, ram: &Ram, display: &mut Display)
        requires
            x < N_REGS,
            y < N_REGS,
            n < 16,
            old(self).i + n <= RAM_SIZE,
        ensures
            final(display).buffer@ == drawn_screen(
                ram.mem@,
                old(self).i,
                old(display).buffer@,
                old(self).v@[x as int],
                old(self).v@[y as int],
                n,
            ),
            final(self).v@ == old(self).v@.update(
                VF as int,
                collision_flag(
                    ram.mem@,
                    old(self).i,
                    old(display).buffer@,
                    old(self).v@[x as int],
                    old(self).v@[y as int],
                    n,
                ),
            ),
            final(self).i == old(self).i,
            final(self).pc == old(self).pc,
            final(self).stack == old(self).stack,
            final(self).sp == old(self).sp,
            final(self).delay_timer == old(self).delay_timer,
            final(self).sound_timer == old(self).sound_timer,
    {
        let ghost mem = ram.mem@;
        let ghost screen0 = display.buffer@;
        let ghost vx = self.v@[x as int];
        let ghost vy = self.v@[y as int];
        let x0: usize = self.v[x] as usize % SCREEN_WIDTH;
        let y0: usize = self.v[y] as usize % SCREEN_HEIGHT;
        let i = self.i;
        let mut collided = false;
        let ghost mut w: int = 0;
        let mut row: u8 = 0;
        while row < n
            invariant
                row <= n,
                n < 16,
                x0 == vx as int % SCREEN_WIDTH as int,
                y0 == vy as int % SCREEN_HEIGHT as int,
                i + n <= RAM_SIZE,
                mem == ram.mem@,
                forall|p: int|
                    0 <= p < N_PIXELS ==> #[trigger] display.buffer@[p] == (screen0[p] != lit_by(
                        mem,
                        i,
                        x0 as int,
                        y0 as int,
                        0,
                        row as int,
                        8,
                        p,
                    )),
                collided ==> 0 <= w < N_PIXELS && screen0[w] && lit_by(
                    mem,
                    i,
                    x0 as int,
                    y0 as int,
                    0,
                    row as int,
                    8,
                    w,
                ),
                !collided ==> forall|p: int|
                    0 <= p < N_PIXELS && screen0[p] ==> !#[trigger] lit_by(
                        mem,
                        i,
                        x0 as int,
                        y0 as int,
                        0,
                        row as int,
                        8,
                        p,
                    ),
            decreases n - row,
        {
            let cur_y: usize = (y0 + row as usize) % SCREEN_HEIGHT;
            let byte = ram.read_byte(i + row as u16);
            let mut col: u8 = 0;
            while col < 8
                invariant
                    row < n,
                    n < 16,
                    col <= 8,
                    x0 == vx as int % SCREEN_WIDTH as int,
                    y0 == vy as int % SCREEN_HEIGHT as int,
                    cur_y == (y0 + row) % SCREEN_HEIGHT as int,
                    byte == mem[i + row],
                    forall|p: int|
                        0 <= p < N_PIXELS ==> #[trigger] display.buffer@[p] == (screen0[p] != (lit_by(
                            mem,
                            i,
                            x0 as int,
                            y0 as int,
                            0,
                            row as int,
                            8,
                            p,
                        ) || lit_by(mem, i, x0 as int, y0 as int, row as int, row + 1, col as int, p))),
                    collided ==> 0 <= w < N_PIXELS && screen0[w] && (lit_by(
                        mem,
                        i,
                        x0 as int,
                        y0 as int,
                        0,
                        row as int,
                        8,
                        w,
                    ) || lit_by(mem, i, x0 as int, y0 as int, row as int, row + 1, col as int, w)),
                    !collided ==> forall|p: int|
                        0 <= p < N_PIXELS && screen0[p] ==> !#[trigger] lit_by(
                            mem,
                            i,
                            x0 as int,
                            y0 as int,
                            0,
                            row as int,
                            8,
                            p,
                        ),
                    !collided ==> forall|p: int|
                        0 <= p < N_PIXELS && screen0[p] ==> !#[trigger] lit_by(
                            mem,
                            i,
                            x0 as int,
                            y0 as int,
                            row as int,
                            row + 1,
                            col as int,
                            p,
                        ),
                decreases 8 - col,
            {
                let ghost old_collided = collided;
                let cur_x: usize = (x0 + col as usize) % SCREEN_WIDTH;
                let idx: usize = cur_x + cur_y * SCREEN_WIDTH;
                let bit = (byte >> (7 - col)) & 1 == 1;
                let ghost r1 = row + 1;
                let ghost c1 = col + 1;
                proof {
                    assert(idx == pixel_at(x0 as int, y0 as int, row as int, col as int));
                    lemma_lit_by_fresh(mem, i, x0 as int, y0 as int, row as int, col as int);
                    assert forall|p: int| 0 <= p < N_PIXELS implies #[trigger] lit_by(
                        mem,
                        i,
                        x0 as int,
                        y0 as int,
                        row as int,
                        r1,
                        c1,
                        p,
                    ) == (lit_by(mem, i, x0 as int, y0 as int, row as int, r1, col as int, p) || (
                    p == idx && bit)) by {
                        lemma_lit_by_col(mem, i, x0 as int, y0 as int, row as int, col as int, p);
                    }
                }
                if bit {
                    assert(display.buffer@[idx as int] == screen0[idx as int]);
                    if display.buffer[idx] {
                        collided = true;
                    }
                    display.buffer[idx] = !display.buffer[idx];
                }
                proof {
                    if collided && !old_collided {
                        w = idx as int;
                    }
                    if collided {
                        assert(lit_by(mem, i, x0 as int, y0 as int, 0, row as int, 8, w) || lit_by(
                            mem,
                            i,
                            x0 as int,
                            y0 as int,
                            row as int,
                            r1,
                            c1,
                            w,
                        ));
                    }
                }
                col = col + 1;
            }
            proof {
                let r1 = row + 1;
                assert forall|p: int| 0 <= p < N_PIXELS implies #[trigger] lit_by(
                    mem,
                    i,
                    x0 as int,
                    y0 as int,
                    0,
                    r1,
                    8,
                    p,
                ) == (lit_by(mem, i, x0 as int, y0 as int, 0, row as int, 8, p) || lit_by(
                    mem,
                    i,
                    x0 as int,
                    y0 as int,
                    row as int,
                    r1,
                    8,
                    p,
                )) by {
                    lemma_lit_by_row(mem, i, x0 as int, y0 as int, row as int, p);
                }
            }
            row = row + 1;
        }
        self.v[VF] = if collided { 1 } else { 0 };
        proof {
            assert(display.buffer@ =~= drawn_screen(mem, i, screen0, vx, vy, n));
            if collided {
                assert(sprite_covers(mem, i, vx, vy, n, w));
            }
            assert(collided == sprite_collides(mem, i, screen0, vx, vy, n));
            assert(self.v@ =~= old(self).v@.update(VF as int, collision_flag(mem, i, screen0, vx, vy, n)));
        }
    }

    /// Stores registers `0..=x` at `i..=i + x`.
    fn store_registers(&self, x: usize, ram: &mut Ram)
        requires
            x < N_REGS,
            self.i + x < RAM_SIZE,
        ensures
            final(ram).mem@ == store_regs(old(ram).mem@, self.v@, self.i as int, x as int),
    {
        let mut k: usize = 0;
        while k <= x
            invariant
                x < N_REGS,
                k <= x + 1,
                self.i + x < RAM_SIZE,
                ram.mem@ == store_regs(old(ram).mem@, self.v@, self.i as int, k - 1),
            decreases x + 1 - k,
        {
            ram.write_byte(self.i + k as u16, self.v[k]);
            assert(ram.mem@ =~= store_regs(old(ram).mem@, self.v@, self.i as int, k as int));
            k = k + 1;
        }
    }

    /// Loads registers `0..=x` from `i..=i + x`.
    fn load_registers(&mut self, x: usize, ram: &Ram)
        requires
            x < N_REGS,
            old(self).i + x < RAM_SIZE,
        ensures
            final(self).v@ == load_regs(ram.mem@, old(self).v@, old(self).i as int, x as int),
            final(self).i == old(self).i,
            final(self).pc == old(self).pc,
            final(self).stack == old(self).stack,
            final(self).sp == old(self).sp,
            final(self).delay_timer == old(self).delay_timer,
            final(self).sound_timer == old(self).sound_timer,
    {
        let mut k: usize = 0;
        while k <= x
            invariant
                x < N_REGS,
                k <= x + 1,
                self.i == old(self).i,
                self.pc == old(self).pc,
                self.stack == old(self).stack,
                self.sp == old(self).sp,
                self.delay_timer == old(self).delay_timer,
                self.sound_timer == old(self).sound_timer,
                self.i + x < RAM_SIZE,
                self.v@ == load_regs(ram.mem@, old(self).v@, self.i as int, k - 1),
            decreases x + 1 - k,
        {
            self.v[k] = ram.read_byte(self.i + k as u16);
            assert(self.v@ =~= load_regs(ram.mem@, old(self).v@, self.i as int, k as int));
            k = k + 1;
        }
    }

    /// Executes one decoded instruction; the program counter already points
    /// past it, as after a fetch, so it lies in `2..=RAM_SIZE`. `rnd` is the
    /// byte a random instruction masks. On a fault nothing changes.
    pub fn execute(
        &mut self,
        ins: Instruction,
        rnd: u8,
        ram: &mut Ram,
        display: &mut Display,
        keypad: &mut Keypad,
    ) -> (r: Result<(), FaultKind>)
        requires
            old(self).wf(),
            ins.wf(),
            2 <= old(self).pc <= RAM_SIZE,
        ensures
            final(self).wf(),
            *final(keypad) == *old(keypad),
            agrees(
                step(machine(*old(self), *old(ram), *old(display), *old(keypad)), ins, rnd),
                r,
                machine(*old(self), *old(ram), *old(display), *old(keypad)),
                machine(*final(self), *final(ram), *final(display), *final(keypad)),
            ),
    {
        match ins {
            Instruction::Nop
            | Instruction::Ret
            | Instruction::Jp { .. }
            | Instruction::Call { .. }
            | Instruction::SeByte { .. }
            | Instruction::SneByte { .. }
            | Instruction::SeReg { .. }
            | Instruction::SneReg { .. }
            | Instruction::JpV0 { .. }
            | Instruction::Skp { .. }
            | Instruction::Sknp { .. }
            | Instruction::LdKey { .. } => self.execute_flow(ins, ram, display, keypad),
            Instruction::LdByte { .. }
            | Instruction::AddByte { .. }
            | Instruction::LdReg { .. }
            | Instruction::Or { .. }
            | Instruction::And { .. }
            | Instruction::Xor { .. }
            | Instruction::AddReg { .. }
            | Instruction::Sub { .. }
            | Instruction::Shr { .. }
            | Instruction::SubN { .. }
            | Instruction::Shl { .. }
            | Instruction::Rnd { .. }
            | Instruction::LdI { .. }
            | Instruction::LdVxDt { .. }
            | Instruction::LdDtVx { .. }
            | Instruction::LdStVx { .. }
            | Instruction::AddI { .. }
            | Instruction::LdF { .. } => {
                self.execute_registers(ins, rnd, ram, display, keypad);
                Ok(())
            },
            Instruction::Cls
            | Instruction::Drw { .. }
            | Instruction::LdB { .. }
            | Instruction::StoreRegs { .. }
            | Instruction::LoadRegs { .. } => self.execute_memory(ins, ram, display, keypad),
        }
    }

    /// Executes an instruction that changes the control flow: jumps, calls,
    /// returns, skips and the key wait.
    fn execute_flow(
        &mut self,
        ins: Instruction,
        ram: &Ram,
        display: &Display,
        keypad: &Keypad,
    ) -> (r: Result<(), FaultKind>)
        requires
            old(self).wf(),
            ins.wf(),
            2 <= old(self).pc <= RAM_SIZE,
            changes_flow(ins),
        ensures
            final(self).wf(),
            agrees(
                step(machine(*old(self), *ram, *display, *keypad), ins, 0),
                r,
                machine(*old(self), *ram, *display, *keypad),
                machine(*final(self), *ram, *display, *keypad),
            ),
    {
        let ghost pre = machine(*self, *ram, *display, *keypad);
        match ins {
            Instruction::Nop => {},
            Instruction::Ret => {
                if self.sp == 0 {
                    return Err(FaultKind::StackUnderflow);
                }
                self.sp = self.sp - 1;
                self.pc = self.stack[self.sp as usize];
            },
            Instruction::Jp { addr } => {
                self.pc = addr;
            },
            Instruction::Call { addr } => {
                if self.sp as usize >= STACK_SIZE {
                    return Err(FaultKind::StackOverflow);
                }
                self.stack[self.sp as usize] = self.pc;
                self.sp = self.sp + 1;
                self.pc = addr;
            },
            Instruction::SeByte { x, byte } => {
                if self.v[x] == byte {
                    self.pc = self.pc + 2;
                }
            },
            Instruction::SneByte { x, byte } => {
                if self.v[x] != byte {
                    self.pc = self.pc + 2;
                }
            },
            Instruction::SeReg { x, y } => {
                if self.v[x] == self.v[y] {
                    self.pc = self.pc + 2;
                }
            },
            Instruction::SneReg { x, y } => {
                if self.v[x] != self.v[y] {
                    self.pc = self.pc + 2;
                }
            },
            Instruction::JpV0 { addr } => {
                self.pc = addr + self.v[0] as u16;
            },
            Instruction::Skp { x } => {
                if self.v[x] as usize >= N_KEYS {
                    return Err(FaultKind::KeyOutOfRange);
                }
                if keypad.is_pressed(self.v[x] as usize) {
                    self.pc = self.pc + 2;
                }
            },
            Instruction::Sknp { x } => {
                if self.v[x] as usize >= N_KEYS {
                    return Err(FaultKind::KeyOutOfRange);
                }
                if !keypad.is_pressed(self.v[x] as usize) {
                    self.pc = self.pc + 2;
                }
            },
            Instruction::LdKey { x } => {
                match first_pressed(keypad) {
                    Some(k) => {
                        self.v[x] = k;
                        proof {
                            let c = choose|j: int| is_first_pressed(pre.keys, j);
                            assert(is_first_pressed(pre.keys, c));
                            assert(c == k as int) by {
                                if c < k {
                                } else if k < c {
                                }
                            }
                        }
                    },
                    None => {
                        self.pc = self.pc - 2;
                    },
                }
            },
            _ => {},
        }
        let ghost post = machine(*self, *ram, *display, *keypad);
        assert(step(pre, ins, 0) == Ok::<Machine, FaultKind>(post));
        Ok(())
    }

    /// Executes an instruction that writes registers, timers or the index
    /// register and nothing else.
    fn execute_registers(
        &mut self,
        ins: Instruction,
        rnd: u8,
        ram: &Ram,
        display: &Display,
        keypad: &Keypad,
    )
        requires
            old(self).wf(),
            ins.wf(),
            2 <= old(self).pc <= RAM_SIZE,
            changes_registers_only(ins),
        ensures
            final(self).wf(),
            step(machine(*old(self), *ram, *display, *keypad), ins, rnd) == Ok::<Machine, FaultKind>(
                machine(*final(self), *ram, *display, *keypad),
            ),
    {
        let ghost pre = machine(*self, *ram, *display, *keypad);
        match ins {
            Instruction::LdByte { x, byte } => {
                self.v[x] = byte;
            },
            Instruction::AddByte { x, byte } => {
                self.v[x] = self.v[x].wrapping_add(byte);
            },
            Instruction::LdReg { x, y } => {
                self.v[x] = self.v[y];
            },
            Instruction::Or { x, y } => {
                self.v[x] = self.v[x] | self.v[y];
            },
            Instruction::And { x, y } => {
                self.v[x] = self.v[x] & self.v[y];
            },
            Instruction::Xor { x, y } => {
                self.v[x] = self.v[x] ^ self.v[y];
            },
            Instruction::AddReg { x, y } => {
                let s: u16 = self.v[x] as u16 + self.v[y] as u16;
                self.v[x] = (s % 256) as u8;
                self.v[VF] = if s > 255 { 1 } else { 0 };
            },
            Instruction::Sub { x, y } => {
                let (a, b) = (self.v[x], self.v[y]);
                self.v[x] = a.wrapping_sub(b);
                self.v[VF] = if a >= b { 1 } else { 0 };
            },
            Instruction::Shr { x } => {
                let a = self.v[x];
                self.v[x] = a / 2;
                self.v[VF] = a % 2;
            },
            Instruction::SubN { x, y } => {
                let (a, b) = (self.v[x], self.v[y]);
                self.v[x] = b.wrapping_sub(a);
                self.v[VF] = if b >= a { 1 } else { 0 };
            },
            Instruction::Shl { x } => {
                let a = self.v[x];
                self.v[x] = ((a as u16 * 2) % 256) as u8;
                self.v[VF] = a / 128;
            },
            Instruction::Rnd { x, byte } => {
                self.v[x] = rnd & byte;
            },
            Instruction::LdI { addr } => {
                self.i = addr;
            },
            Instruction::LdVxDt { x } => {
                self.v[x] = self.delay_timer;
            },
            Instruction::LdDtVx { x } => {
                self.delay_timer = self.v[x];
            },
            Instruction::LdStVx { x } => {
                self.sound_timer = self.v[x];
            },
            Instruction::AddI { x } => {
                self.i = self.i.wrapping_add(self.v[x] as u16);
            },
            Instruction::LdF { x } => {
                self.i = FONT_START + self.v[x] as u16 * 5;
            },
            _ => {},
        }
        let ghost post = machine(*self, *ram, *display, *keypad);
        assert(step(pre, ins, rnd) == Ok::<Machine, FaultKind>(post));
    }

    /// Executes an instruction that writes memory or the screen.
    fn execute_memory(
        &mut self,
        ins: Instruction,
        ram: &mut Ram,
        display: &mut Display,
        keypad: &Keypad,
    ) -> (r: Result<(), FaultKind>)
        requires
            old(self).wf(),
            ins.wf(),
            2 <= old(self).pc <= RAM_SIZE,
            changes_memory(ins),
        ensures
            final(self).wf(),
            agrees(
                step(machine(*old(self), *old(ram), *old(display), *keypad), ins, 0),
                r,
                machine(*old(self), *old(ram), *old(display), *keypad),
                machine(*final(self), *final(ram), *final(display), *keypad),
            ),
    {
        let ghost pre = machine(*self, *ram, *display, *keypad);
        match ins {
            Instruction::Cls => {
                display.clear();
            },
            Instruction::Drw { x, y, n } => {
                if self.i as usize + n as usize > RAM_SIZE {
                    return Err(FaultKind::AddressOutOfRange);
                }
                self.draw_sprite(x, y, n, ram, display);
            },
            Instruction::LdB { x } => {
                if self.i as usize + 3 > RAM_SIZE {
                    return Err(FaultKind::AddressOutOfRange);
                }
                let val = self.v[x];
                ram.write_byte(self.i, val / 100);
                ram.write_byte(self.i + 1, (val / 10) % 10);
                ram.write_byte(self.i + 2, val % 10);
            },
            Instruction::StoreRegs { x } => {
                if self.i as usize + x + 1 > RAM_SIZE {
                    return Err(FaultKind::AddressOutOfRange);
                }
                self.store_registers(x, ram);
            },
            Instruction::LoadRegs { x } => {
                if self.i as usize + x + 1 > RAM_SIZE {
                    return Err(FaultKind::AddressOutOfRange);
                }
                self.load_registers(x, ram);
            },
            _ => {},
        }
        let ghost post = machine(*self, *ram, *display, *keypad);
        assert(step(pre, ins, 0) == Ok::<Machine, FaultKind>(post));
        Ok(())
    }
}

} // verus!
