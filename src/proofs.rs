//! Properties of the instruction semantics that relate several values or
//! several steps, proved from the model in `cpu`.
use vstd::prelude::*;
use crate::cpu::{sprite_covers, step, FaultKind, Machine, FONT_START, STACK_SIZE, VF};
use crate::display::N_PIXELS;
use crate::instruction::Instruction;
use crate::ram::RAM_SIZE;

verus! {

/// `ADD Vx, Vy` sets the flag register to 1 exactly when the 8-bit sum
/// overflows, and leaves the sum modulo 256 in `Vx` (unless `Vx` is the flag).
pub proof fn add_sets_carry(m: Machine, x: usize, y: usize, rnd: u8)
    requires
        m.wf(),
        x < 16,
        y < 16,
    ensures
        step(m, Instruction::AddReg { x, y }, rnd) is Ok,
        step(m, Instruction::AddReg { x, y }, rnd)->Ok_0.v[VF as int] == if m.v[x as int] + m.v[y as int] > 255 {
            1u8
        } else {
            0u8
        },
        x != VF ==> step(m, Instruction::AddReg { x, y }, rnd)->Ok_0.v[x as int] == (m.v[x as int]
            + m.v[y as int]) % 256,
{
}

/// `SUB Vx, Vy` and `SUBN Vx, Vy` set the flag register to 1 exactly when
/// no borrow occurs (minuend at least the subtrahend), and leave the
/// difference modulo 256 in `Vx` (unless `Vx` is the flag).
pub proof fn sub_sets_no_borrow(m: Machine, x: usize, y: usize, rnd: u8)
    requires
        m.wf(),
        x < 16,
        y < 16,
    ensures
        step(m, Instruction::Sub { x, y }, rnd) is Ok,
        step(m, Instruction::Sub { x, y }, rnd)->Ok_0.v[VF as int] == if m.v[x as int] >= m.v[y as int] {
            1u8
        } else {
            0u8
        },
        x != VF ==> step(m, Instruction::Sub { x, y }, rnd)->Ok_0.v[x as int] == (m.v[x as int]
            - m.v[y as int] + 256) % 256,
        step(m, Instruction::SubN { x, y }, rnd) is Ok,
        step(m, Instruction::SubN { x, y }, rnd)->Ok_0.v[VF as int] == if m.v[y as int] >= m.v[x as int] {
            1u8
        } else {
            0u8
        },
        x != VF ==> step(m, Instruction::SubN { x, y }, rnd)->Ok_0.v[x as int] == (m.v[y as int]
            - m.v[x as int] + 256) % 256,
{
}

/// The shifts overwrite the flag register with exactly the bit shifted out
/// (bit 0 for a right shift, bit 7 for a left shift), for every value and
/// every register, and leave the shifted value in `Vx` (unless `Vx` is the flag).
pub proof fn shifts_set_shifted_bit(m: Machine, x: usize, rnd: u8)
    requires
        m.wf(),
        x < 16,
    ensures
        step(m, Instruction::Shr { x }, rnd) is Ok,
        step(m, Instruction::Shr { x }, rnd)->Ok_0.v[VF as int] == m.v[x as int] & 1,
        x != VF ==> step(m, Instruction::Shr { x }, rnd)->Ok_0.v[x as int] == m.v[x as int] >> 1u8,
        step(m, Instruction::Shl { x }, rnd) is Ok,
        step(m, Instruction::Shl { x }, rnd)->Ok_0.v[VF as int] == (m.v[x as int] >> 7u8) & 1,
        x != VF ==> step(m, Instruction::Shl { x }, rnd)->Ok_0.v[x as int] == m.v[x as int] << 1u8,
{
    let b = m.v[x as int];
    assert(b % 2 == b & 1 && b / 2 == b >> 1u8 && b / 128 == (b >> 7u8) & 1 && ((b * 2) % 256) as u8 == b
        << 1u8) by (bit_vector);
}

/// Drawing the same sprite twice at the same place restores the screen; the
/// second draw reports a collision exactly when the sprite lights a pixel
/// that was off before the first.
pub proof fn draw_twice_restores(m: Machine, x: usize, y: usize, n: u8, rnd: u8)
    requires
        m.wf(),
        x < 16,
        y < 16,
        x != VF,
        y != VF,
        n < 16,
        m.i + n <= RAM_SIZE,
    ensures
        step(m, Instruction::Drw { x, y, n }, rnd) is Ok,
        step(step(m, Instruction::Drw { x, y, n }, rnd)->Ok_0, Instruction::Drw { x, y, n }, rnd) is Ok,
        step(step(m, Instruction::Drw { x, y, n }, rnd)->Ok_0, Instruction::Drw { x, y, n }, rnd)->Ok_0.screen
            == m.screen,
        step(step(m, Instruction::Drw { x, y, n }, rnd)->Ok_0, Instruction::Drw { x, y, n }, rnd)->Ok_0.v[VF as int]
            == 1 <==> exists|p: int|
            0 <= p < N_PIXELS && #[trigger] sprite_covers(m.mem, m.i, m.v[x as int], m.v[y as int], n, p)
                && !m.screen[p],
{
    let ins = Instruction::Drw { x, y, n };
    let once = step(m, ins, rnd)->Ok_0;
    let twice = step(once, ins, rnd)->Ok_0;
    let (vx, vy) = (m.v[x as int], m.v[y as int]);
    assert(once.v[x as int] == vx && once.v[y as int] == vy);
    assert(twice.screen =~= m.screen);
    if twice.v[VF as int] == 1 {
        let p = choose|p: int|
            0 <= p < N_PIXELS && #[trigger] sprite_covers(once.mem, once.i, vx, vy, n, p) && once.screen[p];
        assert(sprite_covers(m.mem, m.i, vx, vy, n, p) && !m.screen[p]);
    }
    if exists|p: int|
        0 <= p < N_PIXELS && #[trigger] sprite_covers(m.mem, m.i, vx, vy, n, p) && !m.screen[p] {
        let p = choose|p: int|
            0 <= p < N_PIXELS && #[trigger] sprite_covers(m.mem, m.i, vx, vy, n, p) && !m.screen[p];
        assert(sprite_covers(once.mem, once.i, vx, vy, n, p) && once.screen[p]);
    }
}

/// Drawing a second sprite that shares a lit pixel with the first (a pixel
/// that was off before both) sets the flag register to 1.
pub proof fn overlapping_sprites_collide(
    m: Machine,
    xa: usize,
    ya: usize,
    na: u8,
    xb: usize,
    yb: usize,
    nb: u8,
    p: int,
    rnd: u8,
)
    requires
        m.wf(),
        xa < 16,
        ya < 16,
        xb < 16,
        yb < 16,
        xb != VF,
        yb != VF,
        na < 16,
        nb < 16,
        m.i + na <= RAM_SIZE,
        m.i + nb <= RAM_SIZE,
        0 <= p < N_PIXELS,
        !m.screen[p],
        sprite_covers(m.mem, m.i, m.v[xa as int], m.v[ya as int], na, p),
        sprite_covers(m.mem, m.i, m.v[xb as int], m.v[yb as int], nb, p),
    ensures
        step(m, Instruction::Drw { x: xa, y: ya, n: na }, rnd) is Ok,
        step(step(m, Instruction::Drw { x: xa, y: ya, n: na }, rnd)->Ok_0, Instruction::Drw { x: xb, y: yb, n: nb }, rnd) is Ok,
        step(step(m, Instruction::Drw { x: xa, y: ya, n: na }, rnd)->Ok_0, Instruction::Drw { x: xb, y: yb, n: nb }, rnd)->Ok_0.v[VF as int]
            == 1,
{
    let once = step(m, Instruction::Drw { x: xa, y: ya, n: na }, rnd)->Ok_0;
    assert(once.v[xb as int] == m.v[xb as int] && once.v[yb as int] == m.v[yb as int]);
    assert(once.screen[p]);
    assert(sprite_covers(once.mem, once.i, once.v[xb as int], once.v[yb as int], nb, p));
}

/// `k` calls in a row to `addr`, stopping at the first fault.
pub open spec fn repeated_calls(m: Machine, addr: u16, k: nat) -> Result<Machine, FaultKind>
    decreases k,
{
    if k == 0 {
        Ok(m)
    } else {
        match repeated_calls(m, addr, (k - 1) as nat) {
            Ok(prev) => step(prev, Instruction::Call { addr }, 0),
            Err(e) => Err(e),
        }
    }
}

/// From an empty stack, the first `k <= 16` nested calls succeed and leave
/// `k` return addresses on the stack.
pub proof fn nested_calls_fit(m: Machine, addr: u16, k: nat)
    requires
        m.wf(),
        m.sp == 0,
        k <= STACK_SIZE,
    ensures
        repeated_calls(m, addr, k) is Ok,
        repeated_calls(m, addr, k)->Ok_0.wf(),
        repeated_calls(m, addr, k)->Ok_0.sp == k,
    decreases k,
{
    if k > 0 {
        nested_calls_fit(m, addr, (k - 1) as nat);
    }
}

/// The stack holds 16 return addresses: from an empty stack the 17th nested
/// call is a stack overflow; a return with an empty stack is a stack underflow.
pub proof fn stack_bounds(m: Machine, addr: u16, rnd: u8)
    requires
        m.wf(),
        m.sp == 0,
    ensures
        repeated_calls(m, addr, (STACK_SIZE + 1) as nat) == Err::<Machine, FaultKind>(FaultKind::StackOverflow),
        step(m, Instruction::Ret, rnd) == Err::<Machine, FaultKind>(FaultKind::StackUnderflow),
{
    nested_calls_fit(m, addr, STACK_SIZE as nat);
}

/// `LD B, Vx` stores the hundreds, tens and units digits of `Vx` at `I`,
/// `I + 1` and `I + 2`, and they make up `Vx` again.
pub proof fn bcd_digits(m: Machine, x: usize, rnd: u8)
    requires
        m.wf(),
        x < 16,
        m.i + 3 <= RAM_SIZE,
    ensures
        step(m, Instruction::LdB { x }, rnd) is Ok,
        ({
            let mem = step(m, Instruction::LdB { x }, rnd)->Ok_0.mem;
            let i = m.i as int;
            &&& mem[i] < 10 && mem[i + 1] < 10 && mem[i + 2] < 10
            &&& mem[i] * 100 + mem[i + 1] * 10 + mem[i + 2] == m.v[x as int]
            &&& forall|a: int| 0 <= a < RAM_SIZE && (a < i || a > i + 2) ==> mem[a] == m.mem[a]
        }),
{
    let v = m.v[x as int];
    assert(v / 100 < 10 && (v / 10) % 10 < 10 && v % 10 < 10 && (v / 100) * 100 + ((v / 10) % 10) * 10 + v % 10
        == v) by (nonlinear_arith)
        requires
            0 <= v < 256,
    ;
}

/// `LD [I], Vx` copies registers `0..=x` (x + 1 of them) to `I..=I + x` and no
/// other byte; `LD Vx, [I]` copies them back into registers `0..=x` and no other.
pub proof fn block_transfer_inclusive(m: Machine, x: usize, rnd: u8)
    requires
        m.wf(),
        x < 16,
        m.i + x < RAM_SIZE,
    ensures
        step(m, Instruction::StoreRegs { x }, rnd) is Ok,
        forall|r: int|
            0 <= r <= x ==> #[trigger] step(m, Instruction::StoreRegs { x }, rnd)->Ok_0.mem[m.i + r] == m.v[r],
        forall|a: int|
            0 <= a < RAM_SIZE && (a < m.i || a > m.i + x) ==> #[trigger] step(
                m,
                Instruction::StoreRegs { x },
                rnd,
            )->Ok_0.mem[a] == m.mem[a],
        step(m, Instruction::LoadRegs { x }, rnd) is Ok,
        forall|r: int|
            0 <= r <= x ==> #[trigger] step(m, Instruction::LoadRegs { x }, rnd)->Ok_0.v[r] == m.mem[m.i + r],
        forall|r: int|
            x < r < 16 ==> #[trigger] step(m, Instruction::LoadRegs { x }, rnd)->Ok_0.v[r] == m.v[r],
{
}

/// `LD F, Vx` points `I` at `FONT_START + 5 * Vx`; for a hex digit that is
/// the digit's five-byte glyph, inside the font.
pub proof fn font_address(m: Machine, x: usize, rnd: u8)
    requires
        m.wf(),
        x < 16,
    ensures
        step(m, Instruction::LdF { x }, rnd) is Ok,
        step(m, Instruction::LdF { x }, rnd)->Ok_0.i == FONT_START + 5 * m.v[x as int],
        m.v[x as int] < 16 ==> step(m, Instruction::LdF { x }, rnd)->Ok_0.i + 5 <= FONT_START + 80,
{
}

} // verus!
