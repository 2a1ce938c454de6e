use vstd::prelude::*;
use crate::cpu::{cycle, machine, agrees, Cpu, Fault, Machine, FONT_START, N_REGS, PC_START, STACK_SIZE};
use crate::display::{blank_screen, Display};
use crate::keypad::{Keypad, N_KEYS};
use crate::ram::{with_program, Ram, RomTooLarge, PROGRAM_START, RAM_SIZE};

verus! {

/// Number of bytes in the font: 16 glyphs of 5 bytes.
pub const FONT_LEN: usize = 80;

/// The glyphs of the hex digits 0 to F, 5 rows each, one byte per row.
pub const FONTSET: [u8; FONT_LEN] = [
    0xF0, 0x90, 0x90, 0x90, 0xF0,  // 0
    0x20, 0x60, 0x20, 0x20, 0x70,  // 1
    0xF0, 0x10, 0xF0, 0x80, 0xF0,  // 2
    0xF0, 0x10, 0xF0, 0x10, 0xF0,  // 3
    0x90, 0x90, 0xF0, 0x10, 0x10,  // 4
    0xF0, 0x80, 0xF0, 0x10, 0xF0,  // 5
    0xF0, 0x80, 0xF0, 0x90, 0xF0,  // 6
    0xF0, 0x10, 0x20, 0x40, 0x40,  // 7
    0xF0, 0x90, 0xF0, 0x90, 0xF0,  // 8
    0xF0, 0x90, 0xF0, 0x10, 0xF0,  // 9
    0xF0, 0x90, 0xF0, 0x90, 0x90,  // A
    0xE0, 0x90, 0xE0, 0x90, 0xE0,  // B
    0xF0, 0x80, 0x80, 0x80, 0xF0,  // C
    0xE0, 0x90, 0x90, 0x90, 0xE0,  // D
    0xF0, 0x80, 0xF0, 0x80, 0xF0,  // E
    0xF0, 0x80, 0xF0, 0x80, 0x80,  // F
];

/// Memory at power-on: the font at `FONT_START`, zero elsewhere.
pub open spec fn initial_memory() -> Seq<u8> {
    Seq::new(
        RAM_SIZE as nat,
        |a: int|
            if FONT_START <= a < FONT_START + FONT_LEN {
                FONTSET@[a - FONT_START]
            } else {
                0u8
            },
    )
}

/// The machine at power-on.
pub open spec fn initial_machine() -> Machine {
    Machine {
        v: Seq::new(N_REGS as nat, |k: int| 0u8),
        i: 0,
        pc: PC_START,
        stack: Seq::new(STACK_SIZE as nat, |k: int| 0u16),
        sp: 0,
        delay_timer: 0,
        sound_timer: 0,
        mem: initial_memory(),
        screen: blank_screen(),
        keys: Seq::new(N_KEYS as nat, |k: int| false),
    }
}

/// A timer one tick later: down by one, never below zero.
pub open spec fn timer_after(t: u8) -> u8 {
    if t > 0 {
        (t - 1) as u8
    } else {
        0
    }
}

/// The whole machine: memory, CPU, screen and keypad.
pub struct Bus {
    pub ram: Ram,
    pub cpu: Cpu,
    pub display: Display,
    pub keypad: Keypad,
}

impl Bus {
    /// The machine's state as a mathematical value.
    pub open spec fn model(&self) -> Machine {
        machine(self.cpu, self.ram, self.display, self.keypad)
    }

    /// The CPU is well formed.
    pub open spec fn wf(&self) -> bool {
        self.cpu.wf()
    }

    /// A machine at power-on, with the font loaded.
    pub fn new() -> (r: Bus)
        ensures
            r.wf(),
            r.model() == initial_machine(),
    {
        let mut bus = Bus { ram: Ram::new(), cpu: Cpu::new(), display: Display::new(), keypad: Keypad::new() };
        let mut k: usize = 0;
        while k < FONT_LEN
            invariant
                k <= FONT_LEN,
                bus.cpu.wf(),
                bus.model() == (Machine {
                    mem: bus.ram.mem@,
                    ..initial_machine()
                }),
                bus.ram.mem@.len() == RAM_SIZE,
                forall|a: int|
                    0 <= a < RAM_SIZE ==> #[trigger] bus.ram.mem@[a] == if FONT_START <= a < FONT_START + k {
                        FONTSET@[a - FONT_START]
                    } else {
                        0u8
                    },
            decreases FONT_LEN - k,
        {
            bus.ram.write_byte(FONT_START + k as u16, FONTSET[k]);
            k = k + 1;
        }
        assert(bus.ram.mem@ =~= initial_memory());
        bus
    }

    /// Loads a program at `PROGRAM_START`; fails, changing nothing, when it
    /// does not fit in memory.
    pub fn load_rom(&mut self, rom: &[u8]) -> (r: Result<(), RomTooLarge>)
        ensures
            final(self).cpu == old(self).cpu,
            final(self).display == old(self).display,
            final(self).keypad == old(self).keypad,
            r is Ok <==> PROGRAM_START + rom@.len() <= RAM_SIZE,
            r is Ok ==> final(self).ram.mem@ == with_program(old(self).ram.mem@, rom@),
            r is Err ==> final(self).ram.mem@ == old(self).ram.mem@,
            r matches Err(e) ==> e == (RomTooLarge {
                rom_len: rom@.len() as usize,
                capacity: (RAM_SIZE - PROGRAM_START) as usize,
            }),
    {
        self.ram.write_rom(rom)
    }

    /// Runs one instruction; see `Cpu::tick`.
    pub fn tick_cpu(&mut self) -> (r: Result<(), Fault>)
        requires
            old(self).wf(),
        ensures
            final(self).wf(),
            exists|rnd: u8| agrees(#[trigger] cycle(old(self).model(), rnd), r, old(self).model(), final(self).model()),
    {
        let ghost pre = self.model();
        let r = self.cpu.tick(&mut self.ram, &mut self.display, &mut self.keypad);
        proof {
            let rnd = choose|rnd: u8| agrees(#[trigger] cycle(pre, rnd), r, pre, self.model());
            assert(agrees(cycle(pre, rnd), r, pre, self.model()));
        }
        r
    }

    /// Counts both timers down by one, stopping at zero; run once per frame.
    pub fn tick_timers(&mut self)
        ensures
            final(self).model() == (Machine {
                delay_timer: timer_after(old(self).cpu.delay_timer),
                sound_timer: timer_after(old(self).cpu.sound_timer),
                ..old(self).model()
            }),
            final(self).wf() == old(self).wf(),
    {
        if self.cpu.delay_timer > 0 {
            self.cpu.delay_timer = self.cpu.delay_timer - 1;
        }
        if self.cpu.sound_timer > 0 {
            self.cpu.sound_timer = self.cpu.sound_timer - 1;
        }
    }
}

} // verus!
