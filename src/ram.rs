use vstd::prelude::*;

verus! {

/// Number of addressable bytes.
pub const RAM_SIZE: usize = 4096;

/// Address at which programs are loaded.
pub const PROGRAM_START: usize = 0x200;

/// The program did not fit between `PROGRAM_START` and the end of memory.
#[derive(Debug, Clone, Copy, PartialEq, Eq, Structural)]
pub struct RomTooLarge {
    /// Length of the rejected program, in bytes.
    pub rom_len: usize,
    /// Room available for programs, in bytes.
    pub capacity: usize,
}

/// Flat, byte-addressed memory of `RAM_SIZE` bytes.
pub struct Ram {
    pub mem: [u8; RAM_SIZE],
}

/// Memory after copying `rom` at `PROGRAM_START`, everything else kept.
pub open spec fn with_program(mem: Seq<u8>, rom: Seq<u8>) -> Seq<u8> {
    Seq::new(
        mem.len(),
        |a: int|
            if PROGRAM_START <= a < PROGRAM_START + rom.len() {
                rom[a - PROGRAM_START]
            } else {
                mem[a]
            },
    )
}

impl Ram {
    /// Memory with every byte zero.
    pub fn new() -> (r: Ram)
        ensures
            r.mem@ == Seq::new(RAM_SIZE as nat, |a: int| 0u8),
    {
        let r = Ram { mem: [0u8; RAM_SIZE] };
        assert(r.mem@ =~= Seq::new(RAM_SIZE as nat, |a: int| 0u8));
        r
    }

    /// Stores `byte` at `addr`.
    pub fn write_byte(&mut self, addr: u16, byte: u8)
        requires
            addr < RAM_SIZE,
        ensures
            final(self).mem@ == old(self).mem@.update(addr as int, byte),
    {
        self.mem[addr as usize] = byte;
    }

    /// The byte at `addr`.
    pub fn read_byte(&self, addr: u16) -> (r: u8)
        requires
            addr < RAM_SIZE,
        ensures
            r == self.mem@[addr as int],
    {
        self.mem[addr as usize]
    }

    /// Copies `rom` to memory from `PROGRAM_START` on; fails, leaving memory
    /// as it was, when it does not fit.
    pub fn write_rom(&mut self, rom: &[u8]) -> (r: Result<(), RomTooLarge>)
        ensures
            r is Ok <==> PROGRAM_START + rom@.len() <= RAM_SIZE,
            r is Ok ==> final(self).mem@ == with_program(old(self).mem@, rom@),
            r is Err ==> final(self).mem@ == old(self).mem@,
            r matches Err(e) ==> e == (RomTooLarge {
                rom_len: rom@.len() as usize,
                capacity: (RAM_SIZE - PROGRAM_START) as usize,
            }),
    {
        if rom.len() > RAM_SIZE - PROGRAM_START {
            return Err(RomTooLarge { rom_len: rom.len(), capacity: RAM_SIZE - PROGRAM_START });
        }
        let mut k: usize = 0;
        while k < rom.len()
            invariant
                k <= rom@.len(),
                PROGRAM_START + rom@.len() <= RAM_SIZE,
                self.mem@.len() == RAM_SIZE,
                forall|a: int|
                    0 <= a < RAM_SIZE ==> #[trigger] self.mem@[a] == if PROGRAM_START <= a
                        < PROGRAM_START + k {
                        rom@[a - PROGRAM_START]
                    } else {
                        old(self).mem@[a]
                    },
            decreases rom@.len() - k,
        {
            self.mem[PROGRAM_START + k] = rom[k];
            k = k + 1;
        }
        assert(self.mem@ =~= with_program(old(self).mem@, rom@));
        Ok(())
    }
}

} // verus!
