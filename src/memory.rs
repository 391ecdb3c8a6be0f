use vstd::prelude::*;

use crate::fault::Fault;

verus! {

/// Number of addressable bytes: a 12-bit address space.
pub const MEMORY_SIZE: usize = 4096;

/// Offset at which a program is placed; bytes below it are reserved.
pub const LOAD_BASE: u16 = 0x200;

/// The address that `addr` names once masked to 12 bits.
pub open spec fn masked(addr: int) -> int {
    addr % 4096
}

/// Big-endian value of two bytes.
pub open spec fn word_of(hi: u8, lo: u8) -> u16 {
    (hi as int * 256 + lo as int) as u16
}

/// Relies on byteorder's `BigEndian::read_u16`: the first byte is the high one.
#[verifier::external_body]
fn be_word(hi: u8, lo: u8) -> (r: u16)
    ensures
        r == word_of(hi, lo),
{
    <byteorder::BigEndian as byteorder::ByteOrder>::read_u16(&[hi, lo])
}

/// A flat store of `MEMORY_SIZE` bytes.
pub struct Memory {
    bytes: Vec<u8>,
}

impl View for Memory {
    type V = Seq<u8>;

    closed spec fn view(&self) -> Seq<u8> {
        self.bytes@
    }
}

impl Memory {
    pub open spec fn wf(&self) -> bool {
        self@.len() == MEMORY_SIZE
    }

    /// What a memory loaded with `rom` holds: `rom` at the load base, zero elsewhere.
    pub open spec fn loaded(rom: Seq<u8>) -> Seq<u8> {
        Seq::new(
            MEMORY_SIZE as nat,
            |a: int|
                if LOAD_BASE <= a < LOAD_BASE + rom.len() {
                    rom[a - LOAD_BASE]
                } else {
                    0u8
                },
        )
    }

    /// Memory holding `rom` at the load base; fails with `InvalidRom` where
    /// `rom` is empty or does not fit.
    pub fn load(rom: &[u8]) -> (r: Result<Memory, Fault>)
        ensures
            (rom@.len() == 0 || rom@.len() > MEMORY_SIZE - LOAD_BASE) <==> r == Err::<Memory, Fault>(Fault::InvalidRom),
            0 < rom@.len() <= MEMORY_SIZE - LOAD_BASE ==> r is Ok,
            r matches Ok(m) ==> m.wf() && m@ == Self::loaded(rom@),
    {
        if rom.len() == 0 || rom.len() > MEMORY_SIZE - LOAD_BASE as usize {
            return Err(Fault::InvalidRom);
        }
        let mut bytes: Vec<u8> = Vec::new();
        let mut a: usize = 0;
        while a < MEMORY_SIZE
            invariant
                0 < rom@.len() <= MEMORY_SIZE - LOAD_BASE,
                a <= MEMORY_SIZE,
                bytes@.len() == a,
                forall|k: int| 0 <= k < a ==> bytes@[k] == #[trigger] Self::loaded(rom@)[k],
            decreases MEMORY_SIZE - a,
        {
            if a >= LOAD_BASE as usize && a < LOAD_BASE as usize + rom.len() {
                bytes.push(rom[a - LOAD_BASE as usize]);
            } else {
                bytes.push(0);
            }
            a = a + 1;
        }
        let m = Memory { bytes };
        assert(m@ =~= Self::loaded(rom@));
        Ok(m)
    }

    /// The byte at `addr` masked to 12 bits.
    pub fn read_byte(&self, addr: u16) -> (r: u8)
        requires
            self.wf(),
        ensures
            r == self@[masked(addr as int)],
    {
        let a = addr as usize % MEMORY_SIZE;
        self.bytes[a]
    }

    /// The big-endian word at `addr` and the byte after it, both masked to 12 bits.
    pub fn read_word(&self, addr: u16) -> (r: u16)
        requires
            self.wf(),
        ensures
            r == word_of(self@[masked(addr as int)], self@[masked(addr + 1)]),
    {
        let hi = self.read_byte(addr);
        let lo = self.bytes[(addr as usize + 1) % MEMORY_SIZE];
        be_word(hi, lo)
    }

    /// Stores `value` at `addr` masked to 12 bits; fails with `MemoryFault`
    /// where that address lies below the load base.
    pub fn write_byte(&mut self, addr: u16, value: u8) -> (r: Result<(), Fault>)
        requires
            old(self).wf(),
        ensures
            final(self).wf(),
            masked(addr as int) < LOAD_BASE ==> r == Err::<(), Fault>(Fault::MemoryFault { addr })
                && final(self)@ == old(self)@,
            masked(addr as int) >= LOAD_BASE ==> r is Ok
                && final(self)@ == old(self)@.update(masked(addr as int), value),
    {
        let a = addr as usize % MEMORY_SIZE;
        if a < LOAD_BASE as usize {
            return Err(Fault::MemoryFault { addr });
        }
        self.bytes.set(a, value);
        Ok(())
    }
}

} // verus!
