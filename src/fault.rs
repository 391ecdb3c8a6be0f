use vstd::prelude::*;

verus! {

/// Why the machine could not load a program or execute an instruction.
#[derive(Clone, Copy, Debug, PartialEq, Eq, Structural)]
pub enum Fault {
    /// The program image is empty or does not fit above the load base.
    InvalidRom,
    /// A write aimed below the load base; `addr` is where the write, or the
    /// block of writes, begins.
    MemoryFault { addr: u16 },
    /// A call with all sixteen return slots in use.
    StackOverflow,
    /// A return with no return address on the stack.
    StackUnderflow,
    /// A general register index outside `0..16`.
    InvalidRegister { index: u8 },
    /// An instruction word that names no operation, with the program counter it was fetched from.
    UnimplementedOpcode { word: u16, pc: u16 },
}

} // verus!
