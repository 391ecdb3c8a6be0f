use vstd::prelude::*;

use crate::fault::Fault;

verus! {

/// Number of general registers.
pub const REGISTER_COUNT: usize = 16;

/// Index of the general register that carry, borrow, shift-out and collision outcomes land in.
pub const FLAG: usize = 15;

/// Number of return addresses the call stack holds.
pub const STACK_DEPTH: usize = 16;

/// What the stack becomes when `addr` is pushed onto `stack`.
pub open spec fn pushed(stack: Seq<u16>, addr: u16) -> Result<Seq<u16>, Fault> {
    if stack.len() < STACK_DEPTH {
        Ok(stack.push(addr))
    } else {
        Err(Fault::StackOverflow)
    }
}

/// The stack left by a pop from `stack`, and the address popped.
pub open spec fn popped(stack: Seq<u16>) -> Result<(Seq<u16>, u16), Fault> {
    if stack.len() > 0 {
        Ok((stack.drop_last(), stack.last()))
    } else {
        Err(Fault::StackUnderflow)
    }
}

/// The contents of a register file, as plain values.
pub struct RegisterView {
    pub v: Seq<u8>,
    pub index: u16,
    pub pc: u16,
    pub stack: Seq<u16>,
}

/// Sixteen 8-bit general registers, the index register, the program counter
/// and the call stack.
pub struct Registers {
    v: Vec<u8>,
    index: u16,
    pc: u16,
    stack: Vec<u16>,
}

impl View for Registers {
    type V = RegisterView;

    closed spec fn view(&self) -> RegisterView {
        RegisterView { v: self.v@, index: self.index, pc: self.pc, stack: self.stack@ }
    }
}

impl RegisterView {
    pub open spec fn wf(&self) -> bool {
        &&& self.v.len() == REGISTER_COUNT
        &&& self.index < 4096
        &&& self.pc < 4096
        &&& self.stack.len() <= STACK_DEPTH
    }
}

impl Registers {
    /// Zeroed registers, an empty stack and the program counter at `pc` masked to 12 bits.
    pub fn new(pc: u16) -> (r: Registers)
        ensures
            r@.wf(),
            r@.v == Seq::new(REGISTER_COUNT as nat, |k: int| 0u8),
            r@.index == 0,
            r@.pc == pc % 4096,
            r@.stack == Seq::<u16>::empty(),
    {
        let mut v: Vec<u8> = Vec::new();
        let mut k: usize = 0;
        while k < REGISTER_COUNT
            invariant
                k <= REGISTER_COUNT,
                v@.len() == k,
                forall|j: int| 0 <= j < k ==> v@[j] == 0u8,
            decreases REGISTER_COUNT - k,
        {
            v.push(0);
            k = k + 1;
        }
        let r = Registers { v, index: 0, pc: pc % 4096, stack: Vec::new() };
        assert(r@.v =~= Seq::new(REGISTER_COUNT as nat, |k: int| 0u8));
        r
    }

    /// General register `x`; fails with `InvalidRegister` where `x` is not below 16.
    pub fn get(&self, x: u8) -> (r: Result<u8, Fault>)
        requires
            self@.wf(),
        ensures
            x < REGISTER_COUNT ==> r == Ok::<u8, Fault>(self@.v[x as int]),
            x >= REGISTER_COUNT ==> r == Err::<u8, Fault>(Fault::InvalidRegister { index: x }),
    {
        if x as usize >= REGISTER_COUNT {
            return Err(Fault::InvalidRegister { index: x });
        }
        Ok(self.v[x as usize])
    }

    /// Sets general register `x`; fails with `InvalidRegister` where `x` is not below 16.
    pub fn set(&mut self, x: u8, value: u8) -> (r: Result<(), Fault>)
        requires
            old(self)@.wf(),
        ensures
            final(self)@.wf(),
            x < REGISTER_COUNT ==> r is Ok && final(self)@ == (RegisterView {
                v: old(self)@.v.update(x as int, value),
                ..old(self)@
            }),
            x >= REGISTER_COUNT ==> r == Err::<(), Fault>(Fault::InvalidRegister { index: x })
                && final(self)@ == old(self)@,
    {
        if x as usize >= REGISTER_COUNT {
            return Err(Fault::InvalidRegister { index: x });
        }
        self.v.set(x as usize, value);
        Ok(())
    }

    pub(crate) fn reg(&self, x: usize) -> (r: u8)
        requires
            self@.wf(),
            x < REGISTER_COUNT,
        ensures
            r == self@.v[x as int],
    {
        self.v[x]
    }

    pub(crate) fn set_reg(&mut self, x: usize, value: u8)
        requires
            old(self)@.wf(),
            x < REGISTER_COUNT,
        ensures
            final(self)@ == (RegisterView { v: old(self)@.v.update(x as int, value), ..old(self)@ }),
    {
        self.v.set(x, value);
    }

    /// The index register.
    pub fn index(&self) -> (r: u16)
        ensures
            r == self@.index,
    {
        self.index
    }

    /// Sets the index register to `value` masked to 12 bits.
    pub fn set_index(&mut self, value: u16)
        ensures
            final(self)@ == (RegisterView { index: value % 4096, ..old(self)@ }),
    {
        self.index = value % 4096;
    }

    /// The program counter.
    pub fn pc(&self) -> (r: u16)
        ensures
            r == self@.pc,
    {
        self.pc
    }

    /// Sets the program counter to `addr` masked to 12 bits.
    pub fn set_pc(&mut self, addr: u16)
        ensures
            final(self)@ == (RegisterView { pc: addr % 4096, ..old(self)@ }),
    {
        self.pc = addr % 4096;
    }

    /// Moves the program counter `by` bytes forward, wrapping within the 12-bit address space.
    pub fn advance_pc(&mut self, by: u16)
        ensures
            final(self)@ == (RegisterView { pc: ((old(self)@.pc + by) % 4096) as u16, ..old(self)@ }),
    {
        self.pc = ((self.pc as u32 + by as u32) % 4096) as u16;
    }

    /// Number of return addresses on the stack.
    pub fn depth(&self) -> (r: u8)
        requires
            self@.wf(),
        ensures
            r == self@.stack.len(),
    {
        self.stack.len() as u8
    }

    /// Pushes a return address; fails with `StackOverflow` where all sixteen slots are in use.
    pub fn push(&mut self, addr: u16) -> (r: Result<(), Fault>)
        requires
            old(self)@.wf(),
        ensures
            final(self)@.wf(),
            match pushed(old(self)@.stack, addr) {
                Ok(s) => r is Ok && final(self)@ == (RegisterView { stack: s, ..old(self)@ }),
                Err(e) => r == Err::<(), Fault>(e) && final(self)@ == old(self)@,
            },
    {
        if self.stack.len() >= STACK_DEPTH {
            return Err(Fault::StackOverflow);
        }
        self.stack.push(addr);
        Ok(())
    }

    /// Removes and returns the top return address; fails with `StackUnderflow` on an empty stack.
    pub fn pop(&mut self) -> (r: Result<u16, Fault>)
        requires
            old(self)@.wf(),
        ensures
            final(self)@.wf(),
            match popped(old(self)@.stack) {
                Ok((s, a)) => r == Ok::<u16, Fault>(a) && final(self)@ == (RegisterView { stack: s, ..old(self)@ }),
                Err(e) => r == Err::<u16, Fault>(e) && final(self)@ == old(self)@,
            },
    {
        match self.stack.pop() {
            Some(a) => Ok(a),
            None => Err(Fault::StackUnderflow),
        }
    }
}

} // verus!
