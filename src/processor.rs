use vstd::prelude::*;

use crate::fault::Fault;
use crate::instruction::Instruction;
use crate::machine::{
    advanced, alu, alu_executed, cycled, executed, fetched, follows, key_down, key_pressed, misc_executed,
    skipped, stepped, ticked, with_reg, Effect, Input, Mode, State, DIGIT_SPRITE_LEN, FONT_BASE,
};
use crate::memory::{Memory, LOAD_BASE, MEMORY_SIZE};
use crate::registers::{RegisterView, Registers, FLAG};
use crate::timers::Timers;

verus! {

/// Executable form of `alu`.
fn alu_apply(n: u8, a: u8, b: u8) -> (r: Option<(u8, Option<u8>)>)
    ensures
        r == alu(n, a, b),
{
    if n == 0 {
        Some((b, None))
    } else if n == 1 {
        Some((a | b, None))
    } else if n == 2 {
        Some((a & b, None))
    } else if n == 3 {
        Some((a ^ b, None))
    } else if n == 4 {
        let sum = a as u16 + b as u16;
        Some(((sum % 256) as u8, Some(if sum > 255 { 1u8 } else { 0u8 })))
    } else if n == 5 {
        Some((((a as u16 + 256 - b as u16) % 256) as u8, Some(if a >= b { 1u8 } else { 0u8 })))
    } else if n == 6 {
        Some((a / 2, Some(a % 2)))
    } else if n == 7 {
        Some((((b as u16 + 256 - a as u16) % 256) as u8, Some(if b >= a { 1u8 } else { 0u8 })))
    } else if n == 0xE {
        Some((((a as u16 * 2) % 256) as u8, Some(a / 128)))
    } else {
        None
    }
}

/// Whether key `k` is held in the bit set `keys`.
pub fn is_key_down(keys: u16, k: u8) -> (r: bool)
    ensures
        r == key_down(keys, k),
{
    k < 16 && (keys >> (k as u16)) & 1u16 == 1u16
}

/// The machine: memory, registers, timers and whether the instruction clock runs.
pub struct Processor {
    memory: Memory,
    regs: Registers,
    timers: Timers,
    mode: Mode,
}

impl View for Processor {
    type V = State;

    closed spec fn view(&self) -> State {
        State { memory: self.memory@, regs: self.regs@, timers: self.timers, mode: self.mode }
    }
}

impl Processor {
    pub open spec fn wf(&self) -> bool {
        self@.wf()
    }

    /// The state right after loading `rom`.
    pub open spec fn initial(rom: Seq<u8>) -> State {
        State {
            memory: Memory::loaded(rom),
            regs: RegisterView {
                v: Seq::new(16, |k: int| 0u8),
                index: 0,
                pc: LOAD_BASE,
                stack: Seq::empty(),
            },
            timers: Timers { delay: 0, sound: 0 },
            mode: Mode::Running,
        }
    }

    /// A machine with `rom` loaded at the load base, registers and timers at
    /// zero and the program counter at the load base. Fails with `InvalidRom`
    /// where `rom` is empty or does not fit above the load base.
    pub fn new(rom: &[u8]) -> (r: Result<Processor, Fault>)
        ensures
            (rom@.len() == 0 || rom@.len() > MEMORY_SIZE - LOAD_BASE) <==> r == Err::<Processor, Fault>(Fault::InvalidRom),
            0 < rom@.len() <= MEMORY_SIZE - LOAD_BASE ==> r is Ok,
            r matches Ok(p) ==> p.wf() && p@ == Self::initial(rom@),
    {
        match Memory::load(rom) {
            Ok(memory) => {
                let regs = Registers::new(LOAD_BASE);
                Ok(Processor { memory, regs, timers: Timers::new(), mode: Mode::Running })
            },
            Err(f) => Err(f),
        }
    }

    /// Moves the program counter to the next instruction, two bytes on.
    pub fn increment_pc(&mut self)
        requires
            old(self).wf(),
        ensures
            final(self).wf(),
            final(self)@ == advanced(old(self)@, 2),
    {
        self.regs.advance_pc(2);
    }

    fn skip_if(&mut self, cond: bool)
        requires
            old(self).wf(),
        ensures
            final(self).wf(),
            final(self)@ == skipped(old(self)@, cond),
    {
        if cond {
            self.regs.advance_pc(4);
        } else {
            self.regs.advance_pc(2);
        }
    }

    /// Stores `V0..=Vx` at the index register onwards; the caller has checked
    /// that all those addresses lie above the load base.
    fn store_registers(&mut self, x: u8)
        requires
            old(self).wf(),
            x < 16,
            LOAD_BASE <= old(self)@.regs.index,
            old(self)@.regs.index + x < 4096,
        ensures
            final(self).wf(),
            final(self)@ == (State {
                memory: Seq::new(
                    4096,
                    |a: int|
                        if old(self)@.regs.index <= a <= old(self)@.regs.index + x {
                            old(self)@.regs.v[a - old(self)@.regs.index]
                        } else {
                            old(self)@.memory[a]
                        },
                ),
                ..old(self)@
            }),
    {
        let i = self.regs.index();
        let ghost s0 = self@;
        let mut k: u8 = 0;
        while k <= x
            invariant
                s0.wf(),
                s0.regs.index == i,
                LOAD_BASE <= i,
                i + x < 4096,
                x < 16,
                k <= x + 1,
                self.wf(),
                self.regs@ == s0.regs,
                self.timers == s0.timers,
                self.mode == s0.mode,
                forall|a: int|
                    0 <= a < 4096 ==> #[trigger] self.memory@[a] == if i <= a < i + k {
                        s0.regs.v[a - i]
                    } else {
                        s0.memory[a]
                    },
            decreases x + 1 - k,
        {
            let value = self.regs.reg(k as usize);
            let _ = self.memory.write_byte(i + k as u16, value);
            k = k + 1;
        }
        let ghost m = Seq::new(
            4096,
            |a: int|
                if i <= a <= i + x {
                    s0.regs.v[a - i]
                } else {
                    s0.memory[a]
                },
        );
        assert(self.memory@ =~= m);
    }

    /// Loads `V0..=Vx` from the index register onwards, addresses masked to 12 bits.
    fn load_registers(&mut self, x: u8)
        requires
            old(self).wf(),
            x < 16,
        ensures
            final(self).wf(),
            final(self)@ == (State {
                regs: RegisterView {
                    v: Seq::new(
                        16,
                        |r: int|
                            if r <= x {
                                old(self)@.memory[(old(self)@.regs.index + r) % 4096]
                            } else {
                                old(self)@.regs.v[r]
                            },
                    ),
                    ..old(self)@.regs
                },
                ..old(self)@
            }),
    {
        let i = self.regs.index();
        let ghost s0 = self@;
        let mut k: u8 = 0;
        while k <= x
            invariant
                s0.wf(),
                s0.regs.index == i,
                x < 16,
                k <= x + 1,
                self.wf(),
                self.memory@ == s0.memory,
                self.regs@ == (RegisterView { v: self.regs@.v, ..s0.regs }),
                self.timers == s0.timers,
                self.mode == s0.mode,
                forall|r: int|
                    0 <= r < 16 ==> #[trigger] self.regs@.v[r] == if r < k {
                        s0.memory[(i + r) % 4096]
                    } else {
                        s0.regs.v[r]
                    },
            decreases x + 1 - k,
        {
            let value = self.memory.read_byte(i + k as u16);
            self.regs.set_reg(k as usize, value);
            k = k + 1;
        }
        let ghost w = Seq::new(
            16,
            |r: int|
                if r <= x {
                    s0.memory[(i + r) % 4096]
                } else {
                    s0.regs.v[r]
                },
        );
        assert(self.regs@.v =~= w);
    }

    /// Executes an `Fxnn` word.
    fn execute_misc(&mut self, x: u8, nn: u8, word: u16) -> (r: Result<Effect, Fault>)
        requires
            old(self).wf(),
            x < 16,
        ensures
            final(self).wf(),
            follows(old(self)@, final(self)@, r, misc_executed(old(self)@, x, nn, word)),
    {
        let vx = self.regs.reg(x as usize);
        let i = self.regs.index();
        if nn == 0x07 {
            self.regs.set_reg(x as usize, self.timers.delay);
            self.regs.advance_pc(2);
            Ok(Effect::Nothing)
        } else if nn == 0x0A {
            self.mode = Mode::AwaitingKey { x };
            Ok(Effect::AwaitingKey)
        } else if nn == 0x15 {
            self.timers.delay = vx;
            self.regs.advance_pc(2);
            Ok(Effect::Nothing)
        } else if nn == 0x18 {
            let before = self.timers.sound;
            self.timers.sound = vx;
            self.regs.advance_pc(2);
            if (before > 0) != (vx > 0) {
                Ok(Effect::Tone { active: vx > 0 })
            } else {
                Ok(Effect::Nothing)
            }
        } else if nn == 0x1E {
            self.regs.set_index(i + vx as u16);
            self.regs.advance_pc(2);
            Ok(Effect::Nothing)
        } else if nn == 0x29 {
            self.regs.set_index(FONT_BASE + (vx as u16 % 16) * DIGIT_SPRITE_LEN);
            self.regs.advance_pc(2);
            Ok(Effect::Nothing)
        } else if nn == 0x33 {
            if LOAD_BASE <= i && i + 2 < 4096 {
                let _ = self.memory.write_byte(i, vx / 100);
                let _ = self.memory.write_byte(i + 1, (vx / 10) % 10);
                let _ = self.memory.write_byte(i + 2, vx % 10);
                self.regs.advance_pc(2);
                Ok(Effect::Nothing)
            } else {
                Err(Fault::MemoryFault { addr: i })
            }
        } else if nn == 0x55 {
            if LOAD_BASE <= i && i + (x as u16) < 4096 {
                self.store_registers(x);
                self.regs.advance_pc(2);
                Ok(Effect::Nothing)
            } else {
                Err(Fault::MemoryFault { addr: i })
            }
        } else if nn == 0x65 {
            self.load_registers(x);
            self.regs.advance_pc(2);
            Ok(Effect::Nothing)
        } else {
            Err(Fault::UnimplementedOpcode { word, pc: self.regs.pc() })
        }
    }

    /// Executes an `8xyn` word.
    fn execute_alu(&mut self, x: u8, y: u8, n: u8, word: u16) -> (r: Result<Effect, Fault>)
        requires
            old(self).wf(),
            x < 16,
            y < 16,
        ensures
            final(self).wf(),
            follows(old(self)@, final(self)@, r, alu_executed(old(self)@, x, y, n, word)),
    {
        let a = self.regs.reg(x as usize);
        let b = self.regs.reg(y as usize);
        match alu_apply(n, a, b) {
            Some((val, flag)) => {
                self.regs.set_reg(x as usize, val);
                match flag {
                    Some(f) => self.regs.set_reg(FLAG, f),
                    None => {},
                }
                self.regs.advance_pc(2);
                Ok(Effect::Nothing)
            },
            None => Err(Fault::UnimplementedOpcode { word, pc: self.regs.pc() }),
        }
    }

    /// Decodes and executes one instruction word with what `input` offers.
    /// On a fault the machine is left as it was.
    pub fn execute(&mut self, word: u16, input: Input) -> (r: Result<Effect, Fault>)
        requires
            old(self).wf(),
        ensures
            final(self).wf(),
            follows(old(self)@, final(self)@, r, executed(old(self)@, word, input)),
    {
        reveal(executed);
        let pc = self.regs.pc();
        match Instruction::decode(word) {
            Instruction::System { nnn } => {
                if nnn == 0x0E0 {
                    self.regs.advance_pc(2);
                    Ok(Effect::ClearDisplay)
                } else if nnn == 0x0EE {
                    match self.regs.pop() {
                        Ok(a) => {
                            self.regs.set_pc(a);
                            Ok(Effect::Nothing)
                        },
                        Err(f) => Err(f),
                    }
                } else {
                    Err(Fault::UnimplementedOpcode { word, pc })
                }
            },
            Instruction::Goto { nnn } => {
                self.regs.set_pc(nnn);
                Ok(Effect::Nothing)
            },
            Instruction::Call { nnn } => {
                match self.regs.push((pc + 2) % 4096) {
                    Ok(()) => {
                        self.regs.set_pc(nnn);
                        Ok(Effect::Nothing)
                    },
                    Err(f) => Err(f),
                }
            },
            Instruction::SkipEqualImm { x, nn } => {
                let c = self.regs.reg(x as usize) == nn;
                self.skip_if(c);
                Ok(Effect::Nothing)
            },
            Instruction::SkipNotEqualImm { x, nn } => {
                let c = self.regs.reg(x as usize) != nn;
                self.skip_if(c);
                Ok(Effect::Nothing)
            },
            Instruction::SkipEqualReg { x, y, n } => {
                if n == 0 {
                    let c = self.regs.reg(x as usize) == self.regs.reg(y as usize);
                    self.skip_if(c);
                    Ok(Effect::Nothing)
                } else {
                    Err(Fault::UnimplementedOpcode { word, pc })
                }
            },
            Instruction::Load { x, nn } => {
                self.regs.set_reg(x as usize, nn);
                self.regs.advance_pc(2);
                Ok(Effect::Nothing)
            },
            Instruction::Add { x, nn } => {
                let sum = (self.regs.reg(x as usize) as u16 + nn as u16) % 256;
                self.regs.set_reg(x as usize, sum as u8);
                self.regs.advance_pc(2);
                Ok(Effect::Nothing)
            },
            Instruction::Alu { x, y, n } => self.execute_alu(x, y, n, word),
            Instruction::SkipNotEqualReg { x, y, n } => {
                if n == 0 {
                    let c = self.regs.reg(x as usize) != self.regs.reg(y as usize);
                    self.skip_if(c);
                    Ok(Effect::Nothing)
                } else {
                    Err(Fault::UnimplementedOpcode { word, pc })
                }
            },
            Instruction::SetIndex { nnn } => {
                self.regs.set_index(nnn);
                self.regs.advance_pc(2);
                Ok(Effect::Nothing)
            },
            Instruction::JumpOffset { nnn } => {
                let target = nnn + self.regs.reg(0) as u16;
                self.regs.set_pc(target);
                Ok(Effect::Nothing)
            },
            Instruction::Random { x, nn } => {
                self.regs.set_reg(x as usize, input.random & nn);
                self.regs.advance_pc(2);
                Ok(Effect::Nothing)
            },
            Instruction::Draw { x, y, n } => {
                let vx = self.regs.reg(x as usize);
                let vy = self.regs.reg(y as usize);
                let addr = self.regs.index();
                self.regs.advance_pc(2);
                Ok(Effect::Draw { x: vx, y: vy, addr, len: n })
            },
            Instruction::SkipWithKey { x, nn } => {
                let down = is_key_down(input.keys_down, self.regs.reg(x as usize));
                if nn == 0x9E {
                    self.skip_if(down);
                    Ok(Effect::Nothing)
                } else if nn == 0xA1 {
                    self.skip_if(!down);
                    Ok(Effect::Nothing)
                } else {
                    Err(Fault::UnimplementedOpcode { word, pc })
                }
            },
            Instruction::Misc { x, nn } => self.execute_misc(x, nn, word),
        }
    }

    /// One turn of the instruction clock: while parked for a key nothing
    /// happens; else the word at the program counter is fetched and executed.
    pub fn cycle(&mut self, input: Input) -> (r: Result<Effect, Fault>)
        requires
            old(self).wf(),
        ensures
            final(self).wf(),
            follows(old(self)@, final(self)@, r, cycled(old(self)@, input)),
    {
        match self.mode {
            Mode::AwaitingKey { .. } => Ok(Effect::AwaitingKey),
            Mode::Running => {
                let word = self.memory.read_word(self.regs.pc());
                self.execute(word, input)
            },
        }
    }

    /// One timer tick; reports sound turning off.
    pub fn tick(&mut self) -> (r: Effect)
        requires
            old(self).wf(),
        ensures
            final(self).wf(),
            (final(self)@, r) == ticked(old(self)@),
    {
        let before = self.timers.sound;
        self.timers.tick();
        if before == 1 {
            Effect::Tone { active: false }
        } else {
            Effect::Nothing
        }
    }

    /// One scheduler iteration: the timers decay where a tick is due, else
    /// one instruction cycle runs.
    pub fn step(&mut self, tick_due: bool, input: Input) -> (r: Result<Effect, Fault>)
        requires
            old(self).wf(),
        ensures
            final(self).wf(),
            follows(old(self)@, final(self)@, r, stepped(old(self)@, tick_due, input)),
    {
        if tick_due {
            Ok(self.tick())
        } else {
            self.cycle(input)
        }
    }

    /// Hands a key press to the machine; returns whether it was parked for one
    /// and now runs again.
    pub fn press_key(&mut self, key: u8) -> (r: bool)
        requires
            old(self).wf(),
        ensures
            final(self).wf(),
            final(self)@ == key_pressed(old(self)@, key),
            r == (old(self)@.mode is AwaitingKey && key < 16),
    {
        match self.mode {
            Mode::AwaitingKey { x } => {
                if key < 16 {
                    self.regs.set_reg(x as usize, key);
                    self.regs.advance_pc(2);
                    self.mode = Mode::Running;
                    true
                } else {
                    false
                }
            },
            Mode::Running => false,
        }
    }

    /// Records the display's answer to a draw: the flag register becomes 1
    /// where a pixel was erased, else 0.
    pub fn report_collision(&mut self, collided: bool)
        requires
            old(self).wf(),
        ensures
            final(self).wf(),
            final(self)@ == with_reg(old(self)@, FLAG as int, if collided { 1u8 } else { 0u8 }),
    {
        self.regs.set_reg(FLAG, if collided { 1 } else { 0 });
    }

    /// The `len` bytes from `addr` onwards, addresses masked to 12 bits.
    pub fn sprite(&self, addr: u16, len: u8) -> (r: Vec<u8>)
        requires
            self.wf(),
        ensures
            r@ == Seq::new(len as nat, |k: int| self@.memory[(addr + k) % 4096]),
    {
        let mut out: Vec<u8> = Vec::new();
        let mut k: u8 = 0;
        while k < len
            invariant
                self.wf(),
                k <= len,
                out@.len() == k,
                forall|j: int| 0 <= j < k ==> out@[j] == #[trigger] self@.memory[(addr + j) % 4096],
            decreases len - k,
        {
            let a = ((addr as u32 + k as u32) % 4096) as u16;
            out.push(self.memory.read_byte(a));
            k = k + 1;
        }
        assert(out@ =~= Seq::new(len as nat, |k: int| self@.memory[(addr + k) % 4096]));
        out
    }

    /// The instruction word at the program counter.
    pub fn current_word(&self) -> (r: u16)
        requires
            self.wf(),
        ensures
            r == fetched(self@),
    {
        self.memory.read_word(self.regs.pc())
    }

    /// The byte at `addr` masked to 12 bits.
    pub fn read_byte(&self, addr: u16) -> (r: u8)
        requires
            self.wf(),
        ensures
            r == self@.memory[addr as int % 4096],
    {
        self.memory.read_byte(addr)
    }

    /// General register `x`; fails with `InvalidRegister` where `x` is not below 16.
    pub fn register(&self, x: u8) -> (r: Result<u8, Fault>)
        requires
            self.wf(),
        ensures
            x < 16 ==> r == Ok::<u8, Fault>(self@.regs.v[x as int]),
            x >= 16 ==> r == Err::<u8, Fault>(Fault::InvalidRegister { index: x }),
    {
        self.regs.get(x)
    }

    /// The program counter.
    pub fn pc(&self) -> (r: u16)
        ensures
            r == self@.regs.pc,
    {
        self.regs.pc()
    }

    /// The index register.
    pub fn index(&self) -> (r: u16)
        ensures
            r == self@.regs.index,
    {
        self.regs.index()
    }

    /// Number of return addresses on the call stack.
    pub fn stack_depth(&self) -> (r: u8)
        requires
            self.wf(),
        ensures
            r == self@.regs.stack.len(),
    {
        self.regs.depth()
    }

    /// The delay counter.
    pub fn delay(&self) -> (r: u8)
        ensures
            r == self@.timers.delay,
    {
        self.timers.delay
    }

    /// The sound counter.
    pub fn sound(&self) -> (r: u8)
        ensures
            r == self@.timers.sound,
    {
        self.timers.sound
    }

    /// Whether sound output is on.
    pub fn sound_active(&self) -> (r: bool)
        ensures
            r == (self@.timers.sound > 0),
    {
        self.timers.sound_active()
    }

    /// Whether the instruction clock is parked until a key press.
    pub fn awaiting_key(&self) -> (r: bool)
        ensures
            r == (self@.mode is AwaitingKey),
    {
        match self.mode {
            Mode::AwaitingKey { .. } => true,
            Mode::Running => false,
        }
    }
}

} // verus!
