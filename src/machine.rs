use vstd::prelude::*;

use crate::fault::Fault;
use crate::instruction::{decoded, Instruction};
use crate::memory::{word_of, LOAD_BASE};
use crate::registers::{popped, pushed, RegisterView, FLAG};
use crate::timers::{decayed, Timers};

verus! {

/// Address of the sprite of digit 0 in the resident font table.
pub const FONT_BASE: u16 = 0;

/// Bytes per digit sprite in the font table.
pub const DIGIT_SPRITE_LEN: u16 = 5;

/// Whether the instruction clock runs or is parked until a key is pressed.
#[derive(Clone, Copy, Debug, PartialEq, Eq, Structural)]
pub enum Mode {
    Running,
    /// Parked by `Fx0A`; the key pressed goes into register `x`.
    AwaitingKey { x: u8 },
}

/// What the outside world offers to one instruction: which keys are held
/// (bit `k` for key `k`) and a fresh random byte.
#[derive(Clone, Copy, Debug, PartialEq, Eq, Structural)]
pub struct Input {
    pub keys_down: u16,
    pub random: u8,
}

/// What the host has to do after a step.
#[derive(Clone, Copy, Debug, PartialEq, Eq, Structural)]
pub enum Effect {
    Nothing,
    ClearDisplay,
    /// Draw the `len` bytes at `addr` at `(x, y)`, then report whether a pixel was erased.
    Draw { x: u8, y: u8, addr: u16, len: u8 },
    /// The machine waits for a key press.
    AwaitingKey,
    /// Sound output turns on or off.
    Tone { active: bool },
}

/// The whole machine as plain values.
pub struct State {
    pub memory: Seq<u8>,
    pub regs: RegisterView,
    pub timers: Timers,
    pub mode: Mode,
}

impl State {
    pub open spec fn wf(&self) -> bool {
        &&& self.memory.len() == 4096
        &&& self.regs.wf()
        &&& (self.mode matches Mode::AwaitingKey { x } ==> x < 16)
    }
}

/// Whether key `k` is among `keys`; a value above 15 names no key.
pub open spec fn key_down(keys: u16, k: u8) -> bool {
    k < 16 && (keys >> (k as u16)) & 1u16 == 1u16
}

/// `s` with the program counter `by` bytes further on, within the 12-bit space.
pub open spec fn advanced(s: State, by: int) -> State {
    State { regs: RegisterView { pc: ((s.regs.pc + by) % 4096) as u16, ..s.regs }, ..s }
}

/// `s` with the program counter at `target` masked to 12 bits.
pub open spec fn jumped(s: State, target: int) -> State {
    State { regs: RegisterView { pc: (target % 4096) as u16, ..s.regs }, ..s }
}

/// `s` past the next instruction when `cond` holds, else past this one.
pub open spec fn skipped(s: State, cond: bool) -> State {
    advanced(s, if cond { 4 } else { 2 })
}

/// `s` with general register `x` holding `val`.
pub open spec fn with_reg(s: State, x: int, val: u8) -> State {
    State { regs: RegisterView { v: s.regs.v.update(x, val), ..s.regs }, ..s }
}

/// `s` with the index register at `val` masked to 12 bits.
pub open spec fn with_index(s: State, val: int) -> State {
    State { regs: RegisterView { index: (val % 4096) as u16, ..s.regs }, ..s }
}

/// The fault for an instruction word that names no operation.
pub open spec fn no_such_opcode(s: State, word: u16) -> Result<(State, Effect), Fault> {
    Err(Fault::UnimplementedOpcode { word, pc: s.regs.pc })
}

/// Result and flag of ALU operation `n` on `a = Vx` and `b = Vy`; `None` where `n` names none.
pub open spec fn alu(n: u8, a: u8, b: u8) -> Option<(u8, Option<u8>)> {
    if n == 0 {
        Some((b, None))
    } else if n == 1 {
        Some((a | b, None))
    } else if n == 2 {
        Some((a & b, None))
    } else if n == 3 {
        Some((a ^ b, None))
    } else if n == 4 {
        Some((((a + b) % 256) as u8, Some(if a + b > 255 { 1u8 } else { 0u8 })))
    } else if n == 5 {
        Some((((a - b + 256) % 256) as u8, Some(if a >= b { 1u8 } else { 0u8 })))
    } else if n == 6 {
        Some((a / 2, Some(a % 2)))
    } else if n == 7 {
        Some((((b - a + 256) % 256) as u8, Some(if b >= a { 1u8 } else { 0u8 })))
    } else if n == 0xE {
        Some((((a * 2) % 256) as u8, Some(a / 128)))
    } else {
        None
    }
}

/// The sound effect of the sound counter going from `before` to `after`.
pub open spec fn tone_change(before: u8, after: u8) -> Effect {
    if (before > 0) != (after > 0) {
        Effect::Tone { active: after > 0 }
    } else {
        Effect::Nothing
    }
}

/// Outcome of an `8xyn` word in state `s`: the result goes to `Vx`, then the
/// flag, where the operation has one, to the flag register.
pub open spec fn alu_executed(s: State, x: u8, y: u8, n: u8, word: u16) -> Result<(State, Effect), Fault> {
    match alu(n, s.regs.v[x as int], s.regs.v[y as int]) {
        Some((val, None)) => Ok((advanced(with_reg(s, x as int, val), 2), Effect::Nothing)),
        Some((val, Some(flag))) => Ok(
            (advanced(with_reg(with_reg(s, x as int, val), FLAG as int, flag), 2), Effect::Nothing),
        ),
        None => no_such_opcode(s, word),
    }
}

/// Outcome of an `Fxnn` word in state `s`.
pub open spec fn misc_executed(s: State, x: u8, nn: u8, word: u16) -> Result<(State, Effect), Fault> {
    let v = s.regs.v;
    let vx = v[x as int];
    let i = s.regs.index;
    if nn == 0x07 {
        Ok((advanced(with_reg(s, x as int, s.timers.delay), 2), Effect::Nothing))
    } else if nn == 0x0A {
        Ok((State { mode: Mode::AwaitingKey { x }, ..s }, Effect::AwaitingKey))
    } else if nn == 0x15 {
        Ok((advanced(State { timers: Timers { delay: vx, ..s.timers }, ..s }, 2), Effect::Nothing))
    } else if nn == 0x18 {
        Ok(
            (
                advanced(State { timers: Timers { sound: vx, ..s.timers }, ..s }, 2),
                tone_change(s.timers.sound, vx),
            ),
        )
    } else if nn == 0x1E {
        Ok((advanced(with_index(s, i + vx), 2), Effect::Nothing))
    } else if nn == 0x29 {
        Ok((advanced(with_index(s, FONT_BASE + (vx % 16) * DIGIT_SPRITE_LEN), 2), Effect::Nothing))
    } else if nn == 0x33 {
        if LOAD_BASE <= i && i + 2 < 4096 {
            let m = s.memory.update(i as int, (vx / 100) as u8).update(i + 1, ((vx / 10) % 10) as u8).update(
                i + 2,
                (vx % 10) as u8,
            );
            Ok((advanced(State { memory: m, ..s }, 2), Effect::Nothing))
        } else {
            Err(Fault::MemoryFault { addr: i })
        }
    } else if nn == 0x55 {
        if LOAD_BASE <= i && i + x < 4096 {
            let m = Seq::new(
                4096,
                |a: int|
                    if i <= a <= i + x {
                        v[a - i]
                    } else {
                        s.memory[a]
                    },
            );
            Ok((advanced(State { memory: m, ..s }, 2), Effect::Nothing))
        } else {
            Err(Fault::MemoryFault { addr: i })
        }
    } else if nn == 0x65 {
        let w = Seq::new(
            16,
            |r: int|
                if r <= x {
                    s.memory[(i + r) % 4096]
                } else {
                    v[r]
                },
        );
        Ok((advanced(State { regs: RegisterView { v: w, ..s.regs }, ..s }, 2), Effect::Nothing))
    } else {
        no_such_opcode(s, word)
    }
}

/// Outcome of executing instruction word `word` in state `s` with `input`:
/// the next state and what the host must do, or the fault.
#[verifier::opaque]
pub open spec fn executed(s: State, word: u16, input: Input) -> Result<(State, Effect), Fault> {
    let v = s.regs.v;
    match decoded(word) {
        Instruction::System { nnn } => {
            if nnn == 0x0E0 {
                Ok((advanced(s, 2), Effect::ClearDisplay))
            } else if nnn == 0x0EE {
                match popped(s.regs.stack) {
                    Ok((st, a)) => Ok(
                        (jumped(State { regs: RegisterView { stack: st, ..s.regs }, ..s }, a as int), Effect::Nothing),
                    ),
                    Err(f) => Err(f),
                }
            } else {
                no_such_opcode(s, word)
            }
        },
        Instruction::Goto { nnn } => Ok((jumped(s, nnn as int), Effect::Nothing)),
        Instruction::Call { nnn } => match pushed(s.regs.stack, ((s.regs.pc + 2) % 4096) as u16) {
            Ok(st) => Ok((jumped(State { regs: RegisterView { stack: st, ..s.regs }, ..s }, nnn as int), Effect::Nothing)),
            Err(f) => Err(f),
        },
        Instruction::SkipEqualImm { x, nn } => Ok((skipped(s, v[x as int] == nn), Effect::Nothing)),
        Instruction::SkipNotEqualImm { x, nn } => Ok((skipped(s, v[x as int] != nn), Effect::Nothing)),
        Instruction::SkipEqualReg { x, y, n } => {
            if n == 0 {
                Ok((skipped(s, v[x as int] == v[y as int]), Effect::Nothing))
            } else {
                no_such_opcode(s, word)
            }
        },
        Instruction::Load { x, nn } => Ok((advanced(with_reg(s, x as int, nn), 2), Effect::Nothing)),
        Instruction::Add { x, nn } => Ok(
            (advanced(with_reg(s, x as int, ((v[x as int] + nn) % 256) as u8), 2), Effect::Nothing),
        ),
        Instruction::Alu { x, y, n } => alu_executed(s, x, y, n, word),
        Instruction::SkipNotEqualReg { x, y, n } => {
            if n == 0 {
                Ok((skipped(s, v[x as int] != v[y as int]), Effect::Nothing))
            } else {
                no_such_opcode(s, word)
            }
        },
        Instruction::SetIndex { nnn } => Ok((advanced(with_index(s, nnn as int), 2), Effect::Nothing)),
        Instruction::JumpOffset { nnn } => Ok((jumped(s, nnn + v[0]), Effect::Nothing)),
        Instruction::Random { x, nn } => Ok(
            (advanced(with_reg(s, x as int, input.random & nn), 2), Effect::Nothing),
        ),
        Instruction::Draw { x, y, n } => Ok(
            (
                advanced(s, 2),
                Effect::Draw { x: v[x as int], y: v[y as int], addr: s.regs.index, len: n },
            ),
        ),
        Instruction::SkipWithKey { x, nn } => {
            if nn == 0x9E {
                Ok((skipped(s, key_down(input.keys_down, v[x as int])), Effect::Nothing))
            } else if nn == 0xA1 {
                Ok((skipped(s, !key_down(input.keys_down, v[x as int])), Effect::Nothing))
            } else {
                no_such_opcode(s, word)
            }
        },
        Instruction::Misc { x, nn } => misc_executed(s, x, nn, word),
    }
}

/// `post` and `r` are what `outcome` prescribes for a step from `pre`; a fault leaves `pre` as it was.
pub open spec fn follows(
    pre: State,
    post: State,
    r: Result<Effect, Fault>,
    outcome: Result<(State, Effect), Fault>,
) -> bool {
    match outcome {
        Ok((s, e)) => r == Ok::<Effect, Fault>(e) && post == s,
        Err(f) => r == Err::<Effect, Fault>(f) && post == pre,
    }
}


/// The instruction word at the program counter of `s`.
pub open spec fn fetched(s: State) -> u16 {
    word_of(s.memory[s.regs.pc as int], s.memory[(s.regs.pc + 1) % 4096])
}

/// One turn of the instruction clock: nothing while parked for a key,
/// else the instruction at the program counter.
pub open spec fn cycled(s: State, input: Input) -> Result<(State, Effect), Fault> {
    if s.mode is AwaitingKey {
        Ok((s, Effect::AwaitingKey))
    } else {
        executed(s, fetched(s), input)
    }
}

/// One timer tick: both counters decay, and sound turns off when its counter reaches zero.
pub open spec fn ticked(s: State) -> (State, Effect) {
    let t = Timers { delay: decayed(s.timers.delay), sound: decayed(s.timers.sound) };
    (State { timers: t, ..s }, tone_change(s.timers.sound, t.sound))
}

/// One scheduler iteration: a timer tick where one is due, else one instruction cycle.
pub open spec fn stepped(s: State, tick_due: bool, input: Input) -> Result<(State, Effect), Fault> {
    if tick_due {
        Ok(ticked(s))
    } else {
        cycled(s, input)
    }
}

/// The machine after key `key` is pressed: a parked machine puts the key into
/// its target register, moves past the waiting instruction and runs again;
/// otherwise nothing changes.
pub open spec fn key_pressed(s: State, key: u8) -> State {
    match s.mode {
        Mode::AwaitingKey { x } => {
            if key < 16 {
                State { mode: Mode::Running, ..advanced(with_reg(s, x as int, key), 2) }
            } else {
                s
            }
        },
        Mode::Running => s,
    }
}

} // verus!
