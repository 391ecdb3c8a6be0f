use vstd::prelude::*;

use crate::fault::Fault;
use crate::instruction::{decoded, Instruction};
use crate::machine::{executed, fetched, key_down, stepped, Effect, Input, State};
use crate::registers::{popped, pushed, RegisterView, FLAG, STACK_DEPTH};
use crate::timers::decayed_by;

verus! {

/// The stack after pushing each of `addrs` in turn onto `stack`.
pub open spec fn pushed_all(stack: Seq<u16>, addrs: Seq<u16>) -> Result<Seq<u16>, Fault>
    decreases addrs.len(),
{
    if addrs.len() == 0 {
        Ok(stack)
    } else {
        match pushed_all(stack, addrs.drop_last()) {
            Ok(s) => pushed(s, addrs.last()),
            Err(f) => Err(f),
        }
    }
}

/// The stack after `n` pops from `stack`, and the addresses popped, first popped first.
pub open spec fn popped_n(stack: Seq<u16>, n: nat) -> Result<(Seq<u16>, Seq<u16>), Fault>
    decreases n,
{
    if n == 0 {
        Ok((stack, Seq::empty()))
    } else {
        match popped_n(stack, (n - 1) as nat) {
            Ok((s, out)) => match popped(s) {
                Ok((s2, a)) => Ok((s2, out.push(a))),
                Err(f) => Err(f),
            },
            Err(f) => Err(f),
        }
    }
}

proof fn lemma_pushed_all(addrs: Seq<u16>)
    requires
        addrs.len() <= STACK_DEPTH,
    ensures
        pushed_all(Seq::empty(), addrs) == Ok::<Seq<u16>, Fault>(addrs),
    decreases addrs.len(),
{
    if addrs.len() > 0 {
        lemma_pushed_all(addrs.drop_last());
        assert(addrs.drop_last().push(addrs.last()) =~= addrs);
    } else {
        assert(addrs =~= Seq::<u16>::empty());
    }
}

proof fn lemma_popped_n(stack: Seq<u16>, n: nat)
    requires
        n <= stack.len(),
    ensures
        popped_n(stack, n) == Ok::<(Seq<u16>, Seq<u16>), Fault>(
            (
                stack.subrange(0, stack.len() - n),
                Seq::new(n, |k: int| stack[stack.len() - 1 - k]),
            ),
        ),
    decreases n,
{
    if n > 0 {
        lemma_popped_n(stack, (n - 1) as nat);
        let s = stack.subrange(0, stack.len() - (n - 1));
        assert(s.drop_last() =~= stack.subrange(0, stack.len() - n));
        assert(Seq::new((n - 1) as nat, |k: int| stack[stack.len() - 1 - k]).push(s.last()) =~= Seq::new(
            n,
            |k: int| stack[stack.len() - 1 - k],
        ));
    } else {
        assert(stack.subrange(0, stack.len() as int) =~= stack);
        assert(Seq::new(0, |k: int| stack[stack.len() - 1 - k]) =~= Seq::<u16>::empty());
    }
}

/// Pushing up to sixteen addresses onto an empty stack and popping as many
/// times gives them back in reverse order and leaves the stack empty; a
/// seventeenth push fails with `StackOverflow`, and a pop from an empty stack
/// fails with `StackUnderflow`.
pub proof fn stack_round_trip(addrs: Seq<u16>, extra: u16)
    requires
        addrs.len() <= STACK_DEPTH,
    ensures
        pushed_all(Seq::empty(), addrs) == Ok::<Seq<u16>, Fault>(addrs),
        popped_n(addrs, addrs.len()) == Ok::<(Seq<u16>, Seq<u16>), Fault>(
            (Seq::empty(), Seq::new(addrs.len(), |k: int| addrs[addrs.len() - 1 - k])),
        ),
        addrs.len() == STACK_DEPTH ==> pushed_all(Seq::empty(), addrs.push(extra)) == Err::<
            Seq<u16>,
            Fault,
        >(Fault::StackOverflow),
        popped(Seq::empty()) == Err::<(Seq<u16>, u16), Fault>(Fault::StackUnderflow),
{
    lemma_pushed_all(addrs);
    lemma_popped_n(addrs, addrs.len());
    assert(addrs.subrange(0, 0) =~= Seq::<u16>::empty());
    if addrs.len() == STACK_DEPTH {
        assert(addrs.push(extra).drop_last() =~= addrs);
    }
}

/// The fields of the word `c x y n` (one nibble each).
proof fn lemma_word_fields(c: int, x: int, y: int, n: int)
    requires
        0 <= c < 16,
        0 <= x < 16,
        0 <= y < 16,
        0 <= n < 16,
    ensures
        ({
            let w = c * 4096 + x * 256 + y * 16 + n;
            &&& 0 <= w < 0x10000
            &&& w / 4096 == c
            &&& (w / 256) % 16 == x
            &&& (w / 16) % 16 == y
            &&& w % 16 == n
            &&& w % 256 == y * 16 + n
            &&& w % 4096 == x * 256 + y * 16 + n
        }),
{
    let w = c * 4096 + x * 256 + y * 16 + n;
    assert(w / 4096 == c) by (nonlinear_arith)
        requires
            w == c * 4096 + x * 256 + y * 16 + n,
            0 <= x < 16,
            0 <= y < 16,
            0 <= n < 16,
    ;
    assert(w / 256 == c * 16 + x) by (nonlinear_arith)
        requires
            w == c * 4096 + x * 256 + y * 16 + n,
            0 <= y < 16,
            0 <= n < 16,
    ;
    assert(w / 16 == c * 256 + x * 16 + y) by (nonlinear_arith)
        requires
            w == c * 4096 + x * 256 + y * 16 + n,
            0 <= n < 16,
    ;
    assert((c * 16 + x) % 16 == x) by (nonlinear_arith)
        requires
            0 <= x < 16,
            0 <= c,
    ;
    assert((c * 256 + x * 16 + y) % 16 == y) by (nonlinear_arith)
        requires
            0 <= y < 16,
            0 <= c,
            0 <= x,
    ;
    assert(w % 16 == n) by (nonlinear_arith)
        requires
            w == c * 4096 + x * 256 + y * 16 + n,
            0 <= n < 16,
            0 <= c,
            0 <= x,
            0 <= y,
    ;
    assert(w % 256 == y * 16 + n) by (nonlinear_arith)
        requires
            w == c * 4096 + x * 256 + y * 16 + n,
            0 <= n < 16,
            0 <= y < 16,
            0 <= c,
            0 <= x,
    ;
    assert(w % 4096 == x * 256 + y * 16 + n) by (nonlinear_arith)
        requires
            w == c * 4096 + x * 256 + y * 16 + n,
            0 <= n < 16,
            0 <= y < 16,
            0 <= x < 16,
            0 <= c,
    ;
}

/// `add-imm` (`7xnn`) sets `Vx` to `(Vx + nn) mod 256`, touches no other
/// register (the flag included) and moves on to the next instruction.
pub proof fn add_immediate_wraps(s: State, x: u8, nn: u8, input: Input)
    requires
        s.wf(),
        x < 16,
    ensures
        ({
            let w = (0x7000 + x * 256 + nn) as u16;
            &&& executed(s, w, input) matches Ok((t, e))
            &&& e == Effect::Nothing
            &&& t.regs.v[x as int] == (s.regs.v[x as int] + nn) % 256
            &&& forall|r: int| 0 <= r < 16 && r != x ==> t.regs.v[r] == s.regs.v[r]
            &&& t.regs.pc == (s.regs.pc + 2) % 4096
        }),
{
    lemma_word_fields(7, x as int, (nn / 16) as int, (nn % 16) as int);
    let w = (0x7000 + x * 256 + nn) as u16;
    assert(decoded(w) == Instruction::Add { x, nn });
    reveal(executed);
}

/// `add-with-carry` (`8xy4`) sets the flag register to 1 exactly when
/// `Vx + Vy` exceeds 255, else to 0, and `Vx` to the sum mod 256 unless `x`
/// is the flag register itself.
pub proof fn add_with_carry_flags(s: State, x: u8, y: u8, input: Input)
    requires
        s.wf(),
        x < 16,
        y < 16,
    ensures
        ({
            let w = (0x8004 + x * 256 + y * 16) as u16;
            let sum = s.regs.v[x as int] + s.regs.v[y as int];
            &&& executed(s, w, input) matches Ok((t, e))
            &&& e == Effect::Nothing
            &&& t.regs.v[FLAG as int] == (if sum > 255 { 1u8 } else { 0u8 })
            &&& x != FLAG ==> t.regs.v[x as int] == sum % 256
            &&& t.regs.pc == (s.regs.pc + 2) % 4096
        }),
{
    lemma_word_fields(8, x as int, y as int, 4);
    let w = (0x8004 + x * 256 + y * 16) as u16;
    assert(decoded(w) == Instruction::Alu { x, y, n: 4 });
    reveal(executed);
}

/// Every transfer of control lands on its target masked to 12 bits: a jump
/// (`1nnn`) on `nnn`, a jump with offset (`Bnnn`) on `nnn + V0`, a call
/// (`2nnn`) on `nnn` with the address after it pushed, a return (`00EE`) on
/// the popped address.
pub proof fn jump_targets_masked(s: State, word: u16, input: Input)
    requires
        s.wf(),
    ensures
        decoded(word) matches Instruction::Goto { nnn } ==> (executed(s, word, input) matches Ok((t, e))
            && t.regs.pc == nnn % 4096 && t.regs.stack == s.regs.stack),
        decoded(word) matches Instruction::JumpOffset { nnn } ==> (executed(s, word, input) matches Ok((t, e))
            && t.regs.pc == (nnn + s.regs.v[0]) % 4096 && t.regs.stack == s.regs.stack),
        decoded(word) matches Instruction::Call { nnn } ==> (s.regs.stack.len() < STACK_DEPTH <==> (
        executed(s, word, input) matches Ok((t, e)) && t.regs.pc == nnn % 4096 && t.regs.stack
            == s.regs.stack.push(((s.regs.pc + 2) % 4096) as u16))),
        word == 0x00EE ==> (s.regs.stack.len() > 0 <==> (executed(s, word, input) matches Ok((t, e))
            && t.regs.pc == s.regs.stack.last() % 4096 && t.regs.stack == s.regs.stack.drop_last())),
{
    reveal(executed);
    if word == 0x00EE {
        lemma_word_fields(0, 0, 14, 14);
    }
}

/// After `k` ticks a counter stands at its start value less `k`, but never
/// below zero; a further tick never raises it.
pub proof fn timer_decay(c: u8, k: nat)
    ensures
        decayed_by(c, k) == (if k >= c { 0 } else { c - k }),
        decayed_by(c, k + 1) <= decayed_by(c, k),
    decreases k,
{
    if k > 0 {
        timer_decay(c, (k - 1) as nat);
    }
}

/// Whether a scheduler step from `s` executes the `Fxnn` instruction with `nn == k`.
pub open spec fn runs_misc(s: State, tick_due: bool, k: u8) -> bool {
    &&& !tick_due
    &&& s.mode is Running
    &&& decoded(fetched(s)) matches Instruction::Misc { nn, .. }
    &&& nn == k
}

/// No scheduler step raises a timer, except `Fx15` (delay) and `Fx18` (sound)
/// executed by a running machine.
pub proof fn timers_rise_only_when_set(s: State, tick_due: bool, input: Input)
    requires
        s.wf(),
    ensures
        stepped(s, tick_due, input) matches Ok((t, e)) ==> {
            &&& t.timers.delay <= s.timers.delay || runs_misc(s, tick_due, 0x15)
            &&& t.timers.sound <= s.timers.sound || runs_misc(s, tick_due, 0x18)
        },
{
    reveal(executed);
}

/// Whether `ins` is one of the skip instructions, and if so whether it skips.
pub open spec fn skip_taken(s: State, ins: Instruction, input: Input) -> Option<bool> {
    let v = s.regs.v;
    match ins {
        Instruction::SkipEqualImm { x, nn } => Some(v[x as int] == nn),
        Instruction::SkipNotEqualImm { x, nn } => Some(v[x as int] != nn),
        Instruction::SkipEqualReg { x, y, n } => if n == 0 {
            Some(v[x as int] == v[y as int])
        } else {
            None
        },
        Instruction::SkipNotEqualReg { x, y, n } => if n == 0 {
            Some(v[x as int] != v[y as int])
        } else {
            None
        },
        Instruction::SkipWithKey { x, nn } => if nn == 0x9E {
            Some(key_down(input.keys_down, v[x as int]))
        } else if nn == 0xA1 {
            Some(!key_down(input.keys_down, v[x as int]))
        } else {
            None
        },
        _ => None,
    }
}

/// A skip instruction moves the program counter on by exactly 4 (within the
/// 12-bit address space) when it skips and by exactly 2 when it does not,
/// and changes nothing else.
pub proof fn skips_advance(s: State, word: u16, input: Input)
    requires
        s.wf(),
    ensures
        skip_taken(s, decoded(word), input) matches Some(taken) ==> executed(s, word, input) == Ok::<
            (State, Effect),
            Fault,
        >(
            (
                State {
                    regs: RegisterView {
                        pc: ((s.regs.pc + if taken { 4int } else { 2int }) % 4096) as u16,
                        ..s.regs
                    },
                    ..s
                },
                Effect::Nothing,
            ),
        ),
{
    reveal(executed);
}

/// A scheduler step keeps the machine well formed.
pub proof fn step_keeps_wf(s: State, tick_due: bool, input: Input)
    requires
        s.wf(),
    ensures
        stepped(s, tick_due, input) matches Ok((t, e)) ==> t.wf(),
{
    reveal(executed);
}

/// The state after running `steps` (each a tick flag and an input) from `s`,
/// or the first fault.
pub open spec fn ran(s: State, steps: Seq<(bool, Input)>) -> Result<State, Fault>
    decreases steps.len(),
{
    if steps.len() == 0 {
        Ok(s)
    } else {
        match stepped(s, steps[0].0, steps[0].1) {
            Ok((t, e)) => ran(t, steps.drop_first()),
            Err(f) => Err(f),
        }
    }
}

/// Whether some step of running `steps` from `s` executes the `Fxnn`
/// instruction with `nn == k`.
pub open spec fn run_sets(s: State, steps: Seq<(bool, Input)>, k: u8) -> bool
    decreases steps.len(),
{
    if steps.len() == 0 {
        false
    } else {
        runs_misc(s, steps[0].0, k) || match stepped(s, steps[0].0, steps[0].1) {
            Ok((t, e)) => run_sets(t, steps.drop_first(), k),
            Err(f) => false,
        }
    }
}

/// Over any finite run of scheduler steps the delay counter does not rise
/// unless some step executes `Fx15`, and the sound counter does not rise
/// unless some step executes `Fx18`.
pub proof fn timers_never_rise_over_run(s: State, steps: Seq<(bool, Input)>)
    requires
        s.wf(),
    ensures
        ran(s, steps) matches Ok(t) ==> {
            &&& t.timers.delay <= s.timers.delay || run_sets(s, steps, 0x15)
            &&& t.timers.sound <= s.timers.sound || run_sets(s, steps, 0x18)
        },
    decreases steps.len(),
{
    if steps.len() > 0 {
        let (tick_due, input) = steps[0];
        timers_rise_only_when_set(s, tick_due, input);
        step_keeps_wf(s, tick_due, input);
        if let Ok((t, e)) = stepped(s, tick_due, input) {
            timers_never_rise_over_run(t, steps.drop_first());
        }
    }
}

/// Whether a scheduler step from `s` executes a call (`2nnn`).
pub open spec fn runs_call(s: State, tick_due: bool) -> bool {
    !tick_due && s.mode is Running && decoded(fetched(s)) is Call
}

/// Whether a scheduler step from `s` executes a return (`00EE`).
pub open spec fn runs_return(s: State, tick_due: bool) -> bool {
    !tick_due && s.mode is Running && fetched(s) == 0x00EE
}

/// Only calls and returns move the call stack: a call pushes the address
/// after it, a return pops into the program counter, and every other step
/// leaves the stack as it was.
pub proof fn stack_moves_only_by_calls(s: State, tick_due: bool, input: Input)
    requires
        s.wf(),
    ensures
        stepped(s, tick_due, input) matches Ok((t, e)) ==> {
            if runs_call(s, tick_due) {
                t.regs.stack == s.regs.stack.push(((s.regs.pc + 2) % 4096) as u16)
            } else if runs_return(s, tick_due) {
                &&& t.regs.stack == s.regs.stack.drop_last()
                &&& t.regs.pc == s.regs.stack.last() % 4096
            } else {
                t.regs.stack == s.regs.stack
            }
        },
{
    reveal(executed);
    lemma_word_fields(0, 0, 14, 14);
}

/// A return executed when the stack is back to what a call left behind
/// lands right after that call and restores the stack the call found; so
/// nested calls come back in reverse order.
pub proof fn return_matches_call(s: State, t: State, u: State, tick_due: bool, input: Input, input2: Input)
    requires
        s.wf(),
        u.wf(),
        runs_call(s, tick_due),
        stepped(s, tick_due, input) matches Ok((t2, e)) && t2 == t,
        u.regs.stack == t.regs.stack,
        runs_return(u, false),
    ensures
        stepped(u, false, input2) matches Ok((w, e)) && w.regs.pc == (s.regs.pc + 2) % 4096
            && w.regs.stack == s.regs.stack,
{
    stack_moves_only_by_calls(s, tick_due, input);
    stack_moves_only_by_calls(u, false, input2);
    reveal(executed);
    lemma_word_fields(0, 0, 14, 14);
    assert(s.regs.stack.push(((s.regs.pc + 2) % 4096) as u16).drop_last() =~= s.regs.stack);
}

} // verus!
