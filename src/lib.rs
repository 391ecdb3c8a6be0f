//! Core of a small 16-bit-opcode virtual machine: memory, register file,
//! timers, instruction decoding and execution, and the scheduling decision
//! that interleaves instruction execution with timer decay.
//!
//! The machine is a `Processor`. Its behaviour is stated over `State`, a model
//! of the whole machine as plain values: `executed` gives the outcome of one
//! instruction word, `stepped` that of one scheduler iteration. The host runs
//! the loop, performs each returned `Effect` (display, sound, key wait) and
//! hands back what it observed.

mod fault;
mod instruction;
mod laws;
mod machine;
mod memory;
mod processor;
mod registers;
mod timers;

pub use fault::Fault;
pub use instruction::{decoded, Instruction};
pub use laws::{
    add_immediate_wraps, add_with_carry_flags, jump_targets_masked, popped_n, pushed_all, ran, run_sets, runs_misc,
    return_matches_call, runs_call, runs_return, stack_moves_only_by_calls, step_keeps_wf,
    timers_never_rise_over_run,
    skip_taken, skips_advance, stack_round_trip, timer_decay, timers_rise_only_when_set,
};
pub use machine::{
    advanced, alu, alu_executed, cycled, executed, fetched, follows, jumped, key_down, key_pressed,
    misc_executed, no_such_opcode, skipped, stepped, ticked, tone_change, with_index, with_reg, Effect,
    Input, Mode, State, DIGIT_SPRITE_LEN, FONT_BASE,
};
pub use memory::{masked, word_of, Memory, LOAD_BASE, MEMORY_SIZE};
pub use processor::{is_key_down, Processor};
pub use registers::{popped, pushed, RegisterView, Registers, FLAG, REGISTER_COUNT, STACK_DEPTH};
pub use timers::{decayed, decayed_by, Timers};
