use chip_core::{Effect, Fault, Input, Instruction, Memory, Processor, Registers, Timers, LOAD_BASE};

fn idle() -> Input {
    Input { keys_down: 0, random: 0 }
}

fn boot(rom: &[u8]) -> Processor {
    Processor::new(rom).unwrap()
}

fn reg(p: &Processor, x: u8) -> u8 {
    p.register(x).unwrap()
}

#[test]
fn load_then_add_immediate() {
    let mut p = boot(&[0x6A, 0x05, 0x7A, 0x03]);
    assert_eq!(p.cycle(idle()), Ok(Effect::Nothing));
    assert_eq!(p.cycle(idle()), Ok(Effect::Nothing));
    assert_eq!(reg(&p, 0xA), 8);
    assert_eq!(p.pc(), LOAD_BASE + 4);
}

#[test]
fn call_then_return() {
    let mut p = boot(&[0x22, 0x04, 0x00, 0x00, 0x00, 0xEE]);
    p.cycle(idle()).unwrap();
    assert_eq!(p.stack_depth(), 1);
    assert_eq!(p.pc(), 0x204);
    p.cycle(idle()).unwrap();
    assert_eq!(p.stack_depth(), 0);
    assert_eq!(p.pc(), LOAD_BASE + 2);
}

#[test]
fn add_immediate_wraps_without_flag() {
    let mut p = boot(&[0x6A, 250, 0x7A, 10]);
    p.cycle(idle()).unwrap();
    p.cycle(idle()).unwrap();
    assert_eq!(reg(&p, 0xA), 4);
    assert_eq!(reg(&p, 0xF), 0);
}

#[test]
fn add_with_carry_sets_flag() {
    let mut p = boot(&[0x60, 200, 0x61, 100, 0x80, 0x14, 0x62, 1, 0x63, 2, 0x82, 0x34]);
    for _ in 0..4 {
        p.cycle(idle()).unwrap();
    }
    assert_eq!(reg(&p, 0), 44);
    assert_eq!(reg(&p, 0xF), 1);
    p.cycle(idle()).unwrap();
    p.cycle(idle()).unwrap();
    assert_eq!(reg(&p, 2), 3);
    assert_eq!(reg(&p, 0xF), 0);
}

#[test]
fn flag_write_wins_over_result_in_flag_register() {
    // VF = 255, V1 = 1, VF += V1: the sum is 0 but the carry lands in VF last.
    let mut p = boot(&[0x6F, 255, 0x61, 1, 0x8F, 0x14]);
    for _ in 0..3 {
        p.cycle(idle()).unwrap();
    }
    assert_eq!(reg(&p, 0xF), 1);
}

#[test]
fn subtract_shift_and_logic() {
    let mut p = boot(&[0x60, 5, 0x61, 7]);
    p.cycle(idle()).unwrap();
    p.cycle(idle()).unwrap();
    assert_eq!(p.execute(0x8015, idle()), Ok(Effect::Nothing));
    assert_eq!(reg(&p, 0), 254);
    assert_eq!(reg(&p, 0xF), 0);
    assert_eq!(p.execute(0x8017, idle()), Ok(Effect::Nothing));
    assert_eq!(reg(&p, 0), 9);
    assert_eq!(reg(&p, 0xF), 0);
    p.execute(0x8016, idle()).unwrap();
    assert_eq!(reg(&p, 0), 4);
    assert_eq!(reg(&p, 0xF), 1);
    p.execute(0x6081, idle()).unwrap();
    p.execute(0x800E, idle()).unwrap();
    assert_eq!(reg(&p, 0), 2);
    assert_eq!(reg(&p, 0xF), 1);
    p.execute(0x8011, idle()).unwrap();
    assert_eq!(reg(&p, 0), 7);
    p.execute(0x8012, idle()).unwrap();
    assert_eq!(reg(&p, 0), 7);
    p.execute(0x8013, idle()).unwrap();
    assert_eq!(reg(&p, 0), 0);
    p.execute(0x8010, idle()).unwrap();
    assert_eq!(reg(&p, 0), 7);
}

#[test]
fn jumps_are_masked_to_twelve_bits() {
    let mut p = boot(&[0x13, 0x45]);
    p.cycle(idle()).unwrap();
    assert_eq!(p.pc(), 0x345);
    p.execute(0x60FF, idle()).unwrap();
    p.execute(0xBFFF, idle()).unwrap();
    assert_eq!(p.pc(), (0xFFF + 0xFF) & 0xFFF);
    p.execute(0x2ABC, idle()).unwrap();
    assert_eq!(p.pc(), 0xABC);
    assert_eq!(p.stack_depth(), 1);
}

#[test]
fn skips_move_by_four_or_two() {
    let mut p = boot(&[0x60, 7]);
    p.cycle(idle()).unwrap();
    let pc = p.pc();
    p.execute(0x3007, idle()).unwrap();
    assert_eq!(p.pc(), pc + 4);
    p.execute(0x3008, idle()).unwrap();
    assert_eq!(p.pc(), pc + 6);
    p.execute(0x4008, idle()).unwrap();
    assert_eq!(p.pc(), pc + 10);
    p.execute(0x5010, idle()).unwrap();
    assert_eq!(p.pc(), pc + 12);
    p.execute(0x9010, idle()).unwrap();
    assert_eq!(p.pc(), pc + 16);
    let keys = Input { keys_down: 1 << 7, random: 0 };
    p.execute(0xE09E, keys).unwrap();
    assert_eq!(p.pc(), pc + 20);
    p.execute(0xE0A1, keys).unwrap();
    assert_eq!(p.pc(), pc + 22);
}

#[test]
fn stack_push_pop_round_trip() {
    let mut r = Registers::new(LOAD_BASE);
    for a in 0..16u16 {
        assert_eq!(r.push(a * 3), Ok(()));
    }
    assert_eq!(r.push(99), Err(Fault::StackOverflow));
    for a in (0..16u16).rev() {
        assert_eq!(r.pop(), Ok(a * 3));
    }
    assert_eq!(r.pop(), Err(Fault::StackUnderflow));
}

#[test]
fn call_past_sixteen_overflows() {
    let mut p = boot(&[0x22, 0x00]);
    for _ in 0..16 {
        p.cycle(idle()).unwrap();
    }
    assert_eq!(p.cycle(idle()), Err(Fault::StackOverflow));
    assert_eq!(p.stack_depth(), 16);
}

#[test]
fn return_on_empty_stack_underflows() {
    let mut p = boot(&[0x00, 0xEE]);
    assert_eq!(p.cycle(idle()), Err(Fault::StackUnderflow));
    assert_eq!(p.pc(), LOAD_BASE);
}

#[test]
fn timers_decay_to_zero_and_stay() {
    let mut p = boot(&[0x60, 2, 0xF0, 0x15, 0xF0, 0x18]);
    p.cycle(idle()).unwrap();
    p.cycle(idle()).unwrap();
    assert_eq!(p.cycle(idle()), Ok(Effect::Tone { active: true }));
    assert_eq!(p.delay(), 2);
    assert!(p.sound_active());
    assert_eq!(p.step(true, idle()), Ok(Effect::Nothing));
    assert_eq!(p.delay(), 1);
    assert_eq!(p.step(true, idle()), Ok(Effect::Tone { active: false }));
    assert_eq!(p.delay(), 0);
    assert_eq!(p.sound(), 0);
    assert_eq!(p.step(true, idle()), Ok(Effect::Nothing));
    assert_eq!(p.delay(), 0);
    assert!(!p.sound_active());
}

#[test]
fn timer_tick_saturates() {
    let mut t = Timers::new();
    t.tick();
    assert_eq!(t, Timers { delay: 0, sound: 0 });
    let mut t = Timers { delay: 3, sound: 1 };
    t.tick();
    assert_eq!(t, Timers { delay: 2, sound: 0 });
}

#[test]
fn delay_reads_back() {
    let mut p = boot(&[0x60, 9, 0xF0, 0x15, 0xF3, 0x07]);
    for _ in 0..3 {
        p.cycle(idle()).unwrap();
    }
    assert_eq!(reg(&p, 3), 9);
}

#[test]
fn unknown_words_fault_with_word_and_pc() {
    let mut p = boot(&[0x01, 0x23]);
    assert_eq!(p.cycle(idle()), Err(Fault::UnimplementedOpcode { word: 0x0123, pc: LOAD_BASE }));
    assert_eq!(p.execute(0x8008, idle()), Err(Fault::UnimplementedOpcode { word: 0x8008, pc: LOAD_BASE }));
    assert_eq!(p.execute(0xE000, idle()), Err(Fault::UnimplementedOpcode { word: 0xE000, pc: LOAD_BASE }));
    assert_eq!(p.execute(0xF0FF, idle()), Err(Fault::UnimplementedOpcode { word: 0xF0FF, pc: LOAD_BASE }));
    assert_eq!(p.execute(0x5011, idle()), Err(Fault::UnimplementedOpcode { word: 0x5011, pc: LOAD_BASE }));
    assert_eq!(p.pc(), LOAD_BASE);
}

#[test]
fn rom_must_be_present_and_fit() {
    assert_eq!(Processor::new(&[]).err(), Some(Fault::InvalidRom));
    let big = vec![0u8; 4096 - 0x200 + 1];
    assert_eq!(Processor::new(&big).err(), Some(Fault::InvalidRom));
    let full = vec![0xAB; 4096 - 0x200];
    let p = Processor::new(&full).unwrap();
    assert_eq!(p.read_byte(0xFFF), 0xAB);
    assert_eq!(p.read_byte(0x1FF), 0);
}

#[test]
fn memory_reads_big_endian_and_guards_low_writes() {
    let mut m = Memory::load(&[0x12, 0x34, 0x56]).unwrap();
    assert_eq!(m.read_word(0x200), 0x1234);
    assert_eq!(m.read_word(0x201), 0x3456);
    assert_eq!(m.read_byte(0x1200), 0x12);
    assert_eq!(m.write_byte(0x1FF, 1), Err(Fault::MemoryFault { addr: 0x1FF }));
    assert_eq!(m.write_byte(0x300, 7), Ok(()));
    assert_eq!(m.read_byte(0x300), 7);
    assert_eq!(m.write_byte(0x1100, 7), Err(Fault::MemoryFault { addr: 0x1100 }));
}

#[test]
fn register_index_is_checked() {
    let mut r = Registers::new(0);
    assert_eq!(r.get(16), Err(Fault::InvalidRegister { index: 16 }));
    assert_eq!(r.set(16, 1), Err(Fault::InvalidRegister { index: 16 }));
    assert_eq!(r.set(3, 9), Ok(()));
    assert_eq!(r.get(3), Ok(9));
    let p = boot(&[0]);
    assert_eq!(p.register(200), Err(Fault::InvalidRegister { index: 200 }));
}

#[test]
fn decode_splits_fields() {
    assert_eq!(Instruction::decode(0xD12F), Instruction::Draw { x: 1, y: 2, n: 0xF });
    assert_eq!(Instruction::decode(0xA123), Instruction::SetIndex { nnn: 0x123 });
    assert_eq!(Instruction::decode(0xF265), Instruction::Misc { x: 2, nn: 0x65 });
    assert_eq!(Instruction::decode(0x00E0), Instruction::System { nnn: 0x0E0 });
}

#[test]
fn index_bcd_and_register_transfer() {
    let mut p = boot(&[0x60, 254, 0xA3, 0x00, 0xF0, 0x33]);
    for _ in 0..3 {
        p.cycle(idle()).unwrap();
    }
    assert_eq!((p.read_byte(0x300), p.read_byte(0x301), p.read_byte(0x302)), (2, 5, 4));
    p.execute(0x6111, idle()).unwrap();
    p.execute(0x6222, idle()).unwrap();
    p.execute(0xF255, idle()).unwrap();
    assert_eq!((p.read_byte(0x300), p.read_byte(0x301), p.read_byte(0x302)), (254, 0x11, 0x22));
    p.execute(0x6000, idle()).unwrap();
    p.execute(0xF165, idle()).unwrap();
    assert_eq!((reg(&p, 0), reg(&p, 1), reg(&p, 2)), (254, 0x11, 0x22));
    p.execute(0x6305, idle()).unwrap();
    p.execute(0xF31E, idle()).unwrap();
    assert_eq!(p.index(), 0x305);
    p.execute(0xF329, idle()).unwrap();
    assert_eq!(p.index(), 25);
}

#[test]
fn stores_below_base_fault_and_change_nothing() {
    let mut p = boot(&[0]);
    p.execute(0xA100, idle()).unwrap();
    let pc = p.pc();
    assert_eq!(p.execute(0xF055, idle()), Err(Fault::MemoryFault { addr: 0x100 }));
    assert_eq!(p.execute(0xF033, idle()), Err(Fault::MemoryFault { addr: 0x100 }));
    p.execute(0xAFFE, idle()).unwrap();
    assert_eq!(p.execute(0xF033, idle()), Err(Fault::MemoryFault { addr: 0xFFE }));
    assert_eq!(p.pc(), pc + 2);
}

#[test]
fn random_is_masked() {
    let mut p = boot(&[0xC4, 0x0F]);
    p.cycle(Input { keys_down: 0, random: 0xAB }).unwrap();
    assert_eq!(reg(&p, 4), 0x0B);
}

#[test]
fn draw_reports_sprite_and_collision() {
    let mut p = boot(&[0x60, 3, 0x61, 4, 0xA2, 0x00, 0xD0, 0x12, 0x00, 0xE0]);
    for _ in 0..3 {
        p.cycle(idle()).unwrap();
    }
    let e = p.cycle(idle()).unwrap();
    assert_eq!(e, Effect::Draw { x: 3, y: 4, addr: 0x200, len: 2 });
    assert_eq!(p.sprite(0x200, 2), vec![0x60, 3]);
    p.report_collision(true);
    assert_eq!(reg(&p, 0xF), 1);
    p.report_collision(false);
    assert_eq!(reg(&p, 0xF), 0);
    assert_eq!(p.cycle(idle()), Ok(Effect::ClearDisplay));
    assert_eq!(p.pc(), 0x20A);
}

#[test]
fn wait_for_key_parks_instruction_clock() {
    let mut p = boot(&[0x63, 0x01, 0xF5, 0x0A, 0x60, 0x01]);
    p.cycle(idle()).unwrap();
    p.execute(0xF318, idle()).unwrap();
    p.execute(0x1202, idle()).unwrap();
    assert_eq!(p.cycle(idle()), Ok(Effect::AwaitingKey));
    assert!(p.awaiting_key());
    let pc = p.pc();
    assert_eq!(p.step(false, idle()), Ok(Effect::AwaitingKey));
    assert_eq!(p.pc(), pc);
    assert_eq!(p.step(true, idle()), Ok(Effect::Tone { active: false }));
    assert!(!p.press_key(16));
    assert!(p.press_key(9));
    assert!(!p.awaiting_key());
    assert_eq!(reg(&p, 5), 9);
    assert_eq!(p.pc(), pc + 2);
    assert!(!p.press_key(3));
}

#[test]
fn current_word_reads_at_pc() {
    let p = boot(&[0xAB, 0xCD]);
    assert_eq!(p.current_word(), 0xABCD);
}

#[test]
fn increment_pc_moves_two() {
    let mut p = boot(&[0]);
    p.increment_pc();
    assert_eq!(p.pc(), LOAD_BASE + 2);
    p.execute(0x1FFE, idle()).unwrap();
    p.increment_pc();
    assert_eq!(p.pc(), 0);
}

#[test]
fn fitting_rom_loads_into_initial_state() {
    let a = Processor::new(&[0x12, 0x34]).unwrap();
    let b = Processor::new(&vec![0xFF; 4096 - 0x200]).unwrap();
    for p in [&a, &b] {
        assert_eq!(p.pc(), LOAD_BASE);
        assert_eq!(p.index(), 0);
        assert_eq!((p.delay(), p.sound()), (0, 0));
        assert_eq!(p.stack_depth(), 0);
        assert!(!p.awaiting_key());
        for x in 0..16 {
            assert_eq!(p.register(x), Ok(0));
        }
    }
    for addr in 0..0x200u16 {
        assert_eq!(a.read_byte(addr), 0);
        assert_eq!(b.read_byte(addr), 0);
    }
    assert_eq!((a.read_byte(0x200), a.read_byte(0x201), a.read_byte(0x202)), (0x12, 0x34, 0));
}
