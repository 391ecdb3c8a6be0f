use vstd::prelude::*;

verus! {

/// A decoded instruction word: one variant per opcode class (the top four
/// bits), carrying the operand fields that class reads.
///
/// `x` and `y` are register indices, `n` the low nibble, `nn` the low byte,
/// `nnn` the low twelve bits of the word.
#[derive(Clone, Copy, Debug, PartialEq, Eq, Structural)]
pub enum Instruction {
    /// `0nnn`: `00E0` clears the display, `00EE` returns.
    System { nnn: u16 },
    /// `1nnn`: jump.
    Goto { nnn: u16 },
    /// `2nnn`: call.
    Call { nnn: u16 },
    /// `3xnn`: skip when `Vx == nn`.
    SkipEqualImm { x: u8, nn: u8 },
    /// `4xnn`: skip when `Vx != nn`.
    SkipNotEqualImm { x: u8, nn: u8 },
    /// `5xyn`: skip when `Vx == Vy` (with `n == 0`).
    SkipEqualReg { x: u8, y: u8, n: u8 },
    /// `6xnn`: `Vx = nn`.
    Load { x: u8, nn: u8 },
    /// `7xnn`: `Vx += nn`, wrapping, flag untouched.
    Add { x: u8, nn: u8 },
    /// `8xyn`: arithmetic and logic between `Vx` and `Vy`, selected by `n`.
    Alu { x: u8, y: u8, n: u8 },
    /// `9xyn`: skip when `Vx != Vy` (with `n == 0`).
    SkipNotEqualReg { x: u8, y: u8, n: u8 },
    /// `Annn`: `I = nnn`.
    SetIndex { nnn: u16 },
    /// `Bnnn`: jump to `nnn + V0`.
    JumpOffset { nnn: u16 },
    /// `Cxnn`: `Vx = random & nn`.
    Random { x: u8, nn: u8 },
    /// `Dxyn`: draw an `n`-byte sprite at `(Vx, Vy)`.
    Draw { x: u8, y: u8, n: u8 },
    /// `Exnn`: skip on the state of key `Vx`.
    SkipWithKey { x: u8, nn: u8 },
    /// `Fxnn`: timers, key wait, index arithmetic and register/memory transfers.
    Misc { x: u8, nn: u8 },
}

/// The instruction that word `w` encodes.
pub open spec fn decoded(w: u16) -> Instruction {
    let class = w / 4096;
    let x = ((w / 256) % 16) as u8;
    let y = ((w / 16) % 16) as u8;
    let n = (w % 16) as u8;
    let nn = (w % 256) as u8;
    let nnn = (w % 4096) as u16;
    if class == 0 {
        Instruction::System { nnn }
    } else if class == 1 {
        Instruction::Goto { nnn }
    } else if class == 2 {
        Instruction::Call { nnn }
    } else if class == 3 {
        Instruction::SkipEqualImm { x, nn }
    } else if class == 4 {
        Instruction::SkipNotEqualImm { x, nn }
    } else if class == 5 {
        Instruction::SkipEqualReg { x, y, n }
    } else if class == 6 {
        Instruction::Load { x, nn }
    } else if class == 7 {
        Instruction::Add { x, nn }
    } else if class == 8 {
        Instruction::Alu { x, y, n }
    } else if class == 9 {
        Instruction::SkipNotEqualReg { x, y, n }
    } else if class == 10 {
        Instruction::SetIndex { nnn }
    } else if class == 11 {
        Instruction::JumpOffset { nnn }
    } else if class == 12 {
        Instruction::Random { x, nn }
    } else if class == 13 {
        Instruction::Draw { x, y, n }
    } else if class == 14 {
        Instruction::SkipWithKey { x, nn }
    } else {
        Instruction::Misc { x, nn }
    }
}

impl Instruction {
    /// Splits a 16-bit instruction word into its opcode class and operand fields.
    pub fn decode(word: u16) -> (r: Instruction)
        ensures
            r == decoded(word),
    {
        let class = word >> 12u16;
        let x = ((word >> 8u16) & 0xF) as u8;
        let y = ((word >> 4u16) & 0xF) as u8;
        let n = (word & 0xF) as u8;
        let nn = (word & 0xFF) as u8;
        let nnn = word & 0xFFF;
        assert(class == word / 4096 && (word >> 8u16) & 0xF == (word / 256) % 16 && (word >> 4u16)
            & 0xF == (word / 16) % 16 && word & 0xF == word % 16 && word & 0xFF == word % 256 && word
            & 0xFFF == word % 4096 && class < 16) by (bit_vector)
            requires
                class == word >> 12u16,
        ;
        match class {
            0 => Instruction::System { nnn },
            1 => Instruction::Goto { nnn },
            2 => Instruction::Call { nnn },
            3 => Instruction::SkipEqualImm { x, nn },
            4 => Instruction::SkipNotEqualImm { x, nn },
            5 => Instruction::SkipEqualReg { x, y, n },
            6 => Instruction::Load { x, nn },
            7 => Instruction::Add { x, nn },
            8 => Instruction::Alu { x, y, n },
            9 => Instruction::SkipNotEqualReg { x, y, n },
            10 => Instruction::SetIndex { nnn },
            11 => Instruction::JumpOffset { nnn },
            12 => Instruction::Random { x, nn },
            13 => Instruction::Draw { x, y, n },
            14 => Instruction::SkipWithKey { x, nn },
            _ => Instruction::Misc { x, nn },
        }
    }
}

} // verus!
