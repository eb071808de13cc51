use vstd::prelude::*;

verus! {

/// One decoded CHIP-8 instruction, operands already extracted.
///
/// `x` and `y` name general registers (after decoding always below 16), `nn`
/// is a byte immediate, `n` a nibble immediate and `nnn` a 12-bit address.
#[derive(Clone, Copy, PartialEq, Eq, Structural, Debug)]
pub enum Instruction {
    /// 00E0: clear the screen.
    ClearScreen,
    /// 00EE: return from a subroutine.
    Return,
    /// 1nnn: jump to nnn.
    Jump { nnn: u16 },
    /// 2nnn: call the subroutine at nnn.
    Call { nnn: u16 },
    /// 3xnn: skip the next instruction if Vx == nn.
    SkipIfEqualImmediate { x: u8, nn: u8 },
    /// 4xnn: skip the next instruction if Vx != nn.
    SkipIfNotEqualImmediate { x: u8, nn: u8 },
    /// 5xy0: skip the next instruction if Vx == Vy.
    SkipIfEqualRegister { x: u8, y: u8 },
    /// 6xnn: Vx := nn.
    SetImmediate { x: u8, nn: u8 },
    /// 7xnn: Vx := Vx + nn, wrapping, no flag.
    AddImmediate { x: u8, nn: u8 },
    /// 8xy0: Vx := Vy.
    Assign { x: u8, y: u8 },
    /// 8xy1: Vx := Vx | Vy.
    Or { x: u8, y: u8 },
    /// 8xy2: Vx := Vx & Vy.
    And { x: u8, y: u8 },
    /// 8xy3: Vx := Vx ^ Vy.
    Xor { x: u8, y: u8 },
    /// 8xy4: Vx := Vx + Vy with the carry in VF.
    AddWithCarry { x: u8, y: u8 },
    /// 8xy5: Vx := Vx - Vy; VF = 1 means no borrow.
    SubWithBorrow { x: u8, y: u8 },
    /// 8xy6: Vx := Vx >> 1 with the old least significant bit in VF.
    ShiftRight { x: u8 },
    /// 8xy7: Vx := Vy - Vx; VF = 1 means no borrow.
    SubReversed { x: u8, y: u8 },
    /// 8xyE: Vx := Vx << 1 with the old most significant bit in VF.
    ShiftLeft { x: u8 },
    /// 9xy0: skip the next instruction if Vx != Vy.
    SkipIfNotEqualRegister { x: u8, y: u8 },
    /// Annn: I := nnn.
    SetIndex { nnn: u16 },
    /// Bnnn: jump to nnn + V0.
    JumpPlusV0 { nnn: u16 },
    /// Cxnn: Vx := nn & a random byte.
    Random { x: u8, nn: u8 },
    /// Dxyn: XOR an n-row sprite at (Vx, Vy) with the collision bit in VF.
    Draw { x: u8, y: u8, n: u8 },
    /// Ex9E: skip the next instruction if key Vx is pressed.
    SkipIfKeyPressed { x: u8 },
    /// ExA1: skip the next instruction if key Vx is not pressed.
    SkipIfKeyNotPressed { x: u8 },
    /// Fx07: Vx := delay timer.
    ReadDelayTimer { x: u8 },
    /// Fx0A: wait (by polling) for a key press, then store the key in Vx.
    WaitForKey { x: u8 },
    /// Fx15: delay timer := Vx.
    SetDelayTimer { x: u8 },
    /// Fx18: sound timer := Vx.
    SetSoundTimer { x: u8 },
    /// Fx1E: I := I + Vx with the 12-bit overflow bit in VF.
    AddIndex { x: u8 },
    /// Fx29: I := address of the built-in glyph for the hex digit Vx.
    FontAddress { x: u8 },
    /// Fx33: store the three decimal digits of Vx at I, I+1, I+2.
    StoreBcd { x: u8 },
    /// Fx55: store V0..=Vx into memory starting at I.
    StoreRegisters { x: u8 },
    /// Fx65: load V0..=Vx from memory starting at I.
    LoadRegisters { x: u8 },
}

/// Bits 8..12 of an opcode: the first register selector.
pub open spec fn op_x(op: u16) -> u8 {
    ((op >> 8) & 0xF) as u8
}

/// Bits 4..8 of an opcode: the second register selector.
pub open spec fn op_y(op: u16) -> u8 {
    ((op >> 4) & 0xF) as u8
}

/// The low nibble of an opcode.
pub open spec fn op_n(op: u16) -> u8 {
    (op & 0xF) as u8
}

/// The low byte of an opcode.
pub open spec fn op_nn(op: u16) -> u8 {
    (op & 0xFF) as u8
}

/// The low 12 bits of an opcode: an address.
pub open spec fn op_nnn(op: u16) -> u16 {
    op & 0xFFF
}

/// The operand fields of an opcode are nibble- or byte- or 12-bit-sized.
pub proof fn lemma_operand_ranges(op: u16)
    by (bit_vector)
    ensures
        (op >> 8) & 0xF < 16,
        (op >> 4) & 0xF < 16,
        op & 0xF < 16,
        op & 0xFF < 256,
        op & 0xFFF < 0x1000,
{
}

impl Instruction {
    /// Decoded operands stay within their field widths.
    pub open spec fn wf(self) -> bool {
        match self {
            Instruction::ClearScreen => true,
            Instruction::Return => true,
            Instruction::Jump { nnn } => nnn < 0x1000,
            Instruction::Call { nnn } => nnn < 0x1000,
            Instruction::SkipIfEqualImmediate { x, nn } => x < 16,
            Instruction::SkipIfNotEqualImmediate { x, nn } => x < 16,
            Instruction::SkipIfEqualRegister { x, y } => x < 16 && y < 16,
            Instruction::SetImmediate { x, nn } => x < 16,
            Instruction::AddImmediate { x, nn } => x < 16,
            Instruction::Assign { x, y } => x < 16 && y < 16,
            Instruction::Or { x, y } => x < 16 && y < 16,
            Instruction::And { x, y } => x < 16 && y < 16,
            Instruction::Xor { x, y } => x < 16 && y < 16,
            Instruction::AddWithCarry { x, y } => x < 16 && y < 16,
            Instruction::SubWithBorrow { x, y } => x < 16 && y < 16,
            Instruction::ShiftRight { x } => x < 16,
            Instruction::SubReversed { x, y } => x < 16 && y < 16,
            Instruction::ShiftLeft { x } => x < 16,
            Instruction::SkipIfNotEqualRegister { x, y } => x < 16 && y < 16,
            Instruction::SetIndex { nnn } => nnn < 0x1000,
            Instruction::JumpPlusV0 { nnn } => nnn < 0x1000,
            Instruction::Random { x, nn } => x < 16,
            Instruction::Draw { x, y, n } => x < 16 && y < 16 && n < 16,
            Instruction::SkipIfKeyPressed { x } => x < 16,
            Instruction::SkipIfKeyNotPressed { x } => x < 16,
            Instruction::ReadDelayTimer { x } => x < 16,
            Instruction::WaitForKey { x } => x < 16,
            Instruction::SetDelayTimer { x } => x < 16,
            Instruction::SetSoundTimer { x } => x < 16,
            Instruction::AddIndex { x } => x < 16,
            Instruction::FontAddress { x } => x < 16,
            Instruction::StoreBcd { x } => x < 16,
            Instruction::StoreRegisters { x } => x < 16,
            Instruction::LoadRegisters { x } => x < 16,
        }
    }
}

/// The meaning of a 16-bit opcode word, as a decoded instruction; `None`
/// where the word matches no CHIP-8 instruction.
pub open spec fn spec_decode(op: u16) -> Option<Instruction> {
    let x = op_x(op);
    let y = op_y(op);
    let n = op_n(op);
    let nn = op_nn(op);
    let nnn = op_nnn(op);
    if op == 0x00E0 {
        Some(Instruction::ClearScreen)
    } else if op == 0x00EE {
        Some(Instruction::Return)
    } else if op & 0xF000 == 0x1000 {
        Some(Instruction::Jump { nnn })
    } else if op & 0xF000 == 0x2000 {
        Some(Instruction::Call { nnn })
    } else if op & 0xF000 == 0x3000 {
        Some(Instruction::SkipIfEqualImmediate { x, nn })
    } else if op & 0xF000 == 0x4000 {
        Some(Instruction::SkipIfNotEqualImmediate { x, nn })
    } else if op & 0xF000 == 0x5000 && n == 0 {
        Some(Instruction::SkipIfEqualRegister { x, y })
    } else if op & 0xF000 == 0x6000 {
        Some(Instruction::SetImmediate { x, nn })
    } else if op & 0xF000 == 0x7000 {
        Some(Instruction::AddImmediate { x, nn })
    } else if op & 0xF000 == 0x8000 {
        if n == 0x0 {
            Some(Instruction::Assign { x, y })
        } else if n == 0x1 {
            Some(Instruction::Or { x, y })
        } else if n == 0x2 {
            Some(Instruction::And { x, y })
        } else if n == 0x3 {
            Some(Instruction::Xor { x, y })
        } else if n == 0x4 {
            Some(Instruction::AddWithCarry { x, y })
        } else if n == 0x5 {
            Some(Instruction::SubWithBorrow { x, y })
        } else if n == 0x6 {
            Some(Instruction::ShiftRight { x })
        } else if n == 0x7 {
            Some(Instruction::SubReversed { x, y })
        } else if n == 0xE {
            Some(Instruction::ShiftLeft { x })
        } else {
            None
        }
    } else if op & 0xF000 == 0x9000 && n == 0 {
        Some(Instruction::SkipIfNotEqualRegister { x, y })
    } else if op & 0xF000 == 0xA000 {
        Some(Instruction::SetIndex { nnn })
    } else if op & 0xF000 == 0xB000 {
        Some(Instruction::JumpPlusV0 { nnn })
    } else if op & 0xF000 == 0xC000 {
        Some(Instruction::Random { x, nn })
    } else if op & 0xF000 == 0xD000 {
        Some(Instruction::Draw { x, y, n })
    } else if op & 0xF000 == 0xE000 && nn == 0x9E {
        Some(Instruction::SkipIfKeyPressed { x })
    } else if op & 0xF000 == 0xE000 && nn == 0xA1 {
        Some(Instruction::SkipIfKeyNotPressed { x })
    } else if op & 0xF000 == 0xF000 {
        if nn == 0x07 {
            Some(Instruction::ReadDelayTimer { x })
        } else if nn == 0x0A {
            Some(Instruction::WaitForKey { x })
        } else if nn == 0x15 {
            Some(Instruction::SetDelayTimer { x })
        } else if nn == 0x18 {
            Some(Instruction::SetSoundTimer { x })
        } else if nn == 0x1E {
            Some(Instruction::AddIndex { x })
        } else if nn == 0x29 {
            Some(Instruction::FontAddress { x })
        } else if nn == 0x33 {
            Some(Instruction::StoreBcd { x })
        } else if nn == 0x55 {
            Some(Instruction::StoreRegisters { x })
        } else if nn == 0x65 {
            Some(Instruction::LoadRegisters { x })
        } else {
            None
        }
    } else {
        None
    }
}

/// Whatever a word decodes to is a well-formed instruction.
pub proof fn lemma_decode_wf(op: u16)
    ensures
        spec_decode(op) is Some ==> spec_decode(op).unwrap().wf(),
{
    lemma_operand_ranges(op);
}

/// Decode one opcode word; `None` marks an unknown instruction, which the
/// interpreter reports as a fault rather than skipping.
pub fn decode(op: u16) -> (r: Option<Instruction>)
    ensures
        r == spec_decode(op),
{
    let x = ((op >> 8) & 0xF) as u8;
    let y = ((op >> 4) & 0xF) as u8;
    let n = (op & 0xF) as u8;
    let nn = (op & 0xFF) as u8;
    let nnn = op & 0xFFF;
    if op == 0x00E0 {
        Some(Instruction::ClearScreen)
    } else if op == 0x00EE {
        Some(Instruction::Return)
    } else if op & 0xF000 == 0x1000 {
        Some(Instruction::Jump { nnn })
    } else if op & 0xF000 == 0x2000 {
        Some(Instruction::Call { nnn })
    } else if op & 0xF000 == 0x3000 {
        Some(Instruction::SkipIfEqualImmediate { x, nn })
    } else if op & 0xF000 == 0x4000 {
        Some(Instruction::SkipIfNotEqualImmediate { x, nn })
    } else if op & 0xF000 == 0x5000 && n == 0 {
        Some(Instruction::SkipIfEqualRegister { x, y })
    } else if op & 0xF000 == 0x6000 {
        Some(Instruction::SetImmediate { x, nn })
    } else if op & 0xF000 == 0x7000 {
        Some(Instruction::AddImmediate { x, nn })
    } else if op & 0xF000 == 0x8000 {
        if n == 0x0 {
            Some(Instruction::Assign { x, y })
        } else if n == 0x1 {
            Some(Instruction::Or { x, y })
        } else if n == 0x2 {
            Some(Instruction::And { x, y })
        } else if n == 0x3 {
            Some(Instruction::Xor { x, y })
        } else if n == 0x4 {
            Some(Instruction::AddWithCarry { x, y })
        } else if n == 0x5 {
            Some(Instruction::SubWithBorrow { x, y })
        } else if n == 0x6 {
            Some(Instruction::ShiftRight { x })
        } else if n == 0x7 {
            Some(Instruction::SubReversed { x, y })
        } else if n == 0xE {
            Some(Instruction::ShiftLeft { x })
        } else {
            None
        }
    } else if op & 0xF000 == 0x9000 && n == 0 {
        Some(Instruction::SkipIfNotEqualRegister { x, y })
    } else if op & 0xF000 == 0xA000 {
        Some(Instruction::SetIndex { nnn })
    } else if op & 0xF000 == 0xB000 {
        Some(Instruction::JumpPlusV0 { nnn })
    } else if op & 0xF000 == 0xC000 {
        Some(Instruction::Random { x, nn })
    } else if op & 0xF000 == 0xD000 {
        Some(Instruction::Draw { x, y, n })
    } else if op & 0xF000 == 0xE000 && nn == 0x9E {
        Some(Instruction::SkipIfKeyPressed { x })
    } else if op & 0xF000 == 0xE000 && nn == 0xA1 {
        Some(Instruction::SkipIfKeyNotPressed { x })
    } else if op & 0xF000 == 0xF000 {
        if nn == 0x07 {
            Some(Instruction::ReadDelayTimer { x })
        } else if nn == 0x0A {
            Some(Instruction::WaitForKey { x })
        } else if nn == 0x15 {
            Some(Instruction::SetDelayTimer { x })
        } else if nn == 0x18 {
            Some(Instruction::SetSoundTimer { x })
        } else if nn == 0x1E {
            Some(Instruction::AddIndex { x })
        } else if nn == 0x29 {
            Some(Instruction::FontAddress { x })
        } else if nn == 0x33 {
            Some(Instruction::StoreBcd { x })
        } else if nn == 0x55 {
            Some(Instruction::StoreRegisters { x })
        } else if nn == 0x65 {
            Some(Instruction::LoadRegisters { x })
        } else {
            None
        }
    } else {
        None
    }
}

} // verus!
