//! Opcode decoding: splitting a 16-bit instruction word into its 4-bit
//! fields and selecting exactly one operation of the instruction table.
//!
//! Patterns with fixed fields (the clear, return, skip-on-key and timer
//! groups) take precedence over the family-wide wildcard patterns, in the
//! documented order; anything that matches no row decodes to `Unknown`.

use vstd::prelude::*;

verus! {

/// The leading nibble of an opcode: the operation family.
pub open spec fn op_family(op: u16) -> u16 {
    op / 0x1000
}

/// The second nibble: the register index `x`.
pub open spec fn op_x(op: u16) -> u8 {
    ((op / 0x100) % 0x10) as u8
}

/// The third nibble: the register index `y`.
pub open spec fn op_y(op: u16) -> u8 {
    ((op / 0x10) % 0x10) as u8
}

/// The trailing nibble: the 4-bit immediate `n`.
pub open spec fn op_n(op: u16) -> u8 {
    (op % 0x10) as u8
}

/// The low 12 bits: the address immediate `nnn`.
pub open spec fn op_nnn(op: u16) -> u16 {
    op % 0x1000
}

/// The low 8 bits: the byte immediate `nn`.
pub open spec fn op_nn(op: u16) -> u8 {
    (op % 0x100) as u8
}

/// One decoded operation of the instruction table. Register indices `x`
/// and `y` are 4-bit fields, so they are always in range for the sixteen
/// registers; `nnn` is a 12-bit address immediate and `nn` an 8-bit byte
/// immediate.
#[derive(Clone, Copy, Debug, PartialEq, Eq, Structural)]
pub enum Instr {
    /// `0,0,0,0`: no operation.
    Nop,
    /// `0,0,E,0`: clear the display.
    ClearScreen,
    /// `0,0,E,E`: pop a return address into the program counter.
    Ret,
    /// `1,_,_,_`: jump to `nnn`.
    Jump { nnn: u16 },
    /// `2,_,_,_`: push the program counter, jump to `nnn`.
    Call { nnn: u16 },
    /// `3,x,_,_`: skip the next instruction if register `x` equals `nn`.
    SkipEqImm { x: u8, nn: u8 },
    /// `4,x,_,_`: skip the next instruction if register `x` differs from `nn`.
    SkipNeImm { x: u8, nn: u8 },
    /// `5,x,y,0`: skip the next instruction if registers `x` and `y` are equal.
    SkipEqReg { x: u8, y: u8 },
    /// `6,x,_,_`: set register `x` to `nn`.
    SetImm { x: u8, nn: u8 },
    /// `7,x,_,_`: add `nn` to register `x`, wrapping, flags untouched.
    AddImm { x: u8, nn: u8 },
    /// `8,x,y,0`: copy register `y` into register `x`.
    Mov { x: u8, y: u8 },
    /// `8,x,y,1`: bitwise OR of registers `x` and `y` into `x`.
    Or { x: u8, y: u8 },
    /// `8,x,y,2`: bitwise AND of registers `x` and `y` into `x`.
    And { x: u8, y: u8 },
    /// `8,x,y,3`: bitwise XOR of registers `x` and `y` into `x`.
    Xor { x: u8, y: u8 },
    /// `8,x,y,4`: add register `y` to `x`; register 15 records the carry.
    AddReg { x: u8, y: u8 },
    /// `8,x,y,5`: subtract register `y` from `x`; register 15 records no-borrow.
    SubReg { x: u8, y: u8 },
    /// `8,x,y,6`: shift register `x` right by one; register 15 takes the low bit.
    Shr { x: u8, y: u8 },
    /// `8,x,y,7`: register `x` becomes `y` minus `x`; register 15 records no-borrow.
    SubN { x: u8, y: u8 },
    /// `8,x,y,E`: shift register `x` left by one; register 15 takes the high bit.
    Shl { x: u8, y: u8 },
    /// `9,x,y,0`: skip the next instruction if registers `x` and `y` differ.
    SkipNeReg { x: u8, y: u8 },
    /// `A,_,_,_`: set the index register to `nnn`.
    SetIndex { nnn: u16 },
    /// `B,_,_,_`: jump to register 0 plus `nnn`.
    JumpV0 { nnn: u16 },
    /// `C,x,_,_`: set register `x` to a random byte masked with `nn`.
    Rand { x: u8, nn: u8 },
    /// `D,x,y,n`: draw an `n`-row sprite at the coordinates in registers
    /// `x` and `y`; register 15 records a collision.
    Draw { x: u8, y: u8, n: u8 },
    /// `E,x,9,E`: skip the next instruction if the key in register `x` is held.
    SkipKey { x: u8 },
    /// `E,x,A,1`: skip the next instruction if the key in register `x` is not held.
    SkipNoKey { x: u8 },
    /// `F,x,0,7`: copy the delay timer into register `x`.
    GetDelay { x: u8 },
    /// `F,x,0,A`: wait for a key: store the lowest held key into register
    /// `x`, or rewind the program counter to retry.
    WaitKey { x: u8 },
    /// `F,x,1,5`: copy register `x` into the delay timer.
    SetDelay { x: u8 },
    /// `F,x,1,8`: copy register `x` into the sound timer.
    SetSound { x: u8 },
    /// `F,x,1,E`: add register `x` to the index register, wrapping.
    AddIndex { x: u8 },
    /// `F,x,2,9`: point the index register at the glyph for register `x`.
    Font { x: u8 },
    /// `F,x,3,3`: store the decimal digits of register `x` at the index
    /// register and the two following addresses.
    Bcd { x: u8 },
    /// `F,x,5,5`: store registers 0 through `x` at the index register onward.
    StoreRegs { x: u8 },
    /// `F,x,6,5`: load registers 0 through `x` from the index register onward.
    LoadRegs { x: u8 },
    /// Any other word: an unrecognized opcode, a fatal condition.
    Unknown,
}

/// The instruction table: maps an opcode to the one operation it selects.
/// Fixed-field rows are tested before the wildcard row of their family.
pub open spec fn spec_decode(op: u16) -> Instr {
    let d = op_family(op);
    let x = op_x(op);
    let y = op_y(op);
    let n = op_n(op);
    if d == 0x0 && x == 0 && y == 0x0 && n == 0x0 {
        Instr::Nop
    } else if d == 0x0 && x == 0 && y == 0xE && n == 0x0 {
        Instr::ClearScreen
    } else if d == 0x0 && x == 0 && y == 0xE && n == 0xE {
        Instr::Ret
    } else if d == 0x1 {
        Instr::Jump { nnn: op_nnn(op) }
    } else if d == 0x2 {
        Instr::Call { nnn: op_nnn(op) }
    } else if d == 0x3 {
        Instr::SkipEqImm { x, nn: op_nn(op) }
    } else if d == 0x4 {
        Instr::SkipNeImm { x, nn: op_nn(op) }
    } else if d == 0x5 && n == 0x0 {
        Instr::SkipEqReg { x, y }
    } else if d == 0x6 {
        Instr::SetImm { x, nn: op_nn(op) }
    } else if d == 0x7 {
        Instr::AddImm { x, nn: op_nn(op) }
    } else if d == 0x8 && n == 0x0 {
        Instr::Mov { x, y }
    } else if d == 0x8 && n == 0x1 {
        Instr::Or { x, y }
    } else if d == 0x8 && n == 0x2 {
        Instr::And { x, y }
    } else if d == 0x8 && n == 0x3 {
        Instr::Xor { x, y }
    } else if d == 0x8 && n == 0x4 {
        Instr::AddReg { x, y }
    } else if d == 0x8 && n == 0x5 {
        Instr::SubReg { x, y }
    } else if d == 0x8 && n == 0x6 {
        Instr::Shr { x, y }
    } else if d == 0x8 && n == 0x7 {
        Instr::SubN { x, y }
    } else if d == 0x8 && n == 0xE {
        Instr::Shl { x, y }
    } else if d == 0x9 && n == 0x0 {
        Instr::SkipNeReg { x, y }
    } else if d == 0xA {
        Instr::SetIndex { nnn: op_nnn(op) }
    } else if d == 0xB {
        Instr::JumpV0 { nnn: op_nnn(op) }
    } else if d == 0xC {
        Instr::Rand { x, nn: op_nn(op) }
    } else if d == 0xD {
        Instr::Draw { x, y, n }
    } else if d == 0xE && y == 0x9 && n == 0xE {
        Instr::SkipKey { x }
    } else if d == 0xE && y == 0xA && n == 0x1 {
        Instr::SkipNoKey { x }
    } else if d == 0xF && y == 0x0 && n == 0x7 {
        Instr::GetDelay { x }
    } else if d == 0xF && y == 0x0 && n == 0xA {
        Instr::WaitKey { x }
    } else if d == 0xF && y == 0x1 && n == 0x5 {
        Instr::SetDelay { x }
    } else if d == 0xF && y == 0x1 && n == 0x8 {
        Instr::SetSound { x }
    } else if d == 0xF && y == 0x1 && n == 0xE {
        Instr::AddIndex { x }
    } else if d == 0xF && y == 0x2 && n == 0x9 {
        Instr::Font { x }
    } else if d == 0xF && y == 0x3 && n == 0x3 {
        Instr::Bcd { x }
    } else if d == 0xF && y == 0x5 && n == 0x5 {
        Instr::StoreRegs { x }
    } else if d == 0xF && y == 0x6 && n == 0x5 {
        Instr::LoadRegs { x }
    } else {
        Instr::Unknown
    }
}

/// The field ranges decoding guarantees by construction: register
/// indices and the 4-bit immediate are nibbles, the address immediate is
/// 12 bits. Out-of-range register or key accesses therefore cannot arise
/// from decoding.
pub open spec fn instr_fields_wf(instr: Instr) -> bool {
    match instr {
        Instr::Nop => true,
        Instr::ClearScreen => true,
        Instr::Ret => true,
        Instr::Jump { nnn } => nnn < 0x1000,
        Instr::Call { nnn } => nnn < 0x1000,
        Instr::SkipEqImm { x, nn } => x < 16,
        Instr::SkipNeImm { x, nn } => x < 16,
        Instr::SkipEqReg { x, y } => x < 16 && y < 16,
        Instr::SetImm { x, nn } => x < 16,
        Instr::AddImm { x, nn } => x < 16,
        Instr::Mov { x, y } => x < 16 && y < 16,
        Instr::Or { x, y } => x < 16 && y < 16,
        Instr::And { x, y } => x < 16 && y < 16,
        Instr::Xor { x, y } => x < 16 && y < 16,
        Instr::AddReg { x, y } => x < 16 && y < 16,
        Instr::SubReg { x, y } => x < 16 && y < 16,
        Instr::Shr { x, y } => x < 16 && y < 16,
        Instr::SubN { x, y } => x < 16 && y < 16,
        Instr::Shl { x, y } => x < 16 && y < 16,
        Instr::SkipNeReg { x, y } => x < 16 && y < 16,
        Instr::SetIndex { nnn } => nnn < 0x1000,
        Instr::JumpV0 { nnn } => nnn < 0x1000,
        Instr::Rand { x, nn } => x < 16,
        Instr::Draw { x, y, n } => x < 16 && y < 16 && n < 16,
        Instr::SkipKey { x } => x < 16,
        Instr::SkipNoKey { x } => x < 16,
        Instr::GetDelay { x } => x < 16,
        Instr::WaitKey { x } => x < 16,
        Instr::SetDelay { x } => x < 16,
        Instr::SetSound { x } => x < 16,
        Instr::AddIndex { x } => x < 16,
        Instr::Font { x } => x < 16,
        Instr::Bcd { x } => x < 16,
        Instr::StoreRegs { x } => x < 16,
        Instr::LoadRegs { x } => x < 16,
        Instr::Unknown => true,
    }
}

/// Decoding only ever produces in-range fields.
pub proof fn lemma_decode_fields_wf(op: u16)
    ensures
        instr_fields_wf(spec_decode(op)),
{
}

/// Decodes one opcode into the single operation it selects.
pub fn decode(op: u16) -> (r: Instr)
    ensures
        r == spec_decode(op),
        instr_fields_wf(r),
{
    let d = op / 0x1000;
    let x = ((op / 0x100) % 0x10) as u8;
    let y = ((op / 0x10) % 0x10) as u8;
    let n = (op % 0x10) as u8;
    let nnn = op % 0x1000;
    let nn = (op % 0x100) as u8;
    match (d, x, y, n) {
        (0, 0, 0x0, 0x0) => Instr::Nop,
        (0, 0, 0xE, 0x0) => Instr::ClearScreen,
        (0, 0, 0xE, 0xE) => Instr::Ret,
        (1, _, _, _) => Instr::Jump { nnn },
        (2, _, _, _) => Instr::Call { nnn },
        (3, _, _, _) => Instr::SkipEqImm { x, nn },
        (4, _, _, _) => Instr::SkipNeImm { x, nn },
        (5, _, _, 0x0) => Instr::SkipEqReg { x, y },
        (6, _, _, _) => Instr::SetImm { x, nn },
        (7, _, _, _) => Instr::AddImm { x, nn },
        (8, _, _, 0x0) => Instr::Mov { x, y },
        (8, _, _, 0x1) => Instr::Or { x, y },
        (8, _, _, 0x2) => Instr::And { x, y },
        (8, _, _, 0x3) => Instr::Xor { x, y },
        (8, _, _, 0x4) => Instr::AddReg { x, y },
        (8, _, _, 0x5) => Instr::SubReg { x, y },
        (8, _, _, 0x6) => Instr::Shr { x, y },
        (8, _, _, 0x7) => Instr::SubN { x, y },
        (8, _, _, 0xE) => Instr::Shl { x, y },
        (9, _, _, 0x0) => Instr::SkipNeReg { x, y },
        (0xA, _, _, _) => Instr::SetIndex { nnn },
        (0xB, _, _, _) => Instr::JumpV0 { nnn },
        (0xC, _, _, _) => Instr::Rand { x, nn },
        (0xD, _, _, _) => Instr::Draw { x, y, n },
        (0xE, _, 0x9, 0xE) => Instr::SkipKey { x },
        (0xE, _, 0xA, 0x1) => Instr::SkipNoKey { x },
        (0xF, _, 0x0, 0x7) => Instr::GetDelay { x },
        (0xF, _, 0x0, 0xA) => Instr::WaitKey { x },
        (0xF, _, 0x1, 0x5) => Instr::SetDelay { x },
        (0xF, _, 0x1, 0x8) => Instr::SetSound { x },
        (0xF, _, 0x1, 0xE) => Instr::AddIndex { x },
        (0xF, _, 0x2, 0x9) => Instr::Font { x },
        (0xF, _, 0x3, 0x3) => Instr::Bcd { x },
        (0xF, _, 0x5, 0x5) => Instr::StoreRegs { x },
        (0xF, _, 0x6, 0x5) => Instr::LoadRegs { x },
        (_, _, _, _) => Instr::Unknown,
    }
}

/// Exactly one table entry applies to every two-byte opcode, per the
/// precedence order: the fixed-field rows win over the wildcard row of
/// their family, and a word that matches no row decodes to `Unknown`.
/// Each clause characterizes the outcome for one family of the table.
#[verifier::rlimit(100)]
#[verifier::spinoff_prover]
pub proof fn lemma_decode_table()
    ensures
        spec_decode(0x0000) == Instr::Nop,
        spec_decode(0x00E0) == Instr::ClearScreen,
        spec_decode(0x00EE) == Instr::Ret,
        forall|op: u16|
            op_family(op) == 0x0 && op != 0x0000 && op != 0x00E0 && op != 0x00EE
                ==> spec_decode(op) == Instr::Unknown,
        forall|op: u16|
            op_family(op) == 0x1 ==> spec_decode(op) == (Instr::Jump { nnn: op_nnn(op) }),
        forall|op: u16|
            op_family(op) == 0x2 ==> spec_decode(op) == (Instr::Call { nnn: op_nnn(op) }),
        forall|op: u16|
            op_family(op) == 0x3 ==> spec_decode(op) == (Instr::SkipEqImm {
                x: op_x(op),
                nn: op_nn(op),
            }),
        forall|op: u16|
            op_family(op) == 0x4 ==> spec_decode(op) == (Instr::SkipNeImm {
                x: op_x(op),
                nn: op_nn(op),
            }),
        forall|op: u16|
            op_family(op) == 0x5 && op_n(op) == 0x0 ==> spec_decode(op) == (Instr::SkipEqReg {
                x: op_x(op),
                y: op_y(op),
            }),
        forall|op: u16| op_family(op) == 0x5 && op_n(op) != 0x0 ==> spec_decode(op) == Instr::Unknown,
        forall|op: u16|
            op_family(op) == 0x6 ==> spec_decode(op) == (Instr::SetImm {
                x: op_x(op),
                nn: op_nn(op),
            }),
        forall|op: u16|
            op_family(op) == 0x7 ==> spec_decode(op) == (Instr::AddImm {
                x: op_x(op),
                nn: op_nn(op),
            }),
        forall|op: u16|
            op_family(op) == 0x8 && op_n(op) == 0x0 ==> spec_decode(op) == (Instr::Mov {
                x: op_x(op),
                y: op_y(op),
            }),
        forall|op: u16|
            op_family(op) == 0x8 && op_n(op) == 0x1 ==> spec_decode(op) == (Instr::Or {
                x: op_x(op),
                y: op_y(op),
            }),
        forall|op: u16|
            op_family(op) == 0x8 && op_n(op) == 0x2 ==> spec_decode(op) == (Instr::And {
                x: op_x(op),
                y: op_y(op),
            }),
        forall|op: u16|
            op_family(op) == 0x8 && op_n(op) == 0x3 ==> spec_decode(op) == (Instr::Xor {
                x: op_x(op),
                y: op_y(op),
            }),
        forall|op: u16|
            op_family(op) == 0x8 && op_n(op) == 0x4 ==> spec_decode(op) == (Instr::AddReg {
                x: op_x(op),
                y: op_y(op),
            }),
        forall|op: u16|
            op_family(op) == 0x8 && op_n(op) == 0x5 ==> spec_decode(op) == (Instr::SubReg {
                x: op_x(op),
                y: op_y(op),
            }),
        forall|op: u16|
            op_family(op) == 0x8 && op_n(op) == 0x6 ==> spec_decode(op) == (Instr::Shr {
                x: op_x(op),
                y: op_y(op),
            }),
        forall|op: u16|
            op_family(op) == 0x8 && op_n(op) == 0x7 ==> spec_decode(op) == (Instr::SubN {
                x: op_x(op),
                y: op_y(op),
            }),
        forall|op: u16|
            op_family(op) == 0x8 && op_n(op) == 0xE ==> spec_decode(op) == (Instr::Shl {
                x: op_x(op),
                y: op_y(op),
            }),
        forall|op: u16|
            op_family(op) == 0x8 && 0x8 <= op_n(op) <= 0xD ==> spec_decode(op) == Instr::Unknown,
        forall|op: u16| op_family(op) == 0x8 && op_n(op) == 0xF ==> spec_decode(op) == Instr::Unknown,
        forall|op: u16|
            op_family(op) == 0x9 && op_n(op) == 0x0 ==> spec_decode(op) == (Instr::SkipNeReg {
                x: op_x(op),
                y: op_y(op),
            }),
        forall|op: u16| op_family(op) == 0x9 && op_n(op) != 0x0 ==> spec_decode(op) == Instr::Unknown,
        forall|op: u16|
            op_family(op) == 0xA ==> spec_decode(op) == (Instr::SetIndex { nnn: op_nnn(op) }),
        forall|op: u16|
            op_family(op) == 0xB ==> spec_decode(op) == (Instr::JumpV0 { nnn: op_nnn(op) }),
        forall|op: u16|
            op_family(op) == 0xC ==> spec_decode(op) == (Instr::Rand {
                x: op_x(op),
                nn: op_nn(op),
            }),
        forall|op: u16|
            op_family(op) == 0xD ==> spec_decode(op) == (Instr::Draw {
                x: op_x(op),
                y: op_y(op),
                n: op_n(op),
            }),
        forall|op: u16|
            op_family(op) == 0xE && op_y(op) == 0x9 && op_n(op) == 0xE ==> spec_decode(op) == (
            Instr::SkipKey { x: op_x(op) }),
        forall|op: u16|
            op_family(op) == 0xE && op_y(op) == 0xA && op_n(op) == 0x1 ==> spec_decode(op) == (
            Instr::SkipNoKey { x: op_x(op) }),
        forall|op: u16|
            op_family(op) == 0xE && !(op_y(op) == 0x9 && op_n(op) == 0xE) && !(op_y(op) == 0xA
                && op_n(op) == 0x1) ==> spec_decode(op) == Instr::Unknown,
        forall|op: u16|
            op_family(op) == 0xF && op_y(op) == 0x0 && op_n(op) == 0x7 ==> spec_decode(op) == (
            Instr::GetDelay { x: op_x(op) }),
        forall|op: u16|
            op_family(op) == 0xF && op_y(op) == 0x0 && op_n(op) == 0xA ==> spec_decode(op) == (
            Instr::WaitKey { x: op_x(op) }),
        forall|op: u16|
            op_family(op) == 0xF && op_y(op) == 0x1 && op_n(op) == 0x5 ==> spec_decode(op) == (
            Instr::SetDelay { x: op_x(op) }),
        forall|op: u16|
            op_family(op) == 0xF && op_y(op) == 0x1 && op_n(op) == 0x8 ==> spec_decode(op) == (
            Instr::SetSound { x: op_x(op) }),
        forall|op: u16|
            op_family(op) == 0xF && op_y(op) == 0x1 && op_n(op) == 0xE ==> spec_decode(op) == (
            Instr::AddIndex { x: op_x(op) }),
        forall|op: u16|
            op_family(op) == 0xF && op_y(op) == 0x2 && op_n(op) == 0x9 ==> spec_decode(op) == (
            Instr::Font { x: op_x(op) }),
        forall|op: u16|
            op_family(op) == 0xF && op_y(op) == 0x3 && op_n(op) == 0x3 ==> spec_decode(op) == (
            Instr::Bcd { x: op_x(op) }),
        forall|op: u16|
            op_family(op) == 0xF && op_y(op) == 0x5 && op_n(op) == 0x5 ==> spec_decode(op) == (
            Instr::StoreRegs { x: op_x(op) }),
        forall|op: u16|
            op_family(op) == 0xF && op_y(op) == 0x6 && op_n(op) == 0x5 ==> spec_decode(op) == (
            Instr::LoadRegs { x: op_x(op) }),
{
}

} // verus!
