//! Decoding of raw 2-byte CHIP-8 opcodes into typed instructions.
//!
//! An opcode is two bytes, read big-endian, and is described by its four
//! nibbles: the high nibble of the first byte selects a group, and the
//! remaining nibbles carry operands or sub-opcode tags.

use vstd::prelude::*;

verus! {

/// A decoded CHIP-8 instruction.
///
/// Operands are a register index (`0..=0xF`), an 8-bit immediate, or a
/// 12-bit address; `Drw` additionally carries a sprite height (`0..=0xF`).
#[derive(Clone, Copy, Debug, PartialEq, Eq, Structural)]
pub enum Instruction {
    Sys(u16),
    Cls,
    Ret,
    Jp(u16),
    Call(u16),
    /// Skip next instruction if `V[x] == kk`.
    SeV(u8, u8),
    /// Skip next instruction if `V[x] != kk`.
    SneV(u8, u8),
    /// Skip next instruction if `V[x] == V[y]`.
    Se(u8, u8),
    /// `V[x] = kk`.
    LdV(u8, u8),
    /// `V[x] += kk`, wrapping, no carry flag.
    AddV(u8, u8),
    /// `V[x] = V[y]`.
    Ld(u8, u8),
    Or(u8, u8),
    And(u8, u8),
    Xor(u8, u8),
    /// `V[x] += V[y]` with carry flag.
    Add(u8, u8),
    /// `V[x] -= V[y]` with no-borrow flag.
    Sub(u8, u8),
    Shr(u8),
    /// `V[y] = V[y] - V[x]` (subtraction with the operands reversed).
    Subn(u8, u8),
    Shl(u8),
    /// Skip next instruction if `V[x] != V[y]`.
    Sne(u8, u8),
    /// `I = addr`.
    LdI(u16),
    /// Jump to `addr + V[0]`.
    JpV0(u16),
    /// `V[x] = random byte & kk`.
    Rnd(u8, u8),
    /// Draw an `n`-row sprite from `memory[I..]` at `(V[x], V[y])`.
    Drw(u8, u8, u8),
    /// Skip next instruction if key `V[x]` is pressed.
    Skp(u8),
    /// Skip next instruction if key `V[x]` is not pressed.
    Sknp(u8),
    /// `V[x] = delay_timer`.
    LdDt(u8),
    /// Wait for a key press and store the lowest pressed key in `V[x]`.
    LdK(u8),
    /// `delay_timer = V[x]`.
    LdTd(u8),
    /// `sound_timer = V[x]`.
    LdSt(u8),
    /// `I += V[x]`.
    AddI(u8),
    /// `I =` address of the built-in glyph for digit `V[x]`.
    LdS(u8),
    /// Store the decimal digits of `V[x]` at `memory[I..I+3]`.
    LdBCD(u8),
    /// Store `V[0..=x]` at `memory[I..]`.
    LdVM(u8),
    /// Load `memory[I..]` into `V[0..=x]`.
    LdMV(u8),
}

/// An unrecognized bit pattern, carrying the two offending bytes.
#[derive(Clone, Copy, Debug, PartialEq, Eq, Structural)]
pub struct DecodeError {
    pub b0: u8,
    pub b1: u8,
}

impl Instruction {
    /// Every operand lies in the range its encoding field can carry:
    /// register indices and sprite heights are nibbles, addresses are 12 bits.
    /// `decode` only ever produces instructions satisfying this.
    pub open spec fn wf(self) -> bool {
        match self {
            Instruction::Sys(a) => a <= 0xFFF,
            Instruction::Cls => true,
            Instruction::Ret => true,
            Instruction::Jp(a) => a <= 0xFFF,
            Instruction::Call(a) => a <= 0xFFF,
            Instruction::SeV(x, _) => x <= 0xF,
            Instruction::SneV(x, _) => x <= 0xF,
            Instruction::Se(x, y) => x <= 0xF && y <= 0xF,
            Instruction::LdV(x, _) => x <= 0xF,
            Instruction::AddV(x, _) => x <= 0xF,
            Instruction::Ld(x, y) => x <= 0xF && y <= 0xF,
            Instruction::Or(x, y) => x <= 0xF && y <= 0xF,
            Instruction::And(x, y) => x <= 0xF && y <= 0xF,
            Instruction::Xor(x, y) => x <= 0xF && y <= 0xF,
            Instruction::Add(x, y) => x <= 0xF && y <= 0xF,
            Instruction::Sub(x, y) => x <= 0xF && y <= 0xF,
            Instruction::Shr(x) => x <= 0xF,
            Instruction::Subn(x, y) => x <= 0xF && y <= 0xF,
            Instruction::Shl(x) => x <= 0xF,
            Instruction::Sne(x, y) => x <= 0xF && y <= 0xF,
            Instruction::LdI(a) => a <= 0xFFF,
            Instruction::JpV0(a) => a <= 0xFFF,
            Instruction::Rnd(x, _) => x <= 0xF,
            Instruction::Drw(x, y, n) => x <= 0xF && y <= 0xF && n <= 0xF,
            Instruction::Skp(x) => x <= 0xF,
            Instruction::Sknp(x) => x <= 0xF,
            Instruction::LdDt(x) => x <= 0xF,
            Instruction::LdK(x) => x <= 0xF,
            Instruction::LdTd(x) => x <= 0xF,
            Instruction::LdSt(x) => x <= 0xF,
            Instruction::AddI(x) => x <= 0xF,
            Instruction::LdS(x) => x <= 0xF,
            Instruction::LdBCD(x) => x <= 0xF,
            Instruction::LdVM(x) => x <= 0xF,
            Instruction::LdMV(x) => x <= 0xF,
        }
    }
}

/// The decode table: the unique instruction, if any, denoted by the two
/// opcode bytes.  The high nibble of `b0` selects a group; within a group
/// the remaining twelve bits are operands or a sub-opcode tag.
pub open spec fn spec_decode(b0: u8, b1: u8) -> Option<Instruction> {
    let g = b0 >> 4;
    let x = b0 & 0xF;
    let y = b1 >> 4;
    let n = b1 & 0xF;
    let nnn = ((x as u16) * 256 + (b1 as u16)) as u16;
    if g == 0x0 {
        if x == 0 && b1 == 0xE0 {
            Some(Instruction::Cls)
        } else if x == 0 && b1 == 0xEE {
            Some(Instruction::Ret)
        } else {
            Some(Instruction::Sys(nnn))
        }
    } else if g == 0x1 {
        Some(Instruction::Jp(nnn))
    } else if g == 0x2 {
        Some(Instruction::Call(nnn))
    } else if g == 0x3 {
        Some(Instruction::SeV(x, b1))
    } else if g == 0x4 {
        Some(Instruction::SneV(x, b1))
    } else if g == 0x5 {
        if n == 0 {
            Some(Instruction::Se(x, y))
        } else {
            None
        }
    } else if g == 0x6 {
        Some(Instruction::LdV(x, b1))
    } else if g == 0x7 {
        Some(Instruction::AddV(x, b1))
    } else if g == 0x8 {
        if n == 0x0 {
            Some(Instruction::Ld(x, y))
        } else if n == 0x1 {
            Some(Instruction::Or(x, y))
        } else if n == 0x2 {
            Some(Instruction::And(x, y))
        } else if n == 0x3 {
            Some(Instruction::Xor(x, y))
        } else if n == 0x4 {
            Some(Instruction::Add(x, y))
        } else if n == 0x5 {
            Some(Instruction::Sub(x, y))
        } else if n == 0x6 {
            Some(Instruction::Shr(x))
        } else if n == 0x7 {
            Some(Instruction::Subn(x, y))
        } else if n == 0xE {
            Some(Instruction::Shl(x))
        } else {
            None
        }
    } else if g == 0x9 {
        if n == 0 {
            Some(Instruction::Sne(x, y))
        } else {
            None
        }
    } else if g == 0xA {
        Some(Instruction::LdI(nnn))
    } else if g == 0xB {
        Some(Instruction::JpV0(nnn))
    } else if g == 0xC {
        Some(Instruction::Rnd(x, b1))
    } else if g == 0xD {
        Some(Instruction::Drw(x, y, n))
    } else if g == 0xE {
        if b1 == 0x9E {
            Some(Instruction::Skp(x))
        } else if b1 == 0xA1 {
            Some(Instruction::Sknp(x))
        } else {
            None
        }
    } else {
        if b1 == 0x07 {
            Some(Instruction::LdDt(x))
        } else if b1 == 0x0A {
            Some(Instruction::LdK(x))
        } else if b1 == 0x15 {
            Some(Instruction::LdTd(x))
        } else if b1 == 0x18 {
            Some(Instruction::LdSt(x))
        } else if b1 == 0x1E {
            Some(Instruction::AddI(x))
        } else if b1 == 0x29 {
            Some(Instruction::LdS(x))
        } else if b1 == 0x33 {
            Some(Instruction::LdBCD(x))
        } else if b1 == 0x55 {
            Some(Instruction::LdVM(x))
        } else if b1 == 0x65 {
            Some(Instruction::LdMV(x))
        } else {
            None
        }
    }
}

/// The instruction, if any, denoted by the `k`-th 2-byte chunk of a stream.
pub open spec fn spec_decode_at(s: Seq<u8>, k: int) -> Option<Instruction> {
    spec_decode(s[2 * k], s[2 * k + 1])
}

/// `spec_decode`, with a failure carrying the offending bytes.
pub open spec fn spec_decode_result(b0: u8, b1: u8) -> Result<Instruction, DecodeError> {
    match spec_decode(b0, b1) {
        Some(i) => Ok(i),
        None => Err(DecodeError { b0, b1 }),
    }
}

/// Any instruction the decode table yields has well-formed operands.
pub proof fn lemma_decode_wf(b0: u8, b1: u8)
    ensures
        spec_decode(b0, b1) matches Some(i) ==> i.wf(),
{
    assert(b0 >> 4 <= 0xF) by (bit_vector);
    assert(b0 & 0xF <= 0xF) by (bit_vector);
    assert(b1 >> 4 <= 0xF) by (bit_vector);
    assert(b1 & 0xF <= 0xF) by (bit_vector);
}

/// Two nibbles joined into one byte, high nibble first.
pub open spec fn spec_pack(hi: u8, lo: u8) -> u8 {
    (hi << 4) | lo
}

/// High byte of a canonical address encoding: group nibble, then the
/// address's top four bits.
pub open spec fn spec_enc_hi(g: u8, a: u16) -> u8 {
    spec_pack(g, (a >> 8) as u8)
}

/// Low byte of a canonical address encoding.
pub open spec fn spec_enc_lo(a: u16) -> u8 {
    (a & 0xFF) as u8
}

/// The canonical encoding of an instruction: the byte pair whose decoding
/// yields it back (see `lemma_encode_decode`).
pub open spec fn spec_encode(i: Instruction) -> (u8, u8) {
    match i {
        Instruction::Sys(a) => (spec_enc_hi(0x0, a), spec_enc_lo(a)),
        Instruction::Cls => (0x00, 0xE0),
        Instruction::Ret => (0x00, 0xEE),
        Instruction::Jp(a) => (spec_enc_hi(0x1, a), spec_enc_lo(a)),
        Instruction::Call(a) => (spec_enc_hi(0x2, a), spec_enc_lo(a)),
        Instruction::SeV(x, kk) => (spec_pack(0x3, x), kk),
        Instruction::SneV(x, kk) => (spec_pack(0x4, x), kk),
        Instruction::Se(x, y) => (spec_pack(0x5, x), spec_pack(y, 0x0)),
        Instruction::LdV(x, kk) => (spec_pack(0x6, x), kk),
        Instruction::AddV(x, kk) => (spec_pack(0x7, x), kk),
        Instruction::Ld(x, y) => (spec_pack(0x8, x), spec_pack(y, 0x0)),
        Instruction::Or(x, y) => (spec_pack(0x8, x), spec_pack(y, 0x1)),
        Instruction::And(x, y) => (spec_pack(0x8, x), spec_pack(y, 0x2)),
        Instruction::Xor(x, y) => (spec_pack(0x8, x), spec_pack(y, 0x3)),
        Instruction::Add(x, y) => (spec_pack(0x8, x), spec_pack(y, 0x4)),
        Instruction::Sub(x, y) => (spec_pack(0x8, x), spec_pack(y, 0x5)),
        Instruction::Shr(x) => (spec_pack(0x8, x), spec_pack(0x0, 0x6)),
        Instruction::Subn(x, y) => (spec_pack(0x8, x), spec_pack(y, 0x7)),
        Instruction::Shl(x) => (spec_pack(0x8, x), spec_pack(0x0, 0xE)),
        Instruction::Sne(x, y) => (spec_pack(0x9, x), spec_pack(y, 0x0)),
        Instruction::LdI(a) => (spec_enc_hi(0xA, a), spec_enc_lo(a)),
        Instruction::JpV0(a) => (spec_enc_hi(0xB, a), spec_enc_lo(a)),
        Instruction::Rnd(x, kk) => (spec_pack(0xC, x), kk),
        Instruction::Drw(x, y, n) => (spec_pack(0xD, x), spec_pack(y, n)),
        Instruction::Skp(x) => (spec_pack(0xE, x), 0x9E),
        Instruction::Sknp(x) => (spec_pack(0xE, x), 0xA1),
        Instruction::LdDt(x) => (spec_pack(0xF, x), 0x07),
        Instruction::LdK(x) => (spec_pack(0xF, x), 0x0A),
        Instruction::LdTd(x) => (spec_pack(0xF, x), 0x15),
        Instruction::LdSt(x) => (spec_pack(0xF, x), 0x18),
        Instruction::AddI(x) => (spec_pack(0xF, x), 0x1E),
        Instruction::LdS(x) => (spec_pack(0xF, x), 0x29),
        Instruction::LdBCD(x) => (spec_pack(0xF, x), 0x33),
        Instruction::LdVM(x) => (spec_pack(0xF, x), 0x55),
        Instruction::LdMV(x) => (spec_pack(0xF, x), 0x65),
    }
}

/// A packed byte gives its two nibbles back.
proof fn lemma_pack_nibbles(hi: u8, lo: u8)
    by (bit_vector)
    requires
        hi <= 0xF,
        lo <= 0xF,
    ensures
        ((hi << 4) | lo) >> 4 == hi,
        ((hi << 4) | lo) & 0xF == lo,
{
}

/// A 12-bit address is its top four bits times 256 plus its low byte.
proof fn lemma_split_addr(a: u16)
    by (bit_vector)
    requires
        a <= 0xFFF,
    ensures
        a >> 8 <= 0xF,
        (((a >> 8) as u8) as u16) * 256 + (((a & 0xFF) as u8) as u16) == a,
        ((((a >> 8) as u8) as u16) * 256 + (((a & 0xFF) as u8) as u16)) as u16 == a,
{
}

/// Round trip: every well-formed instruction has a 2-byte encoding that
/// decodes back to it, namely its canonical encoding.  The two `Sys`
/// values whose address coincides with the `Cls` or `Ret` tag are the
/// sole exceptions: their byte patterns decode to `Cls` and `Ret`.
pub proof fn lemma_encode_decode(i: Instruction)
    requires
        i.wf(),
        i != Instruction::Sys(0x0E0),
        i != Instruction::Sys(0x0EE),
    ensures
        spec_decode(spec_encode(i).0, spec_encode(i).1) == Some(i),
{
    match i {
        Instruction::Sys(a) => {
            lemma_split_addr(a);
            lemma_pack_nibbles(0x0, (a >> 8) as u8);
        },
        Instruction::Cls => {
            assert(0x00u8 >> 4 == 0 && 0x00u8 & 0xF == 0) by (bit_vector);
        },
        Instruction::Ret => {
            assert(0x00u8 >> 4 == 0 && 0x00u8 & 0xF == 0) by (bit_vector);
        },
        Instruction::Jp(a) => {
            lemma_split_addr(a);
            lemma_pack_nibbles(0x1, (a >> 8) as u8);
        },
        Instruction::Call(a) => {
            lemma_split_addr(a);
            lemma_pack_nibbles(0x2, (a >> 8) as u8);
        },
        Instruction::SeV(x, _) => {
            lemma_pack_nibbles(0x3, x);
        },
        Instruction::SneV(x, _) => {
            lemma_pack_nibbles(0x4, x);
        },
        Instruction::Se(x, y) => {
            lemma_pack_nibbles(0x5, x);
            lemma_pack_nibbles(y, 0x0);
        },
        Instruction::LdV(x, _) => {
            lemma_pack_nibbles(0x6, x);
        },
        Instruction::AddV(x, _) => {
            lemma_pack_nibbles(0x7, x);
        },
        Instruction::Ld(x, y) => {
            lemma_pack_nibbles(0x8, x);
            lemma_pack_nibbles(y, 0x0);
        },
        Instruction::Or(x, y) => {
            lemma_pack_nibbles(0x8, x);
            lemma_pack_nibbles(y, 0x1);
        },
        Instruction::And(x, y) => {
            lemma_pack_nibbles(0x8, x);
            lemma_pack_nibbles(y, 0x2);
        },
        Instruction::Xor(x, y) => {
            lemma_pack_nibbles(0x8, x);
            lemma_pack_nibbles(y, 0x3);
        },
        Instruction::Add(x, y) => {
            lemma_pack_nibbles(0x8, x);
            lemma_pack_nibbles(y, 0x4);
        },
        Instruction::Sub(x, y) => {
            lemma_pack_nibbles(0x8, x);
            lemma_pack_nibbles(y, 0x5);
        },
        Instruction::Shr(x) => {
            lemma_pack_nibbles(0x8, x);
            lemma_pack_nibbles(0x0, 0x6);
        },
        Instruction::Subn(x, y) => {
            lemma_pack_nibbles(0x8, x);
            lemma_pack_nibbles(y, 0x7);
        },
        Instruction::Shl(x) => {
            lemma_pack_nibbles(0x8, x);
            lemma_pack_nibbles(0x0, 0xE);
        },
        Instruction::Sne(x, y) => {
            lemma_pack_nibbles(0x9, x);
            lemma_pack_nibbles(y, 0x0);
        },
        Instruction::LdI(a) => {
            lemma_split_addr(a);
            lemma_pack_nibbles(0xA, (a >> 8) as u8);
        },
        Instruction::JpV0(a) => {
            lemma_split_addr(a);
            lemma_pack_nibbles(0xB, (a >> 8) as u8);
        },
        Instruction::Rnd(x, _) => {
            lemma_pack_nibbles(0xC, x);
        },
        Instruction::Drw(x, y, n) => {
            lemma_pack_nibbles(0xD, x);
            lemma_pack_nibbles(y, n);
        },
        Instruction::Skp(x) => {
            lemma_pack_nibbles(0xE, x);
        },
        Instruction::Sknp(x) => {
            lemma_pack_nibbles(0xE, x);
        },
        Instruction::LdDt(x) => {
            lemma_pack_nibbles(0xF, x);
        },
        Instruction::LdK(x) => {
            lemma_pack_nibbles(0xF, x);
        },
        Instruction::LdTd(x) => {
            lemma_pack_nibbles(0xF, x);
        },
        Instruction::LdSt(x) => {
            lemma_pack_nibbles(0xF, x);
        },
        Instruction::AddI(x) => {
            lemma_pack_nibbles(0xF, x);
        },
        Instruction::LdS(x) => {
            lemma_pack_nibbles(0xF, x);
        },
        Instruction::LdBCD(x) => {
            lemma_pack_nibbles(0xF, x);
        },
        Instruction::LdVM(x) => {
            lemma_pack_nibbles(0xF, x);
        },
        Instruction::LdMV(x) => {
            lemma_pack_nibbles(0xF, x);
        },
    }
}

/// Decode one 2-byte opcode.
///
/// Total and pure: for every one of the 65536 bit patterns the result is
/// the value of the decode table `spec_decode`, and a failure carries the
/// raw bytes.
pub fn decode(bytes: [u8; 2]) -> (r: Result<Instruction, DecodeError>)
    ensures
        r == spec_decode_result(bytes[0], bytes[1]),
        r matches Ok(i) ==> i.wf(),
{
    let b0 = bytes[0];
    let b1 = bytes[1];
    proof {
        lemma_decode_wf(b0, b1);
    }
    assert(b0 & 0xF <= 0xF) by (bit_vector);
    let g: u8 = b0 >> 4;
    let x: u8 = b0 & 0xF;
    let y: u8 = b1 >> 4;
    let n: u8 = b1 & 0xF;
    let nnn: u16 = (x as u16) * 256 + (b1 as u16);
    let decoded: Option<Instruction> = if g == 0x0 {
        if x == 0 && b1 == 0xE0 {
            Some(Instruction::Cls)
        } else if x == 0 && b1 == 0xEE {
            Some(Instruction::Ret)
        } else {
            Some(Instruction::Sys(nnn))
        }
    } else if g == 0x1 {
        Some(Instruction::Jp(nnn))
    } else if g == 0x2 {
        Some(Instruction::Call(nnn))
    } else if g == 0x3 {
        Some(Instruction::SeV(x, b1))
    } else if g == 0x4 {
        Some(Instruction::SneV(x, b1))
    } else if g == 0x5 {
        if n == 0 {
            Some(Instruction::Se(x, y))
        } else {
            None
        }
    } else if g == 0x6 {
        Some(Instruction::LdV(x, b1))
    } else if g == 0x7 {
        Some(Instruction::AddV(x, b1))
    } else if g == 0x8 {
        if n == 0x0 {
            Some(Instruction::Ld(x, y))
        } else if n == 0x1 {
            Some(Instruction::Or(x, y))
        } else if n == 0x2 {
            Some(Instruction::And(x, y))
        } else if n == 0x3 {
            Some(Instruction::Xor(x, y))
        } else if n == 0x4 {
            Some(Instruction::Add(x, y))
        } else if n == 0x5 {
            Some(Instruction::Sub(x, y))
        } else if n == 0x6 {
            Some(Instruction::Shr(x))
        } else if n == 0x7 {
            Some(Instruction::Subn(x, y))
        } else if n == 0xE {
            Some(Instruction::Shl(x))
        } else {
            None
        }
    } else if g == 0x9 {
        if n == 0 {
            Some(Instruction::Sne(x, y))
        } else {
            None
        }
    } else if g == 0xA {
        Some(Instruction::LdI(nnn))
    } else if g == 0xB {
        Some(Instruction::JpV0(nnn))
    } else if g == 0xC {
        Some(Instruction::Rnd(x, b1))
    } else if g == 0xD {
        Some(Instruction::Drw(x, y, n))
    } else if g == 0xE {
        if b1 == 0x9E {
            Some(Instruction::Skp(x))
        } else if b1 == 0xA1 {
            Some(Instruction::Sknp(x))
        } else {
            None
        }
    } else {
        if b1 == 0x07 {
            Some(Instruction::LdDt(x))
        } else if b1 == 0x0A {
            Some(Instruction::LdK(x))
        } else if b1 == 0x15 {
            Some(Instruction::LdTd(x))
        } else if b1 == 0x18 {
            Some(Instruction::LdSt(x))
        } else if b1 == 0x1E {
            Some(Instruction::AddI(x))
        } else if b1 == 0x29 {
            Some(Instruction::LdS(x))
        } else if b1 == 0x33 {
            Some(Instruction::LdBCD(x))
        } else if b1 == 0x55 {
            Some(Instruction::LdVM(x))
        } else if b1 == 0x65 {
            Some(Instruction::LdMV(x))
        } else {
            None
        }
    };
    match decoded {
        Some(i) => Ok(i),
        None => Err(DecodeError { b0, b1 }),
    }
}

impl Instruction {
    /// Decode the first instruction of a byte stream, if there is one.
    pub fn from_slice_one(s: &[u8]) -> (r: Option<Instruction>)
        ensures
            s@.len() >= 2 ==> r == spec_decode(s@[0], s@[1]),
            s@.len() < 2 ==> r is None,
    {
        if s.len() < 2 {
            return None;
        }
        let b0 = *vstd::slice::slice_index_get(s, 0);
        let b1 = *vstd::slice::slice_index_get(s, 1);
        match decode([b0, b1]) {
            Ok(i) => Some(i),
            Err(_) => None,
        }
    }

    /// Decode a whole stream of big-endian 2-byte opcodes.
    ///
    /// The stream must consist entirely of decodable opcodes; a stream with
    /// a stray byte or an unrecognized pattern has no instruction listing.
    pub fn from_slice(s: &[u8]) -> (r: Vec<Instruction>)
        requires
            s@.len() % 2 == 0,
            forall|k: int| 0 <= k < s@.len() / 2 ==> #[trigger] spec_decode_at(s@, k) is Some,
        ensures
            r@.len() == s@.len() / 2,
            forall|k: int| 0 <= k < r@.len() ==> Some(r@[k]) == #[trigger] spec_decode_at(s@, k),
    {
        let mut out: Vec<Instruction> = Vec::new();
        let mut k: usize = 0;
        let half = s.len() / 2;
        while k < half
            invariant
                s@.len() % 2 == 0,
                s@.len() <= usize::MAX,
                half == s@.len() / 2,
                k <= half,
                forall|j: int| 0 <= j < s@.len() / 2 ==> #[trigger] spec_decode_at(s@, j) is Some,
                out@.len() == k,
                forall|j: int| 0 <= j < k ==> Some(out@[j]) == #[trigger] spec_decode_at(s@, j),
            decreases half - k,
        {
            proof {
                assert(2 * (k as int) + 1 < s@.len()) by {
                    assert(s@.len() / 2 * 2 == s@.len() - s@.len() % 2);
                };
            }
            let b0 = *vstd::slice::slice_index_get(s, 2 * k);
            let b1 = *vstd::slice::slice_index_get(s, 2 * k + 1);
            assert(spec_decode_at(s@, k as int) is Some);
            match decode([b0, b1]) {
                Ok(i) => out.push(i),
                Err(_) => {
                    proof {
                        assert(false);
                    }
                },
            }
            k = k + 1;
        }
        out
    }
}

} // verus!
