//! The CHIP-8 CPU: registers, memory, call stack, timers, the modelled
//! framebuffer and key snapshot, and the execution engine.
//!
//! The engine is driven one `step` at a time: fetch two bytes at `pc`,
//! decode, advance `pc`, execute, tick the timers.  Key state is fed in
//! through `set_key`; the caller renders the framebuffer and paces the
//! loop.

use vstd::prelude::*;
use vstd::arithmetic::div_mod::lemma_mod_multiples_vanish;

use crate::parsing::DecodeError;
use crate::parsing::Instruction;
use crate::parsing::spec_decode;
use crate::parsing::decode;
use crate::screen::DrawResult;
use crate::screen::Screen;
use crate::screen::blank_screen;
use crate::screen::spec_collision;
use crate::screen::spec_draw;

verus! {

/// Outcome of executing one instruction.
#[derive(Clone, Copy, Debug, PartialEq, Eq, Structural)]
pub enum ExecResult {
    Success,
    Fail(Fault),
    Exit,
}

/// Why an instruction could not be executed: a handler's precondition on
/// the machine state did not hold.
#[derive(Clone, Copy, Debug, PartialEq, Eq, Structural)]
pub enum Fault {
    /// An operand names a register past `V[0xF]`.
    InvalidRegister,
    /// The popped return address lies outside program space.
    InvalidReturn,
    /// The jump target lies outside program space.
    InvalidJump,
    /// The call target lies outside program space.
    InvalidCall,
    /// A seventeenth nested call.
    StackOverflow,
    /// A memory access past the end of addressable memory.
    InvalidAddress,
    /// A sprite taller than the 15 rows an opcode can express.
    InvalidSprite,
    /// A key index past the 16-key pad.
    InvalidKey,
}

/// Why the fetch-decode-execute loop stopped.
#[derive(Clone, Copy, Debug, PartialEq, Eq, Structural)]
pub enum HaltReason {
    /// The fetched bytes decode to no instruction.
    DecodeFailure(DecodeError),
    /// A handler faulted on the given instruction.
    ExecutionFault(Fault, Instruction),
    /// `pc` ran past the end of memory.
    FetchOutOfBounds(u16),
    /// A return with an empty call stack: the defined, clean halt.
    Halt,
}

/// Outcome of one loop iteration.
#[derive(Clone, Copy, Debug, PartialEq, Eq, Structural)]
pub enum StepResult {
    /// One instruction ran; `beep` asks the caller for the audio cue.
    Ran { beep: bool },
    /// A key-wait instruction found no key pressed; nothing changed.
    Waiting,
    /// The loop is over.
    Halted(HaltReason),
}

/// How loading a ROM can fail.
#[derive(Clone, Copy, Debug, PartialEq, Eq, Structural)]
pub enum RomError {
    NotFound,
    IoError,
    /// The ROM would run past the last memory address.
    TooLarge,
}

/// The mathematical state of the machine.
#[verifier::ext_equal]
pub ghost struct CpuView {
    /// The sixteen 8-bit registers `V[0]..V[0xF]`.
    pub v: Seq<u8>,
    /// The 16-bit index register `I`.
    pub i: int,
    /// The program counter.
    pub pc: int,
    /// 4096 bytes of memory.
    pub memory: Seq<u8>,
    /// The 2048-pixel framebuffer.
    pub screen: Seq<bool>,
    /// The 16-key pad snapshot.
    pub keys: Seq<bool>,
    /// The delay timer.
    pub delay: int,
    /// The sound timer.
    pub sound: int,
    /// The sixteen call-stack slots.
    pub stack: Seq<u16>,
    /// How many stack slots are in use.
    pub sp: int,
}

impl CpuView {
    /// Shape and ranges of the machine state.
    pub open spec fn wf(self) -> bool {
        &&& self.v.len() == 16
        &&& self.memory.len() == 4096
        &&& self.stack.len() == 16
        &&& self.keys.len() == 16
        &&& self.screen.len() == 2048
        &&& 0 <= self.sp <= 16
        &&& 0 <= self.pc <= 0xFFFF
        &&& 0 <= self.i <= 0xFFFF
        &&& 0 <= self.delay <= 0xFF
        &&& 0 <= self.sound <= 0xFF
    }
}

/// Any memory address.
pub open spec fn valid_addr(a: int) -> bool {
    0 <= a <= 0xFFF
}

/// An address in program space; the font and reserved area below 0x200
/// cannot be jumped to.
pub open spec fn valid_pc(a: int) -> bool {
    0x200 <= a <= 0xFFF
}

/// A register index.
pub open spec fn valid_reg(x: int) -> bool {
    0 <= x < 16
}

/// The state with the program counter replaced.
pub open spec fn with_pc(s: CpuView, pc: int) -> CpuView {
    CpuView { pc, ..s }
}

/// The state with one register replaced.
pub open spec fn with_reg(s: CpuView, x: int, val: u8) -> CpuView {
    CpuView { v: s.v.update(x, val), ..s }
}

/// The lowest-indexed pressed key at or above `k`, if any.
pub open spec fn spec_first_key(keys: Seq<bool>, k: int) -> Option<u8>
    decreases 16 - k,
{
    if k < 0 || k >= 16 {
        None
    } else if keys[k] {
        Some(k as u8)
    } else {
        spec_first_key(keys, k + 1)
    }
}

/// The built-in font: five bytes per hexadecimal digit.
pub open spec fn spec_font() -> Seq<u8> {
    seq![
        0xF0u8, 0x90, 0x90, 0x90, 0xF0,
        0x20, 0x60, 0x20, 0x20, 0x70,
        0xF0, 0x10, 0xF0, 0x80, 0xF0,
        0xF0, 0x10, 0xF0, 0x10, 0xF0,
        0x90, 0x90, 0xF0, 0x10, 0x10,
        0xF0, 0x80, 0xF0, 0x10, 0xF0,
        0xF0, 0x80, 0xF0, 0x90, 0xF0,
        0xF0, 0x10, 0x20, 0x40, 0x40,
        0xF0, 0x90, 0xF0, 0x90, 0xF0,
        0xF0, 0x90, 0xF0, 0x10, 0xF0,
        0xF0, 0x90, 0xF0, 0x90, 0x90,
        0xE0, 0x90, 0xE0, 0x90, 0xE0,
        0xF0, 0x80, 0x80, 0x80, 0xF0,
        0xE0, 0x90, 0x90, 0x90, 0xE0,
        0xF0, 0x80, 0xF0, 0x80, 0xF0,
        0xF0, 0x80, 0xF0, 0x80, 0x80,
    ]
}

/// The machine as constructed: registers and timers zero, `pc` at the
/// start of program space, the font below address 0x50, all else dark,
/// silent and empty.
pub open spec fn spec_initial_state() -> CpuView {
    CpuView {
        v: Seq::new(16, |k: int| 0u8),
        i: 0,
        pc: 0x200,
        memory: Seq::new(4096, |a: int| if 0 <= a < 80 { spec_font()[a] } else { 0u8 }),
        screen: blank_screen(),
        keys: Seq::new(16, |k: int| false),
        delay: 0,
        sound: 0,
        stack: Seq::new(16, |k: int| 0u16),
        sp: 0,
    }
}

/// The state after a `Rnd` instruction that drew the byte `b`: register
/// `x` holds `b` masked by the immediate.
pub open spec fn rnd_result(pre: CpuView, x: u8, kk: u8, b: u8) -> CpuView {
    with_reg(pre, x as int, b & kk)
}

/// Whether `post` can follow `pre` under `Rnd`: some drawn byte, masked
/// by the immediate, landed in register `x`.
pub open spec fn rnd_rel(pre: CpuView, x: u8, kk: u8, post: CpuView) -> bool {
    exists|b: u8| post == #[trigger] rnd_result(pre, x, kk, b)
}

/// What executing `op` does: `post` and `r` are the state and outcome of
/// running `op` from `pre`.  `pre.pc` is already the address of the next
/// instruction — the loop advances `pc` before executing — so a skip adds
/// another 2 and a call pushes `pre.pc` as the return address.
pub open spec fn exec_rel(pre: CpuView, op: Instruction, post: CpuView, r: ExecResult) -> bool {
    match op {
        Instruction::Sys(_) => post == pre && r == ExecResult::Success,
        Instruction::Cls => post == CpuView { screen: blank_screen(), ..pre } && r
            == ExecResult::Success,
        Instruction::Ret => if pre.sp == 0 {
            post == pre && r == ExecResult::Exit
        } else {
            let a = pre.stack[pre.sp - 1] as int;
            post == CpuView { sp: pre.sp - 1, pc: a, ..pre } && r == (if valid_pc(a) {
                ExecResult::Success
            } else {
                ExecResult::Fail(Fault::InvalidReturn)
            })
        },
        Instruction::Jp(a) => if valid_pc(a as int) {
            post == with_pc(pre, a as int) && r == ExecResult::Success
        } else {
            post == pre && r == ExecResult::Fail(Fault::InvalidJump)
        },
        Instruction::Call(a) => if pre.sp >= 16 {
            post == pre && r == ExecResult::Fail(Fault::StackOverflow)
        } else if !valid_pc(a as int) {
            post == pre && r == ExecResult::Fail(Fault::InvalidCall)
        } else {
            post == CpuView {
                stack: pre.stack.update(pre.sp, pre.pc as u16),
                sp: pre.sp + 1,
                pc: a as int,
                ..pre
            } && r == ExecResult::Success
        },
        Instruction::SeV(x, kk) => if !valid_reg(x as int) {
            post == pre && r == ExecResult::Fail(Fault::InvalidRegister)
        } else {
            post == (if pre.v[x as int] == kk {
                with_pc(pre, pre.pc + 2)
            } else {
                pre
            }) && r == ExecResult::Success
        },
        Instruction::SneV(x, kk) => if !valid_reg(x as int) {
            post == pre && r == ExecResult::Fail(Fault::InvalidRegister)
        } else {
            post == (if pre.v[x as int] != kk {
                with_pc(pre, pre.pc + 2)
            } else {
                pre
            }) && r == ExecResult::Success
        },
        Instruction::Se(x, y) => if !valid_reg(x as int) || !valid_reg(y as int) {
            post == pre && r == ExecResult::Fail(Fault::InvalidRegister)
        } else {
            post == (if pre.v[x as int] == pre.v[y as int] {
                with_pc(pre, pre.pc + 2)
            } else {
                pre
            }) && r == ExecResult::Success
        },
        Instruction::Sne(x, y) => if !valid_reg(x as int) || !valid_reg(y as int) {
            post == pre && r == ExecResult::Fail(Fault::InvalidRegister)
        } else {
            post == (if pre.v[x as int] != pre.v[y as int] {
                with_pc(pre, pre.pc + 2)
            } else {
                pre
            }) && r == ExecResult::Success
        },
        Instruction::LdV(x, kk) => if !valid_reg(x as int) {
            post == pre && r == ExecResult::Fail(Fault::InvalidRegister)
        } else {
            post == with_reg(pre, x as int, kk) && r == ExecResult::Success
        },
        Instruction::AddV(x, kk) => if !valid_reg(x as int) {
            post == pre && r == ExecResult::Fail(Fault::InvalidRegister)
        } else {
            post == with_reg(pre, x as int, ((pre.v[x as int] + kk) % 256) as u8) && r
                == ExecResult::Success
        },
        Instruction::Ld(x, y) => if !valid_reg(x as int) || !valid_reg(y as int) {
            post == pre && r == ExecResult::Fail(Fault::InvalidRegister)
        } else {
            post == with_reg(pre, x as int, pre.v[y as int]) && r == ExecResult::Success
        },
        Instruction::Or(x, y) => if !valid_reg(x as int) || !valid_reg(y as int) {
            post == pre && r == ExecResult::Fail(Fault::InvalidRegister)
        } else {
            post == with_reg(pre, x as int, pre.v[x as int] | pre.v[y as int]) && r
                == ExecResult::Success
        },
        Instruction::And(x, y) => if !valid_reg(x as int) || !valid_reg(y as int) {
            post == pre && r == ExecResult::Fail(Fault::InvalidRegister)
        } else {
            post == with_reg(pre, x as int, pre.v[x as int] & pre.v[y as int]) && r
                == ExecResult::Success
        },
        Instruction::Xor(x, y) => if !valid_reg(x as int) || !valid_reg(y as int) {
            post == pre && r == ExecResult::Fail(Fault::InvalidRegister)
        } else {
            post == with_reg(pre, x as int, pre.v[x as int] ^ pre.v[y as int]) && r
                == ExecResult::Success
        },
        Instruction::Add(x, y) => if !valid_reg(x as int) || !valid_reg(y as int) {
            post == pre && r == ExecResult::Fail(Fault::InvalidRegister)
        } else {
            let sum = pre.v[x as int] + pre.v[y as int];
            post == CpuView {
                v: pre.v.update(15, if sum > 255 { 1u8 } else { 0u8 }).update(
                    x as int,
                    (sum % 256) as u8,
                ),
                ..pre
            } && r == ExecResult::Success
        },
        Instruction::Sub(x, y) => if !valid_reg(x as int) || !valid_reg(y as int) {
            post == pre && r == ExecResult::Fail(Fault::InvalidRegister)
        } else {
            post == CpuView {
                v: pre.v.update(
                    15,
                    if pre.v[x as int] > pre.v[y as int] { 1u8 } else { 0u8 },
                ).update(x as int, ((pre.v[x as int] - pre.v[y as int]) % 256) as u8),
                ..pre
            } && r == ExecResult::Success
        },
        Instruction::Subn(x, y) => if !valid_reg(x as int) || !valid_reg(y as int) {
            post == pre && r == ExecResult::Fail(Fault::InvalidRegister)
        } else {
            post == CpuView {
                v: pre.v.update(
                    15,
                    if pre.v[y as int] > pre.v[x as int] { 1u8 } else { 0u8 },
                ).update(y as int, ((pre.v[y as int] - pre.v[x as int]) % 256) as u8),
                ..pre
            } && r == ExecResult::Success
        },
        Instruction::Shr(x) => if !valid_reg(x as int) {
            post == pre && r == ExecResult::Fail(Fault::InvalidRegister)
        } else {
            post == CpuView {
                v: pre.v.update(15, pre.v[x as int] & 1).update(x as int, pre.v[x as int] >> 1),
                ..pre
            } && r == ExecResult::Success
        },
        Instruction::Shl(x) => if !valid_reg(x as int) {
            post == pre && r == ExecResult::Fail(Fault::InvalidRegister)
        } else {
            post == CpuView {
                v: pre.v.update(15, pre.v[x as int] >> 7).update(
                    x as int,
                    ((pre.v[x as int] * 2) % 256) as u8,
                ),
                ..pre
            } && r == ExecResult::Success
        },
        Instruction::LdI(a) => post == CpuView { i: a as int, ..pre } && r == ExecResult::Success,
        Instruction::JpV0(a) => {
            let dest = pre.v[0] + a;
            if valid_pc(dest) {
                post == with_pc(pre, dest) && r == ExecResult::Success
            } else {
                post == pre && r == ExecResult::Fail(Fault::InvalidJump)
            }
        },
        Instruction::Rnd(x, kk) => if !valid_reg(x as int) {
            post == pre && r == ExecResult::Fail(Fault::InvalidRegister)
        } else {
            rnd_rel(pre, x, kk, post) && r == ExecResult::Success
        },
        Instruction::Drw(x, y, n) => if !valid_reg(x as int) || !valid_reg(y as int) {
            post == pre && r == ExecResult::Fail(Fault::InvalidRegister)
        } else if n > 15 {
            post == pre && r == ExecResult::Fail(Fault::InvalidSprite)
        } else if pre.i + n > 4096 {
            post == pre && r == ExecResult::Fail(Fault::InvalidAddress)
        } else {
            let sprite = pre.memory.subrange(pre.i, pre.i + n);
            let hit = spec_collision(pre.screen, pre.v[x as int], pre.v[y as int], sprite);
            post == CpuView {
                screen: spec_draw(pre.screen, pre.v[x as int], pre.v[y as int], sprite),
                v: pre.v.update(15, if hit { 1u8 } else { 0u8 }),
                ..pre
            } && r == ExecResult::Success
        },
        Instruction::Skp(x) => if !valid_reg(x as int) {
            post == pre && r == ExecResult::Fail(Fault::InvalidRegister)
        } else if pre.v[x as int] >= 16 {
            post == pre && r == ExecResult::Fail(Fault::InvalidKey)
        } else {
            post == (if pre.keys[pre.v[x as int] as int] {
                with_pc(pre, pre.pc + 2)
            } else {
                pre
            }) && r == ExecResult::Success
        },
        Instruction::Sknp(x) => if !valid_reg(x as int) {
            post == pre && r == ExecResult::Fail(Fault::InvalidRegister)
        } else if pre.v[x as int] >= 16 {
            post == pre && r == ExecResult::Fail(Fault::InvalidKey)
        } else {
            post == (if !pre.keys[pre.v[x as int] as int] {
                with_pc(pre, pre.pc + 2)
            } else {
                pre
            }) && r == ExecResult::Success
        },
        Instruction::LdDt(x) => if !valid_reg(x as int) {
            post == pre && r == ExecResult::Fail(Fault::InvalidRegister)
        } else {
            post == with_reg(pre, x as int, pre.delay as u8) && r == ExecResult::Success
        },
        Instruction::LdK(x) => if !valid_reg(x as int) {
            post == pre && r == ExecResult::Fail(Fault::InvalidRegister)
        } else {
            match spec_first_key(pre.keys, 0) {
                Some(k) => post == with_reg(pre, x as int, k) && r == ExecResult::Success,
                None => post == with_pc(pre, pre.pc - 2) && r == ExecResult::Success,
            }
        },
        Instruction::LdTd(x) => if !valid_reg(x as int) {
            post == pre && r == ExecResult::Fail(Fault::InvalidRegister)
        } else {
            post == CpuView { delay: pre.v[x as int] as int, ..pre } && r == ExecResult::Success
        },
        Instruction::LdSt(x) => if !valid_reg(x as int) {
            post == pre && r == ExecResult::Fail(Fault::InvalidRegister)
        } else {
            post == CpuView { sound: pre.v[x as int] as int, ..pre } && r == ExecResult::Success
        },
        Instruction::AddI(x) => if !valid_reg(x as int) {
            post == pre && r == ExecResult::Fail(Fault::InvalidRegister)
        } else {
            post == CpuView { i: (pre.i + pre.v[x as int]) % 0x10000, ..pre } && r
                == ExecResult::Success
        },
        Instruction::LdS(x) => if !valid_reg(x as int) {
            post == pre && r == ExecResult::Fail(Fault::InvalidRegister)
        } else {
            post == CpuView { i: 5 * pre.v[x as int], ..pre } && r == ExecResult::Success
        },
        Instruction::LdBCD(x) => if !valid_reg(x as int) {
            post == pre && r == ExecResult::Fail(Fault::InvalidRegister)
        } else if !valid_addr(pre.i + 2) {
            post == pre && r == ExecResult::Fail(Fault::InvalidAddress)
        } else {
            let val = pre.v[x as int];
            post == CpuView {
                memory: pre.memory.update(pre.i, (val / 100) as u8).update(
                    pre.i + 1,
                    ((val / 10) % 10) as u8,
                ).update(pre.i + 2, (val % 10) as u8),
                ..pre
            } && r == ExecResult::Success
        },
        Instruction::LdVM(x) => if !valid_reg(x as int) {
            post == pre && r == ExecResult::Fail(Fault::InvalidRegister)
        } else if !valid_addr(pre.i + x) {
            post == pre && r == ExecResult::Fail(Fault::InvalidAddress)
        } else {
            post == CpuView {
                memory: Seq::new(
                    4096,
                    |a: int|
                        if pre.i <= a <= pre.i + x {
                            pre.v[a - pre.i]
                        } else {
                            pre.memory[a]
                        },
                ),
                ..pre
            } && r == ExecResult::Success
        },
        Instruction::LdMV(x) => if !valid_reg(x as int) {
            post == pre && r == ExecResult::Fail(Fault::InvalidRegister)
        } else if !valid_addr(pre.i + x) {
            post == pre && r == ExecResult::Fail(Fault::InvalidAddress)
        } else {
            post == CpuView {
                v: Seq::new(
                    16,
                    |k: int|
                        if 0 <= k <= x {
                            pre.memory[pre.i + k]
                        } else {
                            pre.v[k]
                        },
                ),
                ..pre
            } && r == ExecResult::Success
        },
    }
}

/// Timers count down toward zero once per executed instruction.
pub open spec fn tick_timers(s: CpuView) -> CpuView {
    CpuView {
        delay: if s.delay > 0 {
            s.delay - 1
        } else {
            0
        },
        sound: if s.sound > 0 {
            s.sound - 1
        } else {
            0
        },
        ..s
    }
}

/// Whether `op` is a key-wait finding no key pressed: the one case where
/// an iteration suspends instead of completing.
pub open spec fn is_waiting(op: Instruction, keys: Seq<bool>) -> bool {
    match op {
        Instruction::LdK(x) => valid_reg(x as int) && spec_first_key(keys, 0) is None,
        _ => false,
    }
}

/// The loop outcome after `op` executed from the fetched state: success
/// ticks the timers and asks for the audio cue while the sound timer
/// runs; a fault or an exit halts with the state as the handler left it.
pub open spec fn after_exec(
    op: Instruction,
    mid: CpuView,
    er: ExecResult,
    post: CpuView,
    r: StepResult,
) -> bool {
    match er {
        ExecResult::Success => post == tick_timers(mid) && r == StepResult::Ran {
            beep: mid.sound > 0,
        },
        ExecResult::Fail(f) => post == mid && r == StepResult::Halted(
            HaltReason::ExecutionFault(f, op),
        ),
        ExecResult::Exit => post == mid && r == StepResult::Halted(HaltReason::Halt),
    }
}

/// One iteration of the fetch-decode-execute loop, as a relation between
/// the state before, the state after, and the reported outcome.
pub open spec fn step_rel(pre: CpuView, post: CpuView, r: StepResult) -> bool {
    if pre.pc + 1 > 0xFFF {
        post == pre && r == StepResult::Halted(HaltReason::FetchOutOfBounds(pre.pc as u16))
    } else {
        let b0 = pre.memory[pre.pc];
        let b1 = pre.memory[pre.pc + 1];
        match spec_decode(b0, b1) {
            None => post == pre && r == StepResult::Halted(
                HaltReason::DecodeFailure(DecodeError { b0, b1 }),
            ),
            Some(op) => {
                let fetched = with_pc(pre, pre.pc + 2);
                if is_waiting(op, pre.keys) {
                    post == pre && r == StepResult::Waiting
                } else {
                    exists|mid: CpuView, er: ExecResult|
                        #[trigger] exec_rel(fetched, op, mid, er) && after_exec(
                            op,
                            mid,
                            er,
                            post,
                            r,
                        )
                }
            },
        }
    }
}

/// The machine state, exclusively owned by the engine.
pub struct CPUState {
    v: Vec<u8>,
    i: u16,
    pc: u16,
    memory: Vec<u8>,
    screen: Screen,
    keys: Vec<bool>,
    delay_timer: u8,
    sound_timer: u8,
    stack: Vec<u16>,
    sp: u16,
}

impl View for CPUState {
    type V = CpuView;

    closed spec fn view(&self) -> CpuView {
        CpuView {
            v: self.v@,
            i: self.i as int,
            pc: self.pc as int,
            memory: self.memory@,
            screen: self.screen@,
            keys: self.keys@,
            delay: self.delay_timer as int,
            sound: self.sound_timer as int,
            stack: self.stack@,
            sp: self.sp as int,
        }
    }
}

impl CPUState {
    /// A machine ready to run: everything zeroed but the font and the
    /// program counter.
    pub fn new() -> (r: CPUState)
        ensures
            r@.wf(),
            r@ == spec_initial_state(),
    {
        let font: Vec<u8> = vec![
            0xF0, 0x90, 0x90, 0x90, 0xF0,
            0x20, 0x60, 0x20, 0x20, 0x70,
            0xF0, 0x10, 0xF0, 0x80, 0xF0,
            0xF0, 0x10, 0xF0, 0x10, 0xF0,
            0x90, 0x90, 0xF0, 0x10, 0x10,
            0xF0, 0x80, 0xF0, 0x10, 0xF0,
            0xF0, 0x80, 0xF0, 0x90, 0xF0,
            0xF0, 0x10, 0x20, 0x40, 0x40,
            0xF0, 0x90, 0xF0, 0x90, 0xF0,
            0xF0, 0x90, 0xF0, 0x10, 0xF0,
            0xF0, 0x90, 0xF0, 0x90, 0x90,
            0xE0, 0x90, 0xE0, 0x90, 0xE0,
            0xF0, 0x80, 0x80, 0x80, 0xF0,
            0xE0, 0x90, 0x90, 0x90, 0xE0,
            0xF0, 0x80, 0xF0, 0x80, 0xF0,
            0xF0, 0x80, 0xF0, 0x80, 0x80,
        ];
        proof {
            assert(font@ =~= spec_font());
        }
        let mut memory: Vec<u8> = Vec::new();
        let mut a: usize = 0;
        while a < 4096
            invariant
                font@ == spec_font(),
                a <= 4096,
                memory@.len() == a,
                forall|t: int| 0 <= t < a && t < 80 ==> memory@[t] == spec_font()[t],
                forall|t: int| 80 <= t < a ==> memory@[t] == 0u8,
            decreases 4096 - a,
        {
            if a < 80 {
                memory.push(font[a]);
            } else {
                memory.push(0);
            }
            a = a + 1;
        }
        let mut v: Vec<u8> = Vec::new();
        let mut stack: Vec<u16> = Vec::new();
        let mut keys: Vec<bool> = Vec::new();
        let mut k: usize = 0;
        while k < 16
            invariant
                k <= 16,
                v@.len() == k,
                stack@.len() == k,
                keys@.len() == k,
                forall|t: int| 0 <= t < k ==> v@[t] == 0u8,
                forall|t: int| 0 <= t < k ==> stack@[t] == 0u16,
                forall|t: int| 0 <= t < k ==> !keys@[t],
            decreases 16 - k,
        {
            v.push(0);
            stack.push(0);
            keys.push(false);
            k = k + 1;
        }
        let r = CPUState {
            v,
            i: 0,
            pc: 0x200,
            memory,
            screen: Screen::new(),
            keys,
            delay_timer: 0,
            sound_timer: 0,
            stack,
            sp: 0,
        };
        proof {
            assert(r@.v =~= spec_initial_state().v);
            assert(r@.memory =~= spec_initial_state().memory);
            assert(r@.keys =~= spec_initial_state().keys);
            assert(r@.stack =~= spec_initial_state().stack);
            assert(r@ =~= spec_initial_state());
        }
        r
    }

    /// Copy a ROM into memory starting at 0x200.  A ROM that would run
    /// past the last address is refused whole.
    pub fn load_rom(&mut self, rom: &[u8]) -> (r: Result<(), RomError>)
        requires
            old(self)@.wf(),
        ensures
            final(self)@.wf(),
            rom@.len() <= 3584 ==> (r == Ok::<(), RomError>(()) && final(self)@ == (CpuView {
                memory: Seq::new(
                    4096,
                    |a: int|
                        if 0x200 <= a < 0x200 + rom@.len() {
                            rom@[a - 0x200]
                        } else {
                            old(self)@.memory[a]
                        },
                ),
                ..old(self)@
            })),
            rom@.len() > 3584 ==> (r == Err::<(), RomError>(RomError::TooLarge) && final(self)@
                == old(self)@),
    {
        if rom.len() > 3584 {
            return Err(RomError::TooLarge);
        }
        let n = rom.len();
        let mut j: usize = 0;
        while j < n
            invariant
                old(self)@.wf(),
                n == rom@.len(),
                n <= 3584,
                j <= n,
                self@ == (CpuView { memory: self@.memory, ..old(self)@ }),
                self@.memory.len() == 4096,
                forall|a: int| 0x200 <= a < 0x200 + j ==> self@.memory[a] == rom@[a - 0x200],
                forall|a: int|
                    0 <= a < 4096 && !(0x200 <= a < 0x200 + j) ==> self@.memory[a] == old(
                        self,
                    )@.memory[a],
            decreases n - j,
        {
            let b = *vstd::slice::slice_index_get(rom, j);
            self.memory[0x200 + j] = b;
            j = j + 1;
        }
        proof {
            assert(self@.memory =~= Seq::new(
                4096,
                |a: int|
                    if 0x200 <= a < 0x200 + rom@.len() {
                        rom@[a - 0x200]
                    } else {
                        old(self)@.memory[a]
                    },
            ));
            assert(self@ =~= CpuView {
                memory: Seq::new(
                    4096,
                    |a: int|
                        if 0x200 <= a < 0x200 + rom@.len() {
                            rom@[a - 0x200]
                        } else {
                            old(self)@.memory[a]
                        },
                ),
                ..old(self)@
            });
        }
        Ok(())
    }

    /// Record one key of the pad as pressed or released.
    pub fn set_key(&mut self, k: u8, down: bool)
        requires
            old(self)@.wf(),
            k < 16,
        ensures
            final(self)@.wf(),
            final(self)@ == (CpuView { keys: old(self)@.keys.update(k as int, down), ..old(self)@ }),
    {
        self.keys[k as usize] = down;
        proof {
            assert(self@ =~= CpuView {
                keys: old(self)@.keys.update(k as int, down),
                ..old(self)@
            });
        }
    }

    /// The lowest-indexed pressed key, if any.
    pub fn active_key(&self) -> (r: Option<u8>)
        requires
            self@.wf(),
        ensures
            r == spec_first_key(self@.keys, 0),
    {
        let mut k: usize = 0;
        while k < 16
            invariant
                self@.wf(),
                k <= 16,
                spec_first_key(self@.keys, 0) == spec_first_key(self@.keys, k as int),
            decreases 16 - k,
        {
            if self.keys[k] {
                return Some(k as u8);
            }
            k = k + 1;
        }
        None
    }

    /// Register `V[x]`.
    pub fn reg(&self, x: u8) -> (r: u8)
        requires
            self@.wf(),
            x < 16,
        ensures
            r == self@.v[x as int],
    {
        self.v[x as usize]
    }

    /// The program counter.
    pub fn pc(&self) -> (r: u16)
        ensures
            r == self@.pc,
    {
        self.pc
    }

    /// The index register `I`.
    pub fn i_reg(&self) -> (r: u16)
        ensures
            r == self@.i,
    {
        self.i
    }

    /// How many call-stack slots are in use.
    pub fn sp(&self) -> (r: u16)
        ensures
            r == self@.sp,
    {
        self.sp
    }

    /// The delay timer.
    pub fn delay(&self) -> (r: u8)
        ensures
            r == self@.delay,
    {
        self.delay_timer
    }

    /// The sound timer.
    pub fn sound(&self) -> (r: u8)
        ensures
            r == self@.sound,
    {
        self.sound_timer
    }

    /// The byte at memory address `a`.
    pub fn mem(&self, a: u16) -> (r: u8)
        requires
            self@.wf(),
            a <= 0xFFF,
        ensures
            r == self@.memory[a as int],
    {
        self.memory[a as usize]
    }

    /// Pixel `(x, y)` of the framebuffer.
    pub fn pixel(&self, x: usize, y: usize) -> (r: bool)
        requires
            self@.wf(),
            x < 64,
            y < 32,
        ensures
            r == self@.screen[y * 64 + x],
    {
        self.screen.get_pixel(x, y)
    }
}

/// Relies on rand::random::<u8>: a byte drawn from the thread-local
/// generator, uniformly distributed; nothing is assumed about its value.
#[verifier::external_body]
fn random_byte() -> u8 {
    rand::random::<u8>()
}

impl CPUState {
    fn clear_op(&mut self) -> (r: ExecResult)
        requires
            old(self)@.wf(),
        ensures
            final(self)@.wf(),
            exec_rel(old(self)@, Instruction::Cls, final(self)@, r),
    {
        self.screen.clear();
        proof {
            assert(self@ =~= (CpuView { screen: blank_screen(), ..old(self)@ }));
        }
        ExecResult::Success
    }

    fn return_op(&mut self) -> (r: ExecResult)
        requires
            old(self)@.wf(),
        ensures
            final(self)@.wf(),
            exec_rel(old(self)@, Instruction::Ret, final(self)@, r),
    {
        if self.sp == 0 {
            return ExecResult::Exit;
        }
        self.sp = self.sp - 1;
        self.pc = self.stack[self.sp as usize];
        proof {
            assert(self@ =~= (CpuView {
                sp: old(self)@.sp - 1,
                pc: old(self)@.stack[old(self)@.sp - 1] as int,
                ..old(self)@
            }));
        }
        if self.pc < 0x200 || self.pc > 0xFFF {
            return ExecResult::Fail(Fault::InvalidReturn);
        }
        ExecResult::Success
    }

    fn jump_op(&mut self, addr: u16) -> (r: ExecResult)
        requires
            old(self)@.wf(),
        ensures
            final(self)@.wf(),
            exec_rel(old(self)@, Instruction::Jp(addr), final(self)@, r),
    {
        if addr < 0x200 || addr > 0xFFF {
            return ExecResult::Fail(Fault::InvalidJump);
        }
        self.pc = addr;
        proof {
            assert(self@ =~= with_pc(old(self)@, addr as int));
        }
        ExecResult::Success
    }

    fn call_op(&mut self, addr: u16) -> (r: ExecResult)
        requires
            old(self)@.wf(),
        ensures
            final(self)@.wf(),
            exec_rel(old(self)@, Instruction::Call(addr), final(self)@, r),
    {
        if self.sp >= 16 {
            return ExecResult::Fail(Fault::StackOverflow);
        }
        if addr < 0x200 || addr > 0xFFF {
            return ExecResult::Fail(Fault::InvalidCall);
        }
        self.stack[self.sp as usize] = self.pc;
        self.sp = self.sp + 1;
        self.pc = addr;
        proof {
            assert(self@ =~= (CpuView {
                stack: old(self)@.stack.update(old(self)@.sp, old(self)@.pc as u16),
                sp: old(self)@.sp + 1,
                pc: addr as int,
                ..old(self)@
            }));
        }
        ExecResult::Success
    }

    fn loadv_op(&mut self, vx: u8, kk: u8) -> (r: ExecResult)
        requires
            old(self)@.wf(),
        ensures
            final(self)@.wf(),
            exec_rel(old(self)@, Instruction::LdV(vx, kk), final(self)@, r),
    {
        if vx >= 16 {
            return ExecResult::Fail(Fault::InvalidRegister);
        }
        self.v[vx as usize] = kk;
        proof {
            assert(self@ =~= with_reg(old(self)@, vx as int, kk));
        }
        ExecResult::Success
    }

    fn addv_op(&mut self, vx: u8, kk: u8) -> (r: ExecResult)
        requires
            old(self)@.wf(),
        ensures
            final(self)@.wf(),
            exec_rel(old(self)@, Instruction::AddV(vx, kk), final(self)@, r),
    {
        if vx >= 16 {
            return ExecResult::Fail(Fault::InvalidRegister);
        }
        let sum: u16 = (self.v[vx as usize] as u16) + (kk as u16);
        self.v[vx as usize] = (sum % 256) as u8;
        proof {
            assert(self@ =~= with_reg(
                old(self)@,
                vx as int,
                ((old(self)@.v[vx as int] + kk) % 256) as u8,
            ));
        }
        ExecResult::Success
    }

    fn load_op(&mut self, vx: u8, vy: u8) -> (r: ExecResult)
        requires
            old(self)@.wf(),
        ensures
            final(self)@.wf(),
            exec_rel(old(self)@, Instruction::Ld(vx, vy), final(self)@, r),
    {
        if vx >= 16 || vy >= 16 {
            return ExecResult::Fail(Fault::InvalidRegister);
        }
        self.v[vx as usize] = self.v[vy as usize];
        proof {
            assert(self@ =~= with_reg(old(self)@, vx as int, old(self)@.v[vy as int]));
        }
        ExecResult::Success
    }

    fn skipv_op(&mut self, vx: u8, kk: u8, eq: bool) -> (r: ExecResult)
        requires
            old(self)@.wf(),
            old(self)@.pc <= 0x1000,
        ensures
            final(self)@.wf(),
            exec_rel(
                old(self)@,
                if eq {
                    Instruction::SeV(vx, kk)
                } else {
                    Instruction::SneV(vx, kk)
                },
                final(self)@,
                r,
            ),
    {
        if vx >= 16 {
            return ExecResult::Fail(Fault::InvalidRegister);
        }
        if (self.v[vx as usize] == kk) == eq {
            self.pc = self.pc + 2;
            proof {
                assert(self@ =~= with_pc(old(self)@, old(self)@.pc + 2));
            }
        }
        ExecResult::Success
    }

    fn skip_op(&mut self, vx: u8, vy: u8, eq: bool) -> (r: ExecResult)
        requires
            old(self)@.wf(),
            old(self)@.pc <= 0x1000,
        ensures
            final(self)@.wf(),
            exec_rel(
                old(self)@,
                if eq {
                    Instruction::Se(vx, vy)
                } else {
                    Instruction::Sne(vx, vy)
                },
                final(self)@,
                r,
            ),
    {
        if vx >= 16 || vy >= 16 {
            return ExecResult::Fail(Fault::InvalidRegister);
        }
        if (self.v[vx as usize] == self.v[vy as usize]) == eq {
            self.pc = self.pc + 2;
            proof {
                assert(self@ =~= with_pc(old(self)@, old(self)@.pc + 2));
            }
        }
        ExecResult::Success
    }

    fn or_op(&mut self, vx: u8, vy: u8) -> (r: ExecResult)
        requires
            old(self)@.wf(),
        ensures
            final(self)@.wf(),
            exec_rel(old(self)@, Instruction::Or(vx, vy), final(self)@, r),
    {
        if vx >= 16 || vy >= 16 {
            return ExecResult::Fail(Fault::InvalidRegister);
        }
        self.v[vx as usize] = self.v[vx as usize] | self.v[vy as usize];
        proof {
            assert(self@ =~= with_reg(
                old(self)@,
                vx as int,
                old(self)@.v[vx as int] | old(self)@.v[vy as int],
            ));
        }
        ExecResult::Success
    }

    fn and_op(&mut self, vx: u8, vy: u8) -> (r: ExecResult)
        requires
            old(self)@.wf(),
        ensures
            final(self)@.wf(),
            exec_rel(old(self)@, Instruction::And(vx, vy), final(self)@, r),
    {
        if vx >= 16 || vy >= 16 {
            return ExecResult::Fail(Fault::InvalidRegister);
        }
        self.v[vx as usize] = self.v[vx as usize] & self.v[vy as usize];
        proof {
            assert(self@ =~= with_reg(
                old(self)@,
                vx as int,
                old(self)@.v[vx as int] & old(self)@.v[vy as int],
            ));
        }
        ExecResult::Success
    }

    fn xor_op(&mut self, vx: u8, vy: u8) -> (r: ExecResult)
        requires
            old(self)@.wf(),
        ensures
            final(self)@.wf(),
            exec_rel(old(self)@, Instruction::Xor(vx, vy), final(self)@, r),
    {
        if vx >= 16 || vy >= 16 {
            return ExecResult::Fail(Fault::InvalidRegister);
        }
        self.v[vx as usize] = self.v[vx as usize] ^ self.v[vy as usize];
        proof {
            assert(self@ =~= with_reg(
                old(self)@,
                vx as int,
                old(self)@.v[vx as int] ^ old(self)@.v[vy as int],
            ));
        }
        ExecResult::Success
    }

    fn add_op(&mut self, vx: u8, vy: u8) -> (r: ExecResult)
        requires
            old(self)@.wf(),
        ensures
            final(self)@.wf(),
            exec_rel(old(self)@, Instruction::Add(vx, vy), final(self)@, r),
    {
        if vx >= 16 || vy >= 16 {
            return ExecResult::Fail(Fault::InvalidRegister);
        }
        let a = self.v[vx as usize];
        let b = self.v[vy as usize];
        let sum: u16 = (a as u16) + (b as u16);
        if sum > 255 {
            self.v[15] = 1;
        } else {
            self.v[15] = 0;
        }
        self.v[vx as usize] = (sum % 256) as u8;
        proof {
            assert(self@ =~= (CpuView {
                v: old(self)@.v.update(
                    15,
                    if old(self)@.v[vx as int] + old(self)@.v[vy as int] > 255 {
                        1u8
                    } else {
                        0u8
                    },
                ).update(
                    vx as int,
                    ((old(self)@.v[vx as int] + old(self)@.v[vy as int]) % 256) as u8,
                ),
                ..old(self)@
            }));
        }
        ExecResult::Success
    }

    fn sub_op(&mut self, vx: u8, vy: u8) -> (r: ExecResult)
        requires
            old(self)@.wf(),
        ensures
            final(self)@.wf(),
            exec_rel(old(self)@, Instruction::Sub(vx, vy), final(self)@, r),
    {
        if vx >= 16 || vy >= 16 {
            return ExecResult::Fail(Fault::InvalidRegister);
        }
        let a = self.v[vx as usize];
        let b = self.v[vy as usize];
        if a > b {
            self.v[15] = 1;
        } else {
            self.v[15] = 0;
        }
        let diff: u16 = (a as u16) + 256 - (b as u16);
        proof {
            lemma_mod_multiples_vanish(1, a - b, 256);
        }
        self.v[vx as usize] = (diff % 256) as u8;
        proof {
            assert(self@ =~= (CpuView {
                v: old(self)@.v.update(
                    15,
                    if old(self)@.v[vx as int] > old(self)@.v[vy as int] {
                        1u8
                    } else {
                        0u8
                    },
                ).update(
                    vx as int,
                    ((old(self)@.v[vx as int] - old(self)@.v[vy as int]) % 256) as u8,
                ),
                ..old(self)@
            }));
        }
        ExecResult::Success
    }

    fn shr_op(&mut self, vx: u8) -> (r: ExecResult)
        requires
            old(self)@.wf(),
        ensures
            final(self)@.wf(),
            exec_rel(old(self)@, Instruction::Shr(vx), final(self)@, r),
    {
        if vx >= 16 {
            return ExecResult::Fail(Fault::InvalidRegister);
        }
        let a = self.v[vx as usize];
        self.v[15] = a & 1;
        self.v[vx as usize] = a >> 1u8;
        proof {
            assert(self@ =~= (CpuView {
                v: old(self)@.v.update(15, old(self)@.v[vx as int] & 1).update(
                    vx as int,
                    old(self)@.v[vx as int] >> 1u8,
                ),
                ..old(self)@
            }));
        }
        ExecResult::Success
    }

    fn shl_op(&mut self, vx: u8) -> (r: ExecResult)
        requires
            old(self)@.wf(),
        ensures
            final(self)@.wf(),
            exec_rel(old(self)@, Instruction::Shl(vx), final(self)@, r),
    {
        if vx >= 16 {
            return ExecResult::Fail(Fault::InvalidRegister);
        }
        let a = self.v[vx as usize];
        self.v[15] = a >> 7u8;
        let doubled: u16 = (a as u16) * 2;
        self.v[vx as usize] = (doubled % 256) as u8;
        proof {
            assert(self@ =~= (CpuView {
                v: old(self)@.v.update(15, old(self)@.v[vx as int] >> 7u8).update(
                    vx as int,
                    ((old(self)@.v[vx as int] * 2) % 256) as u8,
                ),
                ..old(self)@
            }));
        }
        ExecResult::Success
    }

    fn loadi_op(&mut self, addr: u16) -> (r: ExecResult)
        requires
            old(self)@.wf(),
        ensures
            final(self)@.wf(),
            exec_rel(old(self)@, Instruction::LdI(addr), final(self)@, r),
    {
        self.i = addr;
        proof {
            assert(self@ =~= (CpuView { i: addr as int, ..old(self)@ }));
        }
        ExecResult::Success
    }

    fn jumpv0_op(&mut self, addr: u16) -> (r: ExecResult)
        requires
            old(self)@.wf(),
        ensures
            final(self)@.wf(),
            exec_rel(old(self)@, Instruction::JpV0(addr), final(self)@, r),
    {
        let dest: u32 = (self.v[0] as u32) + (addr as u32);
        if dest < 0x200 || dest > 0xFFF {
            return ExecResult::Fail(Fault::InvalidJump);
        }
        self.pc = dest as u16;
        proof {
            assert(self@ =~= with_pc(old(self)@, old(self)@.v[0] + addr));
        }
        ExecResult::Success
    }

    #[verifier::rlimit(50)]
    fn rand_op(&mut self, vx: u8, kk: u8) -> (r: ExecResult)
        requires
            old(self)@.wf(),
        ensures
            final(self)@.wf(),
            exec_rel(old(self)@, Instruction::Rnd(vx, kk), final(self)@, r),
    {
        if vx >= 16 {
            return ExecResult::Fail(Fault::InvalidRegister);
        }
        let b = random_byte();
        self.v[vx as usize] = b & kk;
        proof {
            assert(self@ =~= rnd_result(old(self)@, vx, kk, b));
            assert(rnd_rel(old(self)@, vx, kk, self@));
        }
        ExecResult::Success
    }

    fn draw_op(&mut self, vx: u8, vy: u8, n: u8) -> (r: ExecResult)
        requires
            old(self)@.wf(),
        ensures
            final(self)@.wf(),
            exec_rel(old(self)@, Instruction::Drw(vx, vy, n), final(self)@, r),
    {
        if vx >= 16 || vy >= 16 {
            return ExecResult::Fail(Fault::InvalidRegister);
        }
        if n > 15 {
            return ExecResult::Fail(Fault::InvalidSprite);
        }
        if (self.i as usize) + (n as usize) > 4096 {
            return ExecResult::Fail(Fault::InvalidAddress);
        }
        let x = self.v[vx as usize];
        let y = self.v[vy as usize];
        let mut sprite: Vec<u8> = Vec::new();
        let mut k: usize = 0;
        while k < n as usize
            invariant
                old(self)@.wf(),
                self == old(self),
                n <= 15,
                old(self)@.i + n <= 4096,
                k <= n as usize,
                sprite@.len() == k,
                forall|t: int| 0 <= t < k ==> sprite@[t] == old(self)@.memory[old(self)@.i + t],
            decreases n as usize - k,
        {
            let b = self.memory[self.i as usize + k];
            sprite.push(b);
            k = k + 1;
        }
        proof {
            assert(sprite@ =~= old(self)@.memory.subrange(old(self)@.i, old(self)@.i + n));
        }
        let res = self.screen.draw_sprite(x, y, &sprite);
        match res {
            DrawResult::Collision => {
                self.v[15] = 1;
            },
            DrawResult::Success => {
                self.v[15] = 0;
            },
        }
        proof {
            let pre = old(self)@;
            let sp = pre.memory.subrange(pre.i, pre.i + n);
            let hit = spec_collision(pre.screen, pre.v[vx as int], pre.v[vy as int], sp);
            assert(self@ =~= (CpuView {
                screen: spec_draw(pre.screen, pre.v[vx as int], pre.v[vy as int], sp),
                v: pre.v.update(15, if hit { 1u8 } else { 0u8 }),
                ..pre
            }));
        }
        ExecResult::Success
    }

    fn skipk_op(&mut self, vx: u8, down: bool) -> (r: ExecResult)
        requires
            old(self)@.wf(),
            old(self)@.pc <= 0x1000,
        ensures
            final(self)@.wf(),
            exec_rel(
                old(self)@,
                if down {
                    Instruction::Skp(vx)
                } else {
                    Instruction::Sknp(vx)
                },
                final(self)@,
                r,
            ),
    {
        if vx >= 16 {
            return ExecResult::Fail(Fault::InvalidRegister);
        }
        let k = self.v[vx as usize];
        if k >= 16 {
            return ExecResult::Fail(Fault::InvalidKey);
        }
        if self.keys[k as usize] == down {
            self.pc = self.pc + 2;
            proof {
                assert(self@ =~= with_pc(old(self)@, old(self)@.pc + 2));
            }
        }
        ExecResult::Success
    }

    fn loaddt_op(&mut self, vx: u8) -> (r: ExecResult)
        requires
            old(self)@.wf(),
        ensures
            final(self)@.wf(),
            exec_rel(old(self)@, Instruction::LdDt(vx), final(self)@, r),
    {
        if vx >= 16 {
            return ExecResult::Fail(Fault::InvalidRegister);
        }
        self.v[vx as usize] = self.delay_timer;
        proof {
            assert(self@ =~= with_reg(old(self)@, vx as int, old(self)@.delay as u8));
        }
        ExecResult::Success
    }

    fn loadwaitk_op(&mut self, vx: u8) -> (r: ExecResult)
        requires
            old(self)@.wf(),
            old(self)@.pc >= 2,
        ensures
            final(self)@.wf(),
            exec_rel(old(self)@, Instruction::LdK(vx), final(self)@, r),
    {
        if vx >= 16 {
            return ExecResult::Fail(Fault::InvalidRegister);
        }
        match self.active_key() {
            Some(k) => {
                self.v[vx as usize] = k;
                proof {
                    assert(self@ =~= with_reg(old(self)@, vx as int, k));
                }
            },
            None => {
                self.pc = self.pc - 2;
                proof {
                    assert(self@ =~= with_pc(old(self)@, old(self)@.pc - 2));
                }
            },
        }
        ExecResult::Success
    }

    fn loadtd_op(&mut self, vx: u8) -> (r: ExecResult)
        requires
            old(self)@.wf(),
        ensures
            final(self)@.wf(),
            exec_rel(old(self)@, Instruction::LdTd(vx), final(self)@, r),
    {
        if vx >= 16 {
            return ExecResult::Fail(Fault::InvalidRegister);
        }
        self.delay_timer = self.v[vx as usize];
        proof {
            assert(self@ =~= (CpuView { delay: old(self)@.v[vx as int] as int, ..old(self)@ }));
        }
        ExecResult::Success
    }

    fn loadst_op(&mut self, vx: u8) -> (r: ExecResult)
        requires
            old(self)@.wf(),
        ensures
            final(self)@.wf(),
            exec_rel(old(self)@, Instruction::LdSt(vx), final(self)@, r),
    {
        if vx >= 16 {
            return ExecResult::Fail(Fault::InvalidRegister);
        }
        self.sound_timer = self.v[vx as usize];
        proof {
            assert(self@ =~= (CpuView { sound: old(self)@.v[vx as int] as int, ..old(self)@ }));
        }
        ExecResult::Success
    }

    fn addi_op(&mut self, vx: u8) -> (r: ExecResult)
        requires
            old(self)@.wf(),
        ensures
            final(self)@.wf(),
            exec_rel(old(self)@, Instruction::AddI(vx), final(self)@, r),
    {
        if vx >= 16 {
            return ExecResult::Fail(Fault::InvalidRegister);
        }
        let wide: u32 = (self.i as u32) + (self.v[vx as usize] as u32);
        self.i = (wide % 0x10000) as u16;
        proof {
            assert(self@ =~= (CpuView {
                i: (old(self)@.i + old(self)@.v[vx as int]) % 0x10000,
                ..old(self)@
            }));
        }
        ExecResult::Success
    }

    fn loads_op(&mut self, vx: u8) -> (r: ExecResult)
        requires
            old(self)@.wf(),
        ensures
            final(self)@.wf(),
            exec_rel(old(self)@, Instruction::LdS(vx), final(self)@, r),
    {
        if vx >= 16 {
            return ExecResult::Fail(Fault::InvalidRegister);
        }
        self.i = 5 * (self.v[vx as usize] as u16);
        proof {
            assert(self@ =~= (CpuView { i: 5 * old(self)@.v[vx as int], ..old(self)@ }));
        }
        ExecResult::Success
    }

    fn loadbcd_op(&mut self, vx: u8) -> (r: ExecResult)
        requires
            old(self)@.wf(),
        ensures
            final(self)@.wf(),
            exec_rel(old(self)@, Instruction::LdBCD(vx), final(self)@, r),
    {
        if vx >= 16 {
            return ExecResult::Fail(Fault::InvalidRegister);
        }
        if self.i > 0xFFD {
            return ExecResult::Fail(Fault::InvalidAddress);
        }
        let val = self.v[vx as usize];
        self.memory[self.i as usize] = val / 100;
        self.memory[self.i as usize + 1] = (val / 10) % 10;
        self.memory[self.i as usize + 2] = val % 10;
        proof {
            let pre = old(self)@;
            let v = pre.v[vx as int];
            assert(self@ =~= (CpuView {
                memory: pre.memory.update(pre.i, (v / 100) as u8).update(
                    pre.i + 1,
                    ((v / 10) % 10) as u8,
                ).update(pre.i + 2, (v % 10) as u8),
                ..pre
            }));
        }
        ExecResult::Success
    }

    fn loadvm_op(&mut self, vx: u8) -> (r: ExecResult)
        requires
            old(self)@.wf(),
        ensures
            final(self)@.wf(),
            exec_rel(old(self)@, Instruction::LdVM(vx), final(self)@, r),
    {
        if vx >= 16 {
            return ExecResult::Fail(Fault::InvalidRegister);
        }
        if (self.i as usize) + (vx as usize) > 0xFFF {
            return ExecResult::Fail(Fault::InvalidAddress);
        }
        let mut k: usize = 0;
        while k < vx as usize + 1
            invariant
                old(self)@.wf(),
                vx < 16,
                old(self)@.i + vx <= 0xFFF,
                k <= vx as usize + 1,
                self@ == (CpuView { memory: self@.memory, ..old(self)@ }),
                self@.memory.len() == 4096,
                forall|a: int|
                    old(self)@.i <= a < old(self)@.i + k ==> self@.memory[a] == old(self)@.v[a
                        - old(self)@.i],
                forall|a: int|
                    0 <= a < 4096 && !(old(self)@.i <= a < old(self)@.i + k) ==> self@.memory[a]
                        == old(self)@.memory[a],
            decreases vx as usize + 1 - k,
        {
            self.memory[self.i as usize + k] = self.v[k];
            k = k + 1;
        }
        proof {
            let pre = old(self)@;
            assert(self@.memory =~= Seq::new(
                4096,
                |a: int|
                    if pre.i <= a <= pre.i + vx {
                        pre.v[a - pre.i]
                    } else {
                        pre.memory[a]
                    },
            ));
            assert(self@ =~= (CpuView {
                memory: Seq::new(
                    4096,
                    |a: int|
                        if pre.i <= a <= pre.i + vx {
                            pre.v[a - pre.i]
                        } else {
                            pre.memory[a]
                        },
                ),
                ..pre
            }));
        }
        ExecResult::Success
    }

    fn loadmv_op(&mut self, vx: u8) -> (r: ExecResult)
        requires
            old(self)@.wf(),
        ensures
            final(self)@.wf(),
            exec_rel(old(self)@, Instruction::LdMV(vx), final(self)@, r),
    {
        if vx >= 16 {
            return ExecResult::Fail(Fault::InvalidRegister);
        }
        if (self.i as usize) + (vx as usize) > 0xFFF {
            return ExecResult::Fail(Fault::InvalidAddress);
        }
        let mut k: usize = 0;
        while k < vx as usize + 1
            invariant
                old(self)@.wf(),
                vx < 16,
                old(self)@.i + vx <= 0xFFF,
                k <= vx as usize + 1,
                self@ == (CpuView { v: self@.v, ..old(self)@ }),
                self@.v.len() == 16,
                forall|t: int|
                    0 <= t < k ==> self@.v[t] == old(self)@.memory[old(self)@.i + t],
                forall|t: int| k <= t < 16 ==> self@.v[t] == old(self)@.v[t],
            decreases vx as usize + 1 - k,
        {
            self.v[k] = self.memory[self.i as usize + k];
            k = k + 1;
        }
        proof {
            let pre = old(self)@;
            assert(self@.v =~= Seq::new(
                16,
                |t: int|
                    if 0 <= t <= vx {
                        pre.memory[pre.i + t]
                    } else {
                        pre.v[t]
                    },
            ));
            assert(self@ =~= (CpuView {
                v: Seq::new(
                    16,
                    |t: int|
                        if 0 <= t <= vx {
                            pre.memory[pre.i + t]
                        } else {
                            pre.v[t]
                        },
                ),
                ..pre
            }));
        }
        ExecResult::Success
    }
}

impl CPUState {
    /// Execute one decoded instruction.  `pc` must already point at the
    /// next instruction — the loop advances it before executing — and so
    /// lies within or just past memory.
    pub fn exec_op(&mut self, op: Instruction) -> (r: ExecResult)
        requires
            old(self)@.wf(),
            2 <= old(self)@.pc <= 0x1000,
        ensures
            final(self)@.wf(),
            exec_rel(old(self)@, op, final(self)@, r),
    {
        match op {
            Instruction::Sys(_) => ExecResult::Success,
            Instruction::Cls => self.clear_op(),
            Instruction::Ret => self.return_op(),
            Instruction::Jp(addr) => self.jump_op(addr),
            Instruction::Call(addr) => self.call_op(addr),
            Instruction::SeV(vx, kk) => self.skipv_op(vx, kk, true),
            Instruction::SneV(vx, kk) => self.skipv_op(vx, kk, false),
            Instruction::Se(vx, vy) => self.skip_op(vx, vy, true),
            Instruction::Sne(vx, vy) => self.skip_op(vx, vy, false),
            Instruction::LdV(vx, kk) => self.loadv_op(vx, kk),
            Instruction::AddV(vx, kk) => self.addv_op(vx, kk),
            Instruction::Ld(vx, vy) => self.load_op(vx, vy),
            Instruction::Or(vx, vy) => self.or_op(vx, vy),
            Instruction::And(vx, vy) => self.and_op(vx, vy),
            Instruction::Xor(vx, vy) => self.xor_op(vx, vy),
            Instruction::Add(vx, vy) => self.add_op(vx, vy),
            Instruction::Sub(vx, vy) => self.sub_op(vx, vy),
            Instruction::Shr(vx) => self.shr_op(vx),
            Instruction::Subn(vx, vy) => {
                // subtraction with the operands reversed
                let r = self.sub_op(vy, vx);
                proof {
                    assert(exec_rel(old(self)@, Instruction::Subn(vx, vy), self@, r));
                }
                r
            },
            Instruction::Shl(vx) => self.shl_op(vx),
            Instruction::LdI(addr) => self.loadi_op(addr),
            Instruction::JpV0(addr) => self.jumpv0_op(addr),
            Instruction::Rnd(vx, kk) => self.rand_op(vx, kk),
            Instruction::Drw(vx, vy, n) => self.draw_op(vx, vy, n),
            Instruction::Skp(vx) => self.skipk_op(vx, true),
            Instruction::Sknp(vx) => self.skipk_op(vx, false),
            Instruction::LdDt(vx) => self.loaddt_op(vx),
            Instruction::LdK(vx) => self.loadwaitk_op(vx),
            Instruction::LdTd(vx) => self.loadtd_op(vx),
            Instruction::LdSt(vx) => self.loadst_op(vx),
            Instruction::AddI(vx) => self.addi_op(vx),
            Instruction::LdS(vx) => self.loads_op(vx),
            Instruction::LdBCD(vx) => self.loadbcd_op(vx),
            Instruction::LdVM(vx) => self.loadvm_op(vx),
            Instruction::LdMV(vx) => self.loadmv_op(vx),
        }
    }

    /// One iteration of the fetch-decode-execute loop: fetch the two
    /// bytes at `pc`, decode, advance `pc`, execute, tick the timers.
    /// A key-wait finding no key leaves the machine unchanged and
    /// reports `Waiting`; the caller pumps its input and calls again.
    pub fn step(&mut self) -> (r: StepResult)
        requires
            old(self)@.wf(),
        ensures
            final(self)@.wf(),
            step_rel(old(self)@, final(self)@, r),
    {
        if self.pc > 0xFFE {
            return StepResult::Halted(HaltReason::FetchOutOfBounds(self.pc));
        }
        let b0 = self.memory[self.pc as usize];
        let b1 = self.memory[self.pc as usize + 1];
        let op = match decode([b0, b1]) {
            Ok(op) => op,
            Err(e) => {
                return StepResult::Halted(HaltReason::DecodeFailure(e));
            },
        };
        let waiting = match op {
            Instruction::LdK(x) => x < 16 && self.active_key().is_none(),
            _ => false,
        };
        proof {
            assert(waiting == is_waiting(op, old(self)@.keys));
        }
        self.pc = self.pc + 2;
        proof {
            assert(self@ =~= with_pc(old(self)@, old(self)@.pc + 2));
        }
        let er = self.exec_op(op);
        let ghost mid = self@;
        let res: StepResult = match er {
            ExecResult::Fail(f) => StepResult::Halted(HaltReason::ExecutionFault(f, op)),
            ExecResult::Exit => StepResult::Halted(HaltReason::Halt),
            ExecResult::Success => {
                if waiting {
                    StepResult::Waiting
                } else {
                    let beep = self.sound_timer > 0;
                    if self.delay_timer > 0 {
                        self.delay_timer = self.delay_timer - 1;
                    }
                    if self.sound_timer > 0 {
                        self.sound_timer = self.sound_timer - 1;
                    }
                    StepResult::Ran { beep }
                }
            },
        };
        proof {
            let pre = old(self)@;
            let fetched = with_pc(pre, pre.pc + 2);
            assert(exec_rel(fetched, op, mid, er));
            if waiting {
                assert(self@ =~= pre);
            } else {
                assert(after_exec(op, mid, er, self@, res)) by {
                    if er is Success {
                        assert(self@ =~= tick_timers(mid));
                    }
                };
                assert(exists|m: CpuView, e: ExecResult|
                    #[trigger] exec_rel(fetched, op, m, e) && after_exec(op, m, e, self@, res));
            }
            assert(step_rel(pre, self@, res));
        }
        res
    }
}

/// `Add` sets the carry flag exactly when the unsigned sum of the two
/// operand bytes exceeds 255, and stores the low 8 bits of that sum —
/// wrapped, never an error.  (When the destination is the flag register
/// itself, the stored sum overwrites the flag, so that one register is
/// left out here.)
pub proof fn lemma_add_carry(pre: CpuView, post: CpuView, x: u8, y: u8, r: ExecResult)
    requires
        pre.wf(),
        x < 15,
        y < 16,
        exec_rel(pre, Instruction::Add(x, y), post, r),
    ensures
        r == ExecResult::Success,
        post.v[15] == (if pre.v[x as int] + pre.v[y as int] > 255 {
            1u8
        } else {
            0u8
        }),
        post.v[x as int] == ((pre.v[x as int] + pre.v[y as int]) % 256) as u8,
{
}

/// From a valid target, `Call` succeeds exactly while fewer than all
/// sixteen stack slots are in use — so sixteen consecutive calls succeed
/// — and the next one fails with a stack overflow, leaving the machine
/// unchanged.
pub proof fn lemma_call_stack_discipline(pre: CpuView, post: CpuView, a: u16, r: ExecResult)
    requires
        pre.wf(),
        valid_pc(a as int),
        exec_rel(pre, Instruction::Call(a), post, r),
    ensures
        pre.sp < 16 ==> r == ExecResult::Success && post.sp == pre.sp + 1,
        pre.sp == 16 ==> r == ExecResult::Fail(Fault::StackOverflow) && post == pre,
{
}

/// A return with an empty call stack is the defined, clean exit, not a
/// fault, and changes nothing.
pub proof fn lemma_ret_empty_exits(pre: CpuView, post: CpuView, r: ExecResult)
    requires
        pre.wf(),
        pre.sp == 0,
        exec_rel(pre, Instruction::Ret, post, r),
    ensures
        r == ExecResult::Exit,
        post == pre,
{
}

/// Skip semantics over a whole loop iteration: with `pre` the state at
/// fetch time and the executed state starting 2 past it, `SeV` leaves
/// `pc` ahead by 4 in all (2 for the fetch, 2 for the skip) when the
/// register equals the immediate, and by 2 when it does not.
pub proof fn lemma_skip_total_advance(pre: CpuView, post: CpuView, x: u8, kk: u8, r: ExecResult)
    requires
        pre.wf(),
        x < 16,
        exec_rel(with_pc(pre, pre.pc + 2), Instruction::SeV(x, kk), post, r),
    ensures
        r == ExecResult::Success,
        pre.v[x as int] == kk ==> post.pc == pre.pc + 4,
        pre.v[x as int] != kk ==> post.pc == pre.pc + 2,
{
}

} // verus!
