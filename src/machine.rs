use vstd::prelude::*;
use crate::display::{collides, drawn, lemma_draw_twice, lit};
use crate::opcode::{decoded, Opcode};

verus! {

/// What the interpreter holds, as mathematical values.
pub struct Machine {
    /// The sixteen general registers; register 15 doubles as the flag.
    pub v: Seq<u8>,
    pub memory: Seq<u8>,
    pub pc: u16,
    /// The index register.
    pub i: u16,
    /// Return addresses, the most recent last.
    pub stack: Seq<u16>,
    pub delay: u8,
    pub sound: u8,
    /// The framebuffer, row by row.
    pub screen: Seq<bool>,
    /// The register that a pending key wait will store the key in.
    pub awaiting: Option<u8>,
}

/// Why a program stopped with an error.
#[derive(Clone, Copy, Debug, PartialEq, Eq, Structural)]
pub enum EmuError {
    /// The word fetched at `pc` encodes no instruction.
    Decode { word: u16, pc: u16 },
    /// An access starting at `address` reaches past the end of memory.
    MemoryBounds { address: u16 },
    /// A return with no call to return to.
    StackUnderflow,
    /// A program image of `len` bytes does not fit above the reserved area.
    LoadTooLarge { len: usize },
}

/// What the host should do after a cycle.
#[derive(Clone, Copy, Debug, PartialEq, Eq, Structural)]
pub enum StepOutcome {
    /// Nothing to do; run the next cycle.
    Running,
    /// The framebuffer changed and may be presented.
    FrameReady,
    /// A key wait is pending; the next cycle given a key completes it.
    WaitingForKey,
    /// The zero instruction word was fetched: the program is over.
    Halted,
}

pub open spec fn wrap8(a: int) -> u8 {
    (a % 256) as u8
}

pub open spec fn wrap16(a: int) -> u16 {
    (a % 65536) as u16
}

/// The machine with register `x` set to `val`.
pub open spec fn set_v(m: Machine, x: u8, val: u8) -> Machine {
    Machine { v: m.v.update(x as int, val), ..m }
}

/// The machine with the next instruction skipped when `c` holds.
pub open spec fn skip_if(m: Machine, c: bool) -> Machine {
    if c {
        Machine { pc: wrap16(m.pc + 2), ..m }
    } else {
        m
    }
}

pub open spec fn flag(c: bool) -> u8 {
    if c {
        1
    } else {
        0
    }
}

/// Decimal digits of a byte: hundreds, tens, ones.
pub open spec fn bcd(val: u8) -> Seq<u8> {
    seq![(val / 100) as u8, ((val / 10) % 10) as u8, (val % 10) as u8]
}

/// The first `n` bytes of memory from `start`.
pub open spec fn sprite_rows(m: Machine, start: u16, n: u8) -> Seq<u8> {
    m.memory.subrange(start as int, start + n)
}

/// Memory with registers 0 through `x` stored from `start` on.
pub open spec fn stored(m: Machine, start: u16, x: u8) -> Seq<u8> {
    Seq::new(
        m.memory.len(),
        |a: int|
            if start <= a <= start + x {
                m.v[a - start]
            } else {
                m.memory[a]
            },
    )
}

/// Registers with 0 through `x` loaded from memory at `start` on.
pub open spec fn loaded(m: Machine, start: u16, x: u8) -> Seq<u8> {
    Seq::new(
        m.v.len(),
        |k: int|
            if k <= x {
                m.memory[start + k]
            } else {
                m.v[k]
            },
    )
}

/// The effect of one decoded instruction, given the key the keypad reports
/// (if any) and the random byte the random source yields. Opaque, to keep the
/// many cases out of proofs that do not look inside; `reveal(exec_spec)`
/// where they do.
#[verifier::opaque]
pub open spec fn exec_spec(m: Machine, op: Opcode, key: Option<u8>, rnd: u8) -> Result<
    (Machine, StepOutcome),
    EmuError,
> {
    let run = StepOutcome::Running;
    match op {
        Opcode::ClearScreen => Ok(
            (Machine { screen: Seq::new(m.screen.len(), |k: int| false), ..m }, StepOutcome::FrameReady),
        ),
        Opcode::Return => if m.stack.len() == 0 {
            Err(EmuError::StackUnderflow)
        } else {
            Ok((Machine { pc: m.stack.last(), stack: m.stack.drop_last(), ..m }, run))
        },
        Opcode::Jump(a) => Ok((Machine { pc: a, ..m }, run)),
        Opcode::Call(a) => Ok((Machine { pc: a, stack: m.stack.push(m.pc), ..m }, run)),
        Opcode::Skip(x, kk) => Ok((skip_if(m, m.v[x as int] == kk), run)),
        Opcode::SkipNotEqual(x, kk) => Ok((skip_if(m, m.v[x as int] != kk), run)),
        Opcode::SkipRegEqual(x, y) => Ok((skip_if(m, m.v[x as int] == m.v[y as int]), run)),
        Opcode::SetReg(x, kk) => Ok((set_v(m, x, kk), run)),
        Opcode::IncrementReg(x, kk) => Ok((set_v(m, x, wrap8(m.v[x as int] + kk)), run)),
        Opcode::CopyReg(x, y) => Ok((set_v(m, x, m.v[y as int]), run)),
        Opcode::BitwiseOr(x, y) => Ok((set_v(m, x, m.v[x as int] | m.v[y as int]), run)),
        Opcode::BitwiseAnd(x, y) => Ok((set_v(m, x, m.v[x as int] & m.v[y as int]), run)),
        Opcode::BitwiseXor(x, y) => Ok((set_v(m, x, m.v[x as int] ^ m.v[y as int]), run)),
        Opcode::AddReg(x, y) => {
            let s = m.v[x as int] + m.v[y as int];
            Ok((set_v(set_v(m, 15, flag(s > 255)), x, wrap8(s)), run))
        },
        Opcode::SubtractReg(x, y) => {
            let (a, b) = (m.v[x as int], m.v[y as int]);
            Ok((set_v(set_v(m, x, wrap8(a - b)), 15, flag(a >= b)), run))
        },
        Opcode::BitwiseRight(x, _) => {
            let m1 = set_v(m, 15, m.v[x as int] & 1);
            Ok((set_v(m1, x, m1.v[x as int] >> 1), run))
        },
        Opcode::NegativeSubtractReg(x, y) => {
            // The difference is written only when it is positive; otherwise
            // only the flag changes.
            let (a, b) = (m.v[x as int], m.v[y as int]);
            if b > a {
                Ok((set_v(set_v(m, x, (b - a) as u8), 15, 1), run))
            } else {
                Ok((set_v(m, 15, 0), run))
            }
        },
        Opcode::BitwiseLeft(x, _) => {
            let m1 = set_v(m, 15, m.v[x as int] >> 7);
            Ok((set_v(m1, x, wrap8(m1.v[x as int] * 2)), run))
        },
        Opcode::SkipRegNotEqual(x, y) => Ok((skip_if(m, m.v[x as int] != m.v[y as int]), run)),
        Opcode::SetI(a) => Ok((Machine { i: a, ..m }, run)),
        Opcode::JumpOffset(a) => Ok((Machine { pc: (m.v[0] + a) as u16, ..m }, run)),
        Opcode::RandomAnd(x, kk) => Ok((set_v(m, x, rnd & kk), run)),
        Opcode::Draw(x, y, n) => if m.i + n > m.memory.len() {
            Err(EmuError::MemoryBounds { address: m.i })
        } else {
            let rows = sprite_rows(m, m.i, n);
            let (cx, cy) = ((m.v[x as int] % 64) as int, (m.v[y as int] % 32) as int);
            let m1 = Machine { screen: drawn(m.screen, rows, cx, cy), ..m };
            Ok((set_v(m1, 15, flag(collides(m.screen, rows, cx, cy))), StepOutcome::FrameReady))
        },
        Opcode::SkipKeyPressed(x) => Ok((skip_if(m, key == Some(m.v[x as int])), run)),
        Opcode::SkipKeyNotPressed(x) => Ok((skip_if(m, key != Some(m.v[x as int])), run)),
        Opcode::CopyDelayToReg(x) => Ok((set_v(m, x, m.delay), run)),
        Opcode::WaitForKeyPress(x) => match key {
            Some(k) => Ok((set_v(m, x, k), run)),
            None => Ok((Machine { awaiting: Some(x), ..m }, StepOutcome::WaitingForKey)),
        },
        Opcode::SetDelayFromReg(x) => Ok((Machine { delay: m.v[x as int], ..m }, run)),
        Opcode::SetSoundFromReg(x) => Ok((Machine { sound: m.v[x as int], ..m }, run)),
        Opcode::AddI(x) => Ok((Machine { i: wrap16(m.i + m.v[x as int]), ..m }, run)),
        Opcode::SetIToFontDigit(x) => Ok((Machine { i: (0x50 + m.v[x as int] * 5) as u16, ..m }, run)),
        Opcode::BinaryCodeI(x) => if m.i + 3 > m.memory.len() {
            Err(EmuError::MemoryBounds { address: m.i })
        } else {
            let d = bcd(m.v[x as int]);
            let mem = m.memory.update(m.i as int, d[0]).update(m.i + 1, d[1]).update(m.i + 2, d[2]);
            Ok((Machine { memory: mem, ..m }, run))
        },
        Opcode::CopyRegistersToI(x) => if m.i + x + 1 > m.memory.len() {
            Err(EmuError::MemoryBounds { address: m.i })
        } else {
            Ok((Machine { memory: stored(m, m.i, x), ..m }, run))
        },
        Opcode::CopyIToRegisters(x) => if m.i + x + 1 > m.memory.len() {
            Err(EmuError::MemoryBounds { address: m.i })
        } else {
            Ok((Machine { v: loaded(m, m.i, x), ..m }, run))
        },
    }
}

/// The glyphs of the hexadecimal digits 0 to F, five rows each.
pub open spec fn font() -> Seq<u8> {
    seq![
        0xF0u8, 0x90, 0x90, 0x90, 0xF0,
        0x20, 0x60, 0x20, 0x20, 0x70,
        0xF0, 0x10, 0xF0, 0x80, 0xF0,
        0xF0, 0x10, 0xF0, 0x10, 0xF0,
        0x90, 0x90, 0xF0, 0x10, 0x10,
        0xF0, 0x80, 0xF0, 0x10, 0xF0,
        0xF0, 0x80, 0xF0, 0x90, 0xF0,
        0xF0, 0x10, 0x20, 0x40, 0x40,
        0xF0, 0x90, 0xF0, 0x90, 0xF0,
        0xF0, 0x90, 0xF0, 0x10, 0xF0,
        0xF0, 0x90, 0xF0, 0x90, 0x90,
        0xE0, 0x90, 0xE0, 0x90, 0xE0,
        0xF0, 0x80, 0x80, 0x80, 0xF0,
        0xE0, 0x90, 0x90, 0x90, 0xE0,
        0xF0, 0x80, 0xF0, 0x80, 0xF0,
        0xF0, 0x80, 0xF0, 0x80, 0x80,
    ]
}

/// A freshly started machine: everything zero, the screen blank, the font
/// glyphs stored from 0x50 on.
pub open spec fn initial() -> Machine {
    Machine {
        v: Seq::new(16, |k: int| 0u8),
        memory: Seq::new(
            4096,
            |a: int|
                if 0x50 <= a < 0xa0 {
                    font()[a - 0x50]
                } else {
                    0u8
                },
        ),
        pc: 0,
        i: 0,
        stack: Seq::empty(),
        delay: 0,
        sound: 0,
        screen: Seq::new(2048, |k: int| false),
        awaiting: None,
    }
}

/// The machine with `prog` copied to memory from 0x200 on, `pc` there, and
/// no key wait pending.
pub open spec fn with_program(m: Machine, prog: Seq<u8>) -> Machine {
    Machine {
        memory: Seq::new(
            m.memory.len(),
            |a: int|
                if 0x200 <= a < 0x200 + prog.len() {
                    prog[a - 0x200]
                } else {
                    m.memory[a]
                },
        ),
        pc: 0x200,
        awaiting: None,
        ..m
    }
}

/// One timer tick: each timer above zero goes down by one.
pub open spec fn ticked(m: Machine) -> Machine {
    Machine {
        delay: if m.delay > 0 {
            (m.delay - 1) as u8
        } else {
            0
        },
        sound: if m.sound > 0 {
            (m.sound - 1) as u8
        } else {
            0
        },
        ..m
    }
}

/// The instruction word stored at `at`, high byte first.
pub open spec fn word_at(mem: Seq<u8>, at: int) -> u16 {
    (mem[at] * 256 + mem[at + 1]) as u16
}

/// One cycle. While a key wait is pending, the cycle only completes it when
/// a key is given (`pc` is already past the waiting instruction). Otherwise
/// it fetches, decodes and executes; a zero word halts.
pub open spec fn step_spec(m: Machine, key: Option<u8>, rnd: u8) -> Result<
    (Machine, StepOutcome),
    EmuError,
> {
    if m.awaiting is Some {
        match key {
            Some(k) => Ok(
                (
                    Machine { v: m.v.update(m.awaiting->Some_0 as int, k), awaiting: None, ..m },
                    StepOutcome::Running,
                ),
            ),
            None => Ok((m, StepOutcome::WaitingForKey)),
        }
    } else if m.pc + 2 > m.memory.len() {
        Err(EmuError::MemoryBounds { address: m.pc })
    } else {
        let w = word_at(m.memory, m.pc as int);
        let m1 = Machine { pc: (m.pc + 2) as u16, ..m };
        if w == 0 {
            Ok((m1, StepOutcome::Halted))
        } else {
            match decoded(w) {
                None => Err(EmuError::Decode { word: w, pc: m.pc }),
                Some(op) => exec_spec(m1, op, key, rnd),
            }
        }
    }
}

/// Cycles run one after another, the `k`th with random byte `rnds[k]`,
/// until one reports anything but `Running` or fails, or the bytes run
/// out: the machine then, and the last report.
pub open spec fn run_spec(m: Machine, key: Option<u8>, rnds: Seq<u8>) -> (Machine, Result<
    StepOutcome,
    EmuError,
>)
    decreases rnds.len(),
{
    if rnds.len() == 0 {
        (m, Ok(StepOutcome::Running))
    } else {
        match step_spec(m, key, rnds[0]) {
            Ok((m1, StepOutcome::Running)) => run_spec(m1, key, rnds.drop_first()),
            Ok((m1, o)) => (m1, Ok(o)),
            Err(e) => (m, Err(e)),
        }
    }
}

/// Executing a draw twice, with neither coordinate register being the flag
/// register, restores the screen; the flag after the second says whether the
/// sprite covers a pixel that was off before the first.
pub proof fn lemma_draw_instruction_twice(
    m: Machine,
    x: u8,
    y: u8,
    n: u8,
    key: Option<u8>,
    rnd: u8,
)
    requires
        m.v.len() == 16,
        x < 15,
        y < 15,
        m.i + n <= m.memory.len(),
    ensures
        ({
            let op = Opcode::Draw(x, y, n);
            let m1 = exec_spec(m, op, key, rnd)->Ok_0.0;
            let m2 = exec_spec(m1, op, key, rnd)->Ok_0.0;
            let rows = sprite_rows(m, m.i, n);
            let (cx, cy) = ((m.v[x as int] % 64) as int, (m.v[y as int] % 32) as int);
            &&& exec_spec(m, op, key, rnd) is Ok
            &&& exec_spec(m1, op, key, rnd) is Ok
            &&& m2.screen == m.screen
            &&& m2.v[15] == flag(
                exists|k: int| 0 <= k < m.screen.len() && #[trigger] lit(rows, cx, cy, k) && !m.screen[k],
            )
        }),
{
    reveal(exec_spec);
    let rows = sprite_rows(m, m.i, n);
    let (cx, cy) = ((m.v[x as int] % 64) as int, (m.v[y as int] % 32) as int);
    lemma_draw_twice(m.screen, rows, cx, cy);
}

/// Storing registers 0 through `x` from the index address on and then
/// loading them back from there gives the registers that were stored.
pub proof fn lemma_store_load_round_trip(m: Machine, x: u8, key: Option<u8>, rnd: u8)
    requires
        m.v.len() == 16,
        x < 16,
        m.i + x + 1 <= m.memory.len(),
    ensures
        exec_spec(m, Opcode::CopyRegistersToI(x), key, rnd) is Ok,
        ({
            let m1 = exec_spec(m, Opcode::CopyRegistersToI(x), key, rnd)->Ok_0.0;
            &&& exec_spec(m1, Opcode::CopyIToRegisters(x), key, rnd) is Ok
            &&& exec_spec(m1, Opcode::CopyIToRegisters(x), key, rnd)->Ok_0.0.v == m.v
        }),
{
    reveal(exec_spec);
    let m1 = exec_spec(m, Opcode::CopyRegistersToI(x), key, rnd)->Ok_0.0;
    assert(loaded(m1, m1.i, x) =~= m.v);
}

/// Storing registers 0 through `x` of `m0` writes `stored(m0, m0.i, x)`; any
/// later machine `m2` that has the same index address and still holds those
/// bytes there, whatever ran in between, loads back exactly the registers
/// of `m0`, and registers above `x` keep their values in `m2`.
pub proof fn lemma_load_after_store(m0: Machine, m2: Machine, x: u8, key: Option<u8>, rnd: u8)
    requires
        m0.v.len() == 16,
        m2.v.len() == 16,
        x < 16,
        m0.i + x + 1 <= m0.memory.len(),
        m2.memory.len() == m0.memory.len(),
        m2.i == m0.i,
        forall|a: int| m0.i <= a <= m0.i + x ==> m2.memory[a] == #[trigger] stored(m0, m0.i, x)[a],
    ensures
        exec_spec(m0, Opcode::CopyRegistersToI(x), key, rnd) == Ok::<(Machine, StepOutcome), EmuError>(
            (Machine { memory: stored(m0, m0.i, x), ..m0 }, StepOutcome::Running),
        ),
        exec_spec(m2, Opcode::CopyIToRegisters(x), key, rnd) is Ok,
        ({
            let v = exec_spec(m2, Opcode::CopyIToRegisters(x), key, rnd)->Ok_0.0.v;
            &&& forall|k: int| 0 <= k <= x ==> #[trigger] v[k] == m0.v[k]
            &&& forall|k: int| x < k < 16 ==> #[trigger] v[k] == m2.v[k]
        }),
{
    reveal(exec_spec);
    assert forall|k: int| 0 <= k <= x implies #[trigger] loaded(m2, m2.i, x)[k] == m0.v[k] by {
        assert(m2.memory[m0.i + k] == stored(m0, m0.i, x)[m0.i + k]);
    }
}

/// A timer tick never takes a timer below zero: one at zero stays at zero,
/// any other goes down by one.
pub proof fn lemma_tick_saturates(m: Machine)
    ensures
        ticked(m).delay == if m.delay == 0 {
            0
        } else {
            m.delay - 1
        },
        ticked(m).sound == if m.sound == 0 {
            0
        } else {
            m.sound - 1
        },
        m.delay == 0 ==> ticked(m).delay == 0,
        m.sound == 0 ==> ticked(m).sound == 0,
{
}

/// A return with an empty call stack is a stack underflow.
pub proof fn lemma_return_underflow(m: Machine, key: Option<u8>, rnd: u8)
    requires
        m.stack.len() == 0,
    ensures
        exec_spec(m, Opcode::Return, key, rnd) == Err::<(Machine, StepOutcome), EmuError>(
            EmuError::StackUnderflow,
        ),
{
    reveal(exec_spec);
}

/// A key wait fetched at `pc` with no key pressed leaves `pc` past itself
/// and the rest of the machine as it was, with the wait pending. Cycles
/// without a key change nothing; the first cycle with key `k` stores `k` in
/// the waiting register and execution goes on from there.
pub proof fn lemma_key_wait(m: Machine, x: u8, k: u8, rnd: u8)
    requires
        m.awaiting is None,
        m.pc + 2 <= m.memory.len(),
        decoded(word_at(m.memory, m.pc as int)) == Some(Opcode::WaitForKeyPress(x)),
    ensures
        ({
            let waiting = Machine { pc: (m.pc + 2) as u16, awaiting: Some(x), ..m };
            &&& step_spec(m, None, rnd) == Ok::<(Machine, StepOutcome), EmuError>(
                (waiting, StepOutcome::WaitingForKey),
            )
            &&& step_spec(waiting, None, rnd) == Ok::<(Machine, StepOutcome), EmuError>(
                (waiting, StepOutcome::WaitingForKey),
            )
            &&& step_spec(waiting, Some(k), rnd) == Ok::<(Machine, StepOutcome), EmuError>(
                (
                    Machine { pc: (m.pc + 2) as u16, v: m.v.update(x as int, k), ..m },
                    StepOutcome::Running,
                ),
            )
        }),
{
    reveal(exec_spec);
    assert(word_at(m.memory, m.pc as int) != 0);
}

/// `after` and the result `r` are what `expected` describes; on an error
/// the machine is left as it was.
pub open spec fn transition(
    before: Machine,
    after: Machine,
    r: Result<StepOutcome, EmuError>,
    expected: Result<(Machine, StepOutcome), EmuError>,
) -> bool {
    match expected {
        Ok((m, o)) => r == Ok::<StepOutcome, EmuError>(o) && after == m,
        Err(e) => r == Err::<StepOutcome, EmuError>(e) && after == before,
    }
}

} // verus!
