use vstd::prelude::*;
use crate::display::{collides, drawn, lemma_sprite_drawn_direct, Display, PIXELS};
use crate::machine::{
    exec_spec, flag, font, initial, sprite_rows, loaded, run_spec, set_v, skip_if, step_spec, stored, ticked,
    transition, with_program, word_at, EmuError, Machine, StepOutcome,
};
use crate::opcode::{decode, decoded, operands_ok, Opcode};

verus! {

/// Bytes of addressable memory.
pub const MEMORY_SIZE: usize = 4096;

/// Where programs are loaded, and where execution starts.
pub const PROGRAM_START: usize = 0x200;

/// Where the hexadecimal digit glyphs are stored.
pub const FONT_START: usize = 0x50;

/// Instructions that set one register from registers, an immediate or the
/// random byte.
pub open spec fn is_alu(op: Opcode) -> bool {
    op is BitwiseAnd
        || op is BitwiseOr
        || op is BitwiseXor
        || op is CopyReg
        || op is IncrementReg
        || op is RandomAnd
        || op is SetReg
}

/// Register arithmetic that also sets the flag register.
pub open spec fn is_flags(op: Opcode) -> bool {
    op is AddReg
        || op is SubtractReg
        || op is BitwiseRight
        || op is NegativeSubtractReg
        || op is BitwiseLeft
}

/// Instructions that steer control flow, clear the screen, or read the keypad.
pub open spec fn is_flow(op: Opcode) -> bool {
    op is Call
        || op is ClearScreen
        || op is Jump
        || op is JumpOffset
        || op is Return
        || op is SetI
        || op is Skip
        || op is SkipKeyNotPressed
        || op is SkipKeyPressed
        || op is SkipNotEqual
        || op is SkipRegEqual
        || op is SkipRegNotEqual
        || op is WaitForKeyPress
}

/// The remaining instructions.
pub open spec fn is_misc(op: Opcode) -> bool {
    !is_alu(op) && !is_flags(op) && !is_flow(op)
}

/// A CHIP-8 interpreter: registers, memory, call stack, timers and screen.
pub struct Emulator {
    v: Vec<u8>,
    memory: Vec<u8>,
    pc: u16,
    i: u16,
    stack: Vec<u16>,
    display: Display,
    sound_timer: u8,
    delay_timer: u8,
    key_wait: Option<u8>,
}

impl View for Emulator {
    type V = Machine;

    closed spec fn view(&self) -> Machine {
        Machine {
            v: self.v@,
            memory: self.memory@,
            pc: self.pc,
            i: self.i,
            stack: self.stack@,
            delay: self.delay_timer,
            sound: self.sound_timer,
            screen: self.display@,
            awaiting: self.key_wait,
        }
    }
}

/// Relies on rand::random: a byte from the thread-local generator, any value.
#[verifier::external_body]
fn random_byte() -> (r: u8) {
    rand::random::<u8>()
}

/// Running the cycles of `rnds` and then one more with `b`, when the cycles of
/// `rnds` all reported `Running`.
proof fn lemma_run_extend(m: Machine, key: Option<u8>, rnds: Seq<u8>, b: u8)
    requires
        run_spec(m, key, rnds).1 == Ok::<StepOutcome, EmuError>(StepOutcome::Running),
    ensures
        ({
            let m1 = run_spec(m, key, rnds).0;
            run_spec(m, key, rnds.push(b)) == match step_spec(m1, key, b) {
                Ok((m2, StepOutcome::Running)) => (m2, Ok(StepOutcome::Running)),
                Ok((m2, o)) => (m2, Ok(o)),
                Err(e) => (m1, Err(e)),
            }
        }),
    decreases rnds.len(),
{
    if rnds.len() == 0 {
        assert(rnds.push(b).drop_first() =~= Seq::<u8>::empty());
        assert(rnds.push(b)[0] == b);
        match step_spec(m, key, b) {
            Ok((m2, StepOutcome::Running)) => {
                assert(run_spec(m2, key, Seq::<u8>::empty()) == (m2, Ok::<StepOutcome, EmuError>(StepOutcome::Running)));
            },
            _ => {},
        }
    } else {
        assert(rnds.push(b).drop_first() =~= rnds.drop_first().push(b));
        assert(rnds.push(b)[0] == rnds[0]);
        match step_spec(m, key, rnds[0]) {
            Ok((m1, StepOutcome::Running)) => {
                lemma_run_extend(m1, key, rnds.drop_first(), b);
            },
            _ => {},
        }
    }
}

impl Emulator {
    /// A machine with zeroed registers and memory, the digit glyphs stored
    /// from `FONT_START` on, an empty stack and a blank screen.
    pub fn new() -> (r: Emulator)
        ensures
            r.wf(),
            r@ == initial(),
    {
        let fontset = Emulator::get_fontset();
        let mut memory = vec![0u8; MEMORY_SIZE];
        let mut k: usize = 0;
        while k < 80
            invariant
                k <= 80,
                fontset@ == font(),
                memory@ == Seq::new(
                    4096,
                    |a: int|
                        if 0x50 <= a < 0x50 + k {
                            font()[a - 0x50]
                        } else {
                            0u8
                        },
                ),
            decreases 80 - k,
        {
            memory.set(FONT_START + k, fontset[k]);
            k = k + 1;
            proof {
                assert(memory@ =~= Seq::new(
                    4096,
                    |a: int|
                        if 0x50 <= a < 0x50 + k {
                            font()[a - 0x50]
                        } else {
                            0u8
                        },
                ));
            }
        }
        let v = vec![0u8; 16];
        let display = Display::new();
        let r = Emulator {
            v,
            memory,
            pc: 0,
            i: 0,
            stack: Vec::new(),
            display,
            sound_timer: 0,
            delay_timer: 0,
            key_wait: None,
        };
        assert(r@.v =~= initial().v);
        assert(r@.memory =~= initial().memory);
        assert(r@.stack =~= initial().stack);
        assert(r@.screen =~= initial().screen);
        r
    }

    /// The glyphs of the hexadecimal digits, five bytes each.
    pub fn get_fontset() -> (r: [u8; 80])
        ensures
            r@ == font(),
    {
        let fontset: [u8; 80] = [
            0xF0, 0x90, 0x90, 0x90, 0xF0,
            0x20, 0x60, 0x20, 0x20, 0x70,
            0xF0, 0x10, 0xF0, 0x80, 0xF0,
            0xF0, 0x10, 0xF0, 0x10, 0xF0,
            0x90, 0x90, 0xF0, 0x10, 0x10,
            0xF0, 0x80, 0xF0, 0x10, 0xF0,
            0xF0, 0x80, 0xF0, 0x90, 0xF0,
            0xF0, 0x10, 0x20, 0x40, 0x40,
            0xF0, 0x90, 0xF0, 0x90, 0xF0,
            0xF0, 0x90, 0xF0, 0x10, 0xF0,
            0xF0, 0x90, 0xF0, 0x90, 0x90,
            0xE0, 0x90, 0xE0, 0x90, 0xE0,
            0xF0, 0x80, 0x80, 0x80, 0xF0,
            0xE0, 0x90, 0x90, 0x90, 0xE0,
            0xF0, 0x80, 0xF0, 0x80, 0xF0,
            0xF0, 0x80, 0xF0, 0x80, 0x80,
        ];
        assert(fontset@ =~= font());
        fontset
    }

    /// Copies a program image to memory from `PROGRAM_START` on and points
    /// `pc` at it. An image that does not fit is refused and nothing changes.
    pub fn load(&mut self, prog: Vec<u8>) -> (r: Result<(), EmuError>)
        requires
            old(self).wf(),
        ensures
            final(self).wf(),
            prog@.len() <= MEMORY_SIZE - PROGRAM_START ==> r is Ok && final(self)@ == with_program(
                old(self)@,
                prog@,
            ),
            prog@.len() > MEMORY_SIZE - PROGRAM_START ==> r == Err::<(), EmuError>(
                EmuError::LoadTooLarge { len: prog@.len() as usize },
            ) && final(self)@ == old(self)@,
    {
        if prog.len() > MEMORY_SIZE - PROGRAM_START {
            return Err(EmuError::LoadTooLarge { len: prog.len() });
        }
        let ghost m0 = self@;
        let mut k: usize = 0;
        while k < prog.len()
            invariant
                self.wf(),
                k <= prog@.len() <= MEMORY_SIZE - PROGRAM_START,
                self@ == (Machine { memory: self@.memory, ..m0 }),
                m0.memory.len() == MEMORY_SIZE,
                self@.memory == Seq::new(
                    4096,
                    |a: int|
                        if 0x200 <= a < 0x200 + k {
                            prog@[a - 0x200]
                        } else {
                            m0.memory[a]
                        },
                ),
            decreases prog@.len() - k,
        {
            self.memory.set(PROGRAM_START + k, prog[k]);
            k = k + 1;
            proof {
                assert(self@.memory =~= Seq::new(
                    4096,
                    |a: int|
                        if 0x200 <= a < 0x200 + k {
                            prog@[a - 0x200]
                        } else {
                            m0.memory[a]
                        },
                ));
            }
        }
        self.pc = PROGRAM_START as u16;
        self.key_wait = None;
        assert(self@.memory =~= with_program(m0, prog@).memory);
        Ok(())
    }

    /// Decrements each timer that is above zero; a timer at zero stays there.
    pub fn tick_timers(&mut self)
        ensures
            final(self)@ == ticked(old(self)@),
            old(self).wf() ==> final(self).wf(),
    {
        if self.delay_timer > 0 {
            self.delay_timer = self.delay_timer - 1;
        }
        if self.sound_timer > 0 {
            self.sound_timer = self.sound_timer - 1;
        }
    }

    /// Reads the instruction word at `pc` and moves `pc` past it.
    fn fetch(&mut self) -> (r: Result<u16, EmuError>)
        requires
            old(self).wf(),
        ensures
            final(self).wf(),
            old(self)@.pc + 2 > MEMORY_SIZE ==> r == Err::<u16, EmuError>(
                EmuError::MemoryBounds { address: old(self)@.pc },
            ) && final(self)@ == old(self)@,
            old(self)@.pc + 2 <= MEMORY_SIZE ==> r == Ok::<u16, EmuError>(
                word_at(old(self)@.memory, old(self)@.pc as int),
            ) && final(self)@ == (Machine { pc: (old(self)@.pc + 2) as u16, ..old(self)@ }),
    {
        let at = self.pc as usize;
        if at + 2 > MEMORY_SIZE {
            return Err(EmuError::MemoryBounds { address: self.pc });
        }
        let hi = self.memory[at] as u16;
        let lo = self.memory[at + 1] as u16;
        self.pc = self.pc + 2;
        Ok(hi * 256 + lo)
    }

    /// One fetch-decode-execute cycle, with the key the keypad reports now
    /// and the byte a random-and instruction would use. On an error the
    /// machine is left unchanged.
    pub fn step_with(&mut self, key: Option<u8>, random: u8) -> (r: Result<StepOutcome, EmuError>)
        requires
            old(self).wf(),
        ensures
            final(self).wf(),
            transition(old(self)@, final(self)@, r, step_spec(old(self)@, key, random)),
    {
        if let Some(x) = self.key_wait {
            return match key {
                Some(k) => {
                    self.v.set(x as usize, k);
                    self.key_wait = None;
                    Ok(StepOutcome::Running)
                },
                None => Ok(StepOutcome::WaitingForKey),
            };
        }
        let pc0 = self.pc;
        let word = match self.fetch() {
            Ok(w) => w,
            Err(e) => return Err(e),
        };
        if word == 0 {
            return Ok(StepOutcome::Halted);
        }
        let op = match decode(word) {
            Ok(op) => op,
            Err(e) => {
                self.pc = pc0;
                return Err(EmuError::Decode { word: e.word, pc: pc0 });
            },
        };
        match self.execute(op, key, random) {
            Ok(o) => Ok(o),
            Err(e) => {
                self.pc = pc0;
                Err(e)
            },
        }
    }

    /// One cycle as `step_with`, with a random byte from the thread-local
    /// generator.
    pub fn step(&mut self, key: Option<u8>) -> (r: Result<StepOutcome, EmuError>)
        requires
            old(self).wf(),
        ensures
            final(self).wf(),
            exists|random: u8|
                transition(old(self)@, final(self)@, r, #[trigger] step_spec(old(self)@, key, random)),
    {
        let random = random_byte();
        self.step_with(key, random)
    }

    /// Runs cycles with `key` as the keypad's report until one reports
    /// anything but `Running` (a frame to show, a key wait, the end of the
    /// program) or fails, or `max_cycles` have run. Each cycle draws its random
    /// byte from the thread-local generator.
    pub fn run(&mut self, key: Option<u8>, max_cycles: u64) -> (r: Result<StepOutcome, EmuError>)
        requires
            old(self).wf(),
        ensures
            final(self).wf(),
            exists|rnds: Seq<u8>|
                rnds.len() <= max_cycles && #[trigger] run_spec(old(self)@, key, rnds) == (
                final(self)@,
                r,
                ) && (r == Ok::<StepOutcome, EmuError>(StepOutcome::Running) ==> rnds.len()
                    == max_cycles),
    {
        let ghost m0 = self@;
        let ghost mut drawn_bytes: Seq<u8> = Seq::empty();
        let mut n: u64 = 0;
        while n < max_cycles
            invariant
                self.wf(),
                n <= max_cycles,
                m0 == old(self)@,
                drawn_bytes.len() == n,
                run_spec(m0, key, drawn_bytes) == (self@, Ok::<StepOutcome, EmuError>(
                    StepOutcome::Running,
                )),
            decreases max_cycles - n,
        {
            let random = random_byte();
            let res = self.step_with(key, random);
            proof {
                lemma_run_extend(m0, key, drawn_bytes, random);
                drawn_bytes = drawn_bytes.push(random);
            }
            proof {
                assert(run_spec(m0, key, drawn_bytes) == (self@, res));
            }
            match res {
                Ok(StepOutcome::Running) => {},
                _ => {
                    assert(drawn_bytes.len() <= max_cycles && run_spec(m0, key, drawn_bytes) == (
                    self@, res) && (res == Ok::<StepOutcome, EmuError>(StepOutcome::Running)
                        ==> drawn_bytes.len() == max_cycles));
                    return res;
                },
            }
            n = n + 1;
        }
        Ok(StepOutcome::Running)
    }

    /// Whether the next cycle reads the keypad: a key wait is pending, or the
    /// instruction at `pc` reads it. The host polls the keypad only then.
    pub fn needs_key(&self) -> (r: bool)
        requires
            self.wf(),
        ensures
            r == (self@.awaiting is Some || self@.pc + 2 <= MEMORY_SIZE && match decoded(word_at(self@.memory, self@.pc as int)) {
                Some(Opcode::SkipKeyPressed(_)) | Some(Opcode::SkipKeyNotPressed(_)) | Some(
                    Opcode::WaitForKeyPress(_),
                ) => true,
                _ => false,
            }),
    {
        if self.key_wait.is_some() {
            return true;
        }
        let at = self.pc as usize;
        if at + 2 > MEMORY_SIZE {
            return false;
        }
        let word = self.memory[at] as u16 * 256 + self.memory[at + 1] as u16;
        match decode(word) {
            Ok(Opcode::SkipKeyPressed(_)) | Ok(Opcode::SkipKeyNotPressed(_)) | Ok(
                Opcode::WaitForKeyPress(_),
            ) => true,
            _ => false,
        }
    }

    /// The value of register `x`.
    pub fn register(&self, x: usize) -> (r: u8)
        requires
            self.wf(),
            x < 16,
        ensures
            r == self@.v[x as int],
    {
        self.v[x]
    }

    /// The byte at address `a`.
    pub fn memory_at(&self, a: usize) -> (r: u8)
        requires
            self.wf(),
            a < MEMORY_SIZE,
        ensures
            r == self@.memory[a as int],
    {
        self.memory[a]
    }

    /// The program counter.
    pub fn pc(&self) -> (r: u16)
        ensures
            r == self@.pc,
    {
        self.pc
    }

    /// The index register.
    pub fn index(&self) -> (r: u16)
        ensures
            r == self@.i,
    {
        self.i
    }

    /// The number of return addresses on the call stack.
    pub fn stack_depth(&self) -> (r: usize)
        ensures
            r == self@.stack.len(),
    {
        self.stack.len()
    }

    /// The delay timer.
    pub fn delay_timer(&self) -> (r: u8)
        ensures
            r == self@.delay,
    {
        self.delay_timer
    }

    /// The sound timer.
    pub fn sound_timer(&self) -> (r: u8)
        ensures
            r == self@.sound,
    {
        self.sound_timer
    }

    /// The framebuffer.
    pub fn display(&self) -> (r: &Display)
        requires
            self.wf(),
        ensures
            r.wf(),
            r@ == self@.screen,
    {
        &self.display
    }

    pub open spec fn wf(&self) -> bool {
        &&& self@.v.len() == 16
        &&& self@.memory.len() == MEMORY_SIZE
        &&& self@.screen.len() == PIXELS
        &&& self@.awaiting is Some ==> self@.awaiting->Some_0 < 16
    }

    fn set_reg(&mut self, x: u8, val: u8)
        requires
            old(self).wf(),
            x < 16,
        ensures
            final(self).wf(),
            final(self)@ == set_v(old(self)@, x, val),
    {
        self.v.set(x as usize, val);
    }

    fn skip_when(&mut self, c: bool)
        ensures
            final(self)@ == skip_if(old(self)@, c),
    {
        if c {
            self.pc = self.pc.wrapping_add(2);
        }
    }

    /// Runs one decoded instruction. `key` is what the keypad reports now,
    /// `random` the byte that a random-and instruction uses. On an error the
    /// machine is left unchanged.
    pub fn execute(&mut self, op: Opcode, key: Option<u8>, random: u8) -> (r: Result<
        StepOutcome,
        EmuError,
    >)
        requires
            old(self).wf(),
            operands_ok(op),
        ensures
            final(self).wf(),
            transition(
                old(self)@,
                final(self)@,
                r,
                exec_spec(old(self)@, op, key, random),
            ),
    {
        match op {
            Opcode::SetReg(..)
            | Opcode::IncrementReg(..)
            | Opcode::CopyReg(..)
            | Opcode::BitwiseOr(..)
            | Opcode::BitwiseAnd(..)
            | Opcode::BitwiseXor(..)
            | Opcode::RandomAnd(..) => self.exec_alu(op, key, random),
            Opcode::AddReg(..)
            | Opcode::SubtractReg(..)
            | Opcode::BitwiseRight(..)
            | Opcode::NegativeSubtractReg(..)
            | Opcode::BitwiseLeft(..) => self.exec_flags(op, key, random),
            Opcode::ClearScreen
            | Opcode::Return
            | Opcode::Jump(..)
            | Opcode::Call(..)
            | Opcode::Skip(..)
            | Opcode::SkipNotEqual(..)
            | Opcode::SkipRegEqual(..)
            | Opcode::SkipRegNotEqual(..)
            | Opcode::SetI(..)
            | Opcode::JumpOffset(..)
            | Opcode::SkipKeyPressed(..)
            | Opcode::SkipKeyNotPressed(..)
            | Opcode::WaitForKeyPress(..) => self.exec_flow(op, key, random),
            _ => self.exec_misc(op, key, random),
        }
    }

    /// Register loads and logic, and the random-and.
    #[verifier::rlimit(40)]
    fn exec_alu(&mut self, op: Opcode, key: Option<u8>, random: u8) -> (r: Result<StepOutcome, EmuError>)
        requires
            old(self).wf(),
            operands_ok(op),
            is_alu(op),
        ensures
            final(self).wf(),
            transition(
                old(self)@,
                final(self)@,
                r,
                exec_spec(old(self)@, op, key, random),
            ),
    {
        proof {
            reveal(exec_spec);
        }
        let run = StepOutcome::Running;
        match op {
            Opcode::SetReg(x, kk) => {
                self.set_reg(x, kk);
                Ok(run)
            },
            Opcode::IncrementReg(x, kk) => {
                let val = self.v[x as usize].wrapping_add(kk);
                self.set_reg(x, val);
                Ok(run)
            },
            Opcode::CopyReg(x, y) => {
                let val = self.v[y as usize];
                self.set_reg(x, val);
                Ok(run)
            },
            Opcode::BitwiseOr(x, y) => {
                let val = self.v[x as usize] | self.v[y as usize];
                self.set_reg(x, val);
                Ok(run)
            },
            Opcode::BitwiseAnd(x, y) => {
                let val = self.v[x as usize] & self.v[y as usize];
                self.set_reg(x, val);
                Ok(run)
            },
            Opcode::BitwiseXor(x, y) => {
                let val = self.v[x as usize] ^ self.v[y as usize];
                self.set_reg(x, val);
                Ok(run)
            },
            Opcode::RandomAnd(x, kk) => {
                self.set_reg(x, random & kk);
                Ok(run)
            },
            _ => Ok(run),
        }
    }

    /// The register arithmetic that also sets the flag register.
    #[verifier::rlimit(40)]
    fn exec_flags(&mut self, op: Opcode, key: Option<u8>, random: u8) -> (r: Result<StepOutcome, EmuError>)
        requires
            old(self).wf(),
            operands_ok(op),
            is_flags(op),
        ensures
            final(self).wf(),
            transition(
                old(self)@,
                final(self)@,
                r,
                exec_spec(old(self)@, op, key, random),
            ),
    {
        proof {
            reveal(exec_spec);
        }
        let run = StepOutcome::Running;
        match op {
            Opcode::AddReg(x, y) => {
                let sum = self.v[x as usize] as u16 + self.v[y as usize] as u16;
                let carry: u8 = if sum > 255 { 1 } else { 0 };
                self.set_reg(15, carry);
                self.set_reg(x, (sum % 256) as u8);
                Ok(run)
            },
            Opcode::SubtractReg(x, y) => {
                let a = self.v[x as usize];
                let b = self.v[y as usize];
                self.set_reg(x, a.wrapping_sub(b));
                let no_borrow: u8 = if a >= b { 1 } else { 0 };
                self.set_reg(15, no_borrow);
                Ok(run)
            },
            Opcode::BitwiseRight(x, _) => {
                let least = self.v[x as usize] & 1;
                self.set_reg(15, least);
                let val = self.v[x as usize] >> 1;
                self.set_reg(x, val);
                Ok(run)
            },
            Opcode::NegativeSubtractReg(x, y) => {
                let a = self.v[x as usize];
                let b = self.v[y as usize];
                if b > a {
                    self.set_reg(x, b - a);
                    self.set_reg(15, 1);
                } else {
                    self.set_reg(15, 0);
                }
                Ok(run)
            },
            Opcode::BitwiseLeft(x, _) => {
                let most = self.v[x as usize] >> 7;
                self.set_reg(15, most);
                let val = self.v[x as usize].wrapping_mul(2);
                self.set_reg(x, val);
                Ok(run)
            },
            _ => Ok(run),
        }
    }

    /// Screen clearing, jumps, calls, returns, skips and key waits.
    #[verifier::rlimit(40)]
    fn exec_flow(&mut self, op: Opcode, key: Option<u8>, random: u8) -> (r: Result<StepOutcome, EmuError>)
        requires
            old(self).wf(),
            operands_ok(op),
            is_flow(op),
        ensures
            final(self).wf(),
            transition(
                old(self)@,
                final(self)@,
                r,
                exec_spec(old(self)@, op, key, random),
            ),
    {
        proof {
            reveal(exec_spec);
        }
        let run = StepOutcome::Running;
        match op {
            Opcode::ClearScreen => {
                self.display.clear();
                Ok(StepOutcome::FrameReady)
            },
            Opcode::Return => {
                match self.stack.pop() {
                    Some(a) => {
                        self.pc = a;
                        Ok(run)
                    },
                    None => Err(EmuError::StackUnderflow),
                }
            },
            Opcode::Jump(a) => {
                self.pc = a;
                Ok(run)
            },
            Opcode::Call(a) => {
                self.stack.push(self.pc);
                self.pc = a;
                Ok(run)
            },
            Opcode::Skip(x, kk) => {
                let c = self.v[x as usize] == kk;
                self.skip_when(c);
                Ok(run)
            },
            Opcode::SkipNotEqual(x, kk) => {
                let c = self.v[x as usize] != kk;
                self.skip_when(c);
                Ok(run)
            },
            Opcode::SkipRegEqual(x, y) => {
                let c = self.v[x as usize] == self.v[y as usize];
                self.skip_when(c);
                Ok(run)
            },
            Opcode::SkipRegNotEqual(x, y) => {
                let c = self.v[x as usize] != self.v[y as usize];
                self.skip_when(c);
                Ok(run)
            },
            Opcode::SetI(a) => {
                self.i = a;
                Ok(run)
            },
            Opcode::JumpOffset(a) => {
                self.pc = self.v[0] as u16 + a;
                Ok(run)
            },
            Opcode::SkipKeyPressed(x) => {
                let val = self.v[x as usize];
                let c = match key {
                    Some(k) => k == val,
                    None => false,
                };
                self.skip_when(c);
                Ok(run)
            },
            Opcode::SkipKeyNotPressed(x) => {
                let val = self.v[x as usize];
                let c = match key {
                    Some(k) => k != val,
                    None => true,
                };
                self.skip_when(c);
                Ok(run)
            },
            Opcode::WaitForKeyPress(x) => {
                match key {
                    Some(k) => {
                        self.set_reg(x, k);
                        Ok(run)
                    },
                    None => {
                        self.key_wait = Some(x);
                        Ok(StepOutcome::WaitingForKey)
                    },
                }
            },
            _ => Ok(run),
        }
    }

    /// Drawing, timers, the index register and memory transfers.
    #[verifier::rlimit(40)]
    fn exec_misc(&mut self, op: Opcode, key: Option<u8>, random: u8) -> (r: Result<StepOutcome, EmuError>)
        requires
            old(self).wf(),
            operands_ok(op),
            is_misc(op),
        ensures
            final(self).wf(),
            transition(
                old(self)@,
                final(self)@,
                r,
                exec_spec(old(self)@, op, key, random),
            ),
    {
        proof {
            reveal(exec_spec);
        }
        let run = StepOutcome::Running;
        match op {
            Opcode::Draw(x, y, n) => self.draw_sprite(x, y, n),
            Opcode::CopyDelayToReg(x) => {
                let val = self.delay_timer;
                self.set_reg(x, val);
                Ok(run)
            },
            Opcode::SetDelayFromReg(x) => {
                self.delay_timer = self.v[x as usize];
                Ok(run)
            },
            Opcode::SetSoundFromReg(x) => {
                self.sound_timer = self.v[x as usize];
                Ok(run)
            },
            Opcode::AddI(x) => {
                self.i = self.i.wrapping_add(self.v[x as usize] as u16);
                Ok(run)
            },
            Opcode::SetIToFontDigit(x) => {
                self.i = FONT_START as u16 + self.v[x as usize] as u16 * 5;
                Ok(run)
            },
            Opcode::BinaryCodeI(x) => self.store_bcd(x),
            Opcode::CopyRegistersToI(x) => self.store_registers(x),
            Opcode::CopyIToRegisters(x) => self.load_registers(x),
            _ => Ok(run),
        }
    }

    fn draw_sprite(&mut self, x: u8, y: u8, n: u8) -> (r: Result<StepOutcome, EmuError>)
        requires
            old(self).wf(),
            x < 16,
            y < 16,
            n < 16,
        ensures
            final(self).wf(),
            old(self)@.i + n > MEMORY_SIZE ==> r == Err::<StepOutcome, EmuError>(
                EmuError::MemoryBounds { address: old(self)@.i },
            ) && final(self)@ == old(self)@,
            old(self)@.i + n <= MEMORY_SIZE ==> ({
                let m = old(self)@;
                let rows = sprite_rows(m, m.i, n);
                let (cx, cy) = ((m.v[x as int] % 64) as int, (m.v[y as int] % 32) as int);
                &&& r == Ok::<StepOutcome, EmuError>(StepOutcome::FrameReady)
                &&& final(self)@ == set_v(
                    Machine { screen: drawn(m.screen, rows, cx, cy), ..m },
                    15,
                    flag(collides(m.screen, rows, cx, cy)),
                )
            }),
    {
        let start = self.i as usize;
        if start + n as usize > MEMORY_SIZE {
            return Err(EmuError::MemoryBounds { address: self.i });
        }
        let mut rows: Vec<u8> = Vec::new();
        let mut k: usize = 0;
        while k < n as usize
            invariant
                self.wf(),
                start == self.i,
                start + n <= MEMORY_SIZE,
                k <= n,
                rows@ == self@.memory.subrange(start as int, start + k),
            decreases n - k,
        {
            rows.push(self.memory[start + k]);
            k = k + 1;
            proof {
                assert(rows@ =~= self@.memory.subrange(start as int, start + k));
            }
        }
        let cx = self.v[x as usize] % 64;
        let cy = self.v[y as usize] % 32;
        proof {
            lemma_sprite_drawn_direct(self@.screen, rows@, cx as int, cy as int);
        }
        let collided = self.display.write_sprite(cx as usize, cy as usize, &rows);
        let f: u8 = if collided { 1 } else { 0 };
        self.set_reg(15, f);
        Ok(StepOutcome::FrameReady)
    }

    fn store_bcd(&mut self, x: u8) -> (r: Result<StepOutcome, EmuError>)
        requires
            old(self).wf(),
            x < 16,
        ensures
            final(self).wf(),
            transition(
                old(self)@,
                final(self)@,
                r,
                exec_spec(old(self)@, Opcode::BinaryCodeI(x), None, 0),
            ),
    {
        proof {
            reveal(exec_spec);
        }
        let start = self.i as usize;
        if start + 3 > MEMORY_SIZE {
            return Err(EmuError::MemoryBounds { address: self.i });
        }
        let val = self.v[x as usize];
        self.memory.set(start, val / 100);
        self.memory.set(start + 1, (val / 10) % 10);
        self.memory.set(start + 2, val % 10);
        Ok(StepOutcome::Running)
    }

    fn store_registers(&mut self, x: u8) -> (r: Result<StepOutcome, EmuError>)
        requires
            old(self).wf(),
            x < 16,
        ensures
            final(self).wf(),
            transition(
                old(self)@,
                final(self)@,
                r,
                exec_spec(old(self)@, Opcode::CopyRegistersToI(x), None, 0),
            ),
    {
        proof {
            reveal(exec_spec);
        }
        let start = self.i as usize;
        if start + x as usize + 1 > MEMORY_SIZE {
            return Err(EmuError::MemoryBounds { address: self.i });
        }
        let ghost m0 = self@;
        let mut k: usize = 0;
        while k <= x as usize
            invariant
                self.wf(),
                x < 16,
                start == m0.i,
                start + x + 1 <= MEMORY_SIZE,
                k <= x + 1,
                m0.v.len() == 16,
                self@ == (Machine { memory: self@.memory, ..m0 }),
                self@.memory == Seq::new(
                    MEMORY_SIZE as nat,
                    |a: int|
                        if start <= a < start + k {
                            m0.v[a - start]
                        } else {
                            m0.memory[a]
                        },
                ),
            decreases x + 1 - k,
        {
            let val = self.v[k];
            self.memory.set(start + k, val);
            k = k + 1;
            proof {
                assert(self@.memory =~= Seq::new(
                    MEMORY_SIZE as nat,
                    |a: int|
                        if start <= a < start + k {
                            m0.v[a - start]
                        } else {
                            m0.memory[a]
                        },
                ));
            }
        }
        proof {
            assert(self@.memory =~= stored(m0, m0.i, x));
        }
        Ok(StepOutcome::Running)
    }

    fn load_registers(&mut self, x: u8) -> (r: Result<StepOutcome, EmuError>)
        requires
            old(self).wf(),
            x < 16,
        ensures
            final(self).wf(),
            transition(
                old(self)@,
                final(self)@,
                r,
                exec_spec(old(self)@, Opcode::CopyIToRegisters(x), None, 0),
            ),
    {
        proof {
            reveal(exec_spec);
        }
        let start = self.i as usize;
        if start + x as usize + 1 > MEMORY_SIZE {
            return Err(EmuError::MemoryBounds { address: self.i });
        }
        let ghost m0 = self@;
        let mut k: usize = 0;
        while k <= x as usize
            invariant
                self.wf(),
                x < 16,
                start == m0.i,
                start + x + 1 <= MEMORY_SIZE,
                k <= x + 1,
                m0.memory.len() == MEMORY_SIZE,
                self@ == (Machine { v: self@.v, ..m0 }),
                self@.v == Seq::new(
                    16,
                    |j: int|
                        if j < k {
                            m0.memory[start + j]
                        } else {
                            m0.v[j]
                        },
                ),
            decreases x + 1 - k,
        {
            let val = self.memory[start + k];
            self.v.set(k, val);
            k = k + 1;
            proof {
                assert(self@.v =~= Seq::new(
                    16,
                    |j: int|
                        if j < k {
                            m0.memory[start + j]
                        } else {
                            m0.v[j]
                        },
                ));
            }
        }
        proof {
            assert(self@.v =~= loaded(m0, m0.i, x));
        }
        Ok(StepOutcome::Running)
    }
}

} // verus!
