//! The virtual machine state, its reset and program loading, instruction
//! fetch, timers and keypad, and the abstract model that the instruction
//! semantics are stated over.

use vstd::prelude::*;
use rand::rngs::ThreadRng;
use rand::Rng;
use crate::display::{collides, drawn};
use crate::font::{FONTSET, FONT_SIZE};
use crate::opcode_parser::parse_op;
use crate::opcodes::{decode_spec, Instruction};
use crate::semantics::{lemma_pc_after_cycle, pc_moves_legally};

verus! {

/// Size of the address space in bytes.
pub const MEMORY_SIZE: usize = 4096;

/// Address at which programs are loaded and execution starts.
pub const PROGRAM_START: usize = 0x200;

/// Largest program that fits between `PROGRAM_START` and the end of memory.
pub const MAX_PROGRAM_SIZE: usize = 3584;

/// Depth of the return-address stack.
pub const STACK_DEPTH: usize = 16;

#[verifier::external_type_specification]
#[verifier::external_body]
pub struct ExThreadRng(ThreadRng);

/// Relies on `rand::thread_rng`: a handle to the calling thread's generator,
/// seeded from the operating system on first use.
#[verifier::external_body]
fn new_rng() -> ThreadRng {
    rand::thread_rng()
}

/// Relies on `rand::Rng::gen::<u8>` on a `ThreadRng`: any byte may come back.
#[verifier::external_body]
fn random_byte(rng: &mut ThreadRng) -> u8 {
    rng.gen::<u8>()
}

/// The conditions under which the machine stops or reports an error.
#[derive(Clone, Copy, Debug, PartialEq, Eq, Structural)]
pub enum Fault {
    /// An opcode that names no instruction.
    Decode,
    /// `CALL` with all sixteen stack slots in use.
    StackOverflow,
    /// `RET` with an empty stack.
    StackUnderflow,
    /// A fetch, load or store outside the 4 KiB address space.
    Memory,
    /// A program longer than `MAX_PROGRAM_SIZE` bytes.
    RomTooLarge,
}

/// Where the machine stands between two cycles.
#[derive(Clone, Copy, Debug, PartialEq, Eq, Structural)]
pub enum RunState {
    /// Executing instructions.
    Running,
    /// Blocked in `FX0A` until a key is pressed.
    AwaitingKey,
    /// Stopped by a fault; further cycles do nothing.
    Halted(Fault),
}

/// Behaviour switches chosen at construction.
#[derive(Clone, Copy, Debug, PartialEq, Eq, Structural)]
pub struct Config {
    /// `8XY6` / `8XYE` shift `V[y]` into `V[x]` (as on the COSMAC VIP) instead of
    /// shifting `V[x]` in place.
    pub shift_uses_vy: bool,
    /// `FX55` / `FX65` leave `I` advanced by `x + 1` (as on the COSMAC VIP)
    /// instead of unchanged.
    pub load_store_advances_index: bool,
    /// Every fault halts the machine. When off, unknown opcodes and memory
    /// faults are ignored and only stack faults halt.
    pub strict: bool,
}

impl Default for Config {
    /// Modern, lenient behaviour: shifts in place, `I` unchanged by
    /// `FX55` / `FX65`, unknown opcodes and memory faults ignored.
    fn default() -> (c: Config)
        ensures
            c == default_config(),
    {
        Config { shift_uses_vy: false, load_store_advances_index: false, strict: false }
    }
}

/// The configuration that `Config::default` returns.
pub open spec fn default_config() -> Config {
    Config { shift_uses_vy: false, load_store_advances_index: false, strict: false }
}

/// The abstract machine: every field of `Chip8` but the generator, with
/// arrays seen as sequences.
pub struct Vm {
    pub opcode: u16,
    pub memory: Seq<u8>,
    pub v: Seq<u8>,
    pub i: u16,
    pub pc: u16,
    pub delay_timer: u8,
    pub sound_timer: u8,
    pub stack: Seq<u16>,
    pub sp: u16,
    pub keys: Seq<bool>,
    pub display: Seq<u8>,
    pub config: Config,
    pub state: RunState,
}

impl Vm {
    /// Sizes are those of the machine and the stack pointer is in range.
    pub open spec fn well_formed(self) -> bool {
        &&& self.memory.len() == 4096
        &&& self.v.len() == 16
        &&& self.stack.len() == 16
        &&& self.keys.len() == 16
        &&& self.display.len() == 2048
        &&& self.sp <= 16
    }

    /// `V[x] = val`.
    pub open spec fn with_reg(self, x: int, val: u8) -> Vm {
        Vm { v: self.v.update(x, val), ..self }
    }

    /// The program counter advanced past one more instruction when `cond` holds.
    pub open spec fn skip_if(self, cond: bool) -> Vm {
        if cond {
            Vm { pc: ((self.pc + 2) % 0x10000) as u16, ..self }
        } else {
            self
        }
    }

    /// The machine after `f` is raised: halted when `f` is a stack fault or
    /// the configuration is strict, otherwise unchanged.
    pub open spec fn raise(self, f: Fault) -> Vm {
        if self.config.strict || f == Fault::StackOverflow || f == Fault::StackUnderflow {
            Vm { state: RunState::Halted(f), ..self }
        } else {
            self
        }
    }

    /// What a cycle reports: the fault that halted the machine, if any.
    pub open spec fn outcome(self) -> Result<(), Fault> {
        match self.state {
            RunState::Halted(f) => Err(f),
            _ => Ok(()),
        }
    }
}

/// The index of the first pressed key at or after `from`, or 16 when none is.
pub open spec fn first_pressed(keys: Seq<bool>, from: int) -> int
    decreases 16 - from,
{
    if from >= 16 {
        16
    } else if keys[from] {
        from
    } else {
        first_pressed(keys, from + 1)
    }
}

/// The big-endian opcode stored at `memory[pc]`, `memory[pc + 1]`.
pub open spec fn opcode_at(memory: Seq<u8>, pc: int) -> u16 {
    (memory[pc] as int * 256 + memory[pc + 1] as int) as u16
}

/// The operand of the shift instructions under `config`.
pub open spec fn shift_source(m: Vm, x: int, y: int) -> u8 {
    if m.config.shift_uses_vy {
        m.v[y]
    } else {
        m.v[x]
    }
}

/// `I` after `FX55` / `FX65` with register operand `x`.
pub open spec fn index_after_block(m: Vm, x: int) -> u16 {
    if m.config.load_store_advances_index {
        ((m.i + x + 1) % 0x10000) as u16
    } else {
        m.i
    }
}

/// `DXYN` on sprite rows that lie in memory: the `n` bytes at `I` are
/// XOR-ed onto the display at `(V[x] mod 64, V[y] mod 32)` and `VF` tells
/// whether a lit pixel was turned off.
#[verifier::opaque]
pub open spec fn draw_spec(m: Vm, x: int, y: int, n: int) -> Vm {
    let sprite = Seq::new(n as nat, |r: int| m.memory[m.i + r]);
    let ox = m.v[x] as int % 64;
    let oy = m.v[y] as int % 32;
    Vm {
        display: drawn(m.display, sprite, ox, oy),
        v: m.v.update(15, if collides(m.display, sprite, ox, oy) { 1u8 } else { 0u8 }),
        ..m
    }
}

/// `FX55` on a range that lies in memory: `memory[I + k] = V[k]` for
/// `k` in `0..=x`.
#[verifier::opaque]
pub open spec fn store_regs_spec(m: Vm, x: int) -> Vm {
    Vm {
        memory: Seq::new(
            4096,
            |a: int|
                if m.i <= a <= m.i + x {
                    m.v[a - m.i]
                } else {
                    m.memory[a]
                },
        ),
        i: index_after_block(m, x),
        ..m
    }
}

/// `FX65` on a range that lies in memory: `V[k] = memory[I + k]` for
/// `k` in `0..=x`.
#[verifier::opaque]
pub open spec fn load_regs_spec(m: Vm, x: int) -> Vm {
    Vm {
        v: Seq::new(16, |k: int| if k <= x { m.memory[m.i + k] } else { m.v[k] }),
        i: index_after_block(m, x),
        ..m
    }
}

/// The effect of one instruction on a machine whose program counter has
/// already been advanced past it; `rnd` is the byte that `CXNN` draws.
///
/// Operands are read before any register is written. `8XY4` writes `V[x]`
/// and then the carry into `VF`; the subtractions and shifts write `VF`
/// first and then `V[x]`, so with `x` = F the later write is what remains.
/// `DXYN` reads its coordinates before it clears `VF`.
pub open spec fn apply(m: Vm, ins: Instruction, rnd: u8) -> Vm {
    match ins {
        Instruction::ClearScreen => Vm { display: Seq::new(2048, |p: int| 0u8), ..m },
        Instruction::Return => if m.sp == 0 {
            m.raise(Fault::StackUnderflow)
        } else {
            Vm { sp: (m.sp - 1) as u16, pc: m.stack[m.sp - 1], ..m }
        },
        Instruction::System { .. } => m,
        Instruction::Jump { addr } => Vm { pc: addr, ..m },
        Instruction::Call { addr } => if m.sp >= 16 {
            m.raise(Fault::StackOverflow)
        } else {
            Vm { stack: m.stack.update(m.sp as int, m.pc), sp: (m.sp + 1) as u16, pc: addr, ..m }
        },
        Instruction::SkipIfEqualImm { x, nn } => m.skip_if(m.v[x as int] == nn),
        Instruction::SkipIfNotEqualImm { x, nn } => m.skip_if(m.v[x as int] != nn),
        Instruction::SkipIfEqualReg { x, y } => m.skip_if(m.v[x as int] == m.v[y as int]),
        Instruction::LoadImm { x, nn } => m.with_reg(x as int, nn),
        Instruction::AddImm { x, nn } => m.with_reg(x as int, ((m.v[x as int] + nn) % 256) as u8),
        Instruction::Move { x, y } => m.with_reg(x as int, m.v[y as int]),
        Instruction::Or { x, y } => m.with_reg(x as int, m.v[x as int] | m.v[y as int]),
        Instruction::And { x, y } => m.with_reg(x as int, m.v[x as int] & m.v[y as int]),
        Instruction::Xor { x, y } => m.with_reg(x as int, m.v[x as int] ^ m.v[y as int]),
        Instruction::AddReg { x, y } => {
            let sum = m.v[x as int] + m.v[y as int];
            m.with_reg(x as int, (sum % 256) as u8).with_reg(15, if sum > 255 { 1u8 } else { 0u8 })
        },
        Instruction::Sub { x, y } => {
            let a = m.v[x as int];
            let b = m.v[y as int];
            m.with_reg(15, if a >= b { 1u8 } else { 0u8 }).with_reg(x as int, ((a - b) % 256) as u8)
        },
        Instruction::ShiftRight { x, y } => {
            let s = shift_source(m, x as int, y as int);
            m.with_reg(15, s % 2).with_reg(x as int, s / 2)
        },
        Instruction::SubReversed { x, y } => {
            let a = m.v[x as int];
            let b = m.v[y as int];
            m.with_reg(15, if b >= a { 1u8 } else { 0u8 }).with_reg(x as int, ((b - a) % 256) as u8)
        },
        Instruction::ShiftLeft { x, y } => {
            let s = shift_source(m, x as int, y as int);
            m.with_reg(15, s / 128).with_reg(x as int, ((s * 2) % 256) as u8)
        },
        Instruction::SkipIfNotEqualReg { x, y } => m.skip_if(m.v[x as int] != m.v[y as int]),
        Instruction::LoadIndex { addr } => Vm { i: addr, ..m },
        Instruction::JumpOffset { addr } => Vm { pc: (addr + m.v[0]) as u16, ..m },
        Instruction::Random { x, nn } => m.with_reg(x as int, rnd & nn),
        Instruction::Draw { x, y, n } => if n > 0 && m.i + n > 4096 {
            m.raise(Fault::Memory)
        } else {
            draw_spec(m, x as int, y as int, n as int)
        },
        Instruction::SkipIfKey { x } => m.skip_if(m.keys[m.v[x as int] as int % 16]),
        Instruction::SkipIfNotKey { x } => m.skip_if(!m.keys[m.v[x as int] as int % 16]),
        Instruction::LoadDelay { x } => m.with_reg(x as int, m.delay_timer),
        Instruction::WaitKey { x } => {
            let k = first_pressed(m.keys, 0);
            if k < 16 {
                Vm { state: RunState::Running, ..m.with_reg(x as int, k as u8) }
            } else {
                Vm { pc: ((m.pc + 0x10000 - 2) % 0x10000) as u16, state: RunState::AwaitingKey, ..m }
            }
        },
        Instruction::SetDelay { x } => Vm { delay_timer: m.v[x as int], ..m },
        Instruction::SetSound { x } => Vm { sound_timer: m.v[x as int], ..m },
        Instruction::AddIndex { x } => Vm { i: ((m.i + m.v[x as int]) % 0x10000) as u16, ..m },
        Instruction::LoadFont { x } => Vm { i: ((m.v[x as int] % 16) * 5) as u16, ..m },
        Instruction::StoreBcd { x } => if m.i + 3 > 4096 {
            m.raise(Fault::Memory)
        } else {
            let val = m.v[x as int];
            Vm {
                memory: m.memory.update(m.i as int, val / 100).update(m.i + 1, (val / 10) % 10).update(
                    m.i + 2,
                    val % 10,
                ),
                ..m
            }
        },
        Instruction::StoreRegs { x } => if m.i + x + 1 > 4096 {
            m.raise(Fault::Memory)
        } else {
            store_regs_spec(m, x as int)
        },
        Instruction::LoadRegs { x } => if m.i + x + 1 > 4096 {
            m.raise(Fault::Memory)
        } else {
            load_regs_spec(m, x as int)
        },
    }
}

/// The effect of executing the opcode held in `m.opcode`: the instruction
/// it encodes, or a decode fault.
pub open spec fn execute_spec(m: Vm, rnd: u8) -> Vm {
    match decode_spec(m.opcode) {
        Some(ins) => apply(m, ins, rnd),
        None => m.raise(Fault::Decode),
    }
}

/// One fetch-execute cycle. A halted machine stays as it is; a fetch that
/// would read past the end of memory is a memory fault; otherwise the
/// opcode at `pc` is latched, `pc` advances by two and the opcode runs.
pub open spec fn cycle_spec(m: Vm, rnd: u8) -> Vm {
    if m.state is Halted {
        m
    } else if m.pc >= 0xFFF {
        m.raise(Fault::Memory)
    } else {
        execute_spec(Vm { opcode: opcode_at(m.memory, m.pc as int), pc: (m.pc + 2) as u16, ..m }, rnd)
    }
}

/// A CHIP-8 machine.
pub struct Chip8 {
    /// The opcode most recently fetched.
    pub opcode: u16,
    /// The 4 KiB address space; the font occupies `0x000..0x050`.
    pub memory: [u8; 4096],
    /// General registers `V0` to `VF`; `VF` doubles as the flag register.
    pub vregisters: [u8; 16],
    /// The index register, used as a memory address.
    pub i: u16,
    /// The program counter.
    pub pc: u16,
    /// Counts down at 60 Hz to zero.
    pub delay_timer: u8,
    /// Counts down at 60 Hz to zero; the tone sounds while it is non-zero.
    pub sound_timer: u8,
    /// Return addresses pushed by `CALL`.
    pub jumpstack: [u16; 16],
    /// The next free slot of `jumpstack`.
    pub stackpointer: u16,
    /// Which of the keys `0x0` to `0xF` are held down.
    pub keystate: [bool; 16],
    /// The frame buffer, one byte per pixel, row-major.
    pub display: [u8; 2048],
    /// Behaviour switches chosen at construction.
    pub config: Config,
    /// Running, waiting for a key, or halted.
    pub state: RunState,
    /// Source of the bytes that `CXNN` draws.
    pub rng: ThreadRng,
}

impl View for Chip8 {
    type V = Vm;

    open spec fn view(&self) -> Vm {
        Vm {
            opcode: self.opcode,
            memory: self.memory@,
            v: self.vregisters@,
            i: self.i,
            pc: self.pc,
            delay_timer: self.delay_timer,
            sound_timer: self.sound_timer,
            stack: self.jumpstack@,
            sp: self.stackpointer,
            keys: self.keystate@,
            display: self.display@,
            config: self.config,
            state: self.state,
        }
    }
}

impl Chip8 {
    /// The stack pointer is within the stack.
    pub open spec fn well_formed(&self) -> bool {
        self.stackpointer <= 16
    }

    /// A machine in its reset state with the default configuration.
    pub fn new() -> (r: Chip8)
        ensures
            r.well_formed(),
            r@.config == default_config(),
            r@.pc == 0x200,
            r@.sp == 0,
            r@.i == 0,
            r@.opcode == 0,
            r@.delay_timer == 0,
            r@.sound_timer == 0,
            r@.state == RunState::Running,
            forall|k: int| 0 <= k < 16 ==> r@.v[k] == 0 && r@.stack[k] == 0 && !r@.keys[k],
            r@.memory.subrange(0, 80) == FONTSET@,
            forall|a: int| 80 <= a < 4096 ==> r@.memory[a] == 0,
            forall|p: int| 0 <= p < 2048 ==> r@.display[p] == 0,
    {
        Chip8::with_config(Config::default())
    }

    /// A machine in its reset state: everything zero but the font in low
    /// memory, `pc` at `0x200`, running.
    pub fn with_config(config: Config) -> (r: Chip8)
        ensures
            r.well_formed(),
            r@.config == config,
            r@.pc == 0x200,
            r@.sp == 0,
            r@.i == 0,
            r@.opcode == 0,
            r@.delay_timer == 0,
            r@.sound_timer == 0,
            r@.state == RunState::Running,
            forall|k: int| 0 <= k < 16 ==> r@.v[k] == 0 && r@.stack[k] == 0 && !r@.keys[k],
            r@.memory.subrange(0, 80) == FONTSET@,
            forall|a: int| 80 <= a < 4096 ==> r@.memory[a] == 0,
            forall|p: int| 0 <= p < 2048 ==> r@.display[p] == 0,
    {
        let mut chip8 = Chip8 {
            opcode: 0,
            memory: [0u8; 4096],
            vregisters: [0u8; 16],
            i: 0,
            pc: 0x200,
            delay_timer: 0,
            sound_timer: 0,
            jumpstack: [0u16; 16],
            stackpointer: 0,
            keystate: [false; 16],
            display: [0u8; 2048],
            config,
            state: RunState::Running,
            rng: new_rng(),
        };
        chip8.load_fontset();
        chip8
    }

    /// Copies the font into `memory[0..80]`, leaving everything else as it was.
    fn load_fontset(&mut self)
        ensures
            final(self)@ == (Vm {
                memory: FONTSET@ + old(self)@.memory.subrange(80, 4096),
                ..old(self)@
            }),
    {
        let ghost start = self.memory@;
        let ghost before = self@;
        let mut k: usize = 0;
        while k < FONT_SIZE
            invariant
                k <= 80,
                start.len() == 4096,
                self@ == (Vm { memory: self@.memory, ..before }),
                forall|a: int| 0 <= a < k ==> self.memory@[a] == FONTSET@[a],
                forall|a: int| k <= a < 4096 ==> self.memory@[a] == start[a],
            decreases 80 - k,
        {
            self.memory[k] = FONTSET[k];
            k = k + 1;
        }
        assert(self.memory@ =~= FONTSET@ + start.subrange(80, 4096));
    }

    /// Copies `program` to `memory[0x200..]`; every other byte of memory
    /// keeps its value, so on a freshly reset machine the rest of program
    /// memory stays zero. A program longer than 3584 bytes is rejected and
    /// leaves the machine unchanged.
    pub fn load_program(&mut self, program: &Vec<u8>) -> (r: Result<(), Fault>)
        ensures
            program@.len() > MAX_PROGRAM_SIZE ==> r == Err::<(), Fault>(Fault::RomTooLarge)
                && final(self)@ == old(self)@,
            program@.len() <= MAX_PROGRAM_SIZE ==> r == Ok::<(), Fault>(()) && final(self)@ == (Vm {
                memory: old(self)@.memory.subrange(0, 0x200) + program@ + old(self)@.memory.subrange(
                    0x200 + program@.len() as int,
                    4096,
                ),
                ..old(self)@
            }),
    {
        if program.len() > MAX_PROGRAM_SIZE {
            return Err(Fault::RomTooLarge);
        }
        let ghost start = self.memory@;
        let ghost before = self@;
        let len = program.len();
        let mut k: usize = 0;
        while k < len
            invariant
                start.len() == 4096,
                self@ == (Vm { memory: self@.memory, ..before }),
                len == program@.len() <= 3584,
                k <= len,
                forall|a: int|
                    0 <= a < 4096 ==> #[trigger] self.memory@[a] == if 0x200 <= a < 0x200 + k {
                        program@[a - 0x200]
                    } else {
                        start[a]
                    },
            decreases len - k,
        {
            self.memory[PROGRAM_START + k] = program[k];
            k = k + 1;
        }
        assert(self.memory@ =~= start.subrange(0, 0x200) + program@ + start.subrange(
            0x200 + len as int,
            4096,
        ));
        Ok(())
    }

    /// One 60 Hz timer tick: each non-zero timer goes down by one. Returns
    /// whether the tone should sound, that is whether the sound timer was
    /// non-zero before the tick.
    pub fn tick_timers(&mut self) -> (tone: bool)
        ensures
            tone == (old(self)@.sound_timer > 0),
            final(self)@ == (Vm {
                delay_timer: tick_down(old(self)@.delay_timer),
                sound_timer: tick_down(old(self)@.sound_timer),
                ..old(self)@
            }),
    {
        if self.delay_timer > 0 {
            self.delay_timer = self.delay_timer - 1;
        }
        if self.sound_timer > 0 {
            self.sound_timer = self.sound_timer - 1;
            true
        } else {
            false
        }
    }

    /// One fetch-execute cycle with `random` as the byte that `CXNN` draws.
    /// Returns the fault that halted the machine, if it is halted afterwards.
    pub fn step(&mut self, random: u8) -> (r: Result<(), Fault>)
        requires
            old(self).well_formed(),
        ensures
            final(self).well_formed(),
            final(self)@ == cycle_spec(old(self)@, random),
            r == final(self)@.outcome(),
            !(old(self)@.state is Halted) && old(self)@.pc < 0xFFF ==> pc_moves_legally(
                old(self)@,
                final(self)@,
            ),
    {
        proof {
            if !(self@.state is Halted) && self@.pc < 0xFFF {
                lemma_pc_after_cycle(self@, random);
            }
        }
        if let RunState::Halted(f) = self.state {
            return Err(f);
        }
        if self.pc >= 0xFFF {
            if self.config.strict {
                self.state = RunState::Halted(Fault::Memory);
                return Err(Fault::Memory);
            }
            return Ok(());
        }
        let pc = self.pc as usize;
        let hi = self.memory[pc] as u16;
        let lo = self.memory[pc + 1] as u16;
        assert((hi << 8u16) | lo == hi * 256 + lo) by (bit_vector)
            requires
                hi < 256,
                lo < 256,
        ;
        self.opcode = (hi << 8) | lo;
        self.pc = self.pc + 2;
        parse_op(self, random);
        match self.state {
            RunState::Halted(f) => Err(f),
            _ => Ok(()),
        }
    }

    /// One fetch-execute cycle, drawing the byte for `CXNN` from the
    /// machine's generator. Whatever byte is drawn, the machine moves as
    /// `cycle_spec` says for that byte.
    pub fn single_cycle(&mut self) -> (r: Result<(), Fault>)
        requires
            old(self).well_formed(),
        ensures
            final(self).well_formed(),
            exists|random: u8| final(self)@ == cycle_spec(old(self)@, random),
            r == final(self)@.outcome(),
            !(old(self)@.state is Halted) && old(self)@.pc < 0xFFF ==> pc_moves_legally(
                old(self)@,
                final(self)@,
            ),
    {
        let ghost before = self@;
        let random = random_byte(&mut self.rng);
        assert(self@ == before);
        let r = self.step(random);
        assert(self@ == cycle_spec(before, random));
        r
    }

    /// Records that key `key` (0x0 to 0xF) is pressed or released.
    pub fn set_key(&mut self, key: usize, pressed: bool)
        requires
            key < 16,
        ensures
            final(self)@ == (Vm { keys: old(self)@.keys.update(key as int, pressed), ..old(self)@ }),
    {
        self.keystate[key] = pressed;
    }
}

/// A timer value after one tick.
pub open spec fn tick_down(t: u8) -> u8 {
    if t > 0 {
        (t - 1) as u8
    } else {
        0
    }
}

} // verus!
