//! Instruction execution: the effect of each decoded instruction on the
//! machine, proved equal to `apply`.

use vstd::prelude::*;
use crate::chip8::{
    apply, draw_spec, execute_spec, first_pressed, load_regs_spec, store_regs_spec, Chip8, Fault,
    RunState, Vm, STACK_DEPTH,
};
use crate::display::draw_sprite;
use crate::opcodes::{decode, Instruction};

verus! {

/// Executes the opcode latched in `chip8.opcode`, whose program counter has
/// already been advanced past it. `random` is the byte that `CXNN` uses.
/// An unknown opcode raises a decode fault.
pub fn parse_op(chip8: &mut Chip8, random: u8)
    requires
        old(chip8).well_formed(),
    ensures
        final(chip8).well_formed(),
        final(chip8)@ == execute_spec(old(chip8)@, random),
{
    match decode(chip8.opcode) {
        Some(ins) => execute(chip8, ins, random),
        None => raise(chip8, Fault::Decode),
    }
}

/// Executes one decoded instruction.
pub fn execute(chip8: &mut Chip8, ins: Instruction, random: u8)
    requires
        old(chip8).well_formed(),
        ins.well_formed(),
    ensures
        final(chip8).well_formed(),
        final(chip8)@ == apply(old(chip8)@, ins, random),
{
    match ins {
        Instruction::LoadImm { .. }
        | Instruction::AddImm { .. }
        | Instruction::Move { .. }
        | Instruction::Or { .. }
        | Instruction::And { .. }
        | Instruction::Xor { .. }
        | Instruction::Random { .. } => execute_arithmetic(chip8, ins, random),
        Instruction::AddReg { .. }
        | Instruction::Sub { .. }
        | Instruction::ShiftRight { .. }
        | Instruction::SubReversed { .. }
        | Instruction::ShiftLeft { .. } => execute_flagged(chip8, ins),
        Instruction::LoadIndex { .. }
        | Instruction::AddIndex { .. }
        | Instruction::LoadFont { .. }
        | Instruction::LoadDelay { .. }
        | Instruction::SetDelay { .. }
        | Instruction::SetSound { .. } => execute_index(chip8, ins),
        Instruction::StoreBcd { .. }
        | Instruction::StoreRegs { .. }
        | Instruction::LoadRegs { .. }
        | Instruction::Draw { .. } => execute_memory(chip8, ins),
        _ => execute_control(chip8, ins),
    }
}

/// Raises fault `f`: halts the machine when `f` is a stack fault or the
/// configuration is strict.
fn raise(chip8: &mut Chip8, f: Fault)
    requires
        old(chip8).well_formed(),
    ensures
        final(chip8).well_formed(),
        final(chip8)@ == old(chip8)@.raise(f),
{
    if chip8.config.strict || f == Fault::StackOverflow || f == Fault::StackUnderflow {
        chip8.state = RunState::Halted(f);
    }
}

/// Advances the program counter past the next instruction when `cond` holds.
fn skip_if(chip8: &mut Chip8, cond: bool)
    ensures
        final(chip8).well_formed() == old(chip8).well_formed(),
        final(chip8)@ == old(chip8)@.skip_if(cond),
{
    if cond {
        chip8.pc = chip8.pc.wrapping_add(2);
    }
}

/// Index of the lowest pressed key, or 16 when no key is pressed.
fn lowest_pressed(keys: &[bool; 16]) -> (k: usize)
    ensures
        k == first_pressed(keys@, 0),
{
    let mut k: usize = 0;
    while k < 16
        invariant
            k <= 16,
            first_pressed(keys@, 0) == first_pressed(keys@, k as int),
        decreases 16 - k,
    {
        if keys[k] {
            return k;
        }
        k = k + 1;
    }
    k
}

/// Clear, return, call, jumps, skips and the key wait.
#[verifier::rlimit(40)]
fn execute_control(chip8: &mut Chip8, ins: Instruction)
    requires
        old(chip8).well_formed(),
        ins.well_formed(),
        ins is ClearScreen || ins is Return || ins is System || ins is Jump || ins is Call
            || ins is SkipIfEqualImm || ins is SkipIfNotEqualImm || ins is SkipIfEqualReg
            || ins is SkipIfNotEqualReg || ins is JumpOffset || ins is SkipIfKey
            || ins is SkipIfNotKey || ins is WaitKey,
    ensures
        final(chip8).well_formed(),
        final(chip8)@ == apply(old(chip8)@, ins, 0),
{
    match ins {
        Instruction::ClearScreen => {
            chip8.display = [0u8; 2048];
            assert(chip8.display@ =~= Seq::new(2048, |p: int| 0u8));
        },
        Instruction::Return => {
            if chip8.stackpointer == 0 {
                raise(chip8, Fault::StackUnderflow);
            } else {
                chip8.stackpointer = chip8.stackpointer - 1;
                chip8.pc = chip8.jumpstack[chip8.stackpointer as usize];
            }
        },
        Instruction::System { .. } => {},
        Instruction::Jump { addr } => {
            chip8.pc = addr;
        },
        Instruction::Call { addr } => {
            if chip8.stackpointer as usize >= STACK_DEPTH {
                raise(chip8, Fault::StackOverflow);
            } else {
                chip8.jumpstack[chip8.stackpointer as usize] = chip8.pc;
                chip8.stackpointer = chip8.stackpointer + 1;
                chip8.pc = addr;
            }
        },
        Instruction::SkipIfEqualImm { x, nn } => {
            let cond = chip8.vregisters[x] == nn;
            skip_if(chip8, cond);
        },
        Instruction::SkipIfNotEqualImm { x, nn } => {
            let cond = chip8.vregisters[x] != nn;
            skip_if(chip8, cond);
        },
        Instruction::SkipIfEqualReg { x, y } => {
            let cond = chip8.vregisters[x] == chip8.vregisters[y];
            skip_if(chip8, cond);
        },
        Instruction::SkipIfNotEqualReg { x, y } => {
            let cond = chip8.vregisters[x] != chip8.vregisters[y];
            skip_if(chip8, cond);
        },
        Instruction::JumpOffset { addr } => {
            chip8.pc = addr + chip8.vregisters[0] as u16;
        },
        Instruction::SkipIfKey { x } => {
            let cond = chip8.keystate[(chip8.vregisters[x] % 16) as usize];
            skip_if(chip8, cond);
        },
        Instruction::SkipIfNotKey { x } => {
            let cond = !chip8.keystate[(chip8.vregisters[x] % 16) as usize];
            skip_if(chip8, cond);
        },
        Instruction::WaitKey { x } => {
            let k = lowest_pressed(&chip8.keystate);
            if k < 16 {
                chip8.vregisters[x] = k as u8;
                chip8.state = RunState::Running;
            } else {
                chip8.pc = chip8.pc.wrapping_sub(2);
                chip8.state = RunState::AwaitingKey;
            }
        },
        _ => {},
    }
}

/// Register loads, wrapping addition of an immediate, bitwise logic and the
/// random byte: the instructions that leave the flag register alone.
#[verifier::rlimit(40)]
fn execute_arithmetic(chip8: &mut Chip8, ins: Instruction, random: u8)
    requires
        old(chip8).well_formed(),
        ins.well_formed(),
        ins is LoadImm || ins is AddImm || ins is Move || ins is Or || ins is And || ins is Xor
            || ins is Random,
    ensures
        final(chip8).well_formed(),
        final(chip8)@ == apply(old(chip8)@, ins, random),
{
    match ins {
        Instruction::LoadImm { x, nn } => {
            chip8.vregisters[x] = nn;
        },
        Instruction::AddImm { x, nn } => {
            chip8.vregisters[x] = chip8.vregisters[x].wrapping_add(nn);
        },
        Instruction::Move { x, y } => {
            chip8.vregisters[x] = chip8.vregisters[y];
        },
        Instruction::Or { x, y } => {
            chip8.vregisters[x] = chip8.vregisters[x] | chip8.vregisters[y];
        },
        Instruction::And { x, y } => {
            chip8.vregisters[x] = chip8.vregisters[x] & chip8.vregisters[y];
        },
        Instruction::Xor { x, y } => {
            chip8.vregisters[x] = chip8.vregisters[x] ^ chip8.vregisters[y];
        },
        Instruction::Random { x, nn } => {
            chip8.vregisters[x] = random & nn;
        },
        _ => {},
    }
}

/// Addition with carry, the subtractions and the shifts: the instructions
/// that write the flag register.
#[verifier::rlimit(40)]
fn execute_flagged(chip8: &mut Chip8, ins: Instruction)
    requires
        old(chip8).well_formed(),
        ins.well_formed(),
        ins is AddReg || ins is Sub || ins is ShiftRight || ins is SubReversed || ins is ShiftLeft,
    ensures
        final(chip8).well_formed(),
        final(chip8)@ == apply(old(chip8)@, ins, 0),
{
    match ins {
        Instruction::AddReg { x, y } => {
            let sum = chip8.vregisters[x] as u16 + chip8.vregisters[y] as u16;
            chip8.vregisters[x] = (sum % 256) as u8;
            chip8.vregisters[15] = if sum > 255 { 1 } else { 0 };
        },
        Instruction::Sub { x, y } => {
            let a = chip8.vregisters[x];
            let b = chip8.vregisters[y];
            chip8.vregisters[15] = if a >= b { 1 } else { 0 };
            chip8.vregisters[x] = a.wrapping_sub(b);
        },
        Instruction::ShiftRight { x, y } => {
            let s = if chip8.config.shift_uses_vy { chip8.vregisters[y] } else { chip8.vregisters[x] };
            chip8.vregisters[15] = s % 2;
            chip8.vregisters[x] = s / 2;
        },
        Instruction::SubReversed { x, y } => {
            let a = chip8.vregisters[x];
            let b = chip8.vregisters[y];
            chip8.vregisters[15] = if b >= a { 1 } else { 0 };
            chip8.vregisters[x] = b.wrapping_sub(a);
        },
        Instruction::ShiftLeft { x, y } => {
            let s = if chip8.config.shift_uses_vy { chip8.vregisters[y] } else { chip8.vregisters[x] };
            chip8.vregisters[15] = s / 128;
            chip8.vregisters[x] = ((s as u16 * 2) % 256) as u8;
        },
        _ => {},
    }
}

/// The index register and the timers.
#[verifier::rlimit(40)]
fn execute_index(chip8: &mut Chip8, ins: Instruction)
    requires
        old(chip8).well_formed(),
        ins.well_formed(),
        ins is LoadIndex || ins is AddIndex || ins is LoadFont || ins is LoadDelay || ins is SetDelay
            || ins is SetSound,
    ensures
        final(chip8).well_formed(),
        final(chip8)@ == apply(old(chip8)@, ins, 0),
{
    match ins {
        Instruction::LoadIndex { addr } => {
            chip8.i = addr;
        },
        Instruction::AddIndex { x } => {
            chip8.i = chip8.i.wrapping_add(chip8.vregisters[x] as u16);
        },
        Instruction::LoadFont { x } => {
            chip8.i = (chip8.vregisters[x] % 16) as u16 * 5;
        },
        Instruction::LoadDelay { x } => {
            chip8.vregisters[x] = chip8.delay_timer;
        },
        Instruction::SetDelay { x } => {
            chip8.delay_timer = chip8.vregisters[x];
        },
        Instruction::SetSound { x } => {
            chip8.sound_timer = chip8.vregisters[x];
        },
        _ => {},
    }
}

/// Memory transfers through `I` and drawing: each raises a memory fault
/// when the bytes it would touch run past the end of memory.
#[verifier::rlimit(40)]
fn execute_memory(chip8: &mut Chip8, ins: Instruction)
    requires
        old(chip8).well_formed(),
        ins.well_formed(),
        ins is StoreBcd || ins is StoreRegs || ins is LoadRegs || ins is Draw,
    ensures
        final(chip8).well_formed(),
        final(chip8)@ == apply(old(chip8)@, ins, 0),
{
    let base = chip8.i as usize;
    match ins {
        Instruction::StoreBcd { x } => {
            if base + 3 > 4096 {
                raise(chip8, Fault::Memory);
            } else {
                store_bcd(chip8, x);
            }
        },
        Instruction::StoreRegs { x } => {
            if base + x + 1 > 4096 {
                raise(chip8, Fault::Memory);
            } else {
                store_registers(chip8, x);
            }
        },
        Instruction::LoadRegs { x } => {
            if base + x + 1 > 4096 {
                raise(chip8, Fault::Memory);
            } else {
                load_registers(chip8, x);
            }
        },
        Instruction::Draw { x, y, n } => {
            if n > 0 && base + n as usize > 4096 {
                raise(chip8, Fault::Memory);
            } else {
                draw(chip8, x, y, n);
            }
        },
        _ => {},
    }
}

/// `FX33` once `I..I + 3` is known to lie in memory.
fn store_bcd(chip8: &mut Chip8, x: usize)
    requires
        old(chip8).well_formed(),
        x < 16,
        old(chip8).i + 3 <= 4096,
    ensures
        final(chip8).well_formed(),
        final(chip8)@ == apply(old(chip8)@, Instruction::StoreBcd { x }, 0),
{
    let base = chip8.i as usize;
    let val = chip8.vregisters[x];
    chip8.memory[base] = val / 100;
    chip8.memory[base + 1] = (val / 10) % 10;
    chip8.memory[base + 2] = val % 10;
}

/// `FX55` once the range `I..=I + x` is known to lie in memory.
fn store_registers(chip8: &mut Chip8, x: usize)
    requires
        old(chip8).well_formed(),
        x < 16,
        old(chip8).i + x + 1 <= 4096,
    ensures
        final(chip8).well_formed(),
        final(chip8)@ == apply(old(chip8)@, Instruction::StoreRegs { x }, 0),
{
    let ghost before = chip8@;
    let base = chip8.i as usize;
    let mut k: usize = 0;
    while k <= x
        invariant
            before.memory.len() == 4096,
            x < 16,
            k <= x + 1,
            base == before.i,
            base + x + 1 <= 4096,
            chip8@ == (Vm { memory: chip8@.memory, ..before }),
            forall|a: int|
                0 <= a < 4096 ==> #[trigger] chip8@.memory[a] == if base <= a < base + k {
                    before.v[a - base]
                } else {
                    before.memory[a]
                },
        decreases x + 1 - k,
    {
        chip8.memory[base + k] = chip8.vregisters[k];
        k = k + 1;
    }
    if chip8.config.load_store_advances_index {
        chip8.i = chip8.i.wrapping_add(x as u16 + 1);
    }
    proof {
        reveal(store_regs_spec);
    }
    assert(chip8@.memory =~= apply(before, Instruction::StoreRegs { x }, 0).memory);
}

/// `FX65` once the range `I..=I + x` is known to lie in memory.
fn load_registers(chip8: &mut Chip8, x: usize)
    requires
        old(chip8).well_formed(),
        x < 16,
        old(chip8).i + x + 1 <= 4096,
    ensures
        final(chip8).well_formed(),
        final(chip8)@ == apply(old(chip8)@, Instruction::LoadRegs { x }, 0),
{
    let ghost before = chip8@;
    let base = chip8.i as usize;
    let mut k: usize = 0;
    while k <= x
        invariant
            before.v.len() == 16,
            x < 16,
            k <= x + 1,
            base == before.i,
            base + x + 1 <= 4096,
            chip8@ == (Vm { v: chip8@.v, ..before }),
            forall|j: int|
                0 <= j < 16 ==> #[trigger] chip8@.v[j] == if j < k {
                    before.memory[base + j]
                } else {
                    before.v[j]
                },
        decreases x + 1 - k,
    {
        chip8.vregisters[k] = chip8.memory[base + k];
        k = k + 1;
    }
    if chip8.config.load_store_advances_index {
        chip8.i = chip8.i.wrapping_add(x as u16 + 1);
    }
    proof {
        reveal(load_regs_spec);
    }
    assert(chip8@.v =~= apply(before, Instruction::LoadRegs { x }, 0).v);
}

/// `DXYN` once the sprite rows `I..I + n` are known to lie in memory.
fn draw(chip8: &mut Chip8, x: usize, y: usize, n: u8)
    requires
        old(chip8).well_formed(),
        x < 16,
        y < 16,
        n < 16,
        n == 0 || old(chip8).i + n <= 4096,
    ensures
        final(chip8).well_formed(),
        final(chip8)@ == apply(old(chip8)@, Instruction::Draw { x, y, n }, 0),
{
    let ghost before = chip8@;
    let base = chip8.i as usize;
    let mut sprite: Vec<u8> = Vec::new();
    let mut r: usize = 0;
    assert(sprite@ =~= Seq::new(0, |k: int| before.memory[base + k]));
    while r < n as usize
        invariant
            before.memory.len() == 4096,
            n < 16,
            r <= n,
            base == before.i,
            n == 0 || base + n <= 4096,
            chip8@ == before,
            sprite@ == Seq::new(r as nat, |k: int| before.memory[base + k]),
        decreases n - r,
    {
        sprite.push(chip8.memory[base + r]);
        r = r + 1;
        assert(sprite@ =~= Seq::new(r as nat, |k: int| before.memory[base + k]));
    }
    let vx = chip8.vregisters[x];
    let vy = chip8.vregisters[y];
    let collision = draw_sprite(&mut chip8.display, sprite.as_slice(), vx, vy);
    chip8.vregisters[15] = if collision { 1 } else { 0 };
    proof {
        reveal(draw_spec);
    }
}

} // verus!
