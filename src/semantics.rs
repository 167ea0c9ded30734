//! Laws of the instruction semantics, proved over `apply` and `cycle_spec`.

use vstd::prelude::*;
use crate::chip8::{
    apply, cycle_spec, draw_spec, load_regs_spec, opcode_at, store_regs_spec, RunState, Vm,
};
use crate::display::{collides, covers, drawn, lights};
use crate::font::{glyph, FONTSET};
use crate::opcodes::{decode_spec, Instruction};

verus! {

/// Where an instruction sends control instead of falling through, for a
/// machine whose program counter has already been advanced past it: the
/// address of a jump, call or return, or the instruction after next for a
/// skip. `None` for instructions that always fall through.
pub open spec fn jump_target(m: Vm, ins: Instruction) -> Option<int> {
    match ins {
        Instruction::Jump { addr } => Some(addr as int),
        Instruction::Call { addr } => Some(addr as int),
        Instruction::JumpOffset { addr } => Some(addr + m.v[0]),
        Instruction::Return => if m.sp > 0 {
            Some(m.stack[m.sp - 1] as int)
        } else {
            None
        },
        Instruction::SkipIfEqualImm { .. }
        | Instruction::SkipIfNotEqualImm { .. }
        | Instruction::SkipIfEqualReg { .. }
        | Instruction::SkipIfNotEqualReg { .. }
        | Instruction::SkipIfKey { .. }
        | Instruction::SkipIfNotKey { .. } => Some(m.pc + 2),
        _ => None,
    }
}

/// Where a cycle that started from `m` may leave the program counter: two
/// bytes on, at the target of the instruction it executed, or, only when
/// that instruction is an `FX0A` that found no key pressed, where it was.
pub open spec fn pc_moves_legally(m: Vm, after: Vm) -> bool {
    let op = opcode_at(m.memory, m.pc as int);
    let fetched = Vm { opcode: op, pc: (m.pc + 2) as u16, ..m };
    ||| after.pc == m.pc + 2
    ||| (decode_spec(op) matches Some(ins) && jump_target(fetched, ins) == Some(after.pc as int))
    ||| (decode_spec(op) matches Some(Instruction::WaitKey { .. }) && after.pc == m.pc
        && after.state == RunState::AwaitingKey)
}

/// Every cycle of a running machine moves the program counter legally:
/// two bytes on, to the target of the instruction it executed, or, only
/// when `FX0A` found no key pressed, nowhere.
pub proof fn lemma_pc_after_cycle(m: Vm, random: u8)
    requires
        m.well_formed(),
        !(m.state is Halted),
        m.pc < 0xFFF,
    ensures
        pc_moves_legally(m, cycle_spec(m, random)),
{
    let op = opcode_at(m.memory, m.pc as int);
    let fetched = Vm { opcode: op, pc: (m.pc + 2) as u16, ..m };
    if let Some(ins) = decode_spec(op) {
        assert(ins.well_formed());
        lemma_pc_after_instruction(fetched, ins, random);
    }
}

/// One instruction leaves the program counter where the fetch put it, at
/// the instruction's jump target, or, for a blocked `FX0A`, back on the
/// instruction itself.
#[verifier::rlimit(40)]
proof fn lemma_pc_after_instruction(f: Vm, ins: Instruction, random: u8)
    requires
        f.well_formed(),
        ins.well_formed(),
        2 <= f.pc <= 0x1000,
    ensures
        ({
            let after = apply(f, ins, random);
            ||| after.pc == f.pc
            ||| jump_target(f, ins) == Some(after.pc as int)
            ||| (ins is WaitKey && after.pc == f.pc - 2 && after.state == RunState::AwaitingKey)
        }),
{
    match ins {
        Instruction::Draw { .. } => {
            reveal(draw_spec);
        },
        Instruction::StoreRegs { .. } => {
            reveal(store_regs_spec);
        },
        Instruction::LoadRegs { .. } => {
            reveal(load_regs_spec);
        },
        _ => {},
    }
}

/// `V[x] = a; V[y] = b; 8XY4` leaves the sum modulo 256 in `V[x]` and the
/// carry in `VF`, for distinct `x` and `y` with `x` not the flag register.
pub proof fn lemma_add_carry(m: Vm, x: usize, y: usize, a: u8, b: u8)
    requires
        m.well_formed(),
        x < 15,
        y < 16,
        x != y,
    ensures
        ({
            let m1 = apply(m, Instruction::LoadImm { x, nn: a }, 0);
            let m2 = apply(m1, Instruction::LoadImm { x: y, nn: b }, 0);
            let m3 = apply(m2, Instruction::AddReg { x, y }, 0);
            &&& m3.v[x as int] == (a + b) % 256
            &&& m3.v[15] == if a + b > 255 { 1u8 } else { 0u8 }
        }),
{
}

/// `V[x] = a; V[y] = b; 8XY5` leaves `(a - b) mod 256` in `V[x]` and the
/// not-borrow flag in `VF`, for distinct `x` and `y` with `x` not the flag
/// register.
pub proof fn lemma_sub_not_borrow(m: Vm, x: usize, y: usize, a: u8, b: u8)
    requires
        m.well_formed(),
        x < 15,
        y < 16,
        x != y,
    ensures
        ({
            let m1 = apply(m, Instruction::LoadImm { x, nn: a }, 0);
            let m2 = apply(m1, Instruction::LoadImm { x: y, nn: b }, 0);
            let m3 = apply(m2, Instruction::Sub { x, y }, 0);
            &&& m3.v[x as int] == (a - b) % 256
            &&& m3.v[15] == if a >= b { 1u8 } else { 0u8 }
        }),
{
}

/// XOR-ing a sprite twice restores the frame buffer, and the second blit
/// collides exactly when the first one lit some pixel.
pub proof fn lemma_draw_twice_display(display: Seq<u8>, sprite: Seq<u8>, ox: int, oy: int)
    ensures
        drawn(drawn(display, sprite, ox, oy), sprite, ox, oy) == display,
        collides(drawn(display, sprite, ox, oy), sprite, ox, oy) == lights(display, sprite, ox, oy),
{
    let once = drawn(display, sprite, ox, oy);
    assert forall|p: int| 0 <= p < display.len() implies (#[trigger] display[p] ^ 1u8) ^ 1u8
        == display[p] && ((display[p] ^ 1u8 == 1u8) == (display[p] == 0u8)) by {
        let b = display[p];
        assert((b ^ 1u8) ^ 1u8 == b && ((b ^ 1u8 == 1u8) == (b == 0u8))) by (bit_vector);
    }
    assert(drawn(once, sprite, ox, oy) =~= display);
    if lights(display, sprite, ox, oy) {
        let p = choose|p: int|
            0 <= p < display.len() && covers(sprite, ox, oy, p) && display[p] == 0;
        assert(once[p] == 1u8);
    }
    if collides(once, sprite, ox, oy) {
        let p = choose|p: int| 0 <= p < once.len() && covers(sprite, ox, oy, p) && once[p] == 1;
        assert(display[p] == 0u8);
    }
}

/// Drawing the same sprite at the same place twice with `DXYN` restores the
/// display, and `VF` is 1 after the second draw exactly when the first one
/// lit some pixel (so always when it drew on a blank area). The coordinate
/// registers must not be `VF`, which the first draw overwrites, and the
/// sprite must lie in memory.
pub proof fn lemma_draw_twice(m: Vm, x: usize, y: usize, n: u8)
    requires
        m.well_formed(),
        x < 15,
        y < 15,
        n < 16,
        m.i + n <= 4096,
    ensures
        ({
            let ins = Instruction::Draw { x, y, n };
            let second = apply(apply(m, ins, 0), ins, 0);
            let sprite = Seq::new(n as nat, |r: int| m.memory[m.i + r]);
            let ox = m.v[x as int] as int % 64;
            let oy = m.v[y as int] as int % 32;
            &&& second.display == m.display
            &&& second.v[15] == if lights(m.display, sprite, ox, oy) { 1u8 } else { 0u8 }
        }),
{
    let sprite = Seq::new(n as nat, |r: int| m.memory[m.i + r]);
    let ox = m.v[x as int] as int % 64;
    let oy = m.v[y as int] as int % 32;
    reveal(draw_spec);
    lemma_draw_twice_display(m.display, sprite, ox, oy);
    let first = apply(m, Instruction::Draw { x, y, n }, 0);
    assert(Seq::new(n as nat, |r: int| first.memory[first.i + r]) =~= sprite);
}

/// After `FX29` with `V[x] = d`, the five bytes at `I` are the glyph of the
/// digit `d`, on a machine whose font area holds the font.
pub proof fn lemma_font_lookup(m: Vm, x: usize, d: u8)
    requires
        m.well_formed(),
        x < 16,
        d < 16,
        m.v[x as int] == d,
        m.memory.subrange(0, 80) == FONTSET@,
    ensures
        ({
            let after = apply(m, Instruction::LoadFont { x }, 0);
            after.memory.subrange(after.i as int, after.i + 5) == glyph(d as int)
        }),
{
    let after = apply(m, Instruction::LoadFont { x }, 0);
    assert(after.i == d * 5);
    assert forall|k: int| 0 <= k < 5 implies after.memory.subrange(after.i as int, after.i + 5)[k]
        == glyph(d as int)[k] by {
        assert(m.memory.subrange(0, 80)[d * 5 + k] == FONTSET@[d * 5 + k]);
    }
    assert(after.memory.subrange(after.i as int, after.i + 5) =~= glyph(d as int));
}

/// `CALL addr` followed by the `RET` at `addr` brings the program counter
/// back to the instruction after the call with the stack pointer as it
/// was, for any even `addr` in program memory, as long as the stack has a
/// free slot.
#[verifier::rlimit(40)]
pub proof fn lemma_call_return(m: Vm, addr: u16, r1: u8, r2: u8)
    requires
        m.well_formed(),
        !(m.state is Halted),
        m.pc < 0xFFF,
        m.sp < 16,
        0x200 <= addr <= 0xFFF,
        addr % 2 == 0,
        opcode_at(m.memory, m.pc as int) == 0x2000 + addr,
        opcode_at(m.memory, addr as int) == 0x00EE,
    ensures
        ({
            let after = cycle_spec(cycle_spec(m, r1), r2);
            &&& after.pc == m.pc + 2
            &&& after.sp == m.sp
            &&& after.state == m.state
        }),
{
}

/// A frame buffer whose pixels are all 0 or 1 stays so through every cycle.
pub proof fn lemma_display_stays_monochrome(m: Vm, random: u8)
    requires
        m.well_formed(),
        forall|p: int| 0 <= p < 2048 ==> m.display[p] <= 1,
    ensures
        forall|p: int| 0 <= p < 2048 ==> cycle_spec(m, random).display[p] <= 1,
{
    reveal(draw_spec);
    reveal(store_regs_spec);
    reveal(load_regs_spec);
    assert forall|b: u8| b <= 1 implies #[trigger] (b ^ 1u8) <= 1 by {
        assert(b <= 1 ==> (b ^ 1u8) <= 1) by (bit_vector);
    }
}

} // verus!
