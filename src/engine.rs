//! The CPU instruction engine: one handler per instruction, the dispatch on
//! the decoded index, and the fetch-decode-execute cycle, each proved against
//! the statements of `execution`.
use vstd::prelude::*;

use crate::execution::{
    collides, cycle, execute, flag, lemma_mem_addr_wrap16, lemma_mod_offset, mem_addr, skip_if,
    spec_add, spec_bcd, spec_call, spec_cls, spec_draw, spec_keyr, spec_load, spec_ret, spec_rsub,
    spec_save, spec_shl1, spec_shr1, spec_soundw, spec_sub, sprite_bit, vx, vy, with_pc, with_v,
    wrap16, press, CpuFault, INSTRUCTION_SIZE, SPRITE_SIZE,
};
use crate::instruction::{
    address_of, low_nibble_of, Instruction, RawInstruction, ADD, ADDI, ADD_I, AND, BCD, CALL,
    CALL_RCA1802, CLS, DRAW, INSTRUCTION_COUNT, JUMP, JUMPR, KEYR, MOV, MOVI, MOVI_I, OR, RAND,
    RET, RSUB, SAVE, SHL1, SHR1, SIFEQ, SIFEQI, SIFKEQ, SIFKNE, SIFNE, SIFNEI, SOUNDW, SPRITE_I,
    SUB, TIMERR, TIMERW, XOR,
};
use crate::resources::{
    key_field, Machine, Resources, HORIZONTAL_RES, KEYS_COUNT, MEMORY_SIZE, PIXEL_COUNT, VERTICAL_RES,
};
use crate::storage::BusContext;

verus! {

/// Sets register `x`.
fn set_v(res: &mut Resources, x: usize, value: u8)
    requires
        old(res).wf(),
        x < 16,
    ensures
        final(res).wf(),
        final(res)@ == with_v(old(res)@, x as nat, value),
{
    res.cpu.gpr[x].write(BusContext::Raw, value);
    assert(res@ =~= with_v(old(res)@, x as nat, value));
}

fn get_v(res: &Resources, x: usize) -> (r: u8)
    requires
        x < 16,
    ensures
        r == res@.v[x as int],
{
    res.cpu.gpr[x].read(BusContext::Raw)
}

fn set_pc(res: &mut Resources, pc: u16)
    requires
        old(res).wf(),
    ensures
        final(res).wf(),
        final(res)@ == with_pc(old(res)@, pc),
{
    res.cpu.pc.write(BusContext::Raw, pc);
    assert(res@ =~= with_pc(old(res)@, pc));
}

fn skip_if_exec(res: &mut Resources, cond: bool)
    requires
        old(res).wf(),
    ensures
        final(res).wf(),
        final(res)@ == skip_if(old(res)@, cond),
{
    if cond {
        let pc = res.cpu.pc.read(BusContext::Raw);
        set_pc(res, pc.wrapping_add(INSTRUCTION_SIZE));
    }
}

/// Clears every pixel.
pub fn cls(res: &mut Resources)
    requires
        old(res).wf(),
    ensures
        final(res).wf(),
        final(res)@ == spec_cls(old(res)@),
{
    let n = res.cpu.framebuffer.len();
    let mut p: usize = 0;
    while p < n
        invariant
            n == res.cpu.framebuffer@.len(),
            p <= n,
            res@ == (Machine {
                fb: Seq::new(
                    n as nat,
                    |q: int|
                        if q < p {
                            false
                        } else {
                            old(res)@.fb[q]
                        },
                ),
                ..old(res)@
            }),
            res.wf(),
        decreases n - p,
    {
        res.cpu.framebuffer.set(p, false);
        p = p + 1;
        assert(res@ =~= (Machine {
            fb: Seq::new(
                n as nat,
                |q: int|
                    if q < p {
                        false
                    } else {
                        old(res)@.fb[q]
                    },
            ),
            ..old(res)@
        }));
    }
    assert(res@ =~= spec_cls(old(res)@));
}

/// Returns from a call: pops the return address into the program counter.
/// Returns false, changing nothing, where the call stack is empty.
pub fn ret(res: &mut Resources) -> (r: bool)
    requires
        old(res).wf(),
    ensures
        final(res).wf(),
        r == spec_ret(old(res)@) is Some,
        r ==> final(res)@ == spec_ret(old(res)@).unwrap(),
        !r ==> final(res)@ == old(res)@,
{
    match res.cpu.stack.pop() {
        Some(ret_pc) => {
            set_pc(res, ret_pc);
            assert(res@ =~= spec_ret(old(res)@).unwrap());
            true
        },
        None => false,
    }
}

/// Calls the subroutine at the instruction's address, pushing the program
/// counter.
pub fn call(res: &mut Resources, inst: &RawInstruction)
    requires
        old(res).wf(),
    ensures
        final(res).wf(),
        final(res)@ == spec_call(old(res)@, inst.value),
{
    let pc = res.cpu.pc.read(BusContext::Raw);
    res.cpu.stack.push(pc);
    res.cpu.pc.write(BusContext::Raw, inst.address());
    assert(res@ =~= spec_call(old(res)@, inst.value));
}

/// Vx += Vy; VF is 1 where the sum exceeds 255, else 0.
pub fn add_carry(res: &mut Resources, inst: &RawInstruction)
    requires
        old(res).wf(),
    ensures
        final(res).wf(),
        final(res)@ == spec_add(old(res)@, inst.value),
{
    let x = inst.x_register();
    let xv = get_v(res, x);
    let yv = get_v(res, inst.y_register());
    let sum = xv as u16 + yv as u16;
    set_v(res, x, (sum % 256) as u8);
    set_v(res, 15, if sum > 255 { 1 } else { 0 });
}

/// Vx -= Vy, wrapping; VF is 1 where Vx >= Vy (no borrow), else 0.
pub fn sub_borrow(res: &mut Resources, inst: &RawInstruction)
    requires
        old(res).wf(),
    ensures
        final(res).wf(),
        final(res)@ == spec_sub(old(res)@, inst.value),
{
    let x = inst.x_register();
    let xv = get_v(res, x);
    let yv = get_v(res, inst.y_register());
    set_v(res, x, xv.wrapping_sub(yv));
    set_v(res, 15, if xv >= yv { 1 } else { 0 });
}

/// Vx := Vy - Vx, wrapping; VF is 1 where Vy >= Vx (no borrow), else 0.
pub fn rsub(res: &mut Resources, inst: &RawInstruction)
    requires
        old(res).wf(),
    ensures
        final(res).wf(),
        final(res)@ == spec_rsub(old(res)@, inst.value),
{
    let x = inst.x_register();
    let xv = get_v(res, x);
    let yv = get_v(res, inst.y_register());
    set_v(res, x, yv.wrapping_sub(xv));
    set_v(res, 15, if yv >= xv { 1 } else { 0 });
}

/// Vx >>= 1; VF takes the bit shifted out.
pub fn shr1(res: &mut Resources, inst: &RawInstruction)
    requires
        old(res).wf(),
    ensures
        final(res).wf(),
        final(res)@ == spec_shr1(old(res)@, inst.value),
{
    let x = inst.x_register();
    let xv = get_v(res, x);
    set_v(res, x, xv / 2);
    set_v(res, 15, xv % 2);
}

/// Vx <<= 1; VF takes the bit shifted out.
pub fn shl1(res: &mut Resources, inst: &RawInstruction)
    requires
        old(res).wf(),
    ensures
        final(res).wf(),
        final(res)@ == spec_shl1(old(res)@, inst.value),
{
    let x = inst.x_register();
    let xv = get_v(res, x);
    set_v(res, x, ((xv as u16 * 2) % 256) as u8);
    set_v(res, 15, xv / 128);
}

/// Skips the next instruction where key Vx is down (`when_down`) or up.
pub fn sifk(res: &mut Resources, inst: &RawInstruction, when_down: bool)
    requires
        old(res).wf(),
    ensures
        final(res).wf(),
        final(res)@ == skip_if(
            old(res)@,
            crate::resources::key_down(old(res)@.keys, vx(old(res)@, inst.value) as nat)
                == when_down,
        ),
{
    let key = get_v(res, inst.x_register()) as usize;
    let down = if key < 16 {
        res.cpu.keys.read_bitfield(BusContext::Raw, &key_field(key)) == 1
    } else {
        false
    };
    skip_if_exec(res, down == when_down);
}

/// Blocking key read: takes the recorded wake key into Vx, or, with none
/// recorded, halts and steps the program counter back onto this instruction.
pub fn keyr(res: &mut Resources, inst: &RawInstruction)
    requires
        old(res).wf(),
    ensures
        final(res).wf(),
        final(res)@ == spec_keyr(old(res)@, inst.value),
{
    match res.cpu.halted_wake_key {
        Some(key) => {
            set_v(res, inst.x_register(), key);
            res.cpu.halted_wake_key = None;
        },
        None => {
            let pc = res.cpu.pc.read(BusContext::Raw);
            set_pc(res, pc.wrapping_sub(INSTRUCTION_SIZE));
            res.cpu.halted = true;
        },
    }
    assert(res@ =~= spec_keyr(old(res)@, inst.value));
}

/// Writes Vx to the sound counter.
pub fn soundw(res: &mut Resources, inst: &RawInstruction)
    requires
        old(res).wf(),
    ensures
        final(res).wf(),
        final(res)@ == spec_soundw(old(res)@, inst.value),
{
    let value = get_v(res, inst.x_register());
    res.spu.counter.write(BusContext::Raw, value);
    assert(res@ =~= spec_soundw(old(res)@, inst.value));
}

/// Stores the decimal digits of Vx at I, I+1 and I+2.
pub fn bcd(res: &mut Resources, inst: &RawInstruction)
    requires
        old(res).wf(),
    ensures
        final(res).wf(),
        final(res)@ == spec_bcd(old(res)@, inst.value),
{
    let value = get_v(res, inst.x_register());
    let addr = res.cpu.i.read(BusContext::Raw) as usize;
    res.memory.write(BusContext::Raw, addr % MEMORY_SIZE, value / 100);
    res.memory.write(BusContext::Raw, (addr + 1) % MEMORY_SIZE, (value % 100) / 10);
    res.memory.write(BusContext::Raw, (addr + 2) % MEMORY_SIZE, value % 10);
    assert(res@ =~= spec_bcd(old(res)@, inst.value));
}

/// Stores V0..=Vx from I on; I ends past the last one.
pub fn save(res: &mut Resources, inst: &RawInstruction)
    requires
        old(res).wf(),
    ensures
        final(res).wf(),
        final(res)@ == spec_save(old(res)@, inst.value),
{
    let x = inst.x_register();
    let ghost m = old(res)@;
    let mut idx: usize = 0;
    while idx <= x
        invariant
            x < 16,
            x == crate::instruction::x_of(inst.value),
            idx <= x + 1,
            res.wf(),
            res@ == (Machine {
                mem: Seq::new(
                    MEMORY_SIZE as nat,
                    |a: int|
                        if mem_addr(a - m.i) < idx {
                            m.v[mem_addr(a - m.i)]
                        } else {
                            m.mem[a]
                        },
                ),
                i: wrap16(m.i + idx),
                ..m
            }),
        decreases x + 1 - idx,
    {
        let value = get_v(res, idx);
        let addr = res.cpu.i.read(BusContext::Raw);
        res.cpu.i.write(BusContext::Raw, addr.wrapping_add(1));
        let a = addr as usize % MEMORY_SIZE;
        res.memory.write(BusContext::Raw, a, value);
        proof {
            lemma_mem_addr_wrap16(m.i + idx);
            vstd::arithmetic::div_mod::lemma_mod_bound(m.i + idx, 0x10000);
            vstd::arithmetic::div_mod::lemma_add_mod_noop(m.i + idx, 1, 0x10000);
            vstd::arithmetic::div_mod::lemma_small_mod(1, 0x10000);
            assert forall|b: int| 0 <= b < MEMORY_SIZE implies (#[trigger] mem_addr(b - m.i) == idx) == (b
                == a) by {
                lemma_mod_offset(m.i as int, idx as int, b, MEMORY_SIZE as int);
            }
        }
        idx = idx + 1;
        assert(res@ =~= (Machine {
            mem: Seq::new(
                MEMORY_SIZE as nat,
                |b: int|
                    if mem_addr(b - m.i) < idx {
                        m.v[mem_addr(b - m.i)]
                    } else {
                        m.mem[b]
                    },
            ),
            i: wrap16(m.i + idx),
            ..m
        }));
    }
    assert(res@ =~= spec_save(m, inst.value));
}

/// Loads V0..=Vx from I on; I ends past the last one.
pub fn load(res: &mut Resources, inst: &RawInstruction)
    requires
        old(res).wf(),
    ensures
        final(res).wf(),
        final(res)@ == spec_load(old(res)@, inst.value),
{
    let x = inst.x_register();
    let ghost m = old(res)@;
    let mut idx: usize = 0;
    while idx <= x
        invariant
            x < 16,
            x == crate::instruction::x_of(inst.value),
            idx <= x + 1,
            res.wf(),
            res@ == (Machine {
                v: Seq::new(
                    16,
                    |k: int|
                        if k < idx {
                            m.mem[mem_addr(m.i + k)]
                        } else {
                            m.v[k]
                        },
                ),
                i: wrap16(m.i + idx),
                ..m
            }),
        decreases x + 1 - idx,
    {
        let addr = res.cpu.i.read(BusContext::Raw);
        res.cpu.i.write(BusContext::Raw, addr.wrapping_add(1));
        let value = res.memory.read(BusContext::Raw, addr as usize % MEMORY_SIZE);
        set_v(res, idx, value);
        proof {
            lemma_mem_addr_wrap16(m.i + idx);
            vstd::arithmetic::div_mod::lemma_mod_bound(m.i + idx, 0x10000);
            vstd::arithmetic::div_mod::lemma_add_mod_noop(m.i + idx, 1, 0x10000);
            vstd::arithmetic::div_mod::lemma_small_mod(1, 0x10000);
        }
        idx = idx + 1;
        assert(res@ =~= (Machine {
            v: Seq::new(
                16,
                |k: int|
                    if k < idx {
                        m.mem[mem_addr(m.i + k)]
                    } else {
                        m.v[k]
                    },
            ),
            i: wrap16(m.i + idx),
            ..m
        }));
    }
    assert(res@ =~= spec_load(m, inst.value));
}

/// Column offset of pixel `p` from the corner of a draw, around the edge.
spec fn dx_of(m: Machine, w: u16, p: int) -> int {
    (p % (HORIZONTAL_RES as int) - vx(m, w)) % (HORIZONTAL_RES as int)
}

/// Row offset of pixel `p` from the corner of a draw, around the edge.
spec fn dy_of(m: Machine, w: u16, p: int) -> int {
    (p / (HORIZONTAL_RES as int) - vy(m, w)) % (VERTICAL_RES as int)
}

/// Pixel `p` gets a set sprite bit from the rows before `line`, or from the
/// columns before `bit` of row `line`.
spec fn drawn(m: Machine, w: u16, p: int, line: int, bit: int) -> bool {
    sprite_bit(m, w, p) && (dy_of(m, w, p) < line || (dy_of(m, w, p) == line && dx_of(m, w, p)
        < bit))
}

/// The machine part-way through a draw.
spec fn draw_partial(m: Machine, w: u16, line: int, bit: int) -> Machine {
    Machine {
        fb: Seq::new(PIXEL_COUNT as nat, |p: int| m.fb[p] != drawn(m, w, p, line, bit)),
        v: m.v.update(
            15,
            flag(
                exists|p: int|
                    0 <= p < PIXEL_COUNT && m.fb[p] && #[trigger] drawn(m, w, p, line, bit),
            ),
        ),
        ..m
    }
}

/// Drawing bit `bit` of row `line` reaches exactly pixel `px`.
proof fn lemma_draw_step(m: Machine, w: u16, line: int, bit: int, px: int)
    requires
        m.wf(),
        0 <= line < low_nibble_of(w),
        0 <= bit < 8,
        px == ((vy(m, w) + line) % (VERTICAL_RES as int)) * (HORIZONTAL_RES as int) + (vx(m, w)
            + bit) % (HORIZONTAL_RES as int),
    ensures
        0 <= px < PIXEL_COUNT,
        dx_of(m, w, px) == bit,
        dy_of(m, w, px) == line,
        forall|p: int|
            0 <= p < PIXEL_COUNT ==> #[trigger] drawn(m, w, p, line, bit + 1) == (drawn(
                m,
                w,
                p,
                line,
                bit,
            ) || (p == px && sprite_bit(m, w, p))),
{
    let col = (vx(m, w) + bit) % 64;
    let row = (vy(m, w) + line) % 32;
    assert(0 <= col < 64 && 0 <= row < 32);
    assert(0 <= px < PIXEL_COUNT) by (nonlinear_arith)
        requires
            px == row * 64 + col,
            0 <= col < 64,
            0 <= row < 32,
    ;
    vstd::arithmetic::div_mod::lemma_fundamental_div_mod_converse(px, 64, row, col);
    lemma_mod_offset(vx(m, w) as int, bit, col, 64);
    lemma_mod_offset(vy(m, w) as int, line, row, 32);
    assert forall|p: int| 0 <= p < PIXEL_COUNT implies #[trigger] drawn(m, w, p, line, bit + 1)
        == (drawn(m, w, p, line, bit) || (p == px && sprite_bit(m, w, p))) by {
        if dy_of(m, w, p) == line && dx_of(m, w, p) == bit {
            vstd::arithmetic::div_mod::lemma_fundamental_div_mod(p, 64);
            assert(0 <= p / 64 < 32);
            assert(0 <= p % 64 < 64);
            lemma_mod_offset(vx(m, w) as int, bit, p % 64, 64);
            lemma_mod_offset(vy(m, w) as int, line, p / 64, 32);
            assert(p == px);
        }
    }
}

/// Two stages of a draw that have drawn the same pixels are the same machine.
proof fn lemma_same_drawn(m: Machine, w: u16, l1: int, b1: int, l2: int, b2: int)
    requires
        forall|p: int|
            0 <= p < PIXEL_COUNT ==> #[trigger] drawn(m, w, p, l1, b1) == drawn(m, w, p, l2, b2),
    ensures
        draw_partial(m, w, l1, b1) == draw_partial(m, w, l2, b2),
{
    let e1 = exists|p: int| 0 <= p < PIXEL_COUNT && m.fb[p] && #[trigger] drawn(m, w, p, l1, b1);
    let e2 = exists|p: int| 0 <= p < PIXEL_COUNT && m.fb[p] && #[trigger] drawn(m, w, p, l2, b2);
    if e1 {
        let q = choose|p: int| 0 <= p < PIXEL_COUNT && m.fb[p] && #[trigger] drawn(m, w, p, l1, b1);
        assert(drawn(m, w, q, l2, b2));
    }
    if e2 {
        let q = choose|p: int| 0 <= p < PIXEL_COUNT && m.fb[p] && #[trigger] drawn(m, w, p, l2, b2);
        assert(drawn(m, w, q, l1, b1));
    }
    assert(e1 == e2);
    assert(draw_partial(m, w, l1, b1) =~= draw_partial(m, w, l2, b2));
}

/// Draws bit `bit` of sprite row `line`.
fn draw_pixel(
    res: &mut Resources,
    Ghost(m): Ghost<Machine>,
    w: u16,
    x0: usize,
    y0: usize,
    line: u8,
    bit: u8,
    row_value: u8,
)
    requires
        m.wf(),
        old(res).wf(),
        x0 == vx(m, w),
        y0 == vy(m, w),
        line < low_nibble_of(w),
        bit < 8,
        row_value == m.mem[mem_addr(m.i + line)],
        old(res)@ == draw_partial(m, w, line as int, bit as int),
    ensures
        final(res).wf(),
        final(res)@ == draw_partial(m, w, line as int, bit + 1),
{
    let col = (x0 + bit as usize) % HORIZONTAL_RES;
    let row = (y0 + line as usize) % VERTICAL_RES;
    let px = row * HORIZONTAL_RES + col;
    proof {
        lemma_draw_step(m, w, line as int, bit as int, px as int);
    }
    let old_value = res.cpu.framebuffer[px];
    let new_value = (row_value & (0x80u8 >> bit)) > 0;
    res.cpu.framebuffer.set(px, new_value != old_value);
    if old_value && new_value {
        set_v(res, 15, 1);
    }
    proof {
        assert(new_value == sprite_bit(m, w, px as int));
        assert(!drawn(m, w, px as int, line as int, bit as int));
        let ex_before = exists|p: int|
            0 <= p < PIXEL_COUNT && m.fb[p] && #[trigger] drawn(m, w, p, line as int, bit as int);
        let ex_after = exists|p: int|
            0 <= p < PIXEL_COUNT && m.fb[p] && #[trigger] drawn(m, w, p, line as int, bit + 1);
        if old_value && new_value {
            assert(drawn(m, w, px as int, line as int, bit + 1));
            assert(ex_after);
        } else if ex_after {
            let q = choose|p: int|
                0 <= p < PIXEL_COUNT && m.fb[p] && #[trigger] drawn(m, w, p, line as int, bit + 1);
            assert(drawn(m, w, q, line as int, bit as int));
            assert(ex_before);
        }
        if ex_before {
            let q = choose|p: int|
                0 <= p < PIXEL_COUNT && m.fb[p] && #[trigger] drawn(m, w, p, line as int, bit as int);
            assert(drawn(m, w, q, line as int, bit + 1));
        }
        assert(res@ =~= draw_partial(m, w, line as int, bit + 1));
    }
}

/// XOR-draws the sprite of N rows at I at (Vx, Vy); VF is 1 where a set
/// pixel was hit, else 0.
pub fn draw(res: &mut Resources, inst: &RawInstruction)
    requires
        old(res).wf(),
    ensures
        final(res).wf(),
        final(res)@ == spec_draw(old(res)@, inst.value),
{
    let ghost m = old(res)@;
    let w = inst.value;
    let x0 = get_v(res, inst.x_register()) as usize;
    let y0 = get_v(res, inst.y_register()) as usize;
    let height = inst.low_nibble();
    let addr = res.cpu.i.read(BusContext::Raw) as usize;
    set_v(res, 15, 0);
    proof {
        assert forall|p: int| 0 <= p < PIXEL_COUNT implies !#[trigger] drawn(m, w, p, 0, 0) by {
            vstd::arithmetic::div_mod::lemma_mod_bound(p / 64 - vy(m, w), 32);
        }
        assert(res@ =~= draw_partial(m, w, 0, 0));
    }
    let mut line: u8 = 0;
    while line < height
        invariant
            m.wf(),
            w == inst.value,
            x0 == vx(m, w),
            y0 == vy(m, w),
            addr == m.i,
            height == low_nibble_of(w),
            height < 16,
            line <= height,
            res.wf(),
            res@ == draw_partial(m, w, line as int, 0),
        decreases height - line,
    {
        let row_value = res.memory.read(BusContext::Raw, (addr + line as usize) % MEMORY_SIZE);
        let mut bit: u8 = 0;
        while bit < 8
            invariant
                m.wf(),
                x0 == vx(m, w),
                y0 == vy(m, w),
                line < low_nibble_of(w),
                bit <= 8,
                row_value == m.mem[mem_addr(m.i + line)],
                res.wf(),
                res@ == draw_partial(m, w, line as int, bit as int),
            decreases 8 - bit,
        {
            draw_pixel(res, Ghost(m), w, x0, y0, line, bit, row_value);
            bit = bit + 1;
        }
        proof {
            lemma_same_drawn(m, w, line as int, 8, line + 1, 0);
        }
        line = line + 1;
    }
    proof {
        assert forall|p: int| 0 <= p < PIXEL_COUNT implies #[trigger] drawn(
            m,
            w,
            p,
            height as int,
            0,
        ) == sprite_bit(m, w, p) by {}
        assert(collides(m, w) == exists|p: int|
            0 <= p < PIXEL_COUNT && m.fb[p] && #[trigger] drawn(m, w, p, height as int, 0)) by {
            if collides(m, w) {
                let q = choose|p: int| 0 <= p < PIXEL_COUNT && m.fb[p] && #[trigger] sprite_bit(m, w, p);
                assert(drawn(m, w, q, height as int, 0));
            }
        }
        assert(res@ =~= spec_draw(m, w));
    }
}

/// Runs instruction `index`, encoded by `inst`, with `rnd` as the random
/// byte. Returns false, changing nothing, where the instruction faults.
#[verifier::rlimit(40)]
pub fn execute_instruction(
    res: &mut Resources,
    inst: &RawInstruction,
    index: usize,
    rnd: u8,
) -> (r: bool)
    requires
        old(res).wf(),
        index < INSTRUCTION_COUNT,
    ensures
        final(res).wf(),
        r == execute(old(res)@, index, inst.value, rnd) is Some,
        r ==> final(res)@ == execute(old(res)@, index, inst.value, rnd).unwrap(),
        !r ==> final(res)@ == old(res)@,
{
    reveal(execute);
    let ghost m = old(res)@;
    let x = inst.x_register();
    let kk = inst.immediate();
    if index == CLS {
        cls(res);
    } else if index == RET {
        return ret(res);
    } else if index == CALL_RCA1802 {
    } else if index == JUMP {
        set_pc(res, inst.address());
    } else if index == CALL {
        call(res, inst);
    } else if index == SIFEQI {
        let c = get_v(res, x) == kk;
        skip_if_exec(res, c);
    } else if index == SIFNEI {
        let c = get_v(res, x) != kk;
        skip_if_exec(res, c);
    } else if index == SIFEQ {
        let c = get_v(res, x) == get_v(res, inst.y_register());
        skip_if_exec(res, c);
    } else if index == MOVI {
        set_v(res, x, kk);
    } else if index == ADDI {
        let value = ((get_v(res, x) as u16 + kk as u16) % 256) as u8;
        set_v(res, x, value);
    } else if index == MOV {
        let value = get_v(res, inst.y_register());
        set_v(res, x, value);
    } else if index == OR {
        let value = get_v(res, x) | get_v(res, inst.y_register());
        set_v(res, x, value);
    } else if index == AND {
        let value = get_v(res, x) & get_v(res, inst.y_register());
        set_v(res, x, value);
    } else if index == XOR {
        let value = get_v(res, x) ^ get_v(res, inst.y_register());
        set_v(res, x, value);
    } else if index == ADD {
        add_carry(res, inst);
    } else if index == SUB {
        sub_borrow(res, inst);
    } else if index == SHR1 {
        shr1(res, inst);
    } else if index == RSUB {
        rsub(res, inst);
    } else if index == SHL1 {
        shl1(res, inst);
    } else if index == SIFNE {
        let c = get_v(res, x) != get_v(res, inst.y_register());
        skip_if_exec(res, c);
    } else if index == MOVI_I {
        res.cpu.i.write(BusContext::Raw, inst.address());
        assert(res@ =~= (Machine { i: address_of(inst.value), ..m }));
    } else if index == JUMPR {
        let base = get_v(res, 0) as u16;
        set_pc(res, base + inst.address());
    } else if index == RAND {
        set_v(res, x, rnd & kk);
    } else if index == DRAW {
        draw(res, inst);
    } else if index == SIFKEQ {
        sifk(res, inst, true);
    } else if index == SIFKNE {
        sifk(res, inst, false);
    } else if index == TIMERR {
        let value = res.timer.counter.read(BusContext::Raw);
        set_v(res, x, value);
    } else if index == KEYR {
        keyr(res, inst);
    } else if index == TIMERW {
        let value = get_v(res, x);
        res.timer.counter.write(BusContext::Raw, value);
        assert(res@ =~= (Machine { delay: value, ..m }));
    } else if index == SOUNDW {
        soundw(res, inst);
    } else if index == ADD_I {
        let value = get_v(res, x) as u16;
        let i = res.cpu.i.read(BusContext::Raw);
        res.cpu.i.write(BusContext::Raw, i.wrapping_add(value));
        assert(res@ =~= (Machine { i: wrap16(m.i + vx(m, inst.value)), ..m }));
    } else if index == SPRITE_I {
        let value = get_v(res, x) as u16;
        res.cpu.i.write(BusContext::Raw, SPRITE_SIZE * value);
        assert(res@ =~= (Machine { i: (SPRITE_SIZE * vx(m, inst.value)) as u16, ..m }));
    } else if index == BCD {
        bcd(res, inst);
    } else if index == SAVE {
        save(res, inst);
    } else {
        load(res, inst);
    }
    true
}

/// One CPU cycle of a running CPU: fetch the word at the program counter,
/// step the program counter past it, decode it and run it. Returns whether
/// the framebuffer was drawn.
pub fn execute_cycle(res: &mut Resources, rnd: u8) -> (r: Result<bool, CpuFault>)
    requires
        old(res).wf(),
        !old(res)@.halted,
    ensures
        final(res).wf(),
        cycle(old(res)@, rnd) == (final(res)@, r == Ok::<bool, CpuFault>(true), match r {
            Ok(_) => None,
            Err(f) => Some(f),
        }),
{
    reveal(cycle);
    let pc = res.cpu.pc.read(BusContext::Raw);
    let high = res.memory.read(BusContext::Raw, pc as usize % MEMORY_SIZE) as u16;
    let low = res.memory.read(BusContext::Raw, (pc as usize + 1) % MEMORY_SIZE) as u16;
    let inst_value = high * 256 + low;
    set_pc(res, pc.wrapping_add(INSTRUCTION_SIZE));
    let inst = Instruction::new(inst_value);
    match inst.index() {
        None => Err(CpuFault::UnknownInstruction { opcode: inst_value, pc }),
        Some(index) => {
            if execute_instruction(res, &inst.raw(), index, rnd) {
                Ok(index == DRAW)
            } else {
                Err(CpuFault::StackUnderflow { pc })
            }
        },
    }
}

/// Sets or clears key `key` on the keypad; a press wakes a CPU halted on a
/// key read and records the key for it. Keys outside the pad change nothing.
pub fn press_key(res: &mut Resources, key: usize, pressed: bool)
    requires
        old(res).wf(),
    ensures
        final(res).wf(),
        final(res)@ == press(old(res)@, key as nat, pressed),
{
    if key < KEYS_COUNT {
        res.cpu.keys.write_bitfield(BusContext::Raw, &key_field(key), if pressed { 1 } else { 0 });
        if pressed && res.cpu.halted {
            res.cpu.halted = false;
            res.cpu.halted_wake_key = Some(key as u8);
        }
        assert(res@ =~= press(old(res)@, key as nat, pressed));
    }
}

} // verus!
