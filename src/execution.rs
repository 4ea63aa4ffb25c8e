//! What each instruction, each CPU cycle and each run of cycles does to the
//! machine, stated over `Machine`.
//!
//! Addresses into memory wrap around the 4 KiB block; the program counter and
//! the index register wrap around 16 bits; drawing wraps around the screen
//! edges.
use vstd::prelude::*;

use crate::instruction::{
    address_of, decode, immediate_of, low_nibble_of, x_of, y_of, ADD, ADDI, ADD_I, AND, BCD,
    CALL, CALL_RCA1802, CLS, DRAW, JUMP, JUMPR, KEYR, MOV, MOVI, MOVI_I, OR, RAND, RET, RSUB,
    SAVE, SHL1, SHR1, SIFEQ, SIFEQI, SIFKEQ, SIFKNE, SIFNE, SIFNEI, SOUNDW, SPRITE_I, SUB,
    TIMERR, TIMERW, XOR,
};
use crate::controller::{ControllerEvent, CoreEvent};
use crate::resources::{
    crosses_zero, key_down, with_key, Machine, HORIZONTAL_RES, MEMORY_SIZE, PIXEL_COUNT,
    VERTICAL_RES,
};

verus! {

/// Bytes taken by one instruction.
pub const INSTRUCTION_SIZE: u16 = 2;

/// Bytes of one font glyph.
pub const SPRITE_SIZE: u16 = 5;

/// A fault that stops the CPU.
#[derive(Debug, Clone, Copy, PartialEq, Eq, Structural)]
pub enum CpuFault {
    /// The word fetched at `pc` encodes no instruction.
    UnknownInstruction { opcode: u16, pc: u16 },
    /// A return, fetched at `pc`, with an empty call stack.
    StackUnderflow { pc: u16 },
}

/// `n` cut to 16 bits.
pub open spec fn wrap16(n: int) -> u16 {
    (n % 0x10000) as u16
}

/// `n` as an address into memory.
pub open spec fn mem_addr(n: int) -> int {
    n % (MEMORY_SIZE as int)
}

/// 1 for true, 0 for false.
pub open spec fn flag(b: bool) -> u8 {
    if b {
        1
    } else {
        0
    }
}

pub open spec fn with_v(m: Machine, x: nat, value: u8) -> Machine {
    Machine { v: m.v.update(x as int, value), ..m }
}

pub open spec fn with_pc(m: Machine, pc: u16) -> Machine {
    Machine { pc, ..m }
}

/// Skips the next instruction where `cond` holds.
///
/// The key skips test `key_down`, under which a key value outside the pad is
/// never down.
pub open spec fn skip_if(m: Machine, cond: bool) -> Machine {
    if cond {
        with_pc(m, wrap16(m.pc + INSTRUCTION_SIZE))
    } else {
        m
    }
}

pub open spec fn vx(m: Machine, w: u16) -> u8 {
    m.v[x_of(w) as int]
}

pub open spec fn vy(m: Machine, w: u16) -> u8 {
    m.v[y_of(w) as int]
}

pub open spec fn spec_cls(m: Machine) -> Machine {
    Machine { fb: Seq::new(PIXEL_COUNT as nat, |_p: int| false), ..m }
}

/// `None` where the call stack is empty.
pub open spec fn spec_ret(m: Machine) -> Option<Machine> {
    if m.stack.len() == 0 {
        None
    } else {
        Some(Machine { pc: m.stack.last(), stack: m.stack.drop_last(), ..m })
    }
}

pub open spec fn spec_call(m: Machine, w: u16) -> Machine {
    Machine { stack: m.stack.push(m.pc), pc: address_of(w), ..m }
}

/// Adds the immediate to Vx, wrapping; VF is left alone.
pub open spec fn spec_addi(m: Machine, w: u16) -> Machine {
    with_v(m, x_of(w), ((vx(m, w) + immediate_of(w)) % 256) as u8)
}

pub open spec fn spec_add(m: Machine, w: u16) -> Machine {
    let sum = vx(m, w) + vy(m, w);
    with_v(with_v(m, x_of(w), (sum % 256) as u8), 15, flag(sum > 255))
}

pub open spec fn spec_sub(m: Machine, w: u16) -> Machine {
    let diff = vx(m, w) - vy(m, w);
    with_v(with_v(m, x_of(w), (diff % 256) as u8), 15, flag(vx(m, w) >= vy(m, w)))
}

pub open spec fn spec_rsub(m: Machine, w: u16) -> Machine {
    let diff = vy(m, w) - vx(m, w);
    with_v(with_v(m, x_of(w), (diff % 256) as u8), 15, flag(vy(m, w) >= vx(m, w)))
}

pub open spec fn spec_shr1(m: Machine, w: u16) -> Machine {
    with_v(with_v(m, x_of(w), vx(m, w) / 2), 15, vx(m, w) % 2)
}

pub open spec fn spec_shl1(m: Machine, w: u16) -> Machine {
    with_v(with_v(m, x_of(w), ((vx(m, w) * 2) % 256) as u8), 15, vx(m, w) / 128)
}

/// The sprite of a draw covers pixel `p` with a set bit: `p` lies `dy` rows
/// below and `dx` columns right of the draw's corner (around the screen
/// edges), `dy` is below the sprite's height, `dx` below 8, and bit `7 - dx`
/// of the sprite's row `dy` is set.
pub open spec fn sprite_bit(m: Machine, w: u16, p: int) -> bool {
    let dx = (p % (HORIZONTAL_RES as int) - vx(m, w)) % (HORIZONTAL_RES as int);
    let dy = (p / (HORIZONTAL_RES as int) - vy(m, w)) % (VERTICAL_RES as int);
    &&& dx < 8
    &&& dy < low_nibble_of(w)
    &&& m.mem[mem_addr(m.i + dy)] & (0x80u8 >> (dx as u8)) != 0
}

/// A set pixel is covered by a set sprite bit.
pub open spec fn collides(m: Machine, w: u16) -> bool {
    exists|p: int| 0 <= p < PIXEL_COUNT && m.fb[p] && #[trigger] sprite_bit(m, w, p)
}

pub open spec fn spec_draw(m: Machine, w: u16) -> Machine {
    Machine {
        fb: Seq::new(PIXEL_COUNT as nat, |p: int| m.fb[p] != sprite_bit(m, w, p)),
        v: m.v.update(15, flag(collides(m, w))),
        ..m
    }
}

pub open spec fn spec_keyr(m: Machine, w: u16) -> Machine {
    match m.wake_key {
        Some(k) => Machine { v: m.v.update(x_of(w) as int, k), wake_key: None, ..m },
        None => Machine { pc: wrap16(m.pc - INSTRUCTION_SIZE), halted: true, ..m },
    }
}

pub open spec fn spec_soundw(m: Machine, w: u16) -> Machine {
    Machine {
        sound: vx(m, w),
        sound_flag: m.sound_flag || crosses_zero(m.sound, vx(m, w)),
        ..m
    }
}

pub open spec fn spec_bcd(m: Machine, w: u16) -> Machine {
    let value = vx(m, w);
    Machine {
        mem: m.mem.update(mem_addr(m.i as int), value / 100).update(
            mem_addr(m.i + 1),
            (value % 100) / 10,
        ).update(mem_addr(m.i + 2), value % 10),
        ..m
    }
}

/// Registers V0..=Vx stored from the index register on.
pub open spec fn spec_save(m: Machine, w: u16) -> Machine {
    Machine {
        mem: Seq::new(
            MEMORY_SIZE as nat,
            |a: int|
                if mem_addr(a - m.i) <= x_of(w) {
                    m.v[mem_addr(a - m.i)]
                } else {
                    m.mem[a]
                },
        ),
        i: wrap16(m.i + x_of(w) + 1),
        ..m
    }
}

/// Registers V0..=Vx loaded from the index register on.
pub open spec fn spec_load(m: Machine, w: u16) -> Machine {
    Machine {
        v: Seq::new(
            16,
            |k: int|
                if k <= x_of(w) {
                    m.mem[mem_addr(m.i + k)]
                } else {
                    m.v[k]
                },
        ),
        i: wrap16(m.i + x_of(w) + 1),
        ..m
    }
}

/// The effect of instruction `index`, encoded by `w`, with `rnd` as the
/// random byte; `None` where the instruction faults.
#[verifier::opaque]
pub open spec fn execute(m: Machine, index: usize, w: u16, rnd: u8) -> Option<Machine> {
    let kk = immediate_of(w);
    if index == CLS {
        Some(spec_cls(m))
    } else if index == RET {
        spec_ret(m)
    } else if index == CALL_RCA1802 {
        Some(m)
    } else if index == JUMP {
        Some(with_pc(m, address_of(w)))
    } else if index == CALL {
        Some(spec_call(m, w))
    } else if index == SIFEQI {
        Some(skip_if(m, vx(m, w) == kk))
    } else if index == SIFNEI {
        Some(skip_if(m, vx(m, w) != kk))
    } else if index == SIFEQ {
        Some(skip_if(m, vx(m, w) == vy(m, w)))
    } else if index == MOVI {
        Some(with_v(m, x_of(w), kk))
    } else if index == ADDI {
        Some(spec_addi(m, w))
    } else if index == MOV {
        Some(with_v(m, x_of(w), vy(m, w)))
    } else if index == OR {
        Some(with_v(m, x_of(w), vx(m, w) | vy(m, w)))
    } else if index == AND {
        Some(with_v(m, x_of(w), vx(m, w) & vy(m, w)))
    } else if index == XOR {
        Some(with_v(m, x_of(w), vx(m, w) ^ vy(m, w)))
    } else if index == ADD {
        Some(spec_add(m, w))
    } else if index == SUB {
        Some(spec_sub(m, w))
    } else if index == SHR1 {
        Some(spec_shr1(m, w))
    } else if index == RSUB {
        Some(spec_rsub(m, w))
    } else if index == SHL1 {
        Some(spec_shl1(m, w))
    } else if index == SIFNE {
        Some(skip_if(m, vx(m, w) != vy(m, w)))
    } else if index == MOVI_I {
        Some(Machine { i: address_of(w), ..m })
    } else if index == JUMPR {
        Some(with_pc(m, (m.v[0] + address_of(w)) as u16))
    } else if index == RAND {
        Some(with_v(m, x_of(w), rnd & kk))
    } else if index == DRAW {
        Some(spec_draw(m, w))
    } else if index == SIFKEQ {
        Some(skip_if(m, key_down(m.keys, vx(m, w) as nat)))
    } else if index == SIFKNE {
        Some(skip_if(m, !key_down(m.keys, vx(m, w) as nat)))
    } else if index == TIMERR {
        Some(with_v(m, x_of(w), m.delay))
    } else if index == KEYR {
        Some(spec_keyr(m, w))
    } else if index == TIMERW {
        Some(Machine { delay: vx(m, w), ..m })
    } else if index == SOUNDW {
        Some(spec_soundw(m, w))
    } else if index == ADD_I {
        Some(Machine { i: wrap16(m.i + vx(m, w)), ..m })
    } else if index == SPRITE_I {
        Some(Machine { i: (SPRITE_SIZE * vx(m, w)) as u16, ..m })
    } else if index == BCD {
        Some(spec_bcd(m, w))
    } else if index == SAVE {
        Some(spec_save(m, w))
    } else {
        Some(spec_load(m, w))
    }
}

/// The instruction word at the program counter, big endian.
pub open spec fn fetched(m: Machine) -> u16 {
    (m.mem[mem_addr(m.pc as int)] as int * 256 + m.mem[mem_addr(m.pc + 1)] as int) as u16
}

/// One CPU cycle with `rnd` as the random byte: the new machine, whether the
/// framebuffer was drawn, and the fault, if any. A halted CPU does nothing.
#[verifier::opaque]
pub open spec fn cycle(m: Machine, rnd: u8) -> (Machine, bool, Option<CpuFault>) {
    if m.halted {
        (m, false, None)
    } else {
        let w = fetched(m);
        let next = with_pc(m, wrap16(m.pc + INSTRUCTION_SIZE));
        match decode(w) {
            None => (next, false, Some(CpuFault::UnknownInstruction { opcode: w, pc: m.pc })),
            Some(index) => match execute(next, index, w, rnd) {
                None => (next, false, Some(CpuFault::StackUnderflow { pc: m.pc })),
                Some(after) => (after, index == DRAW, None),
            },
        }
    }
}

/// One cycle per random byte of `rs`, stopping at the first fault: the new
/// machine, the number of draws, and the fault, if any.
pub open spec fn run_cycles(m: Machine, rs: Seq<u8>) -> (Machine, nat, Option<CpuFault>)
    decreases rs.len(),
{
    if rs.len() == 0 {
        (m, 0, None)
    } else {
        let (before, draws, fault) = run_cycles(m, rs.drop_last());
        if fault is Some {
            (before, draws, fault)
        } else {
            let (after, drew, fault2) = cycle(before, rs.last());
            (after, if drew {
                draws + 1
            } else {
                draws
            }, fault2)
        }
    }
}

/// The keypad after key `k` goes up or down; a press wakes a CPU halted on a
/// key read and hands it the key. Keys outside the pad change nothing.
pub open spec fn press(m: Machine, k: nat, pressed: bool) -> Machine {
    if k >= 16 {
        m
    } else if pressed && m.halted {
        Machine { keys: with_key(m.keys, k, pressed), halted: false, wake_key: Some(k as u8), ..m }
    } else {
        Machine { keys: with_key(m.keys, k, pressed), ..m }
    }
}


/// `a` lies `d` steps after `base`, counting modulo `n`.
pub proof fn lemma_mod_offset(base: int, d: int, a: int, n: int)
    requires
        n > 0,
        0 <= d < n,
        0 <= a < n,
    ensures
        ((a - base) % n == d) == (a == (base + d) % n),
{
    vstd::arithmetic::div_mod::lemma_fundamental_div_mod(base + d, n);
    vstd::arithmetic::div_mod::lemma_fundamental_div_mod(a - base, n);
    vstd::arithmetic::div_mod::lemma_small_mod(d as nat, n as nat);
    vstd::arithmetic::div_mod::lemma_small_mod(a as nat, n as nat);
    if a == (base + d) % n {
        let q = (base + d) / n;
        assert(n * (-q) == -(n * q)) by (nonlinear_arith);
        assert(a - base == n * (-q) + d);
        vstd::arithmetic::div_mod::lemma_mod_multiples_vanish(-q, d, n);
    }
    if (a - base) % n == d {
        let q = (a - base) / n;
        assert(n * (-q) == -(n * q)) by (nonlinear_arith);
        assert(base + d == n * (-q) + a);
        vstd::arithmetic::div_mod::lemma_mod_multiples_vanish(-q, a, n);
    }
}

/// Cutting to 16 bits keeps an address into memory.
pub proof fn lemma_mem_addr_wrap16(n: int)
    ensures
        mem_addr(wrap16(n) as int) == mem_addr(n),
{
    vstd::arithmetic::div_mod::lemma_mod_mod(n, 0x1000, 0x10);
    vstd::arithmetic::div_mod::lemma_mod_bound(n, 0x10000);
}


/// What handling one controller event does, with `rs` as the random bytes of
/// its cycles: the new machine, the number of draws, and the fault, if any.
pub open spec fn event_outcome(m: Machine, event: ControllerEvent, rs: Seq<u8>) -> (
    Machine,
    nat,
    Option<CpuFault>,
) {
    match event {
        ControllerEvent::Tick(_) => run_cycles(m, rs),
        ControllerEvent::Input(k, pressed) => (press(m, k as nat, pressed), 0, None),
    }
}

/// `rs` holds one random byte per cycle of `event`.
pub open spec fn fits(event: ControllerEvent, rs: Seq<u8>) -> bool {
    match event {
        ControllerEvent::Tick(n) => rs.len() == n,
        ControllerEvent::Input(_, _) => rs.len() == 0,
    }
}

/// `rss` holds the random bytes of each of `events`.
pub open spec fn fits_all(events: Seq<ControllerEvent>, rss: Seq<Seq<u8>>) -> bool {
    &&& rss.len() == events.len()
    &&& forall|k: int| 0 <= k < events.len() ==> fits(#[trigger] events[k], rss[k])
}

/// The events handled in order, stopping at the first fault.
pub open spec fn run_events(m: Machine, events: Seq<ControllerEvent>, rss: Seq<Seq<u8>>) -> (
    Machine,
    nat,
    Option<CpuFault>,
)
    decreases events.len(),
{
    if events.len() == 0 {
        (m, 0, None)
    } else {
        let (before, draws, fault) = run_events(m, events.drop_last(), rss.drop_last());
        if fault is Some {
            (before, draws, fault)
        } else {
            let (after, more, fault2) = event_outcome(before, events.last(), rss.last());
            (after, draws + more, fault2)
        }
    }
}

/// One video notification per draw.
pub open spec fn videos(n: nat) -> Seq<CoreEvent> {
    Seq::new(n, |_k: int| CoreEvent::Video)
}

/// A halted CPU stays as it is, however many cycles run.
pub proof fn lemma_halted_stays(m: Machine, rs: Seq<u8>)
    requires
        m.halted,
    ensures
        run_cycles(m, rs) == (m, 0nat, None::<CpuFault>),
    decreases rs.len(),
{
    if rs.len() > 0 {
        lemma_halted_stays(m, rs.drop_last());
        reveal(cycle);
    }
}

/// Once a run of cycles has faulted or halted, further cycles change nothing.
pub proof fn lemma_cycles_stopped(m: Machine, rs: Seq<u8>, j: int)
    requires
        0 <= j <= rs.len(),
        run_cycles(m, rs.subrange(0, j)).2 is Some || run_cycles(m, rs.subrange(0, j)).0.halted,
    ensures
        run_cycles(m, rs) == run_cycles(m, rs.subrange(0, j)),
    decreases rs.len(),
{
    reveal(cycle);
    if j == rs.len() {
        assert(rs.subrange(0, j) =~= rs);
    } else {
        assert(rs.drop_last().subrange(0, j) =~= rs.subrange(0, j));
        lemma_cycles_stopped(m, rs.drop_last(), j);
    }
}

/// Once a run of events has faulted, further events change nothing.
pub proof fn lemma_events_stopped(
    m: Machine,
    events: Seq<ControllerEvent>,
    rss: Seq<Seq<u8>>,
    j: int,
)
    requires
        0 <= j <= events.len(),
        events.len() == rss.len(),
        run_events(m, events.subrange(0, j), rss.subrange(0, j)).2 is Some,
    ensures
        run_events(m, events, rss) == run_events(m, events.subrange(0, j), rss.subrange(0, j)),
    decreases events.len(),
{
    if j == events.len() {
        assert(events.subrange(0, j) =~= events);
        assert(rss.subrange(0, j) =~= rss);
    } else {
        assert(events.drop_last().subrange(0, j) =~= events.subrange(0, j));
        assert(rss.drop_last().subrange(0, j) =~= rss.subrange(0, j));
        lemma_events_stopped(m, events.drop_last(), rss.drop_last(), j);
    }
}

/// A key read with no key recorded halts the CPU with the program counter
/// back on the key read, so that it runs again once the CPU wakes.
pub proof fn lemma_keyr_blocks(m: Machine, rnd: u8)
    requires
        m.wf(),
        !m.halted,
        m.wake_key is None,
        decode(fetched(m)) == Some(KEYR),
    ensures
        cycle(m, rnd).0 == (Machine { halted: true, ..m }),
        cycle(m, rnd).2 is None,
{
    reveal(cycle);
    reveal(execute);
    vstd::arithmetic::div_mod::lemma_mod_bound(m.pc + 2, 0x10000);
    assert(cycle(m, rnd).0 =~= (Machine { halted: true, ..m }));
}

/// A key press wakes a CPU halted on a key read: the next cycle puts the key
/// into the key read's register, once, and moves on to the next instruction.
pub proof fn lemma_keyr_wakes(m: Machine, k: nat, rnd: u8)
    requires
        m.wf(),
        m.halted,
        m.wake_key is None,
        k < 16,
        decode(fetched(m)) == Some(KEYR),
    ensures
        ({
            let after = cycle(press(m, k, true), rnd).0;
            &&& cycle(press(m, k, true), rnd).2 is None
            &&& !after.halted
            &&& after.v[x_of(fetched(m)) as int] == k
            &&& after.wake_key is None
            &&& after.pc == wrap16(m.pc + INSTRUCTION_SIZE)
        }),
{
    reveal(cycle);
    reveal(execute);
    let woke = press(m, k, true);
    assert(fetched(woke) == fetched(m));
}


/// Flags of the arithmetic instructions: `add` sets VF to 1 exactly when the
/// sum exceeds 255; `sub` exactly when Vx >= Vy (no borrow); `rsub` exactly
/// when Vy >= Vx; the shifts put the bit shifted out into VF. Where Vx is not
/// VF, it receives the result cut to 8 bits.
pub proof fn lemma_arith_flags(m: Machine, w: u16, rnd: u8)
    requires
        m.wf(),
    ensures
        ({
            let (a, b) = (vx(m, w) as int, vy(m, w) as int);
            let x = x_of(w) as int;
            let add = execute(m, ADD, w, rnd).unwrap();
            let sub = execute(m, SUB, w, rnd).unwrap();
            let rsub = execute(m, RSUB, w, rnd).unwrap();
            let shr = execute(m, SHR1, w, rnd).unwrap();
            let shl = execute(m, SHL1, w, rnd).unwrap();
            &&& add.v[15] == flag(a + b > 255)
            &&& sub.v[15] == flag(a >= b)
            &&& rsub.v[15] == flag(b >= a)
            &&& shr.v[15] == a % 2
            &&& shl.v[15] == a / 128
            &&& x != 15 ==> {
                &&& add.v[x] == (a + b) % 256
                &&& sub.v[x] == (a - b) % 256
                &&& rsub.v[x] == (b - a) % 256
                &&& shr.v[x] == a / 2
                &&& shl.v[x] == (a * 2) % 256
            }
        }),
{
    reveal(execute);
}

/// Drawing the same sprite twice at the same place, with VF neither of the
/// coordinate registers, leaves the framebuffer as it was.
pub proof fn lemma_draw_twice(m: Machine, w: u16, rnd: u8)
    requires
        m.wf(),
        x_of(w) != 15,
        y_of(w) != 15,
    ensures
        execute(execute(m, DRAW, w, rnd).unwrap(), DRAW, w, rnd).unwrap().fb == m.fb,
{
    reveal(execute);
    let once = spec_draw(m, w);
    assert forall|p: int| 0 <= p < PIXEL_COUNT implies sprite_bit(once, w, p) == sprite_bit(
        m,
        w,
        p,
    ) by {}
    assert(spec_draw(once, w).fb =~= m.fb);
}

/// Drawing a sprite over pixels that are all clear where its bits are set
/// leaves VF at 0; drawing it again at the same place, with VF neither of the
/// coordinate registers, sets VF to 1 whenever the sprite has a set bit on
/// the screen.
pub proof fn lemma_draw_collision(m: Machine, w: u16, rnd: u8)
    requires
        m.wf(),
        x_of(w) != 15,
        y_of(w) != 15,
        forall|p: int| 0 <= p < PIXEL_COUNT && #[trigger] sprite_bit(m, w, p) ==> !m.fb[p],
    ensures
        execute(m, DRAW, w, rnd).unwrap().v[15] == 0,
        (exists|p: int| 0 <= p < PIXEL_COUNT && #[trigger] sprite_bit(m, w, p)) ==> execute(
            execute(m, DRAW, w, rnd).unwrap(),
            DRAW,
            w,
            rnd,
        ).unwrap().v[15] == 1,
{
    reveal(execute);
    let once = spec_draw(m, w);
    assert forall|p: int| 0 <= p < PIXEL_COUNT implies sprite_bit(once, w, p) == sprite_bit(
        m,
        w,
        p,
    ) by {}
    if exists|p: int| 0 <= p < PIXEL_COUNT && #[trigger] sprite_bit(m, w, p) {
        let q = choose|p: int| 0 <= p < PIXEL_COUNT && #[trigger] sprite_bit(m, w, p);
        assert(once.fb[q] && sprite_bit(once, w, q));
        assert(collides(once, w));
    }
}

} // verus!
