//! The machine state: memory, CPU registers, framebuffer, keypad and the two
//! counters.
use vstd::prelude::*;

use crate::memory::WordMemory;
use crate::register::{read_field16, write_field16, BitfieldParam, DwordRegister, WordRegister};
use crate::storage::BusContext;

verus! {

/// Size of the memory block in bytes.
pub const MEMORY_SIZE: usize = 0x1000;

/// Where programs are loaded and where execution starts.
pub const PROGRAM_START: u16 = 0x200;

/// Number of keys on the keypad.
pub const KEYS_COUNT: usize = 16;

/// Framebuffer width in pixels.
pub const HORIZONTAL_RES: usize = 64;

/// Framebuffer height in pixels.
pub const VERTICAL_RES: usize = 32;

/// Number of pixels in the framebuffer.
pub const PIXEL_COUNT: usize = 2048;

/// Key `k` is held down in keypad mask `keys`.
pub open spec fn key_down(keys: u16, k: nat) -> bool {
    k < 16 && read_field16(keys, k as u32, 1) == 1
}

/// Keypad mask `keys` with key `k` set to `pressed`.
pub open spec fn with_key(keys: u16, k: nat, pressed: bool) -> u16 {
    write_field16(keys, k as u32, 1, if pressed { 1 } else { 0 })
}

/// A write of `new` over `old` crosses the zero/non-zero boundary.
pub open spec fn crosses_zero(old: u8, new: u8) -> bool {
    (old == 0) != (new == 0)
}

/// The keypad field of key `k`.
pub fn key_field(k: usize) -> (r: BitfieldParam)
    requires
        k < KEYS_COUNT,
    ensures
        r.start == k,
        r.length == 1,
        r.fits(16),
{
    BitfieldParam::new(k as u32, 1)
}

/// A framebuffer with every pixel clear.
fn blank_framebuffer() -> (r: Vec<bool>)
    ensures
        r@ == Seq::new(PIXEL_COUNT as nat, |_p: int| false),
{
    let mut r: Vec<bool> = Vec::new();
    let mut k: usize = 0;
    while k < PIXEL_COUNT
        invariant
            k <= PIXEL_COUNT,
            r@ == Seq::new(k as nat, |_p: int| false),
        decreases PIXEL_COUNT - k,
    {
        r.push(false);
        k = k + 1;
        assert(r@ =~= Seq::new(k as nat, |_p: int| false));
    }
    r
}

/// CPU registers, call stack, keypad and framebuffer.
pub struct CPU {
    pub pc: DwordRegister,
    /// General-purpose registers V0..VF; VF doubles as the flag register.
    pub gpr: [WordRegister; 16],
    /// Index register.
    pub i: DwordRegister,
    /// Return addresses.
    pub stack: Vec<u16>,
    /// One bit per key, set while the key is down.
    pub keys: DwordRegister,
    /// Halted on a blocking key read.
    pub halted: bool,
    /// The key that woke the CPU, not yet taken by the key read.
    pub halted_wake_key: Option<u8>,
    /// Row-major pixels, `HORIZONTAL_RES` per row.
    pub framebuffer: Vec<bool>,
}

impl CPU {
    pub fn new() -> (r: CPU)
        ensures
            r.pc@ == PROGRAM_START,
            forall|k: int| 0 <= k < 16 ==> #[trigger] r.gpr[k]@ == 0,
            r.i@ == 0,
            r.stack@.len() == 0,
            r.keys@ == 0,
            !r.halted,
            r.halted_wake_key is None,
            r.framebuffer@ == Seq::new(PIXEL_COUNT as nat, |_p: int| false),
    {
        CPU {
            pc: DwordRegister::from(PROGRAM_START),
            gpr: [WordRegister::new(); 16],
            i: DwordRegister::new(),
            stack: Vec::new(),
            keys: DwordRegister::new(),
            halted: false,
            halted_wake_key: None,
            framebuffer: blank_framebuffer(),
        }
    }
}

/// Framebuffer of the display.
pub struct GPU {
    pub framebuffer: Vec<bool>,
}

impl GPU {
    pub fn new() -> (r: GPU)
        ensures
            r.framebuffer@ == Seq::new(PIXEL_COUNT as nat, |_p: int| false),
    {
        GPU { framebuffer: blank_framebuffer() }
    }
}

/// Keypad state.
pub struct Input {
    pub keys: DwordRegister,
}

impl Input {
    pub fn new() -> (r: Input)
        ensures
            r.keys@ == 0,
    {
        Input { keys: DwordRegister::new() }
    }
}

/// Sound count register. Holds a flag that records whether a write crossed
/// the zero/non-zero boundary since the flag was last read.
#[derive(Debug)]
pub struct CountRegister {
    value: u8,
    sound_flag: bool,
}

impl CountRegister {
    pub closed spec fn value(&self) -> u8 {
        self.value
    }

    pub closed spec fn flag(&self) -> bool {
        self.sound_flag
    }

    pub fn new() -> (r: CountRegister)
        ensures
            r.value() == 0,
            !r.flag(),
    {
        CountRegister { value: 0, sound_flag: false }
    }

    pub fn read(&self, ctx: BusContext) -> (r: u8)
        ensures
            r == self.value(),
    {
        self.value
    }

    /// Store `value`, raising the flag where the write crosses zero.
    pub fn write(&mut self, ctx: BusContext, value: u8)
        ensures
            final(self).value() == value,
            final(self).flag() == (old(self).flag() || crosses_zero(old(self).value(), value)),
    {
        if (self.value == 0 && value > 0) || (self.value > 0 && value == 0) {
            self.sound_flag = true;
        }
        self.value = value;
    }

    /// Returns the flag and clears it.
    pub fn is_sound_flagged(&mut self) -> (r: bool)
        ensures
            r == old(self).flag(),
            !final(self).flag(),
            final(self).value() == old(self).value(),
    {
        let flagged = self.sound_flag;
        self.sound_flag = false;
        flagged
    }
}

/// Sound resources.
#[derive(Debug)]
pub struct Spu {
    pub counter: CountRegister,
}

impl Spu {
    pub fn new() -> (r: Spu)
        ensures
            r.counter.value() == 0,
            !r.counter.flag(),
    {
        Spu { counter: CountRegister::new() }
    }
}

/// Delay timer resources.
#[derive(Debug)]
pub struct Timer {
    pub counter: WordRegister,
}

impl Timer {
    pub fn new() -> (r: Timer)
        ensures
            r.counter@ == 0,
    {
        Timer { counter: WordRegister::new() }
    }
}

/// The state of the whole machine, as values.
#[verifier::ext_equal]
pub struct Machine {
    pub mem: Seq<u8>,
    pub v: Seq<u8>,
    pub pc: u16,
    pub i: u16,
    pub stack: Seq<u16>,
    pub keys: u16,
    pub halted: bool,
    pub wake_key: Option<u8>,
    pub fb: Seq<bool>,
    pub sound: u8,
    pub sound_flag: bool,
    pub delay: u8,
}

impl Machine {
    /// Sizes of memory, register file and framebuffer.
    pub open spec fn wf(self) -> bool {
        &&& self.mem.len() == MEMORY_SIZE
        &&& self.v.len() == 16
        &&& self.fb.len() == PIXEL_COUNT
    }
}

/// The machine state aggregate.
pub struct Resources {
    pub memory: WordMemory,
    pub cpu: CPU,
    pub spu: Spu,
    pub timer: Timer,
}

impl View for Resources {
    type V = Machine;

    open spec fn view(&self) -> Machine {
        Machine {
            mem: self.memory@,
            v: Seq::new(16, |k: int| self.cpu.gpr[k]@),
            pc: self.cpu.pc@,
            i: self.cpu.i@,
            stack: self.cpu.stack@,
            keys: self.cpu.keys@,
            halted: self.cpu.halted,
            wake_key: self.cpu.halted_wake_key,
            fb: self.cpu.framebuffer@,
            sound: self.spu.counter.value(),
            sound_flag: self.spu.counter.flag(),
            delay: self.timer.counter@,
        }
    }
}

impl Resources {
    pub open spec fn wf(&self) -> bool {
        self@.wf()
    }

    /// Zeroed memory and registers, PC at the program start.
    pub fn new() -> (r: Resources)
        ensures
            r.wf(),
            r@.mem == Seq::new(MEMORY_SIZE as nat, |_a: int| 0u8),
            r@.v == Seq::new(16, |_k: int| 0u8),
            r@.pc == PROGRAM_START,
            r@.i == 0,
            r@.stack.len() == 0,
            r@.keys == 0,
            !r@.halted,
            r@.wake_key is None,
            r@.fb == Seq::new(PIXEL_COUNT as nat, |_p: int| false),
            r@.sound == 0,
            !r@.sound_flag,
            r@.delay == 0,
    {
        let r = Resources {
            memory: WordMemory::new(MEMORY_SIZE),
            cpu: CPU::new(),
            spu: Spu::new(),
            timer: Timer::new(),
        };
        assert(r@.v =~= Seq::new(16, |_k: int| 0u8));
        r
    }
}

} // verus!
