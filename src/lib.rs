//! A CHIP-8 virtual machine: storage, clocks, instruction engine and the
//! controllers that advance them frame by frame.
pub mod storage;
pub mod register;
pub mod memory;
pub mod clock_state;
pub mod instruction;
pub mod resources;
pub mod execution;
pub mod engine;
pub mod controller;
pub mod keypad;

use vstd::prelude::*;

use crate::clock_state::{fraction, produced, whole_ticks};
use crate::controller::cpu::Cpu;
use crate::controller::spu::{sound_events, Spu};
use crate::controller::timer::{delay_events, Timer};
use crate::controller::{ControllerEvent, CoreEvent};
use crate::engine::press_key;
use crate::execution::{fits_all, press, run_events, videos, CpuFault};
use crate::memory::store_slice;
use crate::resources::{Machine, Resources, KEYS_COUNT, MEMORY_SIZE, PROGRAM_START};
use crate::storage::BusContext;

verus! {

/// Where the font glyphs are stored.
pub const FONT_START: usize = 0;

/// The sixteen 5-byte glyphs of the hexadecimal digits 0-F.
pub open spec fn font_set() -> Seq<u8> {
    seq![
        0xF0u8, 0x90, 0x90, 0x90, 0xF0,
        0x20, 0x60, 0x20, 0x20, 0x70,
        0xF0, 0x10, 0xF0, 0x80, 0xF0,
        0xF0, 0x10, 0xF0, 0x10, 0xF0,
        0x90, 0x90, 0xF0, 0x10, 0x10,
        0xF0, 0x80, 0xF0, 0x10, 0xF0,
        0xF0, 0x80, 0xF0, 0x90, 0xF0,
        0xF0, 0x10, 0x20, 0x40, 0x40,
        0xF0, 0x90, 0xF0, 0x90, 0xF0,
        0xF0, 0x90, 0xF0, 0x10, 0xF0,
        0xF0, 0x90, 0xF0, 0x90, 0x90,
        0xE0, 0x90, 0xE0, 0x90, 0xE0,
        0xF0, 0x80, 0x80, 0x80, 0xF0,
        0xE0, 0x90, 0x90, 0x90, 0xE0,
        0xF0, 0x80, 0xF0, 0x80, 0xF0,
        0xF0, 0x80, 0xF0, 0x80, 0x80,
    ]
}

/// The part of a program image that fits in memory after the program start.
pub open spec fn loaded_rom(rom: Seq<u8>) -> Seq<u8> {
    if rom.len() <= MEMORY_SIZE - PROGRAM_START {
        rom
    } else {
        rom.subrange(0, MEMORY_SIZE - PROGRAM_START)
    }
}

/// Memory after a reset: the font, then the program image at the program
/// start, zero elsewhere.
pub open spec fn initial_memory(rom: Seq<u8>) -> Seq<u8> {
    store_slice(
        store_slice(Seq::new(MEMORY_SIZE as nat, |_a: int| 0u8), FONT_START as int, font_set()),
        PROGRAM_START as int,
        loaded_rom(rom),
    )
}

/// The machine after a reset.
pub open spec fn initial_machine(rom: Seq<u8>) -> Machine {
    Machine {
        mem: initial_memory(rom),
        v: Seq::new(16, |_k: int| 0u8),
        pc: PROGRAM_START,
        i: 0,
        stack: Seq::empty(),
        keys: 0,
        halted: false,
        wake_key: None,
        fb: Seq::new(crate::resources::PIXEL_COUNT as nat, |_p: int| false),
        sound: 0,
        sound_flag: false,
        delay: 0,
    }
}

/// Whole ticks owed to a clock holding `clock` after `time_us` microseconds
/// at `speed_hz` scaled by `bias` thousandths.
pub open spec fn ticks_owed(clock: nat, time_us: u32, speed_hz: u64, bias: u16) -> u64 {
    whole_ticks(produced(clock, time_us as nat, (speed_hz * bias) as nat)) as u64
}

/// What such a clock keeps once the owed ticks are taken.
pub open spec fn clock_left(clock: nat, time_us: u32, speed_hz: u64, bias: u16) -> nat {
    fraction(produced(clock, time_us as nat, (speed_hz * bias) as nat))
}

/// Errors surfaced by the core.
#[derive(Debug, Clone, Copy, PartialEq, Eq, Structural)]
pub enum CoreError {
    /// The core has not been reset yet.
    NotInitialised,
    /// A key index outside the keypad.
    InvalidKey(usize),
    /// The CPU stopped on a fault.
    Cpu(CpuFault),
}

/// Settings of a core.
pub struct Config {
    /// Root of the workspace: configuration, dumps and the like.
    pub workspace_path: String,
    /// Emulated time of one frame, in microseconds.
    pub time_delta_us: u32,
    /// CPU clock bias, in thousandths of the nominal rate.
    pub cpu_bias: u16,
    /// Sound clock bias, in thousandths of the nominal rate.
    pub spu_bias: u16,
    /// Delay-timer clock bias, in thousandths of the nominal rate.
    pub timer_bias: u16,
}

impl Config {
    /// A 20 ms frame and every clock at its nominal rate.
    pub fn default_config() -> (r: Config)
        ensures
            r.workspace_path@ == "./workspace/"@,
            r.time_delta_us == 20000,
            r.cpu_bias == 1000,
            r.spu_bias == 1000,
            r.timer_bias == 1000,
    {
        Config {
            workspace_path: String::from_str("./workspace/"),
            time_delta_us: 20000,
            cpu_bias: 1000,
            spu_bias: 1000,
            timer_bias: 1000,
        }
    }
}

/// The machine and the controllers that advance it.
pub struct Core {
    pub config: Config,
    /// `None` until the first reset.
    pub resources: Option<Resources>,
    pub cpu: Cpu,
    pub spu: Spu,
    pub timer: Timer,
}

impl Core {
    pub open spec fn wf(&self) -> bool {
        &&& self.cpu.wf()
        &&& self.spu.wf()
        &&& self.timer.wf()
        &&& self.resources matches Some(res) ==> res.wf()
    }

    /// Creates a core, with the given settings or the defaults. It holds no
    /// machine until `reset`.
    pub fn new(config: Option<Config>) -> (r: Core)
        ensures
            r.wf(),
            r.resources is None,
            r.cpu.queue().len() == 0,
            r.spu.queue().len() == 0,
            r.timer.queue().len() == 0,
            config matches Some(c) ==> r.config == c,
            config is None ==> r.config.workspace_path@ == "./workspace/"@
                && r.config.time_delta_us == 20000 && r.config.cpu_bias == 1000
                && r.config.spu_bias == 1000 && r.config.timer_bias == 1000,
    {
        let config = match config {
            Some(c) => c,
            None => Config::default_config(),
        };
        Core { config, resources: None, cpu: Cpu::new(), spu: Spu::new(), timer: Timer::new() }
    }

    /// Starts a new machine: zeroed registers, the font at the start of
    /// memory, and `rom` from the program start on, cut to what fits. The
    /// controllers start afresh.
    pub fn reset(&mut self, rom: &[u8])
        ensures
            final(self).wf(),
            final(self).resources matches Some(res) && res@ == initial_machine(rom@),
            final(self).cpu.queue().len() == 0 && final(self).cpu.clock() == 0,
            final(self).spu.queue().len() == 0 && final(self).spu.clock() == 0,
            final(self).timer.queue().len() == 0 && final(self).timer.clock() == 0,
            final(self).config == old(self).config,
    {
        let mut res = Resources::new();
        load_font_set(&mut res);
        load_rom(&mut res, rom);
        assert(res@ =~= initial_machine(rom@));
        self.resources = Some(res);
        self.cpu = Cpu::new();
        self.spu = Spu::new();
        self.timer = Timer::new();
    }

    /// Sets or clears a key on the keypad. A press wakes a CPU halted on a key
    /// read, which takes the key on its next cycle.
    pub fn set_key(&mut self, key: usize, pressed: bool) -> (r: Result<(), CoreError>)
        requires
            old(self).wf(),
        ensures
            final(self).wf(),
            key >= KEYS_COUNT ==> r == Err::<(), CoreError>(CoreError::InvalidKey(key)),
            key < KEYS_COUNT && old(self).resources is None ==> r == Err::<(), CoreError>(
                CoreError::NotInitialised,
            ),
            r is Ok <==> key < KEYS_COUNT && old(self).resources is Some,
            r is Ok ==> (final(self).resources matches Some(res) && res@ == press(
                old(self).resources.unwrap()@,
                key as nat,
                pressed,
            )),
            r is Err ==> final(self).resources == old(self).resources,
            final(self).cpu == old(self).cpu,
            final(self).spu == old(self).spu,
            final(self).timer == old(self).timer,
            final(self).config == old(self).config,
    {
        if key >= KEYS_COUNT {
            return Err(CoreError::InvalidKey(key));
        }
        match &mut self.resources {
            None => Err(CoreError::NotInitialised),
            Some(res) => {
                press_key(res, key, pressed);
                Ok(())
            },
        }
    }

    /// Advances the machine by one frame: each controller is sent the whole
    /// ticks owed for the frame's time, then the CPU, sound and timer
    /// controllers handle their queues in that order. Returns the host
    /// notifications raised, in order: a CPU fault stops the frame.
    pub fn run(&mut self) -> (r: Result<Vec<CoreEvent>, CoreError>)
        requires
            old(self).wf(),
        ensures
            final(self).wf(),
            final(self).config == old(self).config,
            old(self).resources is None ==> r == Err::<Vec<CoreEvent>, CoreError>(
                CoreError::NotInitialised,
            ) && *final(self) == *old(self),
            old(self).resources matches Some(res0) ==> {
                let t = old(self).config.time_delta_us;
                let cpu_events = old(self).cpu.queue().push(
                    ControllerEvent::Tick(
                        ticks_owed(
                            old(self).cpu.clock(),
                            t,
                            crate::controller::cpu::CLOCK_SPEED_HZ,
                            old(self).config.cpu_bias,
                        ),
                    ),
                );
                let spu_events = old(self).spu.queue().push(
                    ControllerEvent::Tick(
                        ticks_owed(
                            old(self).spu.clock(),
                            t,
                            crate::controller::spu::CLOCK_SPEED_HZ,
                            old(self).config.spu_bias,
                        ),
                    ),
                );
                let timer_events = old(self).timer.queue().push(
                    ControllerEvent::Tick(
                        ticks_owed(
                            old(self).timer.clock(),
                            t,
                            crate::controller::timer::CLOCK_SPEED_HZ,
                            old(self).config.timer_bias,
                        ),
                    ),
                );
                &&& final(self).cpu.clock() == clock_left(
                    old(self).cpu.clock(),
                    t,
                    crate::controller::cpu::CLOCK_SPEED_HZ,
                    old(self).config.cpu_bias,
                )
                &&& final(self).cpu.queue().len() == 0
                &&& final(self).resources matches Some(res) && exists|rss: Seq<Seq<u8>>|
                    {
                        let (after_cpu, draws, fault) = #[trigger] run_events(
                            res0@,
                            cpu_events,
                            rss,
                        );
                        let (after_sound, sounds) = sound_events(after_cpu, spu_events);
                        &&& fits_all(cpu_events, rss)
                        &&& fault matches Some(f) ==> (r == Err::<Vec<CoreEvent>, CoreError>(
                            CoreError::Cpu(f),
                        ) && res@ == after_cpu)
                        &&& fault is None ==> (r matches Ok(notes) && notes@ == videos(draws)
                            + sounds) && res@ == delay_events(after_sound, timer_events)
                            && final(self).spu.queue().len() == 0
                            && final(self).timer.queue().len() == 0 && final(self).spu.clock()
                            == clock_left(
                            old(self).spu.clock(),
                            t,
                            crate::controller::spu::CLOCK_SPEED_HZ,
                            old(self).config.spu_bias,
                        ) && final(self).timer.clock() == clock_left(
                            old(self).timer.clock(),
                            t,
                            crate::controller::timer::CLOCK_SPEED_HZ,
                            old(self).config.timer_bias,
                        )
                    }
            },
    {
        let mut res = match self.resources.take() {
            None => {
                return Err(CoreError::NotInitialised);
            },
            Some(res) => res,
        };
        let t = self.config.time_delta_us;
        self.cpu.gen_tick_event(t, self.config.cpu_bias);
        self.spu.gen_tick_event(t, self.config.spu_bias);
        self.timer.gen_tick_event(t, self.config.timer_bias);
        let mut notes: Vec<CoreEvent> = Vec::new();
        let ghost res0 = res@;
        let ghost cpu_events = self.cpu.queue();
        let outcome = self.cpu.run(&mut res, &mut notes);
        let ghost rss = choose|rss: Seq<Seq<u8>>|
            {
                let (after, draws, fault) = #[trigger] run_events(res0, cpu_events, rss);
                &&& fits_all(cpu_events, rss)
                &&& res@ == after
                &&& notes@ == Seq::<CoreEvent>::empty() + videos(draws)
                &&& outcome == match fault {
                    None => Ok::<(), CpuFault>(()),
                    Some(f) => Err(f),
                }
            };
        let ghost draws = run_events(res0, cpu_events, rss).1;
        assert(notes@ =~= videos(draws));
        match outcome {
            Err(fault) => {
                assert(res0 == old(self).resources.unwrap()@);
                assert(cpu_events == old(self).cpu.queue().push(
                    ControllerEvent::Tick(
                        ticks_owed(
                            old(self).cpu.clock(),
                            t,
                            crate::controller::cpu::CLOCK_SPEED_HZ,
                            old(self).config.cpu_bias,
                        ),
                    ),
                ));
                assert(fits_all(cpu_events, rss));
                assert(run_events(res0, cpu_events, rss).2 == Some(fault));
                self.resources = Some(res);
                return Err(CoreError::Cpu(fault));
            },
            Ok(()) => {},
        }
        assert(res0 == old(self).resources.unwrap()@);
        assert(cpu_events == old(self).cpu.queue().push(
            ControllerEvent::Tick(
                ticks_owed(
                    old(self).cpu.clock(),
                    t,
                    crate::controller::cpu::CLOCK_SPEED_HZ,
                    old(self).config.cpu_bias,
                ),
            ),
        ));
        self.spu.run(&mut res, &mut notes);
        self.timer.run(&mut res);
        self.resources = Some(res);
        Ok(notes)
    }

    /// A copy of the whole memory block.
    pub fn dump_memory(&self) -> (r: Result<Vec<u8>, CoreError>)
        ensures
            self.resources is None ==> r == Err::<Vec<u8>, CoreError>(CoreError::NotInitialised),
            self.resources matches Some(res) ==> r matches Ok(bytes) && bytes@ == res.memory@,
    {
        match &self.resources {
            None => Err(CoreError::NotInitialised),
            Some(res) => Ok(res.memory.to_bytes()),
        }
    }
}

/// Writes the font glyphs at the start of memory.
fn load_font_set(res: &mut Resources)
    requires
        old(res).wf(),
    ensures
        final(res).wf(),
        final(res)@ == (Machine {
            mem: store_slice(old(res)@.mem, FONT_START as int, font_set()),
            ..old(res)@
        }),
{
    let font: Vec<u8> = vec![
        0xF0, 0x90, 0x90, 0x90, 0xF0,
        0x20, 0x60, 0x20, 0x20, 0x70,
        0xF0, 0x10, 0xF0, 0x80, 0xF0,
        0xF0, 0x10, 0xF0, 0x10, 0xF0,
        0x90, 0x90, 0xF0, 0x10, 0x10,
        0xF0, 0x80, 0xF0, 0x10, 0xF0,
        0xF0, 0x80, 0xF0, 0x90, 0xF0,
        0xF0, 0x10, 0x20, 0x40, 0x40,
        0xF0, 0x90, 0xF0, 0x90, 0xF0,
        0xF0, 0x90, 0xF0, 0x10, 0xF0,
        0xF0, 0x90, 0xF0, 0x90, 0x90,
        0xE0, 0x90, 0xE0, 0x90, 0xE0,
        0xF0, 0x80, 0x80, 0x80, 0xF0,
        0xE0, 0x90, 0x90, 0x90, 0xE0,
        0xF0, 0x80, 0xF0, 0x80, 0xF0,
        0xF0, 0x80, 0xF0, 0x80, 0x80,
    ];
    assert(font@ =~= font_set());
    res.memory.write_slice(BusContext::Raw, FONT_START, font.as_slice());
    assert(res@ =~= (Machine {
        mem: store_slice(old(res)@.mem, FONT_START as int, font_set()),
        ..old(res)@
    }));
}

/// Copies a program image in at the program start, cut to what fits.
fn load_rom(res: &mut Resources, rom: &[u8])
    requires
        old(res).wf(),
    ensures
        final(res).wf(),
        final(res)@ == (Machine {
            mem: store_slice(old(res)@.mem, PROGRAM_START as int, loaded_rom(rom@)),
            ..old(res)@
        }),
{
    let room = MEMORY_SIZE - PROGRAM_START as usize;
    let count = if rom.len() <= room {
        rom.len()
    } else {
        room
    };
    let image = slice_prefix(rom, count);
    res.memory.write_slice(BusContext::Raw, PROGRAM_START as usize, image.as_slice());
    assert(res@ =~= (Machine {
        mem: store_slice(old(res)@.mem, PROGRAM_START as int, loaded_rom(rom@)),
        ..old(res)@
    }));
}

/// The first `count` bytes of `bytes`.
fn slice_prefix(bytes: &[u8], count: usize) -> (r: Vec<u8>)
    requires
        count <= bytes@.len(),
    ensures
        r@ == bytes@.subrange(0, count as int),
{
    let mut r: Vec<u8> = Vec::new();
    let mut k: usize = 0;
    while k < count
        invariant
            k <= count,
            count <= bytes@.len(),
            r@ == bytes@.subrange(0, k as int),
        decreases count - k,
    {
        r.push(bytes[k]);
        k = k + 1;
        assert(r@ =~= bytes@.subrange(0, k as int));
    }
    r
}

} // verus!
