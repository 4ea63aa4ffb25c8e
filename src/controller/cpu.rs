//! The CPU controller: its clock, its event queue, and the runs of cycles
//! that tick events ask for.
use vstd::prelude::*;

use crate::clock_state::{fraction, produced, whole_ticks, ClockState, TICK_SCALE};
use crate::controller::{ControllerEvent, CoreEvent};
use crate::engine::{execute_cycle, press_key};
use crate::execution::{
    event_outcome, fits, fits_all, lemma_cycles_stopped, lemma_events_stopped, run_cycles,
    run_events, videos, CpuFault,
};
use crate::instruction::{lookup, RawInstruction, RAND};
use crate::resources::{Resources, MEMORY_SIZE};
use crate::storage::BusContext;

verus! {

/// Relies on `rand::random` (`thread_rng().gen()`): a byte drawn from the
/// thread-local generator; nothing is known of its value.
#[verifier::external_body]
fn random_byte() -> (r: u8) {
    rand::random::<u8>()
}

/// Whether the word at the program counter is a `rand` instruction, the one
/// instruction that uses a random byte.
fn next_is_rand(res: &Resources) -> bool
    requires
        res.wf(),
{
    let pc = res.cpu.pc.read(BusContext::Raw) as usize;
    let high = res.memory.read(BusContext::Raw, pc % MEMORY_SIZE) as u16;
    let low = res.memory.read(BusContext::Raw, (pc + 1) % MEMORY_SIZE) as u16;
    lookup(RawInstruction::new(high * 256 + low)) == Some(RAND)
}

/// Runs up to `amount` cycles, stopping early where the CPU halts or faults.
fn run_ticks(
    res: &mut Resources,
    notes: &mut Vec<CoreEvent>,
    amount: u64,
) -> (r: Result<(), CpuFault>)
    requires
        old(res).wf(),
    ensures
        final(res).wf(),
        exists|rs: Seq<u8>|
            {
                let (after, draws, fault) = #[trigger] run_cycles(old(res)@, rs);
                &&& rs.len() == amount
                &&& final(res)@ == after
                &&& final(notes)@ == old(notes)@ + videos(draws)
                &&& r == match fault {
                    None => Ok::<(), CpuFault>(()),
                    Some(f) => Err(f),
                }
            },
{
    let ghost m = old(res)@;
    let ghost mut rs: Seq<u8> = Seq::empty();
    let ghost mut draws: nat = 0;
    let mut done: u64 = 0;
    while done < amount && !res.cpu.halted
        invariant
            m == old(res)@,
            res.wf(),
            done <= amount,
            rs.len() == done,
            run_cycles(m, rs) == (res@, draws, None::<CpuFault>),
            notes@ == old(notes)@ + videos(draws),
        decreases amount - done,
    {
        let rnd = if next_is_rand(res) {
            random_byte()
        } else {
            0
        };
        let outcome = execute_cycle(res, rnd);
        proof {
            assert(rs.push(rnd).drop_last() =~= rs);
            rs = rs.push(rnd);
        }
        match outcome {
            Ok(drew) => {
                if drew {
                    notes.push(CoreEvent::Video);
                    proof {
                        assert(notes@ =~= old(notes)@ + videos(draws + 1));
                        draws = draws + 1;
                    }
                }
            },
            Err(fault) => {
                proof {
                    let full = rs + Seq::new((amount - done - 1) as nat, |_k: int| 0u8);
                    assert(full.subrange(0, rs.len() as int) =~= rs);
                    lemma_cycles_stopped(m, full, rs.len() as int);
                    assert(run_cycles(m, full) == (res@, draws, Some(fault)));
                }
                return Err(fault);
            },
        }
        done = done + 1;
    }
    proof {
        let full = rs + Seq::new((amount - done) as nat, |_k: int| 0u8);
        assert(full.subrange(0, rs.len() as int) =~= rs);
        if done < amount {
            lemma_cycles_stopped(m, full, rs.len() as int);
        } else {
            assert(full =~= rs);
        }
        assert(run_cycles(m, full) == (res@, draws, None::<CpuFault>));
    }
    Ok(())
}

/// Nominal CPU clock rate, in hertz.
pub const CLOCK_SPEED_HZ: u64 = 500;

/// The CPU controller: its clock and its event queue.
pub struct Cpu {
    clock_state: ClockState,
    events: Vec<ControllerEvent>,
}

impl Cpu {
    /// Events waiting, oldest first.
    pub closed spec fn queue(&self) -> Seq<ControllerEvent> {
        self.events@
    }

    /// The clock's accumulated time, in billionths of a tick.
    pub closed spec fn clock(&self) -> nat {
        self.clock_state.pending()
    }

    /// The clock holds less than one tick.
    pub open spec fn wf(&self) -> bool {
        self.clock() < TICK_SCALE
    }

    pub fn new() -> (r: Cpu)
        ensures
            r.wf(),
            r.queue().len() == 0,
            r.clock() == 0,
    {
        Cpu { clock_state: ClockState::new(), events: Vec::new() }
    }

    /// Sends an event to the back of the event queue.
    pub fn send_event(&mut self, event: ControllerEvent)
        ensures
            final(self).queue() == old(self).queue().push(event),
            final(self).clock() == old(self).clock(),
    {
        self.events.push(event);
    }

    /// Queues the whole ticks owed for `time_delta_us` microseconds at the
    /// nominal rate scaled by `bias_permille` thousandths.
    pub fn gen_tick_event(&mut self, time_delta_us: u32, bias_permille: u16)
        requires
            old(self).wf(),
        ensures
            final(self).wf(),
            ({
                let acc = produced(
                    old(self).clock(),
                    time_delta_us as nat,
                    (CLOCK_SPEED_HZ * bias_permille) as nat,
                );
                &&& final(self).queue() == old(self).queue().push(
                    ControllerEvent::Tick(whole_ticks(acc) as u64),
                )
                &&& final(self).clock() == fraction(acc)
            }),
    {
        let rate = CLOCK_SPEED_HZ * bias_permille as u64;
        assert(time_delta_us as u64 * rate <= 0xFFFF_FFFFu64 * 500 * 0xFFFF) by (nonlinear_arith)
            requires
                rate == 500 * bias_permille,
                bias_permille <= 0xFFFF,
                time_delta_us <= 0xFFFF_FFFFu32,
        ;
        self.clock_state.produce(time_delta_us as u64, rate);
        let ticks = self.clock_state.consume_whole();
        self.events.push(ControllerEvent::Tick(ticks));
    }

    /// Handles one event. A tick event runs that many cycles, fewer where the
    /// CPU halts or faults; an input event sets the key and wakes a CPU
    /// halted on a key read.
    pub fn step(
        &mut self,
        res: &mut Resources,
        notes: &mut Vec<CoreEvent>,
        event: ControllerEvent,
    ) -> (r: Result<(), CpuFault>)
        requires
            old(res).wf(),
        ensures
            final(res).wf(),
            final(self).queue() == old(self).queue(),
            final(self).clock() == old(self).clock(),
            exists|rs: Seq<u8>|
                {
                    let (after, draws, fault) = #[trigger] event_outcome(old(res)@, event, rs);
                    &&& fits(event, rs)
                    &&& final(res)@ == after
                    &&& final(notes)@ == old(notes)@ + videos(draws)
                    &&& r == match fault {
                        None => Ok::<(), CpuFault>(()),
                        Some(f) => Err(f),
                    }
                },
    {
        match event {
            ControllerEvent::Tick(amount) => {
                let r = run_ticks(res, notes, amount);
                proof {
                    let rs = choose|rs: Seq<u8>|
                        {
                            let (after, draws, fault) = #[trigger] run_cycles(old(res)@, rs);
                            &&& rs.len() == amount
                            &&& res@ == after
                            &&& notes@ == old(notes)@ + videos(draws)
                            &&& r == match fault {
                                None => Ok::<(), CpuFault>(()),
                                Some(f) => Err(f),
                            }
                        };
                    assert(event_outcome(old(res)@, event, rs) == run_cycles(old(res)@, rs));
                }
                return r;
            },
            ControllerEvent::Input(key, pressed) => {
                press_key(res, key, pressed);
                proof {
                    assert(notes@ =~= old(notes)@ + videos(0));
                    assert(event_outcome(old(res)@, event, Seq::empty()) == (
                        res@,
                        0nat,
                        None::<CpuFault>,
                    ));
                }
            },
        }
        Ok(())
    }

    /// Handles every queued event in order, stopping at the first fault. The
    /// queue is left empty.
    pub fn run(&mut self, res: &mut Resources, notes: &mut Vec<CoreEvent>) -> (r: Result<
        (),
        CpuFault,
    >)
        requires
            old(res).wf(),
        ensures
            final(res).wf(),
            final(self).queue().len() == 0,
            final(self).clock() == old(self).clock(),
            exists|rss: Seq<Seq<u8>>|
                {
                    let (after, draws, fault) = #[trigger] run_events(
                        old(res)@,
                        old(self).queue(),
                        rss,
                    );
                    &&& fits_all(old(self).queue(), rss)
                    &&& final(res)@ == after
                    &&& final(notes)@ == old(notes)@ + videos(draws)
                    &&& r == match fault {
                        None => Ok::<(), CpuFault>(()),
                        Some(f) => Err(f),
                    }
                },
    {
        let mut events: Vec<ControllerEvent> = Vec::new();
        std::mem::swap(&mut events, &mut self.events);
        let ghost evs = events@;
        let ghost m = old(res)@;
        let ghost mut rss: Seq<Seq<u8>> = Seq::empty();
        let ghost mut draws: nat = 0;
        let mut k: usize = 0;
        while k < events.len()
            invariant
                m == old(res)@,
                events@ == evs,
                evs == old(self).queue(),
                self.queue().len() == 0,
                self.clock() == old(self).clock(),
                res.wf(),
                k <= evs.len(),
                fits_all(evs.subrange(0, k as int), rss),
                run_events(m, evs.subrange(0, k as int), rss) == (res@, draws, None::<CpuFault>),
                notes@ == old(notes)@ + videos(draws),
            decreases evs.len() - k,
        {
            let ghost before = res@;
            let ghost notes_before = notes@;
            let outcome = self.step(res, notes, events[k]);
            let ghost rs = choose|rs: Seq<u8>|
                {
                    let (after, d, fault) = #[trigger] event_outcome(before, evs[k as int], rs);
                    &&& fits(evs[k as int], rs)
                    &&& res@ == after
                    &&& notes@ == notes_before + videos(d)
                    &&& outcome == match fault {
                        None => Ok::<(), CpuFault>(()),
                        Some(f) => Err(f),
                    }
                };
            let ghost d = event_outcome(before, evs[k as int], rs).1;
            proof {
                assert(evs.subrange(0, k + 1).drop_last() =~= evs.subrange(0, k as int));
                assert(rss.push(rs).drop_last() =~= rss);
                assert(videos(draws) + videos(d) =~= videos(draws + d));
                rss = rss.push(rs);
                draws = draws + d;
            }
            match outcome {
                Ok(()) => {},
                Err(fault) => {
                    proof {
                        let rest = Seq::new(
                            (evs.len() - k - 1) as nat,
                            |j: int| padding(evs[k + 1 + j]),
                        );
                        let full = rss + rest;
                        assert(evs.subrange(0, k + 1) =~= evs.subrange(0, k + 1));
                        assert(full.subrange(0, k + 1) =~= rss);
                        assert(evs.subrange(0, evs.len() as int) =~= evs);
                        lemma_events_stopped(m, evs, full, k + 1);
                        assert(fits_all(evs, full)) by {
                            assert forall|j: int| 0 <= j < evs.len() implies fits(
                                #[trigger] evs[j],
                                full[j],
                            ) by {
                                if j > k {
                                    assert(full[j] == padding(evs[j]));
                                } else {
                                    assert(evs.subrange(0, k + 1)[j] == evs[j]);
                                }
                            }
                        }
                    }
                    return Err(fault);
                },
            }
            k = k + 1;
        }
        proof {
            assert(evs.subrange(0, evs.len() as int) =~= evs);
        }
        Ok(())
    }
}

/// Random bytes that fit an event.
spec fn padding(event: ControllerEvent) -> Seq<u8> {
    match event {
        ControllerEvent::Tick(n) => Seq::new(n as nat, |_k: int| 0u8),
        ControllerEvent::Input(_, _) => Seq::empty(),
    }
}

} // verus!
