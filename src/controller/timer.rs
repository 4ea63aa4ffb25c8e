//! The delay-timer controller: counts the delay counter down.
use vstd::prelude::*;

use crate::clock_state::{fraction, produced, whole_ticks, ClockState, TICK_SCALE};
use crate::controller::ControllerEvent;
use crate::resources::{Machine, Resources};
use crate::storage::BusContext;

verus! {

/// Nominal delay-timer clock rate, in hertz.
pub const CLOCK_SPEED_HZ: u64 = 60;

/// The delay counter after `n` ticks: one down per tick, stopping at zero.
pub open spec fn delay_after(delay: u8, n: nat) -> u8 {
    if n >= delay {
        0
    } else {
        (delay - n) as u8
    }
}

/// One event handled: tick events count the delay counter down; input events
/// change nothing.
pub open spec fn delay_event(m: Machine, event: ControllerEvent) -> Machine {
    match event {
        ControllerEvent::Tick(n) => Machine { delay: delay_after(m.delay, n as nat), ..m },
        ControllerEvent::Input(_, _) => m,
    }
}

/// The events handled in order.
pub open spec fn delay_events(m: Machine, events: Seq<ControllerEvent>) -> Machine
    decreases events.len(),
{
    if events.len() == 0 {
        m
    } else {
        delay_event(delay_events(m, events.drop_last()), events.last())
    }
}

/// The delay-timer controller: its clock and its event queue.
pub struct Timer {
    clock_state: ClockState,
    events: Vec<ControllerEvent>,
}

impl Timer {
    /// Events waiting, oldest first.
    pub closed spec fn queue(&self) -> Seq<ControllerEvent> {
        self.events@
    }

    /// The clock's accumulated time, in billionths of a tick.
    pub closed spec fn clock(&self) -> nat {
        self.clock_state.pending()
    }

    /// The clock holds less than one tick.
    pub open spec fn wf(&self) -> bool {
        self.clock() < TICK_SCALE
    }

    pub fn new() -> (r: Timer)
        ensures
            r.wf(),
            r.queue().len() == 0,
            r.clock() == 0,
    {
        Timer { clock_state: ClockState::new(), events: Vec::new() }
    }

    /// Sends an event to the back of the event queue.
    pub fn send_event(&mut self, event: ControllerEvent)
        ensures
            final(self).queue() == old(self).queue().push(event),
            final(self).clock() == old(self).clock(),
    {
        self.events.push(event);
    }

    /// Queues the whole ticks owed for `time_delta_us` microseconds at the
    /// nominal rate scaled by `bias_permille` thousandths.
    pub fn gen_tick_event(&mut self, time_delta_us: u32, bias_permille: u16)
        requires
            old(self).wf(),
        ensures
            final(self).wf(),
            ({
                let acc = produced(
                    old(self).clock(),
                    time_delta_us as nat,
                    (CLOCK_SPEED_HZ * bias_permille) as nat,
                );
                &&& final(self).queue() == old(self).queue().push(
                    ControllerEvent::Tick(whole_ticks(acc) as u64),
                )
                &&& final(self).clock() == fraction(acc)
            }),
    {
        let rate = CLOCK_SPEED_HZ * bias_permille as u64;
        assert(time_delta_us as u64 * rate <= 0xFFFF_FFFFu64 * 60 * 0xFFFF) by (nonlinear_arith)
            requires
                rate == 60 * bias_permille,
                bias_permille <= 0xFFFF,
                time_delta_us <= 0xFFFF_FFFFu32,
        ;
        self.clock_state.produce(time_delta_us as u64, rate);
        let ticks = self.clock_state.consume_whole();
        self.events.push(ControllerEvent::Tick(ticks));
    }

    /// Handles one event: a tick event runs that many timer ticks; input
    /// events are not for this controller and change nothing.
    pub fn step(&mut self, res: &mut Resources, event: ControllerEvent)
        requires
            old(res).wf(),
        ensures
            final(res).wf(),
            final(self).queue() == old(self).queue(),
            final(self).clock() == old(self).clock(),
            final(res)@ == delay_event(old(res)@, event),
    {
        match event {
            ControllerEvent::Tick(amount) => {
                let ghost m = old(res)@;
                let mut done: u64 = 0;
                while done < amount
                    invariant
                        m == old(res)@,
                        res.wf(),
                        done <= amount,
                        res@ == (Machine { delay: delay_after(m.delay, done as nat), ..m }),
                    decreases amount - done,
                {
                    let counter = res.timer.counter.read(BusContext::Raw);
                    if counter > 0 {
                        res.timer.counter.write(BusContext::Raw, counter - 1);
                    }
                    done = done + 1;
                    assert(res@ =~= (Machine { delay: delay_after(m.delay, done as nat), ..m }));
                }
            },
            ControllerEvent::Input(_, _) => {},
        }
    }

    /// Handles every queued event in order. The queue is left empty.
    pub fn run(&mut self, res: &mut Resources)
        requires
            old(res).wf(),
        ensures
            final(res).wf(),
            final(self).queue().len() == 0,
            final(self).clock() == old(self).clock(),
            final(res)@ == delay_events(old(res)@, old(self).queue()),
    {
        let mut events: Vec<ControllerEvent> = Vec::new();
        std::mem::swap(&mut events, &mut self.events);
        let ghost evs = events@;
        let mut k: usize = 0;
        while k < events.len()
            invariant
                events@ == evs,
                evs == old(self).queue(),
                self.queue().len() == 0,
                self.clock() == old(self).clock(),
                res.wf(),
                k <= evs.len(),
                res@ == delay_events(old(res)@, evs.subrange(0, k as int)),
            decreases evs.len() - k,
        {
            self.step(res, events[k]);
            assert(evs.subrange(0, k + 1).drop_last() =~= evs.subrange(0, k as int));
            k = k + 1;
        }
        assert(evs.subrange(0, evs.len() as int) =~= evs);
    }
}

} // verus!
