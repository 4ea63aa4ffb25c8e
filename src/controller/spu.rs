//! The sound controller: counts the sound counter down and reports when sound
//! goes on or off.
use vstd::prelude::*;

use crate::clock_state::{fraction, produced, whole_ticks, ClockState, TICK_SCALE};
use crate::controller::{ControllerEvent, CoreEvent};
use crate::resources::{crosses_zero, Machine, Resources};
use crate::storage::BusContext;

verus! {

/// Nominal sound clock rate, in hertz.
pub const CLOCK_SPEED_HZ: u64 = 60;

/// One sound tick on counter `value` with transition flag `flagged`: the
/// counter steps down unless it is zero; where the flag is then up it is
/// cleared and a notification says whether sound is on.
pub open spec fn sound_tick(value: u8, flagged: bool) -> (u8, bool, Seq<CoreEvent>) {
    let next: u8 = if value > 0 {
        (value - 1) as u8
    } else {
        value
    };
    if flagged || crosses_zero(value, next) {
        (next, false, seq![CoreEvent::Audio(next > 0)])
    } else {
        (next, false, Seq::empty())
    }
}

/// `n` sound ticks: the counter, the flag, and the notifications in order.
pub open spec fn sound_ticks(value: u8, flagged: bool, n: nat) -> (u8, bool, Seq<CoreEvent>)
    decreases n,
{
    if n == 0 {
        (value, flagged, Seq::empty())
    } else {
        let (v1, f1, e1) = sound_ticks(value, flagged, (n - 1) as nat);
        let (v2, f2, e2) = sound_tick(v1, f1);
        (v2, f2, e1 + e2)
    }
}

/// The machine after `n` sound ticks.
pub open spec fn after_sound_ticks(m: Machine, n: nat) -> Machine {
    Machine {
        sound: sound_ticks(m.sound, m.sound_flag, n).0,
        sound_flag: sound_ticks(m.sound, m.sound_flag, n).1,
        ..m
    }
}

/// One event handled: the machine and the notifications.
pub open spec fn sound_event(m: Machine, event: ControllerEvent) -> (Machine, Seq<CoreEvent>) {
    match event {
        ControllerEvent::Tick(n) => (
            after_sound_ticks(m, n as nat),
            sound_ticks(m.sound, m.sound_flag, n as nat).2,
        ),
        ControllerEvent::Input(_, _) => (m, Seq::empty()),
    }
}

/// The events handled in order: the machine and the notifications.
pub open spec fn sound_events(m: Machine, events: Seq<ControllerEvent>) -> (Machine, Seq<CoreEvent>)
    decreases events.len(),
{
    if events.len() == 0 {
        (m, Seq::empty())
    } else {
        let (before, notes) = sound_events(m, events.drop_last());
        let (after, more) = sound_event(before, events.last());
        (after, notes + more)
    }
}

/// The sound controller: its clock and its event queue.
pub struct Spu {
    clock_state: ClockState,
    events: Vec<ControllerEvent>,
}

impl Spu {
    /// Events waiting, oldest first.
    pub closed spec fn queue(&self) -> Seq<ControllerEvent> {
        self.events@
    }

    /// The clock's accumulated time, in billionths of a tick.
    pub closed spec fn clock(&self) -> nat {
        self.clock_state.pending()
    }

    /// The clock holds less than one tick.
    pub open spec fn wf(&self) -> bool {
        self.clock() < TICK_SCALE
    }

    pub fn new() -> (r: Spu)
        ensures
            r.wf(),
            r.queue().len() == 0,
            r.clock() == 0,
    {
        Spu { clock_state: ClockState::new(), events: Vec::new() }
    }

    /// Sends an event to the back of the event queue.
    pub fn send_event(&mut self, event: ControllerEvent)
        ensures
            final(self).queue() == old(self).queue().push(event),
            final(self).clock() == old(self).clock(),
    {
        self.events.push(event);
    }

    /// Queues the whole ticks owed for `time_delta_us` microseconds at the
    /// nominal rate scaled by `bias_permille` thousandths.
    pub fn gen_tick_event(&mut self, time_delta_us: u32, bias_permille: u16)
        requires
            old(self).wf(),
        ensures
            final(self).wf(),
            ({
                let acc = produced(
                    old(self).clock(),
                    time_delta_us as nat,
                    (CLOCK_SPEED_HZ * bias_permille) as nat,
                );
                &&& final(self).queue() == old(self).queue().push(
                    ControllerEvent::Tick(whole_ticks(acc) as u64),
                )
                &&& final(self).clock() == fraction(acc)
            }),
    {
        let rate = CLOCK_SPEED_HZ * bias_permille as u64;
        assert(time_delta_us as u64 * rate <= 0xFFFF_FFFFu64 * 60 * 0xFFFF) by (nonlinear_arith)
            requires
                rate == 60 * bias_permille,
                bias_permille <= 0xFFFF,
                time_delta_us <= 0xFFFF_FFFFu32,
        ;
        self.clock_state.produce(time_delta_us as u64, rate);
        let ticks = self.clock_state.consume_whole();
        self.events.push(ControllerEvent::Tick(ticks));
    }

    /// Handles one event: a tick event runs that many sound ticks; input
    /// events are not for this controller and change nothing.
    pub fn step(
        &mut self,
        res: &mut Resources,
        notes: &mut Vec<CoreEvent>,
        event: ControllerEvent,
    )
        requires
            old(res).wf(),
        ensures
            final(res).wf(),
            final(self).queue() == old(self).queue(),
            final(self).clock() == old(self).clock(),
            ({
                let (after, more) = sound_event(old(res)@, event);
                &&& final(res)@ == after
                &&& final(notes)@ == old(notes)@ + more
            }),
    {
        match event {
            ControllerEvent::Tick(amount) => {
                let ghost m = old(res)@;
                let mut done: u64 = 0;
                while done < amount
                    invariant
                        m == old(res)@,
                        res.wf(),
                        done <= amount,
                        res@ == after_sound_ticks(m, done as nat),
                        notes@ == old(notes)@ + sound_ticks(m.sound, m.sound_flag, done as nat).2,
                    decreases amount - done,
                {
                    let counter = &mut res.spu.counter;
                    let value = counter.read(BusContext::Raw);
                    if value > 0 {
                        counter.write(BusContext::Raw, value - 1);
                    }
                    if counter.is_sound_flagged() {
                        let on = counter.read(BusContext::Raw) > 0;
                        notes.push(CoreEvent::Audio(on));
                    }
                    done = done + 1;
                    proof {
                        assert(notes@ =~= old(notes)@ + sound_ticks(m.sound, m.sound_flag, done as nat).2);
                        assert(res@ =~= after_sound_ticks(m, done as nat));
                    }
                }
                assert(old(notes)@ + Seq::<CoreEvent>::empty() =~= old(notes)@);
            },
            ControllerEvent::Input(_, _) => {
                assert(old(notes)@ + Seq::<CoreEvent>::empty() =~= old(notes)@);
            },
        }
    }

    /// Handles every queued event in order. The queue is left empty.
    pub fn run(&mut self, res: &mut Resources, notes: &mut Vec<CoreEvent>)
        requires
            old(res).wf(),
        ensures
            final(res).wf(),
            final(self).queue().len() == 0,
            final(self).clock() == old(self).clock(),
            ({
                let (after, more) = sound_events(old(res)@, old(self).queue());
                &&& final(res)@ == after
                &&& final(notes)@ == old(notes)@ + more
            }),
    {
        let mut events: Vec<ControllerEvent> = Vec::new();
        std::mem::swap(&mut events, &mut self.events);
        let ghost evs = events@;
        let mut k: usize = 0;
        assert(old(notes)@ + Seq::<CoreEvent>::empty() =~= old(notes)@);
        while k < events.len()
            invariant
                events@ == evs,
                evs == old(self).queue(),
                self.queue().len() == 0,
                self.clock() == old(self).clock(),
                res.wf(),
                k <= evs.len(),
                res@ == sound_events(old(res)@, evs.subrange(0, k as int)).0,
                notes@ == old(notes)@ + sound_events(old(res)@, evs.subrange(0, k as int)).1,
            decreases evs.len() - k,
        {
            self.step(res, notes, events[k]);
            proof {
                assert(evs.subrange(0, k + 1).drop_last() =~= evs.subrange(0, k as int));
                assert(notes@ =~= old(notes)@ + sound_events(old(res)@, evs.subrange(0, k + 1)).1);
            }
            k = k + 1;
        }
        assert(evs.subrange(0, evs.len() as int) =~= evs);
    }
}

} // verus!
