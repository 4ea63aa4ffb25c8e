use chip8_rs::controller::spu::Spu;
use chip8_rs::controller::timer::Timer;
use chip8_rs::controller::{ControllerEvent, CoreEvent};
use chip8_rs::resources::{CountRegister, Resources};
use chip8_rs::storage::BusContext;

#[test]
fn count_register_zero_to_zero_no_flag() {
    let mut c = CountRegister::new();
    c.write(BusContext::Raw, 0);
    assert!(!c.is_sound_flagged());
}

#[test]
fn count_register_zero_to_nonzero_flags_once() {
    let mut c = CountRegister::new();
    c.write(BusContext::Raw, 5);
    assert!(c.is_sound_flagged());
    assert!(!c.is_sound_flagged());
    assert_eq!(c.read(BusContext::Raw), 5);
}

#[test]
fn count_register_nonzero_to_nonzero_no_flag() {
    let mut c = CountRegister::new();
    c.write(BusContext::Raw, 5);
    assert!(c.is_sound_flagged());
    c.write(BusContext::Raw, 3);
    assert!(!c.is_sound_flagged());
}

#[test]
fn count_register_nonzero_to_zero_flags() {
    let mut c = CountRegister::new();
    c.write(BusContext::Raw, 5);
    c.is_sound_flagged();
    c.write(BusContext::Raw, 0);
    assert!(c.is_sound_flagged());
    assert!(!c.is_sound_flagged());
}

#[test]
fn sound_counts_down_and_reports() {
    let mut res = Resources::new();
    res.spu.counter.write(BusContext::Raw, 2);
    let mut spu = Spu::new();
    let mut notes = Vec::new();
    spu.step(&mut res, &mut notes, ControllerEvent::Tick(1));
    assert_eq!(res.spu.counter.read(BusContext::Raw), 1);
    assert_eq!(notes, vec![CoreEvent::Audio(true)]);
    spu.step(&mut res, &mut notes, ControllerEvent::Tick(3));
    assert_eq!(res.spu.counter.read(BusContext::Raw), 0);
    assert_eq!(notes, vec![CoreEvent::Audio(true), CoreEvent::Audio(false)]);
    spu.step(&mut res, &mut notes, ControllerEvent::Input(1, true));
    assert_eq!(notes.len(), 2);
}

#[test]
fn sound_queue_runs_in_order() {
    let mut res = Resources::new();
    res.spu.counter.write(BusContext::Raw, 1);
    res.spu.counter.is_sound_flagged();
    let mut spu = Spu::new();
    let mut notes = Vec::new();
    // 20 ms at 60 Hz is 1.2 ticks.
    spu.gen_tick_event(20_000, 1000);
    spu.run(&mut res, &mut notes);
    assert_eq!(res.spu.counter.read(BusContext::Raw), 0);
    assert_eq!(notes, vec![CoreEvent::Audio(false)]);
}

#[test]
fn timer_counts_down_to_zero() {
    let mut res = Resources::new();
    res.timer.counter.write(BusContext::Raw, 5);
    let mut timer = Timer::new();
    timer.step(&mut res, ControllerEvent::Tick(3));
    assert_eq!(res.timer.counter.read(BusContext::Raw), 2);
    timer.step(&mut res, ControllerEvent::Tick(10));
    assert_eq!(res.timer.counter.read(BusContext::Raw), 0);
    timer.step(&mut res, ControllerEvent::Input(0, true));
    assert_eq!(res.timer.counter.read(BusContext::Raw), 0);
}

#[test]
fn timer_ticks_follow_clock() {
    let mut res = Resources::new();
    res.timer.counter.write(BusContext::Raw, 100);
    let mut timer = Timer::new();
    // One second at 60 Hz, in 20 ms frames.
    for _ in 0..50 {
        timer.gen_tick_event(20_000, 1000);
    }
    timer.run(&mut res);
    assert_eq!(res.timer.counter.read(BusContext::Raw), 40);
}
