use chip8_rs::controller::cpu::Cpu;
use chip8_rs::engine::{execute_cycle, execute_instruction};
use chip8_rs::controller::{ControllerEvent, CoreEvent};
use chip8_rs::execution::CpuFault;
use chip8_rs::instruction::{lookup, RawInstruction};
use chip8_rs::resources::Resources;
use chip8_rs::storage::BusContext;

fn machine(program: &[u8]) -> Resources {
    let mut res = Resources::new();
    res.memory.write_slice(BusContext::Raw, 0x200, program);
    res
}

fn v(res: &Resources, x: usize) -> u8 {
    res.cpu.gpr[x].read(BusContext::Raw)
}

fn set_v(res: &mut Resources, x: usize, value: u8) {
    res.cpu.gpr[x].write(BusContext::Raw, value);
}

fn pc(res: &Resources) -> u16 {
    res.cpu.pc.read(BusContext::Raw)
}

/// Runs one instruction word directly.
fn exec(res: &mut Resources, word: u16, rnd: u8) -> bool {
    let inst = RawInstruction::new(word);
    let index = lookup(inst).expect("known instruction");
    execute_instruction(res, &inst, index, rnd)
}

#[test]
fn add_sets_carry() {
    let mut res = machine(&[]);
    set_v(&mut res, 0xA, 0xFF);
    set_v(&mut res, 0xB, 0x01);
    assert!(exec(&mut res, 0x8AB4, 0));
    assert_eq!(v(&res, 0xA), 0x00);
    assert_eq!(v(&res, 0xF), 1);
}

#[test]
fn add_without_carry() {
    let mut res = machine(&[]);
    set_v(&mut res, 0xA, 0xFE);
    set_v(&mut res, 0xB, 0x01);
    set_v(&mut res, 0xF, 7);
    assert!(exec(&mut res, 0x8AB4, 0));
    assert_eq!(v(&res, 0xA), 0xFF);
    assert_eq!(v(&res, 0xF), 0);
}

#[test]
fn sub_flag_is_no_borrow() {
    let mut res = machine(&[]);
    set_v(&mut res, 1, 5);
    set_v(&mut res, 2, 3);
    exec(&mut res, 0x8125, 0);
    assert_eq!(v(&res, 1), 2);
    assert_eq!(v(&res, 0xF), 1);

    set_v(&mut res, 1, 3);
    set_v(&mut res, 2, 5);
    exec(&mut res, 0x8125, 0);
    assert_eq!(v(&res, 1), 254);
    assert_eq!(v(&res, 0xF), 0);

    set_v(&mut res, 1, 9);
    set_v(&mut res, 2, 9);
    exec(&mut res, 0x8125, 0);
    assert_eq!(v(&res, 1), 0);
    assert_eq!(v(&res, 0xF), 1);
}

#[test]
fn rsub_flag_is_no_borrow() {
    let mut res = machine(&[]);
    set_v(&mut res, 1, 3);
    set_v(&mut res, 2, 5);
    exec(&mut res, 0x8127, 0);
    assert_eq!(v(&res, 1), 2);
    assert_eq!(v(&res, 0xF), 1);
    set_v(&mut res, 1, 6);
    set_v(&mut res, 2, 5);
    exec(&mut res, 0x8127, 0);
    assert_eq!(v(&res, 1), 255);
    assert_eq!(v(&res, 0xF), 0);
}

#[test]
fn shifts_capture_shifted_bit() {
    let mut res = machine(&[]);
    set_v(&mut res, 3, 0x03);
    exec(&mut res, 0x8306, 0);
    assert_eq!(v(&res, 3), 0x01);
    assert_eq!(v(&res, 0xF), 1);
    set_v(&mut res, 3, 0x81);
    exec(&mut res, 0x830E, 0);
    assert_eq!(v(&res, 3), 0x02);
    assert_eq!(v(&res, 0xF), 1);
    set_v(&mut res, 3, 0x40);
    exec(&mut res, 0x830E, 0);
    assert_eq!(v(&res, 3), 0x80);
    assert_eq!(v(&res, 0xF), 0);
}

#[test]
fn flag_register_as_operand_gets_the_flag() {
    let mut res = machine(&[]);
    set_v(&mut res, 0xF, 0xFF);
    set_v(&mut res, 0x1, 0x02);
    exec(&mut res, 0x8F14, 0);
    assert_eq!(v(&res, 0xF), 1);
}

#[test]
fn addi_has_no_flag() {
    let mut res = machine(&[]);
    set_v(&mut res, 2, 0xF0);
    set_v(&mut res, 0xF, 9);
    exec(&mut res, 0x7220, 0);
    assert_eq!(v(&res, 2), 0x10);
    assert_eq!(v(&res, 0xF), 9);
}

#[test]
fn logic_ops() {
    let mut res = machine(&[]);
    set_v(&mut res, 1, 0b1100);
    set_v(&mut res, 2, 0b1010);
    exec(&mut res, 0x8121, 0);
    assert_eq!(v(&res, 1), 0b1110);
    set_v(&mut res, 1, 0b1100);
    exec(&mut res, 0x8122, 0);
    assert_eq!(v(&res, 1), 0b1000);
    set_v(&mut res, 1, 0b1100);
    exec(&mut res, 0x8123, 0);
    assert_eq!(v(&res, 1), 0b0110);
    exec(&mut res, 0x8120, 0);
    assert_eq!(v(&res, 1), 0b1010);
}

#[test]
fn rand_masks_the_random_byte() {
    let mut res = machine(&[]);
    exec(&mut res, 0xC0F0, 0xAB);
    assert_eq!(v(&res, 0), 0xA0);
}

#[test]
fn skips_advance_pc() {
    let mut res = machine(&[]);
    set_v(&mut res, 1, 0x42);
    exec(&mut res, 0x3142, 0);
    assert_eq!(pc(&res), 0x202);
    exec(&mut res, 0x4142, 0);
    assert_eq!(pc(&res), 0x202);
    exec(&mut res, 0x4143, 0);
    assert_eq!(pc(&res), 0x204);
    set_v(&mut res, 2, 0x42);
    exec(&mut res, 0x5120, 0);
    assert_eq!(pc(&res), 0x206);
    exec(&mut res, 0x9120, 0);
    assert_eq!(pc(&res), 0x206);
}

#[test]
fn key_skips() {
    let mut res = machine(&[]);
    set_v(&mut res, 1, 0x7);
    exec(&mut res, 0xE19E, 0);
    assert_eq!(pc(&res), 0x200);
    exec(&mut res, 0xE1A1, 0);
    assert_eq!(pc(&res), 0x202);
    res.cpu.keys.write(BusContext::Raw, 1 << 7);
    exec(&mut res, 0xE19E, 0);
    assert_eq!(pc(&res), 0x204);
    exec(&mut res, 0xE1A1, 0);
    assert_eq!(pc(&res), 0x204);
    // A key index outside the pad is never down.
    set_v(&mut res, 1, 0x17);
    exec(&mut res, 0xE19E, 0);
    assert_eq!(pc(&res), 0x204);
}

#[test]
fn call_and_ret() {
    let mut res = machine(&[]);
    res.cpu.pc.write(BusContext::Raw, 0x204);
    exec(&mut res, 0x2300, 0);
    assert_eq!(pc(&res), 0x300);
    assert_eq!(res.cpu.stack, vec![0x204]);
    assert!(exec(&mut res, 0x00EE, 0));
    assert_eq!(pc(&res), 0x204);
    assert!(res.cpu.stack.is_empty());
}

#[test]
fn ret_with_empty_stack_faults() {
    let mut res = machine(&[0x00, 0xEE]);
    assert!(!exec(&mut res, 0x00EE, 0));
    assert_eq!(pc(&res), 0x200);
    assert_eq!(execute_cycle(&mut res, 0), Err(CpuFault::StackUnderflow { pc: 0x200 }));
}

#[test]
fn unknown_instruction_faults() {
    let mut res = machine(&[0x60, 0x01, 0xFF, 0xFF]);
    assert_eq!(execute_cycle(&mut res, 0), Ok(false));
    assert_eq!(v(&res, 0), 1);
    assert_eq!(
        execute_cycle(&mut res, 0),
        Err(CpuFault::UnknownInstruction { opcode: 0xFFFF, pc: 0x202 })
    );
}

#[test]
fn jumps() {
    let mut res = machine(&[]);
    exec(&mut res, 0x1ABC, 0);
    assert_eq!(pc(&res), 0xABC);
    set_v(&mut res, 0, 0x10);
    exec(&mut res, 0xB300, 0);
    assert_eq!(pc(&res), 0x310);
}

#[test]
fn index_register_ops() {
    let mut res = machine(&[]);
    exec(&mut res, 0xA123, 0);
    assert_eq!(res.cpu.i.read(BusContext::Raw), 0x123);
    set_v(&mut res, 4, 0x0F);
    exec(&mut res, 0xF41E, 0);
    assert_eq!(res.cpu.i.read(BusContext::Raw), 0x132);
    exec(&mut res, 0xF429, 0);
    assert_eq!(res.cpu.i.read(BusContext::Raw), 75);
    res.cpu.i.write(BusContext::Raw, 0xFFFF);
    set_v(&mut res, 4, 2);
    exec(&mut res, 0xF41E, 0);
    assert_eq!(res.cpu.i.read(BusContext::Raw), 1);
}

#[test]
fn bcd_digits() {
    let mut res = machine(&[]);
    set_v(&mut res, 5, 123);
    res.cpu.i.write(BusContext::Raw, 0x300);
    exec(&mut res, 0xF533, 0);
    assert_eq!(res.memory.read_slice(BusContext::Raw, 0x300, 3), vec![1, 2, 3]);
    set_v(&mut res, 5, 7);
    exec(&mut res, 0xF533, 0);
    assert_eq!(res.memory.read_slice(BusContext::Raw, 0x300, 3), vec![0, 0, 7]);
}

#[test]
fn save_and_load() {
    let mut res = machine(&[]);
    for x in 0..4 {
        set_v(&mut res, x, 10 + x as u8);
    }
    res.cpu.i.write(BusContext::Raw, 0x400);
    exec(&mut res, 0xF355, 0);
    assert_eq!(res.memory.read_slice(BusContext::Raw, 0x400, 5), vec![10, 11, 12, 13, 0]);
    assert_eq!(res.cpu.i.read(BusContext::Raw), 0x404);
    for x in 0..4 {
        set_v(&mut res, x, 0);
    }
    res.cpu.i.write(BusContext::Raw, 0x401);
    exec(&mut res, 0xF265, 0);
    assert_eq!((v(&res, 0), v(&res, 1), v(&res, 2), v(&res, 3)), (11, 12, 13, 0));
    assert_eq!(res.cpu.i.read(BusContext::Raw), 0x404);
}

#[test]
fn timers_from_cpu() {
    let mut res = machine(&[]);
    set_v(&mut res, 1, 9);
    exec(&mut res, 0xF115, 0);
    assert_eq!(res.timer.counter.read(BusContext::Raw), 9);
    exec(&mut res, 0xF207, 0);
    assert_eq!(v(&res, 2), 9);
    exec(&mut res, 0xF118, 0);
    assert_eq!(res.spu.counter.read(BusContext::Raw), 9);
    assert!(res.spu.counter.is_sound_flagged());
}

#[test]
fn draw_collision_twice() {
    let mut res = machine(&[]);
    res.memory.write(BusContext::Raw, 0x300, 0xFF);
    res.cpu.i.write(BusContext::Raw, 0x300);
    set_v(&mut res, 0, 3);
    set_v(&mut res, 1, 2);
    exec(&mut res, 0xD011, 0);
    assert_eq!(v(&res, 0xF), 0);
    for p in 0..2048 {
        let on = p / 64 == 2 && (3..11).contains(&(p % 64));
        assert_eq!(res.cpu.framebuffer[p], on, "pixel {}", p);
    }
    exec(&mut res, 0xD011, 0);
    assert_eq!(v(&res, 0xF), 1);
    assert!(res.cpu.framebuffer.iter().all(|p| !*p));
}

#[test]
fn draw_partial_overlap_and_wrap() {
    let mut res = machine(&[]);
    res.memory.write_slice(BusContext::Raw, 0x300, &[0x81, 0x01]);
    res.cpu.i.write(BusContext::Raw, 0x300);
    // Corner at column 60, row 31: columns wrap to 0..4 and row 1 wraps to 0.
    set_v(&mut res, 0, 60);
    set_v(&mut res, 1, 31);
    exec(&mut res, 0xD012, 0);
    assert_eq!(v(&res, 0xF), 0);
    assert!(res.cpu.framebuffer[31 * 64 + 60]);
    assert!(res.cpu.framebuffer[31 * 64 + 3]);
    assert!(res.cpu.framebuffer[3]);
    assert_eq!(res.cpu.framebuffer.iter().filter(|p| **p).count(), 3);
    exec(&mut res, 0x00E0, 0);
    assert!(res.cpu.framebuffer.iter().all(|p| !*p));
}

#[test]
fn draw_reports_video() {
    let mut res = machine(&[0xD0, 0x01]);
    assert_eq!(execute_cycle(&mut res, 0), Ok(true));
    let mut cpu = Cpu::new();
    let mut notes = Vec::new();
    let mut res = machine(&[0xD0, 0x01, 0x60, 0x00, 0xD0, 0x01]);
    assert_eq!(cpu.step(&mut res, &mut notes, ControllerEvent::Tick(3)), Ok(()));
    assert_eq!(notes, vec![CoreEvent::Video, CoreEvent::Video]);
}

#[test]
fn keyr_blocks_until_key() {
    // keyr V5, then V6 := 1.
    let mut res = machine(&[0xF5, 0x0A, 0x66, 0x01]);
    let mut cpu = Cpu::new();
    let mut notes = Vec::new();
    cpu.step(&mut res, &mut notes, ControllerEvent::Tick(1)).unwrap();
    assert!(res.cpu.halted);
    assert_eq!(pc(&res), 0x200);
    for _ in 0..3 {
        cpu.step(&mut res, &mut notes, ControllerEvent::Tick(4)).unwrap();
        assert_eq!(pc(&res), 0x200);
        assert_eq!(v(&res, 6), 0);
    }
    cpu.step(&mut res, &mut notes, ControllerEvent::Input(0xB, true)).unwrap();
    assert!(!res.cpu.halted);
    assert_eq!(res.cpu.halted_wake_key, Some(0xB));
    cpu.step(&mut res, &mut notes, ControllerEvent::Tick(1)).unwrap();
    assert_eq!(v(&res, 5), 0xB);
    assert_eq!(pc(&res), 0x202);
    assert_eq!(res.cpu.halted_wake_key, None);
    cpu.step(&mut res, &mut notes, ControllerEvent::Tick(1)).unwrap();
    assert_eq!(v(&res, 6), 1);
    assert_eq!(pc(&res), 0x204);
}

#[test]
fn input_sets_and_clears_keys() {
    let mut res = machine(&[]);
    let mut cpu = Cpu::new();
    let mut notes = Vec::new();
    cpu.step(&mut res, &mut notes, ControllerEvent::Input(3, true)).unwrap();
    assert_eq!(res.cpu.keys.read(BusContext::Raw), 0x0008);
    assert_eq!(res.cpu.halted_wake_key, None);
    cpu.step(&mut res, &mut notes, ControllerEvent::Input(3, false)).unwrap();
    assert_eq!(res.cpu.keys.read(BusContext::Raw), 0);
    cpu.step(&mut res, &mut notes, ControllerEvent::Input(16, true)).unwrap();
    assert_eq!(res.cpu.keys.read(BusContext::Raw), 0);
}

#[test]
fn run_drains_queue_and_stops_at_fault() {
    let mut res = machine(&[0x60, 0x05, 0x00, 0xEE, 0x61, 0x01]);
    let mut cpu = Cpu::new();
    let mut notes = Vec::new();
    cpu.send_event(ControllerEvent::Tick(1));
    cpu.send_event(ControllerEvent::Tick(5));
    cpu.send_event(ControllerEvent::Input(2, true));
    assert_eq!(cpu.run(&mut res, &mut notes), Err(CpuFault::StackUnderflow { pc: 0x202 }));
    assert_eq!(v(&res, 0), 5);
    assert_eq!(v(&res, 1), 0);
    assert_eq!(res.cpu.keys.read(BusContext::Raw), 0);
    assert_eq!(cpu.run(&mut res, &mut notes), Ok(()));
}

#[test]
fn cpu_tick_events_follow_clock() {
    let mut cpu = Cpu::new();
    // V0 += 1, over and over.
    let program: Vec<u8> = [0x70u8, 0x01].iter().cycle().take(40).copied().collect();
    let mut res = machine(&program);
    let mut notes = Vec::new();
    // 3 ms at 500 Hz is 1.5 ticks: 1, then 2 with the carried half.
    cpu.gen_tick_event(3_000, 1000);
    cpu.gen_tick_event(3_000, 1000);
    cpu.run(&mut res, &mut notes).unwrap();
    assert_eq!(v(&res, 0), 3);
    // Twice the rate: 3 whole ticks.
    cpu.gen_tick_event(3_000, 2000);
    cpu.run(&mut res, &mut notes).unwrap();
    assert_eq!(v(&res, 0), 6);
    assert_eq!(pc(&res), 0x20C);
}
