use chip8_rs::controller::CoreEvent;
use chip8_rs::execution::CpuFault;
use chip8_rs::storage::BusContext;
use chip8_rs::{Config, Core, CoreError};

fn one_instruction_per_frame() -> Config {
    Config {
        workspace_path: "./workspace/".to_string(),
        time_delta_us: 2_000,
        cpu_bias: 1000,
        spu_bias: 1000,
        timer_bias: 1000,
    }
}

#[test]
fn default_config() {
    let core = Core::new(None);
    assert_eq!(core.config.time_delta_us, 20_000);
    assert_eq!(core.config.cpu_bias, 1000);
    assert_eq!(core.config.workspace_path, "./workspace/");
}

#[test]
fn run_before_reset_fails() {
    let mut core = Core::new(None);
    assert_eq!(core.run(), Err(CoreError::NotInitialised));
    assert_eq!(core.set_key(3, true), Err(CoreError::NotInitialised));
    assert_eq!(core.dump_memory(), Err(CoreError::NotInitialised));
}

#[test]
fn set_key_rejects_keys_outside_pad() {
    let mut core = Core::new(None);
    core.reset(&[]);
    assert_eq!(core.set_key(16, true), Err(CoreError::InvalidKey(16)));
    assert_eq!(core.set_key(0xF, true), Ok(()));
}

#[test]
fn reset_loads_font_and_rom() {
    let mut core = Core::new(None);
    core.reset(&[0x12, 0x34, 0x56]);
    let mem = core.dump_memory().unwrap();
    assert_eq!(mem.len(), 0x1000);
    assert_eq!(&mem[0..5], &[0xF0, 0x90, 0x90, 0x90, 0xF0]);
    assert_eq!(&mem[0x4B..0x50], &[0xF0, 0x80, 0xF0, 0x80, 0x80]);
    assert_eq!(mem[0x50], 0);
    assert_eq!(&mem[0x200..0x204], &[0x12, 0x34, 0x56, 0x00]);
    let res = core.resources.as_ref().unwrap();
    assert_eq!(res.cpu.pc.read(BusContext::Raw), 0x200);
}

#[test]
fn reset_cuts_long_rom() {
    let mut core = Core::new(None);
    let rom = vec![0xAAu8; 0x1000];
    core.reset(&rom);
    let mem = core.dump_memory().unwrap();
    assert_eq!(mem.len(), 0x1000);
    assert!(mem[0x200..].iter().all(|b| *b == 0xAA));
}

#[test]
fn frames_run_program() {
    let mut core = Core::new(Some(one_instruction_per_frame()));
    // V0 := 0, sprite of digit 0, draw at (V0, V0), height 5.
    core.reset(&[0x60, 0x00, 0xF0, 0x29, 0xD0, 0x05]);
    assert_eq!(core.run(), Ok(vec![]));
    assert_eq!(core.run(), Ok(vec![]));
    assert_eq!(core.run(), Ok(vec![CoreEvent::Video]));
    let res = core.resources.as_ref().unwrap();
    assert_eq!(&res.cpu.framebuffer[0..4], &[true, true, true, true]);
    assert_eq!(&res.cpu.framebuffer[64..68], &[true, false, false, true]);
    assert_eq!(res.cpu.gpr[0xF].read(BusContext::Raw), 0);
}

#[test]
fn frame_reports_sound() {
    let mut core = Core::new(None);
    // V1 := 2, sound timer := V1, then loop.
    core.reset(&[0x61, 0x02, 0xF1, 0x18, 0x12, 0x04]);
    // 20 ms: ten CPU cycles and one sound tick.
    assert_eq!(core.run(), Ok(vec![CoreEvent::Audio(true)]));
    assert_eq!(core.run(), Ok(vec![CoreEvent::Audio(false)]));
    assert_eq!(core.run(), Ok(vec![]));
}

#[test]
fn frame_stops_on_fault() {
    let mut core = Core::new(None);
    core.reset(&[0xFF, 0xFF]);
    assert_eq!(
        core.run(),
        Err(CoreError::Cpu(CpuFault::UnknownInstruction { opcode: 0xFFFF, pc: 0x200 }))
    );
}

#[test]
fn key_press_wakes_blocked_program() {
    let mut core = Core::new(Some(one_instruction_per_frame()));
    // keyr V2, then V3 := 1.
    core.reset(&[0xF2, 0x0A, 0x63, 0x01]);
    for _ in 0..4 {
        core.run().unwrap();
        let res = core.resources.as_ref().unwrap();
        assert!(res.cpu.halted);
        assert_eq!(res.cpu.pc.read(BusContext::Raw), 0x200);
    }
    core.set_key(9, true).unwrap();
    core.run().unwrap();
    let res = core.resources.as_ref().unwrap();
    assert_eq!(res.cpu.gpr[2].read(BusContext::Raw), 9);
    assert_eq!(res.cpu.pc.read(BusContext::Raw), 0x202);
    assert_eq!(res.cpu.keys.read(BusContext::Raw), 1 << 9);
    core.run().unwrap();
    let res = core.resources.as_ref().unwrap();
    assert_eq!(res.cpu.gpr[3].read(BusContext::Raw), 1);
}

#[test]
fn frame_stops_on_stack_underflow() {
    let mut core = Core::new(None);
    core.reset(&[0x00, 0xEE]);
    assert_eq!(core.run(), Err(CoreError::Cpu(CpuFault::StackUnderflow { pc: 0x200 })));
}

#[test]
fn random_byte_is_masked() {
    let mut core = Core::new(Some(one_instruction_per_frame()));
    // V0 := random & 0x0F, V1 := random & 0x00.
    core.reset(&[0xC0, 0x0F, 0xC1, 0x00]);
    core.run().unwrap();
    core.run().unwrap();
    let res = core.resources.as_ref().unwrap();
    assert_eq!(res.cpu.gpr[0].read(BusContext::Raw) & 0xF0, 0);
    assert_eq!(res.cpu.gpr[1].read(BusContext::Raw), 0);
    assert_eq!(res.cpu.pc.read(BusContext::Raw), 0x204);
}

#[test]
fn set_key_writes_keypad_at_once() {
    let mut core = Core::new(None);
    core.reset(&[]);
    assert_eq!(core.set_key(5, true), Ok(()));
    assert_eq!(core.resources.as_ref().unwrap().cpu.keys.read(BusContext::Raw), 1 << 5);
    assert_eq!(core.set_key(0xF, true), Ok(()));
    assert_eq!(core.set_key(5, false), Ok(()));
    assert_eq!(core.resources.as_ref().unwrap().cpu.keys.read(BusContext::Raw), 1 << 0xF);
    assert_eq!(core.set_key(16, true), Err(CoreError::InvalidKey(16)));
    assert_eq!(core.resources.as_ref().unwrap().cpu.keys.read(BusContext::Raw), 1 << 0xF);
}
