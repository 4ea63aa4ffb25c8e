use chip8_rs::clock_state::ClockState;
use chip8_rs::memory::WordMemory;
use chip8_rs::register::{BitfieldParam, DwordRegister, WordRegister};
use chip8_rs::storage::BusContext;

#[test]
fn word_register_starts_at_zero() {
    let r = WordRegister::new();
    assert_eq!(r.read(BusContext::Raw), 0);
}

#[test]
fn word_register_from_value() {
    let r = WordRegister::from(3);
    assert_eq!(r.read(BusContext::Raw), 3);
}

#[test]
fn dword_register_starts_at_zero() {
    let r = DwordRegister::new();
    assert_eq!(r.read(BusContext::Raw), 0);
}

#[test]
fn dword_register_from_value() {
    let mut r = DwordRegister::from(0x1234);
    assert_eq!(r.read(BusContext::Raw), 0x1234);
    r.write(BusContext::Raw, 0xBEEF);
    assert_eq!(r.read(BusContext::Raw), 0xBEEF);
}

#[test]
fn dword_bitfield_read() {
    let r = DwordRegister::from(0xABCD);
    let field = BitfieldParam::new(4, 8);
    assert_eq!(r.read_bitfield(BusContext::Raw, &field), 0xBC);
}

#[test]
fn dword_bitfield_write_keeps_other_bits() {
    let mut r = DwordRegister::from(0xABCD);
    let field = BitfieldParam::new(4, 8);
    r.write_bitfield(BusContext::Raw, &field, 0x12);
    assert_eq!(r.read(BusContext::Raw), 0xA12D);
}

#[test]
fn dword_bitfield_write_masks_value() {
    let mut r = DwordRegister::from(0x0000);
    let field = BitfieldParam::new(12, 4);
    r.write_bitfield(BusContext::Raw, &field, 0xFF7);
    assert_eq!(r.read(BusContext::Raw), 0x7000);
}

#[test]
fn dword_bitfield_round_trip() {
    for start in 0..16u32 {
        for length in 0..(17 - start) {
            let field = BitfieldParam::new(start, length);
            let mut r = DwordRegister::from(0x5AC3);
            let v = r.read_bitfield(BusContext::Raw, &field);
            r.write_bitfield(BusContext::Raw, &field, v);
            assert_eq!(r.read(BusContext::Raw), 0x5AC3);
        }
    }
}

#[test]
fn dword_bitfield_whole_width() {
    let mut r = DwordRegister::from(0x1111);
    let field = BitfieldParam::new(0, 16);
    r.write_bitfield(BusContext::Raw, &field, 0xFEDC);
    assert_eq!(r.read(BusContext::Raw), 0xFEDC);
    assert_eq!(r.read_bitfield(BusContext::Raw, &field), 0xFEDC);
}

#[test]
fn dword_bitfield_single_key_bits() {
    let mut r = DwordRegister::new();
    r.write_bitfield(BusContext::Raw, &BitfieldParam::new(0xF, 1), 1);
    r.write_bitfield(BusContext::Raw, &BitfieldParam::new(0x3, 1), 1);
    assert_eq!(r.read(BusContext::Raw), 0x8008);
    r.write_bitfield(BusContext::Raw, &BitfieldParam::new(0xF, 1), 0);
    assert_eq!(r.read(BusContext::Raw), 0x0008);
}

#[test]
fn word_bitfield_read_and_write() {
    let mut r = WordRegister::from(0b1010_0110);
    let field = BitfieldParam::new(2, 3);
    assert_eq!(r.read_bitfield(BusContext::Raw, &field), 0b001);
    r.write_bitfield(BusContext::Raw, &field, 0b110);
    assert_eq!(r.read(BusContext::Raw), 0b1011_1010);
}

#[test]
fn word_bitfield_empty_field() {
    let mut r = WordRegister::from(0x5A);
    let field = BitfieldParam::new(8, 0);
    assert_eq!(r.read_bitfield(BusContext::Raw, &field), 0);
    r.write_bitfield(BusContext::Raw, &field, 0xFF);
    assert_eq!(r.read(BusContext::Raw), 0x5A);
}

#[test]
fn memory_starts_zeroed() {
    let m = WordMemory::new(1024);
    assert_eq!(m.len(), 1024);
    assert_eq!(m.read(BusContext::Raw, 0), 0);
    assert_eq!(m.read(BusContext::Raw, 1023), 0);
}

#[test]
fn memory_dword_is_big_endian() {
    let mut m = WordMemory::new(16);
    m.write_dword(BusContext::Raw, 4, 0xBEEF);
    assert_eq!(m.read(BusContext::Raw, 4), 0xBE);
    assert_eq!(m.read(BusContext::Raw, 5), 0xEF);
    m.write(BusContext::Raw, 8, 0x12);
    m.write(BusContext::Raw, 9, 0x34);
    assert_eq!(m.read_dword(BusContext::Raw, 8), 0x1234);
}

#[test]
fn memory_dword_round_trip() {
    let mut m = WordMemory::new(0x1000);
    for &(offset, value) in &[(0usize, 0u16), (1, 0xFFFF), (0x200, 0x00E0), (0xFFE, 0xA5A5)] {
        m.write_dword(BusContext::Raw, offset, value);
        assert_eq!(m.read_dword(BusContext::Raw, offset), value);
    }
}

#[test]
fn memory_slices() {
    let mut m = WordMemory::new(8);
    m.write_slice(BusContext::Raw, 2, &[1, 2, 3]);
    assert_eq!(m.read_slice(BusContext::Raw, 1, 5), vec![0, 1, 2, 3, 0]);
    assert_eq!(m.to_bytes(), vec![0, 0, 1, 2, 3, 0, 0, 0]);
}

#[test]
fn clock_whole_ticks_exact() {
    let mut c = ClockState::new();
    // 20 ms at 500 Hz.
    c.produce(20_000, 500_000);
    assert_eq!(c.consume_whole(), 10);
    assert_eq!(c.consume_whole(), 0);
}

#[test]
fn clock_keeps_fraction() {
    let mut c = ClockState::new();
    let mut total = 0u64;
    // 1 ms at 60 Hz is 0.06 of a tick.
    for frame in 1..=50u64 {
        c.produce(1_000, 60_000);
        total += c.consume_whole();
        assert_eq!(total, frame * 6 / 100);
    }
    assert_eq!(total, 3);
}

#[test]
fn clock_bias_scales_rate() {
    let mut c = ClockState::new();
    // 1 s at 60 Hz with a bias of 2.5.
    c.produce(1_000_000, 60 * 2_500);
    assert_eq!(c.consume_whole(), 150);
}
