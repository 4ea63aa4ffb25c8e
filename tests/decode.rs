use chip8_rs::keypad::keypad_index;
use chip8_rs::instruction::{
    lookup, Instruction, RawInstruction, ADD, CALL_RCA1802, CLS, DRAW, JUMP, KEYR, LOAD, MOVI,
    RET, SHL1, SIFNE, TIMERR,
};

#[test]
fn raw_fields() {
    let inst = RawInstruction::new(0xD1A5);
    assert_eq!(inst.high_nibble(), 0xD);
    assert_eq!(inst.low_nibble(), 0x5);
    assert_eq!(inst.address(), 0x1A5);
    assert_eq!(inst.x_register(), 0x1);
    assert_eq!(inst.y_register(), 0xA);
    assert_eq!(inst.immediate(), 0xA5);
}

#[test]
fn decode_cls_and_ret() {
    assert_eq!(lookup(RawInstruction::new(0x00E0)), Some(CLS));
    assert_eq!(lookup(RawInstruction::new(0x00EE)), Some(RET));
    assert_eq!(lookup(RawInstruction::new(0x0123)), Some(CALL_RCA1802));
}

#[test]
fn decode_jump() {
    let inst = Instruction::new(0x1ABC);
    assert_eq!(inst.index(), Some(JUMP));
    assert_eq!(inst.raw().address(), 0xABC);
    assert_eq!(inst.raw().value, 0x1ABC);
}

#[test]
fn decode_movi() {
    let inst = Instruction::new(0x6A3F);
    assert_eq!(inst.index(), Some(MOVI));
    assert_eq!(inst.raw().x_register(), 0xA);
    assert_eq!(inst.raw().immediate(), 0x3F);
}

#[test]
fn decode_add() {
    let inst = Instruction::new(0x8AB4);
    assert_eq!(inst.index(), Some(ADD));
    assert_eq!(inst.raw().x_register(), 0xA);
    assert_eq!(inst.raw().y_register(), 0xB);
}

#[test]
fn decode_keyr() {
    let inst = Instruction::new(0xFA0A);
    assert_eq!(inst.index(), Some(KEYR));
    assert_eq!(inst.raw().x_register(), 0xA);
}

#[test]
fn decode_other_families() {
    assert_eq!(lookup(RawInstruction::new(0x812E)), Some(SHL1));
    assert_eq!(lookup(RawInstruction::new(0x9120)), Some(SIFNE));
    assert_eq!(lookup(RawInstruction::new(0xD125)), Some(DRAW));
    assert_eq!(lookup(RawInstruction::new(0xF307)), Some(TIMERR));
    assert_eq!(lookup(RawInstruction::new(0xF365)), Some(LOAD));
}

#[test]
fn decode_unknown_words() {
    for &w in &[0x8008u16, 0x800F, 0x9001, 0xE000, 0xE19F, 0xF0FF, 0xF000] {
        assert_eq!(lookup(RawInstruction::new(w)), None, "word {:04X}", w);
        assert_eq!(Instruction::new(w).index(), None);
    }
}

#[test]
fn decode_every_word() {
    let mut seen = [false; 35];
    for w in 0..=0xFFFFu16 {
        if let Some(i) = lookup(RawInstruction::new(w)) {
            assert!(i < 35);
            seen[i] = true;
        }
    }
    assert!(seen.iter().all(|s| *s));
}

#[test]
fn keypad_layout() {
    let rows = ["1234", "qwer", "asdf", "zxcv"];
    let keys = [[0x1, 0x2, 0x3, 0xC], [0x4, 0x5, 0x6, 0xD], [0x7, 0x8, 0x9, 0xE], [0xA, 0x0, 0xB, 0xF]];
    for (row, row_keys) in rows.iter().zip(keys.iter()) {
        for (c, k) in row.chars().zip(row_keys.iter()) {
            assert_eq!(keypad_index(c), Some(*k));
        }
    }
    assert_eq!(keypad_index('5'), None);
    assert_eq!(keypad_index('Q'), None);
}
