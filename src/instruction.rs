//! Instruction words, their fields, and the decode table.
use vstd::prelude::*;

verus! {

/// Number of distinct instructions.
pub const INSTRUCTION_COUNT: usize = 35;

pub const CLS: usize = 0;
pub const RET: usize = 1;
pub const CALL_RCA1802: usize = 2;
pub const JUMP: usize = 3;
pub const CALL: usize = 4;
pub const SIFEQI: usize = 5;
pub const SIFNEI: usize = 6;
pub const SIFEQ: usize = 7;
pub const MOVI: usize = 8;
pub const ADDI: usize = 9;
pub const MOV: usize = 10;
pub const OR: usize = 11;
pub const AND: usize = 12;
pub const XOR: usize = 13;
pub const ADD: usize = 14;
pub const SUB: usize = 15;
pub const SHR1: usize = 16;
pub const RSUB: usize = 17;
pub const SHL1: usize = 18;
pub const SIFNE: usize = 19;
pub const MOVI_I: usize = 20;
pub const JUMPR: usize = 21;
pub const RAND: usize = 22;
pub const DRAW: usize = 23;
pub const SIFKEQ: usize = 24;
pub const SIFKNE: usize = 25;
pub const TIMERR: usize = 26;
pub const KEYR: usize = 27;
pub const TIMERW: usize = 28;
pub const SOUNDW: usize = 29;
pub const ADD_I: usize = 30;
pub const SPRITE_I: usize = 31;
pub const BCD: usize = 32;
pub const SAVE: usize = 33;
pub const LOAD: usize = 34;

/// Bits 12-15.
pub open spec fn high_nibble_of(v: u16) -> u8 {
    (v / 0x1000) as u8
}

/// Bits 0-3.
pub open spec fn low_nibble_of(v: u16) -> u8 {
    (v % 0x10) as u8
}

/// Bits 0-11.
pub open spec fn address_of(v: u16) -> u16 {
    v % 0x1000
}

/// Bits 8-11.
pub open spec fn x_of(v: u16) -> nat {
    ((v / 0x100) % 0x10) as nat
}

/// Bits 4-7.
pub open spec fn y_of(v: u16) -> nat {
    ((v / 0x10) % 0x10) as nat
}

/// Bits 0-7.
pub open spec fn immediate_of(v: u16) -> u8 {
    (v % 0x100) as u8
}

/// The instruction that a word encodes, by its index, or `None` where the
/// word encodes none.
pub open spec fn decode(v: u16) -> Option<usize> {
    let n = low_nibble_of(v);
    let kk = immediate_of(v);
    match high_nibble_of(v) {
        0x0 => if kk == 0xE0 {
            Some(CLS)
        } else if kk == 0xEE {
            Some(RET)
        } else {
            Some(CALL_RCA1802)
        },
        0x1 => Some(JUMP),
        0x2 => Some(CALL),
        0x3 => Some(SIFEQI),
        0x4 => Some(SIFNEI),
        0x5 => Some(SIFEQ),
        0x6 => Some(MOVI),
        0x7 => Some(ADDI),
        0x8 => if n <= 7 {
            Some((MOV + n) as usize)
        } else if n == 0xE {
            Some(SHL1)
        } else {
            None
        },
        0x9 => if n == 0 {
            Some(SIFNE)
        } else {
            None
        },
        0xA => Some(MOVI_I),
        0xB => Some(JUMPR),
        0xC => Some(RAND),
        0xD => Some(DRAW),
        0xE => if kk == 0x9E {
            Some(SIFKEQ)
        } else if kk == 0xA1 {
            Some(SIFKNE)
        } else {
            None
        },
        _ => if kk == 0x07 {
            Some(TIMERR)
        } else if kk == 0x0A {
            Some(KEYR)
        } else if kk == 0x15 {
            Some(TIMERW)
        } else if kk == 0x18 {
            Some(SOUNDW)
        } else if kk == 0x1E {
            Some(ADD_I)
        } else if kk == 0x29 {
            Some(SPRITE_I)
        } else if kk == 0x33 {
            Some(BCD)
        } else if kk == 0x55 {
            Some(SAVE)
        } else if kk == 0x65 {
            Some(LOAD)
        } else {
            None
        },
    }
}

/// An instruction word, with accessors for its fields.
#[derive(Debug, Clone, Copy)]
pub struct RawInstruction {
    /// Raw instruction value.
    pub value: u16,
}

impl RawInstruction {
    pub fn new(value: u16) -> (r: RawInstruction)
        ensures
            r.value == value,
    {
        RawInstruction { value }
    }

    /// Returns the upper 4 bits of an instruction.
    pub fn high_nibble(&self) -> (r: u8)
        ensures
            r == high_nibble_of(self.value),
    {
        let v = self.value;
        assert((v & 0xF000) >> 12u16 == v / 0x1000) by (bit_vector);
        ((v & 0xF000) >> 12) as u8
    }

    /// Returns the lower 4 bits of an instruction.
    pub fn low_nibble(&self) -> (r: u8)
        ensures
            r == low_nibble_of(self.value),
    {
        let v = self.value;
        assert(v & 0xF == v % 0x10) by (bit_vector);
        (v & 0xF) as u8
    }

    /// Returns the lower 12 bits of an instruction.
    pub fn address(&self) -> (r: u16)
        ensures
            r == address_of(self.value),
    {
        let v = self.value;
        assert(v & 0xFFF == v % 0x1000) by (bit_vector);
        v & 0xFFF
    }

    /// Returns the 'x' register parameter (bits 8-11).
    pub fn x_register(&self) -> (r: usize)
        ensures
            r == x_of(self.value),
            r < 16,
    {
        let v = self.value;
        assert((v & 0xF00) >> 8u16 == (v / 0x100) % 0x10) by (bit_vector);
        ((v & 0xF00) >> 8) as usize
    }

    /// Returns the 'y' register parameter (bits 4-7).
    pub fn y_register(&self) -> (r: usize)
        ensures
            r == y_of(self.value),
            r < 16,
    {
        let v = self.value;
        assert((v & 0xF0) >> 4u16 == (v / 0x10) % 0x10) by (bit_vector);
        ((v & 0xF0) >> 4) as usize
    }

    /// Returns the immediate parameter (bits 0-7).
    pub fn immediate(&self) -> (r: u8)
        ensures
            r == immediate_of(self.value),
    {
        let v = self.value;
        assert(v & 0xFF == v % 0x100) by (bit_vector);
        (v & 0xFF) as u8
    }
}

/// CPU instruction lookup: the index of the instruction that a word encodes.
pub fn lookup(inst: RawInstruction) -> (r: Option<usize>)
    ensures
        r == decode(inst.value),
        r matches Some(i) ==> i < INSTRUCTION_COUNT,
{
    let kk = inst.immediate();
    let n = inst.low_nibble();
    match inst.high_nibble() {
        0x0 => {
            match kk {
                0xE0 => Some(CLS),
                0xEE => Some(RET),
                _ => Some(CALL_RCA1802),
            }
        },
        0x1 => Some(JUMP),
        0x2 => Some(CALL),
        0x3 => Some(SIFEQI),
        0x4 => Some(SIFNEI),
        0x5 => Some(SIFEQ),
        0x6 => Some(MOVI),
        0x7 => Some(ADDI),
        0x8 => {
            match n {
                0x0 => Some(MOV),
                0x1 => Some(OR),
                0x2 => Some(AND),
                0x3 => Some(XOR),
                0x4 => Some(ADD),
                0x5 => Some(SUB),
                0x6 => Some(SHR1),
                0x7 => Some(RSUB),
                0xE => Some(SHL1),
                _ => None,
            }
        },
        0x9 => {
            match n {
                0x0 => Some(SIFNE),
                _ => None,
            }
        },
        0xA => Some(MOVI_I),
        0xB => Some(JUMPR),
        0xC => Some(RAND),
        0xD => Some(DRAW),
        0xE => {
            match kk {
                0x9E => Some(SIFKEQ),
                0xA1 => Some(SIFKNE),
                _ => None,
            }
        },
        _ => {
            match kk {
                0x07 => Some(TIMERR),
                0x0A => Some(KEYR),
                0x15 => Some(TIMERW),
                0x18 => Some(SOUNDW),
                0x1E => Some(ADD_I),
                0x29 => Some(SPRITE_I),
                0x33 => Some(BCD),
                0x55 => Some(SAVE),
                0x65 => Some(LOAD),
                _ => None,
            }
        },
    }
}

/// A decoded instruction word.
#[derive(Debug, Clone, Copy)]
pub struct Instruction {
    /// Unique instruction index.
    index: Option<usize>,
    /// Raw instruction.
    raw_inst: RawInstruction,
}

impl Instruction {
    /// The instruction index, `None` where the word encodes no instruction.
    pub closed spec fn spec_index(&self) -> Option<usize> {
        self.index
    }

    /// The instruction word.
    pub closed spec fn spec_raw(&self) -> RawInstruction {
        self.raw_inst
    }

    /// Construct a new instruction, looking up which instruction it is.
    pub fn new(value: u16) -> (r: Instruction)
        ensures
            r.spec_raw().value == value,
            r.spec_index() == decode(value),
    {
        let raw_inst = RawInstruction { value };
        let index = lookup(raw_inst);
        Instruction { index, raw_inst }
    }

    /// Returns the unique instruction index previously looked up.
    pub fn index(&self) -> (r: Option<usize>)
        ensures
            r == self.spec_index(),
    {
        self.index
    }

    pub fn raw(&self) -> (r: RawInstruction)
        ensures
            r == self.spec_raw(),
    {
        self.raw_inst
    }
}

/// Every instruction word decodes to exactly one of the instruction indices,
/// or to none.
pub proof fn lemma_decode_total(v: u16)
    ensures
        decode(v) matches Some(i) ==> i < INSTRUCTION_COUNT,
        decode(v) is None ==> (high_nibble_of(v) == 0x8 && !(low_nibble_of(v) <= 7
            || low_nibble_of(v) == 0xE)) || (high_nibble_of(v) == 0x9 && low_nibble_of(v) != 0)
            || high_nibble_of(v) == 0xE || high_nibble_of(v) == 0xF,
{
}

} // verus!
