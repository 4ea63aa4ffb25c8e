//! Word and double-word registers, with bitfield access.
use vstd::prelude::*;

use crate::storage::BusContext;

verus! {

/// A sub-range of a register's bits: `length` bits starting at bit `start`.
#[derive(Debug, Clone, Copy)]
pub struct BitfieldParam {
    /// Bitfield start position.
    pub start: u32,
    /// Bitfield length.
    pub length: u32,
}

impl BitfieldParam {
    /// Create a new bitfield parameter, which can be used with registers.
    pub fn new(start: u32, length: u32) -> (r: BitfieldParam)
        ensures
            r.start == start,
            r.length == length,
    {
        BitfieldParam { start, length }
    }

    /// The field lies inside a register of `width` bits.
    pub open spec fn fits(self, width: u32) -> bool {
        self.start + self.length <= width
    }
}

/// Bit `k` of a double word.
pub open spec fn bit16(v: u16, k: u32) -> bool {
    (v >> k) & 1u16 == 1u16
}

/// Bit `k` of a word.
pub open spec fn bit8(v: u8, k: u32) -> bool {
    (v >> k) & 1u8 == 1u8
}

/// The `length` low bits set, in a double word.
pub open spec fn mask16(length: u32) -> u16 {
    if length >= 16 {
        0xFFFFu16
    } else {
        (((1u16 << length) - 1) as u16)
    }
}

/// The `length` low bits set, in a word.
pub open spec fn mask8(length: u32) -> u8 {
    if length >= 8 {
        0xFFu8
    } else {
        (((1u8 << length) - 1) as u8)
    }
}

/// The field of `v` shifted down to bit 0.
pub open spec fn read_field16(v: u16, start: u32, length: u32) -> u16 {
    if length == 0 {
        0
    } else {
        (v >> start) & mask16(length)
    }
}

/// `v` with its field replaced by the low bits of `value`.
pub open spec fn write_field16(v: u16, start: u32, length: u32, value: u16) -> u16 {
    if length == 0 {
        v
    } else {
        (v & !(mask16(length) << start)) | ((value & mask16(length)) << start)
    }
}

/// The field of `v` shifted down to bit 0.
pub open spec fn read_field8(v: u8, start: u32, length: u32) -> u8 {
    if length == 0 {
        0
    } else {
        (v >> start) & mask8(length)
    }
}

/// `v` with its field replaced by the low bits of `value`.
pub open spec fn write_field8(v: u8, start: u32, length: u32, value: u8) -> u8 {
    if length == 0 {
        v
    } else {
        (v & !(mask8(length) << start)) | ((value & mask8(length)) << start)
    }
}

fn mask16_exec(length: u32) -> (r: u16)
    requires
        length <= 16,
    ensures
        r == mask16(length),
{
    if length >= 16 {
        0xFFFF
    } else {
        assert(1u16 << length >= 1u16) by (bit_vector)
            requires
                length < 16,
        ;
        (1u16 << length) - 1
    }
}

fn mask8_exec(length: u32) -> (r: u8)
    requires
        length <= 8,
    ensures
        r == mask8(length),
{
    if length >= 8 {
        0xFF
    } else {
        assert(1u8 << length >= 1u8) by (bit_vector)
            requires
                length < 8,
        ;
        (1u8 << length) - 1
    }
}

/// Writing a double-word field changes the bits of the field to the low bits
/// of the value, and leaves every other bit as it was.
pub proof fn lemma_write_field16_bits(v: u16, start: u32, length: u32, value: u16)
    requires
        start + length <= 16,
    ensures
        forall|k: u32|
            k < 16 ==> (#[trigger] bit16(write_field16(v, start, length, value), k) == if start
                <= k < start + length {
                bit16(value, (k - start) as u32)
            } else {
                bit16(v, k)
            }),
{
    assert forall|k: u32| k < 16 implies (#[trigger] bit16(write_field16(v, start, length, value), k)
        == if start <= k < start + length {
        bit16(value, (k - start) as u32)
    } else {
        bit16(v, k)
    }) by {
        if length > 0 {
            let m = mask16(length);
            assert(m == if length >= 16 {
                0xFFFFu16
            } else {
                (((1u16 << length) - 1) as u16)
            });
            let w = (v & !(m << start)) | ((value & m) << start);
            assert(((w >> k) & 1u16 == 1u16) == if start <= k < start + length {
                (value >> (k - start) as u32) & 1u16 == 1u16
            } else {
                (v >> k) & 1u16 == 1u16
            }) by (bit_vector)
                requires
                    k < 16,
                    0 < length,
                    start + length <= 16,
                    m == if length >= 16 {
                        0xFFFFu16
                    } else {
                        (((1u16 << length) - 1) as u16)
                    },
                    w == (v & !(m << start)) | ((value & m) << start),
            ;
        }
    }
}

/// Reading a double-word field yields the field's bits at the bottom and
/// clear bits above it.
pub proof fn lemma_read_field16_bits(v: u16, start: u32, length: u32)
    requires
        start + length <= 16,
    ensures
        forall|k: u32|
            k < 16 ==> (#[trigger] bit16(read_field16(v, start, length), k) == (k < length && bit16(
                v,
                (start + k) as u32,
            ))),
{
    assert forall|k: u32| k < 16 implies (#[trigger] bit16(read_field16(v, start, length), k) == (k
        < length && bit16(v, (start + k) as u32))) by {
        if length == 0 {
            assert((0u16 >> k) & 1u16 == 0u16) by (bit_vector);
        } else {
            let m = mask16(length);
            let r = (v >> start) & m;
            assert(((r >> k) & 1u16 == 1u16) == (k < length && (v >> (start + k) as u32) & 1u16 == 1u16))
                by (bit_vector)
                requires
                    k < 16,
                    0 < length,
                    start + length <= 16,
                    m == if length >= 16 {
                        0xFFFFu16
                    } else {
                        (((1u16 << length) - 1) as u16)
                    },
                    r == (v >> start) & m,
            ;
        }
    }
}

/// Two double words with the same bits are equal.
pub proof fn lemma_bits16_equal(a: u16, b: u16)
    requires
        forall|k: u32| k < 16 ==> #[trigger] bit16(a, k) == bit16(b, k),
    ensures
        a == b,
{
    assert(bit16(a, 0) == bit16(b, 0));
    assert(bit16(a, 1) == bit16(b, 1));
    assert(bit16(a, 2) == bit16(b, 2));
    assert(bit16(a, 3) == bit16(b, 3));
    assert(bit16(a, 4) == bit16(b, 4));
    assert(bit16(a, 5) == bit16(b, 5));
    assert(bit16(a, 6) == bit16(b, 6));
    assert(bit16(a, 7) == bit16(b, 7));
    assert(bit16(a, 8) == bit16(b, 8));
    assert(bit16(a, 9) == bit16(b, 9));
    assert(bit16(a, 10) == bit16(b, 10));
    assert(bit16(a, 11) == bit16(b, 11));
    assert(bit16(a, 12) == bit16(b, 12));
    assert(bit16(a, 13) == bit16(b, 13));
    assert(bit16(a, 14) == bit16(b, 14));
    assert(bit16(a, 15) == bit16(b, 15));
    assert(a == b) by (bit_vector)
        requires
            ((a >> 0u32) & 1u16 == 1u16) == ((b >> 0u32) & 1u16 == 1u16),
            ((a >> 1u32) & 1u16 == 1u16) == ((b >> 1u32) & 1u16 == 1u16),
            ((a >> 2u32) & 1u16 == 1u16) == ((b >> 2u32) & 1u16 == 1u16),
            ((a >> 3u32) & 1u16 == 1u16) == ((b >> 3u32) & 1u16 == 1u16),
            ((a >> 4u32) & 1u16 == 1u16) == ((b >> 4u32) & 1u16 == 1u16),
            ((a >> 5u32) & 1u16 == 1u16) == ((b >> 5u32) & 1u16 == 1u16),
            ((a >> 6u32) & 1u16 == 1u16) == ((b >> 6u32) & 1u16 == 1u16),
            ((a >> 7u32) & 1u16 == 1u16) == ((b >> 7u32) & 1u16 == 1u16),
            ((a >> 8u32) & 1u16 == 1u16) == ((b >> 8u32) & 1u16 == 1u16),
            ((a >> 9u32) & 1u16 == 1u16) == ((b >> 9u32) & 1u16 == 1u16),
            ((a >> 10u32) & 1u16 == 1u16) == ((b >> 10u32) & 1u16 == 1u16),
            ((a >> 11u32) & 1u16 == 1u16) == ((b >> 11u32) & 1u16 == 1u16),
            ((a >> 12u32) & 1u16 == 1u16) == ((b >> 12u32) & 1u16 == 1u16),
            ((a >> 13u32) & 1u16 == 1u16) == ((b >> 13u32) & 1u16 == 1u16),
            ((a >> 14u32) & 1u16 == 1u16) == ((b >> 14u32) & 1u16 == 1u16),
            ((a >> 15u32) & 1u16 == 1u16) == ((b >> 15u32) & 1u16 == 1u16),
    ;
}

/// Bitfield round trip on a double word: writing back the field just read
/// changes nothing; reading a field just written yields the value written,
/// cut to the field's width; and a write leaves every bit outside the field
/// as it was.
pub proof fn lemma_bitfield16_round_trip(v: u16, field: BitfieldParam, value: u16)
    requires
        field.fits(16),
    ensures
        write_field16(v, field.start, field.length, read_field16(v, field.start, field.length))
            == v,
        read_field16(write_field16(v, field.start, field.length, value), field.start, field.length)
            == value & mask16(field.length),
        forall|k: u32|
            k < 16 && !(field.start <= k < field.start + field.length) ==> #[trigger] bit16(
                write_field16(v, field.start, field.length, value),
                k,
            ) == bit16(v, k),
{
    let (s, l) = (field.start, field.length);
    let r = read_field16(v, s, l);
    let w = write_field16(v, s, l, value);
    lemma_read_field16_bits(v, s, l);
    lemma_write_field16_bits(v, s, l, r);
    lemma_write_field16_bits(v, s, l, value);
    lemma_read_field16_bits(w, s, l);
    assert forall|k: u32| k < 16 implies #[trigger] bit16(write_field16(v, s, l, r), k) == bit16(
        v,
        k,
    ) by {
        if s <= k < s + l {
            assert(bit16(r, (k - s) as u32) == bit16(v, (s + (k - s) as u32) as u32));
        }
    }
    lemma_bits16_equal(write_field16(v, s, l, r), v);
    let m = mask16(l);
    assert(m == if l >= 16 {
        0xFFFFu16
    } else {
        (((1u16 << l) - 1) as u16)
    });
    let vm = value & m;
    assert forall|k: u32| k < 16 implies #[trigger] bit16(read_field16(w, s, l), k) == bit16(vm, k) by {
        assert(((vm >> k) & 1u16 == 1u16) == (k < l && (value >> k) & 1u16 == 1u16))
            by (bit_vector)
            requires
                k < 16,
                m == if l >= 16 {
                    0xFFFFu16
                } else {
                    (((1u16 << l) - 1) as u16)
                },
                vm == value & m,
        ;
        if k < l {
            assert(bit16(w, (s + k) as u32) == bit16(value, ((s + k) as u32 - s) as u32));
        }
    }
    lemma_bits16_equal(read_field16(w, s, l), vm);
}

/// Bitfield round trip on a word: writing back the field just read changes
/// nothing; reading a field just written yields the value written, cut to the
/// field's width; and a write leaves every bit outside the field as it was.
pub proof fn lemma_bitfield8_round_trip(v: u8, field: BitfieldParam, value: u8)
    requires
        field.fits(8),
    ensures
        write_field8(v, field.start, field.length, read_field8(v, field.start, field.length)) == v,
        read_field8(write_field8(v, field.start, field.length, value), field.start, field.length)
            == value & mask8(field.length),
        forall|k: u32|
            k < 8 && !(field.start <= k < field.start + field.length) ==> #[trigger] bit8(
                write_field8(v, field.start, field.length, value),
                k,
            ) == bit8(v, k),
{
    let (s, l) = (field.start, field.length);
    assert(write_field8(v, s, l, read_field8(v, s, l)) == v) by (bit_vector)
        requires
            s + l <= 8,
    ;
    assert(read_field8(write_field8(v, s, l, value), s, l) == value & mask8(l)) by (bit_vector)
        requires
            s + l <= 8,
    ;
    assert forall|k: u32| k < 8 && !(s <= k < s + l) implies #[trigger] bit8(
        write_field8(v, s, l, value),
        k,
    ) == bit8(v, k) by {
        assert(bit8(write_field8(v, s, l, value), k) == bit8(v, k)) by (bit_vector)
            requires
                s + l <= 8,
                k < 8,
                !(s <= k < s + l),
        ;
    }
}

/// Word register.
#[derive(Debug, Clone, Copy)]
pub struct WordRegister {
    /// Holds the current value of the register.
    value: u8,
}

impl View for WordRegister {
    type V = u8;

    closed spec fn view(&self) -> u8 {
        self.value
    }
}

impl WordRegister {
    /// Create a new word register, with zeroed initial value.
    pub fn new() -> (r: WordRegister)
        ensures
            r@ == 0,
    {
        WordRegister { value: 0 }
    }

    /// Create a new word register, with the given initial value.
    pub fn from(value: u8) -> (r: WordRegister)
        ensures
            r@ == value,
    {
        WordRegister { value }
    }

    pub fn read(&self, ctx: BusContext) -> (r: u8)
        ensures
            r == self@,
    {
        self.value
    }

    pub fn write(&mut self, ctx: BusContext, value: u8)
        ensures
            final(self)@ == value,
    {
        self.value = value;
    }

    /// Read the bits of a field, shifted down to bit 0.
    pub fn read_bitfield(&self, ctx: BusContext, field: &BitfieldParam) -> (r: u8)
        requires
            field.fits(8),
        ensures
            r == read_field8(self@, field.start, field.length),
    {
        if field.length == 0 {
            return 0;
        }
        let m = mask8_exec(field.length);
        (self.read(ctx) >> field.start) & m
    }

    /// Replace the bits of a field with the low bits of `value`; the bits
    /// outside the field are kept.
    pub fn write_bitfield(&mut self, ctx: BusContext, field: &BitfieldParam, value: u8)
        requires
            field.fits(8),
        ensures
            final(self)@ == write_field8(old(self)@, field.start, field.length, value),
    {
        if field.length == 0 {
            return ;
        }
        let m = mask8_exec(field.length);
        let v = (value & m) << field.start;
        let r = self.read(ctx);
        let r = (r & !(m << field.start)) | v;
        self.write(ctx, r);
    }
}

/// Double-word register.
#[derive(Debug, Clone, Copy)]
pub struct DwordRegister {
    /// Holds the current value of the register.
    value: u16,
}

impl View for DwordRegister {
    type V = u16;

    closed spec fn view(&self) -> u16 {
        self.value
    }
}

impl DwordRegister {
    /// Create a new double-word register, with zeroed initial value.
    pub fn new() -> (r: DwordRegister)
        ensures
            r@ == 0,
    {
        DwordRegister { value: 0 }
    }

    /// Create a new double-word register, with the given initial value.
    pub fn from(value: u16) -> (r: DwordRegister)
        ensures
            r@ == value,
    {
        DwordRegister { value }
    }

    pub fn read(&self, ctx: BusContext) -> (r: u16)
        ensures
            r == self@,
    {
        self.value
    }

    pub fn write(&mut self, ctx: BusContext, value: u16)
        ensures
            final(self)@ == value,
    {
        self.value = value;
    }

    /// Read the bits of a field, shifted down to bit 0.
    pub fn read_bitfield(&self, ctx: BusContext, field: &BitfieldParam) -> (r: u16)
        requires
            field.fits(16),
        ensures
            r == read_field16(self@, field.start, field.length),
    {
        if field.length == 0 {
            return 0;
        }
        let m = mask16_exec(field.length);
        (self.read(ctx) >> field.start) & m
    }

    /// Replace the bits of a field with the low bits of `value`; the bits
    /// outside the field are kept.
    pub fn write_bitfield(&mut self, ctx: BusContext, field: &BitfieldParam, value: u16)
        requires
            field.fits(16),
        ensures
            final(self)@ == write_field16(old(self)@, field.start, field.length, value),
    {
        if field.length == 0 {
            return ;
        }
        let m = mask16_exec(field.length);
        let v = (value & m) << field.start;
        let r = self.read(ctx);
        let r = (r & !(m << field.start)) | v;
        self.write(ctx, r);
    }
}

} // verus!
