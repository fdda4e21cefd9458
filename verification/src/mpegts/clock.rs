//! How presentation times and clock references are coded.

use vstd::prelude::*;

verus! {

/// Transport stream clocks count modulo this value: they are 33 bits wide.
pub open spec fn clock_period() -> int {
    0x2_0000_0000
}

/// A timestamp as the optional fields of a PES header code it: a four bit prefix, then 3, 15
/// and 15 bits of the time, each group closed by a marker bit.
pub open spec fn timestamp_bytes(prefix: u8, value: u64) -> Seq<u8> {
    let time = value as int % clock_period();
    seq![
        ((prefix as int % 16) * 16 + (time / 0x4000_0000) * 2 + 1) as u8,
        (time / 0x40_0000 % 0x100) as u8,
        ((time / 0x8000 % 0x80) * 2 + 1) as u8,
        (time / 0x80 % 0x100) as u8,
        ((time % 0x80) * 2 + 1) as u8,
    ]
}

/// The time that a coded timestamp stands for.
pub open spec fn timestamp_value(bytes: Seq<u8>) -> int {
    (bytes[0] as int / 2 % 8) * 0x4000_0000 + bytes[1] as int * 0x40_0000 + (bytes[2] as int / 2)
        * 0x8000 + bytes[3] as int * 0x80 + bytes[4] as int / 2
}

/// Whether the three marker bits of a coded timestamp are set.
pub open spec fn timestamp_marked(bytes: Seq<u8>) -> bool {
    bytes[0] % 2 == 1 && bytes[2] % 2 == 1 && bytes[4] % 2 == 1
}

/// A program clock reference: 33 bits of a 90 kHz count, six reserved ones, and a 27 MHz
/// extension of nine bits that is always zero.
pub open spec fn pcr_bytes(value: u64) -> Seq<u8> {
    let time = value as int % clock_period();
    seq![
        (time / 0x200_0000) as u8,
        (time / 0x2_0000 % 0x100) as u8,
        (time / 0x200 % 0x100) as u8,
        (time / 2 % 0x100) as u8,
        ((time % 2) * 0x80 + 0x7e) as u8,
        0u8,
    ]
}

/// The 90 kHz count that a coded clock reference stands for.
pub open spec fn pcr_value(bytes: Seq<u8>) -> int {
    bytes[0] as int * 0x200_0000 + bytes[1] as int * 0x2_0000 + bytes[2] as int * 0x200 + bytes[3]
        as int * 2 + bytes[4] as int / 0x80
}

/// The 27 MHz extension that a coded clock reference stands for.
pub open spec fn pcr_extension(bytes: Seq<u8>) -> int {
    (bytes[4] as int % 2) * 0x100 + bytes[5] as int
}

/// 33 bit timestamp interleaved with marker bits, as PTS_DTS fields are coded.
pub fn encode_timestamp(prefix: u8, value: u64) -> (bytes: [u8; 5])
    ensures
        bytes@ == timestamp_bytes(prefix, value),
{
    let time: u64 = value & 0x1_ffff_ffff;
    proof {
        assert(time == value % 0x2_0000_0000) by (bit_vector)
            requires
                time == value & 0x1_ffff_ffff,
        ;
        let high: u8 = ((time >> 30u64) & 0x07) as u8;
        let mid: u8 = ((time >> 15u64) & 0x7f) as u8;
        let low: u8 = (time & 0x7f) as u8;
        assert((time >> 30u64) & 0x07 == time / 0x4000_0000 && (time >> 22u64) & 0xff == time
            / 0x40_0000 % 0x100 && (time >> 15u64) & 0x7f == time / 0x8000 % 0x80 && (time
            >> 7u64) & 0xff == time / 0x80 % 0x100 && time & 0x7f == time % 0x80) by (bit_vector)
            requires
                time < 0x2_0000_0000,
        ;
        assert((prefix << 4u8) | high << 1u8 | 0x01 == (prefix % 16) * 16 + high * 2 + 1)
            by (bit_vector)
            requires
                high < 8,
        ;
        assert((mid << 1u8) | 0x01 == mid * 2 + 1 && (low << 1u8) | 0x01 == low * 2 + 1)
            by (bit_vector)
            requires
                mid < 128,
                low < 128,
        ;
    }
    let bytes: [u8; 5] = [
        (prefix << 4u8) | (((time >> 30u64) & 0x07) as u8) << 1u8 | 0x01,
        ((time >> 22u64) & 0xff) as u8,
        ((((time >> 15u64) & 0x7f) as u8) << 1u8) | 0x01,
        ((time >> 7u64) & 0xff) as u8,
        (((time & 0x7f) as u8) << 1u8) | 0x01,
    ];
    assert(bytes@ =~= timestamp_bytes(prefix, value));
    bytes
}

/// 42 bit program clock reference: a 33 bit 90 kHz base and a 9 bit 27 MHz extension.
pub fn encode_pcr(pcr_90khz: u64) -> (bytes: [u8; 6])
    ensures
        bytes@ == pcr_bytes(pcr_90khz),
{
    let base: u64 = pcr_90khz & 0x1_ffff_ffff;
    let extension: u16 = 0;
    proof {
        assert(base == pcr_90khz % 0x2_0000_0000) by (bit_vector)
            requires
                base == pcr_90khz & 0x1_ffff_ffff,
        ;
        let low: u8 = (base & 0x01) as u8;
        assert((base >> 25u64) & 0xff == base / 0x200_0000 && (base >> 17u64) & 0xff == base
            / 0x2_0000 % 0x100 && (base >> 9u64) & 0xff == base / 0x200 % 0x100 && (base >> 1u64)
            & 0xff == base / 2 % 0x100 && base & 0x01 == base % 2) by (bit_vector)
            requires
                base < 0x2_0000_0000,
        ;
        assert((low << 7u8) | 0x7e | (((0u16 >> 8u16) as u8) & 0x01) == low * 0x80 + 0x7e && 0u16
            & 0xff == 0) by (bit_vector)
            requires
                low < 2,
        ;
    }
    let bytes: [u8; 6] = [
        ((base >> 25u64) & 0xff) as u8,
        ((base >> 17u64) & 0xff) as u8,
        ((base >> 9u64) & 0xff) as u8,
        ((base >> 1u64) & 0xff) as u8,
        (((base & 0x01) as u8) << 7u8) | 0x7e | (((extension >> 8u16) as u8) & 0x01),
        (extension & 0xff) as u8,
    ];
    assert(bytes@ =~= pcr_bytes(pcr_90khz));
    bytes
}

/// Decoding a coded timestamp gives the time back, modulo the 33 bits of the clock, and all
/// three marker bits are there. Times of at most 33 bits come back as they were.
pub proof fn law_timestamp_round_trip(prefix: u8, value: u64)
    ensures
        timestamp_value(timestamp_bytes(prefix, value)) == value as int % clock_period(),
        timestamp_marked(timestamp_bytes(prefix, value)),
        timestamp_bytes(prefix, value)[0] / 16 == prefix % 16,
        value < clock_period() ==> timestamp_value(timestamp_bytes(prefix, value)) == value,
{
    let time = value as int % clock_period();
    let lead = prefix as int % 16;
    let bytes = timestamp_bytes(prefix, value);
    lemma_timestamp_digits(time);
    lemma_first_timestamp_byte(lead, time / 0x4000_0000);
    assert(bytes[0] == lead * 16 + (time / 0x4000_0000) * 2 + 1);
    assert(bytes[1] == time / 0x40_0000 % 0x100);
    assert(bytes[2] == (time / 0x8000 % 0x80) * 2 + 1);
    assert(bytes[3] == time / 0x80 % 0x100);
    assert(bytes[4] == (time % 0x80) * 2 + 1);
}

/// The bits of a coded timestamp, group by group: the prefix, then 3, 15 and 15 bits of the time,
/// each group closed by a one. The time is the given one modulo 2^33.
pub proof fn law_timestamp_bits(prefix: u8, value: u64)
    ensures
        ({
            let bytes = timestamp_bytes(prefix, value);
            &&& bytes.len() == 5
            &&& bytes[0] as int / 16 == prefix as int % 16
            &&& bytes[0] as int % 2 == 1
            &&& bytes[2] as int % 2 == 1
            &&& bytes[4] as int % 2 == 1
            &&& (bytes[0] as int / 2 % 8) * 0x4000_0000 + (bytes[1] as int * 0x80 + bytes[2] as int
                / 2) * 0x8000 + (bytes[3] as int * 0x80 + bytes[4] as int / 2) == value as int
                % 0x2_0000_0000
        }),
{
    law_timestamp_round_trip(prefix, value);
}

/// The bits of a coded clock reference: 33 bits of the count, the given one modulo 2^33, then six
/// ones, then nine zeros.
pub proof fn law_pcr_bits(value: u64)
    ensures
        ({
            let bytes = pcr_bytes(value);
            &&& bytes.len() == 6
            &&& bytes[0] as int * 0x200_0000 + bytes[1] as int * 0x2_0000 + bytes[2] as int * 0x200
                + bytes[3] as int * 2 + bytes[4] as int / 0x80 == value as int % 0x2_0000_0000
            &&& bytes[4] as int / 2 % 0x40 == 0x3f
            &&& bytes[4] as int % 2 == 0
            &&& bytes[5] == 0
        }),
{
    law_pcr_round_trip(value);
    let time = value as int % clock_period();
    assert(pcr_bytes(value)[4] == (time % 2) * 0x80 + 0x7e);
}

/// A 33 bit time is the sum of its 3, 8, 7, 8 and 7 bit digits.
proof fn lemma_timestamp_digits(time: int)
    requires
        0 <= time < clock_period(),
    ensures
        0 <= time / 0x4000_0000 < 8,
        time == (time / 0x4000_0000) * 0x4000_0000 + (time / 0x40_0000 % 0x100) * 0x40_0000 + (time
            / 0x8000 % 0x80) * 0x8000 + (time / 0x80 % 0x100) * 0x80 + time % 0x80,
{
    let a = time / 0x80;
    let b = a / 0x100;
    let c = b / 0x80;
    let d = c / 0x100;
    assert(b == time / 0x8000);
    assert(c == time / 0x40_0000);
    assert(d == time / 0x4000_0000);
}

proof fn lemma_first_timestamp_byte(lead: int, high: int)
    requires
        0 <= lead < 16,
        0 <= high < 8,
    ensures
        (lead * 16 + high * 2 + 1) / 2 % 8 == high,
        (lead * 16 + high * 2 + 1) / 16 == lead,
        (lead * 16 + high * 2 + 1) % 2 == 1,
        0 <= lead * 16 + high * 2 + 1 < 256,
{
}

/// Decoding a coded clock reference gives the count back, modulo the 33 bits of the clock, with
/// no extension.
pub proof fn law_pcr_round_trip(value: u64)
    ensures
        pcr_value(pcr_bytes(value)) == value as int % clock_period(),
        pcr_extension(pcr_bytes(value)) == 0,
        value < clock_period() ==> pcr_value(pcr_bytes(value)) == value,
{
    let time = value as int % clock_period();
    let bytes = pcr_bytes(value);
    lemma_pcr_digits(time);
    assert(bytes[0] == time / 0x200_0000);
    assert(bytes[1] == time / 0x2_0000 % 0x100);
    assert(bytes[2] == time / 0x200 % 0x100);
    assert(bytes[3] == time / 2 % 0x100);
    assert(bytes[4] == (time % 2) * 0x80 + 0x7e);
    assert(bytes[4] as int / 0x80 == time % 2);
    assert(bytes[4] as int % 2 == 0);
}

/// A 33 bit count is the sum of its four bytes and its last bit.
proof fn lemma_pcr_digits(time: int)
    requires
        0 <= time < clock_period(),
    ensures
        0 <= time / 0x200_0000 < 0x100,
        time == (time / 0x200_0000) * 0x200_0000 + (time / 0x2_0000 % 0x100) * 0x2_0000 + (time
            / 0x200 % 0x100) * 0x200 + (time / 2 % 0x100) * 2 + time % 2,
{
    let a = time / 2;
    let b = a / 0x100;
    let c = b / 0x100;
    let d = c / 0x100;
    assert(b == time / 0x200);
    assert(c == time / 0x2_0000);
    assert(d == time / 0x200_0000);
}

} // verus!
