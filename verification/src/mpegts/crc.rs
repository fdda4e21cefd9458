//! The CRC that closes every program table section.

use vstd::prelude::*;

verus! {

/// One bit of the division by the generator polynomial, most significant bit first.
pub open spec fn crc_shift(crc: u32) -> u32 {
    if crc & 0x8000_0000 != 0 {
        (crc << 1u32) ^ 0x04c1_1db7
    } else {
        crc << 1u32
    }
}

/// `n` bits of the division.
pub open spec fn crc_shifts(crc: u32, n: nat) -> u32
    decreases n,
{
    if n == 0 {
        crc
    } else {
        crc_shift(crc_shifts(crc, (n - 1) as nat))
    }
}

/// The remainder after one more message byte.
pub open spec fn crc_byte(crc: u32, byte: u8) -> u32 {
    crc_shifts(crc ^ ((byte as u32) << 24u32), 8)
}

/// The remainder after all of `data`, starting from `crc`.
pub open spec fn crc_from(crc: u32, data: Seq<u8>) -> u32
    decreases data.len(),
{
    if data.len() == 0 {
        crc
    } else {
        crc_byte(crc_from(crc, data.drop_last()), data.last())
    }
}

/// CRC-32/MPEG-2: generator `0x04c11db7`, initial value all ones, no reflection, no final
/// inversion.
pub open spec fn crc32(data: Seq<u8>) -> u32 {
    crc_from(0xffff_ffff, data)
}

/// A 32 bit value, most significant byte first.
pub open spec fn be32(value: u32) -> Seq<u8> {
    seq![
        (value / 0x100_0000) as u8,
        (value / 0x1_0000 % 0x100) as u8,
        (value / 0x100 % 0x100) as u8,
        (value % 0x100) as u8,
    ]
}

/// A section followed by its CRC.
pub open spec fn with_crc(section: Seq<u8>) -> Seq<u8> {
    section + be32(crc32(section))
}

pub fn crc32_mpeg2(data: &[u8]) -> (crc: u32)
    ensures
        crc == crc32(data@),
{
    let mut crc: u32 = 0xffff_ffff;
    let mut i: usize = 0;
    assert(data@.take(0) =~= Seq::empty());
    while i < data.len()
        invariant
            i <= data@.len(),
            crc == crc_from(0xffff_ffff, data@.take(i as int)),
        decreases data@.len() - i,
    {
        let ghost before: u32 = crc;
        crc = crc ^ ((data[i] as u32) << 24u32);
        let ghost start: u32 = crc;
        let mut bit: u32 = 0;
        while bit < 8
            invariant
                bit <= 8,
                crc == crc_shifts(start, bit as nat),
            decreases 8 - bit,
        {
            crc = if crc & 0x8000_0000 != 0 {
                (crc << 1u32) ^ 0x04c1_1db7
            } else {
                crc << 1u32
            };
            bit = bit + 1;
        }
        proof {
            assert(data@.take(i + 1).drop_last() =~= data@.take(i as int));
            assert(crc == crc_byte(before, data@[i as int]));
        }
        i = i + 1;
    }
    assert(data@.take(i as int) =~= data@);
    crc
}

/// Closes a section with its CRC.
pub fn append_crc32(section: &mut Vec<u8>)
    ensures
        final(section)@ == with_crc(old(section)@),
{
    let crc: u32 = crc32_mpeg2(section.as_slice());
    proof {
        lemma_be32_bytes(crc);
    }
    section.push((crc >> 24u32) as u8);
    section.push(((crc >> 16u32) & 0xff) as u8);
    section.push(((crc >> 8u32) & 0xff) as u8);
    section.push((crc & 0xff) as u8);
    assert(section@ =~= with_crc(old(section)@));
}

proof fn lemma_be32_bytes(value: u32)
    ensures
        (value >> 24u32) == value / 0x100_0000,
        (value >> 16u32) & 0xff == value / 0x1_0000 % 0x100,
        (value >> 8u32) & 0xff == value / 0x100 % 0x100,
        value & 0xff == value % 0x100,
{
    assert((value >> 24u32) == value / 0x100_0000 && (value >> 16u32) & 0xff == value / 0x1_0000
        % 0x100 && (value >> 8u32) & 0xff == value / 0x100 % 0x100 && value & 0xff == value
        % 0x100) by (bit_vector);
}

/// Dividing on from the remainder of a first part is dividing the whole.
pub proof fn lemma_crc_concat(crc: u32, first: Seq<u8>, second: Seq<u8>)
    ensures
        crc_from(crc, first + second) == crc_from(crc_from(crc, first), second),
    decreases second.len(),
{
    if second.len() == 0 {
        assert(first + second =~= first);
    } else {
        assert((first + second).drop_last() =~= first + second.drop_last());
        lemma_crc_concat(crc, first, second.drop_last());
    }
}

/// A remainder whose top byte is clear is only shifted by the next eight bits.
proof fn lemma_crc_shifts_clear(crc: u32)
    requires
        crc < 0x100_0000,
    ensures
        crc_shifts(crc, 8) == crc << 8u32,
{
    reveal_with_fuel(crc_shifts, 9);
    assert((crc & 0x8000_0000 == 0) && (crc << 1u32) & 0x8000_0000 == 0 && (crc << 1u32) << 1u32
        == crc << 2u32 && (crc << 2u32) & 0x8000_0000 == 0 && (crc << 2u32) << 1u32 == crc << 3u32
        && (crc << 3u32) & 0x8000_0000 == 0 && (crc << 3u32) << 1u32 == crc << 4u32 && (crc << 4u32)
        & 0x8000_0000 == 0 && (crc << 4u32) << 1u32 == crc << 5u32 && (crc << 5u32) & 0x8000_0000
        == 0 && (crc << 5u32) << 1u32 == crc << 6u32 && (crc << 6u32) & 0x8000_0000 == 0 && (crc
        << 6u32) << 1u32 == crc << 7u32 && (crc << 7u32) & 0x8000_0000 == 0 && (crc << 7u32)
        << 1u32 == crc << 8u32) by (bit_vector)
        requires
            crc < 0x100_0000,
    ;
}

/// Feeding a remainder its own top byte shifts that byte out.
proof fn lemma_crc_byte_own(crc: u32, byte: u8)
    requires
        byte == crc >> 24u32,
    ensures
        crc_byte(crc, byte) == crc << 8u32,
{
    let cleared: u32 = crc ^ ((byte as u32) << 24u32);
    assert(crc ^ (((crc >> 24u32) as u8 as u32) << 24u32) < 0x100_0000 && (crc ^ (((crc
        >> 24u32) as u8 as u32) << 24u32)) << 8u32 == crc << 8u32) by (bit_vector);
    lemma_crc_shifts_clear(cleared);
}

/// The product of an eight bit polynomial and the generator, without carries.
pub open spec fn generator_multiple(factor: u8) -> u64 {
    let generator: u64 = 0x1_04c1_1db7;
    (if factor & 0x80 != 0 {
        generator << 7u64
    } else {
        0
    }) ^ (if factor & 0x40 != 0 {
        generator << 6u64
    } else {
        0
    }) ^ (if factor & 0x20 != 0 {
        generator << 5u64
    } else {
        0
    }) ^ (if factor & 0x10 != 0 {
        generator << 4u64
    } else {
        0
    }) ^ (if factor & 0x08 != 0 {
        generator << 3u64
    } else {
        0
    }) ^ (if factor & 0x04 != 0 {
        generator << 2u64
    } else {
        0
    }) ^ (if factor & 0x02 != 0 {
        generator << 1u64
    } else {
        0
    }) ^ (if factor & 0x01 != 0 {
        generator
    } else {
        0
    })
}

/// The CRC is the remainder of a division of polynomials: it starts from all ones, and after one
/// more byte it differs from the dividend, which is the CRC before and that byte moved up eight
/// bits, by a multiple of the generator `0x104c11db7`. A remainder of 32 bits that does is the
/// only one.
pub proof fn law_crc_is_a_remainder(data: Seq<u8>, byte: u8)
    ensures
        crc32(Seq::empty()) == 0xffff_ffff,
        exists|factor: u8|
            ((((crc32(data) ^ ((byte as u32) << 24u32)) as u64) << 8u64) ^ (crc32(data.push(byte))
                as u64)) == #[trigger] generator_multiple(factor),
{
    let more = data.push(byte);
    assert(more.drop_last() =~= data);
    assert(more.last() == byte);
    let s0: u32 = crc32(data) ^ ((byte as u32) << 24u32);
    reveal_with_fuel(crc_shifts, 9);
    let s1 = crc_shift(s0);
    let s2 = crc_shift(s1);
    let s3 = crc_shift(s2);
    let s4 = crc_shift(s3);
    let s5 = crc_shift(s4);
    let s6 = crc_shift(s5);
    let s7 = crc_shift(s6);
    let s8 = crc_shift(s7);
    assert(crc32(more) == s8);
    let factor: u8 = (((s0 >> 31u32) << 7u32) | ((s1 >> 31u32) << 6u32) | ((s2 >> 31u32) << 5u32)
        | ((s3 >> 31u32) << 4u32) | ((s4 >> 31u32) << 3u32) | ((s5 >> 31u32) << 2u32) | ((s6
        >> 31u32) << 1u32) | (s7 >> 31u32)) as u8;
    lemma_eight_steps(s0, s1, s2, s3, s4, s5, s6, s7, s8, factor);
}

proof fn lemma_eight_steps(
    s0: u32,
    s1: u32,
    s2: u32,
    s3: u32,
    s4: u32,
    s5: u32,
    s6: u32,
    s7: u32,
    s8: u32,
    factor: u8,
)
    by (bit_vector)
    requires
        s1 == crc_shift(s0),
        s2 == crc_shift(s1),
        s3 == crc_shift(s2),
        s4 == crc_shift(s3),
        s5 == crc_shift(s4),
        s6 == crc_shift(s5),
        s7 == crc_shift(s6),
        s8 == crc_shift(s7),
        factor == (((s0 >> 31u32) << 7u32) | ((s1 >> 31u32) << 6u32) | ((s2 >> 31u32) << 5u32) | ((
        s3 >> 31u32) << 4u32) | ((s4 >> 31u32) << 3u32) | ((s5 >> 31u32) << 2u32) | ((s6 >> 31u32)
            << 1u32) | (s7 >> 31u32)) as u8,
    ensures
        (((s0 as u64) << 8u64) ^ (s8 as u64)) == generator_multiple(factor),
{
}

/// A closed section is the section with the four bytes of its CRC behind it, the most significant
/// one first.
pub proof fn law_crc_closes_the_section(section: Seq<u8>)
    ensures
        with_crc(section).len() == section.len() + 4,
        with_crc(section).take(section.len() as int) == section,
        ({
            let tail = with_crc(section).skip(section.len() as int);
            tail[0] * 0x100_0000 + tail[1] * 0x1_0000 + tail[2] * 0x100 + tail[3] == crc32(section)
        }),
{
    let crc = crc32(section);
    assert(with_crc(section).take(section.len() as int) =~= section);
    let a = crc as int / 0x100;
    let b = a / 0x100;
    assert(b == crc as int / 0x1_0000);
    assert(b / 0x100 == crc as int / 0x100_0000);
}

/// A receiver that runs the CRC over a closed section, its CRC included, always gets zero.
pub proof fn law_closed_section_checks(section: Seq<u8>)
    ensures
        crc32(with_crc(section)) == 0,
{
    let crc: u32 = crc32(section);
    let tail: Seq<u8> = be32(crc);
    lemma_be32_bytes(crc);
    lemma_crc_concat(0xffff_ffff, section, tail);
    reveal_with_fuel(crc_from, 5);
    assert(tail.drop_last().drop_last().drop_last().drop_last() =~= Seq::empty());
    assert(tail.drop_last().drop_last().drop_last().last() == tail[0]);
    assert(tail.drop_last().drop_last().last() == tail[1]);
    assert(tail.drop_last().last() == tail[2]);
    lemma_crc_byte_own(crc, tail[0]);
    assert((crc << 8u32) >> 24u32 == (crc >> 16u32) & 0xff && (crc << 8u32) << 8u32 == crc << 16u32
        && (crc << 16u32) >> 24u32 == (crc >> 8u32) & 0xff && (crc << 16u32) << 8u32 == crc
        << 24u32 && (crc << 24u32) >> 24u32 == crc & 0xff && (crc << 24u32) << 8u32 == 0)
        by (bit_vector);
    lemma_crc_byte_own(crc << 8u32, tail[1]);
    lemma_crc_byte_own(crc << 16u32, tail[2]);
    lemma_crc_byte_own(crc << 24u32, tail[3]);
}

} // verus!
