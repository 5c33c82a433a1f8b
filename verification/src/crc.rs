//! Block check values: the 8-bit arithmetic checksum and the 16-bit CRC
//! (polynomial x^16 + x^12 + x^5 + 1, zero initial value, most significant
//! bit first).

use vstd::prelude::*;

verus! {

/// One clock of the CRC shift register with a zero input bit.
pub open spec fn crc16_shift(crc: u16) -> u16 {
    if crc & 0x8000 != 0 {
        (crc << 1) ^ 0x1021
    } else {
        crc << 1
    }
}

/// The register after `n` clocks.
pub open spec fn crc16_shift_n(crc: u16, n: nat) -> u16
    decreases n,
{
    if n == 0 {
        crc
    } else {
        crc16_shift(crc16_shift_n(crc, (n - 1) as nat))
    }
}

/// The register after one more message byte: the byte is added into the high
/// half and the register is clocked eight times.
pub open spec fn crc16_update(crc: u16, b: u8) -> u16 {
    crc16_shift_n(crc ^ ((b as u16) << 8), 8)
}

/// The CRC of a whole message.
pub open spec fn crc16(data: Seq<u8>) -> u16
    decreases data.len(),
{
    if data.len() == 0 {
        0
    } else {
        crc16_update(crc16(data.drop_last()), data.last())
    }
}

/// The arithmetic checksum of a message: the sum of its bytes modulo 256.
pub open spec fn checksum(data: Seq<u8>) -> u8
    decreases data.len(),
{
    if data.len() == 0 {
        0
    } else {
        ((checksum(data.drop_last()) + data.last()) % 256) as u8
    }
}

/// Feeds one byte into a running CRC.
pub fn update_crc16(crc: u16, b: u8) -> (r: u16)
    ensures
        r == crc16_update(crc, b),
{
    let mut reg: u16 = crc ^ ((b as u16) << 8);
    let mut i: u8 = 0;
    while i < 8
        invariant
            i <= 8,
            reg == crc16_shift_n(crc ^ ((b as u16) << 8), i as nat),
        decreases 8 - i,
    {
        if reg & 0x8000 != 0 {
            reg = (reg << 1) ^ 0x1021;
        } else {
            reg = reg << 1;
        }
        i = i + 1;
    }
    reg
}

/// Computes the CRC of `block`.
pub fn get_crc16(block: &[u8]) -> (r: u16)
    ensures
        r == crc16(block@),
{
    let mut crc: u16 = 0;
    let mut i: usize = 0;
    while i < block.len()
        invariant
            i <= block.len(),
            crc == crc16(block@.take(i as int)),
        decreases block.len() - i,
    {
        proof {
            assert(block@.take(i + 1).drop_last() =~= block@.take(i as int));
        }
        crc = update_crc16(crc, block[i]);
        i = i + 1;
    }
    proof {
        assert(block@.take(i as int) =~= block@);
    }
    crc
}

/// Computes the arithmetic checksum of `block`.
pub fn get_checksum(block: &[u8]) -> (r: u8)
    ensures
        r == checksum(block@),
{
    let mut sum: u8 = 0;
    let mut i: usize = 0;
    while i < block.len()
        invariant
            i <= block.len(),
            sum == checksum(block@.take(i as int)),
        decreases block.len() - i,
    {
        proof {
            assert(block@.take(i + 1).drop_last() =~= block@.take(i as int));
        }
        sum = sum.wrapping_add(block[i]);
        i = i + 1;
    }
    proof {
        assert(block@.take(i as int) =~= block@);
    }
    sum
}

/// Two registers that differ still differ after a clock.
pub proof fn lemma_shift_injective(a: u16, b: u16)
    requires
        crc16_shift(a) == crc16_shift(b),
    ensures
        a == b,
{
    assert(((if a & 0x8000 != 0 {
        (a << 1) ^ 0x1021
    } else {
        a << 1
    }) == (if b & 0x8000 != 0 {
        (b << 1) ^ 0x1021
    } else {
        b << 1
    })) ==> a == b) by (bit_vector);
}

/// Two registers that differ still differ after any number of clocks.
pub proof fn lemma_shift_n_injective(a: u16, b: u16, n: nat)
    requires
        crc16_shift_n(a, n) == crc16_shift_n(b, n),
    ensures
        a == b,
    decreases n,
{
    if n > 0 {
        lemma_shift_injective(crc16_shift_n(a, (n - 1) as nat), crc16_shift_n(b, (n - 1) as nat));
        lemma_shift_n_injective(a, b, (n - 1) as nat);
    }
}

/// Feeding a byte into two different registers, or two different bytes into
/// one register, gives two different registers.
pub proof fn lemma_update_injective(c1: u16, x: u8, c2: u16, y: u8)
    requires
        crc16_update(c1, x) == crc16_update(c2, y),
    ensures
        x == y ==> c1 == c2,
        c1 == c2 ==> x == y,
{
    let a = c1 ^ ((x as u16) << 8);
    let b = c2 ^ ((y as u16) << 8);
    lemma_shift_n_injective(a, b, 8);
    assert(c1 ^ ((x as u16) << 8) == c2 ^ ((y as u16) << 8) ==> (x == y ==> c1 == c2) && (c1 == c2
        ==> x == y)) by (bit_vector);
}

/// The CRC tells apart two messages of one length that differ in exactly
/// one byte.
pub proof fn lemma_crc16_detects_one_byte(data: Seq<u8>, i: int, v: u8)
    requires
        0 <= i < data.len(),
        v != data[i],
    ensures
        crc16(data.update(i, v)) != crc16(data),
    decreases data.len(),
{
    let other = data.update(i, v);
    assert(other.last() == if i == data.len() - 1 {
        v
    } else {
        data.last()
    });
    if i == data.len() - 1 {
        assert(other.drop_last() =~= data.drop_last());
        if crc16(other) == crc16(data) {
            let before = crc16(data.drop_last());
            lemma_update_injective(before, v, before, data.last());
        }
    } else {
        assert(other.drop_last() =~= data.drop_last().update(i, v));
        lemma_crc16_detects_one_byte(data.drop_last(), i, v);
        if crc16(other) == crc16(data) {
            lemma_update_injective(
                crc16(other.drop_last()),
                data.last(),
                crc16(data.drop_last()),
                data.last(),
            );
        }
    }
}

/// The arithmetic checksum tells apart two messages of one length that
/// differ in exactly one byte.
pub proof fn lemma_checksum_detects_one_byte(data: Seq<u8>, i: int, v: u8)
    requires
        0 <= i < data.len(),
        v != data[i],
    ensures
        checksum(data.update(i, v)) != checksum(data),
    decreases data.len(),
{
    let other = data.update(i, v);
    if i == data.len() - 1 {
        assert(other.drop_last() =~= data.drop_last());
        assert(other.last() == v);
    } else {
        assert(other.drop_last() =~= data.drop_last().update(i, v));
        assert(other.last() == data.last());
        lemma_checksum_detects_one_byte(data.drop_last(), i, v);
    }
}

} // verus!
