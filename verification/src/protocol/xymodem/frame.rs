//! Blocks on the wire.
//!
//! A block is a start byte, the block number, the complement of the block
//! number, the payload, and the check bytes of the payload. The start byte
//! announces the payload length; what follows it is the frame body.

use super::constants::{CPMEOF, DEFAULT_BLOCK_LENGTH, SOH, STX};
use super::Checksum;
use crate::crc::{
    checksum, crc16, get_checksum, get_crc16, lemma_checksum_detects_one_byte,
    lemma_crc16_detects_one_byte,
};
use vstd::prelude::*;

verus! {

/// Why a frame body was not accepted. Both are answered alike: the receiver
/// drops what is buffered, sends `NAK` and counts a retry.
#[derive(Debug, Clone, Copy, PartialEq, Eq, Structural)]
pub enum BlockError {
    /// The block number and its complement do not match.
    FramingDesync,
    /// The check bytes are not those of the payload.
    ChecksumMismatch,
}

/// The low half of a CRC, which goes on the wire first.
pub open spec fn low_byte(crc: u16) -> u8 {
    (crc & 0xFF) as u8
}

/// The high half of a CRC, which goes on the wire second.
pub open spec fn high_byte(crc: u16) -> u8 {
    (crc >> 8) as u8
}

/// The bitwise complement of a byte.
pub open spec fn complement(b: u8) -> u8 {
    b ^ 0xFF
}

/// The check bytes that follow `payload`.
pub open spec fn check_bytes(mode: Checksum, payload: Seq<u8>) -> Seq<u8> {
    match mode {
        Checksum::Default => seq![checksum(payload)],
        Checksum::CRC16 => seq![low_byte(crc16(payload)), high_byte(crc16(payload))],
    }
}

/// Whether `block`, a payload followed by check bytes, checks: it has at
/// least three bytes and ends in the check bytes of what precedes them.
pub open spec fn block_valid(mode: Checksum, block: Seq<u8>) -> bool {
    &&& block.len() >= 3
    &&& block.skip(block.len() - mode.size()) == check_bytes(
        mode,
        block.take(block.len() - mode.size()),
    )
}

/// The payload of a block: the block without its check bytes.
pub open spec fn payload_of(mode: Checksum, block: Seq<u8>) -> Seq<u8> {
    block.take(block.len() - mode.size())
}

/// Whether a frame body is accepted: the block number is followed by its
/// complement, and the rest checks.
pub open spec fn frame_ok(mode: Checksum, body: Seq<u8>) -> bool {
    &&& body.len() >= 2
    &&& body[0] == complement(body[1])
    &&& block_valid(mode, body.skip(2))
}

/// The frame body of block `num` with `payload`.
pub open spec fn frame_body(mode: Checksum, num: u8, payload: Seq<u8>) -> Seq<u8> {
    seq![num, complement(num)] + payload + check_bytes(mode, payload)
}

/// The start byte of a block whose payload has `len` bytes.
pub open spec fn start_byte(len: usize) -> u8 {
    if len == DEFAULT_BLOCK_LENGTH {
        SOH
    } else {
        STX
    }
}

/// A whole block as it goes on the wire.
pub open spec fn frame(mode: Checksum, num: u8, payload: Seq<u8>) -> Seq<u8> {
    seq![start_byte(payload.len() as usize)] + frame_body(mode, num, payload)
}

/// `n` filler bytes.
pub open spec fn filler(n: nat) -> Seq<u8> {
    Seq::new(n, |i: int| CPMEOF)
}

/// `data` without the filler bytes at its end.
pub open spec fn stripped(data: Seq<u8>) -> Seq<u8>
    decreases data.len(),
{
    if data.len() > 0 && data.last() == CPMEOF {
        stripped(data.drop_last())
    } else {
        data
    }
}

/// The payload of the data block that starts at `offset` of `data`: up to
/// `len` bytes of the file, filled up to `len` with filler bytes.
pub open spec fn chunk(data: Seq<u8>, offset: int, len: int) -> Seq<u8> {
    if offset + len <= data.len() {
        data.subrange(offset, offset + len)
    } else {
        data.subrange(offset, data.len() as int) + filler((offset + len - data.len()) as nat)
    }
}

/// Checks a payload with its check bytes.
pub fn check_block(mode: Checksum, block: &[u8]) -> (r: bool)
    ensures
        r == block_valid(mode, block@),
{
    let n = block.len();
    if n < 3 {
        return false;
    }
    match mode {
        Checksum::Default => {
            let chk = get_checksum(vstd::slice::slice_subrange(block, 0, n - 1));
            proof {
                assert(block@.subrange(0, n - 1) =~= block@.take(n - 1));
                assert(block@.skip(n - 1) =~= seq![block@[n - 1]]);
                assert(seq![block@[n - 1]] == seq![chk] <==> block@[n - 1] == chk) by {
                    if seq![block@[n - 1]] == seq![chk] {
                        assert(seq![block@[n - 1]][0] == seq![chk][0]);
                    }
                }
            }
            block[n - 1] == chk
        },
        Checksum::CRC16 => {
            let crc = get_crc16(vstd::slice::slice_subrange(block, 0, n - 2));
            let lo = crc_low(crc);
            let hi = crc_high(crc);
            proof {
                assert(block@.subrange(0, n - 2) =~= block@.take(n - 2));
                let tail = block@.skip(n - 2);
                assert(tail =~= seq![block@[n - 2], block@[n - 1]]);
                assert(tail == seq![lo, hi] <==> (block@[n - 2] == lo && block@[n - 1] == hi)) by {
                    if tail == seq![lo, hi] {
                        assert(tail[0] == seq![lo, hi][0]);
                        assert(tail[1] == seq![lo, hi][1]);
                    }
                }
            }
            block[n - 2] == lo && block[n - 1] == hi
        },
    }
}

/// The low half of a CRC.
pub fn crc_low(crc: u16) -> (r: u8)
    ensures
        r == low_byte(crc),
{
    assert(crc & 0xFF <= 0xFF) by (bit_vector);
    (crc & 0xFF) as u8
}

/// The high half of a CRC.
pub fn crc_high(crc: u16) -> (r: u8)
    ensures
        r == high_byte(crc),
{
    assert(crc >> 8 <= 0xFF) by (bit_vector);
    (crc >> 8) as u8
}

/// Checks a frame body, and says what is wrong with one that fails.
pub fn check_frame(mode: Checksum, body: &[u8]) -> (r: Result<(), BlockError>)
    ensures
        r is Ok <==> frame_ok(mode, body@),
        r == Err::<(), BlockError>(BlockError::FramingDesync) <==> !(body@.len() >= 2 && body@[0]
            == complement(body@[1])),
{
    if body.len() < 2 || body[0] != body[1] ^ 0xFF {
        return Err(BlockError::FramingDesync);
    }
    let block = vstd::slice::slice_subrange(body, 2, body.len());
    proof {
        assert(body@.subrange(2, body@.len() as int) =~= body@.skip(2));
    }
    if check_block(mode, block) {
        Ok(())
    } else {
        Err(BlockError::ChecksumMismatch)
    }
}

/// Appends `src` to `dst`.
pub fn append(dst: &mut Vec<u8>, src: &[u8])
    ensures
        final(dst)@ == old(dst)@ + src@,
{
    let mut i: usize = 0;
    while i < src.len()
        invariant
            i <= src.len(),
            dst@ == old(dst)@ + src@.take(i as int),
        decreases src.len() - i,
    {
        dst.push(src[i]);
        proof {
            assert(src@.take(i + 1) =~= src@.take(i as int).push(src@[i as int]));
            assert(dst@ =~= old(dst)@ + src@.take(i + 1));
        }
        i = i + 1;
    }
    proof {
        assert(src@.take(i as int) =~= src@);
    }
}

/// Builds the block `num` with `payload` as it goes on the wire.
pub fn build_frame(mode: Checksum, num: u8, payload: &[u8]) -> (r: Vec<u8>)
    ensures
        r@ == frame(mode, num, payload@),
{
    let mut out: Vec<u8> = Vec::new();
    out.push(if payload.len() == DEFAULT_BLOCK_LENGTH {
        SOH
    } else {
        STX
    });
    out.push(num);
    out.push(num ^ 0xFF);
    append(&mut out, payload);
    match mode {
        Checksum::Default => {
            out.push(get_checksum(payload));
        },
        Checksum::CRC16 => {
            let crc = get_crc16(payload);
            out.push(crc_low(crc));
            out.push(crc_high(crc));
        },
    }
    proof {
        assert(out@ =~= frame(mode, num, payload@));
    }
    out
}

/// Cuts the payload of the data block at `offset` out of `data` and fills it
/// up to `len` bytes.
pub fn build_chunk(data: &[u8], offset: usize, len: usize) -> (r: Vec<u8>)
    requires
        offset <= data@.len(),
    ensures
        r@ == chunk(data@, offset as int, len as int),
        r@.len() == len,
{
    let mut out: Vec<u8> = Vec::new();
    let rest = data.len() - offset;
    if len <= rest {
        append(&mut out, vstd::slice::slice_subrange(data, offset, offset + len));
    } else {
        append(&mut out, vstd::slice::slice_subrange(data, offset, data.len()));
        let mut i: usize = rest;
        while i < len
            invariant
                rest <= i <= len,
                rest == data@.len() - offset,
                out@ == data@.subrange(offset as int, data@.len() as int) + filler(
                    (i - rest) as nat,
                ),
            decreases len - i,
        {
            out.push(CPMEOF);
            proof {
                assert(filler((i + 1 - rest) as nat) =~= filler((i - rest) as nat).push(CPMEOF));
                assert(out@ =~= data@.subrange(offset as int, data@.len() as int) + filler(
                    (i + 1 - rest) as nat,
                ));
            }
            i = i + 1;
        }
    }
    out
}

/// Removes the filler bytes at the end of `data`.
pub fn strip_filler(data: &mut Vec<u8>)
    ensures
        final(data)@ == stripped(old(data)@),
{
    while data.len() > 0 && data[data.len() - 1] == CPMEOF
        invariant
            stripped(data@) == stripped(old(data)@),
        decreases data.len(),
    {
        let ghost before = data@;
        data.pop();
        proof {
            assert(data@ =~= before.drop_last());
        }
    }
}

/// A frame body that is built from a payload of at least two bytes is
/// accepted, and the payload stands in it behind the two number bytes.
pub proof fn lemma_frame_body_ok(mode: Checksum, num: u8, payload: Seq<u8>)
    requires
        payload.len() >= 2,
    ensures
        frame_body(mode, num, payload).len() == 2 + payload.len() + mode.size(),
        frame_ok(mode, frame_body(mode, num, payload)),
        frame_body(mode, num, payload).subrange(2, 2 + payload.len() as int) == payload,
{
    let body = frame_body(mode, num, payload);
    let check = check_bytes(mode, payload);
    assert(num == (num ^ 0xFF) ^ 0xFF) by (bit_vector);
    let block = body.skip(2);
    assert(block =~= payload + check);
    assert(block.take(block.len() - mode.size()) =~= payload);
    assert(block.skip(block.len() - mode.size()) =~= check);
    assert(body.subrange(2, 2 + payload.len() as int) =~= payload);
}

/// The two halves of a CRC determine it.
proof fn lemma_halves_determine(a: u16, b: u16)
    requires
        low_byte(a) == low_byte(b),
        high_byte(a) == high_byte(b),
    ensures
        a == b,
{
    assert(((a & 0xFF) as u8 == (b & 0xFF) as u8 && (a >> 8) as u8 == (b >> 8) as u8) ==> a == b)
        by (bit_vector);
}

/// Every change of a single byte of an accepted frame body is detected:
/// whichever byte is replaced by another value, be it a number byte, a
/// payload byte or a check byte, the body is no longer accepted.
pub proof fn lemma_corruption_is_detected(mode: Checksum, body: Seq<u8>, i: int, v: u8)
    requires
        frame_ok(mode, body),
        0 <= i < body.len(),
        v != body[i],
    ensures
        !frame_ok(mode, body.update(i, v)),
{
    let bad = body.update(i, v);
    if i == 0 {
    } else if i == 1 {
        let a = body[1];
        assert(a != v ==> a ^ 0xFF != v ^ 0xFF) by (bit_vector);
    } else {
        let block = body.skip(2);
        let k = i - 2;
        let n = block.len() as int;
        let cut = n - mode.size();
        assert(bad.skip(2) =~= block.update(k, v));
        let payload = block.take(cut);
        let tail = block.skip(cut);
        if k < cut {
            let other = payload.update(k, v);
            assert(block.update(k, v).take(cut) =~= other);
            assert(block.update(k, v).skip(cut) =~= tail);
            match mode {
                Checksum::Default => {
                    lemma_checksum_detects_one_byte(payload, k, v);
                    assert(check_bytes(mode, other)[0] != check_bytes(mode, payload)[0]);
                },
                Checksum::CRC16 => {
                    lemma_crc16_detects_one_byte(payload, k, v);
                    if check_bytes(mode, other) == check_bytes(mode, payload) {
                        assert(check_bytes(mode, other)[0] == check_bytes(mode, payload)[0]);
                        assert(check_bytes(mode, other)[1] == check_bytes(mode, payload)[1]);
                        lemma_halves_determine(crc16(other), crc16(payload));
                    }
                },
            }
        } else {
            assert(block.update(k, v).take(cut) =~= payload);
            assert(block.update(k, v).skip(cut)[k - cut] == v);
            assert(tail[k - cut] == body[i]);
        }
    }
}

/// What the receiver has collected of `data` when the sender stands at
/// `offset`: the bytes before `offset`, and filler where `offset` lies past
/// the end of `data`.
pub open spec fn collected(data: Seq<u8>, offset: int) -> Seq<u8> {
    if offset <= data.len() {
        data.take(offset)
    } else {
        data + filler((offset - data.len()) as nat)
    }
}

/// The block at `offset` continues what was collected up to `offset`.
pub proof fn lemma_chunk_continues(data: Seq<u8>, offset: int, len: int)
    requires
        0 <= offset <= data.len(),
        len >= 0,
    ensures
        collected(data, offset) + chunk(data, offset, len) == collected(data, offset + len),
        chunk(data, offset, len).len() == len,
{
    if offset + len <= data.len() {
        assert(data.take(offset) + data.subrange(offset, offset + len) =~= data.take(offset + len));
    } else {
        assert(data.take(offset) + (data.subrange(offset, data.len() as int) + filler(
            (offset + len - data.len()) as nat,
        )) =~= data + filler((offset + len - data.len()) as nat));
    }
}

/// Stripping removes the filler that padding has added: data that does not
/// itself end in a filler byte comes back as it was.
pub proof fn lemma_strip_restores(data: Seq<u8>, n: nat)
    requires
        data.len() == 0 || data.last() != CPMEOF,
    ensures
        stripped(data + filler(n)) == data,
    decreases n,
{
    let all = data + filler(n);
    if n == 0 {
        assert(all =~= data);
    } else {
        assert(all.last() == CPMEOF);
        assert(all.drop_last() =~= data + filler((n - 1) as nat));
        lemma_strip_restores(data, (n - 1) as nat);
    }
}

} // verus!
