//! A sender and a receiver wired back to back.
//!
//! The session is the model of two engines that are ticked in turn over an
//! in-memory channel that loses and changes nothing. Its law is the round
//! trip: whatever is sent arrives.

use super::constants::{ACK, CPMEOF, EOT, EXT_BLOCK_LENGTH, NAK, PROBE_CRC};
use super::frame::{
    chunk, collected, frame, frame_body, lemma_chunk_continues, lemma_frame_body_ok,
    lemma_strip_restores, stripped,
};
use super::header::{lemma_end_of_batch, lemma_header_round_trip, HEADER_LENGTH};
use super::ry::{begun, recv_step, RecvState, RyView};
use super::sy::{
    announceable, contents_of, send_step, started, SendState, SyView,
};
use super::{Checksum, Direction, XYModemVariant, XYmodem, XYmodemView};
use crate::com::{Queues, TestChannel};
use crate::protocol::{views, FileDescriptor, FileDescriptorView, TransferState};
use vstd::prelude::*;
use vstd::utf8::{encode_utf8, encode_utf8_decode_utf8, encode_utf8_valid_utf8};

verus! {

/// Two engines and the bytes in flight between them.
pub struct Session {
    pub sender: SyView,
    pub receiver: RyView,
    /// Written by the sender, not yet read by the receiver.
    pub to_receiver: Seq<u8>,
    /// Written by the receiver, not yet read by the sender.
    pub to_sender: Seq<u8>,
    /// Whether a step of either engine has reported an error.
    pub failed: bool,
}

/// One tick of the sender, as `Sy::update` ticks it over a channel in
/// memory whose inbound queue is what is in flight to the sender and whose
/// outbound queue is what is in flight to the receiver.
pub open spec fn sender_tick(s: Session) -> Session {
    let t = super::sy::tick_over(
        s.sender,
        Queues { inbound: s.to_sender, outbound: s.to_receiver },
    );
    Session {
        sender: t.0.next,
        to_sender: t.1.inbound,
        to_receiver: t.1.outbound,
        failed: s.failed || t.0.result is Err,
        ..s
    }
}

/// One tick of the receiver, as `Ry::update` ticks it over a channel in
/// memory whose inbound queue is what is in flight to the receiver and whose
/// outbound queue is what is in flight to the sender.
pub open spec fn receiver_tick(s: Session) -> Session {
    let t = super::ry::tick_over(
        s.receiver,
        Queues { inbound: s.to_receiver, outbound: s.to_sender },
    );
    Session {
        receiver: t.0.next,
        to_receiver: t.1.inbound,
        to_sender: t.1.outbound,
        failed: s.failed || t.0.result is Err,
        ..s
    }
}

/// One round: a tick of the sender, then two ticks of the receiver, so that
/// the receiver can take in a whole block, start byte and body, before the
/// sender goes on.
pub open spec fn round(s: Session) -> Session {
    receiver_tick(receiver_tick(sender_tick(s)))
}

/// The session after `n` rounds.
pub open spec fn rounds(s: Session, n: nat) -> Session
    decreases n,
{
    if n == 0 {
        s
    } else {
        rounds(round(s), (n - 1) as nat)
    }
}

/// The session as a transfer opens: the sender has begun to send `files`,
/// the receiver has begun to receive, and the receiver's probe is in flight.
pub open spec fn opening(
    variant: XYModemVariant,
    files: Seq<FileDescriptorView>,
    sender: SyView,
    receiver: RyView,
) -> Session {
    Session {
        sender: started(sender, variant, files),
        receiver: begun(receiver, variant),
        to_receiver: seq![],
        to_sender: seq![PROBE_CRC],
        failed: false,
    }
}

/// A file as it arrives. Its contents arrive with their length as size. Its
/// name arrives in a batch, where a header announces it; outside a batch
/// the file arrives nameless.
pub open spec fn delivered(
    variant: XYModemVariant,
    file: FileDescriptorView,
) -> FileDescriptorView {
    FileDescriptorView {
        name: if variant.is_batch() {
            file.name
        } else {
            seq![]
        },
        size: contents_of(file).len() as usize,
        data: Some(contents_of(file)),
    }
}

/// The first `k` files as they arrive.
pub open spec fn deliveries(
    variant: XYModemVariant,
    files: Seq<FileDescriptorView>,
    k: int,
) -> Seq<FileDescriptorView> {
    Seq::new(k as nat, |i: int| delivered(variant, files[i]))
}

/// Whether `files` can make the round trip in `variant`.
///
/// In a batch every file must be announceable; outside a batch there is
/// exactly one file, and it is not empty, because a receiver that waits for
/// a first block does not take an end of transmission for one. No file ends
/// in a filler byte, because the receiver cannot tell such a byte from the
/// padding of the last block and strips it. The number of files is one that
/// the machine can hold, and the length of each file leaves room for one
/// more block below the largest offset that it can hold.
pub open spec fn transferable(variant: XYModemVariant, files: Seq<FileDescriptorView>) -> bool {
    &&& variant.is_batch() ==> forall|i: int|
        0 <= i < files.len() ==> announceable(#[trigger] files[i])
    &&& !variant.is_batch() ==> files.len() == 1 && contents_of(files[0]).len() > 0
    &&& files.len() <= usize::MAX
    &&& forall|i: int|
        0 <= i < files.len() ==> {
            let d = contents_of(#[trigger] files[i]);
            &&& d.len() == 0 || d.last() != CPMEOF
            &&& d.len() + EXT_BLOCK_LENGTH <= usize::MAX
        }
}

/// Whether the transfer is complete: both engines are idle, no step has
/// reported an error, and the receiver holds every file as it arrives.
pub open spec fn completed(
    s: Session,
    variant: XYModemVariant,
    files: Seq<FileDescriptorView>,
) -> bool {
    &&& s.sender.state == SendState::Idle
    &&& s.receiver.state == RecvState::Idle
    &&& !s.failed
    &&& s.receiver.files == deliveries(variant, files, files.len() as int)
}

/// Bytes that a sender passes over while it waits for the answer to an end
/// of transmission: acknowledgements and probes.
spec fn harmless(bytes: Seq<u8>) -> bool {
    forall|i: int| 0 <= i < bytes.len() ==> #[trigger] bytes[i] == ACK || bytes[i] == PROBE_CRC
}

/// Bytes that a sender passes over while it waits for the acknowledgement
/// of a block: probes.
spec fn probes(bytes: Seq<u8>) -> bool {
    forall|i: int| 0 <= i < bytes.len() ==> #[trigger] bytes[i] == PROBE_CRC
}

/// A file as its header announces it.
spec fn announced(file: FileDescriptorView) -> FileDescriptorView {
    FileDescriptorView { name: file.name, size: contents_of(file).len() as usize, data: None }
}

/// The receiver's files while file `k` is in transfer.
spec fn pending(
    variant: XYModemVariant,
    files: Seq<FileDescriptorView>,
    k: int,
) -> Seq<FileDescriptorView> {
    if variant.is_batch() {
        deliveries(variant, files, k).push(announced(files[k]))
    } else {
        seq![]
    }
}

/// The receiver waits for the first block of file `k`.
spec fn awaits_file(
    r: RyView,
    variant: XYModemVariant,
    files: Seq<FileDescriptorView>,
    k: int,
) -> bool {
    &&& r.state == RecvState::StartReceive(0)
    &&& r.files == deliveries(variant, files, k)
    &&& r.cur_file == k
    &&& r.data == Seq::<u8>::empty()
}

/// The receiver has collected `data` of file `k`.
spec fn collecting(
    r: RyView,
    variant: XYModemVariant,
    files: Seq<FileDescriptorView>,
    k: int,
    data: Seq<u8>,
) -> bool {
    &&& r.files == pending(variant, files, k)
    &&& r.cur_file == k
    &&& r.data == data
}

/// What holds of a session in every state: the engines agree on the
/// variant, nothing is in flight to the receiver, and nothing has failed.
spec fn settled(s: Session, variant: XYModemVariant, files: Seq<FileDescriptorView>) -> bool {
    &&& s.sender.variant == variant
    &&& s.sender.files == files
    &&& s.sender.block_length == variant.block_length()
    &&& s.sender.checksum == Checksum::CRC16
    &&& s.sender.cur_file <= files.len()
    &&& s.receiver.variant == variant
    &&& s.receiver.checksum == Checksum::CRC16
    &&& s.to_receiver == Seq::<u8>::empty()
    &&& !s.failed
}

/// What holds of a session between two rounds of a transfer without
/// faults, by the state of the sender.
spec fn in_step(s: Session, variant: XYModemVariant, files: Seq<FileDescriptorView>) -> bool {
    let k = s.sender.cur_file as int;
    let r = s.receiver;
    let data = contents_of(files[k]);
    let len = variant.block_length() as int;
    &&& settled(s, variant, files)
    &&& match s.sender.state {
        SendState::InitiateSend => {
            &&& k == 0
            &&& awaits_file(r, variant, files, 0)
            &&& s.to_sender == seq![PROBE_CRC]
        },
        SendState::SendYModemHeader(t) => {
            &&& t == 0
            &&& variant.is_batch()
            &&& awaits_file(r, variant, files, k)
            &&& s.to_sender == Seq::<u8>::empty()
        },
        SendState::AckSendYmodemHeader(t) => {
            &&& t == 0
            &&& variant.is_batch()
            &&& if k < files.len() {
                &&& r.state == RecvState::ReadBlockStart(0, 0)
                &&& collecting(r, variant, files, k, seq![])
                &&& s.to_sender == seq![ACK, PROBE_CRC]
            } else {
                &&& r.state == RecvState::Idle
                &&& r.files == deliveries(variant, files, files.len() as int)
                &&& s.to_sender == seq![ACK]
            }
        },
        SendState::SendData(o, t) => {
            &&& t == 0
            &&& k < files.len()
            &&& (o == 0 || o - len < data.len())
            &&& collecting(r, variant, files, k, collected(data, o as int))
            &&& r.state == (if o == 0 && !variant.is_batch() {
                RecvState::StartReceive(0)
            } else {
                RecvState::ReadBlockStart(0, 0)
            })
            &&& if variant.is_streaming() {
                harmless(s.to_sender)
            } else {
                probes(s.to_sender)
            }
        },
        SendState::AckSendData(o, t) => {
            &&& t == 0
            &&& !variant.is_streaming()
            &&& k < files.len()
            &&& o < data.len()
            &&& collecting(r, variant, files, k, collected(data, o + len))
            &&& r.state == RecvState::ReadBlockStart(0, 0)
            &&& s.to_sender.len() > 0
            &&& s.to_sender.last() == ACK
            &&& probes(s.to_sender.drop_last())
        },
        SendState::AckEndOfFile(t) => {
            &&& t == 0
            &&& k < files.len()
            &&& s.to_sender.len() > 0
            &&& harmless(s.to_sender.drop_last())
            &&& if variant.is_batch() {
                &&& r.state == RecvState::ReadBlockStart(1, 0)
                &&& r.files == deliveries(variant, files, k + 1)
                &&& r.cur_file == k + 1
                &&& r.data == Seq::<u8>::empty()
                &&& s.to_sender.last() == NAK
            } else {
                &&& r.state == RecvState::Idle
                &&& r.files == deliveries(variant, files, 1)
                &&& s.to_sender.last() == ACK
            }
        },
        SendState::AckSecondEndOfFile(t) => {
            &&& t == 0
            &&& variant.is_batch()
            &&& k < files.len()
            &&& awaits_file(r, variant, files, k + 1)
            &&& s.to_sender == seq![ACK, PROBE_CRC]
        },
        SendState::AwaitNextFile => {
            &&& variant.is_batch()
            &&& k < files.len()
            &&& awaits_file(r, variant, files, k + 1)
            &&& s.to_sender == seq![PROBE_CRC]
        },
        SendState::Idle => {
            &&& r.state == RecvState::Idle
            &&& r.files == deliveries(variant, files, files.len() as int)
        },
    }
}

/// How far a session is from its end, in five numbers that are compared
/// from the first to the last: the files left, the rank of the sender's
/// state in the course of a file, the bytes of the file that are left,
/// whether a block is still to be sent, and the bytes in flight to the
/// sender.
spec fn weight(s: Session, files: Seq<FileDescriptorView>) -> (int, int, int, int, int) {
    let k = s.sender.cur_file as int;
    let data = contents_of(files[k]);
    let len = s.sender.block_length as int;
    let left = |o: usize| if data.len() + len - o > 0 {
        data.len() + len - o
    } else {
        0
    };
    let flight = s.to_sender.len() as int;
    match s.sender.state {
        SendState::InitiateSend => (files.len() - k, 9, 0, 0, flight),
        SendState::SendYModemHeader(_) => (files.len() - k, 8, 0, 0, flight),
        SendState::AckSendYmodemHeader(_) => (files.len() - k, 7, 0, 0, flight),
        SendState::SendData(o, _) => (files.len() - k, 6, left(o), 1, flight),
        SendState::AckSendData(o, _) => (files.len() - k, 6, left(o), 0, flight),
        SendState::AckEndOfFile(_) => (files.len() - k, 3, 0, 0, flight),
        SendState::AckSecondEndOfFile(_) => (files.len() - k, 2, 0, 0, flight),
        SendState::AwaitNextFile => (files.len() - k, 1, 0, 0, flight),
        SendState::Idle => (0, 0, 0, 0, 0),
    }
}

/// Whether the five numbers `a` come before the five numbers `b`.
spec fn lighter(a: (int, int, int, int, int), b: (int, int, int, int, int)) -> bool {
    &&& a.0 >= 0 && a.1 >= 0 && a.2 >= 0 && a.3 >= 0 && a.4 >= 0
    &&& {
        ||| a.0 < b.0
        ||| (a.0 == b.0 && a.1 < b.1)
        ||| (a.0 == b.0 && a.1 == b.1 && a.2 < b.2)
        ||| (a.0 == b.0 && a.1 == b.1 && a.2 == b.2 && a.3 < b.3)
        ||| (a.0 == b.0 && a.1 == b.1 && a.2 == b.2 && a.3 == b.3 && a.4 < b.4)
    }
}

/// What a round achieves.
spec fn advanced(s: Session, variant: XYModemVariant, files: Seq<FileDescriptorView>) -> bool {
    &&& in_step(round(s), variant, files)
    &&& lighter(weight(round(s), files), weight(s, files))
}

/// The round in which the sender reads the probe.
proof fn lemma_round_from_initiate(
    s: Session,
    variant: XYModemVariant,
    files: Seq<FileDescriptorView>,
)
    requires
        transferable(variant, files),
        in_step(s, variant, files),
        s.sender.state == SendState::InitiateSend,
    ensures
        advanced(s, variant, files),
{
    let none = Seq::<u8>::empty();
    assert(s.to_sender.take(1) =~= seq![PROBE_CRC]);
    assert(s.to_sender.skip(1) =~= none);
    let e = send_step(s.sender, seq![PROBE_CRC]);
    assert(e.reply =~= none);
    let s1 = sender_tick(s);
    assert(s1.to_receiver =~= none);
    assert(s1.to_sender =~= none);
    assert(receiver_tick(s1) == s1);
    assert(round(s) == s1);
    if !variant.is_batch() {
        let data = contents_of(files[0]);
        assert(collected(data, 0) =~= none);
        assert(deliveries(variant, files, 0) =~= Seq::<FileDescriptorView>::empty());
    }
}

/// A receiver that is ready for a block takes in a block that is in flight
/// to it within two ticks: it collects the payload and acknowledges.
proof fn lemma_receiver_takes_block(s: Session, retries: usize, num: u8, payload: Seq<u8>)
    requires
        s.to_receiver == frame(Checksum::CRC16, num, payload),
        payload.len() == super::constants::DEFAULT_BLOCK_LENGTH || payload.len()
            == EXT_BLOCK_LENGTH,
        s.receiver.checksum == Checksum::CRC16,
        super::ry::ready_for_block(s.receiver, retries),
    ensures
        receiver_tick(receiver_tick(s)) == (Session {
            receiver: RyView {
                state: RecvState::ReadBlockStart(0, 0),
                data: s.receiver.data + payload,
                bytes_send: super::ry::saturating_sum(
                    s.receiver.bytes_send,
                    payload.len() as usize,
                ),
                ..s.receiver
            },
            to_receiver: Seq::<u8>::empty(),
            to_sender: s.to_sender + seq![ACK],
            ..s
        }),
{
    let none = Seq::<u8>::empty();
    let len = payload.len() as usize;
    let body = frame_body(Checksum::CRC16, num, payload);
    let start = super::frame::start_byte(len);
    lemma_frame_body_ok(Checksum::CRC16, num, payload);
    assert(s.to_receiver.take(1) =~= seq![start]);
    assert(s.to_receiver.skip(1) =~= body);
    let s1 = receiver_tick(s);
    assert(s1.receiver == (RyView { state: RecvState::ReadBlock(len, retries), ..s.receiver }));
    assert(s1.to_sender =~= s.to_sender);
    assert(s1.to_receiver == body);
    assert(body.take(body.len() as int) =~= body);
    assert(body.skip(body.len() as int) =~= none);
    let s2 = receiver_tick(s1);
    assert(s2.to_receiver =~= none);
}

/// A receiver that waits for a file of a batch takes in a header that is in
/// flight to it within two ticks. If the header ends the batch, the
/// receiver acknowledges and is idle. If it announces a file, the receiver
/// takes the file into its list, acknowledges and asks for the first block.
proof fn lemma_receiver_takes_header(s: Session, payload: Seq<u8>)
    requires
        s.to_receiver == frame(Checksum::CRC16, 0, payload),
        payload.len() == HEADER_LENGTH,
        s.receiver.checksum == Checksum::CRC16,
        s.receiver.variant.is_batch(),
        s.receiver.state == RecvState::StartReceive(0),
    ensures
        payload[0] == 0 ==> receiver_tick(receiver_tick(s)) == (Session {
            receiver: RyView { state: RecvState::Idle, ..s.receiver },
            to_receiver: Seq::<u8>::empty(),
            to_sender: s.to_sender + seq![ACK],
            ..s
        }),
        payload[0] != 0 ==> receiver_tick(receiver_tick(s)) == (Session {
            receiver: RyView {
                state: RecvState::ReadBlockStart(0, 0),
                files: s.receiver.files.push(
                    FileDescriptorView {
                        name: super::ry::text_of(super::header::header_name(payload)),
                        size: super::header::header_size(payload),
                        data: None,
                    },
                ),
                cur_file: s.receiver.files.len() as usize,
                ..s.receiver
            },
            to_receiver: Seq::<u8>::empty(),
            to_sender: s.to_sender + seq![ACK, PROBE_CRC],
            ..s
        }),
{
    let none = Seq::<u8>::empty();
    let body = frame_body(Checksum::CRC16, 0, payload);
    lemma_frame_body_ok(Checksum::CRC16, 0, payload);
    assert(s.to_receiver.take(1) =~= seq![super::constants::SOH]);
    assert(s.to_receiver.skip(1) =~= body);
    let s1 = receiver_tick(s);
    assert(s1.receiver == (RyView { state: RecvState::ReadYModemHeader(0), ..s.receiver }));
    assert(s1.to_sender =~= s.to_sender);
    assert(s1.to_receiver == body);
    assert(body.take(body.len() as int) =~= body);
    assert(body.skip(body.len() as int) =~= none);
    let s2 = receiver_tick(s1);
    assert(s2.to_receiver =~= none);
}

/// The round in which the sender sends a header and the receiver takes it
/// in.
proof fn lemma_round_from_header(
    s: Session,
    variant: XYModemVariant,
    files: Seq<FileDescriptorView>,
)
    requires
        transferable(variant, files),
        in_step(s, variant, files),
        s.sender.state is SendYModemHeader,
    ensures
        advanced(s, variant, files),
{
    let none = Seq::<u8>::empty();
    let k = s.sender.cur_file as int;
    let payload = super::sy::header_due(s.sender);
    let s1 = sender_tick(s);
    assert(s1.to_receiver =~= frame(Checksum::CRC16, 0, payload));
    assert(s1.to_sender =~= none);
    if k < files.len() {
        let file = files[k];
        let name = encode_utf8(file.name);
        let size = contents_of(file).len() as usize;
        assert(announceable(file));
        lemma_header_round_trip(name, size);
        encode_utf8_valid_utf8(file.name);
        encode_utf8_decode_utf8(file.name);
        lemma_receiver_takes_header(s1, payload);
        assert(deliveries(variant, files, k).len() == k);
        assert(none + seq![ACK, PROBE_CRC] =~= seq![ACK, PROBE_CRC]);
    } else {
        lemma_end_of_batch();
        lemma_receiver_takes_header(s1, payload);
        assert(none + seq![ACK] =~= seq![ACK]);
    }
}

/// The round in which the sender reads the acknowledgement of a header.
proof fn lemma_round_from_header_ack(
    s: Session,
    variant: XYModemVariant,
    files: Seq<FileDescriptorView>,
)
    requires
        transferable(variant, files),
        in_step(s, variant, files),
        s.sender.state is AckSendYmodemHeader,
    ensures
        advanced(s, variant, files),
{
    let none = Seq::<u8>::empty();
    let k = s.sender.cur_file as int;
    assert(s.to_sender.take(1) =~= seq![ACK]);
    let s1 = sender_tick(s);
    assert(s1.to_receiver =~= none);
    assert(receiver_tick(s1) == s1);
    if k < files.len() {
        assert(s.to_sender.skip(1) =~= seq![PROBE_CRC]);
        assert(collected(contents_of(files[k]), 0) =~= none);
    }
}

/// The round in which the sender sends a block and the receiver takes it
/// in.
proof fn lemma_round_from_block(s: Session, variant: XYModemVariant, files: Seq<FileDescriptorView>)
    requires
        transferable(variant, files),
        in_step(s, variant, files),
        s.sender.state is SendData,
        s.sender.state->SendData_0 < contents_of(files[s.sender.cur_file as int]).len(),
    ensures
        advanced(s, variant, files),
{
    let k = s.sender.cur_file as int;
    let o = s.sender.state->SendData_0;
    let data = contents_of(files[k]);
    let len = variant.block_length();
    let s1 = sender_tick(s);
    assert(s1.to_sender == s.to_sender);
    let payload = chunk(data, o as int, len as int);
    lemma_chunk_continues(data, o as int, len as int);
    assert(s1.to_receiver =~= frame(Checksum::CRC16, s.sender.block_number, payload));
    lemma_receiver_takes_block(s1, 0, s.sender.block_number, payload);
    let s3 = round(s);
    assert(s3.to_sender.last() == ACK);
    assert(s3.to_sender.drop_last() =~= s.to_sender);
    assert(s3.receiver.data == collected(data, o + len));
    if variant.is_streaming() {
        assert forall|i: int| 0 <= i < s3.to_sender.len() implies #[trigger] s3.to_sender[i] == ACK
            || s3.to_sender[i] == PROBE_CRC by {
            if i < s.to_sender.len() {
                assert(s3.to_sender[i] == s.to_sender[i]);
            }
        }
    }
}

/// The round in which the sender, past the end of the file, sends the end
/// of transmission and the receiver completes the file.
proof fn lemma_round_from_last_block(
    s: Session,
    variant: XYModemVariant,
    files: Seq<FileDescriptorView>,
)
    requires
        transferable(variant, files),
        in_step(s, variant, files),
        s.sender.state is SendData,
        s.sender.state->SendData_0 >= contents_of(files[s.sender.cur_file as int]).len(),
    ensures
        advanced(s, variant, files),
{
    let none = Seq::<u8>::empty();
    let k = s.sender.cur_file as int;
    let o = s.sender.state->SendData_0;
    let data = contents_of(files[k]);
    let r = s.receiver;
    let s1 = sender_tick(s);
    assert(s1.to_sender == s.to_sender);
    assert(s1.to_receiver =~= seq![EOT]);
    assert(variant.is_batch() || o != 0);
    assert(s1.to_receiver.take(1) =~= seq![EOT]);
    assert(s1.to_receiver.skip(1) =~= none);
    let s2 = receiver_tick(s1);
    assert(s2.to_receiver =~= none);
    assert(receiver_tick(s2) == s2);
    lemma_strip_restores(data, (o - data.len()) as nat);
    assert(collected(data, o as int) =~= data + super::frame::filler((o - data.len()) as nat));
    assert(stripped(r.data) == data);
    let done = super::ry::end_of_file(r);
    if variant.is_batch() {
        assert(deliveries(variant, files, k).len() == k);
        assert(done.files =~= deliveries(variant, files, k + 1));
        assert(s2.to_sender.last() == NAK);
    } else {
        assert(done.files =~= deliveries(variant, files, 1));
        assert(s2.to_sender.last() == ACK);
    }
    assert(s2.to_sender.drop_last() =~= s.to_sender);
    assert forall|i: int| 0 <= i < s.to_sender.len() implies #[trigger] s.to_sender[i] == ACK
        || s.to_sender[i] == PROBE_CRC by {}
}

/// The round of a sender that has data or the end of transmission to send.
proof fn lemma_round_from_data(s: Session, variant: XYModemVariant, files: Seq<FileDescriptorView>)
    requires
        transferable(variant, files),
        in_step(s, variant, files),
        s.sender.state is SendData,
    ensures
        advanced(s, variant, files),
{
    if s.sender.state->SendData_0 < contents_of(files[s.sender.cur_file as int]).len() {
        lemma_round_from_block(s, variant, files);
    } else {
        lemma_round_from_last_block(s, variant, files);
    }
}

/// The round in which the sender reads a byte while it waits for the
/// acknowledgement of a block.
proof fn lemma_round_from_data_ack(
    s: Session,
    variant: XYModemVariant,
    files: Seq<FileDescriptorView>,
)
    requires
        transferable(variant, files),
        in_step(s, variant, files),
        s.sender.state is AckSendData,
    ensures
        advanced(s, variant, files),
{
    let none = Seq::<u8>::empty();
    let rest = s.to_sender.skip(1);
    assert(s.to_sender.take(1) =~= seq![s.to_sender[0]]);
    let s1 = sender_tick(s);
    assert(s1.to_receiver =~= none);
    assert(receiver_tick(s1) == s1);
    if s.to_sender.len() == 1 {
        assert(rest =~= none);
    } else {
        assert(s.to_sender.drop_last()[0] == s.to_sender[0]);
        assert(rest.last() == ACK);
        assert forall|i: int| 0 <= i < rest.drop_last().len() implies #[trigger] rest.drop_last()[i]
            == PROBE_CRC by {
            assert(rest.drop_last()[i] == s.to_sender.drop_last()[i + 1]);
        }
    }
}

/// The round in which the sender reads a byte while it waits for the
/// answer to the end of transmission.
proof fn lemma_round_from_end_of_file(
    s: Session,
    variant: XYModemVariant,
    files: Seq<FileDescriptorView>,
)
    requires
        transferable(variant, files),
        in_step(s, variant, files),
        s.sender.state is AckEndOfFile,
    ensures
        advanced(s, variant, files),
{
    let none = Seq::<u8>::empty();
    let rest = s.to_sender.skip(1);
    let b = s.to_sender[0];
    assert(s.to_sender.take(1) =~= seq![b]);
    let s1 = sender_tick(s);
    if s.to_sender.len() == 1 {
        assert(rest =~= none);
        if variant.is_batch() {
            assert(s1.to_receiver =~= seq![EOT]);
            assert(s1.to_receiver.take(1) =~= seq![EOT]);
            assert(s1.to_receiver.skip(1) =~= none);
            let s2 = receiver_tick(s1);
            assert(s2.to_receiver =~= none);
            assert(s2.to_sender =~= seq![ACK, PROBE_CRC]);
            assert(receiver_tick(s2) == s2);
        } else {
            assert(s1.to_receiver =~= none);
            assert(receiver_tick(s1) == s1);
        }
    } else {
        assert(s.to_sender.drop_last()[0] == b);
        assert(s1.to_receiver =~= none);
        assert(receiver_tick(s1) == s1);
        if s1.sender.state is AckEndOfFile {
            assert(rest.last() == s.to_sender.last());
            assert forall|i: int| 0 <= i < rest.drop_last().len() implies
                #[trigger] rest.drop_last()[i] == ACK || rest.drop_last()[i] == PROBE_CRC by {
                assert(rest.drop_last()[i] == s.to_sender.drop_last()[i + 1]);
            }
        }
    }
}

/// The round in which the sender reads the acknowledgement of the second
/// end of transmission.
proof fn lemma_round_from_second_end_of_file(
    s: Session,
    variant: XYModemVariant,
    files: Seq<FileDescriptorView>,
)
    requires
        transferable(variant, files),
        in_step(s, variant, files),
        s.sender.state is AckSecondEndOfFile,
    ensures
        advanced(s, variant, files),
{
    let none = Seq::<u8>::empty();
    assert(s.to_sender.take(1) =~= seq![ACK]);
    assert(s.to_sender.skip(1) =~= seq![PROBE_CRC]);
    let s1 = sender_tick(s);
    assert(s1.to_receiver =~= none);
    assert(receiver_tick(s1) == s1);
}

/// The round in which the sender reads the probe that asks for the next
/// header.
proof fn lemma_round_from_next_file(
    s: Session,
    variant: XYModemVariant,
    files: Seq<FileDescriptorView>,
)
    requires
        transferable(variant, files),
        in_step(s, variant, files),
        s.sender.state is AwaitNextFile,
    ensures
        advanced(s, variant, files),
{
    let none = Seq::<u8>::empty();
    assert(s.to_sender.take(1) =~= seq![PROBE_CRC]);
    assert(s.to_sender.skip(1) =~= none);
    let s1 = sender_tick(s);
    assert(s1.to_receiver =~= none);
    assert(receiver_tick(s1) == s1);
}

/// A transfer without faults that has not ended is nearer to its end after
/// a round.
proof fn lemma_round_advances(s: Session, variant: XYModemVariant, files: Seq<FileDescriptorView>)
    requires
        transferable(variant, files),
        in_step(s, variant, files),
        s.sender.state != SendState::Idle,
    ensures
        advanced(s, variant, files),
{
    match s.sender.state {
        SendState::InitiateSend => lemma_round_from_initiate(s, variant, files),
        SendState::SendYModemHeader(_) => lemma_round_from_header(s, variant, files),
        SendState::AckSendYmodemHeader(_) => lemma_round_from_header_ack(s, variant, files),
        SendState::SendData(_, _) => lemma_round_from_data(s, variant, files),
        SendState::AckSendData(_, _) => lemma_round_from_data_ack(s, variant, files),
        SendState::AckEndOfFile(_) => lemma_round_from_end_of_file(s, variant, files),
        SendState::AckSecondEndOfFile(_) => lemma_round_from_second_end_of_file(
            s,
            variant,
            files,
        ),
        SendState::AwaitNextFile => lemma_round_from_next_file(s, variant, files),
        SendState::Idle => {},
    }
}

/// A transfer without faults ends, and ends complete.
proof fn lemma_ends(s: Session, variant: XYModemVariant, files: Seq<FileDescriptorView>) -> (n: nat)
    requires
        transferable(variant, files),
        in_step(s, variant, files),
    ensures
        completed(rounds(s, n), variant, files),
    decreases weight(s, files).0, weight(s, files).1, weight(s, files).2, weight(s, files).3,
        weight(s, files).4,
{
    if s.sender.state == SendState::Idle {
        0
    } else {
        lemma_round_advances(s, variant, files);
        let n = lemma_ends(round(s), variant, files);
        n + 1
    }
}

/// The round trip. A sender that has begun to send `files` and a fresh
/// receiver that has begun to receive, ticked in rounds over a channel that
/// loses and changes nothing, both come to rest after finitely many rounds,
/// without either having reported an error, and the receiver then holds
/// every file as it arrives: with the contents that were sent, with their
/// length as size, and in a batch under the name that was sent.
pub proof fn lemma_round_trip(
    variant: XYModemVariant,
    files: Seq<FileDescriptorView>,
    sender: SyView,
    receiver: RyView,
) -> (n: nat)
    requires
        transferable(variant, files),
        receiver.files.len() == 0,
        receiver.cur_file == 0,
    ensures
        completed(rounds(opening(variant, files, sender, receiver), n), variant, files),
{
    let s = opening(variant, files, sender, receiver);
    assert(deliveries(variant, files, 0) =~= receiver.files);
    lemma_ends(s, variant, files)
}

/// A corrupted block is sent again and arrives.
///
/// A sender that acknowledges block by block sends the block at its offset;
/// on the way one byte behind the start byte is replaced by another value.
/// The receiver, which stands between blocks below its retry bound, rejects
/// the block: it collects nothing, asks for unread input to be dropped,
/// answers `NAK`, and counts a retry. On that `NAK` the sender, below its
/// retry bound, sends the very same block again, and the receiver, given it
/// unchanged, collects its payload behind what it had collected before and
/// acknowledges.
pub proof fn lemma_corrupted_block_is_sent_again(
    sender: SyView,
    receiver: RyView,
    i: int,
    v: u8,
)
    requires
        sender.state matches SendState::SendData(offset, retries) && offset
            < super::sy::contents(sender).len() && retries < super::ry::MAX_BLOCK_RETRIES,
        !sender.variant.is_streaming(),
        sender.block_length == super::constants::DEFAULT_BLOCK_LENGTH || sender.block_length
            == EXT_BLOCK_LENGTH,
        receiver.state matches RecvState::ReadBlockStart(step, retries) && step == 0 && retries
            < super::ry::MAX_BLOCK_RETRIES,
        receiver.checksum == sender.checksum,
        !receiver.variant.is_streaming(),
        1 <= i < send_step(sender, seq![]).reply.len(),
        v != send_step(sender, seq![]).reply[i],
    ensures
        ({
            let block = send_step(sender, seq![]).reply;
            let waiting = send_step(sender, seq![]).next;
            let reading = recv_step(receiver, block.take(1)).next;
            let rejected = recv_step(reading, block.update(i, v).skip(1));
            let again = send_step(send_step(waiting, seq![NAK]).next, seq![]);
            let rereading = recv_step(rejected.next, again.reply.take(1)).next;
            let accepted = recv_step(rereading, again.reply.skip(1));
            &&& rejected.reply == seq![NAK]
            &&& rejected.discard
            &&& rejected.result is Ok
            &&& rejected.next.data == receiver.data
            &&& rejected.next.files == receiver.files
            &&& rejected.next.state == RecvState::ReadBlockStart(
                0,
                (receiver.state->ReadBlockStart_1 + 1) as usize,
            )
            &&& send_step(waiting, seq![NAK]).reply == Seq::<u8>::empty()
            &&& again.reply == block
            &&& accepted.reply == seq![ACK]
            &&& accepted.result is Ok
            &&& accepted.next.state == RecvState::ReadBlockStart(0, 0)
            &&& accepted.next.data == receiver.data + chunk(
                super::sy::contents(sender),
                sender.state->SendData_0 as int,
                sender.block_length as int,
            )
        }),
{
    let offset = sender.state->SendData_0;
    let data = super::sy::contents(sender);
    let len = sender.block_length;
    let payload = chunk(data, offset as int, len as int);
    lemma_chunk_continues(data, offset as int, len as int);
    let mode = sender.checksum;
    let block = send_step(sender, seq![]).reply;
    let body = frame_body(mode, sender.block_number, payload);
    lemma_frame_body_ok(mode, sender.block_number, payload);
    assert(block == frame(mode, sender.block_number, payload));
    assert(block.take(1) =~= seq![super::frame::start_byte(len)]);
    assert(block.skip(1) =~= body);
    assert(block.update(i, v).skip(1) =~= body.update(i - 1, v));
    super::frame::lemma_corruption_is_detected(mode, body, i - 1, v);
}

/// A fault on the wire: the byte at `at` of what is in flight to the
/// receiver arrives as `value`.
pub struct Fault {
    pub at: int,
    pub value: u8,
}

/// One sending of a data block: the file, the offset of the block in it,
/// and how often the block was sent before.
pub struct Attempt {
    pub file: int,
    pub offset: usize,
    pub retries: usize,
}

/// The faults of a wire: which sendings of which blocks it changes, and
/// how.
pub type Faults = Map<Attempt, Fault>;

/// Whether the faults leave every block a chance: no block is changed
/// again once it was sent as often as the retry bound allows.
pub open spec fn bounded(faults: Faults) -> bool {
    forall|a: Attempt| #[trigger]
        faults.contains_key(a) ==> a.retries < super::ry::MAX_BLOCK_RETRIES
}

/// The sending that a sender with a block to send is about to make.
pub open spec fn attempt_of(v: SyView) -> Attempt {
    Attempt {
        file: v.cur_file as int,
        offset: v.state->SendData_0,
        retries: v.state->SendData_1,
    }
}

/// Whether the wire changes the block that the sender has just put on it:
/// the sender had a block to send, the faults name this sending of it, and
/// the fault puts another value in the place of a byte behind the start
/// byte.
pub open spec fn hits(before: Session, wire: Seq<u8>, faults: Faults) -> bool {
    &&& before.sender.state is SendData
    &&& faults.contains_key(attempt_of(before.sender))
    &&& 1 <= faults[attempt_of(before.sender)].at < wire.len()
    &&& faults[attempt_of(before.sender)].value != wire[faults[attempt_of(before.sender)].at]
}

/// One round on a faulty wire: a tick of the sender, the fault if one hits,
/// and two ticks of the receiver.
pub open spec fn faulty_round(s: Session, faults: Faults) -> Session {
    let sent = sender_tick(s);
    let fault = faults[attempt_of(s.sender)];
    receiver_tick(
        receiver_tick(
            if hits(s, sent.to_receiver, faults) {
                Session { to_receiver: sent.to_receiver.update(fault.at, fault.value), ..sent }
            } else {
                sent
            },
        ),
    )
}

/// The session after `n` rounds on a faulty wire.
pub open spec fn faulty_rounds(s: Session, faults: Faults, n: nat) -> Session
    decreases n,
{
    if n == 0 {
        s
    } else {
        faulty_rounds(faulty_round(s, faults), faults, (n - 1) as nat)
    }
}

/// What holds between two rounds of a transfer that acknowledges block by
/// block, on a faulty wire. While a block is on its way, sender and
/// receiver count its failures alike, and the count is within the bound.
spec fn in_step_with_faults(
    s: Session,
    variant: XYModemVariant,
    files: Seq<FileDescriptorView>,
) -> bool {
    let k = s.sender.cur_file as int;
    let r = s.receiver;
    let data = contents_of(files[k]);
    let len = variant.block_length() as int;
    &&& !variant.is_streaming()
    &&& match s.sender.state {
        SendState::SendData(o, t) => {
            &&& settled(s, variant, files)
            &&& k < files.len()
            &&& (o == 0 || o - len < data.len())
            &&& (t > 0 ==> o < data.len())
            &&& t <= super::ry::MAX_BLOCK_RETRIES
            &&& collecting(r, variant, files, k, collected(data, o as int))
            &&& r.state == (if o == 0 && !variant.is_batch() && t == 0 {
                RecvState::StartReceive(0)
            } else {
                RecvState::ReadBlockStart(0, t)
            })
            &&& probes(s.to_sender)
        },
        SendState::AckSendData(o, t) => {
            &&& settled(s, variant, files)
            &&& k < files.len()
            &&& o < data.len()
            &&& s.to_sender.len() > 0
            &&& probes(s.to_sender.drop_last())
            &&& if s.to_sender.last() == NAK {
                &&& t < super::ry::MAX_BLOCK_RETRIES
                &&& collecting(r, variant, files, k, collected(data, o as int))
                &&& r.state == RecvState::ReadBlockStart(0, (t + 1) as usize)
            } else {
                &&& s.to_sender.last() == ACK
                &&& t <= super::ry::MAX_BLOCK_RETRIES
                &&& collecting(r, variant, files, k, collected(data, o + len))
                &&& r.state == RecvState::ReadBlockStart(0, 0)
            }
        },
        _ => in_step(s, variant, files),
    }
}

/// How far a session on a faulty wire is from its end, in six numbers: the
/// five of a session without faults, and after the third of them the
/// number of times that the block on its way may still fail.
spec fn weight_with_faults(s: Session, files: Seq<FileDescriptorView>) -> (
    int,
    int,
    int,
    int,
    int,
    int,
) {
    let w = weight(s, files);
    let chances = |t: usize| if t <= super::ry::MAX_BLOCK_RETRIES {
        super::ry::MAX_BLOCK_RETRIES - t
    } else {
        0
    };
    match s.sender.state {
        SendState::SendData(_, t) => (w.0, w.1, w.2, chances(t), w.3, w.4),
        SendState::AckSendData(_, t) => (w.0, w.1, w.2, chances(t), w.3, w.4),
        _ => (w.0, w.1, w.2, 0, w.3, w.4),
    }
}

/// Whether the six numbers `a` come before the six numbers `b`.
spec fn lighter_with_faults(
    a: (int, int, int, int, int, int),
    b: (int, int, int, int, int, int),
) -> bool {
    &&& a.0 >= 0 && a.1 >= 0 && a.2 >= 0 && a.3 >= 0 && a.4 >= 0 && a.5 >= 0
    &&& {
        ||| a.0 < b.0
        ||| (a.0 == b.0 && a.1 < b.1)
        ||| (a.0 == b.0 && a.1 == b.1 && a.2 < b.2)
        ||| (a.0 == b.0 && a.1 == b.1 && a.2 == b.2 && a.3 < b.3)
        ||| (a.0 == b.0 && a.1 == b.1 && a.2 == b.2 && a.3 == b.3 && a.4 < b.4)
        ||| (a.0 == b.0 && a.1 == b.1 && a.2 == b.2 && a.3 == b.3 && a.4 == b.4 && a.5 < b.5)
    }
}

/// What a round on a faulty wire achieves.
spec fn advanced_with_faults(
    s: Session,
    faults: Faults,
    variant: XYModemVariant,
    files: Seq<FileDescriptorView>,
) -> bool {
    let after = faulty_round(s, faults);
    &&& in_step_with_faults(after, variant, files)
    &&& lighter_with_faults(weight_with_faults(after, files), weight_with_faults(s, files))
}

/// A receiver that is ready for a block, below its retry bound, rejects a
/// block of which a byte behind the start byte was changed on the wire: it
/// collects nothing, drops what is in flight to it, and answers `NAK`.
proof fn lemma_receiver_rejects_block(
    s: Session,
    retries: usize,
    num: u8,
    payload: Seq<u8>,
    fault: Fault,
)
    requires
        1 <= fault.at < frame(Checksum::CRC16, num, payload).len(),
        fault.value != frame(Checksum::CRC16, num, payload)[fault.at],
        s.to_receiver == frame(Checksum::CRC16, num, payload).update(fault.at, fault.value),
        payload.len() == super::constants::DEFAULT_BLOCK_LENGTH || payload.len()
            == EXT_BLOCK_LENGTH,
        s.receiver.checksum == Checksum::CRC16,
        !s.receiver.variant.is_streaming(),
        super::ry::ready_for_block(s.receiver, retries),
        retries < super::ry::MAX_BLOCK_RETRIES,
    ensures
        receiver_tick(receiver_tick(s)) == (Session {
            receiver: RyView {
                state: RecvState::ReadBlockStart(0, (retries + 1) as usize),
                errors: super::ry::saturating_inc(s.receiver.errors),
                ..s.receiver
            },
            to_receiver: Seq::<u8>::empty(),
            to_sender: s.to_sender + seq![NAK],
            ..s
        }),
{
    let none = Seq::<u8>::empty();
    let len = payload.len() as usize;
    let body = frame_body(Checksum::CRC16, num, payload);
    let start = super::frame::start_byte(len);
    let whole = frame(Checksum::CRC16, num, payload);
    lemma_frame_body_ok(Checksum::CRC16, num, payload);
    assert(whole.skip(1) =~= body);
    let bad = body.update(fault.at - 1, fault.value);
    super::frame::lemma_corruption_is_detected(Checksum::CRC16, body, fault.at - 1, fault.value);
    assert(s.to_receiver.take(1) =~= seq![start]);
    assert(s.to_receiver.skip(1) =~= bad);
    let s1 = receiver_tick(s);
    assert(s1.receiver == (RyView { state: RecvState::ReadBlock(len, retries), ..s.receiver }));
    assert(s1.to_sender =~= s.to_sender);
    assert(s1.to_receiver == bad);
    assert(bad.take(bad.len() as int) =~= bad);
    let s2 = receiver_tick(s1);
    assert(s2.to_receiver =~= none);
}

/// The round in which the sender sends a block on a faulty wire: the
/// receiver takes it in if it comes unchanged, and rejects it if not.
proof fn lemma_faulty_round_from_block(
    s: Session,
    faults: Faults,
    variant: XYModemVariant,
    files: Seq<FileDescriptorView>,
)
    requires
        transferable(variant, files),
        bounded(faults),
        in_step_with_faults(s, variant, files),
        s.sender.state is SendData,
        s.sender.state->SendData_0 < contents_of(files[s.sender.cur_file as int]).len(),
    ensures
        advanced_with_faults(s, faults, variant, files),
{
    let k = s.sender.cur_file as int;
    let o = s.sender.state->SendData_0;
    let t = s.sender.state->SendData_1;
    let data = contents_of(files[k]);
    let len = variant.block_length();
    let s1 = sender_tick(s);
    assert(s1.to_sender == s.to_sender);
    let payload = chunk(data, o as int, len as int);
    lemma_chunk_continues(data, o as int, len as int);
    let whole = frame(Checksum::CRC16, s.sender.block_number, payload);
    assert(s1.to_receiver =~= whole);
    let retries: usize = if o == 0 && !variant.is_batch() && t == 0 {
        0
    } else {
        t
    };
    let after = faulty_round(s, faults);
    if hits(s, s1.to_receiver, faults) {
        let fault = faults[attempt_of(s.sender)];
        assert(faults.contains_key(attempt_of(s.sender)));
        assert(t < super::ry::MAX_BLOCK_RETRIES);
        let s2 = Session { to_receiver: whole.update(fault.at, fault.value), ..s1 };
        lemma_receiver_rejects_block(s2, retries, s.sender.block_number, payload, fault);
        assert(after.to_sender.last() == NAK);
        assert(after.to_sender.drop_last() =~= s.to_sender);
    } else {
        lemma_receiver_takes_block(s1, retries, s.sender.block_number, payload);
        assert(after.to_sender.last() == ACK);
        assert(after.to_sender.drop_last() =~= s.to_sender);
        assert(after.receiver.data == collected(data, o + len));
    }
}

/// The round in which the sender reads a byte while it waits for the
/// acknowledgement of a block, on a faulty wire: on `ACK` it goes on to
/// the next block, on `NAK` it stands ready to send the same block again.
proof fn lemma_faulty_round_from_data_ack(
    s: Session,
    faults: Faults,
    variant: XYModemVariant,
    files: Seq<FileDescriptorView>,
)
    requires
        transferable(variant, files),
        in_step_with_faults(s, variant, files),
        s.sender.state is AckSendData,
    ensures
        advanced_with_faults(s, faults, variant, files),
{
    let none = Seq::<u8>::empty();
    let rest = s.to_sender.skip(1);
    assert(s.to_sender.take(1) =~= seq![s.to_sender[0]]);
    let s1 = sender_tick(s);
    assert(s1.to_receiver =~= none);
    assert(receiver_tick(s1) == s1);
    assert(faulty_round(s, faults) == s1);
    if s.to_sender.len() == 1 {
        assert(rest =~= none);
    } else {
        assert(s.to_sender.drop_last()[0] == s.to_sender[0]);
        assert(rest.last() == s.to_sender.last());
        assert forall|i: int| 0 <= i < rest.drop_last().len() implies #[trigger] rest.drop_last()[i]
            == PROBE_CRC by {
            assert(rest.drop_last()[i] == s.to_sender.drop_last()[i + 1]);
        }
    }
}

/// A round on a faulty wire, wherever the session stands.
proof fn lemma_faulty_round_advances(
    s: Session,
    faults: Faults,
    variant: XYModemVariant,
    files: Seq<FileDescriptorView>,
)
    requires
        transferable(variant, files),
        bounded(faults),
        in_step_with_faults(s, variant, files),
        s.sender.state != SendState::Idle,
    ensures
        advanced_with_faults(s, faults, variant, files),
{
    let data = contents_of(files[s.sender.cur_file as int]);
    if s.sender.state is SendData && s.sender.state->SendData_0 < data.len() {
        lemma_faulty_round_from_block(s, faults, variant, files);
    } else if s.sender.state is AckSendData {
        lemma_faulty_round_from_data_ack(s, faults, variant, files);
    } else {
        assert(in_step(s, variant, files));
        lemma_round_advances(s, variant, files);
        let sent = sender_tick(s);
        if s.sender.state is SendData {
            assert(sent.to_receiver =~= seq![EOT]);
        }
        assert(!hits(s, sent.to_receiver, faults));
        assert(faulty_round(s, faults) == round(s));
    }
}

/// A transfer on a faulty wire that leaves every block a chance ends, and
/// ends complete.
proof fn lemma_ends_with_faults(
    s: Session,
    variant: XYModemVariant,
    files: Seq<FileDescriptorView>,
    faults: Faults,
) -> (n: nat)
    requires
        transferable(variant, files),
        bounded(faults),
        in_step_with_faults(s, variant, files),
    ensures
        completed(faulty_rounds(s, faults, n), variant, files),
    decreases
            weight_with_faults(s, files).0,
            weight_with_faults(s, files).1,
            weight_with_faults(s, files).2,
            weight_with_faults(s, files).3,
            weight_with_faults(s, files).4,
            weight_with_faults(s, files).5,
{
    if s.sender.state == SendState::Idle {
        0
    } else {
        lemma_faulty_round_advances(s, faults, variant, files);
        let n = lemma_ends_with_faults(faulty_round(s, faults), variant, files, faults);
        n + 1
    }
}

/// The round trip on a faulty wire. In a variant that acknowledges block by
/// block, a sender that has begun to send `files` and a fresh receiver that
/// has begun to receive are ticked in rounds. The wire changes one byte,
/// behind the start byte, in some sendings of some data blocks, but in none
/// that comes after the block has failed as often as the retry bound
/// allows. Both engines still come to rest after finitely many rounds,
/// without either having reported an error, and the receiver then holds
/// every file as it arrives: each block's payload was collected once and
/// in order, and nothing of a block that was rejected.
pub proof fn lemma_round_trip_with_faults(
    variant: XYModemVariant,
    files: Seq<FileDescriptorView>,
    sender: SyView,
    receiver: RyView,
    faults: Faults,
) -> (n: nat)
    requires
        transferable(variant, files),
        !variant.is_streaming(),
        receiver.files.len() == 0,
        receiver.cur_file == 0,
        bounded(faults),
    ensures
        completed(
            faulty_rounds(opening(variant, files, sender, receiver), faults, n),
            variant,
            files,
        ),
{
    let s = opening(variant, files, sender, receiver);
    assert(deliveries(variant, files, 0) =~= receiver.files);
    lemma_ends_with_faults(s, variant, files, faults)
}

/// The session that two transfers and the channel between them make, when
/// nothing waits on the channel to be carried.
spec fn session_of(send: XYmodemView, recv: XYmodemView, channel: TestChannel) -> Session {
    Session {
        sender: send.sender,
        receiver: recv.receiver,
        to_receiver: channel.receiver.inbound(),
        to_sender: channel.sender.inbound(),
        failed: false,
    }
}

/// Sends `files` from one transfer to another over a test channel, which
/// loses and changes nothing, in rounds: a tick of the sending transfer,
/// then two of the receiving one, with the channel carrying what was
/// written after each party's turn. Hands back what the receiving transfer
/// holds when both have come to rest: every file as it arrives.
#[verifier::rlimit(40)]
pub fn loopback(variant: XYModemVariant, files: Vec<FileDescriptor>) -> (r: Vec<FileDescriptor>)
    requires
        transferable(variant, views(files@)),
    ensures
        views(r@) == deliveries(variant, views(files@), files@.len() as int),
{
    let ghost sent = views(files@);
    let ghost none = Seq::<u8>::empty();
    let mut send = XYmodem::new(variant);
    let mut recv = XYmodem::new(variant);
    let mut channel = TestChannel::new();
    let mut send_state = TransferState::new();
    let mut recv_state = TransferState::new();
    let sending = send.initiate_send(&mut channel.sender, files, &mut send_state);
    let receiving = recv.initiate_recv(&mut channel.receiver, &mut recv_state);
    channel.pump();
    proof {
        assert(sending is Ok);
        assert(receiving is Ok);
        assert(channel.sender.inbound() =~= seq![PROBE_CRC]);
        assert(channel.receiver.inbound() =~= none);
        assert(session_of(send@, recv@, channel) == opening(
            variant,
            sent,
            super::sy::fresh(),
            super::ry::fresh(),
        ));
        assert(deliveries(variant, sent, 0) =~= super::ry::fresh().files);
    }
    while !send.is_finished()
        invariant
            transferable(variant, sent),
            send@.direction == Direction::Sending,
            recv@.direction == Direction::Receiving,
            super::ry::well_formed(send@.receiver),
            super::ry::well_formed(recv@.receiver),
            channel.sender.is_open(),
            channel.receiver.is_open(),
            channel.sender.outbound() == Seq::<u8>::empty(),
            channel.receiver.outbound() == Seq::<u8>::empty(),
            in_step(session_of(send@, recv@, channel), variant, sent),
        decreases
                weight(session_of(send@, recv@, channel), sent).0,
                weight(session_of(send@, recv@, channel), sent).1,
                weight(session_of(send@, recv@, channel), sent).2,
                weight(session_of(send@, recv@, channel), sent).3,
                weight(session_of(send@, recv@, channel), sent).4,
    {
        let ghost none = Seq::<u8>::empty();
        let ghost s0 = session_of(send@, recv@, channel);
        proof {
            lemma_round_advances(s0, variant, sent);
        }
        let _ = send.update(&mut channel.sender, &mut send_state);
        channel.pump();
        proof {
            assert(none + s0.to_receiver =~= s0.to_receiver);
            assert(session_of(send@, recv@, channel) == sender_tick(s0)) by {
                let t = super::sy::tick_over(
                    s0.sender,
                    Queues { inbound: s0.to_sender, outbound: none },
                );
                let u = super::sy::tick_over(
                    s0.sender,
                    Queues { inbound: s0.to_sender, outbound: s0.to_receiver },
                );
                assert(s0.to_receiver + t.1.outbound =~= u.1.outbound);
                assert(channel.sender.inbound() + none =~= channel.sender.inbound());
            }
        }
        let ghost s1 = sender_tick(s0);
        let _ = recv.update(&mut channel.receiver, &mut recv_state);
        let ghost first = super::ry::tick_over(
            s1.receiver,
            Queues { inbound: s1.to_receiver, outbound: none },
        );
        let _ = recv.update(&mut channel.receiver, &mut recv_state);
        let ghost second = super::ry::tick_over(first.0.next, first.1);
        channel.pump();
        proof {
            let s2 = receiver_tick(s1);
            let s3 = receiver_tick(s2);
            assert(s1.to_sender + first.1.outbound =~= s2.to_sender);
            assert(s1.to_sender + second.1.outbound =~= s3.to_sender);
            assert(channel.receiver.inbound() + none =~= channel.receiver.inbound());
            assert(session_of(send@, recv@, channel) == round(s0));
        }
    }
    recv.get_received_files()
}

} // verus!
