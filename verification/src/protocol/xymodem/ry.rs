//! The receiving engine.
//!
//! The receiver is a state machine that is fed the bytes its state asks for
//! and answers with the bytes to send back. `Ry::feed` is that machine on
//! plain bytes; `Ry::update` drives it from a channel, one step per call.

use super::constants::{
    ACK, CAN, DEFAULT_BLOCK_LENGTH, EOT, EXT_BLOCK_LENGTH, NAK, PROBE_CRC, SOH, STX,
};
use super::frame::{append, check_block, check_frame, frame_ok, strip_filler, stripped};
use super::header::{header_name, header_size, parse_header, HEADER_LENGTH};
use super::{Checksum, XYModemVariant};
use crate::com::{answer, read_input, Com, Queues};
use crate::protocol::{
    views, FileDescriptor, FileDescriptorView, FileTransferState, FileTransferStateView,
    TransferError, TransferState,
};
use vstd::prelude::*;
use vstd::utf8::{decode_utf8, valid_utf8};

verus! {

/// While the retry counter is below this, a receiver that waits for the
/// first block answers anything else with a new CRC probe.
pub const MAX_START_PROBES: usize = 3;

/// While the retry counter is below this, a rejected block or header, or an
/// unexpected byte between blocks, is answered with `NAK`; from this count
/// on the transfer is cancelled.
pub const MAX_BLOCK_RETRIES: usize = 5;

/// The states of the receiver. The last number of each is its retry counter.
#[derive(Debug, Clone, Copy, PartialEq, Eq, Structural)]
pub enum RecvState {
    /// No transfer runs.
    Idle,
    /// Probe sent; waiting for the start byte of the first block of a file.
    StartReceive(usize),
    /// Start byte of a header block read; waiting for its body.
    ReadYModemHeader(usize),
    /// Start byte of a data block read; waiting for its body, whose payload
    /// has the length given first.
    ReadBlock(usize, usize),
    /// Between blocks. Step 0 waits for the start byte of the next block or
    /// for the end of the file; any other step waits for the second
    /// end-of-transmission byte that confirms the end of a file in a batch.
    ReadBlockStart(u8, usize),
}

/// The receiver as a value.
pub struct RyView {
    pub variant: XYModemVariant,
    pub block_length: usize,
    pub checksum: Checksum,
    pub state: RecvState,
    /// The files received or announced so far.
    pub files: Seq<FileDescriptorView>,
    /// The index in `files` of the file in transfer.
    pub cur_file: usize,
    /// The payloads received for the file in transfer.
    pub data: Seq<u8>,
    pub errors: usize,
    pub bytes_send: usize,
}

/// What one step of the receiver brings about: its next value, the bytes to
/// send, whether unread input is to be dropped before sending, and whether
/// the transfer goes on.
pub struct RecvEffect {
    pub next: RyView,
    pub reply: Seq<u8>,
    pub discard: bool,
    pub result: Result<(), TransferError>,
}

/// `n + 1`, or `n` where that does not fit.
pub open spec fn saturating_inc(n: usize) -> usize {
    if n < usize::MAX {
        (n + 1) as usize
    } else {
        n
    }
}

/// `a + b`, or the largest number where that does not fit.
pub open spec fn saturating_sum(a: usize, b: usize) -> usize {
    if a + b <= usize::MAX {
        (a + b) as usize
    } else {
        usize::MAX
    }
}

/// The text that a run of bytes reads as: its decoding if it is UTF-8, and
/// the empty text if it is not.
pub open spec fn text_of(bytes: Seq<u8>) -> Seq<char> {
    if valid_utf8(bytes) {
        decode_utf8(bytes)
    } else {
        seq![]
    }
}

/// The number of bytes that a step in state `state` consumes.
pub open spec fn needed_in(state: RecvState, checksum: Checksum) -> nat {
    match state {
        RecvState::Idle => 0,
        RecvState::StartReceive(_) => 1,
        RecvState::ReadYModemHeader(_) => 2 + HEADER_LENGTH as nat + checksum.size(),
        RecvState::ReadBlock(len, _) => 2 + len as nat + checksum.size(),
        RecvState::ReadBlockStart(_, _) => 1,
    }
}

/// The receiver gives the transfer up: it sends the cancel sequence, is
/// idle, and reports that the retries are used up.
pub open spec fn give_up(v: RyView, discard: bool) -> RecvEffect {
    RecvEffect {
        next: RyView { state: RecvState::Idle, errors: saturating_inc(v.errors), ..v },
        reply: seq![CAN, CAN],
        discard,
        result: Err(TransferError::TooManyRetries),
    }
}

/// The receiver rejects what it got: below the retry bound it sends `NAK`
/// and goes to `retry`; from the bound on it gives up.
pub open spec fn reject(v: RyView, retries: usize, retry: RecvState, discard: bool) -> RecvEffect {
    if retries < MAX_BLOCK_RETRIES {
        RecvEffect {
            next: RyView { state: retry, errors: saturating_inc(v.errors), ..v },
            reply: seq![NAK],
            discard,
            result: Ok(()),
        }
    } else {
        give_up(v, discard)
    }
}

/// The receiver moves to `state` and sends `reply`.
pub open spec fn proceed(v: RyView, state: RecvState, reply: Seq<u8>) -> RecvEffect {
    RecvEffect { next: RyView { state, ..v }, reply, discard: false, result: Ok(()) }
}

/// No block has started: the receiver probes again with `C` while the retry
/// counter is below `MAX_START_PROBES`, falls back to one `NAK` when the
/// counter has reached it, and gives up after that.
pub open spec fn probe_again(v: RyView, retries: usize) -> RecvEffect {
    if retries <= MAX_START_PROBES {
        RecvEffect {
            next: RyView {
                state: RecvState::StartReceive((retries + 1) as usize),
                errors: saturating_inc(v.errors),
                ..v
            },
            reply: if retries < MAX_START_PROBES {
                seq![PROBE_CRC]
            } else {
                seq![NAK]
            },
            discard: false,
            result: Ok(()),
        }
    } else {
        give_up(v, false)
    }
}

/// The receiver with the file in transfer completed: the filler at the end
/// of the collected payloads is stripped and the rest becomes the contents
/// of the current file. Where no header announced the file, a nameless
/// descriptor is made for it, with the length of the contents as its size.
pub open spec fn end_of_file(v: RyView) -> RyView {
    let data = stripped(v.data);
    let announced = v.cur_file < v.files.len();
    let at = if announced {
        v.cur_file as int
    } else {
        v.files.len() as int
    };
    let files = if announced {
        v.files
    } else {
        v.files.push(FileDescriptorView { name: seq![], size: data.len() as usize, data: None })
    };
    RyView {
        files: files.update(at, FileDescriptorView { data: Some(data), ..files[at] }),
        cur_file: (at + 1) as usize,
        data: seq![],
        ..v
    }
}

/// The step on the first byte of a file's first block.
pub open spec fn start_step(v: RyView, retries: usize, b: u8) -> RecvEffect {
    if b == SOH {
        if v.variant.is_batch() {
            proceed(v, RecvState::ReadYModemHeader(retries), seq![])
        } else {
            proceed(v, RecvState::ReadBlock(DEFAULT_BLOCK_LENGTH, retries), seq![])
        }
    } else if b == STX {
        proceed(v, RecvState::ReadBlock(EXT_BLOCK_LENGTH, retries), seq![])
    } else {
        probe_again(v, retries)
    }
}

/// The step on the body of a header block.
pub open spec fn header_step(v: RyView, retries: usize, body: Seq<u8>) -> RecvEffect {
    let payload = body.subrange(2, 2 + HEADER_LENGTH as int);
    if !frame_ok(v.checksum, body) {
        reject(v, retries, RecvState::StartReceive((retries + 1) as usize), true)
    } else if payload[0] == 0 {
        proceed(v, RecvState::Idle, seq![ACK])
    } else {
        RecvEffect {
            next: RyView {
                state: RecvState::ReadBlockStart(0, 0),
                files: v.files.push(
                    FileDescriptorView {
                        name: text_of(header_name(payload)),
                        size: header_size(payload),
                        data: None,
                    },
                ),
                cur_file: v.files.len() as usize,
                ..v
            },
            reply: seq![ACK, PROBE_CRC],
            discard: false,
            result: Ok(()),
        }
    }
}

/// A data block was not accepted, or did not come whole. In a streaming
/// variant the sender does not wait for an answer and cannot send the block
/// again, so the receiver gives up at the first such block. In the other
/// variants it rejects the block and waits for it to be sent again.
pub open spec fn block_rejected(v: RyView, retries: usize) -> RecvEffect {
    if v.variant.is_streaming() {
        give_up(v, true)
    } else {
        reject(v, retries, RecvState::ReadBlockStart(0, (retries + 1) as usize), true)
    }
}

/// The step on the body of a data block whose payload has `len` bytes.
pub open spec fn block_step(v: RyView, len: usize, retries: usize, body: Seq<u8>) -> RecvEffect {
    if !frame_ok(v.checksum, body) {
        block_rejected(v, retries)
    } else {
        RecvEffect {
            next: RyView {
                state: RecvState::ReadBlockStart(0, 0),
                data: v.data + body.subrange(2, 2 + len as int),
                bytes_send: saturating_sum(v.bytes_send, len),
                ..v
            },
            reply: seq![ACK],
            discard: false,
            result: Ok(()),
        }
    }
}

/// The step on the byte that follows a block.
pub open spec fn between_step(v: RyView, retries: usize, b: u8) -> RecvEffect {
    if b == SOH {
        proceed(v, RecvState::ReadBlock(DEFAULT_BLOCK_LENGTH, retries), seq![])
    } else if b == STX {
        proceed(v, RecvState::ReadBlock(EXT_BLOCK_LENGTH, retries), seq![])
    } else if b == EOT {
        if v.variant.is_batch() {
            proceed(end_of_file(v), RecvState::ReadBlockStart(1, 0), seq![NAK])
        } else {
            proceed(end_of_file(v), RecvState::Idle, seq![ACK])
        }
    } else {
        reject(v, retries, RecvState::ReadBlockStart(0, (retries + 1) as usize), false)
    }
}

/// The step on the byte that should confirm the end of a file in a batch.
pub open spec fn confirm_step(v: RyView, b: u8) -> RecvEffect {
    if b == EOT {
        proceed(v, RecvState::StartReceive(0), seq![ACK, PROBE_CRC])
    } else {
        proceed(v, RecvState::Idle, seq![])
    }
}

/// The step when the bytes that the state asks for did not come.
pub open spec fn no_response(v: RyView) -> RecvEffect {
    match v.state {
        RecvState::Idle => proceed(v, RecvState::Idle, seq![]),
        RecvState::StartReceive(retries) => probe_again(v, retries),
        RecvState::ReadYModemHeader(retries) => reject(
            v,
            retries,
            RecvState::StartReceive((retries + 1) as usize),
            true,
        ),
        RecvState::ReadBlock(_, retries) => block_rejected(v, retries),
        RecvState::ReadBlockStart(step, retries) => if step == 0 {
            reject(v, retries, RecvState::ReadBlockStart(0, (retries + 1) as usize), false)
        } else {
            proceed(v, RecvState::Idle, seq![])
        },
    }
}

/// One step of the receiver on `input`. An idle receiver ignores its input.
/// Input that has not the length that the state asks for counts as no
/// response.
pub open spec fn recv_step(v: RyView, input: Seq<u8>) -> RecvEffect {
    if input.len() != needed_in(v.state, v.checksum) {
        no_response(v)
    } else {
        match v.state {
            RecvState::Idle => proceed(v, RecvState::Idle, seq![]),
            RecvState::StartReceive(retries) => start_step(v, retries, input[0]),
            RecvState::ReadYModemHeader(retries) => header_step(v, retries, input),
            RecvState::ReadBlock(len, retries) => block_step(v, len, retries, input),
            RecvState::ReadBlockStart(step, retries) => if step == 0 {
                between_step(v, retries, input[0])
            } else {
                confirm_step(v, input[0])
            },
        }
    }
}

/// Whether a block state holds one of the two block lengths of the wire
/// format. Every receiver that this module makes, and every step of one,
/// keeps this.
pub open spec fn well_formed(v: RyView) -> bool {
    v.state matches RecvState::ReadBlock(len, _) ==> len == DEFAULT_BLOCK_LENGTH || len
        == EXT_BLOCK_LENGTH
}

/// A step keeps a receiver well formed.
pub proof fn lemma_step_keeps_well_formed(v: RyView, input: Seq<u8>)
    ensures
        well_formed(recv_step(v, input).next),
{
}

/// A receiver that has not begun anything: idle, in the first variant, with
/// nothing received.
pub open spec fn fresh() -> RyView {
    RyView {
        variant: XYModemVariant::XModem,
        block_length: DEFAULT_BLOCK_LENGTH,
        checksum: Checksum::CRC16,
        state: RecvState::Idle,
        files: seq![],
        cur_file: 0,
        data: seq![],
        errors: 0,
        bytes_send: 0,
    }
}

/// The receiver as it begins a transfer: block length and checksum are
/// those of the variant, nothing is collected, and it waits for the first
/// block. Files received before stay.
pub open spec fn begun(v: RyView, variant: XYModemVariant) -> RyView {
    RyView {
        variant,
        block_length: variant.block_length(),
        checksum: Checksum::CRC16,
        state: RecvState::StartReceive(0),
        data: seq![],
        ..v
    }
}

/// The progress that a receiver reports.
pub open spec fn progress_of(v: RyView) -> FileTransferStateView {
    FileTransferStateView {
        file: if v.cur_file < v.files.len() {
            Some(FileDescriptorView { data: None, ..v.files[v.cur_file as int] })
        } else {
            None
        },
        bytes_transfered: v.bytes_send,
        errors: v.errors,
        engine_state: state_label(v.state),
    }
}

/// The display name of a state.
pub open spec fn state_label(state: RecvState) -> Seq<char> {
    match state {
        RecvState::Idle => "Idle"@,
        RecvState::StartReceive(_) => "StartReceive"@,
        RecvState::ReadYModemHeader(_) => "ReadYModemHeader"@,
        RecvState::ReadBlock(_, _) => "ReadBlock"@,
        RecvState::ReadBlockStart(_, _) => "ReadBlockStart"@,
    }
}

/// What the receiver tells the host that it is doing.
pub open spec fn activity_of(state: RecvState, before: Seq<char>) -> Seq<char> {
    match state {
        RecvState::StartReceive(_) => "Start receiving..."@,
        RecvState::ReadYModemHeader(_) => "Get header..."@,
        RecvState::ReadBlock(_, _) => "Receiving data..."@,
        _ => before,
    }
}

/// What a step of the receiver asks of its caller.
pub struct RecvAction {
    /// The bytes to send to the peer.
    pub reply: Vec<u8>,
    /// Whether to drop unread input before sending.
    pub discard: bool,
    /// Whether the transfer goes on.
    pub result: Result<(), TransferError>,
}

/// Calls `String::from_utf8` of the standard library. Not proved, but taken
/// from its documentation: the call succeeds exactly on bytes that are valid
/// UTF-8, and the text that it then gives is the decoding of those bytes.
#[verifier::external_body]
fn text_from_utf8(bytes: Vec<u8>) -> (r: Option<String>)
    ensures
        r is Some <==> valid_utf8(bytes@),
        r matches Some(s) ==> s@ == decode_utf8(bytes@),
{
    String::from_utf8(bytes).ok()
}

/// The receiver.
pub struct Ry {
    pub block_length: usize,
    pub bytes_send: usize,
    pub variant: XYModemVariant,
    checksum_mode: Checksum,
    _send_timeout: u64,
    recv_timeout: u64,
    _ack_timeout: u64,
    pub files: Vec<FileDescriptor>,
    cur_file: usize,
    data: Vec<u8>,
    errors: usize,
    recv_state: RecvState,
}

impl View for Ry {
    type V = RyView;

    closed spec fn view(&self) -> RyView {
        RyView {
            variant: self.variant,
            block_length: self.block_length,
            checksum: self.checksum_mode,
            state: self.recv_state,
            files: views(self.files@),
            cur_file: self.cur_file,
            data: self.data@,
            errors: self.errors,
            bytes_send: self.bytes_send,
        }
    }
}

fn one(a: u8) -> (r: Vec<u8>)
    ensures
        r@ == seq![a],
{
    let mut r: Vec<u8> = Vec::new();
    r.push(a);
    proof {
        assert(r@ =~= seq![a]);
    }
    r
}

fn two(a: u8, b: u8) -> (r: Vec<u8>)
    ensures
        r@ == seq![a, b],
{
    let mut r: Vec<u8> = Vec::new();
    r.push(a);
    r.push(b);
    proof {
        assert(r@ =~= seq![a, b]);
    }
    r
}

impl Ry {
    /// An idle receiver that has received nothing.
    pub fn new() -> (r: Self)
        ensures
            r@ == fresh(),
            well_formed(r@),
    {
        let r = Ry {
            variant: XYModemVariant::XModem,
            block_length: DEFAULT_BLOCK_LENGTH,
            checksum_mode: Checksum::CRC16,
            _send_timeout: 10_000,
            recv_timeout: 10_000,
            _ack_timeout: 3_000,
            recv_state: RecvState::Idle,
            files: Vec::new(),
            data: Vec::new(),
            errors: 0,
            bytes_send: 0,
            cur_file: 0,
        };
        proof {
            assert(views(r.files@) =~= seq![]);
            assert(r.data@ =~= seq![]);
        }
        r
    }

    /// Whether the transfer has ended: the receiver is idle.
    pub fn is_finished(&self) -> (r: bool)
        ensures
            r == (self@.state == RecvState::Idle),
    {
        match self.recv_state {
            RecvState::Idle => true,
            _ => false,
        }
    }

    /// The receiver's state.
    pub fn state(&self) -> (r: RecvState)
        ensures
            r == self@.state,
    {
        self.recv_state
    }

    /// The number of errors met so far.
    pub fn error_count(&self) -> (r: usize)
        ensures
            r == self@.errors,
    {
        self.errors
    }

    /// The variant of the transfer.
    pub fn get_variant(&self) -> (r: XYModemVariant)
        ensures
            r == self@.variant,
    {
        self.variant
    }

    /// The payload length of a data block in the variant of the transfer.
    pub fn get_block_length(&self) -> (r: usize)
        ensures
            r == self@.block_length,
    {
        self.block_length
    }

    /// The payload bytes received so far, over all files.
    pub fn get_bytes_send(&self) -> (r: usize)
        ensures
            r == self@.bytes_send,
    {
        self.bytes_send
    }

    /// The number of bytes that the next step consumes.
    pub fn needed(&self) -> (r: usize)
        requires
            well_formed(self@),
        ensures
            r == needed_in(self@.state, self@.checksum),
    {
        match self.recv_state {
            RecvState::Idle => 0,
            RecvState::StartReceive(_) => 1,
            RecvState::ReadYModemHeader(_) => 2 + HEADER_LENGTH + self.checksum_mode.len(),
            RecvState::ReadBlock(len, _) => 2 + len + self.checksum_mode.len(),
            RecvState::ReadBlockStart(_, _) => 1,
        }
    }

    /// Checks a payload with its check bytes in the receiver's checksum
    /// mode.
    pub fn check_crc(&self, block: &[u8]) -> (r: bool)
        ensures
            r == super::frame::block_valid(self@.checksum, block@),
    {
        check_block(self.checksum_mode, block)
    }

    fn count_error(&mut self)
        ensures
            final(self)@ == (RyView { errors: saturating_inc(old(self)@.errors), ..old(self)@ }),
    {
        if self.errors < usize::MAX {
            self.errors = self.errors + 1;
        }
    }

    fn enter(&mut self, state: RecvState)
        ensures
            final(self)@ == (RyView { state, ..old(self)@ }),
    {
        self.recv_state = state;
    }

    fn give_up(&mut self, discard: bool) -> (a: RecvAction)
        ensures
            final(self)@ == give_up(old(self)@, discard).next,
            a.reply@ == give_up(old(self)@, discard).reply,
            a.discard == give_up(old(self)@, discard).discard,
            a.result == give_up(old(self)@, discard).result,
    {
        self.count_error();
        self.enter(RecvState::Idle);
        RecvAction { reply: two(CAN, CAN), discard, result: Err(TransferError::TooManyRetries) }
    }

    fn reject(&mut self, retries: usize, retry: RecvState, discard: bool) -> (a: RecvAction)
        ensures
            final(self)@ == reject(old(self)@, retries, retry, discard).next,
            a.reply@ == reject(old(self)@, retries, retry, discard).reply,
            a.discard == reject(old(self)@, retries, retry, discard).discard,
            a.result == reject(old(self)@, retries, retry, discard).result,
    {
        if retries < MAX_BLOCK_RETRIES {
            self.count_error();
            self.enter(retry);
            RecvAction { reply: one(NAK), discard, result: Ok(()) }
        } else {
            self.give_up(discard)
        }
    }

    fn block_rejected(&mut self, retries: usize) -> (a: RecvAction)
        ensures
            final(self)@ == block_rejected(old(self)@, retries).next,
            a.reply@ == block_rejected(old(self)@, retries).reply,
            a.discard == block_rejected(old(self)@, retries).discard,
            a.result == block_rejected(old(self)@, retries).result,
    {
        if self.variant.streams() || retries >= MAX_BLOCK_RETRIES {
            self.give_up(true)
        } else {
            self.reject(retries, RecvState::ReadBlockStart(0, retries + 1), true)
        }
    }

    fn proceed(&mut self, state: RecvState, reply: Vec<u8>) -> (a: RecvAction)
        ensures
            final(self)@ == proceed(old(self)@, state, reply@).next,
            a.reply@ == reply@,
            !a.discard,
            a.result == Ok::<(), TransferError>(()),
    {
        self.enter(state);
        RecvAction { reply, discard: false, result: Ok(()) }
    }

    fn probe_again(&mut self, retries: usize) -> (a: RecvAction)
        ensures
            final(self)@ == probe_again(old(self)@, retries).next,
            a.reply@ == probe_again(old(self)@, retries).reply,
            a.discard == probe_again(old(self)@, retries).discard,
            a.result == probe_again(old(self)@, retries).result,
    {
        if retries <= MAX_START_PROBES {
            self.count_error();
            self.enter(RecvState::StartReceive(retries + 1));
            let reply = if retries < MAX_START_PROBES {
                one(PROBE_CRC)
            } else {
                one(NAK)
            };
            RecvAction { reply, discard: false, result: Ok(()) }
        } else {
            self.give_up(false)
        }
    }

    fn no_response(&mut self) -> (a: RecvAction)
        ensures
            well_formed(final(self)@),
            final(self)@ == no_response(old(self)@).next,
            a.reply@ == no_response(old(self)@).reply,
            a.discard == no_response(old(self)@).discard,
            a.result == no_response(old(self)@).result,
    {
        match self.recv_state {
            RecvState::Idle => self.proceed(RecvState::Idle, Vec::new()),
            RecvState::StartReceive(retries) => self.probe_again(retries),
            RecvState::ReadYModemHeader(retries) => if retries < MAX_BLOCK_RETRIES {
                self.reject(retries, RecvState::StartReceive(retries + 1), true)
            } else {
                self.give_up(true)
            },
            RecvState::ReadBlock(_, retries) => self.block_rejected(retries),
            RecvState::ReadBlockStart(step, retries) => if step != 0 {
                self.proceed(RecvState::Idle, Vec::new())
            } else if retries < MAX_BLOCK_RETRIES {
                self.reject(retries, RecvState::ReadBlockStart(0, retries + 1), false)
            } else {
                self.give_up(false)
            },
        }
    }

    /// Completes the file in transfer.
    fn finish_file(&mut self)
        ensures
            final(self)@ == end_of_file(old(self)@),
    {
        strip_filler(&mut self.data);
        let ghost v = old(self)@;
        let ghost data = stripped(v.data);
        if self.cur_file >= self.files.len() {
            self.cur_file = self.files.len();
            let mut fd = FileDescriptor::new();
            fd.size = self.data.len();
            self.files.push(fd);
            proof {
                assert(views(self.files@) =~= v.files.push(
                    FileDescriptorView { name: seq![], size: data.len() as usize, data: None },
                ));
            }
        }
        let ghost files = views(self.files@);
        let at = self.cur_file;
        let mut contents: Vec<u8> = Vec::new();
        std::mem::swap(&mut contents, &mut self.data);
        let done = FileDescriptor {
            file_name: self.files[at].file_name.clone(),
            size: self.files[at].size,
            data: Some(contents),
        };
        self.files.set(at, done);
        let count = self.files.len();
        self.cur_file = at + 1;
        proof {
            assert(self.data@ =~= seq![]);
            assert(views(self.files@) =~= files.update(
                at as int,
                FileDescriptorView { data: Some(data), ..files[at as int] },
            ));
        }
    }

    /// Takes the file that a header announces into the list of files.
    fn announce(&mut self, payload: &[u8])
        ensures
            final(self)@ == (RyView {
                files: old(self)@.files.push(
                    FileDescriptorView {
                        name: text_of(header_name(payload@)),
                        size: header_size(payload@),
                        data: None,
                    },
                ),
                cur_file: old(self)@.files.len() as usize,
                ..old(self)@
            }),
    {
        let (name, size) = parse_header(payload);
        let file_name = match text_from_utf8(name) {
            Some(s) => s,
            None => String::new(),
        };
        self.cur_file = self.files.len();
        self.files.push(FileDescriptor { file_name, size, data: None });
        proof {
            assert(views(self.files@) =~= old(self)@.files.push(
                FileDescriptorView {
                    name: text_of(header_name(payload@)),
                    size: header_size(payload@),
                    data: None,
                },
            ));
        }
    }

    /// One step of the receiver on `input`.
    ///
    /// The caller hands in the bytes that the state asks for, `needed()`
    /// many, drops unread input if the answer says so, sends the reply, and
    /// passes the result on. Input of another length, the empty input of a
    /// read that timed out among them, counts as no response.
    pub fn feed(&mut self, input: &[u8]) -> (a: RecvAction)
        requires
            well_formed(old(self)@),
        ensures
            well_formed(final(self)@),
            final(self)@ == recv_step(old(self)@, input@).next,
            a.reply@ == recv_step(old(self)@, input@).reply,
            a.discard == recv_step(old(self)@, input@).discard,
            a.result == recv_step(old(self)@, input@).result,
    {
        if input.len() != self.needed() {
            return self.no_response();
        }
        match self.recv_state {
            RecvState::Idle => self.proceed(RecvState::Idle, Vec::new()),
            RecvState::StartReceive(retries) => {
                let b = input[0];
                if b == SOH {
                    if self.variant.uses_header() {
                        self.proceed(RecvState::ReadYModemHeader(retries), Vec::new())
                    } else {
                        self.proceed(
                            RecvState::ReadBlock(DEFAULT_BLOCK_LENGTH, retries),
                            Vec::new(),
                        )
                    }
                } else if b == STX {
                    self.proceed(RecvState::ReadBlock(EXT_BLOCK_LENGTH, retries), Vec::new())
                } else {
                    self.probe_again(retries)
                }
            },
            RecvState::ReadYModemHeader(retries) => {
                match check_frame(self.checksum_mode, input) {
                    Err(_) => if retries < MAX_BLOCK_RETRIES {
                        self.reject(retries, RecvState::StartReceive(retries + 1), true)
                    } else {
                        self.give_up(true)
                    },
                    Ok(()) => {
                        let payload = vstd::slice::slice_subrange(input, 2, 2 + HEADER_LENGTH);
                        if payload[0] == 0 {
                            self.proceed(RecvState::Idle, one(ACK))
                        } else {
                            self.announce(payload);
                            self.proceed(RecvState::ReadBlockStart(0, 0), two(ACK, PROBE_CRC))
                        }
                    },
                }
            },
            RecvState::ReadBlock(len, retries) => {
                match check_frame(self.checksum_mode, input) {
                    Err(_) => self.block_rejected(retries),
                    Ok(()) => {
                        append(&mut self.data, vstd::slice::slice_subrange(input, 2, 2 + len));
                        self.bytes_send = if self.bytes_send <= usize::MAX - len {
                            self.bytes_send + len
                        } else {
                            usize::MAX
                        };
                        self.proceed(RecvState::ReadBlockStart(0, 0), one(ACK))
                    },
                }
            },
            RecvState::ReadBlockStart(step, retries) => {
                let b = input[0];
                if step != 0 {
                    if b == EOT {
                        self.proceed(RecvState::StartReceive(0), two(ACK, PROBE_CRC))
                    } else {
                        self.proceed(RecvState::Idle, Vec::new())
                    }
                } else if b == SOH {
                    self.proceed(RecvState::ReadBlock(DEFAULT_BLOCK_LENGTH, retries), Vec::new())
                } else if b == STX {
                    self.proceed(RecvState::ReadBlock(EXT_BLOCK_LENGTH, retries), Vec::new())
                } else if b == EOT {
                    self.finish_file();
                    if self.variant.uses_header() {
                        self.proceed(RecvState::ReadBlockStart(1, 0), one(NAK))
                    } else {
                        self.proceed(RecvState::Idle, one(ACK))
                    }
                } else if retries < MAX_BLOCK_RETRIES {
                    self.reject(retries, RecvState::ReadBlockStart(0, retries + 1), false)
                } else {
                    self.give_up(false)
                }
            },
        }
    }
}

impl RecvState {
    /// The display name of the state.
    pub fn label(&self) -> (r: String)
        ensures
            r@ == state_label(*self),
    {
        match self {
            RecvState::Idle => "Idle".to_owned(),
            RecvState::StartReceive(_) => "StartReceive".to_owned(),
            RecvState::ReadYModemHeader(_) => "ReadYModemHeader".to_owned(),
            RecvState::ReadBlock(_, _) => "ReadBlock".to_owned(),
            RecvState::ReadBlockStart(_, _) => "ReadBlockStart".to_owned(),
        }
    }
}

/// What a tick of the receiver has done to the channel and to itself, seen
/// from the channel's histories: `rx` is what the tick read and `tx` what it
/// wrote.
///
/// A tick that ends without a transport failure either found nothing to do
/// (it read and wrote nothing and the receiver is as before), or took the
/// step of `recv_step` on what it read, wrote that step's reply and passes
/// on its result. A tick that ends in a transport failure wrote nothing; the
/// receiver is as before, or has taken the step whose reply could not be
/// sent.
pub open spec fn ticked(
    before: RyView,
    after: RyView,
    rx: Seq<u8>,
    tx: Seq<u8>,
    r: Result<(), TransferError>,
) -> bool {
    let e = recv_step(before, rx);
    match r {
        Err(TransferError::Transport(_)) => tx.len() == 0 && (after == before || after == e.next),
        _ => {
            ||| (r is Ok && rx.len() == 0 && tx.len() == 0 && after == before)
            ||| (after == e.next && tx == e.reply && r == e.result)
        },
    }
}

/// What a tick of the receiver does over a channel in memory: the step that
/// it takes, and the queues as it leaves them. An idle receiver does
/// nothing, nor does one for which nothing is buffered. Else the receiver
/// reads what its state asks for, or nothing if less than that is buffered,
/// takes its step on that, drops what is buffered if the step says so, and
/// writes the step's reply.
pub open spec fn tick_over(v: RyView, q: Queues) -> (RecvEffect, Queues) {
    let n = needed_in(v.state, v.checksum);
    if v.state == RecvState::Idle || q.inbound.len() == 0 {
        (proceed(v, v.state, seq![]), q)
    } else {
        let enough = q.inbound.len() >= n;
        let e = recv_step(
            v,
            if enough {
                q.inbound.take(n as int)
            } else {
                seq![]
            },
        );
        (
            e,
            Queues {
                inbound: if e.discard {
                    seq![]
                } else if enough {
                    q.inbound.skip(n as int)
                } else {
                    q.inbound
                },
                outbound: q.outbound + e.reply,
            },
        )
    }
}

/// What the host is told that the receiver is doing, after a tick over a
/// channel in memory: the activity of the state in which the tick took its
/// step, and what it was told before if the tick had nothing to do.
pub open spec fn activity_over(v: RyView, q: Queues, before: Seq<char>) -> Seq<char> {
    if v.state != RecvState::Idle && q.inbound.len() > 0 {
        activity_of(v.state, before)
    } else {
        before
    }
}

impl Ry {
    /// The progress that the receiver reports.
    pub fn progress(&self) -> (r: FileTransferState)
        ensures
            r@ == progress_of(self@),
    {
        let file = if self.cur_file < self.files.len() {
            Some(self.files[self.cur_file].summary())
        } else {
            None
        };
        FileTransferState {
            file,
            bytes_transfered: self.bytes_send,
            errors: self.errors,
            engine_state: self.recv_state.label(),
        }
    }

    /// Copies of the files received or announced so far, in order.
    pub fn received_files(&self) -> (r: Vec<FileDescriptor>)
        ensures
            views(r@) == self@.files,
    {
        let mut out: Vec<FileDescriptor> = Vec::new();
        let mut i: usize = 0;
        while i < self.files.len()
            invariant
                i <= self.files.len(),
                out@.len() == i,
                forall|j: int| 0 <= j < i ==> #[trigger] out@[j]@ == self.files@[j]@,
            decreases self.files.len() - i,
        {
            out.push(self.files[i].duplicate());
            i = i + 1;
        }
        proof {
            assert(views(out@) =~= views(self.files@));
        }
        out
    }

    /// Begins to receive in the given variant: sends the CRC probe and
    /// waits for the first block. If the probe cannot be sent, the receiver
    /// stays as it is.
    pub fn recv<T: Com>(&mut self, com: &mut T, variant: XYModemVariant) -> (r: Result<
        (),
        TransferError,
    >)
        ensures
            final(com).consumed() == old(com).consumed(),
            match r {
                Ok(()) => final(self)@ == begun(old(self)@, variant) && final(com).written()
                    == old(com).written() + seq![PROBE_CRC],
                Err(e) => e is Transport && final(self)@ == old(self)@ && final(com).written()
                    == old(com).written(),
            },
            r is Ok ==> well_formed(final(self)@),
            old(com).queues() matches Some(q) ==> r is Ok && final(com).queues() == Some(
                Queues { outbound: q.outbound + seq![PROBE_CRC], ..q },
            ),
    {
        let probe = one(PROBE_CRC);
        match com.write(probe.as_slice()) {
            Err(e) => {
                return Err(TransferError::Transport(e));
            },
            Ok(_) => {},
        }
        self.block_length = variant.get_block_length();
        self.variant = variant;
        self.checksum_mode = Checksum::CRC16;
        self.data = Vec::new();
        self.recv_state = RecvState::StartReceive(0);
        proof {
            assert(self.data@ =~= seq![]);
        }
        Ok(())
    }

    /// Cancels the transfer: the receiver is idle from now on, and the
    /// cancel sequence is sent.
    pub fn cancel<T: Com>(&mut self, com: &mut T) -> (r: Result<(), TransferError>)
        ensures
            final(self)@ == (RyView { state: RecvState::Idle, ..old(self)@ }),
            final(com).consumed() == old(com).consumed(),
            match r {
                Ok(()) => final(com).written() == old(com).written() + seq![CAN, CAN],
                Err(e) => e is Transport && final(com).written() == old(com).written(),
            },
            old(com).queues() matches Some(q) ==> r is Ok && final(com).queues() == Some(
                Queues { outbound: q.outbound + seq![CAN, CAN], ..q },
            ),
    {
        self.recv_state = RecvState::Idle;
        let bytes = two(CAN, CAN);
        match com.write(bytes.as_slice()) {
            Err(e) => Err(TransferError::Transport(e)),
            Ok(_) => Ok(()),
        }
    }

    /// One tick: reports progress, and if the channel has data, takes one
    /// step on it.
    ///
    /// An idle receiver does not touch the channel. Else the step reads what
    /// the state asks for (a read that times out counts as no response),
    /// drops unread input if the step says so, and sends the step's reply.
    /// Any other channel failure ends the tick at once and is passed on.
    /// Over a channel in memory the tick is that of `tick_over`.
    pub fn update<T: Com>(&mut self, com: &mut T, state: &mut TransferState) -> (r: Result<
        (),
        TransferError,
    >)
        requires
            well_formed(old(self)@),
        ensures
            well_formed(final(self)@),
            final(state).recieve_state matches Some(s) && s@ == progress_of(old(self)@),
            final(state).send_state == old(state).send_state,
            final(state).is_finished == (final(self)@.state == RecvState::Idle),
            final(state).current_state@ == old(state).current_state@
                || final(state).current_state@ == activity_of(
                old(self)@.state,
                old(state).current_state@,
            ),
            old(com).consumed().is_prefix_of(final(com).consumed()),
            old(com).written().is_prefix_of(final(com).written()),
            old(self)@.state == RecvState::Idle ==> {
                &&& r is Ok
                &&& final(self)@ == old(self)@
                &&& final(com).consumed() == old(com).consumed()
                &&& final(com).written() == old(com).written()
                &&& final(state).current_state@ == old(state).current_state@
            },
            ticked(
                old(self)@,
                final(self)@,
                final(com).consumed().skip(old(com).consumed().len() as int),
                final(com).written().skip(old(com).written().len() as int),
                r,
            ),
            old(com).queues() matches Some(q) ==> final(self)@ == tick_over(old(self)@, q).0.next
                && r == tick_over(old(self)@, q).0.result && final(com).queues() == Some(
                tick_over(old(self)@, q).1,
            ) && final(state).current_state@ == activity_over(
                old(self)@,
                q,
                old(state).current_state@,
            ),
    {
        state.recieve_state = Some(self.progress());
        state.is_finished = self.is_finished();
        let ghost none = Seq::<u8>::empty();
        proof {
            assert(com.consumed().skip(com.consumed().len() as int) =~= none);
            assert(com.written().skip(com.written().len() as int) =~= none);
        }
        if self.is_finished() {
            return Ok(());
        }
        match com.is_data_available() {
            Err(e) => {
                return Err(TransferError::Transport(e));
            },
            Ok(false) => {
                return Ok(());
            },
            Ok(true) => {},
        }
        match self.recv_state {
            RecvState::StartReceive(_) => {
                state.current_state = "Start receiving...";
            },
            RecvState::ReadYModemHeader(_) => {
                state.current_state = "Get header...";
            },
            RecvState::ReadBlock(_, _) => {
                state.current_state = "Receiving data...";
            },
            _ => {},
        }
        let n = self.needed();
        let input = match read_input(com, self.recv_timeout, n) {
            Ok(input) => input,
            Err(e) => {
                return Err(TransferError::Transport(e));
            },
        };
        proof {
            assert(com.consumed().skip(old(com).consumed().len() as int) =~= input@);
        }
        let action = self.feed(input.as_slice());
        state.is_finished = self.is_finished();
        match answer(com, action.discard, action.reply.as_slice()) {
            Err(e) => {
                return Err(TransferError::Transport(e));
            },
            Ok(()) => {},
        }
        proof {
            assert(com.written().skip(old(com).written().len() as int) =~= action.reply@);
        }
        action.result
    }
}

/// What the receiver makes of a run of blocks: for each body in turn it
/// reads the start byte `start` and then the body. The run ends with the
/// last body, or with the first step that reports an error. The result is
/// the effect of the last step taken.
pub open spec fn after_blocks(v: RyView, start: u8, bodies: Seq<Seq<u8>>) -> RecvEffect
    decreases bodies.len(),
{
    if bodies.len() == 0 {
        proceed(v, v.state, seq![])
    } else {
        let e = recv_step(recv_step(v, seq![start]).next, bodies[0]);
        if bodies.len() == 1 || e.result is Err {
            e
        } else {
            after_blocks(e.next, start, bodies.skip(1))
        }
    }
}

/// Retries are bounded. A receiver between blocks, in a variant that
/// acknowledges block by block, is sent one block after the other, each
/// with a good start byte and a body that is not accepted. As long as its
/// retry counter, which counts them, has not passed `MAX_BLOCK_RETRIES`, it
/// answers the last with `NAK` and goes on. The next one is one too many:
/// the receiver sends the cancel sequence, reports that the retries are
/// used up, and is idle. What it had collected and received is as before
/// either way.
pub proof fn lemma_retries_are_bounded(v: RyView, start: u8, bodies: Seq<Seq<u8>>)
    requires
        v.state matches RecvState::ReadBlockStart(step, retries) && step == 0 && retries
            + bodies.len() <= MAX_BLOCK_RETRIES + 1,
        !v.variant.is_streaming(),
        start == SOH || start == STX,
        bodies.len() > 0,
        forall|i: int| 0 <= i < bodies.len() ==> !frame_ok(v.checksum, #[trigger] bodies[i]),
    ensures
        ({
            let e = after_blocks(v, start, bodies);
            let failures = v.state->ReadBlockStart_1 + bodies.len();
            &&& e.next.data == v.data
            &&& e.next.files == v.files
            &&& e.discard
            &&& if failures <= MAX_BLOCK_RETRIES {
                &&& e.reply == seq![NAK]
                &&& e.result is Ok
                &&& e.next.state == RecvState::ReadBlockStart(0, failures as usize)
            } else {
                &&& e.reply == seq![CAN, CAN]
                &&& e.result == Err::<(), TransferError>(TransferError::TooManyRetries)
                &&& e.next.state == RecvState::Idle
            }
        }),
    decreases bodies.len(),
{
    let e = recv_step(recv_step(v, seq![start]).next, bodies[0]);
    if bodies.len() > 1 {
        let rest = bodies.skip(1);
        assert forall|i: int| 0 <= i < rest.len() implies !frame_ok(
            e.next.checksum,
            #[trigger] rest[i],
        ) by {
            assert(rest[i] == bodies[i + 1]);
        }
        lemma_retries_are_bounded(e.next, start, rest);
    }
}

/// In a streaming variant nothing is sent again. A receiver that has read
/// the start byte of a block gives the transfer up on the first body that
/// is not accepted: it sends the cancel sequence and no acknowledgement,
/// reports that the retries are used up, and is idle. What it had collected
/// and received is as before.
pub proof fn lemma_streaming_gives_up_at_once(v: RyView, body: Seq<u8>)
    requires
        v.state is ReadBlock,
        v.variant.is_streaming(),
        !frame_ok(v.checksum, body),
    ensures
        ({
            let e = recv_step(v, body);
            &&& e.reply == seq![CAN, CAN]
            &&& e.discard
            &&& e.result == Err::<(), TransferError>(TransferError::TooManyRetries)
            &&& e.next.state == RecvState::Idle
            &&& e.next.data == v.data
            &&& e.next.files == v.files
        }),
{
}

/// `n` negative acknowledgements.
pub open spec fn naks(n: nat) -> Seq<u8> {
    Seq::new(n, |i: int| NAK)
}

/// What becomes of a receiver and its channel in memory when blocks are
/// delivered to it one after the other, and it is ticked twice after each:
/// once for the start byte and once for the body. The run ends with the
/// last block, or with the first tick that reports an error. The result is
/// the step of the last tick and the queues as it leaves them.
pub open spec fn after_deliveries(v: RyView, q: Queues, blocks: Seq<Seq<u8>>) -> (
    RecvEffect,
    Queues,
)
    decreases blocks.len(),
{
    if blocks.len() == 0 {
        (proceed(v, v.state, seq![]), q)
    } else {
        let first = tick_over(v, Queues { inbound: q.inbound + blocks[0], ..q });
        let second = tick_over(first.0.next, first.1);
        if first.0.result is Err {
            first
        } else if blocks.len() == 1 || second.0.result is Err {
            second
        } else {
            after_deliveries(second.0.next, second.1, blocks.skip(1))
        }
    }
}

/// Whether `block` is a block on the wire whose body is not accepted: a
/// start byte, followed by as many bytes as the start byte announces, which
/// do not check.
pub open spec fn is_bad_block(checksum: Checksum, block: Seq<u8>) -> bool {
    &&& block.len() > 0
    &&& block[0] == SOH || block[0] == STX
    &&& block.len() == 1 + needed_in(
        RecvState::ReadBlock(
            if block[0] == SOH {
                DEFAULT_BLOCK_LENGTH
            } else {
                EXT_BLOCK_LENGTH
            },
            0,
        ),
        checksum,
    )
    &&& !frame_ok(checksum, block.skip(1))
}

/// Whether the receiver is ready for the start byte of a data block, with
/// its retry counter at `retries`: it stands between blocks, or it waits
/// for the first block of a transfer without headers.
pub open spec fn ready_for_block(v: RyView, retries: usize) -> bool {
    ||| v.state == RecvState::ReadBlockStart(0, retries)
    ||| (v.state == RecvState::StartReceive(retries) && !v.variant.is_batch())
}

/// Cancellation, tick by tick. A receiver in a variant that acknowledges
/// block by block is ready for a block, and nothing is buffered for it.
/// One bad block after the other is delivered, and the receiver is ticked
/// twice after each. While its retry counter, which counts them, has not
/// passed `MAX_BLOCK_RETRIES`, all that it has written is one `NAK` for each
/// block, it has collected nothing, and it goes on. On the next bad block
/// it writes the cancel sequence, the tick reports that the retries are
/// used up, and the receiver is idle. No acknowledgement is written for any
/// of the blocks, and nothing stays buffered.
pub proof fn lemma_bad_blocks_cancel(
    v: RyView,
    retries: usize,
    q: Queues,
    blocks: Seq<Seq<u8>>,
)
    requires
        ready_for_block(v, retries),
        retries + blocks.len() <= MAX_BLOCK_RETRIES + 1,
        !v.variant.is_streaming(),
        q.inbound.len() == 0,
        blocks.len() > 0,
        forall|i: int| 0 <= i < blocks.len() ==> is_bad_block(v.checksum, #[trigger] blocks[i]),
    ensures
        ({
            let t = after_deliveries(v, q, blocks);
            let failures = retries + blocks.len();
            &&& t.0.next.data == v.data
            &&& t.0.next.files == v.files
            &&& t.1.inbound == Seq::<u8>::empty()
            &&& if failures <= MAX_BLOCK_RETRIES {
                &&& t.0.result is Ok
                &&& t.0.next.state == RecvState::ReadBlockStart(0, failures as usize)
                &&& t.1.outbound == q.outbound + naks(blocks.len())
            } else {
                &&& t.0.result == Err::<(), TransferError>(TransferError::TooManyRetries)
                &&& t.0.next.state == RecvState::Idle
                &&& t.1.outbound == q.outbound + naks((blocks.len() - 1) as nat) + seq![CAN, CAN]
            }
        }),
    decreases blocks.len(),
{
    let none = Seq::<u8>::empty();
    let block = blocks[0];
    assert(is_bad_block(v.checksum, block));
    let q0 = Queues { inbound: q.inbound + block, ..q };
    assert(q0.inbound =~= block);
    assert(block.take(1) =~= seq![block[0]]);
    let first = tick_over(v, q0);
    assert(first.1.inbound == block.skip(1));
    assert(first.1.outbound =~= q.outbound);
    let body = block.skip(1);
    assert(body.take(body.len() as int) =~= body);
    let second = tick_over(first.0.next, first.1);
    assert(second.1.inbound =~= none);
    if blocks.len() == 1 {
        assert(naks(1) =~= seq![NAK]);
        assert(naks(0) =~= none);
        assert(q.outbound + none + seq![CAN, CAN] =~= q.outbound + seq![CAN, CAN]);
    } else {
        let rest = blocks.skip(1);
        assert forall|i: int| 0 <= i < rest.len() implies is_bad_block(
            second.0.next.checksum,
            #[trigger] rest[i],
        ) by {
            assert(rest[i] == blocks[i + 1]);
        }
        lemma_bad_blocks_cancel(second.0.next, (retries + 1) as usize, second.1, rest);
        assert(seq![NAK] + naks(rest.len()) =~= naks(blocks.len()));
        assert(seq![NAK] + naks((rest.len() - 1) as nat) =~= naks((blocks.len() - 1) as nat));
        let t = after_deliveries(v, q, blocks);
        assert(second.1.outbound =~= q.outbound + seq![NAK]);
        if retries + blocks.len() <= MAX_BLOCK_RETRIES {
            assert(t.1.outbound =~= q.outbound + naks(blocks.len()));
        } else {
            assert(t.1.outbound =~= q.outbound + naks((blocks.len() - 1) as nat) + seq![
                CAN,
                CAN,
            ]);
        }
    }
}

} // verus!
