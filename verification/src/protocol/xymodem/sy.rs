//! The sending engine.
//!
//! The sender is a state machine like the receiver. In some states it waits
//! for a byte from the receiver, in the others it has a block to send and
//! needs no input. `Sy::step` is that machine on plain bytes; `Sy::update`
//! drives it from a channel, one step per call.

use super::constants::{ACK, CAN, DEFAULT_BLOCK_LENGTH, EOT, NAK, PROBE_CRC};
use super::frame::{build_chunk, build_frame, chunk, frame};
use super::header::{
    build_end_of_batch, build_header, end_of_batch, header_fits, header_payload,
};
use super::ry::{saturating_inc, saturating_sum, MAX_BLOCK_RETRIES};
use super::{Checksum, XYModemVariant};
use crate::com::{answer, read_input, Com, Queues};
use crate::protocol::{
    views, FileDescriptor, FileDescriptorView, FileTransferState, FileTransferStateView,
    TransferError, TransferState,
};
use vstd::prelude::*;
use vstd::utf8::encode_utf8;

verus! {

/// The states of the sender. Where a state has a retry counter, it is its
/// last number.
#[derive(Debug, Clone, Copy, PartialEq, Eq, Structural)]
pub enum SendState {
    /// No transfer runs.
    Idle,
    /// Waiting for the receiver's probe, which selects the checksum.
    InitiateSend,
    /// About to send the header of the current file, or the header that
    /// ends the batch when no file is left.
    SendYModemHeader(usize),
    /// Header sent; waiting for its acknowledgement.
    AckSendYmodemHeader(usize),
    /// About to send the block at the offset given first, or the end of
    /// transmission when the offset is past the file's end.
    SendData(usize, usize),
    /// Block at the offset given first sent; waiting for its
    /// acknowledgement.
    AckSendData(usize, usize),
    /// End of transmission sent; waiting for the receiver's answer.
    AckEndOfFile(usize),
    /// In a batch: end of transmission sent a second time; waiting for its
    /// acknowledgement.
    AckSecondEndOfFile(usize),
    /// In a batch: file acknowledged; waiting for the probe that asks for
    /// the next header.
    AwaitNextFile,
}

/// The sender as a value.
pub struct SyView {
    pub variant: XYModemVariant,
    pub block_length: usize,
    pub checksum: Checksum,
    pub state: SendState,
    /// The files to send.
    pub files: Seq<FileDescriptorView>,
    /// The index in `files` of the file in transfer.
    pub cur_file: usize,
    /// The number of the block that is sent next or that waits for its
    /// acknowledgement.
    pub block_number: u8,
    pub errors: usize,
    pub bytes_send: usize,
}

/// What one step of the sender brings about: its next value, the bytes to
/// send, and whether the transfer goes on.
pub struct SendEffect {
    pub next: SyView,
    pub reply: Seq<u8>,
    pub result: Result<(), TransferError>,
}

/// The contents of a file: its data, or nothing where it has none.
pub open spec fn contents_of(file: FileDescriptorView) -> Seq<u8> {
    match file.data {
        Some(d) => d,
        None => seq![],
    }
}

/// The contents of the file in transfer; empty when no file is left.
pub open spec fn contents(v: SyView) -> Seq<u8> {
    if v.cur_file < v.files.len() {
        contents_of(v.files[v.cur_file as int])
    } else {
        seq![]
    }
}

/// Whether a file can be announced in a batch.
pub open spec fn announceable(file: FileDescriptorView) -> bool {
    header_fits(encode_utf8(file.name), contents_of(file).len() as usize)
}

/// The header payload that announces a file: its name in UTF-8 and the
/// length of its contents.
pub open spec fn announcement(file: FileDescriptorView) -> Seq<u8> {
    header_payload(encode_utf8(file.name), contents_of(file).len() as usize)
}

/// The payload of the header that is due: the announcement of the file in
/// transfer, or the end of the batch when no file is left. (A file that
/// cannot be announced would end the batch too; `Sy::send` admits none.)
pub open spec fn header_due(v: SyView) -> Seq<u8> {
    if v.cur_file < v.files.len() && announceable(v.files[v.cur_file as int]) {
        announcement(v.files[v.cur_file as int])
    } else {
        end_of_batch()
    }
}

/// Whether every file of a batch can be announced. Every sender that this
/// module makes, and every step of one, keeps this.
pub open spec fn well_formed(v: SyView) -> bool {
    v.variant.is_batch() ==> forall|i: int|
        0 <= i < v.files.len() ==> announceable(#[trigger] v.files[i])
}

/// Whether the sender waits for a byte in `state`.
pub open spec fn wants_input(state: SendState) -> bool {
    match state {
        SendState::Idle | SendState::SendYModemHeader(_) | SendState::SendData(_, _) => false,
        _ => true,
    }
}

/// The block number after `n`.
pub open spec fn next_block_number(n: u8) -> u8 {
    if n == 255 {
        0
    } else {
        (n + 1) as u8
    }
}

/// The sender moves to `state` and sends `reply`.
pub open spec fn proceed(v: SyView, state: SendState, reply: Seq<u8>) -> SendEffect {
    SendEffect { next: SyView { state, ..v }, reply, result: Ok(()) }
}

/// The peer has cancelled: the sender is idle and reports it.
pub open spec fn cancelled(v: SyView) -> SendEffect {
    SendEffect {
        next: SyView { state: SendState::Idle, ..v },
        reply: seq![],
        result: Err(TransferError::Cancelled),
    }
}

/// What was sent was not accepted: below the retry bound the sender counts
/// an error, goes to `retry` and sends `reply`; from the bound on it sends
/// the cancel sequence, is idle and reports that the retries are used up.
pub open spec fn retry(v: SyView, retries: usize, retry: SendState, reply: Seq<u8>) -> SendEffect {
    if retries < MAX_BLOCK_RETRIES {
        SendEffect {
            next: SyView { state: retry, errors: saturating_inc(v.errors), ..v },
            reply,
            result: Ok(()),
        }
    } else {
        SendEffect {
            next: SyView { state: SendState::Idle, errors: saturating_inc(v.errors), ..v },
            reply: seq![CAN, CAN],
            result: Err(TransferError::TooManyRetries),
        }
    }
}

/// The step of a state that has something to send.
pub open spec fn emit_step(v: SyView) -> SendEffect {
    match v.state {
        SendState::SendYModemHeader(retries) => proceed(
            v,
            SendState::AckSendYmodemHeader(retries),
            frame(v.checksum, 0, header_due(v)),
        ),
        SendState::SendData(offset, retries) => if offset < contents(v).len() {
            let block = frame(
                v.checksum,
                v.block_number,
                chunk(contents(v), offset as int, v.block_length as int),
            );
            if v.variant.is_streaming() {
                SendEffect {
                    next: SyView {
                        state: SendState::SendData(saturating_sum(offset, v.block_length), 0),
                        block_number: next_block_number(v.block_number),
                        bytes_send: saturating_sum(v.bytes_send, v.block_length),
                        ..v
                    },
                    reply: block,
                    result: Ok(()),
                }
            } else {
                proceed(v, SendState::AckSendData(offset, retries), block)
            }
        } else {
            proceed(v, SendState::AckEndOfFile(0), seq![EOT])
        },
        _ => proceed(v, v.state, seq![]),
    }
}

/// The step of a waiting state on the byte `b`. The cancel byte ends the
/// transfer in every state; a byte that the state does not expect is
/// passed over.
pub open spec fn byte_step(v: SyView, b: u8) -> SendEffect {
    if b == CAN {
        cancelled(v)
    } else {
        match v.state {
            SendState::InitiateSend => if b == PROBE_CRC || b == NAK {
                let w = SyView {
                    checksum: if b == NAK {
                        Checksum::Default
                    } else {
                        Checksum::CRC16
                    },
                    ..v
                };
                if v.variant.is_batch() {
                    proceed(w, SendState::SendYModemHeader(0), seq![])
                } else {
                    proceed(w, SendState::SendData(0, 0), seq![])
                }
            } else {
                proceed(v, v.state, seq![])
            },
            SendState::AckSendYmodemHeader(retries) => if b == ACK {
                if v.cur_file < v.files.len() {
                    proceed(SyView { block_number: 1, ..v }, SendState::SendData(0, 0), seq![])
                } else {
                    proceed(v, SendState::Idle, seq![])
                }
            } else if b == NAK {
                retry(v, retries, SendState::SendYModemHeader((retries + 1) as usize), seq![])
            } else {
                proceed(v, v.state, seq![])
            },
            SendState::AckSendData(offset, retries) => if b == ACK {
                proceed(
                    SyView {
                        block_number: next_block_number(v.block_number),
                        bytes_send: saturating_sum(v.bytes_send, v.block_length),
                        ..v
                    },
                    SendState::SendData(saturating_sum(offset, v.block_length), 0),
                    seq![],
                )
            } else if b == NAK {
                retry(v, retries, SendState::SendData(offset, (retries + 1) as usize), seq![])
            } else {
                proceed(v, v.state, seq![])
            },
            SendState::AckEndOfFile(retries) => if v.variant.is_batch() {
                if b == NAK {
                    proceed(v, SendState::AckSecondEndOfFile(0), seq![EOT])
                } else {
                    proceed(v, v.state, seq![])
                }
            } else {
                if b == ACK {
                    proceed(v, SendState::Idle, seq![])
                } else if b == NAK {
                    retry(v, retries, SendState::AckEndOfFile((retries + 1) as usize), seq![EOT])
                } else {
                    proceed(v, v.state, seq![])
                }
            },
            SendState::AckSecondEndOfFile(retries) => if b == ACK {
                proceed(v, SendState::AwaitNextFile, seq![])
            } else if b == NAK {
                retry(
                    v,
                    retries,
                    SendState::AckSecondEndOfFile((retries + 1) as usize),
                    seq![EOT],
                )
            } else {
                proceed(v, v.state, seq![])
            },
            SendState::AwaitNextFile => if b == PROBE_CRC {
                proceed(
                    SyView { cur_file: saturating_inc(v.cur_file), ..v },
                    SendState::SendYModemHeader(0),
                    seq![],
                )
            } else {
                proceed(v, v.state, seq![])
            },
            _ => proceed(v, v.state, seq![]),
        }
    }
}

/// The step of a waiting state when no byte came: where an acknowledgement
/// is due, silence counts as a negative one; where a probe is due, the
/// sender goes on waiting.
pub open spec fn silence_step(v: SyView) -> SendEffect {
    match v.state {
        SendState::AckSendYmodemHeader(_) | SendState::AckSendData(_, _)
        | SendState::AckSecondEndOfFile(_) => byte_step(v, NAK),
        SendState::AckEndOfFile(retries) => retry(
            v,
            retries,
            SendState::AckEndOfFile((retries + 1) as usize),
            seq![EOT],
        ),
        _ => proceed(v, v.state, seq![]),
    }
}

/// One step of the sender. A state that has something to send sends it,
/// whatever the input; a waiting state reacts to the one byte of `input`,
/// and input of another length counts as silence.
pub open spec fn send_step(v: SyView, input: Seq<u8>) -> SendEffect {
    if !wants_input(v.state) {
        emit_step(v)
    } else if input.len() == 1 {
        byte_step(v, input[0])
    } else {
        silence_step(v)
    }
}

/// A sender that has not begun anything: idle, in the first variant, with
/// nothing to send.
pub open spec fn fresh() -> SyView {
    SyView {
        variant: XYModemVariant::XModem,
        block_length: DEFAULT_BLOCK_LENGTH,
        checksum: Checksum::CRC16,
        state: SendState::Idle,
        files: seq![],
        cur_file: 0,
        block_number: 1,
        errors: 0,
        bytes_send: 0,
    }
}

/// The sender as it begins to send `files`: it waits for the receiver's
/// probe; with no file to send outside a batch it is idle at once.
pub open spec fn started(
    v: SyView,
    variant: XYModemVariant,
    files: Seq<FileDescriptorView>,
) -> SyView {
    SyView {
        variant,
        block_length: variant.block_length(),
        checksum: Checksum::CRC16,
        state: if !variant.is_batch() && files.len() == 0 {
            SendState::Idle
        } else {
            SendState::InitiateSend
        },
        files,
        cur_file: 0,
        block_number: 1,
        ..v
    }
}

/// The display name of a state.
pub open spec fn state_label(state: SendState) -> Seq<char> {
    match state {
        SendState::Idle => "Idle"@,
        SendState::InitiateSend => "InitiateSend"@,
        SendState::SendYModemHeader(_) => "SendYModemHeader"@,
        SendState::AckSendYmodemHeader(_) => "AckSendYmodemHeader"@,
        SendState::SendData(_, _) => "SendData"@,
        SendState::AckSendData(_, _) => "AckSendData"@,
        SendState::AckEndOfFile(_) => "AckEndOfFile"@,
        SendState::AckSecondEndOfFile(_) => "AckSecondEndOfFile"@,
        SendState::AwaitNextFile => "AwaitNextFile"@,
    }
}

/// The progress that a sender reports.
pub open spec fn progress_of(v: SyView) -> FileTransferStateView {
    FileTransferStateView {
        file: if v.cur_file < v.files.len() {
            Some(FileDescriptorView { data: None, ..v.files[v.cur_file as int] })
        } else {
            None
        },
        bytes_transfered: v.bytes_send,
        errors: v.errors,
        engine_state: state_label(v.state),
    }
}

/// What the sender tells the host that it is doing.
pub open spec fn activity_of(state: SendState, before: Seq<char>) -> Seq<char> {
    match state {
        SendState::InitiateSend => "Initiate send..."@,
        SendState::SendYModemHeader(_) | SendState::AckSendYmodemHeader(_) => "Send header..."@,
        SendState::SendData(_, _) | SendState::AckSendData(_, _) => "Send data..."@,
        SendState::AckEndOfFile(_) | SendState::AckSecondEndOfFile(_)
        | SendState::AwaitNextFile => "End of file..."@,
        SendState::Idle => before,
    }
}

/// A step keeps a sender well formed.
pub proof fn lemma_step_keeps_well_formed(v: SyView, input: Seq<u8>)
    requires
        well_formed(v),
    ensures
        well_formed(send_step(v, input).next),
{
}

/// What a step of the sender asks of its caller.
pub struct SendAction {
    /// The bytes to send to the peer.
    pub reply: Vec<u8>,
    /// Whether the transfer goes on.
    pub result: Result<(), TransferError>,
}

impl SendState {
    /// The display name of the state.
    pub fn label(&self) -> (r: String)
        ensures
            r@ == state_label(*self),
    {
        match self {
            SendState::Idle => "Idle".to_owned(),
            SendState::InitiateSend => "InitiateSend".to_owned(),
            SendState::SendYModemHeader(_) => "SendYModemHeader".to_owned(),
            SendState::AckSendYmodemHeader(_) => "AckSendYmodemHeader".to_owned(),
            SendState::SendData(_, _) => "SendData".to_owned(),
            SendState::AckSendData(_, _) => "AckSendData".to_owned(),
            SendState::AckEndOfFile(_) => "AckEndOfFile".to_owned(),
            SendState::AckSecondEndOfFile(_) => "AckSecondEndOfFile".to_owned(),
            SendState::AwaitNextFile => "AwaitNextFile".to_owned(),
        }
    }

    /// Whether the sender waits for a byte in this state.
    pub fn awaits_input(&self) -> (r: bool)
        ensures
            r == wants_input(*self),
    {
        match self {
            SendState::Idle | SendState::SendYModemHeader(_) | SendState::SendData(_, _) => false,
            _ => true,
        }
    }
}

/// The sender.
pub struct Sy {
    pub block_length: usize,
    pub bytes_send: usize,
    pub variant: XYModemVariant,
    checksum_mode: Checksum,
    _send_timeout: u64,
    _recv_timeout: u64,
    ack_timeout: u64,
    files: Vec<FileDescriptor>,
    cur_file: usize,
    block_number: u8,
    errors: usize,
    send_state: SendState,
}

impl View for Sy {
    type V = SyView;

    closed spec fn view(&self) -> SyView {
        SyView {
            variant: self.variant,
            block_length: self.block_length,
            checksum: self.checksum_mode,
            state: self.send_state,
            files: views(self.files@),
            cur_file: self.cur_file,
            block_number: self.block_number,
            errors: self.errors,
            bytes_send: self.bytes_send,
        }
    }
}

fn one(a: u8) -> (r: Vec<u8>)
    ensures
        r@ == seq![a],
{
    let mut r: Vec<u8> = Vec::new();
    r.push(a);
    proof {
        assert(r@ =~= seq![a]);
    }
    r
}

fn two(a: u8, b: u8) -> (r: Vec<u8>)
    ensures
        r@ == seq![a, b],
{
    let mut r: Vec<u8> = Vec::new();
    r.push(a);
    r.push(b);
    proof {
        assert(r@ =~= seq![a, b]);
    }
    r
}

/// The length of a file's contents.
fn data_len(file: &FileDescriptor) -> (r: usize)
    ensures
        r == contents_of(file@).len(),
{
    match &file.data {
        Some(d) => d.len(),
        None => 0,
    }
}

/// Builds the header payload that announces `file`, if the file can be
/// announced.
fn announce(file: &FileDescriptor) -> (r: Option<Vec<u8>>)
    ensures
        r is Some <==> announceable(file@),
        r matches Some(p) ==> p@ == announcement(file@),
{
    build_header(file.file_name.as_str().as_bytes(), data_len(file))
}

impl Sy {
    /// An idle sender with nothing to send.
    pub fn new() -> (r: Self)
        ensures
            r@ == fresh(),
            well_formed(r@),
    {
        let r = Sy {
            variant: XYModemVariant::XModem,
            block_length: DEFAULT_BLOCK_LENGTH,
            checksum_mode: Checksum::CRC16,
            _send_timeout: 10_000,
            _recv_timeout: 10_000,
            ack_timeout: 3_000,
            send_state: SendState::Idle,
            files: Vec::new(),
            errors: 0,
            bytes_send: 0,
            cur_file: 0,
            block_number: 1,
        };
        proof {
            assert(views(r.files@) =~= seq![]);
        }
        r
    }

    /// Whether the transfer has ended: the sender is idle.
    pub fn is_finished(&self) -> (r: bool)
        ensures
            r == (self@.state == SendState::Idle),
    {
        match self.send_state {
            SendState::Idle => true,
            _ => false,
        }
    }

    /// The sender's state.
    pub fn state(&self) -> (r: SendState)
        ensures
            r == self@.state,
    {
        self.send_state
    }

    /// The number of errors met so far.
    pub fn error_count(&self) -> (r: usize)
        ensures
            r == self@.errors,
    {
        self.errors
    }

    /// The variant of the transfer.
    pub fn get_variant(&self) -> (r: XYModemVariant)
        ensures
            r == self@.variant,
    {
        self.variant
    }

    /// The payload length of a data block in the variant of the transfer.
    pub fn get_block_length(&self) -> (r: usize)
        ensures
            r == self@.block_length,
    {
        self.block_length
    }

    /// The payload bytes sent so far, over all files, counted block by
    /// block.
    pub fn get_bytes_send(&self) -> (r: usize)
        ensures
            r == self@.bytes_send,
    {
        self.bytes_send
    }

    /// The number of bytes that the next step consumes: one where the
    /// sender waits, none where it has something to send or is idle.
    pub fn needed(&self) -> (r: usize)
        ensures
            r == (if wants_input(self@.state) {
                1nat
            } else {
                0nat
            }),
    {
        if self.send_state.awaits_input() {
            1
        } else {
            0
        }
    }

    /// The progress that the sender reports.
    pub fn progress(&self) -> (r: FileTransferState)
        ensures
            r@ == progress_of(self@),
    {
        let file = if self.cur_file < self.files.len() {
            Some(self.files[self.cur_file].summary())
        } else {
            None
        };
        FileTransferState {
            file,
            bytes_transfered: self.bytes_send,
            errors: self.errors,
            engine_state: self.send_state.label(),
        }
    }

    /// Begins to send `files` in the given variant and waits for the
    /// receiver's probe. In a batch every file must be announceable; if one
    /// is not, nothing begins and the sender stays as it is. Outside a
    /// batch the first file is sent, and the transfer ends with it.
    pub fn send(&mut self, variant: XYModemVariant, files: Vec<FileDescriptor>) -> (r: Result<
        (),
        TransferError,
    >)
        ensures
            match r {
                Ok(()) => final(self)@ == started(old(self)@, variant, views(files@))
                    && well_formed(final(self)@),
                Err(e) => e == TransferError::InvalidFileName && final(self)@ == old(self)@,
            },
            r is Ok <==> (variant.is_batch() ==> forall|i: int|
                0 <= i < files@.len() ==> announceable(#[trigger] views(files@)[i])),
    {
        if variant.uses_header() {
            let mut i: usize = 0;
            while i < files.len()
                invariant
                    i <= files.len(),
                    variant.is_batch(),
                    forall|j: int| 0 <= j < i ==> announceable(#[trigger] views(files@)[j]),
                decreases files.len() - i,
            {
                proof {
                    assert(views(files@)[i as int] == files@[i as int]@);
                }
                if announce(&files[i]).is_none() {
                    return Err(TransferError::InvalidFileName);
                }
                i = i + 1;
            }
        }
        self.block_length = variant.get_block_length();
        self.variant = variant;
        self.checksum_mode = Checksum::CRC16;
        self.send_state = if !variant.uses_header() && files.len() == 0 {
            SendState::Idle
        } else {
            SendState::InitiateSend
        };
        self.files = files;
        self.cur_file = 0;
        self.block_number = 1;
        Ok(())
    }

    fn count_error(&mut self)
        ensures
            final(self)@ == (SyView { errors: saturating_inc(old(self)@.errors), ..old(self)@ }),
    {
        if self.errors < usize::MAX {
            self.errors = self.errors + 1;
        }
    }

    fn proceed(&mut self, state: SendState, reply: Vec<u8>) -> (a: SendAction)
        ensures
            final(self)@ == proceed(old(self)@, state, reply@).next,
            a.reply@ == reply@,
            a.result == Ok::<(), TransferError>(()),
    {
        self.send_state = state;
        SendAction { reply, result: Ok(()) }
    }

    fn stay(&mut self) -> (a: SendAction)
        ensures
            final(self)@ == old(self)@,
            a.reply@ == Seq::<u8>::empty(),
            a.result == Ok::<(), TransferError>(()),
    {
        SendAction { reply: Vec::new(), result: Ok(()) }
    }

    fn retry(&mut self, retries: usize, state: SendState, reply: Vec<u8>) -> (a: SendAction)
        ensures
            final(self)@ == retry(old(self)@, retries, state, reply@).next,
            a.reply@ == retry(old(self)@, retries, state, reply@).reply,
            a.result == retry(old(self)@, retries, state, reply@).result,
    {
        self.count_error();
        if retries < MAX_BLOCK_RETRIES {
            self.send_state = state;
            SendAction { reply, result: Ok(()) }
        } else {
            self.send_state = SendState::Idle;
            SendAction { reply: two(CAN, CAN), result: Err(TransferError::TooManyRetries) }
        }
    }

    fn bump_retries(retries: usize) -> (r: usize)
        ensures
            retries < MAX_BLOCK_RETRIES ==> r == retries + 1,
    {
        if retries < MAX_BLOCK_RETRIES {
            retries + 1
        } else {
            retries
        }
    }

    fn advance(&mut self, offset: usize) -> (r: usize)
        ensures
            r == saturating_sum(offset, old(self)@.block_length),
            final(self)@ == (SyView {
                block_number: next_block_number(old(self)@.block_number),
                bytes_send: saturating_sum(old(self)@.bytes_send, old(self)@.block_length),
                ..old(self)@
            }),
    {
        self.block_number = if self.block_number == 255 {
            0
        } else {
            self.block_number + 1
        };
        self.bytes_send = if self.bytes_send <= usize::MAX - self.block_length {
            self.bytes_send + self.block_length
        } else {
            usize::MAX
        };
        if offset <= usize::MAX - self.block_length {
            offset + self.block_length
        } else {
            usize::MAX
        }
    }

    /// The step of a state that has something to send.
    fn emit(&mut self) -> (a: SendAction)
        ensures
            final(self)@ == emit_step(old(self)@).next,
            a.reply@ == emit_step(old(self)@).reply,
            a.result == emit_step(old(self)@).result,
    {
        match self.send_state {
            SendState::SendYModemHeader(retries) => {
                let payload = if self.cur_file < self.files.len() {
                    proof {
                        assert(views(self.files@)[self.cur_file as int]
                            == self.files@[self.cur_file as int]@);
                    }
                    match announce(&self.files[self.cur_file]) {
                        Some(p) => p,
                        None => build_end_of_batch(),
                    }
                } else {
                    build_end_of_batch()
                };
                let block = build_frame(self.checksum_mode, 0, payload.as_slice());
                self.proceed(SendState::AckSendYmodemHeader(retries), block)
            },
            SendState::SendData(offset, retries) => {
                proof {
                    if self.cur_file < self.files@.len() {
                        assert(views(self.files@)[self.cur_file as int]
                            == self.files@[self.cur_file as int]@);
                    }
                }
                let block = if self.cur_file < self.files.len() {
                    match &self.files[self.cur_file].data {
                        Some(d) => if offset < d.len() {
                            let payload = build_chunk(d.as_slice(), offset, self.block_length);
                            Some(
                                build_frame(
                                    self.checksum_mode,
                                    self.block_number,
                                    payload.as_slice(),
                                ),
                            )
                        } else {
                            None
                        },
                        None => None,
                    }
                } else {
                    None
                };
                match block {
                    Some(block) => {
                        if self.variant.streams() {
                            let next = self.advance(offset);
                            self.proceed(SendState::SendData(next, 0), block)
                        } else {
                            self.proceed(SendState::AckSendData(offset, retries), block)
                        }
                    },
                    None => self.proceed(SendState::AckEndOfFile(0), one(EOT)),
                }
            },
            _ => self.stay(),
        }
    }

    /// The step of a waiting state on the byte `b`.
    fn on_byte(&mut self, b: u8) -> (a: SendAction)
        ensures
            final(self)@ == byte_step(old(self)@, b).next,
            a.reply@ == byte_step(old(self)@, b).reply,
            a.result == byte_step(old(self)@, b).result,
    {
        if b == CAN {
            self.send_state = SendState::Idle;
            return SendAction { reply: Vec::new(), result: Err(TransferError::Cancelled) };
        }
        match self.send_state {
            SendState::InitiateSend => {
                if b == PROBE_CRC || b == NAK {
                    self.checksum_mode = if b == NAK {
                        Checksum::Default
                    } else {
                        Checksum::CRC16
                    };
                    if self.variant.uses_header() {
                        self.proceed(SendState::SendYModemHeader(0), Vec::new())
                    } else {
                        self.proceed(SendState::SendData(0, 0), Vec::new())
                    }
                } else {
                    self.stay()
                }
            },
            SendState::AckSendYmodemHeader(retries) => {
                if b == ACK {
                    if self.cur_file < self.files.len() {
                        self.block_number = 1;
                        self.proceed(SendState::SendData(0, 0), Vec::new())
                    } else {
                        self.proceed(SendState::Idle, Vec::new())
                    }
                } else if b == NAK {
                    self.retry(
                        retries,
                        SendState::SendYModemHeader(Self::bump_retries(retries)),
                        Vec::new(),
                    )
                } else {
                    self.stay()
                }
            },
            SendState::AckSendData(offset, retries) => {
                if b == ACK {
                    let next = self.advance(offset);
                    self.proceed(SendState::SendData(next, 0), Vec::new())
                } else if b == NAK {
                    self.retry(
                        retries,
                        SendState::SendData(offset, Self::bump_retries(retries)),
                        Vec::new(),
                    )
                } else {
                    self.stay()
                }
            },
            SendState::AckEndOfFile(retries) => {
                if self.variant.uses_header() {
                    if b == NAK {
                        self.proceed(SendState::AckSecondEndOfFile(0), one(EOT))
                    } else {
                        self.stay()
                    }
                } else if b == ACK {
                    self.proceed(SendState::Idle, Vec::new())
                } else if b == NAK {
                    self.retry(
                        retries,
                        SendState::AckEndOfFile(Self::bump_retries(retries)),
                        one(EOT),
                    )
                } else {
                    self.stay()
                }
            },
            SendState::AckSecondEndOfFile(retries) => {
                if b == ACK {
                    self.proceed(SendState::AwaitNextFile, Vec::new())
                } else if b == NAK {
                    self.retry(
                        retries,
                        SendState::AckSecondEndOfFile(Self::bump_retries(retries)),
                        one(EOT),
                    )
                } else {
                    self.stay()
                }
            },
            SendState::AwaitNextFile => {
                if b == PROBE_CRC {
                    if self.cur_file < usize::MAX {
                        self.cur_file = self.cur_file + 1;
                    }
                    self.proceed(SendState::SendYModemHeader(0), Vec::new())
                } else {
                    self.stay()
                }
            },
            _ => self.stay(),
        }
    }

    /// One step of the sender.
    ///
    /// In a state that waits, `input` is the byte that came, or empty if
    /// none came in time. In a state that has something to send, `input` is
    /// not looked at. The caller sends the reply and passes the result on.
    pub fn step(&mut self, input: &[u8]) -> (a: SendAction)
        ensures
            final(self)@ == send_step(old(self)@, input@).next,
            a.reply@ == send_step(old(self)@, input@).reply,
            a.result == send_step(old(self)@, input@).result,
    {
        if !self.send_state.awaits_input() {
            self.emit()
        } else if input.len() == 1 {
            self.on_byte(input[0])
        } else {
            match self.send_state {
                SendState::AckSendYmodemHeader(_) | SendState::AckSendData(_, _)
                | SendState::AckSecondEndOfFile(_) => self.on_byte(NAK),
                SendState::AckEndOfFile(retries) => self.retry(
                    retries,
                    SendState::AckEndOfFile(Self::bump_retries(retries)),
                    one(EOT),
                ),
                _ => self.stay(),
            }
        }
    }
}

/// What a tick of the sender has done to the channel and to itself, seen
/// from the channel's histories: `rx` is what the tick read and `tx` what it
/// wrote.
///
/// A tick that ends without a transport failure either found nothing to do
/// (it read and wrote nothing and the sender is as before), or took the step
/// of `send_step` on what it read, wrote that step's reply and passes on its
/// result. A tick that ends in a transport failure wrote nothing; the sender
/// is as before, or has taken the step whose reply could not be sent.
pub open spec fn ticked(
    before: SyView,
    after: SyView,
    rx: Seq<u8>,
    tx: Seq<u8>,
    r: Result<(), TransferError>,
) -> bool {
    let e = send_step(before, rx);
    match r {
        Err(TransferError::Transport(_)) => tx.len() == 0 && (after == before || after == e.next),
        _ => {
            ||| (r is Ok && rx.len() == 0 && tx.len() == 0 && after == before)
            ||| (after == e.next && tx == e.reply && r == e.result)
        },
    }
}

/// What a tick of the sender does over a channel in memory: the step that
/// it takes, and the queues as it leaves them. An idle sender does nothing,
/// nor does a waiting one for which nothing is buffered. Else a waiting
/// sender reads one byte and takes its step on it, a sender with something
/// to send takes its step without reading, and the step's reply is written.
pub open spec fn tick_over(v: SyView, q: Queues) -> (SendEffect, Queues) {
    let reads = wants_input(v.state);
    if v.state == SendState::Idle || (reads && q.inbound.len() == 0) {
        (proceed(v, v.state, seq![]), q)
    } else {
        let e = send_step(
            v,
            if reads {
                q.inbound.take(1)
            } else {
                seq![]
            },
        );
        (
            e,
            Queues {
                inbound: if reads {
                    q.inbound.skip(1)
                } else {
                    q.inbound
                },
                outbound: q.outbound + e.reply,
            },
        )
    }
}

/// What the host is told that the sender is doing, after a tick over a
/// channel in memory: the activity of the state in which the tick took its
/// step, and what it was told before if the tick had nothing to do.
pub open spec fn activity_over(v: SyView, q: Queues, before: Seq<char>) -> Seq<char> {
    if v.state != SendState::Idle && !(wants_input(v.state) && q.inbound.len() == 0) {
        activity_of(v.state, before)
    } else {
        before
    }
}

impl Sy {
    /// Cancels the transfer: the sender is idle from now on, and the cancel
    /// sequence is sent.
    pub fn cancel<T: Com>(&mut self, com: &mut T) -> (r: Result<(), TransferError>)
        ensures
            final(self)@ == (SyView { state: SendState::Idle, ..old(self)@ }),
            final(com).consumed() == old(com).consumed(),
            match r {
                Ok(()) => final(com).written() == old(com).written() + seq![CAN, CAN],
                Err(e) => e is Transport && final(com).written() == old(com).written(),
            },
            old(com).queues() matches Some(q) ==> r is Ok && final(com).queues() == Some(
                Queues { outbound: q.outbound + seq![CAN, CAN], ..q },
            ),
    {
        self.send_state = SendState::Idle;
        let bytes = two(CAN, CAN);
        match com.write(bytes.as_slice()) {
            Err(e) => Err(TransferError::Transport(e)),
            Ok(_) => Ok(()),
        }
    }

    /// One tick: reports progress and takes one step.
    ///
    /// An idle sender does not touch the channel. In a state that waits,
    /// the step is taken only if the channel has data; it reads one byte (a
    /// read that times out counts as silence). In a state that has something
    /// to send, the step is taken at once, without reading.
    /// The step's reply is sent. Any other channel failure ends the tick at
    /// once and is passed on. Over a channel in memory the tick is that of
    /// `tick_over`.
    pub fn update<T: Com>(&mut self, com: &mut T, state: &mut TransferState) -> (r: Result<
        (),
        TransferError,
    >)
        ensures
            final(state).send_state matches Some(s) && s@ == progress_of(old(self)@),
            final(state).recieve_state == old(state).recieve_state,
            final(state).is_finished == (final(self)@.state == SendState::Idle),
            final(state).current_state@ == old(state).current_state@
                || final(state).current_state@ == activity_of(
                old(self)@.state,
                old(state).current_state@,
            ),
            old(com).consumed().is_prefix_of(final(com).consumed()),
            old(com).written().is_prefix_of(final(com).written()),
            old(self)@.state == SendState::Idle ==> {
                &&& r is Ok
                &&& final(self)@ == old(self)@
                &&& final(com).consumed() == old(com).consumed()
                &&& final(com).written() == old(com).written()
                &&& final(state).current_state@ == old(state).current_state@
            },
            old(self)@.state != SendState::Idle && !wants_input(old(self)@.state) ==> {
                &&& final(self)@ == send_step(old(self)@, seq![]).next
                &&& final(com).consumed() == old(com).consumed()
                &&& final(state).current_state@ == activity_of(
                    old(self)@.state,
                    old(state).current_state@,
                )
            },
            ticked(
                old(self)@,
                final(self)@,
                final(com).consumed().skip(old(com).consumed().len() as int),
                final(com).written().skip(old(com).written().len() as int),
                r,
            ),
            old(com).queues() matches Some(q) ==> final(self)@ == tick_over(old(self)@, q).0.next
                && r == tick_over(old(self)@, q).0.result && final(com).queues() == Some(
                tick_over(old(self)@, q).1,
            ) && final(state).current_state@ == activity_over(
                old(self)@,
                q,
                old(state).current_state@,
            ),
    {
        state.send_state = Some(self.progress());
        state.is_finished = self.is_finished();
        let ghost none = Seq::<u8>::empty();
        proof {
            assert(com.consumed().skip(com.consumed().len() as int) =~= none);
            assert(com.written().skip(com.written().len() as int) =~= none);
        }
        if self.is_finished() {
            return Ok(());
        }
        let input = if self.send_state.awaits_input() {
            match com.is_data_available() {
                Err(e) => {
                    return Err(TransferError::Transport(e));
                },
                Ok(false) => {
                    return Ok(());
                },
                Ok(true) => {},
            }
            match read_input(com, self.ack_timeout, 1) {
                Ok(input) => input,
                Err(e) => {
                    return Err(TransferError::Transport(e));
                },
            }
        } else {
            Vec::new()
        };
        match self.send_state {
            SendState::InitiateSend => {
                state.current_state = "Initiate send...";
            },
            SendState::SendYModemHeader(_) | SendState::AckSendYmodemHeader(_) => {
                state.current_state = "Send header...";
            },
            SendState::SendData(_, _) | SendState::AckSendData(_, _) => {
                state.current_state = "Send data...";
            },
            SendState::Idle => {},
            _ => {
                state.current_state = "End of file...";
            },
        }
        proof {
            assert(com.consumed() =~= old(com).consumed() + input@);
            assert(com.consumed().skip(old(com).consumed().len() as int) =~= input@);
        }
        let action = self.step(input.as_slice());
        state.is_finished = self.is_finished();
        match answer(com, false, action.reply.as_slice()) {
            Err(e) => {
                return Err(TransferError::Transport(e));
            },
            Ok(()) => {},
        }
        proof {
            assert(com.written().skip(old(com).written().len() as int) =~= action.reply@);
        }
        action.result
    }
}

/// What the sender makes of `n` negative acknowledgements in a row: on each
/// it takes its step, and sends again before the next one comes. The run
/// ends with the last of them, or with the first step that reports an
/// error. The result is the effect of the last step on a negative
/// acknowledgement.
pub open spec fn after_naks(v: SyView, n: nat) -> SendEffect
    decreases n,
{
    if n == 0 {
        proceed(v, v.state, seq![])
    } else {
        let e = send_step(v, seq![NAK]);
        if n == 1 || e.result is Err {
            e
        } else {
            after_naks(send_step(e.next, seq![]).next, (n - 1) as nat)
        }
    }
}

/// Retransmissions are bounded. A sender that acknowledges block by block
/// and waits for the acknowledgement of a block gets one negative
/// acknowledgement after the other. As long as there were no more than
/// `MAX_BLOCK_RETRIES` of them for the block, it stands ready to send the
/// same block, under the same number, once more, and its retry counter is
/// their number. The next one is one too many: the sender sends the cancel
/// sequence, reports that the retries are used up, and is idle.
pub proof fn lemma_retransmissions_are_bounded(v: SyView, n: nat)
    requires
        v.state matches SendState::AckSendData(offset, retries) && offset < contents(v).len()
            && retries + n <= MAX_BLOCK_RETRIES + 1,
        !v.variant.is_streaming(),
        n > 0,
    ensures
        ({
            let e = after_naks(v, n);
            let failures = v.state->AckSendData_1 + n;
            &&& e.next.block_number == v.block_number
            &&& e.next.files == v.files
            &&& e.next.cur_file == v.cur_file
            &&& if failures <= MAX_BLOCK_RETRIES {
                &&& e.reply == Seq::<u8>::empty()
                &&& e.result is Ok
                &&& e.next.state == SendState::SendData(v.state->AckSendData_0, failures as usize)
                &&& send_step(e.next, seq![]).reply == send_step(
                    SyView { state: SendState::SendData(v.state->AckSendData_0, 0), ..v },
                    seq![],
                ).reply
            } else {
                &&& e.reply == seq![CAN, CAN]
                &&& e.result == Err::<(), TransferError>(TransferError::TooManyRetries)
                &&& e.next.state == SendState::Idle
            }
        }),
    decreases n,
{
    let e = send_step(v, seq![NAK]);
    if n > 1 {
        lemma_retransmissions_are_bounded(send_step(e.next, seq![]).next, (n - 1) as nat);
    }
}

} // verus!
