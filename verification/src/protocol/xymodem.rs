//! The XMODEM/YMODEM family: variants, framing, and the two engines.

use crate::com::{Com, Queues};
use crate::protocol::{FileDescriptor, TransferError, TransferState};
use ry::{Ry, RyView};
use sy::{Sy, SyView};
use vstd::prelude::*;

pub mod constants;
pub mod frame;
pub mod header;
pub mod ry;
pub mod session;
pub mod sy;

verus! {

/// How a block is checked.
#[derive(Debug, Clone, Copy, PartialEq, Eq, Structural)]
pub enum Checksum {
    /// One byte: the arithmetic sum of the payload modulo 256.
    Default,
    /// Two bytes: the 16-bit CRC of the payload.
    CRC16,
}

impl Checksum {
    /// The number of check bytes that follow a payload.
    pub open spec fn size(self) -> nat {
        match self {
            Checksum::Default => 1,
            Checksum::CRC16 => 2,
        }
    }

    /// The number of check bytes that follow a payload.
    pub fn len(self) -> (r: usize)
        ensures
            r == self.size(),
    {
        match self {
            Checksum::Default => 1,
            Checksum::CRC16 => 2,
        }
    }
}

/// The protocol flavors. They differ in block length, in whether a header
/// block precedes each file, and in whether blocks wait for acknowledgement.
#[derive(Debug, Clone, Copy, PartialEq, Eq, Structural)]
pub enum XYModemVariant {
    /// 128-byte blocks, one file, each block acknowledged.
    XModem,
    /// 1024-byte blocks, one file, each block acknowledged.
    XModem1k,
    /// 1024-byte blocks, one file, blocks streamed.
    XModem1kG,
    /// 1024-byte blocks, a batch of files with headers, each block
    /// acknowledged.
    YModem,
    /// 1024-byte blocks, a batch of files with headers, blocks streamed.
    YModemG,
}

impl XYModemVariant {
    /// The payload length of a data block.
    pub open spec fn block_length(self) -> usize {
        match self {
            XYModemVariant::XModem => constants::DEFAULT_BLOCK_LENGTH,
            _ => constants::EXT_BLOCK_LENGTH,
        }
    }

    /// Whether each file is announced by a header block.
    pub open spec fn is_batch(self) -> bool {
        self == XYModemVariant::YModem || self == XYModemVariant::YModemG
    }

    /// Whether the sender streams blocks without waiting for
    /// acknowledgement.
    pub open spec fn is_streaming(self) -> bool {
        self == XYModemVariant::XModem1kG || self == XYModemVariant::YModemG
    }

    /// The payload length of a data block.
    pub fn get_block_length(self) -> (r: usize)
        ensures
            r == self.block_length(),
    {
        match self {
            XYModemVariant::XModem => constants::DEFAULT_BLOCK_LENGTH,
            _ => constants::EXT_BLOCK_LENGTH,
        }
    }

    /// Whether each file is announced by a header block.
    pub fn uses_header(self) -> (r: bool)
        ensures
            r == self.is_batch(),
    {
        match self {
            XYModemVariant::YModem | XYModemVariant::YModemG => true,
            _ => false,
        }
    }

    /// Whether the sender streams blocks without waiting for
    /// acknowledgement.
    pub fn streams(self) -> (r: bool)
        ensures
            r == self.is_streaming(),
    {
        match self {
            XYModemVariant::XModem1kG | XYModemVariant::YModemG => true,
            _ => false,
        }
    }
}

/// What a transfer facade is doing.
#[derive(Debug, Clone, Copy, PartialEq, Eq, Structural)]
pub enum Direction {
    /// Nothing was begun.
    Neither,
    /// The sender runs.
    Sending,
    /// The receiver runs.
    Receiving,
}

/// A transfer in one variant: it owns a sender and a receiver, begins one
/// of them, and passes every tick to the one that runs.
pub struct XYmodem {
    variant: XYModemVariant,
    direction: Direction,
    ry: Ry,
    sy: Sy,
}

/// A transfer facade as a value.
pub struct XYmodemView {
    pub variant: XYModemVariant,
    pub direction: Direction,
    pub receiver: RyView,
    pub sender: SyView,
}

impl View for XYmodem {
    type V = XYmodemView;

    closed spec fn view(&self) -> XYmodemView {
        XYmodemView {
            variant: self.variant,
            direction: self.direction,
            receiver: self.ry@,
            sender: self.sy@,
        }
    }
}

impl XYmodem {
    /// A facade for transfers in `variant`, with nothing begun.
    pub fn new(variant: XYModemVariant) -> (r: Self)
        ensures
            r@ == (XYmodemView {
                variant,
                direction: Direction::Neither,
                receiver: ry::fresh(),
                sender: sy::fresh(),
            }),
            ry::well_formed(r@.receiver),
    {
        XYmodem { variant, direction: Direction::Neither, ry: Ry::new(), sy: Sy::new() }
    }

    /// Begins to send `files`. Nothing is read or written yet: the sender
    /// waits for the receiver's probe. In a batch variant a file that cannot be
    /// announced is refused, and nothing begins.
    pub fn initiate_send<T: Com>(
        &mut self,
        com: &mut T,
        files: Vec<FileDescriptor>,
        state: &mut TransferState,
    ) -> (r: Result<(), TransferError>)
        ensures
            final(com).consumed() == old(com).consumed(),
            final(com).written() == old(com).written(),
            final(com).queues() == old(com).queues(),
            final(self)@.variant == old(self)@.variant,
            final(self)@.receiver == old(self)@.receiver,
            match r {
                Ok(()) => final(self)@.direction == Direction::Sending && final(self)@.sender
                    == sy::started(
                    old(self)@.sender,
                    old(self)@.variant,
                    crate::protocol::views(files@),
                ) && !final(state).is_finished,
                Err(e) => e == TransferError::InvalidFileName && final(self)@ == old(self)@
                    && *final(state) == *old(state),
            },
            r is Ok <==> (old(self)@.variant.is_batch() ==> forall|i: int|
                0 <= i < files@.len() ==> sy::announceable(
                    #[trigger] crate::protocol::views(files@)[i],
                )),
    {
        match self.sy.send(self.variant, files) {
            Err(e) => Err(e),
            Ok(()) => {
                self.direction = Direction::Sending;
                state.is_finished = false;
                Ok(())
            },
        }
    }

    /// Begins to receive: the probe is sent and the receiver waits for the
    /// first block. If the probe cannot be sent, nothing begins.
    pub fn initiate_recv<T: Com>(&mut self, com: &mut T, state: &mut TransferState) -> (r: Result<
        (),
        TransferError,
    >)
        ensures
            final(com).consumed() == old(com).consumed(),
            final(self)@.variant == old(self)@.variant,
            final(self)@.sender == old(self)@.sender,
            match r {
                Ok(()) => final(self)@.direction == Direction::Receiving && final(self)@.receiver
                    == ry::begun(old(self)@.receiver, old(self)@.variant) && final(com).written()
                    == old(com).written() + seq![constants::PROBE_CRC] && !final(state).is_finished,
                Err(e) => e is Transport && final(self)@ == old(self)@ && final(com).written()
                    == old(com).written() && *final(state) == *old(state),
            },
            old(com).queues() matches Some(q) ==> r is Ok && final(com).queues() == Some(
                Queues { outbound: q.outbound + seq![constants::PROBE_CRC], ..q },
            ),
    {
        match self.ry.recv(com, self.variant) {
            Err(e) => Err(e),
            Ok(()) => {
                self.direction = Direction::Receiving;
                state.is_finished = false;
                Ok(())
            },
        }
    }

    /// Whether the engine that was begun is idle again. Before anything was
    /// begun there is nothing to finish.
    pub fn is_finished(&self) -> (r: bool)
        ensures
            r == (match self@.direction {
                Direction::Neither => false,
                Direction::Sending => self@.sender.state == sy::SendState::Idle,
                Direction::Receiving => self@.receiver.state == ry::RecvState::Idle,
            }),
    {
        match self.direction {
            Direction::Neither => false,
            Direction::Sending => self.sy.is_finished(),
            Direction::Receiving => self.ry.is_finished(),
        }
    }

    /// The number of bytes that the next tick reads from the channel if
    /// the channel has data: what the engine that runs asks for.
    pub fn needed(&self) -> (r: usize)
        requires
            ry::well_formed(self@.receiver),
        ensures
            r == (match self@.direction {
                Direction::Neither => 0nat,
                Direction::Sending => if sy::wants_input(self@.sender.state) {
                    1nat
                } else {
                    0nat
                },
                Direction::Receiving => ry::needed_in(
                    self@.receiver.state,
                    self@.receiver.checksum,
                ),
            }),
    {
        match self.direction {
            Direction::Neither => 0,
            Direction::Sending => self.sy.needed(),
            Direction::Receiving => self.ry.needed(),
        }
    }

    /// One tick of the engine that runs; see `Ry::update` and `Sy::update`.
    /// Before anything was begun a tick does nothing.
    pub fn update<T: Com>(&mut self, com: &mut T, state: &mut TransferState) -> (r: Result<
        (),
        TransferError,
    >)
        requires
            ry::well_formed(old(self)@.receiver),
        ensures
            ry::well_formed(final(self)@.receiver),
            final(self)@.variant == old(self)@.variant,
            final(self)@.direction == old(self)@.direction,
            old(com).consumed().is_prefix_of(final(com).consumed()),
            old(com).written().is_prefix_of(final(com).written()),
            match old(self)@.direction {
                Direction::Neither => {
                    &&& r is Ok
                    &&& final(self)@ == old(self)@
                    &&& final(com).consumed() == old(com).consumed()
                    &&& final(com).written() == old(com).written()
                    &&& *final(state) == *old(state)
                },
                Direction::Sending => {
                    &&& final(self)@.receiver == old(self)@.receiver
                    &&& old(self)@.sender.state == sy::SendState::Idle ==> {
                        &&& r is Ok
                        &&& final(self)@ == old(self)@
                        &&& final(com).consumed() == old(com).consumed()
                        &&& final(com).written() == old(com).written()
                    }
                    &&& old(self)@.sender.state != sy::SendState::Idle && !sy::wants_input(
                        old(self)@.sender.state,
                    ) ==> {
                        &&& final(self)@.sender == sy::send_step(old(self)@.sender, seq![]).next
                        &&& final(com).consumed() == old(com).consumed()
                    }
                    &&& sy::ticked(
                        old(self)@.sender,
                        final(self)@.sender,
                        final(com).consumed().skip(old(com).consumed().len() as int),
                        final(com).written().skip(old(com).written().len() as int),
                        r,
                    )
                    &&& final(state).is_finished == (final(self)@.sender.state
                        == sy::SendState::Idle)
                    &&& final(state).send_state matches Some(p) && p@ == sy::progress_of(
                        old(self)@.sender,
                    )
                    &&& final(state).recieve_state == old(state).recieve_state
                },
                Direction::Receiving => {
                    &&& final(self)@.sender == old(self)@.sender
                    &&& old(self)@.receiver.state == ry::RecvState::Idle ==> {
                        &&& r is Ok
                        &&& final(self)@ == old(self)@
                        &&& final(com).consumed() == old(com).consumed()
                        &&& final(com).written() == old(com).written()
                    }
                    &&& ry::ticked(
                        old(self)@.receiver,
                        final(self)@.receiver,
                        final(com).consumed().skip(old(com).consumed().len() as int),
                        final(com).written().skip(old(com).written().len() as int),
                        r,
                    )
                    &&& final(state).is_finished == (final(self)@.receiver.state
                        == ry::RecvState::Idle)
                    &&& final(state).recieve_state matches Some(p) && p@ == ry::progress_of(
                        old(self)@.receiver,
                    )
                    &&& final(state).send_state == old(state).send_state
                },
            },
            old(com).queues() matches Some(q) ==> (match old(self)@.direction {
                Direction::Neither => final(com).queues() == Some(q),
                Direction::Sending => {
                    let t = sy::tick_over(old(self)@.sender, q);
                    &&& final(self)@.sender == t.0.next
                    &&& r == t.0.result
                    &&& final(com).queues() == Some(t.1)
                    &&& final(state).current_state@ == sy::activity_over(
                        old(self)@.sender,
                        q,
                        old(state).current_state@,
                    )
                },
                Direction::Receiving => {
                    let t = ry::tick_over(old(self)@.receiver, q);
                    &&& final(self)@.receiver == t.0.next
                    &&& r == t.0.result
                    &&& final(com).queues() == Some(t.1)
                    &&& final(state).current_state@ == ry::activity_over(
                        old(self)@.receiver,
                        q,
                        old(state).current_state@,
                    )
                },
            }),
    {
        match self.direction {
            Direction::Neither => Ok(()),
            Direction::Sending => self.sy.update(com, state),
            Direction::Receiving => self.ry.update(com, state),
        }
    }

    /// Cancels the transfer: the engine that runs is idle from now on, and
    /// the cancel sequence is sent. Before anything was begun nothing is
    /// sent.
    pub fn cancel<T: Com>(&mut self, com: &mut T) -> (r: Result<(), TransferError>)
        ensures
            final(com).consumed() == old(com).consumed(),
            final(self)@.variant == old(self)@.variant,
            final(self)@.direction == old(self)@.direction,
            match old(self)@.direction {
                Direction::Neither => {
                    &&& r is Ok
                    &&& final(self)@ == old(self)@
                    &&& final(com).written() == old(com).written()
                },
                Direction::Sending => {
                    &&& final(self)@.receiver == old(self)@.receiver
                    &&& final(self)@.sender == (SyView {
                        state: sy::SendState::Idle,
                        ..old(self)@.sender
                    })
                },
                Direction::Receiving => {
                    &&& final(self)@.sender == old(self)@.sender
                    &&& final(self)@.receiver == (RyView {
                        state: ry::RecvState::Idle,
                        ..old(self)@.receiver
                    })
                },
            },
            old(self)@.direction != Direction::Neither ==> (match r {
                Ok(()) => final(com).written() == old(com).written() + seq![
                    constants::CAN,
                    constants::CAN,
                ],
                Err(e) => e is Transport && final(com).written() == old(com).written(),
            }),
            old(com).queues() matches Some(q) ==> r is Ok && final(com).queues() == Some(
                if old(self)@.direction == Direction::Neither {
                    q
                } else {
                    Queues { outbound: q.outbound + seq![constants::CAN, constants::CAN], ..q }
                },
            ),
    {
        match self.direction {
            Direction::Neither => Ok(()),
            Direction::Sending => self.sy.cancel(com),
            Direction::Receiving => self.ry.cancel(com),
        }
    }

    /// Copies of the files that the receiver has received or announced so
    /// far, in order.
    pub fn get_received_files(&self) -> (r: Vec<FileDescriptor>)
        ensures
            crate::protocol::views(r@) == self@.receiver.files,
    {
        self.ry.received_files()
    }
}

} // verus!
