//! File transfer: the descriptors of transferred files, the progress that a
//! transfer reports, and the protocol engines.

use crate::com::ComError;
use vstd::prelude::*;

pub mod xymodem;

verus! {

/// Why a transfer ended early.
#[derive(Debug, Clone, Copy, PartialEq, Eq, Structural)]
pub enum TransferError {
    /// A retry counter ran past its bound. The engine has sent the cancel
    /// sequence and is idle; the session is to be given up.
    TooManyRetries,
    /// The peer sent the cancel byte.
    Cancelled,
    /// A file cannot be announced in a batch: its name is empty, holds a
    /// zero byte, or does not fit into a header block beside its size.
    InvalidFileName,
    /// The channel failed. Never retried.
    Transport(ComError),
}

/// A file on its way: its name, its size in bytes, and its contents once
/// they are there.
#[derive(Debug, Clone)]
pub struct FileDescriptor {
    pub file_name: String,
    pub size: usize,
    pub data: Option<Vec<u8>>,
}

/// A file descriptor as a value.
pub struct FileDescriptorView {
    pub name: Seq<char>,
    pub size: usize,
    pub data: Option<Seq<u8>>,
}

impl View for FileDescriptor {
    type V = FileDescriptorView;

    open spec fn view(&self) -> FileDescriptorView {
        FileDescriptorView {
            name: self.file_name@,
            size: self.size,
            data: match self.data {
                Some(d) => Some(d@),
                None => None,
            },
        }
    }
}

/// The views of a list of descriptors, in order.
pub open spec fn views(files: Seq<FileDescriptor>) -> Seq<FileDescriptorView> {
    Seq::new(files.len(), |i: int| files[i]@)
}

impl FileDescriptor {
    /// A nameless descriptor of size zero without contents.
    pub fn new() -> (r: Self)
        ensures
            r@ == (FileDescriptorView { name: seq![], size: 0, data: None }),
    {
        FileDescriptor { file_name: String::new(), size: 0, data: None }
    }

    /// A descriptor of `data` under the name `file_name`; its size is the
    /// length of `data`.
    pub fn create_test(file_name: String, data: Vec<u8>) -> (r: Self)
        ensures
            r@ == (FileDescriptorView {
                name: file_name@,
                size: data@.len() as usize,
                data: Some(data@),
            }),
    {
        let size = data.len();
        FileDescriptor { file_name, size, data: Some(data) }
    }

    /// A copy of the contents; empty while there are none.
    pub fn get_data(&self) -> (r: Vec<u8>)
        ensures
            r@ == (match self@.data {
                Some(d) => d,
                None => seq![],
            }),
    {
        match &self.data {
            Some(d) => d.clone(),
            None => Vec::new(),
        }
    }

    /// A copy of the descriptor with its contents.
    pub fn duplicate(&self) -> (r: Self)
        ensures
            r@ == self@,
    {
        FileDescriptor {
            file_name: self.file_name.clone(),
            size: self.size,
            data: match &self.data {
                Some(d) => Some(d.clone()),
                None => None,
            },
        }
    }

    /// A copy of name and size, without the contents.
    pub fn summary(&self) -> (r: Self)
        ensures
            r@ == (FileDescriptorView { data: None, ..self@ }),
    {
        FileDescriptor { file_name: self.file_name.clone(), size: self.size, data: None }
    }
}

/// A snapshot of one direction of a transfer.
#[derive(Debug, Clone)]
pub struct FileTransferState {
    /// The file in transfer, by name and size.
    pub file: Option<FileDescriptor>,
    /// Payload bytes transferred so far, over all files.
    pub bytes_transfered: usize,
    /// Errors met so far.
    pub errors: usize,
    /// The engine's state, for display.
    pub engine_state: String,
}

/// A file-transfer snapshot as a value.
pub struct FileTransferStateView {
    pub file: Option<FileDescriptorView>,
    pub bytes_transfered: usize,
    pub errors: usize,
    pub engine_state: Seq<char>,
}

impl View for FileTransferState {
    type V = FileTransferStateView;

    open spec fn view(&self) -> FileTransferStateView {
        FileTransferStateView {
            file: match self.file {
                Some(f) => Some(f@),
                None => None,
            },
            bytes_transfered: self.bytes_transfered,
            errors: self.errors,
            engine_state: self.engine_state@,
        }
    }
}

impl FileTransferState {
    /// A snapshot of a transfer that has not begun.
    pub fn new() -> (r: Self)
        ensures
            r@ == (FileTransferStateView {
                file: None,
                bytes_transfered: 0,
                errors: 0,
                engine_state: seq![],
            }),
    {
        FileTransferState {
            file: None,
            bytes_transfered: 0,
            errors: 0,
            engine_state: String::new(),
        }
    }
}

/// What a transfer reports to its host. The engines rewrite it on every
/// tick; the host only reads it.
#[derive(Debug, Clone)]
pub struct TransferState {
    /// What the engine is doing, for display.
    pub current_state: &'static str,
    /// Whether the transfer has ended.
    pub is_finished: bool,
    /// Progress of sending, once a sender has ticked.
    pub send_state: Option<FileTransferState>,
    /// Progress of receiving, once a receiver has ticked.
    pub recieve_state: Option<FileTransferState>,
}

impl TransferState {
    /// The report of a transfer that has not begun.
    pub fn new() -> (r: Self)
        ensures
            !r.is_finished,
            r.current_state@ == ""@,
            r.send_state is None,
            r.recieve_state is None,
    {
        TransferState {
            current_state: "",
            is_finished: false,
            send_state: None,
            recieve_state: None,
        }
    }
}

} // verus!
