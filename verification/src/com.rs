//! The byte-channel capability that the transfer engines drive, and an
//! in-memory channel for running two engines against each other.

use std::collections::VecDeque;
use vstd::prelude::*;

verus! {

/// Why a channel operation did not deliver.
#[derive(Debug, Clone, Copy, PartialEq, Eq, Structural)]
pub enum ComError {
    /// No byte arrived within the wait window.
    TimedOut,
    /// A non-blocking read found nothing buffered.
    WouldBlock,
    /// The transport met a control sequence that it does not know.
    UnsupportedNegotiation,
    /// The underlying transport failed or is closed.
    TransportFailure,
}

/// Whether an engine that asks for `wanted` bytes is to be ticked now,
/// when `pending` bytes are buffered and the oldest of them has waited
/// `waited_ms` milliseconds. It is, unless a part of what is wanted has come
/// and the rest may still follow within `timeout_ms`: with nothing buffered
/// the tick finds nothing to do, with enough buffered it takes its step, and
/// after the timeout it learns that the rest did not come.
pub fn tick_is_due(pending: usize, wanted: usize, waited_ms: u64, timeout_ms: u64) -> (r: bool)
    ensures
        r == (pending == 0 || pending >= wanted || waited_ms >= timeout_ms),
{
    pending == 0 || pending >= wanted || waited_ms >= timeout_ms
}

/// A channel that is nothing but two queues in memory.
pub struct Queues {
    /// Delivered and not yet read, oldest first.
    pub inbound: Seq<u8>,
    /// Written and not yet carried away, oldest first.
    pub outbound: Seq<u8>,
}

/// A bidirectional byte channel with a single owner.
///
/// The contracts speak of a channel in two ways. `consumed` and `written`
/// are histories: the concatenation of all bytes that successful reads have
/// handed out, and of all buffers that successful writes have accepted.
/// Every channel has them, and the contracts say how each operation extends
/// them, so that a caller can state what it read and wrote without knowing
/// the transport. `queues` is what a channel in memory is made of, to which
/// nothing comes unless it is delivered and on which nothing fails; of such
/// a channel the contracts say what each operation returns and leaves. A
/// channel on a live transport has no queues to speak of.
pub trait Com {
    /// All bytes handed out by successful reads so far.
    spec fn consumed(&self) -> Seq<u8>;

    /// All bytes accepted by successful writes so far.
    spec fn written(&self) -> Seq<u8>;

    /// The two queues of a channel that is nothing more, and nothing for
    /// any other channel.
    spec fn queues(&self) -> Option<Queues>;

    /// A short name of the transport.
    fn get_name(&self) -> &'static str;

    /// Sends `buf` whole, or fails.
    fn write(&mut self, buf: &[u8]) -> (r: Result<usize, ComError>)
        ensures
            final(self).consumed() == old(self).consumed(),
            r is Ok ==> r == Ok::<usize, ComError>(buf@.len() as usize)
                && final(self).written() == old(self).written() + buf@,
            r is Err ==> final(self).written() == old(self).written(),
            old(self).queues() matches Some(q) ==> r is Ok && final(self).queues() == Some(
                Queues { outbound: q.outbound + buf@, ..q },
            ),
    ;

    /// Takes the next byte, waiting up to `timeout_ms` milliseconds for one.
    fn read_char(&mut self, timeout_ms: u64) -> (r: Result<u8, ComError>)
        ensures
            final(self).written() == old(self).written(),
            r matches Ok(b) ==> final(self).consumed() == old(self).consumed().push(b),
            r is Err ==> final(self).consumed() == old(self).consumed(),
            old(self).queues() matches Some(q) ==> if q.inbound.len() > 0 {
                r == Ok::<u8, ComError>(q.inbound[0]) && final(self).queues() == Some(
                    Queues { inbound: q.inbound.skip(1), ..q },
                )
            } else {
                r == Err::<u8, ComError>(ComError::TimedOut) && final(self).queues() == Some(q)
            },
    ;

    /// Takes the next byte if one is buffered, without waiting.
    fn read_char_nonblocking(&mut self) -> (r: Result<u8, ComError>)
        ensures
            final(self).written() == old(self).written(),
            r matches Ok(b) ==> final(self).consumed() == old(self).consumed().push(b),
            r is Err ==> final(self).consumed() == old(self).consumed(),
            old(self).queues() matches Some(q) ==> if q.inbound.len() > 0 {
                r == Ok::<u8, ComError>(q.inbound[0]) && final(self).queues() == Some(
                    Queues { inbound: q.inbound.skip(1), ..q },
                )
            } else {
                r == Err::<u8, ComError>(ComError::WouldBlock) && final(self).queues() == Some(q)
            },
    ;

    /// Takes exactly `bytes` bytes, waiting up to `timeout_ms` milliseconds
    /// for them; on failure nothing is taken.
    fn read_exact(&mut self, timeout_ms: u64, bytes: usize) -> (r: Result<Vec<u8>, ComError>)
        ensures
            final(self).written() == old(self).written(),
            r matches Ok(v) ==> v@.len() == bytes && final(self).consumed() == old(self).consumed()
                + v@,
            r is Err ==> final(self).consumed() == old(self).consumed(),
            old(self).queues() matches Some(q) ==> if q.inbound.len() >= bytes {
                r is Ok && r->Ok_0@ == q.inbound.take(bytes as int) && final(self).queues()
                    == Some(Queues { inbound: q.inbound.skip(bytes as int), ..q })
            } else {
                r == Err::<Vec<u8>, ComError>(ComError::TimedOut) && final(self).queues() == Some(
                    q,
                )
            },
    ;

    /// Whether a byte can be read without waiting. May move bytes from the
    /// transport into the channel's buffer.
    fn is_data_available(&mut self) -> (r: Result<bool, ComError>)
        ensures
            final(self).written() == old(self).written(),
            final(self).consumed() == old(self).consumed(),
            old(self).queues() matches Some(q) ==> r == Ok::<bool, ComError>(q.inbound.len() > 0)
                && final(self).queues() == Some(q),
    ;

    /// Drops every byte that is buffered and not yet read.
    fn discard_buffer(&mut self) -> (r: Result<(), ComError>)
        ensures
            final(self).written() == old(self).written(),
            final(self).consumed() == old(self).consumed(),
            old(self).queues() matches Some(q) ==> r is Ok && final(self).queues() == Some(
                Queues { inbound: seq![], ..q },
            ),
    ;

    /// Closes the channel.
    fn disconnect(&mut self) -> (r: Result<(), ComError>)
        ensures
            final(self).written() == old(self).written(),
            final(self).consumed() == old(self).consumed(),
    ;
}

/// One end of an in-memory channel: a queue of bytes that were delivered to
/// it and a queue of bytes that it wrote and the wire has not yet carried
/// away. Nothing arrives by itself; `deliver` puts bytes in.
pub struct TestCom {
    incoming: VecDeque<u8>,
    outgoing: Vec<u8>,
    open: bool,
    consumed: Ghost<Seq<u8>>,
    written: Ghost<Seq<u8>>,
}

impl TestCom {
    /// The bytes delivered and not yet read, oldest first.
    pub closed spec fn inbound(&self) -> Seq<u8> {
        self.incoming@
    }

    /// The bytes written and not yet taken by `take_outgoing`.
    pub closed spec fn outbound(&self) -> Seq<u8> {
        self.outgoing@
    }

    /// Whether the end is open. A closed end fails every read and write.
    pub closed spec fn is_open(&self) -> bool {
        self.open
    }

    /// An open end with empty queues.
    pub fn new() -> (r: Self)
        ensures
            r.inbound() == Seq::<u8>::empty(),
            r.outbound() == Seq::<u8>::empty(),
            r.is_open(),
            r.consumed() == Seq::<u8>::empty(),
            r.written() == Seq::<u8>::empty(),
    {
        TestCom {
            incoming: VecDeque::new(),
            outgoing: Vec::new(),
            open: true,
            consumed: Ghost(Seq::empty()),
            written: Ghost(Seq::empty()),
        }
    }

    /// Puts `bytes` at the back of the inbound queue, as the wire does.
    pub fn deliver(&mut self, bytes: &[u8])
        ensures
            final(self).inbound() == old(self).inbound() + bytes@,
            final(self).outbound() == old(self).outbound(),
            final(self).is_open() == old(self).is_open(),
            final(self).consumed() == old(self).consumed(),
            final(self).written() == old(self).written(),
    {
        let mut i: usize = 0;
        while i < bytes.len()
            invariant
                i <= bytes.len(),
                self.incoming@ == old(self).incoming@ + bytes@.take(i as int),
                self.outgoing == old(self).outgoing,
                self.open == old(self).open,
                self.consumed == old(self).consumed,
                self.written == old(self).written,
            decreases bytes.len() - i,
        {
            self.incoming.push_back(bytes[i]);
            proof {
                assert(bytes@.take(i + 1) =~= bytes@.take(i as int).push(bytes@[i as int]));
                assert(self.incoming@ =~= old(self).incoming@ + bytes@.take(i + 1));
            }
            i = i + 1;
        }
        proof {
            assert(bytes@.take(i as int) =~= bytes@);
        }
    }

    /// Hands over everything written since the last call and empties the
    /// outbound queue.
    pub fn take_outgoing(&mut self) -> (r: Vec<u8>)
        ensures
            r@ == old(self).outbound(),
            final(self).outbound() == Seq::<u8>::empty(),
            final(self).inbound() == old(self).inbound(),
            final(self).is_open() == old(self).is_open(),
            final(self).consumed() == old(self).consumed(),
            final(self).written() == old(self).written(),
    {
        let mut out: Vec<u8> = Vec::new();
        std::mem::swap(&mut out, &mut self.outgoing);
        out
    }

    /// The number of bytes that can be read now.
    pub fn pending(&self) -> (r: usize)
        ensures
            r == self.inbound().len(),
    {
        self.incoming.len()
    }
}

impl Com for TestCom {
    closed spec fn consumed(&self) -> Seq<u8> {
        self.consumed@
    }

    closed spec fn written(&self) -> Seq<u8> {
        self.written@
    }

    /// An open end is its two queues; a closed end fails and is none.
    open spec fn queues(&self) -> Option<Queues> {
        if self.is_open() {
            Some(Queues { inbound: self.inbound(), outbound: self.outbound() })
        } else {
            None
        }
    }

    fn get_name(&self) -> (r: &'static str)
        ensures
            r@ == "Test"@,
    {
        "Test"
    }

    /// Appends `buf` to the outbound queue; fails only on a closed end.
    fn write(&mut self, buf: &[u8]) -> (r: Result<usize, ComError>)
        ensures
            final(self).inbound() == old(self).inbound(),
            final(self).is_open() == old(self).is_open(),
            old(self).is_open() ==> r is Ok && final(self).outbound() == old(self).outbound()
                + buf@,
            !old(self).is_open() ==> r == Err::<usize, ComError>(ComError::TransportFailure)
                && final(self).outbound() == old(self).outbound(),
    {
        if !self.open {
            return Err(ComError::TransportFailure);
        }
        let mut i: usize = 0;
        while i < buf.len()
            invariant
                i <= buf.len(),
                self.outgoing@ == old(self).outgoing@ + buf@.take(i as int),
                self.incoming == old(self).incoming,
                self.open == old(self).open,
                self.consumed == old(self).consumed,
                self.written == old(self).written,
            decreases buf.len() - i,
        {
            self.outgoing.push(buf[i]);
            proof {
                assert(buf@.take(i + 1) =~= buf@.take(i as int).push(buf@[i as int]));
                assert(self.outgoing@ =~= old(self).outgoing@ + buf@.take(i + 1));
            }
            i = i + 1;
        }
        proof {
            assert(buf@.take(i as int) =~= buf@);
            self.written@ = self.written@ + buf@;
        }
        Ok(buf.len())
    }

    /// Takes the oldest delivered byte. An in-memory end cannot wait: with
    /// nothing delivered the read times out at once.
    fn read_char(&mut self, timeout_ms: u64) -> (r: Result<u8, ComError>)
        ensures
            final(self).outbound() == old(self).outbound(),
            final(self).is_open() == old(self).is_open(),
            r == (if !old(self).is_open() {
                Err::<u8, ComError>(ComError::TransportFailure)
            } else if old(self).inbound().len() == 0 {
                Err::<u8, ComError>(ComError::TimedOut)
            } else {
                Ok::<u8, ComError>(old(self).inbound()[0])
            }),
            final(self).inbound() == (if r is Ok {
                old(self).inbound().skip(1)
            } else {
                old(self).inbound()
            }),
    {
        if !self.open {
            return Err(ComError::TransportFailure);
        }
        match self.incoming.pop_front() {
            Some(b) => {
                proof {
                    self.consumed@ = self.consumed@.push(b);
                    assert(self.incoming@ =~= old(self).incoming@.skip(1));
                }
                Ok(b)
            },
            None => Err(ComError::TimedOut),
        }
    }

    /// Takes the oldest delivered byte, or reports that there is none.
    fn read_char_nonblocking(&mut self) -> (r: Result<u8, ComError>)
        ensures
            final(self).outbound() == old(self).outbound(),
            final(self).is_open() == old(self).is_open(),
            r == (if !old(self).is_open() {
                Err::<u8, ComError>(ComError::TransportFailure)
            } else if old(self).inbound().len() == 0 {
                Err::<u8, ComError>(ComError::WouldBlock)
            } else {
                Ok::<u8, ComError>(old(self).inbound()[0])
            }),
            final(self).inbound() == (if r is Ok {
                old(self).inbound().skip(1)
            } else {
                old(self).inbound()
            }),
    {
        if !self.open {
            return Err(ComError::TransportFailure);
        }
        match self.incoming.pop_front() {
            Some(b) => {
                proof {
                    self.consumed@ = self.consumed@.push(b);
                    assert(self.incoming@ =~= old(self).incoming@.skip(1));
                }
                Ok(b)
            },
            None => Err(ComError::WouldBlock),
        }
    }

    /// Takes the `bytes` oldest delivered bytes if that many are there, and
    /// times out at once, taking nothing, if they are not.
    fn read_exact(&mut self, timeout_ms: u64, bytes: usize) -> (r: Result<Vec<u8>, ComError>)
        ensures
            final(self).outbound() == old(self).outbound(),
            final(self).is_open() == old(self).is_open(),
            !old(self).is_open() ==> r == Err::<Vec<u8>, ComError>(ComError::TransportFailure),
            old(self).is_open() && old(self).inbound().len() < bytes ==> r == Err::<
                Vec<u8>,
                ComError,
            >(ComError::TimedOut),
            old(self).is_open() && old(self).inbound().len() >= bytes ==> r is Ok,
            r matches Ok(v) ==> v@ == old(self).inbound().take(bytes as int)
                && final(self).inbound() == old(self).inbound().skip(bytes as int),
            r is Err ==> final(self).inbound() == old(self).inbound(),
    {
        if !self.open {
            return Err(ComError::TransportFailure);
        }
        if self.incoming.len() < bytes {
            return Err(ComError::TimedOut);
        }
        let mut out: Vec<u8> = Vec::new();
        let mut i: usize = 0;
        while i < bytes
            invariant
                i <= bytes,
                bytes <= old(self).incoming@.len(),
                out@ == old(self).incoming@.take(i as int),
                self.incoming@ == old(self).incoming@.skip(i as int),
                self.outgoing == old(self).outgoing,
                self.open == old(self).open,
                self.consumed == old(self).consumed,
                self.written == old(self).written,
            decreases bytes - i,
        {
            let ghost before = self.incoming@;
            match self.incoming.pop_front() {
                Some(b) => {
                    out.push(b);
                    proof {
                        assert(b == old(self).incoming@[i as int]);
                        assert(out@ =~= old(self).incoming@.take(i + 1));
                        assert(self.incoming@ =~= old(self).incoming@.skip(i + 1));
                    }
                },
                None => {
                    proof {
                        assert(before.len() == old(self).incoming@.len() - i);
                        assert(false);
                    }
                },
            }
            i = i + 1;
        }
        proof {
            self.consumed@ = self.consumed@ + out@;
        }
        Ok(out)
    }

    /// Whether anything was delivered and is unread.
    fn is_data_available(&mut self) -> (r: Result<bool, ComError>)
        ensures
            final(self).inbound() == old(self).inbound(),
            final(self).outbound() == old(self).outbound(),
            final(self).is_open() == old(self).is_open(),
            r == (if old(self).is_open() {
                Ok::<bool, ComError>(old(self).inbound().len() > 0)
            } else {
                Err::<bool, ComError>(ComError::TransportFailure)
            }),
    {
        if !self.open {
            return Err(ComError::TransportFailure);
        }
        Ok(self.incoming.len() > 0)
    }

    /// Empties the inbound queue.
    fn discard_buffer(&mut self) -> (r: Result<(), ComError>)
        ensures
            r is Ok,
            final(self).inbound() == Seq::<u8>::empty(),
            final(self).outbound() == old(self).outbound(),
            final(self).is_open() == old(self).is_open(),
    {
        self.incoming.clear();
        Ok(())
    }

    /// Closes the end; what is queued stays queued.
    fn disconnect(&mut self) -> (r: Result<(), ComError>)
        ensures
            r is Ok,
            !final(self).is_open(),
            final(self).inbound() == old(self).inbound(),
            final(self).outbound() == old(self).outbound(),
    {
        self.open = false;
        Ok(())
    }
}

/// Two ends wired back to back: what one end writes, `pump` delivers to the
/// other.
pub struct TestChannel {
    pub sender: TestCom,
    pub receiver: TestCom,
}

impl TestChannel {
    /// Two open ends with nothing in flight.
    pub fn new() -> (r: Self)
        ensures
            r.sender.inbound() == Seq::<u8>::empty(),
            r.sender.outbound() == Seq::<u8>::empty(),
            r.sender.is_open(),
            r.receiver.inbound() == Seq::<u8>::empty(),
            r.receiver.outbound() == Seq::<u8>::empty(),
            r.receiver.is_open(),
    {
        TestChannel { sender: TestCom::new(), receiver: TestCom::new() }
    }

    /// Carries everything that either end has written to the other end,
    /// unchanged and in order.
    pub fn pump(&mut self)
        ensures
            final(self).receiver.inbound() == old(self).receiver.inbound()
                + old(self).sender.outbound(),
            final(self).sender.inbound() == old(self).sender.inbound()
                + old(self).receiver.outbound(),
            final(self).sender.outbound() == Seq::<u8>::empty(),
            final(self).receiver.outbound() == Seq::<u8>::empty(),
            final(self).sender.is_open() == old(self).sender.is_open(),
            final(self).receiver.is_open() == old(self).receiver.is_open(),
    {
        let forward = self.sender.take_outgoing();
        let backward = self.receiver.take_outgoing();
        self.receiver.deliver(forward.as_slice());
        self.sender.deliver(backward.as_slice());
    }
}

/// Reads the `bytes` bytes that a step of an engine asks for, one or more.
/// A read that times out is no failure here: it hands the engine nothing,
/// which the engine counts as no response. Any other failure is passed on.
pub fn read_input<T: Com>(com: &mut T, timeout_ms: u64, bytes: usize) -> (r: Result<
    Vec<u8>,
    ComError,
>)
    requires
        bytes >= 1,
    ensures
        final(com).written() == old(com).written(),
        r matches Ok(v) ==> (v@.len() == bytes || v@.len() == 0)
            && final(com).consumed() == old(com).consumed() + v@,
        r matches Err(e) ==> e != ComError::TimedOut
            && final(com).consumed() == old(com).consumed(),
        old(com).queues() matches Some(q) ==> r is Ok && if q.inbound.len() >= bytes {
            r->Ok_0@ == q.inbound.take(bytes as int) && final(com).queues() == Some(
                Queues { inbound: q.inbound.skip(bytes as int), ..q },
            )
        } else {
            r->Ok_0@ == Seq::<u8>::empty() && final(com).queues() == Some(q)
        },
{
    if bytes == 1 {
        match com.read_char(timeout_ms) {
            Ok(b) => {
                let mut v: Vec<u8> = Vec::new();
                v.push(b);
                proof {
                    assert(v@ =~= seq![b]);
                    assert(com.consumed() =~= old(com).consumed() + v@);
                    if let Some(q) = old(com).queues() {
                        assert(v@ =~= q.inbound.take(1));
                    }
                }
                Ok(v)
            },
            Err(ComError::TimedOut) => {
                let v: Vec<u8> = Vec::new();
                proof {
                    assert(com.consumed() =~= old(com).consumed() + v@);
                }
                Ok(v)
            },
            Err(e) => Err(e),
        }
    } else {
        match com.read_exact(timeout_ms, bytes) {
            Ok(v) => Ok(v),
            Err(ComError::TimedOut) => {
                let v: Vec<u8> = Vec::new();
                proof {
                    assert(com.consumed() =~= old(com).consumed() + v@);
                }
                Ok(v)
            },
            Err(e) => Err(e),
        }
    }
}

/// Carries out what a step of an engine asks of its caller: drops what is
/// buffered and unread if the step says so, and sends the reply if there is
/// one.
pub fn answer<T: Com>(com: &mut T, discard: bool, reply: &[u8]) -> (r: Result<(), ComError>)
    ensures
        final(com).consumed() == old(com).consumed(),
        r is Ok ==> final(com).written() == old(com).written() + reply@,
        r is Err ==> final(com).written() == old(com).written(),
        old(com).queues() matches Some(q) ==> r is Ok && final(com).queues() == Some(
            Queues {
                inbound: if discard {
                    seq![]
                } else {
                    q.inbound
                },
                outbound: q.outbound + reply@,
            },
        ),
{
    if discard {
        match com.discard_buffer() {
            Err(e) => {
                return Err(e);
            },
            Ok(()) => {},
        }
    }
    if reply.len() > 0 {
        match com.write(reply) {
            Err(e) => {
                return Err(e);
            },
            Ok(_) => {},
        }
    } else {
        proof {
            assert(com.written() + reply@ =~= com.written());
            if let Some(q) = com.queues() {
                assert(q.outbound + reply@ =~= q.outbound);
            }
        }
    }
    Ok(())
}

} // verus!
