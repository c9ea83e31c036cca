//! Decision logic of the non-blocking socket handles.
//!
//! Each async socket operation is a tiny state machine: one poll issues one
//! OS call and then decides, from the returned count and `errno` alone,
//! whether the operation is finished, must suspend and register a waiter,
//! or has failed. Those decisions are made here on plain values; the OS
//! call itself stays with the embedding program, which passes the relevant
//! `errno` constants in as arguments.

use vstd::prelude::*;

verus! {

/// A non-blocking call reported "try again later": the two errno values the
/// kernel may use for it are interchangeable.
pub open spec fn spec_would_block(errno: i32, eagain: i32, ewouldblock: i32) -> bool {
    errno == eagain || errno == ewouldblock
}

/// Exec twin of [`spec_would_block`].
pub fn would_block(errno: i32, eagain: i32, ewouldblock: i32) -> (r: bool)
    ensures
        r == spec_would_block(errno, eagain, ewouldblock),
{
    errno == eagain || errno == ewouldblock
}

/// What one poll of a suspendable read decides.
#[derive(PartialEq, Eq, Structural, Debug)]
pub enum ReadStep {
    /// The read finished with this many bytes; zero means the peer sent EOF.
    Ready(usize),
    /// The socket was not readable: register a read waiter and suspend.
    Suspend,
    /// A hard failure carrying the OS error number.
    Fail(i32),
}

/// One poll of `read_bytes`: classify the result of one non-blocking `read`.
///
/// `bytes_read` is the raw return of the call, `errno` the error number that
/// accompanies a negative return. A count of zero is a successful EOF, never
/// an error; only a would-block error suspends.
pub fn read_decision(bytes_read: isize, errno: i32, eagain: i32, ewouldblock: i32) -> (r: ReadStep)
    ensures
        bytes_read >= 0 ==> r == ReadStep::Ready(bytes_read as usize),
        bytes_read == 0 ==> r == ReadStep::Ready(0),
        bytes_read < 0 && spec_would_block(errno, eagain, ewouldblock) ==> r == ReadStep::Suspend,
        bytes_read < 0 && !spec_would_block(errno, eagain, ewouldblock) ==> r == ReadStep::Fail(
            errno,
        ),
{
    if bytes_read >= 0 {
        ReadStep::Ready(bytes_read as usize)
    } else if would_block(errno, eagain, ewouldblock) {
        ReadStep::Suspend
    } else {
        ReadStep::Fail(errno)
    }
}

/// What one poll of a suspendable `write_bytes` decides.
#[derive(PartialEq, Eq, Structural, Debug)]
pub enum WriteStep {
    /// The whole buffer has been handed to the kernel; the count equals its length.
    Done(usize),
    /// The kernel took none or only part of the tail: register a write waiter
    /// and suspend.
    Suspend,
    /// A hard failure carrying the OS error number.
    Fail(i32),
}

/// The running state of one `write_bytes` operation.
///
/// `write_bytes` promises all-or-error: it keeps issuing `write` on the
/// unwritten tail of the buffer until everything has been handed to the
/// kernel. This state is the offset into the buffer, together with the
/// (ghost) bytes handed over so far; well-formedness ties the two together,
/// so a finished operation provably sent the buffer whole and in order.
pub struct WriteOp {
    written: usize,
    sent: Ghost<Seq<u8>>,
}

impl WriteOp {
    /// How many bytes have been handed to the kernel.
    pub closed spec fn spec_written(self) -> nat {
        self.written as nat
    }

    /// The bytes handed to the kernel so far, in the order they were handed over.
    pub closed spec fn sent(self) -> Seq<u8> {
        self.sent@
    }

    /// The operation's state fits the buffer it is writing: the bytes sent so
    /// far are exactly the buffer's prefix below the offset.
    pub open spec fn wf(self, buf: Seq<u8>) -> bool {
        &&& self.spec_written() <= buf.len()
        &&& self.sent() == buf.subrange(0, self.spec_written() as int)
    }

    /// A fresh operation: nothing written yet, well-formed for every buffer.
    pub fn new() -> (w: WriteOp)
        ensures
            w.spec_written() == 0,
            w.sent() == Seq::<u8>::empty(),
            forall|buf: Seq<u8>| #[trigger] w.wf(buf),
    {
        let w = WriteOp { written: 0, sent: Ghost(Seq::empty()) };
        proof {
            assert forall|buf: Seq<u8>| #[trigger] w.wf(buf) by {
                assert(buf.subrange(0, 0) =~= Seq::<u8>::empty());
            }
        }
        w
    }

    /// The current offset: where the unwritten tail of the buffer begins.
    pub fn written(&self) -> (r: usize)
        ensures
            r == self.spec_written(),
    {
        self.written
    }

    /// Whether the whole buffer has been handed to the kernel.
    ///
    /// In particular an empty buffer is finished before any kernel call, so a
    /// write of an empty buffer completes at once with 0 and never registers
    /// a write waiter.
    pub fn finished(&self, buf: &Vec<u8>) -> (r: bool)
        requires
            self.wf(buf@),
        ensures
            r == (self.spec_written() == buf@.len()),
    {
        self.written == buf.len()
    }

    /// One poll of `write_bytes`: account for one non-blocking `write` on the
    /// unwritten tail and decide how the operation goes on.
    ///
    /// `res` is the raw return of the call on the tail starting at the current
    /// offset, so a non-negative `res` never exceeds what was left. A partial
    /// write advances the offset and still suspends; a would-block error
    /// suspends without progress; any other error fails the operation.
    pub fn write_step(
        &mut self,
        buf: &Vec<u8>,
        res: isize,
        errno: i32,
        eagain: i32,
        ewouldblock: i32,
    ) -> (r: WriteStep)
        requires
            old(self).wf(buf@),
            res >= 0 ==> old(self).spec_written() + res <= buf@.len(),
        ensures
            final(self).wf(buf@),
            res >= 0 ==> {
                &&& final(self).spec_written() == old(self).spec_written() + res
                &&& final(self).sent() == old(self).sent() + buf@.subrange(
                    old(self).spec_written() as int,
                    old(self).spec_written() + res,
                )
            },
            res < 0 ==> *final(self) == *old(self),
            res >= 0 && old(self).spec_written() + res == buf@.len() ==> r == WriteStep::Done(
                buf@.len() as usize,
            ),
            res >= 0 && old(self).spec_written() + res < buf@.len() ==> r == WriteStep::Suspend,
            res < 0 && spec_would_block(errno, eagain, ewouldblock) ==> r == WriteStep::Suspend,
            res < 0 && !spec_would_block(errno, eagain, ewouldblock) ==> r == WriteStep::Fail(
                errno,
            ),
            r matches WriteStep::Done(n) ==> n == buf@.len() && final(self).sent() == buf@,
            buf@.len() == 0 && res >= 0 ==> r == WriteStep::Done(0),
    {
        if res >= 0 {
            let n = res as usize;
            let buf_len = buf.len();
            let ghost oldw = self.written as int;
            assert(self.written + n <= buf_len);
            self.written = self.written + n;
            proof {
                self.sent@ = self.sent@ + buf@.subrange(oldw, oldw + n as int);
                assert(self.sent@ =~= buf@.subrange(0, self.written as int));
            }
            if self.written == buf.len() {
                proof {
                    assert(buf@.subrange(0, buf@.len() as int) =~= buf@);
                }
                WriteStep::Done(self.written)
            } else {
                WriteStep::Suspend
            }
        } else if would_block(errno, eagain, ewouldblock) {
            WriteStep::Suspend
        } else {
            WriteStep::Fail(errno)
        }
    }
}

/// Law: a finished write handed every byte of the buffer to the kernel, in
/// order — what was sent is the buffer itself, not a permutation or a prefix.
pub proof fn lemma_write_all_bytes(w: WriteOp, buf: Seq<u8>)
    requires
        w.wf(buf),
        w.spec_written() == buf.len(),
    ensures
        w.sent() == buf,
{
    assert(buf.subrange(0, buf.len() as int) =~= buf);
}

/// What one poll of a suspendable `accept` decides.
#[derive(PartialEq, Eq, Structural, Debug)]
pub enum AcceptStep {
    /// A connection arrived: its file descriptor, still to be set non-blocking.
    Accepted(i32),
    /// No connection pending: register a read waiter on the listener and suspend.
    Suspend,
    /// A hard failure carrying the OS error number.
    Fail(i32),
}

/// One poll of `accept`: classify the result of one non-blocking `accept`.
///
/// Only `EAGAIN` suspends; every other error is reported to the caller, who
/// decides whether to keep accepting.
pub fn accept_decision(fd: i32, errno: i32, eagain: i32) -> (r: AcceptStep)
    ensures
        fd >= 0 ==> r == AcceptStep::Accepted(fd),
        fd < 0 && errno == eagain ==> r == AcceptStep::Suspend,
        fd < 0 && errno != eagain ==> r == AcceptStep::Fail(errno),
{
    if fd >= 0 {
        AcceptStep::Accepted(fd)
    } else if errno == eagain {
        AcceptStep::Suspend
    } else {
        AcceptStep::Fail(errno)
    }
}

/// The stages of listener setup, in the order their OS calls run.
#[derive(PartialEq, Eq, Structural, Debug)]
pub enum SetupStage {
    /// Creating the `AF_INET`/`SOCK_STREAM` socket.
    Socket,
    /// Putting the socket into non-blocking mode.
    Nonblock,
    /// Setting `SO_REUSEADDR`, so that a fresh bind to a recently used port succeeds.
    ReuseAddr,
    /// Binding to `0.0.0.0` at the requested port.
    Bind,
    /// Starting to listen.
    Listen,
}

/// Which stage of listener setup failed first, if any.
///
/// Setup runs its five OS calls in a fixed order and stops at the first
/// failure; a later flag only counts once every earlier stage succeeded.
pub fn first_setup_failure(
    socket_ok: bool,
    nonblock_ok: bool,
    reuseaddr_ok: bool,
    bind_ok: bool,
    listen_ok: bool,
) -> (r: Option<SetupStage>)
    ensures
        !socket_ok ==> r == Some(SetupStage::Socket),
        socket_ok && !nonblock_ok ==> r == Some(SetupStage::Nonblock),
        socket_ok && nonblock_ok && !reuseaddr_ok ==> r == Some(SetupStage::ReuseAddr),
        socket_ok && nonblock_ok && reuseaddr_ok && !bind_ok ==> r == Some(SetupStage::Bind),
        socket_ok && nonblock_ok && reuseaddr_ok && bind_ok && !listen_ok ==> r == Some(
            SetupStage::Listen,
        ),
        socket_ok && nonblock_ok && reuseaddr_ok && bind_ok && listen_ok ==> r is None,
{
    if !socket_ok {
        Some(SetupStage::Socket)
    } else if !nonblock_ok {
        Some(SetupStage::Nonblock)
    } else if !reuseaddr_ok {
        Some(SetupStage::ReuseAddr)
    } else if !bind_ok {
        Some(SetupStage::Bind)
    } else if !listen_ok {
        Some(SetupStage::Listen)
    } else {
        None
    }
}

/// The network-order (big-endian) bytes of a TCP port number, most
/// significant byte first, as the socket address structure wants them.
pub fn port_be_bytes(port: u16) -> (r: (u8, u8))
    ensures
        r.0 == port / 256,
        r.1 == port % 256,
{
    proof {
        assert(port >> 8u16 == port / 256 && port & 0xffu16 == port % 256 && port >> 8u16 < 256
            && port & 0xffu16 < 256) by (bit_vector);
    }
    ((port >> 8) as u8, (port & 0xff) as u8)
}

} // verus!
