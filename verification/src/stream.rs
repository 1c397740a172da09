//! One byte stream through a tunnel, carried by an HTTP/2 stream.
use bytes::Bytes;
use vstd::prelude::*;

use crate::session::NO_ERROR;

verus! {

/// The HTTP/2 error code of a stream that is no longer open.
pub const STREAM_CLOSED: u32 = 5;

/// The HTTP/2 error code of a stream that is no longer needed.
pub const CANCEL: u32 = 8;

/// A piece of a stream.
#[verifier::external_type_specification]
#[verifier::external_body]
pub struct ExBytes(bytes::Bytes);

/// The bytes of a piece of a stream.
pub uninterp spec fn contents(bytes: Bytes) -> Seq<u8>;

/// `bytes::Bytes::new` is empty.
#[verifier::external_body]
pub(crate) fn no_bytes() -> (bytes: Bytes)
    ensures
        contents(bytes) == Seq::<u8>::empty(),
{
    Bytes::new()
}

/// `bytes::Bytes::copy_from_slice` holds the bytes of the slice.
#[verifier::external_body]
pub(crate) fn copy_bytes(slice: &[u8]) -> (bytes: Bytes)
    ensures
        contents(bytes) == slice@,
{
    Bytes::copy_from_slice(slice)
}

/// `bytes::Bytes::len` is the number of the bytes.
#[verifier::external_body]
pub(crate) fn count_bytes(bytes: &Bytes) -> (len: usize)
    ensures
        len == contents(*bytes).len(),
{
    bytes.len()
}

/// Dereferenced, `bytes::Bytes` is the slice of its bytes; a front part of it
/// is copied, and a longer part than there is would be a panic.
#[verifier::external_body]
pub(crate) fn front_bytes(bytes: &Bytes, len: usize) -> (front: Vec<u8>)
    requires
        len <= contents(*bytes).len(),
    ensures
        front@ == contents(*bytes).take(len as int),
{
    bytes[..len].to_vec()
}

/// `bytes::Buf::advance` on `Bytes` drops as many bytes from the front, and
/// panics where there are fewer.
#[verifier::external_body]
pub(crate) fn drop_bytes(bytes: &mut Bytes, len: usize)
    requires
        len <= contents(*old(bytes)).len(),
    ensures
        contents(*final(bytes)) == contents(*old(bytes)).skip(len as int),
{
    bytes::Buf::advance(bytes, len)
}

/// Why an HTTP/2 stream failed: an error of the connection below it, or one of
/// the protocol, with its error code if it has one.
#[derive(Debug)]
pub enum StreamFault<I, H> {
    /// The connection below failed.
    Io(I),
    /// The protocol was broken, or the peer ended the stream.
    Protocol(Option<u32>, H),
}

/// What is behind an I/O error that a stream gives.
#[derive(Debug)]
pub enum ProtocolError<H> {
    /// An error that the stream gave.
    Given(H),
    /// An error code.
    Code(u32),
}

/// The I/O error that a stream gives.
#[derive(Debug)]
pub enum StreamError<I, H> {
    /// The error of the connection below.
    Io(I),
    /// The stream is closed; with the error that told so, if there is one.
    BrokenPipe(Option<H>),
    /// Anything else.
    Other(ProtocolError<H>),
}

/// The I/O error that a failure of a stream amounts to: the one below it, if
/// there is one.
pub open spec fn io_error<I, H>(fault: StreamFault<I, H>) -> StreamError<I, H> {
    match fault {
        StreamFault::Io(err) => StreamError::Io(err),
        StreamFault::Protocol(_, err) => StreamError::Other(ProtocolError::Given(err)),
    }
}

/// The I/O error that a failure of a stream amounts to.
pub fn h2_error_to_io_error<I, H>(fault: StreamFault<I, H>) -> (err: StreamError<I, H>)
    ensures
        err == io_error(fault),
{
    match fault {
        StreamFault::Io(err) => StreamError::Io(err),
        StreamFault::Protocol(_, err) => StreamError::Other(ProtocolError::Given(err)),
    }
}

/// What a poll of the incoming side gives.
pub enum DataEvent<I, H> {
    /// A piece, and whether it is the last one.
    Data(Bytes, bool),
    /// A failure.
    Failed(StreamFault<I, H>),
    /// The end.
    End,
}

/// What a read does next.
#[derive(Debug)]
pub enum ReadStep<I, H> {
    /// It polls again.
    Poll,
    /// It hands out what there is.
    Deliver,
    /// It ends, without bytes.
    End,
    /// It fails.
    Fail(StreamError<I, H>),
}

/// What a read does with a failure of the stream: a stream that was ended or
/// given up without an error is at its end.
pub open spec fn read_failure<I, H>(fault: StreamFault<I, H>) -> ReadStep<I, H> {
    match fault {
        StreamFault::Protocol(Some(code), err) => if code == NO_ERROR || code == CANCEL {
            ReadStep::End
        } else if code == STREAM_CLOSED {
            ReadStep::Fail(StreamError::BrokenPipe(Some(err)))
        } else {
            ReadStep::Fail(io_error(fault))
        },
        _ => ReadStep::Fail(io_error(fault)),
    }
}

/// What a read hands out of the unread bytes, and what it leaves: it hands out as
/// many as there are and as there is room for.
pub open spec fn delivered(unread: Seq<u8>, room: nat) -> (Seq<u8>, Seq<u8>) {
    let len = if unread.len() <= room {
        unread.len() as int
    } else {
        room as int
    };
    (unread.take(len), unread.skip(len))
}

/// The incoming side of one stream: the bytes that have arrived and have not
/// been read.
pub struct TunnelStream {
    buf: Bytes,
}

impl View for TunnelStream {
    type V = Seq<u8>;

    closed spec fn view(&self) -> Seq<u8> {
        contents(self.buf)
    }
}

impl TunnelStream {
    /// A stream on which nothing has arrived.
    pub fn new() -> (stream: TunnelStream)
        ensures
            stream@ == Seq::<u8>::empty(),
    {
        TunnelStream { buf: no_bytes() }
    }

    /// Whether a read has to poll first.
    pub fn is_drained(&self) -> (drained: bool)
        ensures
            drained == (self@.len() == 0),
    {
        count_bytes(&self.buf) == 0
    }

    /// Takes what a poll gave. Empty pieces are passed over, but for the last
    /// one.
    pub fn receive<I, H>(&mut self, event: DataEvent<I, H>) -> (step: ReadStep<I, H>)
        requires
            old(self)@.len() == 0,
        ensures
            match event {
                DataEvent::Data(bytes, last) => {
                    &&& step == (if contents(bytes).len() == 0 && !last {
                        ReadStep::<I, H>::Poll
                    } else {
                        ReadStep::<I, H>::Deliver
                    })
                    &&& final(self)@ == contents(bytes)
                },
                DataEvent::Failed(fault) => step == read_failure(fault) && final(self)@ == old(
                    self,
                )@,
                DataEvent::End => step == ReadStep::<I, H>::End && final(self)@ == old(self)@,
            },
    {
        match event {
            DataEvent::Data(bytes, last) => {
                if count_bytes(&bytes) == 0 && !last {
                    proof {
                        assert(self@ =~= contents(bytes));
                    }
                    return ReadStep::Poll;
                }
                self.buf = bytes;
                ReadStep::Deliver
            },
            DataEvent::Failed(fault) => match fault {
                StreamFault::Protocol(Some(code), err) => if code == NO_ERROR || code == CANCEL {
                    ReadStep::End
                } else if code == STREAM_CLOSED {
                    ReadStep::Fail(StreamError::BrokenPipe(Some(err)))
                } else {
                    ReadStep::Fail(h2_error_to_io_error(StreamFault::Protocol(Some(code), err)))
                },
                StreamFault::Protocol(None, err) => ReadStep::Fail(
                    h2_error_to_io_error(StreamFault::Protocol(None, err)),
                ),
                StreamFault::Io(err) => ReadStep::Fail(h2_error_to_io_error(StreamFault::Io(err))),
            },
            DataEvent::End => ReadStep::End,
        }
    }

    /// Hands out as many bytes as there are and as there is room for. As many
    /// may then be sent anew by the peer.
    pub fn deliver(&mut self, room: usize) -> (out: Vec<u8>)
        ensures
            (out@, final(self)@) == delivered(old(self)@, room as nat),
            out@ + final(self)@ == old(self)@,
            out@.len() == (if old(self)@.len() <= room {
                old(self)@.len()
            } else {
                room as nat
            }),
    {
        let available: usize = count_bytes(&self.buf);
        let len: usize = if available <= room {
            available
        } else {
            room
        };
        let out = front_bytes(&self.buf, len);
        drop_bytes(&mut self.buf, len);
        proof {
            assert(out@ + self@ =~= old(self)@);
        }
        out
    }
}

/// What the outgoing side grants a write.
#[derive(Debug, Clone, Copy, PartialEq, Eq, Structural)]
pub enum Capacity {
    /// This many bytes.
    Granted(usize),
    /// Nothing: it failed.
    Failed,
    /// Nothing: it is closed.
    Closed,
}

/// What a write does next.
pub enum WriteStep {
    /// It sends these bytes.
    Send(Bytes),
    /// It ends, with this many bytes written.
    Written(usize),
    /// It waits to be told why it cannot go on.
    AwaitReset,
}

/// How much a write asks for; nothing where it has nothing to write.
pub fn write_demand(data: &[u8]) -> (demand: Option<usize>)
    ensures
        demand == (if data@.len() == 0 {
            None
        } else {
            Some(data@.len() as usize)
        }),
{
    if data.len() == 0 {
        None
    } else {
        Some(data.len())
    }
}

/// What a write does once it knows what it is granted: it sends as much of its
/// data.
pub fn write_granted(data: &[u8], capacity: Capacity) -> (step: WriteStep)
    requires
        capacity matches Capacity::Granted(n) ==> n <= data@.len(),
    ensures
        match capacity {
            Capacity::Granted(n) => step matches WriteStep::Send(bytes) && contents(bytes)
                == data@.take(n as int),
            Capacity::Failed => step == WriteStep::AwaitReset,
            Capacity::Closed => step == WriteStep::Written(0),
        },
{
    match capacity {
        Capacity::Granted(n) => {
            let front = vstd::slice::slice_subrange(data, 0, n);
            proof {
                assert(data@.subrange(0, n as int) =~= data@.take(n as int));
            }
            WriteStep::Send(copy_bytes(front))
        },
        Capacity::Failed => WriteStep::AwaitReset,
        Capacity::Closed => WriteStep::Written(0),
    }
}

/// What a write does once its bytes have been sent, or could not be.
pub fn write_sent(sent: bool, len: usize) -> (step: WriteStep)
    ensures
        step == (if sent {
            WriteStep::Written(len)
        } else {
            WriteStep::AwaitReset
        }),
{
    if sent {
        WriteStep::Written(len)
    } else {
        WriteStep::AwaitReset
    }
}

/// Why the outgoing side cannot go on.
#[derive(Debug)]
pub enum ResetEvent<I, H> {
    /// The peer ended the stream, with this error code.
    Reset(u32),
    /// The stream failed.
    Failed(StreamFault<I, H>),
}

/// The error of a write that cannot go on.
pub open spec fn write_failure<I, H>(event: ResetEvent<I, H>) -> StreamError<I, H> {
    match event {
        ResetEvent::Reset(code) => if code == NO_ERROR || code == CANCEL || code == STREAM_CLOSED {
            StreamError::BrokenPipe(None)
        } else {
            StreamError::Other(ProtocolError::Code(code))
        },
        ResetEvent::Failed(fault) => io_error(fault),
    }
}

/// The error of a write that cannot go on.
pub fn write_reset<I, H>(event: ResetEvent<I, H>) -> (err: StreamError<I, H>)
    ensures
        err == write_failure(event),
{
    match event {
        ResetEvent::Reset(code) => if code == NO_ERROR || code == CANCEL || code == STREAM_CLOSED {
            StreamError::BrokenPipe(None)
        } else {
            StreamError::Other(ProtocolError::Code(code))
        },
        ResetEvent::Failed(fault) => h2_error_to_io_error(fault),
    }
}

/// The piece that ends the outgoing side: an empty one.
pub fn closing_piece() -> (bytes: Bytes)
    ensures
        contents(bytes) == Seq::<u8>::empty(),
{
    no_bytes()
}

/// What becomes of an attempt to end the outgoing side when the last piece
/// cannot be sent. It has succeeded where the peer ended the stream without an
/// error.
pub fn shutdown_reset<I, H>(event: ResetEvent<I, H>) -> (done: Result<(), StreamError<I, H>>)
    ensures
        done == (if event == ResetEvent::<I, H>::Reset(NO_ERROR) {
            Ok(())
        } else {
            Err(write_failure(event))
        }),
{
    match event {
        ResetEvent::Reset(code) => if code == NO_ERROR {
            Ok(())
        } else {
            Err(write_reset(ResetEvent::Reset(code)))
        },
        ResetEvent::Failed(fault) => Err(write_reset(ResetEvent::Failed(fault))),
    }
}

/// Something that happens on the incoming side of a stream.
pub enum StreamOp {
    /// A piece arrives, when all that came before has been read.
    Arrive(Seq<u8>),
    /// A read hands out what there is room for.
    Read(nat),
}

/// The unread bytes, and all that have been handed out, after some operations.
pub open spec fn replay(ops: Seq<StreamOp>) -> (Seq<u8>, Seq<u8>)
    decreases ops.len(),
{
    if ops.len() == 0 {
        (Seq::empty(), Seq::empty())
    } else {
        let (unread, out) = replay(ops.drop_last());
        match ops.last() {
            StreamOp::Arrive(piece) => (piece, out),
            StreamOp::Read(room) => {
                let (handed, left) = delivered(unread, room);
                (left, out + handed)
            },
        }
    }
}

/// Whether pieces arrive only when all that came before has been read.
pub open spec fn in_turn(ops: Seq<StreamOp>) -> bool
    decreases ops.len(),
{
    ops.len() > 0 ==> in_turn(ops.drop_last()) && (ops.last() is Arrive ==> replay(
        ops.drop_last(),
    ).0.len() == 0)
}

/// All that has arrived, in order.
pub open spec fn arrived(ops: Seq<StreamOp>) -> Seq<u8>
    decreases ops.len(),
{
    if ops.len() == 0 {
        Seq::empty()
    } else {
        match ops.last() {
            StreamOp::Arrive(piece) => arrived(ops.drop_last()) + piece,
            StreamOp::Read(_) => arrived(ops.drop_last()),
        }
    }
}

/// Reads hand out what has arrived, each byte once and in order, and keep the
/// rest.
pub proof fn nothing_is_lost(ops: Seq<StreamOp>)
    requires
        in_turn(ops),
    ensures
        replay(ops).1 + replay(ops).0 == arrived(ops),
    decreases ops.len(),
{
    if ops.len() > 0 {
        nothing_is_lost(ops.drop_last());
        let (unread, out) = replay(ops.drop_last());
        match ops.last() {
            StreamOp::Arrive(piece) => {
                assert(out + unread =~= out);
            },
            StreamOp::Read(room) => {
                assert(replay(ops).1 + replay(ops).0 =~= out + unread);
            },
        }
    } else {
        assert(replay(ops).1 + replay(ops).0 =~= Seq::<u8>::empty());
    }
}

/// All that is sent of some data by writes that are granted so much each, one
/// after the other, each starting where the one before it has stopped.
pub open spec fn sent(data: Seq<u8>, grants: Seq<nat>) -> Seq<u8>
    decreases grants.len(),
{
    if grants.len() == 0 {
        Seq::empty()
    } else {
        data.take(grants[0] as int) + sent(data.skip(grants[0] as int), grants.skip(1))
    }
}

/// Whether no write is granted more than it has left to write.
pub open spec fn within(data: Seq<u8>, grants: Seq<nat>) -> bool
    decreases grants.len(),
{
    grants.len() > 0 ==> grants[0] <= data.len() && within(
        data.skip(grants[0] as int),
        grants.skip(1),
    )
}

/// Writes send the front of their data, each byte once and in order.
pub proof fn writes_send_the_front(data: Seq<u8>, grants: Seq<nat>)
    requires
        within(data, grants),
    ensures
        sent(data, grants).is_prefix_of(data),
    decreases grants.len(),
{
    if grants.len() > 0 {
        let rest = data.skip(grants[0] as int);
        writes_send_the_front(rest, grants.skip(1));
        let front = sent(data, grants);
        assert forall|i: int| 0 <= i < front.len() implies #[trigger] front[i] == data[i] by {
            if i >= grants[0] {
                let j = i - grants[0];
                assert(front[i] == sent(rest, grants.skip(1))[j]);
                assert(rest[j] == data[i]);
            }
        }
        assert(front =~= data.take(front.len() as int));
    }
}

} // verus!
