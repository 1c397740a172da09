//! Carrying one stream through a tunnel.
use vstd::prelude::*;

use crate::peers::PeerAddr;
use crate::tunnel::{Tunnel, TunnelConnection};

verus! {

/// Seconds that a client may take until it can accept a stream.
pub const CLIENT_READY_TIMEOUT: u64 = 5;

/// Seconds that a client may take to accept a stream.
pub const SEND_REQUEST_TIMEOUT: u64 = 10;

/// What did not happen in time.
#[derive(Debug, Clone, Copy, PartialEq, Eq, Structural)]
pub enum Delay {
    /// The client could accept no stream.
    NotReady,
    /// The client did not accept the stream.
    NoResponse,
}

impl Delay {
    /// What the error says.
    pub open spec fn text(self) -> Seq<char> {
        match self {
            Delay::NotReady => "H2 stream not ready"@,
            Delay::NoResponse => "H2 send_request timed out"@,
        }
    }

    /// What the error says.
    pub fn message(&self) -> (text: String)
        ensures
            text@ == self.text(),
    {
        match self {
            Delay::NotReady => "H2 stream not ready".to_owned(),
            Delay::NoResponse => "H2 send_request timed out".to_owned(),
        }
    }
}

/// Why a stream could not be carried, or not to its end.
#[derive(Debug)]
pub enum TunnelError<I, H> {
    /// A connection failed.
    Io(I),
    /// Something did not happen in time.
    TimedOut(Delay),
    /// The HTTP/2 connection to the client failed.
    H2(H),
}

/// What to do to carry a stream.
#[derive(Debug)]
pub enum DialStep<I, H> {
    /// Wait so many seconds until the client can accept a stream.
    AwaitReady(u64),
    /// Offer the stream to the client.
    SendRequest,
    /// Wait so many seconds until the client accepts the stream.
    AwaitResponse(u64),
    /// Connect to another server.
    Connect(PeerAddr),
    /// Pass bytes both ways, and count them if so asked.
    Copy(bool),
    /// Nothing more: the stream is over.
    Done,
    /// Nothing more: the stream failed.
    Fail(TunnelError<I, H>),
}

/// What came of a step.
#[derive(Debug)]
pub enum DialEvent<I, H> {
    /// It succeeded.
    Succeeded,
    /// The HTTP/2 connection failed.
    H2Failed(H),
    /// A connection failed.
    IoFailed(I),
    /// It took too long.
    TimedOut,
}

/// How far the carrying of a stream has got.
#[derive(Debug, Clone, Copy, PartialEq, Eq, Structural)]
pub enum Dial {
    /// The client is not known to be able to accept a stream.
    Readying,
    /// The stream has been offered to the client, or is about to be.
    Requesting,
    /// The client has not accepted the stream.
    Responding,
    /// Another server has not been reached.
    Connecting,
    /// Bytes are passed both ways.
    Copying,
    /// It is over.
    Over,
}

/// How far the carrying of a stream is when it begins, and what comes first.
pub open spec fn dial_start<C, I, H>(connection: TunnelConnection<C>) -> (Dial, DialStep<I, H>) {
    match connection {
        TunnelConnection::Local(_) => (
            Dial::Readying,
            DialStep::AwaitReady(CLIENT_READY_TIMEOUT),
        ),
        TunnelConnection::Remote(addr) => (Dial::Connecting, DialStep::Connect(addr)),
    }
}

impl<C> Tunnel<C> {
    /// Begins to carry a stream: to the client that is connected here, or to the
    /// other server.
    pub fn tunnel<I, H>(&self) -> (begun: (Dial, DialStep<I, H>))
        ensures
            begun == dial_start::<C, I, H>(self.connection),
    {
        match &self.connection {
            TunnelConnection::Local(_) => (
                Dial::Readying,
                DialStep::AwaitReady(CLIENT_READY_TIMEOUT),
            ),
            TunnelConnection::Remote(addr) => (Dial::Connecting, DialStep::Connect(*addr)),
        }
    }
}

impl Dial {
    /// Whether something can come of the step at hand. Only the two waits can
    /// take too long; the HTTP/2 connection fails before bytes are passed, any
    /// other connection when it is made or bytes are passed.
    pub open spec fn admits<I, H>(self, event: DialEvent<I, H>) -> bool {
        match event {
            DialEvent::Succeeded => self != Dial::Over,
            DialEvent::H2Failed(_) => self == Dial::Readying || self == Dial::Requesting || self
                == Dial::Responding,
            DialEvent::IoFailed(_) => self == Dial::Connecting || self == Dial::Copying,
            DialEvent::TimedOut => self == Dial::Readying || self == Dial::Responding,
        }
    }

    /// How far it has got once a step has succeeded, and what comes next.
    pub open spec fn after_success<I, H>(self) -> (Dial, DialStep<I, H>) {
        match self {
            Dial::Readying => (Dial::Requesting, DialStep::SendRequest),
            Dial::Requesting => (Dial::Responding, DialStep::AwaitResponse(SEND_REQUEST_TIMEOUT)),
            Dial::Responding => (Dial::Copying, DialStep::Copy(true)),
            Dial::Connecting => (Dial::Copying, DialStep::Copy(false)),
            _ => (Dial::Over, DialStep::Done),
        }
    }

    /// How far it has got after something has come of a step, and what comes
    /// next.
    pub open spec fn after<I, H>(self, event: DialEvent<I, H>) -> (Dial, DialStep<I, H>) {
        match event {
            DialEvent::Succeeded => self.after_success(),
            DialEvent::H2Failed(err) => (Dial::Over, DialStep::Fail(TunnelError::H2(err))),
            DialEvent::IoFailed(err) => (Dial::Over, DialStep::Fail(TunnelError::Io(err))),
            DialEvent::TimedOut => (
                Dial::Over,
                DialStep::Fail(
                    TunnelError::TimedOut(
                        if self == Dial::Readying {
                            Delay::NotReady
                        } else {
                            Delay::NoResponse
                        },
                    ),
                ),
            ),
        }
    }

    /// How many steps are left at most.
    pub open spec fn steps_left(self) -> nat {
        match self {
            Dial::Readying => 4,
            Dial::Requesting => 3,
            Dial::Responding => 2,
            Dial::Connecting => 2,
            Dial::Copying => 1,
            Dial::Over => 0,
        }
    }

    /// Takes what came of a step, and tells the next one.
    pub fn step<I, H>(&mut self, event: DialEvent<I, H>) -> (next: DialStep<I, H>)
        requires
            old(self).admits(event),
        ensures
            (*final(self), next) == old(self).after(event),
    {
        match event {
            DialEvent::Succeeded => match *self {
                Dial::Readying => {
                    *self = Dial::Requesting;
                    DialStep::SendRequest
                },
                Dial::Requesting => {
                    *self = Dial::Responding;
                    DialStep::AwaitResponse(SEND_REQUEST_TIMEOUT)
                },
                Dial::Responding => {
                    *self = Dial::Copying;
                    DialStep::Copy(true)
                },
                Dial::Connecting => {
                    *self = Dial::Copying;
                    DialStep::Copy(false)
                },
                _ => {
                    *self = Dial::Over;
                    DialStep::Done
                },
            },
            DialEvent::H2Failed(err) => {
                *self = Dial::Over;
                DialStep::Fail(TunnelError::H2(err))
            },
            DialEvent::IoFailed(err) => {
                *self = Dial::Over;
                DialStep::Fail(TunnelError::Io(err))
            },
            DialEvent::TimedOut => {
                let delay = if *self == Dial::Readying {
                    Delay::NotReady
                } else {
                    Delay::NoResponse
                };
                *self = Dial::Over;
                DialStep::Fail(TunnelError::TimedOut(delay))
            },
        }
    }
}

/// Every step brings the carrying of a stream closer to its end, and it is over
/// exactly where there is nothing more to do.
pub proof fn every_stream_ends<I, H>(dial: Dial, event: DialEvent<I, H>)
    requires
        dial.admits(event),
    ensures
        dial.after(event).0.steps_left() < dial.steps_left(),
        dial.after(event).0 == Dial::Over <==> (dial.after(event).1 is Done || dial.after(
            event,
        ).1 is Fail),
{
}

/// How far the carrying of a stream has got after something has come of each of
/// its steps so far, and all the steps, the one at hand being the last.
pub open spec fn dial_run<C, I, H>(
    connection: TunnelConnection<C>,
    events: Seq<DialEvent<I, H>>,
) -> (Dial, Seq<DialStep<I, H>>)
    decreases events.len(),
{
    if events.len() == 0 {
        let (dial, step) = dial_start::<C, I, H>(connection);
        (dial, seq![step])
    } else {
        let (before, steps) = dial_run(connection, events.drop_last());
        let (after, step) = before.after(events.last());
        (after, steps.push(step))
    }
}

/// Whether each of some events can come of the step that was at hand.
pub open spec fn dial_admits<C, I, H>(
    connection: TunnelConnection<C>,
    events: Seq<DialEvent<I, H>>,
) -> bool
    decreases events.len(),
{
    events.len() > 0 ==> dial_admits(connection, events.drop_last()) && dial_run(
        connection,
        events.drop_last(),
    ).0.admits(events.last())
}

/// The steps that carry a stream where each of them succeeds.
pub open spec fn dial_path<C, I, H>(connection: TunnelConnection<C>) -> Seq<DialStep<I, H>> {
    match connection {
        TunnelConnection::Local(_) => seq![
            DialStep::AwaitReady(CLIENT_READY_TIMEOUT),
            DialStep::SendRequest,
            DialStep::AwaitResponse(SEND_REQUEST_TIMEOUT),
            DialStep::Copy(true),
            DialStep::Done,
        ],
        TunnelConnection::Remote(addr) => seq![
            DialStep::Connect(addr),
            DialStep::Copy(false),
            DialStep::Done,
        ],
    }
}

/// How far along its path the carrying of a stream is.
spec fn dial_position<C>(connection: TunnelConnection<C>, dial: Dial) -> int {
    match connection {
        TunnelConnection::Local(_) => match dial {
            Dial::Readying => 0,
            Dial::Requesting => 1,
            Dial::Responding => 2,
            Dial::Copying => 3,
            Dial::Over => 4,
            Dial::Connecting => -1,
        },
        TunnelConnection::Remote(_) => match dial {
            Dial::Connecting => 0,
            Dial::Copying => 1,
            Dial::Over => 2,
            _ => -1,
        },
    }
}

/// The steps of a run are those of the path, but that the last one may be a
/// failure.
pub proof fn a_run_follows_its_path<C, I, H>(
    connection: TunnelConnection<C>,
    events: Seq<DialEvent<I, H>>,
)
    requires
        dial_admits(connection, events),
    ensures
        ({
            let path = dial_path::<C, I, H>(connection);
            let (dial, steps) = dial_run(connection, events);
            &&& 0 < steps.len() <= path.len()
            &&& forall|i: int| 0 <= i < steps.len() - 1 ==> #[trigger] steps[i] == path[i]
            &&& steps.last() == path[steps.len() - 1] || steps.last() is Fail
            &&& dial == Dial::Over <==> (steps.last() is Done || steps.last() is Fail)
        }),
{
    run_position(connection, events);
}

/// Where a run is on its path.
proof fn run_position<C, I, H>(connection: TunnelConnection<C>, events: Seq<DialEvent<I, H>>)
    requires
        dial_admits(connection, events),
    ensures
        ({
            let path = dial_path::<C, I, H>(connection);
            let (dial, steps) = dial_run(connection, events);
            &&& 0 < steps.len() <= path.len()
            &&& forall|i: int| 0 <= i < steps.len() - 1 ==> #[trigger] steps[i] == path[i]
            &&& steps.last() == path[steps.len() - 1] || steps.last() is Fail
            &&& dial == Dial::Over <==> (steps.last() is Done || steps.last() is Fail)
            &&& steps.last() !is Fail ==> dial_position(connection, dial) == steps.len() - 1
        }),
    decreases events.len(),
{
    if events.len() > 0 {
        let before = events.drop_last();
        run_position(connection, before);
        let path = dial_path::<C, I, H>(connection);
        let (dial, earlier) = dial_run(connection, before);
        let steps = dial_run(connection, events).1;
        assert forall|i: int| 0 <= i < steps.len() - 1 implies #[trigger] steps[i] == path[i] by {
            assert(steps[i] == earlier[i]);
        }
    }
}

/// One call carries one stream: the client is offered at most one, and exactly
/// one by a call that reaches its end; bytes are counted exactly for a client
/// that is connected here; and the end comes only after bytes were passed both
/// ways.
pub proof fn a_run_carries_one_stream<C, I, H>(
    connection: TunnelConnection<C>,
    events: Seq<DialEvent<I, H>>,
)
    requires
        dial_admits(connection, events),
    ensures
        ({
            let steps = dial_run(connection, events).1;
            let local = connection is Local;
            &&& forall|i: int, j: int|
                0 <= i < steps.len() && 0 <= j < steps.len() && #[trigger] steps[i] is SendRequest
                    && #[trigger] steps[j] is SendRequest ==> i == j
            &&& forall|i: int|
                0 <= i < steps.len() && #[trigger] steps[i] is SendRequest ==> local
            &&& forall|i: int|
                0 <= i < steps.len() && #[trigger] steps[i] is Copy ==> steps[i]
                    == DialStep::<I, H>::Copy(local)
            &&& forall|i: int|
                0 <= i < steps.len() && #[trigger] steps[i] is Done ==> i == steps.len() - 1
                    && i > 0 && steps[i - 1] == DialStep::<I, H>::Copy(local)
            &&& local && steps.last() is Done ==> steps[1] is SendRequest
        }),
{
    a_run_follows_its_path(connection, events);
    let path = dial_path::<C, I, H>(connection);
    let steps = dial_run(connection, events).1;
    assert forall|i: int| 0 <= i < steps.len() implies #[trigger] steps[i] == path[i] || steps[i]
        is Fail by {
        if i == steps.len() - 1 {
            assert(steps.last() == steps[i]);
        }
    }
}

} // verus!
