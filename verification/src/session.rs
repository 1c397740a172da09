//! What becomes of a tunnel between its request and its end.
use vstd::prelude::*;

use crate::tunnel::{EntryView, RegistryView, Tunnel, TunnelEntry, Tunnels};
use crate::tunnel_id::TunnelId;

verus! {

/// Seconds between two pings.
pub const PING_INTERVAL: u64 = 10;

/// Seconds that the answer to a ping may take.
pub const PING_TIMEOUT: u64 = 15;

/// The HTTP/2 error code of a connection that ends without an error.
pub const NO_ERROR: u32 = 0;

/// The HTTP/2 error code of a failure that is nobody else's.
pub const INTERNAL_ERROR: u32 = 2;

/// A tunnel that has been granted to a client.
#[derive(Debug)]
pub enum Session {
    /// Its streams come through a proxy that all tunnels share.
    Proxied(TunnelEntry),
    /// Its streams come through a listener of its own, at this port.
    Listening(TunnelId, u16),
}

/// What a session is.
pub enum SessionView {
    /// See [`Session::Proxied`].
    Proxied(EntryView),
    /// See [`Session::Listening`].
    Listening(u128, u16),
}

impl View for Session {
    type V = SessionView;

    open spec fn view(&self) -> SessionView {
        match self {
            Session::Proxied(entry) => SessionView::Proxied(entry@),
            Session::Listening(id, port) => SessionView::Listening(id@, *port),
        }
    }
}

impl SessionView {
    /// The identifier of the tunnel.
    pub open spec fn id(self) -> u128 {
        match self {
            SessionView::Proxied(entry) => entry.id,
            SessionView::Listening(id, _) => id,
        }
    }

    /// The registry after the session has let go of its name, which a tunnel
    /// that has been opened and one with a listener keep.
    pub open spec fn let_go<C>(self, registry: RegistryView<C>) -> RegistryView<C> {
        match self {
            SessionView::Proxied(entry) => if entry.persisted {
                registry
            } else {
                registry.release(entry.name)
            },
            SessionView::Listening(..) => registry,
        }
    }

    /// The registry after the session has ended.
    pub open spec fn end<C>(self, registry: RegistryView<C>) -> RegistryView<C> {
        self.let_go(registry.detach(self.id()))
    }
}

/// How the streams of a connected tunnel come in.
#[derive(Debug)]
pub enum Serving<C> {
    /// Through the registry.
    Registered,
    /// Through a listener at a port.
    Listen(Tunnel<C>, u16),
}

impl Session {
    /// The identifier of the tunnel.
    pub fn id(&self) -> (id: TunnelId)
        ensures
            id@ == self@.id(),
    {
        match self {
            Session::Proxied(entry) => entry.id(),
            Session::Listening(id, _) => *id,
        }
    }

    /// The client's connection could not be taken over.
    pub fn upgrade_failed<C>(self, tuns: &mut Tunnels<C>)
        ensures
            final(tuns)@ == self@.let_go(old(tuns)@),
    {
        match self {
            Session::Proxied(entry) => entry.release(tuns),
            Session::Listening(..) => {},
        }
    }

    /// The client is connected: a proxied tunnel is opened, the other kind is to
    /// listen.
    pub fn connected<C>(&mut self, tuns: &mut Tunnels<C>, client: C) -> (serving: Serving<C>)
        ensures
            match old(self)@ {
                SessionView::Proxied(entry) => {
                    &&& final(tuns)@ == old(tuns)@.attach(
                        entry.id,
                        Tunnel::serving(client),
                        entry.name,
                    )
                    &&& final(self)@ == SessionView::Proxied(
                        EntryView { persisted: true, ..entry },
                    )
                    &&& serving == Serving::<C>::Registered
                },
                SessionView::Listening(id, port) => {
                    &&& final(tuns)@ == old(tuns)@
                    &&& final(self)@ == old(self)@
                    &&& serving == Serving::Listen(Tunnel::serving(client), port)
                },
            },
    {
        let tunnel = Tunnel::local(client);
        match self {
            Session::Proxied(entry) => {
                entry.add_tunnel(tuns, tunnel);
                Serving::Registered
            },
            Session::Listening(_, port) => Serving::Listen(tunnel, *port),
        }
    }

    /// The client's connection is over, or never got past its handshake.
    pub fn closed<C>(self, tuns: &mut Tunnels<C>)
        ensures
            final(tuns)@ == self@.end(old(tuns)@),
    {
        tuns.remove_tunnel(self.id());
        self.upgrade_failed(tuns)
    }
}

/// What became of a ping.
#[derive(Debug)]
pub enum PingEvent<E> {
    /// It was answered.
    Pong,
    /// The connection failed.
    Failed(E),
    /// No answer came in time.
    TimedOut,
}

/// What to do after a ping.
#[derive(Debug)]
pub enum PingStep<E> {
    /// Ping again after this many seconds.
    PingAfter(u64),
    /// End the session with the error that the connection gave.
    Fail(E),
    /// End the session with this HTTP/2 error code.
    Stop(u32),
}

/// What to do after a ping.
pub fn after_ping<E>(event: PingEvent<E>) -> (step: PingStep<E>)
    ensures
        step == (match event {
            PingEvent::Pong => PingStep::PingAfter(PING_INTERVAL),
            PingEvent::Failed(err) => PingStep::Fail(err),
            PingEvent::TimedOut => PingStep::Stop(NO_ERROR),
        }),
{
    match event {
        PingEvent::Pong => PingStep::PingAfter(PING_INTERVAL),
        PingEvent::Failed(err) => PingStep::Fail(err),
        PingEvent::TimedOut => PingStep::Stop(NO_ERROR),
    }
}

/// Why a listener has come to its end.
#[derive(Debug, Clone, Copy, PartialEq, Eq, Structural)]
pub enum ListenerEnd {
    /// Its port could not be had.
    NotBound,
    /// It accepts no more connections.
    NoMoreConnections,
}

/// The HTTP/2 error code with which a session ends when its listener does, if it
/// ends with an error.
pub fn listener_error(end: ListenerEnd) -> (code: Option<u32>)
    ensures
        code == (match end {
            ListenerEnd::NotBound => Some(INTERNAL_ERROR),
            ListenerEnd::NoMoreConnections => None,
        }),
{
    match end {
        ListenerEnd::NotBound => Some(INTERNAL_ERROR),
        ListenerEnd::NoMoreConnections => None,
    }
}

} // verus!
