//! Other servers that may hold a tunnel.
use vstd::prelude::*;
use vstd::string::*;

use crate::name::{NameView, TunnelName};
use crate::text::opt_text;

verus! {

/// An IP address by its bits, the first octet highest.
#[derive(Debug, Clone, Copy, PartialEq, Eq, Structural)]
pub enum IpAddress {
    /// An address of version 4.
    V4(u32),
    /// An address of version 6.
    V6(u128),
}

/// The address of a server.
#[derive(Debug, Clone, Copy, PartialEq, Eq, Structural)]
pub struct PeerAddr {
    /// The host.
    pub ip: IpAddress,
    /// The port.
    pub port: u16,
}

/// Finds the other servers by a host name.
#[derive(Debug)]
pub struct DnsPeerResolver {
    hostname: String,
    port: u16,
}

impl DnsPeerResolver {
    /// The host name that is looked up.
    pub closed spec fn spec_hostname(self) -> String {
        self.hostname
    }

    /// The port at which the servers are asked.
    pub closed spec fn spec_port(self) -> u16 {
        self.port
    }

    /// Looks for servers under a host name, to be asked at a port.
    pub fn new<T: Into<String>>(hostname: T, port: u16) -> (resolver: DnsPeerResolver)
        ensures
            call_ensures(<T as Into<String>>::into, (hostname,), resolver.spec_hostname()),
            resolver.spec_port() == port,
    {
        DnsPeerResolver { hostname: hostname.into(), port }
    }

    /// The host name that is looked up.
    pub fn hostname(&self) -> (hostname: &str)
        ensures
            hostname@ == self.spec_hostname()@,
    {
        self.hostname.as_str()
    }

    /// The port at which the servers are asked.
    pub fn port(&self) -> (port: u16)
        ensures
            port == self.spec_port(),
    {
        self.port
    }
}

/// Another server that may hold a tunnel.
#[derive(Debug)]
pub struct Peer {
    /// Its address and port as text.
    pub text: String,
    /// Its address.
    pub ip: IpAddress,
}

/// The question that other servers are asked.
#[derive(Debug)]
pub struct PeerQuery {
    name: TunnelName,
    proxy_port: u16,
}

/// What a question is.
pub struct PeerQueryView {
    /// The name of the tunnel.
    pub name: NameView,
    /// The port at which a server that has the tunnel takes its traffic.
    pub proxy_port: u16,
}

impl View for PeerQuery {
    type V = PeerQueryView;

    closed spec fn view(&self) -> PeerQueryView {
        PeerQueryView { name: self.name@, proxy_port: self.proxy_port }
    }
}

impl PeerQueryView {
    /// The search among some servers.
    pub open spec fn among(self, peers: Seq<Peer>) -> PeerSearchView {
        PeerSearchView { name: self.name, proxy_port: self.proxy_port, peers }
    }
}

impl PeerQuery {
    /// Asks for a tunnel servers that take HTTP traffic and TCP traffic at these
    /// ports.
    pub fn new(name: &TunnelName, http_proxy_port: u16, tcp_proxy_port: u16) -> (query: PeerQuery)
        ensures
            query@ == (PeerQueryView {
                name: name@,
                proxy_port: match name@ {
                    NameView::Subdomain(_) => http_proxy_port,
                    NameView::PortNumber(_) => tcp_proxy_port,
                },
            }),
    {
        let proxy_port: u16 = match name {
            TunnelName::Subdomain(_) => http_proxy_port,
            TunnelName::PortNumber(_) => tcp_proxy_port,
        };
        PeerQuery { name: name.clone(), proxy_port }
    }

    /// The search among some servers.
    pub fn among(self, peers: Vec<Peer>) -> (search: PeerSearch)
        ensures
            search@ == self@.among(peers@),
    {
        proof {
            assert(peers@.skip(0) =~= peers@);
        }
        PeerSearch { name: self.name, proxy_port: self.proxy_port, peers, next: 0 }
    }
}

/// The search for a tunnel among other servers.
#[derive(Debug)]
pub struct PeerSearch {
    name: TunnelName,
    proxy_port: u16,
    peers: Vec<Peer>,
    next: usize,
}

/// What a search is.
pub struct PeerSearchView {
    /// The name of the tunnel.
    pub name: NameView,
    /// The port at which a server that has the tunnel takes its traffic.
    pub proxy_port: u16,
    /// The servers that are still to be asked, in order.
    pub peers: Seq<Peer>,
}

impl View for PeerSearch {
    type V = PeerSearchView;

    closed spec fn view(&self) -> PeerSearchView {
        PeerSearchView {
            name: self.name@,
            proxy_port: self.proxy_port,
            peers: self.peers@.skip(self.next as int),
        }
    }
}

/// Where a server is asked for a tunnel.
pub open spec fn peer_url(server: Seq<char>, name: NameView) -> Seq<char> {
    "http://"@ + server + "/tunnels/"@ + name.text()
}

/// Whether a status says that a request succeeded.
pub open spec fn is_success(status: u16) -> bool {
    200 <= status < 300
}

/// Whether a server has the tunnel, by the status of its answer; no status means
/// no answer.
pub open spec fn has_tunnel(status: Option<u16>) -> bool {
    status matches Some(s) && is_success(s)
}

impl PeerSearchView {
    /// Where the traffic goes after the next server has answered, if that server
    /// has the tunnel.
    pub open spec fn found(self, status: Option<u16>) -> Option<PeerAddr> {
        if has_tunnel(status) {
            Some(PeerAddr { ip: self.peers[0].ip, port: self.proxy_port })
        } else {
            None
        }
    }

    /// The search once the next server has answered.
    pub open spec fn rest(self) -> PeerSearchView {
        PeerSearchView { peers: self.peers.skip(1), ..self }
    }
}

impl PeerSearch {
    #[verifier::type_invariant]
    spec fn well_formed(self) -> bool {
        self.next <= self.peers.len()
    }

    /// Where the next server is asked, if one is left.
    pub fn query(&self) -> (url: Option<String>)
        ensures
            opt_text(url) == (if self@.peers.len() == 0 {
                None
            } else {
                Some(peer_url(self@.peers[0].text@, self@.name))
            }),
    {
        proof {
            use_type_invariant(self);
        }
        if self.next < self.peers.len() {
            let mut url: String = "http://".to_owned();
            url.append(self.peers[self.next].text.as_str());
            url.append("/tunnels/");
            url.append(self.name.to_text().as_str());
            Some(url)
        } else {
            None
        }
    }

    /// Takes the answer of the next server, and tells where the traffic goes if
    /// that server has the tunnel.
    pub fn answered(&mut self, status: Option<u16>) -> (addr: Option<PeerAddr>)
        requires
            old(self)@.peers.len() > 0,
        ensures
            addr == old(self)@.found(status),
            addr is Some <==> status is Some && 200 <= status->Some_0 < 300,
            final(self)@ == old(self)@.rest(),
    {
        proof {
            use_type_invariant(&*self);
            assert(self.peers@.skip(self.next as int).skip(1) =~= self.peers@.skip(
                self.next + 1,
            ));
        }
        let ip = self.peers[self.next].ip;
        self.next = self.next + 1;
        match status {
            Some(s) => if 200 <= s && s < 300 {
                Some(PeerAddr { ip, port: self.proxy_port })
            } else {
                None
            },
            None => None,
        }
    }
}

/// What a search finds where the servers answer in a given way, each asked once
/// the one before it does not have the tunnel.
pub open spec fn search_outcome(search: PeerSearchView, statuses: Seq<Option<u16>>) -> Option<
    PeerAddr,
>
    decreases search.peers.len(),
{
    if search.peers.len() == 0 || statuses.len() == 0 {
        None
    } else {
        match search.found(statuses[0]) {
            Some(addr) => Some(addr),
            None => search_outcome(search.rest(), statuses.skip(1)),
        }
    }
}

/// The traffic goes to the first server that has the tunnel.
pub proof fn the_first_peer_wins(search: PeerSearchView, statuses: Seq<Option<u16>>, winner: int)
    requires
        search.peers.len() == statuses.len(),
        0 <= winner < statuses.len(),
        has_tunnel(statuses[winner]),
        forall|i: int| 0 <= i < winner ==> !has_tunnel(#[trigger] statuses[i]),
    ensures
        search_outcome(search, statuses) == Some(
            PeerAddr { ip: search.peers[winner].ip, port: search.proxy_port },
        ),
    decreases winner,
{
    if winner > 0 {
        let rest = search.rest();
        assert(!has_tunnel(statuses[0]));
        assert forall|i: int| 0 <= i < winner - 1 implies !has_tunnel(
            #[trigger] statuses.skip(1)[i],
        ) by {
            assert(statuses.skip(1)[i] == statuses[i + 1]);
        }
        the_first_peer_wins(rest, statuses.skip(1), winner - 1);
    }
}

/// Where no server has the tunnel, none is found.
pub proof fn no_peer_no_tunnel(search: PeerSearchView, statuses: Seq<Option<u16>>)
    requires
        forall|i: int| 0 <= i < statuses.len() ==> !has_tunnel(#[trigger] statuses[i]),
    ensures
        search_outcome(search, statuses) is None,
    decreases search.peers.len(),
{
    if search.peers.len() > 0 && statuses.len() > 0 {
        let rest = search.rest();
        assert(!has_tunnel(statuses[0]));
        assert forall|i: int| 0 <= i < statuses.skip(1).len() implies !has_tunnel(
            #[trigger] statuses.skip(1)[i],
        ) by {
            assert(statuses.skip(1)[i] == statuses[i + 1]);
        }
        no_peer_no_tunnel(rest, statuses.skip(1));
    }
}

} // verus!
