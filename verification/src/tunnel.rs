//! The registry of tunnels: which names are taken, and which tunnels are open.
use std::collections::HashMap;

use vstd::hash_map::StringHashMap;
use vstd::prelude::*;
use vstd::string::*;

use crate::name::{NameView, TunnelName};
use crate::peers::{search_outcome, Peer, PeerAddr, PeerQuery, PeerQueryView};
use crate::text::{decimal, decimal_text, opt_text};
use crate::tunnel_id::{id_text, is_random_id, TunnelId};

verus! {

/// The first port that is handed out at random.
pub const PORT_RANGE_START: u16 = 20_000;

/// The first port after those that are handed out at random, and the last one
/// that may be asked for.
pub const PORT_RANGE_END: u16 = 60_000;

/// How many ports are drawn before giving up.
pub const MAX_PORT_RETRIES: usize = 100;

/// The port of the HTTP proxy on every server, unless told otherwise.
pub const HTTP_PROXY_PORT: u16 = 5555;

/// The port of the TCP proxy on every server, unless told otherwise.
pub const TCP_PROXY_PORT: u16 = 5556;

/// Where a tunnel is to be had.
#[derive(Debug)]
pub enum Lookup<'a, C> {
    /// It is open here, under this identifier.
    Here(TunnelId, &'a Tunnel<C>),
    /// It is not open here; other servers are to be asked.
    AskPeers(PeerQuery),
}

/// Why a name could not be reserved.
#[derive(Debug, Clone, Copy, PartialEq, Eq, Structural)]
pub enum RegistryError {
    /// The subdomain is taken.
    SubdomainConflict,
    /// The port is taken.
    PortConflict(u16),
    /// The port is not one that may be asked for.
    PortOutOfRange(u16),
    /// Every port that was drawn is taken.
    PortExhausted,
}

/// Where the streams of a tunnel go.
#[derive(Debug)]
pub enum TunnelConnection<C> {
    /// To a client that is connected here.
    Local(C),
    /// To another server.
    Remote(PeerAddr),
}

/// An open tunnel, with the traffic that it has carried.
#[derive(Debug)]
pub struct Tunnel<C> {
    /// Where its streams go.
    pub connection: TunnelConnection<C>,
    /// Bytes that came from the client.
    pub read_bytes: usize,
    /// Bytes that went to the client.
    pub written_bytes: usize,
}

/// The names that are taken, and by which tunnel.
struct NameTable {
    subdomains: StringHashMap<u128>,
    ports: HashMap<u16, u128>,
}

impl View for NameTable {
    type V = Map<NameView, u128>;

    closed spec fn view(&self) -> Map<NameView, u128> {
        Map::new(
            |n: NameView|
                match n {
                    NameView::Subdomain(s) => self.subdomains@.contains_key(s),
                    NameView::PortNumber(p) => self.ports@.contains_key(p),
                },
            |n: NameView|
                match n {
                    NameView::Subdomain(s) => self.subdomains@[s],
                    NameView::PortNumber(p) => self.ports@[p],
                },
        )
    }
}

impl NameTable {
    fn new() -> (table: NameTable)
        ensures
            table@ == Map::<NameView, u128>::empty(),
    {
        let table = NameTable { subdomains: StringHashMap::new(), ports: HashMap::new() };
        proof {
            assert(table@ =~= Map::<NameView, u128>::empty());
        }
        table
    }

    fn get(&self, name: &TunnelName) -> (id: Option<u128>)
        ensures
            id == (if self@.contains_key(name@) {
                Some(self@[name@])
            } else {
                None
            }),
    {
        match name {
            TunnelName::Subdomain(s) => match self.subdomains.get(s.as_str()) {
                Some(id) => Some(*id),
                None => None,
            },
            TunnelName::PortNumber(p) => match self.ports.get(p) {
                Some(id) => Some(*id),
                None => None,
            },
        }
    }

    fn insert(&mut self, name: &TunnelName, id: u128)
        ensures
            final(self)@ == old(self)@.insert(name@, id),
    {
        match name {
            TunnelName::Subdomain(s) => {
                self.subdomains.insert(s.clone(), id);
            },
            TunnelName::PortNumber(p) => {
                self.ports.insert(*p, id);
            },
        }
        proof {
            assert(self@ =~= old(self)@.insert(name@, id));
        }
    }

    fn remove(&mut self, name: &TunnelName)
        ensures
            final(self)@ == old(self)@.remove(name@),
    {
        match name {
            TunnelName::Subdomain(s) => {
                self.subdomains.remove(s.as_str());
            },
            TunnelName::PortNumber(p) => {
                self.ports.remove(p);
            },
        }
        proof {
            assert(self@ =~= old(self)@.remove(name@));
        }
    }
}

/// What a registry holds.
#[verifier::reject_recursive_types(C)]
pub struct RegistryView<C> {
    /// The open tunnels by identifier, each with its name.
    pub tunnels: Map<u128, (Tunnel<C>, NameView)>,
    /// The taken names, each with the identifier that took it.
    pub names: Map<NameView, u128>,
    /// The port of the HTTP proxy on every server.
    pub http_proxy_port: u16,
    /// The port of the TCP proxy on every server.
    pub tcp_proxy_port: u16,
}

impl<C> RegistryView<C> {
    /// A registry without tunnels and names.
    pub open spec fn empty(http_proxy_port: u16, tcp_proxy_port: u16) -> RegistryView<C> {
        RegistryView {
            tunnels: Map::empty(),
            names: Map::empty(),
            http_proxy_port,
            tcp_proxy_port,
        }
    }

    /// Whether a name is taken.
    pub open spec fn taken(self, name: NameView) -> bool {
        self.names.contains_key(name)
    }

    /// The registry after an identifier has taken a name.
    pub open spec fn reserve(self, name: NameView, id: u128) -> RegistryView<C> {
        RegistryView { names: self.names.insert(name, id), ..self }
    }

    /// The registry after a name has been given up.
    pub open spec fn release(self, name: NameView) -> RegistryView<C> {
        RegistryView { names: self.names.remove(name), ..self }
    }

    /// The registry after a tunnel has been opened.
    pub open spec fn attach(self, id: u128, tunnel: Tunnel<C>, name: NameView) -> RegistryView<C> {
        RegistryView { tunnels: self.tunnels.insert(id, (tunnel, name)), ..self }
    }

    /// The registry after a tunnel has been closed, which also gives up its
    /// name; as it was where no such tunnel is open.
    pub open spec fn detach(self, id: u128) -> RegistryView<C> {
        if self.tunnels.contains_key(id) {
            RegistryView {
                tunnels: self.tunnels.remove(id),
                names: self.names.remove(self.tunnels[id].1),
                ..self
            }
        } else {
            self
        }
    }

    /// The open tunnel that is reached under a name.
    pub open spec fn find(self, name: NameView) -> Option<Tunnel<C>> {
        if self.names.contains_key(name) && self.tunnels.contains_key(self.names[name]) {
            Some(self.tunnels[self.names[name]].0)
        } else {
            None
        }
    }

    /// What other servers are asked for a name that is not found here: they take
    /// the traffic of subdomains at their HTTP proxy, that of ports at their TCP
    /// proxy.
    pub open spec fn peer_query(self, name: NameView) -> PeerQueryView {
        PeerQueryView {
            name,
            proxy_port: match name {
                NameView::Subdomain(_) => self.http_proxy_port,
                NameView::PortNumber(_) => self.tcp_proxy_port,
            },
        }
    }

    /// The tunnel to which the traffic for a name goes, given the other servers
    /// and how they answer: the one that is open here, or else the first of the
    /// other servers that has it.
    pub open spec fn route(
        self,
        name: NameView,
        peers: Seq<Peer>,
        statuses: Seq<Option<u16>>,
    ) -> Option<Tunnel<C>> {
        match self.find(name) {
            Some(tunnel) => Some(tunnel),
            None => match search_outcome(self.peer_query(name).among(peers), statuses) {
                Some(addr) => Some(Tunnel::relaying(addr)),
                None => None,
            },
        }
    }

    /// The registry after a tunnel has carried some more bytes; as it was where
    /// no such tunnel is open.
    pub open spec fn carry(self, id: u128, read: usize, written: usize) -> RegistryView<C> {
        if self.tunnels.contains_key(id) {
            let (tunnel, name) = self.tunnels[id];
            RegistryView {
                tunnels: self.tunnels.insert(
                    id,
                    (
                        Tunnel {
                            connection: tunnel.connection,
                            read_bytes: wrapped_sum(tunnel.read_bytes, read),
                            written_bytes: wrapped_sum(tunnel.written_bytes, written),
                        },
                        name,
                    ),
                ),
                ..self
            }
        } else {
            self
        }
    }

    /// Whether every open tunnel holds its name.
    pub open spec fn consistent(self) -> bool {
        forall|id: u128| #[trigger]
            self.tunnels.contains_key(id) ==> self.names.contains_key(self.tunnels[id].1)
                && self.names[self.tunnels[id].1] == id
    }
}

/// The sum of two counts, which starts again at zero past the largest count.
pub open spec fn wrapped_sum(a: usize, b: usize) -> usize {
    if a + b > usize::MAX {
        (a + b - usize::MAX - 1) as usize
    } else {
        (a + b) as usize
    }
}

/// The name that a request for an HTTP tunnel asks for: the given subdomain, or
/// else the identifier of the tunnel.
pub open spec fn requested_subdomain(name: Option<Seq<char>>, id: u128) -> NameView {
    match name {
        Some(s) => NameView::Subdomain(s),
        None => NameView::Subdomain(id_text(id)),
    }
}

/// Whether a port is one of those that are handed out at random.
pub open spec fn in_port_range(port: u16) -> bool {
    PORT_RANGE_START <= port < PORT_RANGE_END
}

/// Whether a port is one of those that may be asked for.
pub open spec fn may_request(port: u16) -> bool {
    PORT_RANGE_START <= port <= PORT_RANGE_END
}

/// What a reservation is.
pub struct EntryView {
    /// The identifier that holds the name.
    pub id: u128,
    /// The name.
    pub name: NameView,
    /// Whether a tunnel has been opened under the name.
    pub persisted: bool,
}

/// The hold of a tunnel on its name, from the request for it to the end of the
/// connection.
#[derive(Debug)]
pub struct TunnelEntry {
    tun_id: TunnelId,
    name: TunnelName,
    persisted: bool,
}

impl View for TunnelEntry {
    type V = EntryView;

    closed spec fn view(&self) -> EntryView {
        EntryView { id: self.tun_id@, name: self.name@, persisted: self.persisted }
    }
}

/// What is told about an open tunnel.
#[derive(Debug)]
pub struct TunnelMetadata {
    /// Its identifier.
    pub id: TunnelId,
    /// Its name.
    pub name: TunnelName,
    /// Bytes that came from the client.
    pub read_bytes: usize,
    /// Bytes that went to the client.
    pub written_bytes: usize,
}

impl TunnelMetadata {
    /// Whether this is what there is to tell about an open tunnel.
    pub open spec fn describes<C>(self, id: u128, tunnel: Tunnel<C>, name: NameView) -> bool {
        &&& self.id@ == id
        &&& self.name@ == name
        &&& self.read_bytes == tunnel.read_bytes
        &&& self.written_bytes == tunnel.written_bytes
    }
}

/// The open tunnels and the taken names of one server.
#[verifier::reject_recursive_types(C)]
pub struct Tunnels<C> {
    tunnels: HashMap<u128, (Tunnel<C>, TunnelName)>,
    names: NameTable,
    http_proxy_port: u16,
    tcp_proxy_port: u16,
}

impl<C> View for Tunnels<C> {
    type V = RegistryView<C>;

    closed spec fn view(&self) -> RegistryView<C> {
        RegistryView {
            tunnels: self.tunnels@.map_values(|t: (Tunnel<C>, TunnelName)| (t.0, t.1@)),
            names: self.names@,
            http_proxy_port: self.http_proxy_port,
            tcp_proxy_port: self.tcp_proxy_port,
        }
    }
}

/// `rand`'s `gen_range` on the thread's generator draws a number from a
/// half-open range, and panics where the range is empty; which number comes is
/// left open.
#[verifier::external_body]
fn random_port(low: u16, high: u16) -> (port: u16)
    requires
        low < high,
    ensures
        low <= port < high,
{
    rand::Rng::gen_range(&mut rand::thread_rng(), low..high)
}

/// Draws as many ports as are tried before giving up.
fn draw_ports() -> (draws: Vec<u16>)
    ensures
        port_draws(draws@),
{
    let mut draws: Vec<u16> = Vec::new();
    while draws.len() < MAX_PORT_RETRIES
        invariant
            draws.len() <= MAX_PORT_RETRIES,
            forall|i: int| 0 <= i < draws.len() ==> in_port_range(#[trigger] draws@[i]),
        decreases MAX_PORT_RETRIES - draws.len(),
    {
        draws.push(random_port(PORT_RANGE_START, PORT_RANGE_END));
    }
    draws
}

impl<C> Tunnels<C> {
    /// An empty registry, with the usual proxy ports.
    pub fn new() -> (tuns: Tunnels<C>)
        ensures
            tuns@ == RegistryView::<C>::empty(HTTP_PROXY_PORT, TCP_PROXY_PORT),
    {
        Tunnels::with_peer_proxy_ports(HTTP_PROXY_PORT, TCP_PROXY_PORT)
    }

    /// An empty registry, with the proxy ports that the other servers use.
    pub fn with_peer_proxy_ports(http_proxy_port: u16, tcp_proxy_port: u16) -> (tuns: Tunnels<C>)
        ensures
            tuns@ == RegistryView::<C>::empty(http_proxy_port, tcp_proxy_port),
    {
        let tuns = Tunnels {
            tunnels: HashMap::new(),
            names: NameTable::new(),
            http_proxy_port,
            tcp_proxy_port,
        };
        proof {
            assert(tuns@.tunnels =~= Map::<u128, (Tunnel<C>, NameView)>::empty());
        }
        tuns
    }

    /// Reserves a subdomain for an identifier: the given one, or else the
    /// identifier itself.
    pub fn reserve_subdomain(&mut self, name: Option<String>, tun_id: TunnelId) -> (entry: Result<
        TunnelEntry,
        RegistryError,
    >)
        ensures
            ({
                let wanted = requested_subdomain(opt_text(name), tun_id@);
                match entry {
                    Ok(e) => {
                        &&& !old(self)@.taken(wanted)
                        &&& final(self)@ == old(self)@.reserve(wanted, tun_id@)
                        &&& e@ == (EntryView { id: tun_id@, name: wanted, persisted: false })
                    },
                    Err(err) => {
                        &&& old(self)@.taken(wanted)
                        &&& final(self)@ == old(self)@
                        &&& err == RegistryError::SubdomainConflict
                    },
                }
            }),
    {
        let name = match name {
            Some(s) => TunnelName::Subdomain(s),
            None => TunnelName::Subdomain(tun_id.to_text()),
        };
        if self.names.get(&name).is_some() {
            return Err(RegistryError::SubdomainConflict);
        }
        self.names.insert(&name, tun_id.value());
        Ok(TunnelEntry { tun_id, name, persisted: false })
    }

    /// Reserves a subdomain for a new tunnel: the given one, or else its
    /// identifier.
    pub fn new_http_tunnel(&mut self, name: Option<String>) -> (entry: Result<
        TunnelEntry,
        RegistryError,
    >)
        ensures
            match entry {
                Ok(e) => {
                    let wanted = requested_subdomain(opt_text(name), e@.id);
                    &&& is_random_id(e@.id)
                    &&& !old(self)@.taken(wanted)
                    &&& final(self)@ == old(self)@.reserve(wanted, e@.id)
                    &&& e@ == (EntryView { id: e@.id, name: wanted, persisted: false })
                },
                Err(err) => {
                    &&& exists|id: u128|
                        is_random_id(id) && old(self)@.taken(
                            #[trigger] requested_subdomain(opt_text(name), id),
                        )
                    &&& final(self)@ == old(self)@
                    &&& err == RegistryError::SubdomainConflict
                },
            },
    {
        self.reserve_subdomain(name, TunnelId::new())
    }

    /// Takes a port for an identifier, if it is free.
    pub fn claim_port(&mut self, port: u16, tun_id: TunnelId) -> (claimed: bool)
        ensures
            claimed == !old(self)@.taken(NameView::PortNumber(port)),
            final(self)@ == (if claimed {
                old(self)@.reserve(NameView::PortNumber(port), tun_id@)
            } else {
                old(self)@
            }),
    {
        let name = TunnelName::PortNumber(port);
        if self.names.get(&name).is_some() {
            return false;
        }
        self.names.insert(&name, tun_id.value());
        true
    }

    /// Reserves a port for an identifier: the given one, if it may be asked for,
    /// or else one drawn at random.
    pub fn reserve_port(&mut self, port: Option<u16>, tun_id: TunnelId) -> (reserved: Result<
        (TunnelName, u16),
        RegistryError,
    >)
        ensures
            port_reservation(old(self)@, final(self)@, port, tun_id@, match reserved {
                Ok((name, port)) => Ok((name@, port)),
                Err(err) => Err(err),
            }),
    {
        match port {
            Some(port) => {
                if port < PORT_RANGE_START || port > PORT_RANGE_END {
                    Err(RegistryError::PortOutOfRange(port))
                } else if self.claim_port(port, tun_id) {
                    Ok((TunnelName::PortNumber(port), port))
                } else {
                    Err(RegistryError::PortConflict(port))
                }
            },
            None => {
                let draws = draw_ports();
                match self.claim_first_free(&draws, tun_id) {
                    Some(drawn) => Ok((TunnelName::PortNumber(drawn), drawn)),
                    None => Err(RegistryError::PortExhausted),
                }
            },
        }
    }

    /// Takes the first of some ports that is free for an identifier.
    pub fn claim_first_free(&mut self, draws: &Vec<u16>, tun_id: TunnelId) -> (claimed: Option<u16>)
        ensures
            claimed == first_free(old(self)@, draws@),
            final(self)@ == (match claimed {
                Some(p) => old(self)@.reserve(NameView::PortNumber(p), tun_id@),
                None => old(self)@,
            }),
    {
        let mut i: usize = 0;
        proof {
            assert(draws@.skip(0) =~= draws@);
        }
        while i < draws.len()
            invariant
                i <= draws.len(),
                self@ == old(self)@,
                first_free(old(self)@, draws@) == first_free(old(self)@, draws@.skip(i as int)),
            decreases draws.len() - i,
        {
            let port: u16 = draws[i];
            proof {
                assert(draws@.skip(i as int)[0] == port);
                assert(draws@.skip(i as int).skip(1) =~= draws@.skip(i + 1));
            }
            if self.claim_port(port, tun_id) {
                return Some(port);
            }
            i += 1;
        }
        None
    }

    /// Reserves a port for a new tunnel whose streams come through the shared
    /// TCP proxy.
    pub fn new_tcp_proxy_tunnel(&mut self, port: Option<u16>) -> (entry: Result<
        (TunnelEntry, u16),
        RegistryError,
    >)
        ensures
            match entry {
                Ok((e, p)) => {
                    &&& is_random_id(e@.id)
                    &&& port_reservation(old(self)@, final(self)@, port, e@.id, Ok((e@.name, p)))
                    &&& !e@.persisted
                },
                Err(err) => exists|id: u128|
                    is_random_id(id) && #[trigger] port_reservation(
                        old(self)@,
                        final(self)@,
                        port,
                        id,
                        Err(err),
                    ),
            },
    {
        let tun_id = TunnelId::new();
        match self.reserve_port(port, tun_id) {
            Ok((name, port)) => Ok((TunnelEntry { tun_id, name, persisted: false }, port)),
            Err(err) => Err(err),
        }
    }

    /// Reserves a port for a new tunnel that listens on that port itself.
    pub fn new_tcp_tunnel(&mut self, port: Option<u16>) -> (reserved: Result<
        (TunnelId, u16),
        RegistryError,
    >)
        ensures
            match reserved {
                Ok((id, p)) => {
                    &&& is_random_id(id@)
                    &&& port_reservation(
                        old(self)@,
                        final(self)@,
                        port,
                        id@,
                        Ok((NameView::PortNumber(p), p)),
                    )
                },
                Err(err) => exists|id: u128|
                    is_random_id(id) && #[trigger] port_reservation(
                        old(self)@,
                        final(self)@,
                        port,
                        id,
                        Err(err),
                    ),
            },
    {
        let tun_id = TunnelId::new();
        match self.reserve_port(port, tun_id) {
            Ok((_, port)) => Ok((tun_id, port)),
            Err(err) => Err(err),
        }
    }

    /// The open tunnel that is reached here under a name.
    pub fn local_tunnel(&self, name: &TunnelName) -> (tunnel: Option<&Tunnel<C>>)
        ensures
            match tunnel {
                Some(t) => self@.find(name@) == Some(*t),
                None => self@.find(name@) is None,
            },
    {
        match self.names.get(name) {
            Some(id) => match self.tunnels.get(&id) {
                Some(t) => Some(&t.0),
                None => None,
            },
            None => None,
        }
    }

    /// The identifier that holds a name here.
    pub fn id_for_name(&self, name: &TunnelName) -> (id: Option<TunnelId>)
        ensures
            match id {
                Some(i) => self@.taken(name@) && self@.names[name@] == i@,
                None => !self@.taken(name@),
            },
    {
        match self.names.get(name) {
            Some(id) => Some(TunnelId::from_value(id)),
            None => None,
        }
    }

    /// Looks for a tunnel: here first, and only where it is not open here, among
    /// other servers.
    pub fn tunnel_for_name(&self, name: &TunnelName) -> (found: Lookup<'_, C>)
        ensures
            match found {
                Lookup::Here(id, tunnel) => {
                    &&& self@.find(name@) == Some(*tunnel)
                    &&& self@.names[name@] == id@
                },
                Lookup::AskPeers(query) => {
                    &&& self@.find(name@) is None
                    &&& query@ == self@.peer_query(name@)
                },
            },
    {
        match (self.id_for_name(name), self.local_tunnel(name)) {
            (Some(id), Some(tunnel)) => Lookup::Here(id, tunnel),
            _ => Lookup::AskPeers(
                PeerQuery::new(name, self.http_proxy_port, self.tcp_proxy_port),
            ),
        }
    }

    /// Counts what a read brought from the client of a tunnel: the room that it
    /// took up in the reader's buffer.
    pub fn record_read(&mut self, tun_id: TunnelId, room_before: usize, room_after: usize)
        requires
            room_after <= room_before,
        ensures
            final(self)@ == old(self)@.carry(tun_id@, (room_before - room_after) as usize, 0),
    {
        self.record_bytes(tun_id, room_before - room_after, 0)
    }

    /// Counts bytes that went to the client of a tunnel.
    pub fn record_written(&mut self, tun_id: TunnelId, written: usize)
        ensures
            final(self)@ == old(self)@.carry(tun_id@, 0, written),
    {
        self.record_bytes(tun_id, 0, written)
    }

    fn record_bytes(&mut self, tun_id: TunnelId, read: usize, written: usize)
        ensures
            final(self)@ == old(self)@.carry(tun_id@, read, written),
    {
        match self.tunnels.remove(&tun_id.value()) {
            Some((tunnel, name)) => {
                let counted = Tunnel {
                    connection: tunnel.connection,
                    read_bytes: tunnel.read_bytes.wrapping_add(read),
                    written_bytes: tunnel.written_bytes.wrapping_add(written),
                };
                self.tunnels.insert(tun_id.value(), (counted, name));
            },
            None => {},
        }
        proof {
            assert(self@.tunnels =~= old(self)@.carry(tun_id@, read, written).tunnels);
        }
    }

    /// Closes a tunnel and gives up its name.
    pub fn remove_tunnel(&mut self, tun_id: TunnelId)
        ensures
            final(self)@ == old(self)@.detach(tun_id@),
    {
        match self.tunnels.remove(&tun_id.value()) {
            Some((_, name)) => {
                self.names.remove(&name);
            },
            None => {},
        }
        proof {
            assert(self@.tunnels =~= old(self)@.detach(tun_id@).tunnels);
        }
    }
}

impl<C> Tunnels<C> {
    /// What there is to tell about the open tunnels, each once, in no
    /// particular order.
    pub fn list_tunnels_metadata(&self) -> (list: Vec<TunnelMetadata>)
        ensures
            lists_tunnels(list@, self@.tunnels),
    {
        let mut list: Vec<TunnelMetadata> = Vec::new();
        let ghost tunnels = self.tunnels@;
        for entry in it: self.tunnels.iter()
            invariant
                tunnels == self.tunnels@,
                it.seq().no_duplicates(),
                forall|i: int|
                    0 <= i < it.seq().len() ==> tunnels.contains_key(*(#[trigger] it.seq()[i]).0)
                        && tunnels[*it.seq()[i].0] == *it.seq()[i].1,
                forall|k: u128| #[trigger]
                    tunnels.contains_key(k) ==> it.seq().contains((&k, &tunnels[k])),
                list.len() == it.index(),
                forall|i: int|
                    #![trigger it.seq()[i]]
                    #![trigger list@[i]]
                    0 <= i < list.len() ==> list@[i].id@ == *it.seq()[i].0,
                forall|i: int|
                    0 <= i < list.len() ==> tunnels.contains_key((#[trigger] list@[i]).id@)
                        && list@[i].describes(
                        list@[i].id@,
                        tunnels[list@[i].id@].0,
                        tunnels[list@[i].id@].1@,
                    ),
        {
            let (id, (tunnel, name)) = entry;
            list.push(
                TunnelMetadata {
                    id: TunnelId::from_value(*id),
                    name: name.clone(),
                    read_bytes: tunnel.read_bytes,
                    written_bytes: tunnel.written_bytes,
                },
            );
        }
        proof {
            let view = self@.tunnels;
            assert forall|i: int, j: int| 0 <= i < j < list@.len() implies (#[trigger] list@[i]).id@
                != (#[trigger] list@[j]).id@ by {}
            assert forall|id: u128| #[trigger] view.contains_key(id) implies exists|i: int|
                0 <= i < list@.len() && (#[trigger] list@[i]).id@ == id by {
                assert(tunnels.contains_key(id));
            }
        }
        list
    }
}

impl<C> Default for Tunnels<C> {
    fn default() -> (tuns: Tunnels<C>)
        ensures
            tuns@ == RegistryView::<C>::empty(HTTP_PROXY_PORT, TCP_PROXY_PORT),
    {
        Tunnels::new()
    }
}

impl<C> Tunnel<C> {
    /// The tunnel to a client that is connected here, before any traffic.
    pub open spec fn serving(client: C) -> Tunnel<C> {
        Tunnel { connection: TunnelConnection::Local(client), read_bytes: 0, written_bytes: 0 }
    }

    /// The tunnel to a client that is connected here.
    pub fn local(client: C) -> (tunnel: Tunnel<C>)
        ensures
            tunnel == Tunnel::serving(client),
    {
        Tunnel { connection: TunnelConnection::Local(client), read_bytes: 0, written_bytes: 0 }
    }

    /// The tunnel to another server, before any traffic.
    pub open spec fn relaying(addr: PeerAddr) -> Tunnel<C> {
        Tunnel { connection: TunnelConnection::Remote(addr), read_bytes: 0, written_bytes: 0 }
    }

    /// The tunnel to another server.
    pub fn remote(addr: PeerAddr) -> (tunnel: Tunnel<C>)
        ensures
            tunnel == Tunnel::<C>::relaying(addr),
    {
        Tunnel { connection: TunnelConnection::Remote(addr), read_bytes: 0, written_bytes: 0 }
    }
}

impl TunnelEntry {
    /// The identifier that holds the name.
    pub fn id(&self) -> (id: TunnelId)
        ensures
            id@ == self@.id,
    {
        self.tun_id
    }

    /// The name.
    pub fn name(&self) -> (name: &TunnelName)
        ensures
            name@ == self@.name,
    {
        &self.name
    }

    /// Opens a tunnel under the name.
    pub fn add_tunnel<C>(&mut self, tuns: &mut Tunnels<C>, tunnel: Tunnel<C>)
        ensures
            final(tuns)@ == old(tuns)@.attach(old(self)@.id, tunnel, old(self)@.name),
            final(self)@ == (EntryView { persisted: true, ..old(self)@ }),
    {
        tuns.tunnels.insert(self.tun_id.value(), (tunnel, self.name.clone()));
        self.persisted = true;
        proof {
            let attached = old(tuns)@.attach(old(self)@.id, tunnel, old(self)@.name);
            assert(tuns@.tunnels =~= attached.tunnels);
        }
    }

    /// Ends the hold: gives up the name, unless a tunnel has been opened under
    /// it.
    pub fn release<C>(&self, tuns: &mut Tunnels<C>)
        ensures
            final(tuns)@ == (if self@.persisted {
                old(tuns)@
            } else {
                old(tuns)@.release(self@.name)
            }),
    {
        if !self.persisted {
            tuns.names.remove(&self.name);
        }
    }
}

impl RegistryError {
    /// What the error says.
    pub open spec fn text(self) -> Seq<char> {
        match self {
            RegistryError::SubdomainConflict => "subdomain already in use"@,
            RegistryError::PortConflict(port) => "port already in use: "@ + decimal(port as nat),
            RegistryError::PortOutOfRange(port) => "port out of range: "@ + decimal(port as nat),
            RegistryError::PortExhausted => "no available port found after 100 attempts"@,
        }
    }

    /// What the error says.
    pub fn message(&self) -> (text: String)
        ensures
            text@ == self.text(),
    {
        match self {
            RegistryError::SubdomainConflict => "subdomain already in use".to_owned(),
            RegistryError::PortConflict(port) => {
                let mut text: String = "port already in use: ".to_owned();
                text.append(decimal_text(*port).as_str());
                text
            },
            RegistryError::PortOutOfRange(port) => {
                let mut text: String = "port out of range: ".to_owned();
                text.append(decimal_text(*port).as_str());
                text
            },
            RegistryError::PortExhausted => "no available port found after 100 attempts".to_owned(),
        }
    }
}

/// Whether a list tells of each of some open tunnels, of each once, and of
/// nothing else.
pub open spec fn lists_tunnels<C>(
    list: Seq<TunnelMetadata>,
    tunnels: Map<u128, (Tunnel<C>, NameView)>,
) -> bool {
    &&& forall|i: int|
        0 <= i < list.len() ==> tunnels.contains_key((#[trigger] list[i]).id@)
            && list[i].describes(list[i].id@, tunnels[list[i].id@].0, tunnels[list[i].id@].1)
    &&& forall|i: int, j: int|
        0 <= i < j < list.len() ==> (#[trigger] list[i]).id@ != (#[trigger] list[j]).id@
    &&& forall|id: u128| #[trigger]
        tunnels.contains_key(id) ==> exists|i: int|
            0 <= i < list.len() && (#[trigger] list[i]).id@ == id
}

/// Whether some ports are what one series of draws may give.
pub open spec fn port_draws(draws: Seq<u16>) -> bool {
    &&& draws.len() == MAX_PORT_RETRIES
    &&& forall|i: int| 0 <= i < draws.len() ==> in_port_range(#[trigger] draws[i])
}

/// The first of some ports that is free.
pub open spec fn first_free<C>(registry: RegistryView<C>, draws: Seq<u16>) -> Option<u16>
    decreases draws.len(),
{
    if draws.len() == 0 {
        None
    } else if !registry.taken(NameView::PortNumber(draws[0])) {
        Some(draws[0])
    } else {
        first_free(registry, draws.skip(1))
    }
}

/// What comes of a request to reserve one of some drawn ports for an identifier:
/// the first free one is taken.
pub open spec fn drawn_reservation<C>(
    before: RegistryView<C>,
    after: RegistryView<C>,
    id: u128,
    reserved: Result<(NameView, u16), RegistryError>,
    draws: Seq<u16>,
) -> bool {
    match first_free(before, draws) {
        Some(p) => {
            let name = NameView::PortNumber(p);
            after == before.reserve(name, id) && reserved == Ok::<(NameView, u16), RegistryError>(
                (name, p),
            )
        },
        None => after == before && reserved == Err::<(NameView, u16), RegistryError>(
            RegistryError::PortExhausted,
        ),
    }
}

/// What comes of a request to reserve a port for an identifier. A given port is
/// taken if it may be asked for and is free. Without one, ports of the range are
/// drawn, and the first free one is taken.
pub open spec fn port_reservation<C>(
    before: RegistryView<C>,
    after: RegistryView<C>,
    port: Option<u16>,
    id: u128,
    reserved: Result<(NameView, u16), RegistryError>,
) -> bool {
    match port {
        Some(wanted) => {
            let name = NameView::PortNumber(wanted);
            if !may_request(wanted) {
                after == before && reserved == Err::<(NameView, u16), RegistryError>(
                    RegistryError::PortOutOfRange(wanted),
                )
            } else if before.taken(name) {
                after == before && reserved == Err::<(NameView, u16), RegistryError>(
                    RegistryError::PortConflict(wanted),
                )
            } else {
                after == before.reserve(name, id) && reserved == Ok::<
                    (NameView, u16),
                    RegistryError,
                >((name, wanted))
            }
        },
        None => exists|draws: Seq<u16>| #[trigger]
            port_draws(draws) && drawn_reservation(before, after, id, reserved, draws),
    }
}

/// A series of draws finds a port exactly where one of its ports is free, and
/// then it finds a free one of them.
pub proof fn first_free_finds<C>(registry: RegistryView<C>, draws: Seq<u16>)
    ensures
        match first_free(registry, draws) {
            Some(p) => draws.contains(p) && !registry.taken(NameView::PortNumber(p)),
            None => forall|i: int|
                0 <= i < draws.len() ==> registry.taken(NameView::PortNumber(#[trigger] draws[i])),
        },
    decreases draws.len(),
{
    if draws.len() > 0 {
        let rest = draws.skip(1);
        first_free_finds(registry, rest);
        match first_free(registry, rest) {
            Some(p) => {
                if registry.taken(NameView::PortNumber(draws[0])) {
                    let k = choose|k: int| 0 <= k < rest.len() && rest[k] == p;
                    assert(draws[k + 1] == p);
                }
            },
            None => {
                assert forall|i: int| 0 <= i < draws.len() && registry.taken(
                    NameView::PortNumber(draws[0]),
                ) implies registry.taken(NameView::PortNumber(#[trigger] draws[i])) by {
                    if i > 0 {
                        assert(rest[i - 1] == draws[i]);
                    }
                }
            },
        }
    }
}

/// A port that is handed out was free, is the one that was asked for if one was,
/// and is of the range either way; a request without a port is never refused
/// while the whole range is free, and always where the whole range is taken.
/// Whatever is refused changes nothing.
pub proof fn port_reservation_is_fair<C>(
    before: RegistryView<C>,
    after: RegistryView<C>,
    port: Option<u16>,
    id: u128,
    reserved: Result<(NameView, u16), RegistryError>,
)
    requires
        port_reservation(before, after, port, id, reserved),
    ensures
        match reserved {
            Ok((name, p)) => {
                &&& name == NameView::PortNumber(p)
                &&& !before.taken(name)
                &&& after == before.reserve(name, id)
                &&& may_request(p)
                &&& match port {
                    Some(wanted) => p == wanted,
                    None => in_port_range(p),
                }
            },
            Err(_) => after == before,
        },
        port is None && (forall|p: u16| #[trigger]
            in_port_range(p) ==> !before.taken(NameView::PortNumber(p))) ==> reserved is Ok,
        port is None && (forall|p: u16| #[trigger]
            in_port_range(p) ==> before.taken(NameView::PortNumber(p))) ==> reserved is Err,
{
    if port is None {
        let draws = choose|draws: Seq<u16>| #[trigger]
            port_draws(draws) && drawn_reservation(before, after, id, reserved, draws);
        first_free_finds(before, draws);
        assert(in_port_range(draws[0]));
    }
}

} // verus!
