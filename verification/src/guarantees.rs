//! What the service guarantees, in terms of what goes in and what comes out.
use vstd::prelude::*;
use vstd::utf8::*;

use crate::api::{
    api_route, greeting_reply, http_outcome, requested_port, tcp_outcome, AnswerView, ApiRoute,
    InvalidHeader,
};
use crate::client::{BuilderView, ListenError, TunnelType};
use crate::config::{first_of, CONNECTION_PORT, METADATA_PORT};
use crate::dial::{dial_run, Delay, Dial, DialEvent, DialStep, TunnelError};
use crate::headers::{field_text, header_safe};
use crate::laws::{carry_all, total, traffic_adds_up};
use crate::name::NameView;
use crate::peers::{
    has_tunnel, no_peer_no_tunnel, peer_url, search_outcome, the_first_peer_wins, Peer, PeerAddr,
    PeerSearchView,
};
use crate::proxy::{
    accept_next, header_block, host_among, host_in, http_next, is_unfinished, parsed_headers,
    route_host, starts_with_empty_line, starts_with_request, AcceptStep, FieldLine, HostEvent,
    HostPeekView, HttpStepView, PeekError, PEEK_SIZE, PEEK_TIMEOUT,
};
use crate::proxy_protocol::{proxied_port, signature, ProxyProtocolError};
use crate::reconnect::{goes_on, RETRY_DELAY};
use crate::reply::ReplyView;
use crate::reverse_proxy::{target_uri, with_host, RewriteError};
use crate::session::{SessionView, INTERNAL_ERROR, NO_ERROR, PING_INTERVAL, PING_TIMEOUT};
use crate::stream::{
    delivered, read_failure, write_failure, ProtocolError, ReadStep, ResetEvent, StreamError,
    StreamFault, CANCEL, STREAM_CLOSED,
};
use crate::text::{
    ascii_lower_text, blank, decimal, decimal_is_digits, decimal_reads_back, digits_value, is_digit,
    is_visible, is_white_space, label_before_dot, port_of, unsigned_part, visible_text,
};
use crate::tunnel::{
    first_free, first_free_finds, in_port_range, lists_tunnels, may_request, port_draws,
    port_reservation, EntryView, RegistryError, RegistryView, Tunnel, TunnelConnection,
    TunnelMetadata, HTTP_PROXY_PORT, TCP_PROXY_PORT,
};
use crate::tunnel_id::id_text;

verus! {

// ----- streams -----
/// A read makes progress and fits: it hands out exactly as many bytes as there
/// are unread ones and as there is room for, whichever is fewer. They are the
/// next ones in order, and the others are kept.
pub proof fn a_read_makes_progress(unread: Seq<u8>, room: nat)
    ensures
        ({
            let (out, left) = delivered(unread, room);
            &&& out + left == unread
            &&& out.len() <= room
            &&& out.len() <= unread.len()
            &&& out.len() == room || out.len() == unread.len()
            &&& unread.len() > 0 && room > 0 ==> out.len() > 0
        }),
{
    let (out, left) = delivered(unread, room);
    assert(out + left =~= unread);
}

/// Two reads hand out what one read with as much room would, in the same order.
pub proof fn reads_join(unread: Seq<u8>, first: nat, second: nat)
    ensures
        ({
            let (a, rest) = delivered(unread, first);
            let (b, left) = delivered(rest, second);
            delivered(unread, first + second) == (a + b, left)
        }),
{
    let (a, rest) = delivered(unread, first);
    let (b, left) = delivered(rest, second);
    let (both, end) = delivered(unread, first + second);
    assert(both =~= a + b);
    assert(end =~= left);
}

/// A read that meets a failure: a stream that was ended or given up (codes 0 and
/// 8) is at its end, a closed one (code 5) is a broken pipe, and everything else
/// is passed on as it is.
pub proof fn a_failed_read_tells_why<I, H>(code: u32, err: H, io: I)
    ensures
        read_failure::<I, H>(StreamFault::Io(io)) == ReadStep::<I, H>::Fail(StreamError::Io(io)),
        read_failure::<I, H>(StreamFault::Protocol(None, err)) == ReadStep::<I, H>::Fail(
            StreamError::Other(ProtocolError::Given(err)),
        ),
        read_failure::<I, H>(StreamFault::Protocol(Some(code), err)) is End <==> code == 0 || code
            == 8,
        read_failure::<I, H>(StreamFault::Protocol(Some(code), err)) == ReadStep::<I, H>::Fail(
            StreamError::BrokenPipe(Some(err)),
        ) <==> code == 5,
        code != 0 && code != 5 && code != 8 ==> read_failure::<I, H>(
            StreamFault::Protocol(Some(code), err),
        ) == ReadStep::<I, H>::Fail(StreamError::Other(ProtocolError::Given(err))),
{
}

/// A write that cannot go on: a stream that the peer ended with code 0, 5 or 8 is
/// a broken pipe, any other code is an error of its own, and a failure is passed
/// on as it is.
pub proof fn a_failed_write_tells_why<I, H>(code: u32, err: H, io: I, reason: Option<u32>)
    ensures
        write_failure::<I, H>(ResetEvent::Reset(code)) == (if code == 0 || code == 5 || code == 8 {
            StreamError::<I, H>::BrokenPipe(None)
        } else {
            StreamError::<I, H>::Other(ProtocolError::Code(code))
        }),
        write_failure::<I, H>(ResetEvent::Failed(StreamFault::Io(io))) == StreamError::<I, H>::Io(
            io,
        ),
        write_failure::<I, H>(ResetEvent::Failed(StreamFault::Protocol(reason, err)))
            == StreamError::<I, H>::Other(ProtocolError::Given(err)),
{
}

// ----- ports -----
/// The ports that may be asked for are exactly 20000 to 60000, and those that may
/// be drawn are exactly 20000 to 59999; a hundred are drawn before giving up.
pub proof fn the_port_range_is_whole(port: u16, draws: Seq<u16>)
    ensures
        may_request(port) <==> 20_000 <= port <= 60_000,
        in_port_range(port) <==> 20_000 <= port < 60_000,
        port_draws(draws) <==> draws.len() == 100 && forall|i: int|
            0 <= i < draws.len() ==> 20_000 <= #[trigger] draws[i] < 60_000,
{
    assert(forall|p: u16| #[trigger] in_port_range(p) <==> 20_000 <= p < 60_000);
    if draws.len() == 100 && forall|i: int|
        0 <= i < draws.len() ==> 20_000 <= #[trigger] draws[i] < 60_000 {
        assert forall|i: int| 0 <= i < draws.len() implies in_port_range(#[trigger] draws[i]) by {}
    }
    if port_draws(draws) {
        assert forall|i: int| 0 <= i < draws.len() implies 20_000 <= #[trigger] draws[i]
            < 60_000 by {
            assert(in_port_range(draws[i]));
        }
    }
}

/// A port that is asked for is reserved exactly where it is one of 20000 to 60000
/// and no one holds it; it is then held by whoever asked, and all else is as it
/// was. A port that someone holds is a conflict, any other one is out of range.
pub proof fn a_requested_port_is_reserved<C>(
    before: RegistryView<C>,
    after: RegistryView<C>,
    port: u16,
    id: u128,
    reserved: Result<(NameView, u16), RegistryError>,
)
    requires
        port_reservation(before, after, Some(port), id, reserved),
    ensures
        ({
            let name = NameView::PortNumber(port);
            let free = !before.names.contains_key(name);
            &&& 20_000 <= port <= 60_000 && free ==> {
                &&& reserved == Ok::<(NameView, u16), RegistryError>((name, port))
                &&& after.names == before.names.insert(name, id)
                &&& after.tunnels == before.tunnels
            }
            &&& 20_000 <= port <= 60_000 && !free ==> {
                &&& reserved == Err::<(NameView, u16), RegistryError>(
                    RegistryError::PortConflict(port),
                )
                &&& after == before
            }
            &&& port < 20_000 || port > 60_000 ==> {
                &&& reserved == Err::<(NameView, u16), RegistryError>(
                    RegistryError::PortOutOfRange(port),
                )
                &&& after == before
            }
        }),
{
}

/// A port that is not asked for is of 20000 to 59999, nobody held it, and whoever
/// asked holds it now. A request is refused only where a hundred ports of that
/// range are held, whichever they were.
pub proof fn a_drawn_port_is_reserved<C>(
    before: RegistryView<C>,
    after: RegistryView<C>,
    id: u128,
    reserved: Result<(NameView, u16), RegistryError>,
)
    requires
        port_reservation(before, after, None, id, reserved),
    ensures
        match reserved {
            Ok((name, port)) => {
                &&& 20_000 <= port < 60_000
                &&& name == NameView::PortNumber(port)
                &&& !before.names.contains_key(name)
                &&& after.names == before.names.insert(name, id)
                &&& after.tunnels == before.tunnels
            },
            Err(err) => {
                &&& err == RegistryError::PortExhausted
                &&& after == before
                &&& exists|draws: Seq<u16>| #[trigger]
                    draws.len() == 100 && forall|i: int|
                        0 <= i < 100 ==> 20_000 <= #[trigger] draws[i] < 60_000
                            && before.names.contains_key(NameView::PortNumber(draws[i]))
            },
        },
{
    let draws = choose|draws: Seq<u16>| #[trigger]
        port_draws(draws) && crate::tunnel::drawn_reservation(before, after, id, reserved, draws);
    the_port_range_is_whole(0, draws);
    first_free_finds(before, draws);
    match reserved {
        Ok((name, port)) => {
            let k = choose|k: int| 0 <= k < draws.len() && draws[k] == port;
            assert(20_000 <= draws[k] < 60_000);
        },
        Err(err) => {
            assert(draws.len() == 100);
            assert forall|i: int| 0 <= i < 100 implies 20_000 <= #[trigger] draws[i] < 60_000
                && before.names.contains_key(NameView::PortNumber(draws[i])) by {}
        },
    }
}

/// Of some drawn ports the first one that nobody holds is taken.
pub proof fn the_first_free_port_is_taken<C>(
    registry: RegistryView<C>,
    draws: Seq<u16>,
    k: int,
)
    requires
        0 <= k < draws.len(),
        !registry.names.contains_key(NameView::PortNumber(draws[k])),
        forall|i: int|
            0 <= i < k ==> registry.names.contains_key(NameView::PortNumber(#[trigger] draws[i])),
    ensures
        first_free(registry, draws) == Some(draws[k]),
    decreases k,
{
    if k > 0 {
        let rest = draws.skip(1);
        assert(registry.names.contains_key(NameView::PortNumber(draws[0])));
        assert(rest[k - 1] == draws[k]);
        assert forall|i: int| 0 <= i < k - 1 implies registry.names.contains_key(
            NameView::PortNumber(#[trigger] rest[i]),
        ) by {
            assert(rest[i] == draws[i + 1]);
        }
        the_first_free_port_is_taken(registry, rest, k - 1);
    }
}

/// A port that has been reserved is refused to the next one who asks, who leaves
/// everything as it is.
pub proof fn a_port_is_reserved_once<C>(
    before: RegistryView<C>,
    between: RegistryView<C>,
    after: RegistryView<C>,
    wanted: Option<u16>,
    first: u128,
    second: u128,
    name: NameView,
    port: u16,
    reserved: Result<(NameView, u16), RegistryError>,
)
    requires
        port_reservation(before, between, wanted, first, Ok((name, port))),
        port_reservation(between, after, Some(port), second, reserved),
    ensures
        reserved == Err::<(NameView, u16), RegistryError>(RegistryError::PortConflict(port)),
        after == between,
        between.names[NameView::PortNumber(port)] == first,
{
    match wanted {
        Some(p) => {
            a_requested_port_is_reserved(before, between, p, first, Ok((name, port)));
        },
        None => {
            a_drawn_port_is_reserved(before, between, first, Ok((name, port)));
        },
    }
    a_requested_port_is_reserved(between, after, port, second, reserved);
}

// ----- the registry -----
/// What each operation does to a name and to an identifier, its own and any
/// other.
pub proof fn operations_touch_only_their_own<C>(
    registry: RegistryView<C>,
    name: NameView,
    id: u128,
    tunnel: Tunnel<C>,
    n: NameView,
    i: u128,
)
    ensures
        registry.taken(n) <==> registry.names.contains_key(n),
        ({
            let after = registry.reserve(name, id);
            &&& after.tunnels == registry.tunnels
            &&& after.names.contains_key(n) <==> n == name || registry.names.contains_key(n)
            &&& after.names.contains_key(n) ==> after.names[n] == (if n == name {
                id
            } else {
                registry.names[n]
            })
        }),
        ({
            let after = registry.release(name);
            &&& after.tunnels == registry.tunnels
            &&& after.names.contains_key(n) <==> n != name && registry.names.contains_key(n)
            &&& after.names.contains_key(n) ==> after.names[n] == registry.names[n]
        }),
        ({
            let after = registry.attach(id, tunnel, name);
            &&& after.names == registry.names
            &&& after.tunnels.contains_key(i) <==> i == id || registry.tunnels.contains_key(i)
            &&& after.tunnels.contains_key(i) ==> after.tunnels[i] == (if i == id {
                (tunnel, name)
            } else {
                registry.tunnels[i]
            })
        }),
        ({
            let after = registry.detach(id);
            &&& after.tunnels.contains_key(i) <==> i != id && registry.tunnels.contains_key(i)
            &&& after.tunnels.contains_key(i) ==> after.tunnels[i] == registry.tunnels[i]
            &&& registry.tunnels.contains_key(id) ==> (after.names.contains_key(n) <==> n
                != registry.tunnels[id].1 && registry.names.contains_key(n))
            &&& !registry.tunnels.contains_key(id) ==> after.names == registry.names
            &&& after.names.contains_key(n) ==> after.names[n] == registry.names[n]
        }),
{
}

/// A tunnel is found under a name exactly where the name is taken and the
/// identifier that took it has a tunnel open; it is then that tunnel.
pub proof fn a_name_finds_its_tunnel<C>(registry: RegistryView<C>, name: NameView)
    ensures
        match registry.find(name) {
            Some(tunnel) => {
                &&& registry.names.contains_key(name)
                &&& registry.tunnels.contains_key(registry.names[name])
                &&& tunnel == registry.tunnels[registry.names[name]].0
            },
            None => !(registry.names.contains_key(name) && registry.tunnels.contains_key(
                registry.names[name],
            )),
        },
{
}

/// The end of a session frees its name and closes its tunnel, and touches no
/// other name and no other tunnel.
pub proof fn a_session_ends_alone<C>(
    registry: RegistryView<C>,
    entry: EntryView,
    n: NameView,
    i: u128,
)
    requires
        registry.names.contains_key(entry.name),
        registry.names[entry.name] == entry.id,
        entry.persisted ==> registry.tunnels.contains_key(entry.id),
        registry.tunnels.contains_key(entry.id) ==> registry.tunnels[entry.id].1 == entry.name,
    ensures
        ({
            let after = SessionView::Proxied(entry).end(registry);
            &&& after.names.contains_key(n) <==> n != entry.name && registry.names.contains_key(n)
            &&& after.names.contains_key(n) ==> after.names[n] == registry.names[n]
            &&& after.tunnels.contains_key(i) <==> i != entry.id && registry.tunnels.contains_key(i)
            &&& after.tunnels.contains_key(i) ==> after.tunnels[i] == registry.tunnels[i]
        }),
{
}

/// A client whose connection could not be taken over loses the name that was
/// reserved for it, and nothing else happens; once its tunnel has been opened, it
/// does not lose the name that way.
pub proof fn a_name_is_let_go_unless_opened<C>(registry: RegistryView<C>, entry: EntryView)
    ensures
        ({
            let after = SessionView::Proxied(entry).let_go(registry);
            &&& after.tunnels == registry.tunnels
            &&& after.names == (if entry.persisted {
                registry.names
            } else {
                registry.names.remove(entry.name)
            })
        }),
{
}

/// An open tunnel that has carried some traffic stands in the listing, once,
/// under the name with which it was opened and with the totals of that traffic,
/// which start again at zero past the largest count only.
pub proof fn a_listing_tells_the_traffic<C>(
    registry: RegistryView<C>,
    id: u128,
    name: NameView,
    client: C,
    traffic: Seq<(usize, usize)>,
    list: Seq<TunnelMetadata>,
)
    requires
        lists_tunnels(
            list,
            carry_all(registry.attach(id, Tunnel::serving(client), name), id, traffic).tunnels,
        ),
    ensures
        exists|i: int|
            0 <= i < list.len() && (#[trigger] list[i]).id@ == id && list[i].name@ == name
                && list[i].read_bytes == total(traffic).0 % (usize::MAX + 1) as nat
                && list[i].written_bytes == total(traffic).1 % (usize::MAX + 1) as nat,
        forall|i: int, j: int|
            0 <= i < list.len() && 0 <= j < list.len() && (#[trigger] list[i]).id@ == (
            #[trigger] list[j]).id@ ==> i == j,
{
    let opened = registry.attach(id, Tunnel::serving(client), name);
    assert(opened.tunnels[id] == (Tunnel::serving(client), name));
    traffic_adds_up(opened, id, traffic);
    let tunnels = carry_all(opened, id, traffic).tunnels;
    assert(tunnels.contains_key(id));
    let i = choose|i: int| 0 <= i < list.len() && (#[trigger] list[i]).id@ == id;
    assert(list[i].describes(id, tunnels[id].0, tunnels[id].1));
    assert(opened.tunnels[id].0.read_bytes == 0);
    assert(opened.tunnels[id].0.written_bytes == 0);
}

/// A listing tells of every open tunnel with its own name and its own counts, and
/// of no tunnel that is not open.
pub proof fn a_listing_tells_every_tunnel<C>(
    registry: RegistryView<C>,
    list: Seq<TunnelMetadata>,
    id: u128,
)
    requires
        lists_tunnels(list, registry.tunnels),
    ensures
        registry.tunnels.contains_key(id) ==> exists|i: int|
            0 <= i < list.len() && (#[trigger] list[i]).id@ == id && list[i].name@
                == registry.tunnels[id].1 && list[i].read_bytes
                == registry.tunnels[id].0.read_bytes && list[i].written_bytes
                == registry.tunnels[id].0.written_bytes,
        !registry.tunnels.contains_key(id) ==> forall|i: int|
            0 <= i < list.len() ==> (#[trigger] list[i]).id@ != id,
{
    if registry.tunnels.contains_key(id) {
        let i = choose|i: int| 0 <= i < list.len() && (#[trigger] list[i]).id@ == id;
        assert(list[i].describes(id, registry.tunnels[id].0, registry.tunnels[id].1));
    }
}

// ----- other servers -----
/// A server is taken to have a tunnel exactly where it answers with a status of
/// 200 to 299; the traffic then goes to that server, at the proxy's port.
pub proof fn only_success_is_a_find(search: PeerSearchView, status: u16)
    ensures
        search.found(None) is None,
        search.found(Some(status)) is Some <==> 200 <= status <= 299,
        search.found(Some(status)) matches Some(addr) ==> addr.ip == search.peers[0].ip
            && addr.port == search.proxy_port,
        search.rest().peers == search.peers.skip(1),
        search.rest().name == search.name,
        search.rest().proxy_port == search.proxy_port,
{
}

/// A search goes to the first server that answers with a status of 200 to 299,
/// however the servers after it answer, and to none where no server does.
pub proof fn a_search_goes_to_the_first_success(
    search: PeerSearchView,
    statuses: Seq<Option<u16>>,
    winner: int,
)
    requires
        search.peers.len() == statuses.len(),
        0 <= winner <= statuses.len(),
        winner < statuses.len() ==> statuses[winner] is Some && 200 <= statuses[winner]->Some_0
            <= 299,
        forall|i: int|
            0 <= i < winner ==> (#[trigger] statuses[i] is None || statuses[i]->Some_0 < 200
                || statuses[i]->Some_0 > 299),
    ensures
        winner == statuses.len() ==> search_outcome(search, statuses) is None,
        winner < statuses.len() ==> search_outcome(search, statuses) == Some(
            PeerAddr { ip: search.peers[winner].ip, port: search.proxy_port },
        ),
{
    assert forall|i: int| 0 <= i < winner implies !has_tunnel(#[trigger] statuses[i]) by {
        assert(statuses[i] is None || statuses[i]->Some_0 < 200 || statuses[i]->Some_0 > 299);
    }
    if winner < statuses.len() {
        the_first_peer_wins(search, statuses, winner);
    } else {
        no_peer_no_tunnel(search, statuses);
    }
}

/// A server is asked over plain HTTP, at the address that it has, for the tunnel
/// under the name as it is written: a subdomain as it is, a port after a colon.
pub proof fn a_server_is_asked_by_name<C>(
    registry: RegistryView<C>,
    server: Seq<char>,
    subdomain: Seq<char>,
    port: u16,
    peers: Seq<Peer>,
)
    ensures
        peer_url(server, NameView::Subdomain(subdomain)) == "http://"@ + server + "/tunnels/"@
            + subdomain,
        peer_url(server, NameView::PortNumber(port)) == "http://"@ + server + "/tunnels/"@ + (seq![
            ':',
        ] + decimal(port as nat)),
        ({
            let search = registry.peer_query(NameView::Subdomain(subdomain)).among(peers);
            &&& search.name == NameView::Subdomain(subdomain)
            &&& search.proxy_port == registry.http_proxy_port
            &&& search.peers == peers
        }),
        ({
            let search = registry.peer_query(NameView::PortNumber(port)).among(peers);
            &&& search.name == NameView::PortNumber(port)
            &&& search.proxy_port == registry.tcp_proxy_port
            &&& search.peers == peers
        }),
{
}

// ----- text -----
/// A text is blank exactly where it holds nothing but white space.
pub proof fn only_white_space_is_blank(s: Seq<char>)
    ensures
        blank(s) <==> forall|i: int|
            0 <= i < s.len() ==> {
                let v = (#[trigger] s[i]) as u32;
                ||| 9 <= v <= 13
                ||| v == 0x20
                ||| v == 0x85
                ||| v == 0xA0
                ||| v == 0x1680
                ||| 0x2000 <= v <= 0x200A
                ||| v == 0x2028
                ||| v == 0x2029
                ||| v == 0x202F
                ||| v == 0x205F
                ||| v == 0x3000
            },
{
    if blank(s) {
        assert forall|i: int| 0 <= i < s.len() implies {
            let v = (#[trigger] s[i]) as u32;
            ||| 9 <= v <= 13
            ||| v == 0x20
            ||| v == 0x85
            ||| v == 0xA0
            ||| v == 0x1680
            ||| 0x2000 <= v <= 0x200A
            ||| v == 0x2028
            ||| v == 0x2029
            ||| v == 0x202F
            ||| v == 0x205F
            ||| v == 0x3000
        } by {
            assert(is_white_space(s[i]));
        }
    }
}

/// A port is read digit by digit: one more digit makes ten times the number and
/// the digit more, as long as that is at most 65535; a leading plus changes
/// nothing; and whatever else there is makes it no port.
pub proof fn a_port_is_read_digit_by_digit(s: Seq<char>, c: char)
    requires
        s.len() > 0,
        forall|i: int| 0 <= i < s.len() ==> 48 <= (#[trigger] s[i]) as u32 <= 57,
    ensures
        port_of(seq![c]) == (if 48 <= c as u32 <= 57 {
            Some((c as u32 - 48) as u16)
        } else {
            None
        }),
        48 <= c as u32 <= 57 ==> port_of(s.push(c)) == (match port_of(s) {
            Some(v) => if 10 * v + (c as u32 - 48) <= 65535 {
                Some((10 * v + (c as u32 - 48)) as u16)
            } else {
                None
            },
            None => None,
        }),
        !(48 <= c as u32 <= 57) ==> port_of(s.push(c)) is None,
        port_of(seq!['+'] + s) == port_of(s),
{
    reveal_with_fuel(digits_value, 2);
    let one = seq![c];
    assert(one.drop_last() =~= Seq::<char>::empty());
    assert(seq!['+'].skip(1) =~= Seq::<char>::empty());
    if c != '+' {
        assert(unsigned_part(one) == one);
        if !(48 <= c as u32 <= 57) {
            assert(!is_digit(one[0]));
        }
    }
    assert(48 <= s[0] as u32 <= 57);
    assert(s[0] != '+');
    assert(forall|i: int| 0 <= i < s.len() ==> is_digit(#[trigger] s[i]));
    let longer = s.push(c);
    assert(longer.drop_last() =~= s);
    assert(longer[0] == s[0]);
    assert(unsigned_part(longer) == longer);
    if 48 <= c as u32 <= 57 {
        assert forall|i: int| 0 <= i < longer.len() implies is_digit(#[trigger] longer[i]) by {
            if i < s.len() {
                assert(longer[i] == s[i]);
            }
        }
    } else {
        assert(!is_digit(longer[s.len() as int]));
    }
    assert((seq!['+'] + s).skip(1) =~= s);
}

/// A text with anything but digits in it, but for one leading plus, is no port,
/// and neither is an empty one.
pub proof fn only_digits_are_a_port(s: Seq<char>, i: int)
    requires
        s.len() == 0 || s == seq!['+'] || 0 <= i < s.len() && !(48 <= s[i] as u32 <= 57) && !(i
            == 0 && s[i] == '+'),
    ensures
        port_of(s) is None,
{
    let d = unsigned_part(s);
    if s.len() > 0 && s != seq!['+'] {
        if s[0] == '+' {
            assert(d[i - 1] == s[i]);
            assert(!is_digit(d[i - 1]));
        } else {
            assert(!is_digit(d[i]));
        }
    } else if s.len() > 0 {
        assert(d =~= Seq::<char>::empty());
    }
}

/// A port in decimal is made of digits, starts with a zero only where it is zero,
/// and reads back as itself.
pub proof fn a_port_is_written_plainly(port: u16)
    ensures
        decimal(port as nat).len() > 0,
        forall|i: int|
            0 <= i < decimal(port as nat).len() ==> 48 <= (#[trigger] decimal(
                port as nat,
            )[i]) as u32 <= 57,
        decimal(port as nat)[0] as u32 == 48 <==> port == 0,
        port_of(decimal(port as nat)) == Some(port),
{
    decimal_is_digits(port as nat);
    decimal_reads_back(port);
    no_leading_zero(port as nat);
    assert forall|i: int| 0 <= i < decimal(port as nat).len() implies 48 <= (#[trigger] decimal(
        port as nat,
    )[i]) as u32 <= 57 by {
        assert(is_digit(decimal(port as nat)[i]));
    }
}

/// Only zero is written with a leading zero.
proof fn no_leading_zero(n: nat)
    ensures
        decimal(n).len() > 0,
        decimal(n)[0] as u32 == 48 <==> n == 0,
    decreases n,
{
    if n >= 10 {
        no_leading_zero(n / 10);
    }
}

/// What stands before the first dot is found, and a text without a dot has
/// nothing that stands before one.
pub proof fn a_label_ends_at_the_first_dot(label: Seq<char>, rest: Seq<char>, s: Seq<char>)
    requires
        !label.contains('.'),
    ensures
        label_before_dot(label + seq!['.'] + rest) == Some(label),
        label_before_dot(s) is None <==> !s.contains('.'),
{
    let all = label + seq!['.'] + rest;
    all.index_of_first_ensures('.');
    s.index_of_first_ensures('.');
    assert(all[label.len() as int] == '.');
    assert(all.contains('.'));
    let i = all.index_of_first('.')->Some_0;
    if i < label.len() {
        assert(label[i] == all[i]);
    }
    assert(all.take(i) =~= label);
}

/// Two texts have the same small form exactly where they differ at most in the
/// case of the letters `A` to `Z`.
pub proof fn small_forms_agree_up_to_case(a: Seq<char>, b: Seq<char>)
    ensures
        ascii_lower_text(a) == ascii_lower_text(b) <==> a.len() == b.len() && forall|i: int|
            #![trigger a[i]]
            #![trigger b[i]]
            0 <= i < a.len() ==> same_but_case(a[i], b[i]),
        (forall|i: int| 0 <= i < a.len() ==> !(65 <= (#[trigger] a[i]) as u32 <= 90))
            ==> ascii_lower_text(a) == a,
{
    let la = ascii_lower_text(a);
    let lb = ascii_lower_text(b);
    if la == lb {
        assert(la.len() == lb.len());
        assert forall|i: int|
            #![trigger a[i]]
            #![trigger b[i]]
            0 <= i < a.len() implies same_but_case(a[i], b[i]) by {
            assert(la[i] == lb[i]);
            cases_agree(a[i], b[i]);
        }
    }
    if a.len() == b.len() && forall|i: int|
        #![trigger a[i]]
        #![trigger b[i]]
        0 <= i < a.len() ==> same_but_case(a[i], b[i]) {
        assert forall|i: int| 0 <= i < la.len() implies la[i] == lb[i] by {
            assert(same_but_case(a[i], b[i]));
            cases_agree(a[i], b[i]);
        }
        assert(la =~= lb);
    }
    if forall|i: int| 0 <= i < a.len() ==> !(65 <= (#[trigger] a[i]) as u32 <= 90) {
        assert(la =~= a);
    }
}

/// Whether two characters are the same, or the same letter of `A` to `Z` in
/// either case.
pub open spec fn same_but_case(a: char, b: char) -> bool {
    ||| a == b
    ||| 65 <= a as u32 <= 90 && b as u32 == a as u32 + 32
    ||| 65 <= b as u32 <= 90 && a as u32 == b as u32 + 32
}

/// Two characters have the same small form exactly where they differ at most in
/// case.
proof fn cases_agree(a: char, b: char)
    ensures
        crate::text::ascii_lower(a) == crate::text::ascii_lower(b) <==> same_but_case(a, b),
{
}

/// A header value is text exactly where each of its bytes is a tab or one of 32
/// to 126; the text then has one character for each byte, of the same code.
pub proof fn visible_bytes_are_text(bytes: Seq<u8>)
    ensures
        visible_text(bytes) is Some <==> forall|i: int|
            0 <= i < bytes.len() ==> 32 <= #[trigger] bytes[i] <= 126 || bytes[i] == 9,
        visible_text(bytes) matches Some(s) ==> s.len() == bytes.len() && forall|i: int|
            0 <= i < s.len() ==> (#[trigger] s[i]) as u32 == bytes[i] as u32,
{
    if forall|i: int| 0 <= i < bytes.len() ==> 32 <= #[trigger] bytes[i] <= 126 || bytes[i] == 9 {
        assert forall|i: int| 0 <= i < bytes.len() implies is_visible(#[trigger] bytes[i]) by {}
    }
    if visible_text(bytes) is Some {
        assert forall|i: int| 0 <= i < bytes.len() implies 32 <= #[trigger] bytes[i] <= 126
            || bytes[i] == 9 by {
            assert(is_visible(bytes[i]));
        }
    }
}

/// The text of a header field is that of its first value, whatever the case of
/// the name; without a value, or with one that is no text, there is none.
pub proof fn a_field_is_its_first_value(
    fields: Map<Seq<char>, Seq<Seq<u8>>>,
    name: Seq<char>,
)
    ensures
        fields.contains_key(ascii_lower_text(name)) ==> field_text(fields, name) == visible_text(
            fields[ascii_lower_text(name)][0],
        ),
        !fields.contains_key(ascii_lower_text(name)) ==> field_text(fields, name) is None,
{
}

/// A name is written as it is where it is a subdomain, and after a colon where it
/// is a port; a text names a subdomain where it is the same text.
pub proof fn names_are_written_plainly(subdomain: Seq<char>, port: u16, text: Seq<char>)
    ensures
        NameView::Subdomain(subdomain).text() == subdomain,
        NameView::PortNumber(port).text().len() == 1 + decimal(port as nat).len(),
        NameView::PortNumber(port).text()[0] == ':',
        port_of(NameView::PortNumber(port).text().skip(1)) == Some(port),
        NameView::Subdomain(subdomain).named_by(text) <==> subdomain == text,
        NameView::PortNumber(port).named_by(text) <==> port_of(text) == Some(port),
{
    decimal_reads_back(port);
    assert(NameView::PortNumber(port).text().skip(1) =~= decimal(port as nat));
}

// ----- the client -----
/// Where nothing is set, the public server is asked for an HTTP tunnel of a
/// hundred streams, under no particular name.
pub proof fn the_settings_start_out_plain()
    ensures
        ({
            let builder = BuilderView::initial();
            &&& builder.server_url == crate::uri::uri_of("https://tinytun.com:5555"@)
            &&& builder.subdomain is None
            &&& builder.port is None
            &&& builder.max_concurrent_streams == 100
            &&& builder.tunnel_type == TunnelType::Http
        }),
{
}

/// A subdomain that is set is asked for, whatever it is, unless it holds nothing
/// but white space; where it cannot stand in a header field, the request fails.
pub proof fn a_subdomain_is_asked_for(builder: BuilderView, subdomain: String, k: int)
    requires
        builder.server_url is Some,
        builder.tunnel_type == TunnelType::Http,
        builder.subdomain == Some(subdomain),
        0 <= k < subdomain@.len(),
        ({
            let v = subdomain@[k] as u32;
            !(9 <= v <= 13 || v == 0x20 || v == 0x85 || v == 0xA0 || v == 0x1680 || 0x2000 <= v
                <= 0x200A || v == 0x2028 || v == 0x2029 || v == 0x202F || v == 0x205F || v
                == 0x3000)
        }),
    ensures
        (forall|i: int|
            0 <= i < subdomain@.len() ==> (32 <= (#[trigger] subdomain@[i]) as u32
                && subdomain@[i] as u32 != 127 || subdomain@[i] as u32 == 9)) ==> {
            &&& builder.request() is Ok
            &&& builder.request()->Ok_0.method == "CONNECT"@
            &&& builder.request()->Ok_0.uri == builder.server_url->Some_0.text
            &&& builder.request()->Ok_0.headers == seq![
                ("x-tinytun-type"@, "http"@),
                ("x-tinytun-subdomain"@, subdomain@),
            ]
        },
        (exists|i: int|
            0 <= i < subdomain@.len() && ((#[trigger] subdomain@[i]) as u32 == 127
                || subdomain@[i] as u32 != 9 && (subdomain@[i] as u32) < 32)) ==> builder.request()
            == Err::<crate::client::RequestView, ListenError>(ListenError::InvalidSubdomain),
{
    only_white_space_is_blank(subdomain@);
    assert(!blank(subdomain@));
    if builder.request() is Ok {
        assert(builder.request()->Ok_0.headers =~= seq![
            ("x-tinytun-type"@, "http"@),
            ("x-tinytun-subdomain"@, subdomain@),
        ]);
    }
}

/// An HTTP tunnel for which no subdomain is set, or one of white space only, is
/// asked for without a subdomain.
pub proof fn no_subdomain_is_asked_for(builder: BuilderView)
    requires
        builder.server_url is Some,
        builder.tunnel_type == TunnelType::Http,
        builder.subdomain matches Some(s) ==> forall|i: int|
            0 <= i < s@.len() ==> (#[trigger] s@[i]) as u32 == 32 || 9 <= s@[i] as u32 <= 13,
    ensures
        builder.request() is Ok,
        builder.request()->Ok_0.method == "CONNECT"@,
        builder.request()->Ok_0.uri == builder.server_url->Some_0.text,
        builder.request()->Ok_0.headers == seq![("x-tinytun-type"@, "http"@)],
{
    if builder.subdomain is Some {
        only_white_space_is_blank(builder.subdomain->Some_0@);
    }
}

/// A TCP tunnel is asked for at the port that is set, whatever it is, and at none
/// where none is set; a subdomain plays no part.
pub proof fn a_port_is_asked_for(builder: BuilderView)
    requires
        builder.server_url is Some,
        builder.tunnel_type == TunnelType::Tcp,
    ensures
        builder.request() is Ok,
        builder.request()->Ok_0.method == "CONNECT"@,
        builder.request()->Ok_0.uri == builder.server_url->Some_0.text,
        builder.request()->Ok_0.headers == (match builder.port {
            Some(port) => seq![
                ("x-tinytun-type"@, "tcp"@),
                ("x-tinytun-port"@, decimal(port as nat)),
            ],
            None => seq![("x-tinytun-type"@, "tcp"@)],
        }),
{
    if let Some(port) = builder.port {
        assert(builder.request()->Ok_0.headers =~= seq![
            ("x-tinytun-type"@, "tcp"@),
            ("x-tinytun-port"@, decimal(port as nat)),
        ]);
    }
}

/// Without a usable address of the server nothing is asked for.
pub proof fn a_server_is_needed(
    builder: BuilderView,
    fields: Map<Seq<char>, Seq<Seq<u8>>>,
    built: Option<Seq<char>>,
)
    requires
        builder.server_url is None,
    ensures
        builder.request() == Err::<crate::client::RequestView, ListenError>(
            ListenError::InvalidServerUrl,
        ),
        builder.proxy_url(fields, built) == Err::<Seq<char>, ListenError>(
            ListenError::InvalidServerUrl,
        ),
{
}

/// The public address of a TCP tunnel is the host of the server with the port
/// that the server tells, whatever it is.
pub proof fn a_told_port_is_the_address(
    builder: BuilderView,
    fields: Map<Seq<char>, Seq<Seq<u8>>>,
    built: Option<Seq<char>>,
    host: Seq<char>,
)
    requires
        builder.server_url is Some,
        builder.server_url->Some_0.host == Some(host),
        builder.tunnel_type == TunnelType::Tcp,
    ensures
        !fields.contains_key("x-tinytun-port"@) ==> builder.proxy_url(fields, built) == Err::<
            Seq<char>,
            ListenError,
        >(ListenError::MissingPort),
        fields.contains_key("x-tinytun-port"@) ==> builder.proxy_url(fields, built) == (
        match visible_text(fields["x-tinytun-port"@][0]) {
            Some(port) => Ok::<Seq<char>, ListenError>(host + ":"@ + port),
            None => Err::<Seq<char>, ListenError>(ListenError::UnreadableHeader),
        }),
{
    reveal_strlit("x-tinytun-port");
    small_forms_agree_up_to_case("x-tinytun-port"@, "x-tinytun-port"@);
}

/// The public address of an HTTP tunnel is made of the domain that the server
/// tells, whatever it is, under the scheme of the server's own address.
pub proof fn a_told_domain_is_the_address(
    builder: BuilderView,
    fields: Map<Seq<char>, Seq<Seq<u8>>>,
    built: Option<Seq<char>>,
)
    requires
        builder.server_url is Some,
        builder.tunnel_type == TunnelType::Http,
    ensures
        builder.scheme() == (match builder.server_url->Some_0.scheme {
            Some(scheme) => scheme,
            None => "http"@,
        }),
        !fields.contains_key("x-tinytun-domain"@) ==> builder.proxy_url(fields, built) == Err::<
            Seq<char>,
            ListenError,
        >(ListenError::MissingDomain),
        fields.contains_key("x-tinytun-domain"@) && visible_text(
            fields["x-tinytun-domain"@][0],
        ) is None ==> builder.proxy_url(fields, built) == Err::<Seq<char>, ListenError>(
            ListenError::UnreadableHeader,
        ),
        fields.contains_key("x-tinytun-domain"@) && visible_text(
            fields["x-tinytun-domain"@][0],
        ) is Some ==> builder.proxy_url(fields, built) == (match built {
            Some(url) => Ok::<Seq<char>, ListenError>(url),
            None => Err::<Seq<char>, ListenError>(ListenError::InvalidDomain),
        }),
{
    reveal_strlit("x-tinytun-domain");
    small_forms_agree_up_to_case("x-tinytun-domain"@, "x-tinytun-domain"@);
}

// ----- the API -----
/// A subdomain that is asked for, whatever it is, is granted exactly where nobody
/// holds it, if its domain can stand in a header field: the client is told the
/// subdomain and its domain, the subdomain followed by a dot and the base domain,
/// and holds the name from then on. A subdomain that somebody holds is a
/// conflict, and nothing changes.
pub proof fn a_requested_subdomain_is_granted<C>(
    base_domain: Seq<char>,
    subdomain: Seq<char>,
    id: u128,
    before: RegistryView<C>,
)
    ensures
        ({
            let (answer, after) = http_outcome(base_domain, Some(subdomain), id, before);
            let name = NameView::Subdomain(subdomain);
            let domain = subdomain + seq!['.'] + base_domain;
            if before.names.contains_key(name) {
                &&& after == before
                &&& answer == Ok::<AnswerView, InvalidHeader>(
                    AnswerView::Refused(
                        ReplyView {
                            status: 409,
                            headers: Seq::empty(),
                            body: "Subdomain not available"@,
                        },
                    ),
                )
            } else if !header_safe(domain) {
                answer == Err::<AnswerView, InvalidHeader>(InvalidHeader) && after == before
            } else {
                &&& after.names == before.names.insert(name, id)
                &&& after.tunnels == before.tunnels
                &&& answer is Ok && answer->Ok_0 is Granted
                &&& answer->Ok_0->Granted_0.status == 101
                &&& answer->Ok_0->Granted_0.body == ""@
                &&& answer->Ok_0->Granted_0.headers == seq![
                    ("x-tinytun-connection-id"@, id_text(id)),
                    ("x-tinytun-domain"@, domain),
                    ("x-tinytun-subdomain"@, subdomain),
                ]
                &&& answer->Ok_0->Granted_1 == SessionView::Proxied(
                    EntryView { id, name, persisted: false },
                )
            }
        }),
{
    reveal_strlit(".");
    assert("."@ =~= seq!['.']);
    assert(subdomain + "."@ + base_domain =~= subdomain + seq!['.'] + base_domain);
}

/// A request without a subdomain is a request for the subdomain that the
/// identifier spells.
pub proof fn an_identifier_stands_in<C>(
    base_domain: Seq<char>,
    id: u128,
    before: RegistryView<C>,
)
    ensures
        http_outcome(base_domain, None, id, before) == http_outcome(
            base_domain,
            Some(id_text(id)),
            id,
            before,
        ),
{
}

/// A port that is asked for in a header field is the number that the field's text
/// denotes.
pub proof fn a_port_field_is_read(fields: Map<Seq<char>, Seq<Seq<u8>>>)
    ensures
        requested_port(fields) == (match field_text(fields, "x-tinytun-port"@) {
            Some(text) => port_of(text),
            None => None,
        }),
{
}

/// A port of 20000 to 60000 that is asked for is granted exactly where nobody
/// holds it: the client is told that port, and holds it from then on. Otherwise
/// the answer is a conflict, and nothing changes.
pub proof fn a_requested_port_is_granted<C>(
    port: u16,
    proxied: bool,
    before: RegistryView<C>,
    answer: AnswerView,
    after: RegistryView<C>,
)
    requires
        tcp_outcome(Some(port), proxied, before, answer, after),
    ensures
        ({
            let name = NameView::PortNumber(port);
            if 20_000 <= port <= 60_000 && !before.names.contains_key(name) {
                &&& after.names.contains_key(name)
                &&& after.names == before.names.insert(name, after.names[name])
                &&& after.tunnels == before.tunnels
                &&& answer == AnswerView::Granted(
                    ReplyView {
                        status: 101,
                        headers: seq![
                            ("x-tinytun-connection-id"@, id_text(after.names[name])),
                            ("x-tinytun-port"@, decimal(port as nat)),
                        ],
                        body: ""@,
                    },
                    if proxied {
                        SessionView::Proxied(
                            EntryView { id: after.names[name], name, persisted: false },
                        )
                    } else {
                        SessionView::Listening(after.names[name], port)
                    },
                )
            } else {
                &&& after == before
                &&& answer == AnswerView::Refused(
                    ReplyView { status: 409, headers: Seq::empty(), body: "Port not available"@ },
                )
            }
        }),
{
}

/// A request without a port is granted a port of 20000 to 59999 that nobody held,
/// and the client is told that port and holds it, or it is answered with a
/// conflict and nothing changes.
pub proof fn a_port_is_granted<C>(
    proxied: bool,
    before: RegistryView<C>,
    answer: AnswerView,
    after: RegistryView<C>,
)
    requires
        tcp_outcome(None, proxied, before, answer, after),
    ensures
        match answer {
            AnswerView::Granted(reply, session) => {
                let id = session.id();
                &&& reply.status == 101
                &&& reply.headers.len() == 2
                &&& reply.headers[0] == ("x-tinytun-connection-id"@, id_text(id))
                &&& reply.headers[1].0 == "x-tinytun-port"@
                &&& exists|port: u16|
                    #![trigger decimal(port as nat)]
                    {
                        let name = NameView::PortNumber(port);
                        &&& 20_000 <= port < 60_000
                        &&& reply.headers[1].1 == decimal(port as nat)
                        &&& !before.names.contains_key(name)
                        &&& after.names == before.names.insert(name, id)
                        &&& after.tunnels == before.tunnels
                        &&& session == (if proxied {
                            SessionView::Proxied(EntryView { id, name, persisted: false })
                        } else {
                            SessionView::Listening(id, port)
                        })
                    }
            },
            AnswerView::Refused(reply) => {
                &&& after == before
                &&& reply == (ReplyView {
                    status: 409,
                    headers: Seq::empty(),
                    body: "Port not available"@,
                })
            },
        },
{
    let (id, reserved) = choose|id: u128, reserved: Result<(NameView, u16), RegistryError>|
        crate::tunnel_id::is_random_id(id) && #[trigger] port_reservation(
            before,
            after,
            None,
            id,
            reserved,
        ) && crate::api::tcp_answer(answer, id, reserved, proxied);
    a_drawn_port_is_reserved(before, after, id, reserved);
    if let Ok((name, port)) = reserved {
        assert(answer->Granted_0.headers[1].1 == decimal(port as nat));
    }
}

/// A tunnel is asked for with `CONNECT`, and is a TCP tunnel of one kind or the
/// other exactly where the request says so; any other method is greeted, and the
/// connection is closed.
pub proof fn a_request_is_routed(method: Seq<char>, kind: Option<Seq<char>>)
    ensures
        api_route(method, kind) == ApiRoute::Greeting <==> method != "CONNECT"@,
        api_route(method, kind) == ApiRoute::TcpProxy <==> method == "CONNECT"@ && kind == Some(
            "tcp"@,
        ),
        api_route(method, kind) == ApiRoute::TcpPort <==> method == "CONNECT"@ && kind == Some(
            "tcp_port"@,
        ),
        api_route(method, kind) == ApiRoute::Http <==> method == "CONNECT"@ && kind != Some("tcp"@)
            && kind != Some("tcp_port"@),
        greeting_reply() == (ReplyView {
            status: 200,
            headers: seq![("connection"@, "close"@)],
            body: ""@,
        }),
{
    reveal_strlit("tcp");
    reveal_strlit("tcp_port");
    assert("tcp"@.len() == 3);
    assert("tcp_port"@.len() == 8);
}

// ----- the proxies -----
/// A host leads to the tunnel under the part of it before its first dot, whatever
/// that part is and whatever follows; a host without a dot is answered that no
/// tunnel was named.
pub proof fn a_host_leads_to_its_tunnel(label: Seq<char>, rest: Seq<char>, host: Seq<char>)
    requires
        !label.contains('.'),
        !host.contains('.'),
    ensures
        route_host(label + seq!['.'] + rest) == HttpStepView::Find(NameView::Subdomain(label)),
        route_host(host) == HttpStepView::Answer(
            ReplyView { status: 404, headers: Seq::empty(), body: "Tunnel not informed"@ },
        ),
{
    a_label_ends_at_the_first_dot(label, rest, host);
}

/// A request is recognised as one where it has a request line that is text, at
/// most sixteen well formed header fields, and then an empty line, or nothing
/// where the buffer has no room for the rest of a line.
pub proof fn a_request_is_recognised(
    first: Seq<u8>,
    lines: Seq<FieldLine>,
    rest: Seq<u8>,
)
    requires
        first.len() > 0,
        first.last() == 10,
        forall|i: int| 0 <= i < first.len() - 1 ==> #[trigger] first[i] != 10,
        valid_utf8(first),
        lines.len() <= 16,
        forall|i: int| 0 <= i < lines.len() ==> (#[trigger] lines[i]).well_formed(),
        rest.len() == 0 || rest[0] == 10 || rest.len() > 1 && rest[0] == 13 && rest[1] == 10,
    ensures
        starts_with_request(first + header_block(lines) + rest, first, lines),
{
    let buffer = first + header_block(lines) + rest;
    let after = buffer.skip(first.len() as int);
    let block = header_block(lines);
    assert(first =~= buffer.take(first.len() as int));
    assert(after =~= block + rest);
    assert(block =~= after.take(block.len() as int));
    let tail = after.skip(block.len() as int);
    assert(tail =~= rest);
    if rest.len() == 0 {
        let line = FieldLine {
            name: seq!['a'],
            before: Seq::empty(),
            value: Seq::empty(),
            after: Seq::empty(),
            with_return: false,
        };
        assert(line.well_formed());
        assert(rest =~= line.bytes().take(0));
        assert(is_unfinished(tail));
    } else {
        assert(rest[0] == 10 ==> seq![10u8] =~= rest.take(1));
        assert(rest[0] == 13 ==> seq![13u8, 10u8] =~= rest.take(2));
        assert(starts_with_empty_line(tail));
    }
}

/// What a header field looks like: any space around its value is not part of it.
pub proof fn a_field_line_is_laid_out(
    name: Seq<char>,
    before: Seq<u8>,
    value: Seq<u8>,
    after: Seq<u8>,
    with_return: bool,
)
    ensures
        (FieldLine { name, before, value, after, with_return }).bytes() == name.map_values(
            |c: char| c as u8,
        ) + seq![58u8] + before + value + after + (if with_return {
            seq![13u8, 10u8]
        } else {
            seq![10u8]
        }),
{
}

/// Without a host among its header fields a request is waited for; header fields
/// that were rejected are an error, and so is a connection that sends nothing.
pub proof fn no_host_no_route(
    fields: Seq<(Seq<char>, Seq<u8>)>,
    buffer: Seq<u8>,
)
    requires
        forall|i: int|
            0 <= i < fields.len() ==> ascii_lower_text(#[trigger] fields[i].0) != "host"@,
    ensures
        host_among(Some(fields)) == HostPeekView::Again,
        host_among(None) == HostPeekView::Failed(PeekError::BadHeaders),
        host_in(buffer, 0) == HostPeekView::Failed(PeekError::EmptyStream),
    decreases fields.len(),
{
    if fields.len() > 0 {
        assert(ascii_lower_text(fields[0].0) != "host"@);
        let rest = fields.skip(1);
        assert forall|i: int| 0 <= i < rest.len() implies ascii_lower_text(#[trigger] rest[i].0)
            != "host"@ by {
            assert(rest[i] == fields[i + 1]);
        }
        no_host_no_route(rest, buffer);
    }
}

/// A connection that is accepted is served, and a failed attempt is made again
/// after a tenth of a second.
pub proof fn accepting_goes_on<S>(stream: S)
    ensures
        accept_next(Some(stream)) == AcceptStep::Serve(stream),
        accept_next::<S>(None) == AcceptStep::<S>::RetryAfter(100),
{
}

/// The port of a connection, byte by byte: behind the signature, the family and
/// the length, it is the two bytes after two addresses of IPv4 and a port, or two
/// of IPv6 and a port, the higher byte first.
pub proof fn a_proxied_port_is_where_it_belongs(bytes: Seq<u8>)
    requires
        bytes.len() >= 16,
        bytes[0] == 0x0D && bytes[1] == 0x0A && bytes[2] == 0x0D && bytes[3] == 0x0A && bytes[4]
            == 0x00 && bytes[5] == 0x0D && bytes[6] == 0x0A && bytes[7] == 0x51 && bytes[8] == 0x55
            && bytes[9] == 0x49 && bytes[10] == 0x54 && bytes[11] == 0x0A,
    ensures
        ({
            let size = 256 * bytes[14] + bytes[15];
            &&& bytes.len() < 16 + size ==> proxied_port(bytes) == Err::<u16, ProxyProtocolError>(
                ProxyProtocolError::Truncated,
            )
            &&& bytes.len() >= 16 + size && (bytes[13] == 0x11 || bytes[13] == 0x12)
                ==> proxied_port(bytes) == (if size < 12 {
                Err::<u16, ProxyProtocolError>(ProxyProtocolError::Truncated)
            } else {
                Ok::<u16, ProxyProtocolError>((256 * bytes[26] + bytes[27]) as u16)
            })
            &&& bytes.len() >= 16 + size && (bytes[13] == 0x21 || bytes[13] == 0x22)
                ==> proxied_port(bytes) == (if size < 36 {
                Err::<u16, ProxyProtocolError>(ProxyProtocolError::Truncated)
            } else {
                Ok::<u16, ProxyProtocolError>((256 * bytes[50] + bytes[51]) as u16)
            })
            &&& bytes.len() >= 16 + size && bytes[13] != 0x21 && bytes[13] != 0x22
                ==> proxied_port(bytes) == (if size < 12 {
                Err::<u16, ProxyProtocolError>(ProxyProtocolError::Truncated)
            } else {
                Ok::<u16, ProxyProtocolError>((256 * bytes[26] + bytes[27]) as u16)
            })
        }),
{
    assert(bytes.take(16).take(12) =~= signature());
}

/// A connection that has not sent sixteen bytes is not done with its header, and
/// one that differs from the signature in any of its first twelve has none.
pub proof fn a_signature_is_needed(bytes: Seq<u8>, k: int)
    ensures
        bytes.len() < 16 ==> proxied_port(bytes) == Err::<u16, ProxyProtocolError>(
            ProxyProtocolError::Truncated,
        ),
        bytes.len() >= 16 && 0 <= k < 12 && bytes[k] != seq![
            0x0Du8,
            0x0Au8,
            0x0Du8,
            0x0Au8,
            0x00u8,
            0x0Du8,
            0x0Au8,
            0x51u8,
            0x55u8,
            0x49u8,
            0x54u8,
            0x0Au8,
        ][k] ==> proxied_port(bytes) == Err::<u16, ProxyProtocolError>(
            ProxyProtocolError::InvalidSignature,
        ),
{
    if bytes.len() >= 16 && 0 <= k < 12 {
        assert(bytes.take(16).take(12)[k] == bytes[k]);
    }
}

// ----- carrying a stream -----
/// A stream to a client that is connected here waits at most five seconds for the
/// client, is offered, waits at most ten seconds for the answer, and is then
/// passed on and counted; one to another server is passed on once connected.
pub proof fn a_stream_takes_its_steps<C, I, H>(client: C, addr: PeerAddr)
    ensures
        ({
            let done = DialEvent::<I, H>::Succeeded;
            let local = TunnelConnection::Local(client);
            let remote = TunnelConnection::<C>::Remote(addr);
            &&& dial_run(local, seq![done, done, done, done]).1 == seq![
                DialStep::<I, H>::AwaitReady(5),
                DialStep::SendRequest,
                DialStep::AwaitResponse(10),
                DialStep::Copy(true),
                DialStep::Done,
            ]
            &&& dial_run(remote, seq![done, done]).1 == seq![
                DialStep::<I, H>::Connect(addr),
                DialStep::Copy(false),
                DialStep::Done,
            ]
        }),
{
    let done = DialEvent::<I, H>::Succeeded;
    reveal_with_fuel(dial_run, 6);
    let four = seq![done, done, done, done];
    let three = four.drop_last();
    let two = three.drop_last();
    let one = two.drop_last();
    assert(one.drop_last() =~= Seq::<DialEvent<I, H>>::empty());
    let local = TunnelConnection::Local(client);
    assert(dial_run(local, four).1 =~= seq![
        DialStep::<I, H>::AwaitReady(5),
        DialStep::SendRequest,
        DialStep::AwaitResponse(10),
        DialStep::Copy(true),
        DialStep::Done,
    ]);
    let pair = seq![done, done];
    let single = pair.drop_last();
    assert(single.drop_last() =~= Seq::<DialEvent<I, H>>::empty());
    let remote = TunnelConnection::<C>::Remote(addr);
    assert(dial_run(remote, pair).1 =~= seq![
        DialStep::<I, H>::Connect(addr),
        DialStep::Copy(false),
        DialStep::Done,
    ]);
}

/// A stream that fails ends with the error that it met; one for which something
/// took too long ends with what that was.
pub proof fn a_failed_stream_tells_why<I, H>(dial: Dial, h2: H, io: I)
    ensures
        dial.after::<I, H>(DialEvent::H2Failed(h2)) == (
            Dial::Over,
            DialStep::<I, H>::Fail(TunnelError::H2(h2)),
        ),
        dial.after::<I, H>(DialEvent::IoFailed(io)) == (
            Dial::Over,
            DialStep::<I, H>::Fail(TunnelError::Io(io)),
        ),
        Dial::Readying.after::<I, H>(DialEvent::TimedOut) == (
            Dial::Over,
            DialStep::<I, H>::Fail(TunnelError::TimedOut(Delay::NotReady)),
        ),
        Dial::Responding.after::<I, H>(DialEvent::TimedOut) == (
            Dial::Over,
            DialStep::<I, H>::Fail(TunnelError::TimedOut(Delay::NoResponse)),
        ),
{
}

// ----- keeping a tunnel up, and settings -----
/// A client goes on after a tunnel has closed while it has retried at most twenty
/// times, and after a failed request while it has retried at most ten times.
pub proof fn retries_are_bounded(retries: nat)
    ensures
        goes_on(retries, true) <==> retries <= 20,
        goes_on(retries, false) <==> retries <= 10,
{
}

/// A setting that is made counts, then what was built in, then what is usual.
pub proof fn a_setting_comes_first(
    setting: Seq<char>,
    built_in: Seq<char>,
    other: Option<Seq<char>>,
    usual: Seq<char>,
)
    ensures
        first_of(Some(setting), other, usual) == setting,
        first_of(None, Some(built_in), usual) == built_in,
        first_of(None, None, usual) == usual,
{
}

/// A request is passed on to an address exactly where the other server is named,
/// the request has a path, and the two make an address; otherwise the first of
/// these that is missing is told.
pub proof fn a_target_needs_its_parts(
    authority: Option<Seq<char>>,
    path: Option<Seq<char>>,
    built: Option<Seq<char>>,
)
    ensures
        target_uri(authority, path, built) == Err::<Seq<char>, RewriteError>(
            RewriteError::MissingAuthority,
        ) <==> authority is None,
        target_uri(authority, path, built) == Err::<Seq<char>, RewriteError>(
            RewriteError::MissingPath,
        ) <==> authority is Some && path is None,
        target_uri(authority, path, built) == Err::<Seq<char>, RewriteError>(
            RewriteError::InvalidUri,
        ) <==> authority is Some && path is Some && built is None,
        authority is Some && path is Some && built is Some ==> target_uri(authority, path, built)
            == Ok::<Seq<char>, RewriteError>(built->Some_0),
{
}

/// A host that was read, whatever it is, decides what is done with its
/// connection.
pub proof fn a_read_host_decides(host: String)
    ensures
        http_next(HostEvent::Read(host)) == route_host(host@),
{
}

/// A request whose first line is not text is an error; otherwise the header
/// fields behind that line decide.
pub proof fn a_request_line_is_text(buffer: Seq<u8>, peeked: nat, end: int)
    requires
        peeked > 0,
        0 < end <= buffer.len(),
        forall|i: int| 0 <= i < end - 1 ==> #[trigger] buffer[i] != 10,
        buffer[end - 1] == 10 || end == buffer.len(),
    ensures
        host_in(buffer, peeked) == (if valid_utf8(buffer.take(end)) {
            host_among(parsed_headers(buffer.skip(end), 16))
        } else {
            HostPeekView::Failed(PeekError::NotText)
        }),
{
    buffer.index_of_first_ensures(10u8);
    if buffer[end - 1] == 10 {
        assert(buffer.contains(10u8));
        let i = buffer.index_of_first(10u8)->Some_0;
        assert(i == end - 1);
    } else {
        assert forall|i: int| 0 <= i < buffer.len() implies buffer[i] != 10 by {}
        assert(!buffer.contains(10u8));
    }
}

/// A host that is not text is waited for, even if other fields of that name
/// follow.
pub proof fn an_unreadable_host_is_waited_for(sent: Seq<(Seq<char>, Seq<u8>)>, k: int)
    requires
        0 <= k < sent.len(),
        ascii_lower_text(sent[k].0) == "host"@,
        !valid_utf8(sent[k].1),
        forall|i: int| 0 <= i < k ==> ascii_lower_text(#[trigger] sent[i].0) != "host"@,
    ensures
        host_among(Some(sent)) == HostPeekView::Again,
    decreases k,
{
    if k > 0 {
        let rest = sent.skip(1);
        assert(ascii_lower_text(sent[0].0) != "host"@);
        assert(rest[k - 1] == sent[k]);
        assert forall|i: int| 0 <= i < k - 1 implies ascii_lower_text(#[trigger] rest[i].0)
            != "host"@ by {
            assert(rest[i] == sent[i + 1]);
        }
        an_unreadable_host_is_waited_for(rest, k - 1);
    }
}

/// A request keeps its own host where the other server's cannot stand in a header
/// field, or has none.
pub proof fn a_host_is_kept(fields: Map<Seq<char>, Seq<Seq<u8>>>, host: Option<Seq<char>>)
    requires
        host matches Some(h) ==> !header_safe(h),
    ensures
        with_host(fields, host) == fields,
{
}

/// The usual ports, times and sizes of the service.
pub proof fn the_usual_values()
    ensures
        HTTP_PROXY_PORT == 5555,
        TCP_PROXY_PORT == 5556,
        CONNECTION_PORT == 5554,
        METADATA_PORT == 5553,
        PING_INTERVAL == 10,
        PING_TIMEOUT == 15,
        PEEK_TIMEOUT == 5,
        PEEK_SIZE == 1024,
        RETRY_DELAY == 2,
        NO_ERROR == 0,
        INTERNAL_ERROR == 2,
        STREAM_CLOSED == 5,
        CANCEL == 8,
{
}

/// What the errors say.
pub proof fn errors_say_what_went_wrong(port: u16)
    ensures
        RegistryError::SubdomainConflict.text() == "subdomain already in use"@,
        RegistryError::PortConflict(port).text() == "port already in use: "@ + decimal(port as nat),
        RegistryError::PortOutOfRange(port).text() == "port out of range: "@ + decimal(port as nat),
        RegistryError::PortExhausted.text() == "no available port found after 100 attempts"@,
        ListenError::MissingPort.text() == Some("Server didn't provide a connection port"@),
        ListenError::MissingDomain.text() == Some("Server didn't provide a connection id"@),
        PeekError::EmptyStream.text() == Some("Empty stream"@),
        ProxyProtocolError::InvalidSignature.text() == "invalid proxy protocol v2 signature"@,
        Delay::NotReady.text() == "H2 stream not ready"@,
        Delay::NoResponse.text() == "H2 send_request timed out"@,
{
}

} // verus!
