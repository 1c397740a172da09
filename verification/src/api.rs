//! The server's answers to requests for tunnels, and to questions about them.
use http::{HeaderMap, HeaderValue};
use vstd::prelude::*;
use vstd::string::*;

use crate::headers::{
    field_text, first_value, get_text, header_fields, header_safe, is_header_value,
};
use crate::name::NameView;
use crate::reply::{add_header, header_list, Reply, ReplyView};
use crate::session::{Session, SessionView};
use crate::text::{decimal, decimal_text, is_visible, parse_port, port_of, same_text};
use crate::tunnel::{
    lists_tunnels, may_request, port_reservation, requested_subdomain, EntryView, RegistryError,
    RegistryView, TunnelMetadata, Tunnels,
};
use crate::tunnel_id::{hex_text, hex_text_shape, id_text, is_random_id, TunnelId};

verus! {

/// The status of a tunnel that is granted.
pub const SWITCHING_PROTOCOLS: u16 = 101;

/// The status of a request that was understood.
pub const OK: u16 = 200;

/// The status of something that does not exist.
pub const NOT_FOUND: u16 = 404;

/// The status of a name that is taken.
pub const CONFLICT: u16 = 409;

/// The answer to a request for a tunnel.
#[derive(Debug)]
pub enum Answer {
    /// No tunnel is granted.
    Refused(Reply),
    /// A tunnel is granted, and its session begins.
    Granted(Reply, Session),
}

/// What an answer says.
pub enum AnswerView {
    /// See [`Answer::Refused`].
    Refused(ReplyView),
    /// See [`Answer::Granted`].
    Granted(ReplyView, SessionView),
}

impl View for Answer {
    type V = AnswerView;

    open spec fn view(&self) -> AnswerView {
        match self {
            Answer::Refused(reply) => AnswerView::Refused(reply@),
            Answer::Granted(reply, session) => AnswerView::Granted(reply@, session@),
        }
    }
}

/// The reply cannot be sent: one of its header fields would hold a control
/// character.
#[derive(Debug, Clone, Copy, PartialEq, Eq, Structural)]
pub struct InvalidHeader;

/// An answer by what it says, or why there is none.
pub open spec fn answer_view(answer: Result<Answer, InvalidHeader>) -> Result<
    AnswerView,
    InvalidHeader,
> {
    match answer {
        Ok(a) => Ok(a@),
        Err(err) => Err(err),
    }
}

/// The domain at which a subdomain is reached.
pub open spec fn full_domain(subdomain: Seq<char>, base_domain: Seq<char>) -> Seq<char> {
    subdomain + "."@ + base_domain
}

/// The reply that grants an HTTP tunnel.
pub open spec fn http_granted(id: u128, subdomain: Seq<char>, base_domain: Seq<char>) -> ReplyView {
    ReplyView {
        status: SWITCHING_PROTOCOLS,
        headers: seq![
            ("x-tinytun-connection-id"@, id_text(id)),
            ("x-tinytun-domain"@, full_domain(subdomain, base_domain)),
            ("x-tinytun-subdomain"@, subdomain),
        ],
        body: ""@,
    }
}

/// What comes of a request for an HTTP tunnel, given the identifier that the
/// tunnel is to have: the answer, and the registry afterwards.
pub open spec fn http_outcome<C>(
    base_domain: Seq<char>,
    requested: Option<Seq<char>>,
    id: u128,
    before: RegistryView<C>,
) -> (Result<AnswerView, InvalidHeader>, RegistryView<C>) {
    let name = requested_subdomain(requested, id);
    if before.taken(name) {
        (
            Ok(AnswerView::Refused(ReplyView::plain(CONFLICT, "Subdomain not available"@))),
            before,
        )
    } else if !header_safe(full_domain(name.text(), base_domain)) {
        (Err(InvalidHeader), before)
    } else {
        (
            Ok(
                AnswerView::Granted(
                    http_granted(id, name.text(), base_domain),
                    SessionView::Proxied(EntryView { id, name, persisted: false }),
                ),
            ),
            before.reserve(name, id),
        )
    }
}

/// Answers a request for an HTTP tunnel that is to have a given identifier.
pub fn grant_http_tunnel<C>(
    base_domain: &str,
    tuns: &mut Tunnels<C>,
    headers: &HeaderMap<HeaderValue>,
    tun_id: TunnelId,
) -> (answer: Result<Answer, InvalidHeader>)
    ensures
        (answer_view(answer), final(tuns)@) == http_outcome(
            base_domain@,
            field_text(header_fields(*headers), "x-tinytun-subdomain"@),
            tun_id@,
            old(tuns)@,
        ),
{
    let requested = get_text(headers, "x-tinytun-subdomain");
    let entry = match tuns.reserve_subdomain(requested, tun_id) {
        Ok(entry) => entry,
        Err(_) => {
            return Ok(Answer::Refused(Reply::plain(CONFLICT, "Subdomain not available")));
        },
    };
    let subdomain = entry.name().to_text();
    let mut domain: String = subdomain.clone();
    domain.append(".");
    domain.append(base_domain);
    if !is_header_value(domain.as_str()) {
        entry.release(tuns);
        proof {
            assert(tuns@.names =~= old(tuns)@.names);
        }
        return Err(InvalidHeader);
    }
    let mut fields: Vec<(String, String)> = Vec::new();
    proof {
        assert(header_list(fields@) =~= Seq::<(Seq<char>, Seq<char>)>::empty());
    }
    add_header(&mut fields, "x-tinytun-connection-id", entry.id().to_text());
    add_header(&mut fields, "x-tinytun-domain", domain);
    add_header(&mut fields, "x-tinytun-subdomain", subdomain);
    let reply = Reply { status: SWITCHING_PROTOCOLS, headers: fields, body: "".to_owned() };
    proof {
        assert(reply@.headers =~= http_granted(tun_id@, subdomain@, base_domain@).headers);
    }
    Ok(Answer::Granted(reply, Session::Proxied(entry)))
}

/// Answers a request for an HTTP tunnel.
pub fn http_tunnel<C>(
    base_domain: &str,
    tuns: &mut Tunnels<C>,
    headers: &HeaderMap<HeaderValue>,
) -> (answer: Result<Answer, InvalidHeader>)
    ensures
        exists|id: u128|
            is_random_id(id) && (answer_view(answer), final(tuns)@) == #[trigger] http_outcome(
                base_domain@,
                field_text(header_fields(*headers), "x-tinytun-subdomain"@),
                id,
                old(tuns)@,
            ),
{
    grant_http_tunnel(base_domain, tuns, headers, TunnelId::new())
}

/// The reply that grants a TCP tunnel.
pub open spec fn tcp_granted(id: u128, port: u16) -> ReplyView {
    ReplyView {
        status: SWITCHING_PROTOCOLS,
        headers: seq![
            ("x-tinytun-connection-id"@, id_text(id)),
            ("x-tinytun-port"@, decimal(port as nat)),
        ],
        body: ""@,
    }
}

/// The reply that refuses a TCP tunnel.
pub open spec fn tcp_refused() -> ReplyView {
    ReplyView::plain(CONFLICT, "Port not available"@)
}

/// The reply that grants a TCP tunnel.
pub fn tcp_grant(tun_id: TunnelId, port: u16) -> (reply: Reply)
    ensures
        reply@ == tcp_granted(tun_id@, port),
{
    let mut fields: Vec<(String, String)> = Vec::new();
    proof {
        assert(header_list(fields@) =~= Seq::<(Seq<char>, Seq<char>)>::empty());
    }
    add_header(&mut fields, "x-tinytun-connection-id", tun_id.to_text());
    add_header(&mut fields, "x-tinytun-port", decimal_text(port));
    let reply = Reply { status: SWITCHING_PROTOCOLS, headers: fields, body: "".to_owned() };
    proof {
        assert(reply@.headers =~= tcp_granted(tun_id@, port).headers);
    }
    reply
}

/// The reply that refuses a TCP tunnel.
pub fn tcp_refusal() -> (reply: Reply)
    ensures
        reply@ == tcp_refused(),
{
    Reply::plain(CONFLICT, "Port not available")
}

/// The port that a request asks for: the number in its header field, if it is
/// one.
pub open spec fn requested_port(fields: Map<Seq<char>, Seq<Seq<u8>>>) -> Option<u16> {
    match field_text(fields, "x-tinytun-port"@) {
        Some(text) => port_of(text),
        None => None,
    }
}

/// The port that a request asks for.
pub fn port_request(headers: &HeaderMap<HeaderValue>) -> (port: Option<u16>)
    ensures
        port == requested_port(header_fields(*headers)),
{
    match get_text(headers, "x-tinytun-port") {
        Some(text) => parse_port(text.as_str()),
        None => None,
    }
}

/// Whether an answer is what comes of a request for a TCP tunnel, given what
/// became of the reservation of its port.
pub open spec fn tcp_answer(
    answer: AnswerView,
    id: u128,
    reserved: Result<(NameView, u16), RegistryError>,
    proxied: bool,
) -> bool {
    match reserved {
        Ok((name, port)) => {
            let session = if proxied {
                SessionView::Proxied(EntryView { id, name, persisted: false })
            } else {
                SessionView::Listening(id, port)
            };
            answer == AnswerView::Granted(tcp_granted(id, port), session)
        },
        Err(_) => answer == AnswerView::Refused(tcp_refused()),
    }
}

/// Whether an answer, and a registry afterwards, are what comes of a request for
/// a TCP tunnel.
pub open spec fn tcp_outcome<C>(
    port: Option<u16>,
    proxied: bool,
    before: RegistryView<C>,
    answer: AnswerView,
    after: RegistryView<C>,
) -> bool {
    exists|id: u128, reserved: Result<(NameView, u16), RegistryError>|
        is_random_id(id) && #[trigger] port_reservation(before, after, port, id, reserved)
            && tcp_answer(answer, id, reserved, proxied)
}

/// Answers a request for a TCP tunnel that listens on its port itself.
pub fn tcp_tunnel<C>(tuns: &mut Tunnels<C>, headers: &HeaderMap<HeaderValue>) -> (answer: Answer)
    ensures
        tcp_outcome(
            requested_port(header_fields(*headers)),
            false,
            old(tuns)@,
            answer@,
            final(tuns)@,
        ),
{
    let port = port_request(headers);
    match tuns.new_tcp_tunnel(port) {
        Ok((tun_id, port)) => Answer::Granted(
            tcp_grant(tun_id, port),
            Session::Listening(tun_id, port),
        ),
        Err(_) => Answer::Refused(tcp_refusal()),
    }
}

/// Answers a request for a TCP tunnel whose streams come through the shared
/// proxy.
pub fn tcp_proxy_tunnel<C>(
    tuns: &mut Tunnels<C>,
    headers: &HeaderMap<HeaderValue>,
) -> (answer: Answer)
    ensures
        tcp_outcome(
            requested_port(header_fields(*headers)),
            true,
            old(tuns)@,
            answer@,
            final(tuns)@,
        ),
{
    let port = port_request(headers);
    match tuns.new_tcp_proxy_tunnel(port) {
        Ok((entry, port)) => Answer::Granted(tcp_grant(entry.id(), port), Session::Proxied(entry)),
        Err(_) => Answer::Refused(tcp_refusal()),
    }
}

/// What a request to the API asks for.
#[derive(Debug, Clone, Copy, PartialEq, Eq, Structural)]
pub enum ApiRoute {
    /// No tunnel.
    Greeting,
    /// A TCP tunnel through the shared proxy.
    TcpProxy,
    /// A TCP tunnel with a listener of its own.
    TcpPort,
    /// An HTTP tunnel.
    Http,
}

/// What a request to the API asks for. Tunnels are asked for with `CONNECT`, and
/// are HTTP tunnels unless the request names another type.
pub open spec fn api_route(method: Seq<char>, tunnel_type: Option<Seq<char>>) -> ApiRoute {
    if method != "CONNECT"@ {
        ApiRoute::Greeting
    } else if tunnel_type == Some("tcp"@) {
        ApiRoute::TcpProxy
    } else if tunnel_type == Some("tcp_port"@) {
        ApiRoute::TcpPort
    } else {
        ApiRoute::Http
    }
}

/// What a request to the API asks for.
pub fn route_request(method: &str, headers: &HeaderMap<HeaderValue>) -> (route: ApiRoute)
    ensures
        route == api_route(method@, field_text(header_fields(*headers), "x-tinytun-type"@)),
{
    if !same_text(method, "CONNECT") {
        return ApiRoute::Greeting;
    }
    proof {
        reveal_strlit("tcp");
        reveal_strlit("tcp_port");
    }
    match get_text(headers, "x-tinytun-type") {
        Some(tunnel_type) => if same_text(tunnel_type.as_str(), "tcp") {
            ApiRoute::TcpProxy
        } else if same_text(tunnel_type.as_str(), "tcp_port") {
            ApiRoute::TcpPort
        } else {
            ApiRoute::Http
        },
        None => ApiRoute::Http,
    }
}

/// The reply to a request that asks for no tunnel.
pub open spec fn greeting_reply() -> ReplyView {
    ReplyView { status: OK, headers: seq![("connection"@, "close"@)], body: ""@ }
}

/// The reply to a request that asks for no tunnel.
pub fn greeting() -> (reply: Reply)
    ensures
        reply@ == greeting_reply(),
{
    let mut fields: Vec<(String, String)> = Vec::new();
    proof {
        assert(header_list(fields@) =~= Seq::<(Seq<char>, Seq<char>)>::empty());
    }
    add_header(&mut fields, "connection", "close".to_owned());
    let reply = Reply { status: OK, headers: fields, body: "".to_owned() };
    proof {
        assert(reply@.headers =~= greeting_reply().headers);
    }
    reply
}

/// Answers a request to the API.
pub fn answer_request<C>(
    method: &str,
    base_domain: &str,
    tuns: &mut Tunnels<C>,
    headers: &HeaderMap<HeaderValue>,
) -> (answer: Result<Answer, InvalidHeader>)
    ensures
        ({
            let fields = header_fields(*headers);
            match api_route(method@, field_text(fields, "x-tinytun-type"@)) {
                ApiRoute::Greeting => {
                    &&& answer_view(answer) == Ok::<AnswerView, InvalidHeader>(
                        AnswerView::Refused(greeting_reply()),
                    )
                    &&& final(tuns)@ == old(tuns)@
                },
                ApiRoute::TcpProxy => {
                    &&& answer is Ok
                    &&& tcp_outcome(
                        requested_port(fields),
                        true,
                        old(tuns)@,
                        answer->Ok_0@,
                        final(tuns)@,
                    )
                },
                ApiRoute::TcpPort => {
                    &&& answer is Ok
                    &&& tcp_outcome(
                        requested_port(fields),
                        false,
                        old(tuns)@,
                        answer->Ok_0@,
                        final(tuns)@,
                    )
                },
                ApiRoute::Http => exists|id: u128|
                    is_random_id(id) && (answer_view(answer), final(tuns)@)
                        == #[trigger] http_outcome(
                        base_domain@,
                        field_text(fields, "x-tinytun-subdomain"@),
                        id,
                        old(tuns)@,
                    ),
            }
        }),
{
    match route_request(method, headers) {
        ApiRoute::Greeting => Ok(Answer::Refused(greeting())),
        ApiRoute::TcpProxy => Ok(tcp_proxy_tunnel(tuns, headers)),
        ApiRoute::TcpPort => Ok(tcp_tunnel(tuns, headers)),
        ApiRoute::Http => http_tunnel(base_domain, tuns, headers),
    }
}

/// The answer to a question about the open tunnels.
#[derive(Debug)]
pub enum MetadataAnswer {
    /// What there is to tell about them.
    Listing(Vec<TunnelMetadata>),
    /// Nothing is told under this path.
    Missing(Reply),
}

/// Answers a question about the open tunnels: there is one list of them all, and
/// nothing else.
pub fn metadata_answer<C>(path: &str, tuns: &Tunnels<C>) -> (answer: MetadataAnswer)
    ensures
        match answer {
            MetadataAnswer::Listing(list) => path@ == "/tunnels"@ && lists_tunnels(
                list@,
                tuns@.tunnels,
            ),
            MetadataAnswer::Missing(reply) => path@ != "/tunnels"@ && reply@ == ReplyView::plain(
                NOT_FOUND,
                ""@,
            ),
        },
{
    if same_text(path, "/tunnels") {
        MetadataAnswer::Listing(tuns.list_tunnels_metadata())
    } else {
        MetadataAnswer::Missing(Reply::plain(NOT_FOUND, ""))
    }
}

/// A subdomain that is asked for in a header field can stand in the reply, and
/// so can an identifier. A request for an HTTP tunnel under a free name is
/// granted wherever the base domain can stand in a header field.
pub proof fn a_free_subdomain_is_granted<C>(
    base_domain: Seq<char>,
    fields: Map<Seq<char>, Seq<Seq<u8>>>,
    id: u128,
    before: RegistryView<C>,
)
    requires
        header_safe(base_domain),
        !before.taken(
            requested_subdomain(field_text(fields, "x-tinytun-subdomain"@), id),
        ),
    ensures
        ({
            let requested = field_text(fields, "x-tinytun-subdomain"@);
            let name = requested_subdomain(requested, id);
            http_outcome(base_domain, requested, id, before) == (
                Ok::<AnswerView, InvalidHeader>(
                    AnswerView::Granted(
                        http_granted(id, name.text(), base_domain),
                        SessionView::Proxied(EntryView { id, name, persisted: false }),
                    ),
                ),
                before.reserve(name, id),
            )
        }),
{
    let requested = field_text(fields, "x-tinytun-subdomain"@);
    let name = requested_subdomain(requested, id).text();
    reveal_strlit(".");
    hex_text_shape(id as nat, 32);
    let domain = full_domain(name, base_domain);
    assert(header_safe(name)) by {
        match requested {
            Some(s) => {
                let value = first_value(fields, "x-tinytun-subdomain"@)->Some_0;
                assert forall|i: int| 0 <= i < s.len() implies {
                    let code = (#[trigger] s[i]) as u32;
                    32 <= code && code != 127 || code == 9
                } by {
                    assert(is_visible(value[i]));
                }
            },
            None => {
                assert forall|i: int| 0 <= i < name.len() implies {
                    let code = (#[trigger] name[i]) as u32;
                    32 <= code && code != 127 || code == 9
                } by {
                    let c = hex_text(id as nat, 32)[i];
                }
            },
        }
    }
    assert forall|i: int| 0 <= i < domain.len() implies {
        let code = (#[trigger] domain[i]) as u32;
        32 <= code && code != 127 || code == 9
    } by {
        if i < name.len() {
            assert(domain[i] == name[i]);
        } else if i > name.len() {
            assert(domain[i] == base_domain[i - name.len() - 1]);
        }
    }
}

/// A request for an HTTP tunnel under a taken name is answered with a conflict,
/// and changes nothing.
pub proof fn a_taken_subdomain_is_refused<C>(
    base_domain: Seq<char>,
    subdomain: Seq<char>,
    id: u128,
    before: RegistryView<C>,
)
    requires
        before.taken(NameView::Subdomain(subdomain)),
    ensures
        http_outcome(base_domain, Some(subdomain), id, before) == (
            Ok::<AnswerView, InvalidHeader>(
                AnswerView::Refused(ReplyView::plain(CONFLICT, "Subdomain not available"@)),
            ),
            before,
        ),
{
}

/// A request for a TCP tunnel under a port that is taken or outside the range is
/// answered with a conflict, and changes nothing; one under any other port is
/// granted that port.
pub proof fn a_requested_port_decides<C>(
    port: u16,
    proxied: bool,
    before: RegistryView<C>,
    answer: AnswerView,
    after: RegistryView<C>,
)
    requires
        tcp_outcome(Some(port), proxied, before, answer, after),
    ensures
        ({
            let name = NameView::PortNumber(port);
            if !may_request(port) || before.taken(name) {
                answer == AnswerView::Refused(tcp_refused()) && after == before
            } else {
                exists|id: u128|
                    #![trigger tcp_granted(id, port)]
                    after == before.reserve(name, id) && answer == AnswerView::Granted(
                        tcp_granted(id, port),
                        if proxied {
                            SessionView::Proxied(EntryView { id, name, persisted: false })
                        } else {
                            SessionView::Listening(id, port)
                        },
                    )
            }
        }),
{
}

} // verus!
