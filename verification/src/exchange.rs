//! What a client and a server make of each other's messages.
use vstd::prelude::*;
use vstd::utf8::*;

use crate::api::{
    a_free_subdomain_is_granted, api_route, full_domain, http_granted, http_outcome,
    requested_port, tcp_granted, AnswerView, ApiRoute, InvalidHeader, CONFLICT,
};
use crate::client::{BuilderView, ListenError, TunnelType};
use crate::headers::{field_text, first_value, header_safe};
use crate::name::NameView;
use crate::proxy::{a_visitor_reaches_the_client, route_host, HttpStepView};
use crate::reply::ReplyView;
use crate::text::{
    ascii_lower_text, decimal, decimal_is_digits, decimal_reads_back, is_digit, is_visible,
    visible_text,
};
use crate::tunnel::{requested_subdomain, RegistryView, Tunnel};
use crate::tunnel_id::{hex_text, hex_text_shape, id_text};

verus! {

/// Whether a header name belongs to this service.
pub open spec fn is_own_name(name: Seq<char>) -> bool {
    name.len() >= 10 && name.take(10) == "x-tinytun-"@
}

/// Whether a text is visible ASCII throughout.
pub open spec fn is_visible_text(s: Seq<char>) -> bool {
    forall|i: int|
        0 <= i < s.len() ==> {
            let v = (#[trigger] s[i]) as u32;
            32 <= v < 127 || v == 9
        }
}

/// Whether a character is a space or a tab.
pub open spec fn is_padding(c: char) -> bool {
    c as u32 == 32 || c as u32 == 9
}

/// Whether a text neither starts nor ends with a space or a tab, which would be
/// lost around a header value.
pub open spec fn unpadded(s: Seq<char>) -> bool {
    s.len() > 0 ==> !is_padding(s[0]) && !is_padding(s.last())
}

/// Whether header fields that have arrived are those of a message, among fields
/// that do not belong to this service.
pub open spec fn carries(
    fields: Map<Seq<char>, Seq<Seq<u8>>>,
    list: Seq<(Seq<char>, Seq<char>)>,
) -> bool {
    &&& forall|i: int|
        0 <= i < list.len() && unpadded((#[trigger] list[i]).1) ==> first_value(fields, list[i].0)
            == Some(encode_utf8(list[i].1))
    &&& forall|name: Seq<char>|
        is_own_name(name) && #[trigger] fields.contains_key(name) ==> exists|i: int|
            0 <= i < list.len() && (#[trigger] list[i]).0 == name
}

/// Whether header fields that have arrived are those of an answer, if there is
/// one.
pub open spec fn arrives(
    fields: Map<Seq<char>, Seq<Seq<u8>>>,
    answer: Result<AnswerView, InvalidHeader>,
) -> bool {
    match answer {
        Ok(AnswerView::Refused(reply)) => carries(fields, reply.headers),
        Ok(AnswerView::Granted(reply, _)) => carries(fields, reply.headers),
        Err(_) => true,
    }
}

/// A character with a low code is ASCII.
proof fn a_low_code_is_ascii(c: char)
    requires
        (c as u32) < 128,
    ensures
        '\0' <= c <= '\u{7f}',
        c as u8 as u32 == c as u32,
        c as u8 as char == c,
{
}

/// A visible text is read back from its encoding.
proof fn visible_text_is_read_back(s: Seq<char>)
    requires
        is_visible_text(s),
    ensures
        visible_text(encode_utf8(s)) == Some(s),
{
    assert forall|i: int| 0 <= i < s.len() implies '\0' <= #[trigger] s[i] <= '\u{7f}' by {
        a_low_code_is_ascii(s[i]);
    }
    is_ascii_chars_encode_utf8(s);
    let bytes = encode_utf8(s);
    assert forall|i: int| 0 <= i < bytes.len() implies is_visible(#[trigger] bytes[i]) by {
        assert(bytes[i] == s[i] as u8);
    }
    assert(bytes.map_values(|b: u8| b as char) =~= s);
}

/// A field of a message arrives as it was sent.
proof fn a_field_arrives(
    fields: Map<Seq<char>, Seq<Seq<u8>>>,
    list: Seq<(Seq<char>, Seq<char>)>,
    i: int,
)
    requires
        carries(fields, list),
        0 <= i < list.len(),
        is_visible_text(list[i].1),
        unpadded(list[i].1),
    ensures
        field_text(fields, list[i].0) == Some(list[i].1),
{
    visible_text_is_read_back(list[i].1);
}

/// The header names of this service: each is written small, and they differ.
proof fn own_names()
    ensures
        is_own_name("x-tinytun-type"@),
        is_own_name("x-tinytun-port"@),
        is_own_name("x-tinytun-subdomain"@),
        is_own_name("x-tinytun-domain"@),
        ascii_lower_text("x-tinytun-type"@) == "x-tinytun-type"@,
        ascii_lower_text("x-tinytun-port"@) == "x-tinytun-port"@,
        ascii_lower_text("x-tinytun-subdomain"@) == "x-tinytun-subdomain"@,
        ascii_lower_text("x-tinytun-domain"@) == "x-tinytun-domain"@,
        "x-tinytun-type"@ != "x-tinytun-port"@,
        "x-tinytun-type"@ != "x-tinytun-subdomain"@,
        "x-tinytun-type"@ != "x-tinytun-domain"@,
        "x-tinytun-port"@ != "x-tinytun-subdomain"@,
        "x-tinytun-port"@ != "x-tinytun-domain"@,
        "x-tinytun-subdomain"@ != "x-tinytun-domain"@,
{
    reveal_strlit("x-tinytun-");
    reveal_strlit("x-tinytun-type");
    reveal_strlit("x-tinytun-port");
    reveal_strlit("x-tinytun-subdomain");
    reveal_strlit("x-tinytun-domain");
    assert("x-tinytun-type"@.take(10) =~= "x-tinytun-"@);
    assert("x-tinytun-port"@.take(10) =~= "x-tinytun-"@);
    assert("x-tinytun-subdomain"@.take(10) =~= "x-tinytun-"@);
    assert("x-tinytun-domain"@.take(10) =~= "x-tinytun-"@);
    assert(ascii_lower_text("x-tinytun-type"@) =~= "x-tinytun-type"@);
    assert(ascii_lower_text("x-tinytun-port"@) =~= "x-tinytun-port"@);
    assert(ascii_lower_text("x-tinytun-subdomain"@) =~= "x-tinytun-subdomain"@);
    assert(ascii_lower_text("x-tinytun-domain"@) =~= "x-tinytun-domain"@);
    assert("x-tinytun-type"@[10] == 't');
    assert("x-tinytun-port"@[10] == 'p');
    assert("x-tinytun-subdomain"@[10] == 's');
    assert("x-tinytun-domain"@[10] == 'd');
}

/// A number in decimal is visible.
proof fn decimal_is_visible(n: nat)
    ensures
        is_visible_text(decimal(n)),
        unpadded(decimal(n)),
{
    decimal_is_digits(n);
    let s = decimal(n);
    assert forall|i: int| 0 <= i < s.len() implies {
        let v = (#[trigger] s[i]) as u32;
        32 <= v < 127 || v == 9
    } by {
        assert(is_digit(s[i]));
    }
    assert(is_digit(s[0]));
    assert(is_digit(s[s.len() - 1]));
}

/// The server understands what a client asks for: an HTTP tunnel, under the
/// subdomain that the client wants if it wants one, or a TCP tunnel through the
/// shared proxy, at the port that it wants if it wants one.
pub proof fn a_request_is_understood(
    builder: BuilderView,
    fields: Map<Seq<char>, Seq<Seq<u8>>>,
)
    requires
        builder.request() is Ok,
        carries(fields, builder.request()->Ok_0.headers),
        builder.wanted_subdomain() matches Some(s) ==> is_visible_text(s) && unpadded(s),
    ensures
        ({
            let route = api_route(
                builder.request()->Ok_0.method,
                field_text(fields, "x-tinytun-type"@),
            );
            match builder.tunnel_type {
                TunnelType::Tcp => route == ApiRoute::TcpProxy && requested_port(fields)
                    == builder.port,
                TunnelType::Http => route == ApiRoute::Http && field_text(
                    fields,
                    "x-tinytun-subdomain"@,
                ) == builder.wanted_subdomain(),
            }
        }),
{
    own_names();
    let list = builder.request()->Ok_0.headers;
    reveal_strlit("tcp");
    reveal_strlit("http");
    reveal_strlit("tcp_port");
    assert("tcp"@.len() == 3);
    assert("tcp_port"@.len() == 8);
    assert("http"@.len() == 4);
    assert(list[0].1 == builder.tunnel_type.text());
    a_field_arrives(fields, list, 0);
    match builder.tunnel_type {
        TunnelType::Tcp => {
            match builder.port {
                Some(port) => {
                    decimal_is_visible(port as nat);
                    decimal_reads_back(port);
                    assert(list[1] == ("x-tinytun-port"@, decimal(port as nat)));
                    a_field_arrives(fields, list, 1);
                },
                None => {
                    assert(list.len() == 1);
                    assert(!fields.contains_key("x-tinytun-port"@));
                },
            }
        },
        TunnelType::Http => {
            match builder.wanted_subdomain() {
                Some(s) => {
                    assert(list[1] == ("x-tinytun-subdomain"@, s));
                    a_field_arrives(fields, list, 1);
                },
                None => {
                    assert(list.len() == 1);
                    assert(!fields.contains_key("x-tinytun-subdomain"@));
                },
            }
        },
    }
}

/// The client of a granted HTTP tunnel is told its domain, and of it makes the
/// public address.
pub proof fn a_granted_domain_is_told(
    builder: BuilderView,
    fields: Map<Seq<char>, Seq<Seq<u8>>>,
    id: u128,
    subdomain: Seq<char>,
    base_domain: Seq<char>,
    built: Option<Seq<char>>,
)
    requires
        builder.request() is Ok,
        builder.tunnel_type == TunnelType::Http,
        carries(fields, http_granted(id, subdomain, base_domain).headers),
        is_visible_text(full_domain(subdomain, base_domain)),
        unpadded(full_domain(subdomain, base_domain)),
    ensures
        field_text(fields, "x-tinytun-domain"@) == Some(full_domain(subdomain, base_domain)),
        builder.proxy_url(fields, built) == (match built {
            Some(url) => Ok::<Seq<char>, ListenError>(url),
            None => Err::<Seq<char>, ListenError>(ListenError::InvalidDomain),
        }),
{
    let list = http_granted(id, subdomain, base_domain).headers;
    assert(list[1] == ("x-tinytun-domain"@, full_domain(subdomain, base_domain)));
    a_field_arrives(fields, list, 1);
}

/// The client of a granted TCP tunnel is told its port, and of it makes the
/// public address.
pub proof fn a_granted_port_is_told(
    builder: BuilderView,
    fields: Map<Seq<char>, Seq<Seq<u8>>>,
    id: u128,
    port: u16,
    built: Option<Seq<char>>,
)
    requires
        builder.request() is Ok,
        builder.has_host(),
        builder.tunnel_type == TunnelType::Tcp,
        carries(fields, tcp_granted(id, port).headers),
    ensures
        builder.proxy_url(fields, built) == Ok::<Seq<char>, ListenError>(
            builder.server_url->Some_0.host->Some_0 + ":"@ + decimal(port as nat),
        ),
{
    let list = tcp_granted(id, port).headers;
    assert(list[1] == ("x-tinytun-port"@, decimal(port as nat)));
    decimal_is_visible(port as nat);
    a_field_arrives(fields, list, 1);
}

/// A client whose request is refused gets no tunnel.
pub proof fn a_refused_client_fails(
    builder: BuilderView,
    fields: Map<Seq<char>, Seq<Seq<u8>>>,
    body: Seq<char>,
    built: Option<Seq<char>>,
)
    requires
        builder.request() is Ok,
        carries(fields, ReplyView::plain(CONFLICT, body).headers),
    ensures
        builder.proxy_url(fields, built) == Err::<Seq<char>, ListenError>(
            match builder.tunnel_type {
                TunnelType::Tcp => ListenError::MissingPort,
                TunnelType::Http => ListenError::MissingDomain,
            },
        ),
{
    own_names();
    assert(ReplyView::plain(CONFLICT, body).headers.len() == 0);
    assert(!fields.contains_key("x-tinytun-port"@));
    assert(!fields.contains_key("x-tinytun-domain"@));
}

/// Of two clients that ask for the same subdomain, the second one gets no
/// tunnel, and the first one keeps its own.
pub proof fn a_second_client_fails<C>(
    base_domain: Seq<char>,
    subdomain: Seq<char>,
    first: u128,
    second: u128,
    before: RegistryView<C>,
    builder: BuilderView,
    fields: Map<Seq<char>, Seq<Seq<u8>>>,
    built: Option<Seq<char>>,
)
    requires
        http_outcome(base_domain, Some(subdomain), first, before).0 matches Ok(answer)
            && answer is Granted,
        builder.request() is Ok,
        builder.tunnel_type == TunnelType::Http,
        ({
            let granted = http_outcome(base_domain, Some(subdomain), first, before).1;
            let answer = http_outcome(base_domain, Some(subdomain), second, granted).0;
            arrives(fields, answer)
        }),
    ensures
        ({
            let granted = http_outcome(base_domain, Some(subdomain), first, before).1;
            &&& http_outcome(base_domain, Some(subdomain), second, granted).1 == granted
            &&& http_outcome(base_domain, Some(subdomain), second, granted).0 is Ok
            &&& http_outcome(base_domain, Some(subdomain), second, granted).0->Ok_0 is Refused
            &&& granted.names[NameView::Subdomain(subdomain)] == first
            &&& builder.proxy_url(fields, built) == Err::<Seq<char>, ListenError>(
                ListenError::MissingDomain,
            )
        }),
{
    a_refused_client_fails(builder, fields, "Subdomain not available"@, built);
}

/// From a client's wish to its first visitor. A client asks for an HTTP tunnel
/// under a free name; the tunnel is granted; the client is told the domain; and
/// once the client is connected, a visitor of that domain reaches it.
pub proof fn a_wish_comes_true<C>(
    builder: BuilderView,
    sent: Map<Seq<char>, Seq<Seq<u8>>>,
    base_domain: Seq<char>,
    id: u128,
    before: RegistryView<C>,
    received: Map<Seq<char>, Seq<Seq<u8>>>,
    client: C,
    suffix: Seq<char>,
)
    requires
        builder.request() is Ok,
        builder.tunnel_type == TunnelType::Http,
        builder.wanted_subdomain() matches Some(s) ==> is_visible_text(s) && unpadded(s)
            && !s.contains('.'),
        is_visible_text(base_domain),
        unpadded(base_domain),
        carries(sent, builder.request()->Ok_0.headers),
        !before.taken(requested_subdomain(builder.wanted_subdomain(), id)),
        arrives(
            received,
            http_outcome(
                base_domain,
                field_text(sent, "x-tinytun-subdomain"@),
                id,
                before,
            ).0,
        ),
    ensures
        ({
            let name = requested_subdomain(builder.wanted_subdomain(), id);
            let domain = full_domain(name.text(), base_domain);
            let (answer, granted) = http_outcome(
                base_domain,
                field_text(sent, "x-tinytun-subdomain"@),
                id,
                before,
            );
            &&& api_route(
                builder.request()->Ok_0.method,
                field_text(sent, "x-tinytun-type"@),
            ) == ApiRoute::Http
            &&& answer is Ok && answer->Ok_0 is Granted
            &&& granted == before.reserve(name, id)
            &&& field_text(received, "x-tinytun-domain"@) == Some(domain)
            &&& route_host(domain + suffix) == HttpStepView::Find(name)
            &&& granted.attach(id, Tunnel::serving(client), name).find(name) == Some(
                Tunnel::serving(client),
            )
        }),
{
    a_request_is_understood(builder, sent);
    let requested = builder.wanted_subdomain();
    let name = requested_subdomain(requested, id);
    let domain = full_domain(name.text(), base_domain);
    reveal_strlit(".");
    assert(header_safe(base_domain)) by {
        assert forall|i: int| 0 <= i < base_domain.len() implies {
            let code = (#[trigger] base_domain[i]) as u32;
            32 <= code && code != 127 || code == 9
        } by {}
    }
    a_free_subdomain_is_granted(base_domain, sent, id, before);
    an_identifier_is_visible(id);
    assert(is_visible_text(name.text()) && unpadded(name.text()));
    assert(is_visible_text(domain)) by {
        assert forall|i: int| 0 <= i < domain.len() implies {
            let v = (#[trigger] domain[i]) as u32;
            32 <= v < 127 || v == 9
        } by {
            if i < name.text().len() {
                assert(domain[i] == name.text()[i]);
            } else if i > name.text().len() {
                assert(domain[i] == base_domain[i - name.text().len() - 1]);
            }
        }
    }
    assert(unpadded(domain)) by {
        if name.text().len() > 0 {
            assert(domain[0] == name.text()[0]);
        }
        if base_domain.len() > 0 {
            assert(domain.last() == base_domain.last());
        }
    }
    a_granted_domain_is_told(builder, received, id, name.text(), base_domain, None);
    a_visitor_reaches_the_client(base_domain, requested, id, before, client, suffix);
}

/// An identifier is visible.
proof fn an_identifier_is_visible(id: u128)
    ensures
        is_visible_text(id_text(id)),
        unpadded(id_text(id)),
{
    hex_text_shape(id as nat, 32);
    let s = hex_text(id as nat, 32);
    assert forall|i: int| 0 <= i < s.len() implies {
        let v = (#[trigger] s[i]) as u32;
        32 <= v < 127 || v == 9
    } by {
        let c = hex_text(id as nat, 32)[i];
    }
    let first = hex_text(id as nat, 32)[0];
    let last = hex_text(id as nat, 32)[31];
}

} // verus!
