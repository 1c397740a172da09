//! The client's side: asking for a tunnel, and keeping it up.
use http::{HeaderMap, HeaderValue};
use vstd::prelude::*;
use vstd::string::*;

use crate::headers::{
    field_text, first_value, get_value, header_fields, header_safe, is_header_value,
};
use crate::reply::{add_header, header_list};
use crate::text::{
    blank, decimal, decimal_text, header_text, is_blank, opt_text, same_text, visible_text,
};
use crate::uri::{build_uri, built_uri, plain_authority, uri_of, UriParts, UriView};

verus! {

/// How many streams a client takes at once, unless told otherwise.
pub const DEFAULT_MAX_STREAMS: u32 = 100;

/// What a tunnel carries.
#[derive(Debug, Clone, Copy, PartialEq, Eq, Structural)]
pub enum TunnelType {
    /// Any stream of bytes.
    Tcp,
    /// HTTP requests.
    Http,
}

impl TunnelType {
    /// How a type is written.
    pub open spec fn text(self) -> Seq<char> {
        match self {
            TunnelType::Tcp => "tcp"@,
            TunnelType::Http => "http"@,
        }
    }

    /// The type as text.
    pub fn to_text(&self) -> (text: String)
        ensures
            text@ == self.text(),
    {
        match self {
            TunnelType::Tcp => "tcp".to_owned(),
            TunnelType::Http => "http".to_owned(),
        }
    }

    /// Reads a type.
    pub fn parse(s: &str) -> (parsed: Result<TunnelType, &'static str>)
        ensures
            match parsed {
                Ok(t) => t.text() == s@,
                Err(text) => {
                    &&& s@ != TunnelType::Tcp.text()
                    &&& s@ != TunnelType::Http.text()
                    &&& text@ == "invalid tunnel type"@
                },
            },
    {
        if same_text(s, "tcp") {
            Ok(TunnelType::Tcp)
        } else if same_text(s, "http") {
            Ok(TunnelType::Http)
        } else {
            Err("invalid tunnel type")
        }
    }
}

impl std::str::FromStr for TunnelType {
    type Err = &'static str;

    fn from_str(s: &str) -> (parsed: Result<TunnelType, &'static str>)
        ensures
            match parsed {
                Ok(t) => t.text() == s@,
                Err(text) => {
                    &&& s@ != TunnelType::Tcp.text()
                    &&& s@ != TunnelType::Http.text()
                    &&& text@ == "invalid tunnel type"@
                },
            },
    {
        TunnelType::parse(s)
    }
}

/// A type that was written is read back, and no two are written the same.
pub proof fn a_type_is_read_back(a: TunnelType, b: TunnelType)
    requires
        a.text() == b.text(),
    ensures
        a == b,
{
    reveal_strlit("tcp");
    reveal_strlit("http");
    assert("tcp"@.len() == 3);
    assert("http"@.len() == 4);
}

/// Why no tunnel comes about.
#[derive(Debug, Clone, Copy, PartialEq, Eq, Structural)]
pub enum ListenError {
    /// The address of the server is malformed.
    InvalidServerUrl,
    /// The subdomain cannot stand in a header field.
    InvalidSubdomain,
    /// The server does not tell the port.
    MissingPort,
    /// The server does not tell the domain.
    MissingDomain,
    /// What the server tells is not text.
    UnreadableHeader,
    /// The domain that the server tells is malformed.
    InvalidDomain,
}

impl ListenError {
    /// What the error says, where its words are not those of a parser.
    pub open spec fn text(self) -> Option<Seq<char>> {
        match self {
            ListenError::MissingPort => Some("Server didn't provide a connection port"@),
            ListenError::MissingDomain => Some("Server didn't provide a connection id"@),
            _ => None,
        }
    }

    /// What the error says, where its words are not those of a parser.
    pub fn message(&self) -> (text: Option<String>)
        ensures
            opt_text(text) == self.text(),
    {
        match self {
            ListenError::MissingPort => Some("Server didn't provide a connection port".to_owned()),
            ListenError::MissingDomain => Some("Server didn't provide a connection id".to_owned()),
            _ => None,
        }
    }
}

/// What is needed to ask for a tunnel.
#[derive(Debug)]
pub struct TunnelBuilder {
    server_url: Option<UriParts>,
    subdomain: Option<String>,
    port: Option<u16>,
    max_concurrent_streams: u32,
    tunnel_type: TunnelType,
}

/// What a builder holds.
pub struct BuilderView {
    /// The address of the server, unless it is malformed.
    pub server_url: Option<UriView>,
    /// The subdomain that is asked for.
    pub subdomain: Option<String>,
    /// The port that is asked for.
    pub port: Option<u16>,
    /// How many streams are taken at once.
    pub max_concurrent_streams: u32,
    /// What the tunnel carries.
    pub tunnel_type: TunnelType,
}

/// A URI by what it is made of, or its absence.
pub open spec fn opt_uri(uri: Option<UriParts>) -> Option<UriView> {
    match uri {
        Some(u) => Some(u@),
        None => None,
    }
}

impl View for TunnelBuilder {
    type V = BuilderView;

    closed spec fn view(&self) -> BuilderView {
        BuilderView {
            server_url: opt_uri(self.server_url),
            subdomain: self.subdomain,
            port: self.port,
            max_concurrent_streams: self.max_concurrent_streams,
            tunnel_type: self.tunnel_type,
        }
    }
}

impl BuilderView {
    /// The settings before any is made.
    pub open spec fn initial() -> BuilderView {
        BuilderView {
            server_url: uri_of("https://tinytun.com:5555"@),
            subdomain: None,
            port: None,
            max_concurrent_streams: DEFAULT_MAX_STREAMS,
            tunnel_type: TunnelType::Http,
        }
    }
}

/// A request for a tunnel.
#[derive(Debug)]
pub struct ConnectRequest {
    /// The address of the server.
    pub uri: String,
    /// The method.
    pub method: String,
    /// The header fields, in order.
    pub headers: Vec<(String, String)>,
}

/// What a request for a tunnel says.
pub struct RequestView {
    /// See [`ConnectRequest::uri`].
    pub uri: Seq<char>,
    /// See [`ConnectRequest::method`].
    pub method: Seq<char>,
    /// See [`ConnectRequest::headers`].
    pub headers: Seq<(Seq<char>, Seq<char>)>,
}

impl View for ConnectRequest {
    type V = RequestView;

    open spec fn view(&self) -> RequestView {
        RequestView {
            uri: self.uri@,
            method: self.method@,
            headers: header_list(self.headers@),
        }
    }
}

/// The header fields of a request for a tunnel: its type, and the port or the
/// subdomain that is asked for.
pub open spec fn request_headers(
    tunnel_type: TunnelType,
    port: Option<u16>,
    subdomain: Option<Seq<char>>,
) -> Seq<(Seq<char>, Seq<char>)> {
    let kind = seq![("x-tinytun-type"@, tunnel_type.text())];
    match tunnel_type {
        TunnelType::Tcp => match port {
            Some(p) => kind.push(("x-tinytun-port"@, decimal(p as nat))),
            None => kind,
        },
        TunnelType::Http => match subdomain {
            Some(s) => kind.push(("x-tinytun-subdomain"@, s)),
            None => kind,
        },
    }
}

impl BuilderView {
    /// The subdomain that is asked for; one of white space only counts for none.
    pub open spec fn wanted_subdomain(self) -> Option<Seq<char>> {
        match self.subdomain {
            Some(s) => if blank(s@) {
                None
            } else {
                Some(s@)
            },
            None => None,
        }
    }

    /// The request that asks for the tunnel.
    pub open spec fn request(self) -> Result<RequestView, ListenError> {
        if self.server_url is None {
            Err(ListenError::InvalidServerUrl)
        } else if self.tunnel_type == TunnelType::Http && self.wanted_subdomain() is Some
            && !header_safe(self.wanted_subdomain()->Some_0) {
            Err(ListenError::InvalidSubdomain)
        } else {
            Ok(
                RequestView {
                    uri: self.server_url->Some_0.text,
                    method: "CONNECT"@,
                    headers: request_headers(self.tunnel_type, self.port, self.wanted_subdomain()),
                },
            )
        }
    }

    /// Whether the address of the server names a host.
    pub open spec fn has_host(self) -> bool {
        self.server_url is Some && self.server_url->Some_0.host is Some
    }

    /// The scheme of public addresses: that of the server.
    pub open spec fn scheme(self) -> Seq<char> {
        match self.server_url {
            Some(url) => match url.scheme {
                Some(scheme) => scheme,
                None => "http"@,
            },
            None => "http"@,
        }
    }

    /// The public address of the tunnel, from the header fields with which the
    /// server grants it. A TCP tunnel is reached at a port of the server, an HTTP
    /// tunnel at a domain of its own. The last argument is the URI that the
    /// scheme and that domain make when put together.
    pub open spec fn proxy_url(
        self,
        fields: Map<Seq<char>, Seq<Seq<u8>>>,
        built: Option<Seq<char>>,
    ) -> Result<Seq<char>, ListenError> {
        if self.server_url is None {
            Err(ListenError::InvalidServerUrl)
        } else {
            match self.tunnel_type {
                TunnelType::Tcp => match first_value(fields, "x-tinytun-port"@) {
                    None => Err(ListenError::MissingPort),
                    Some(value) => match visible_text(value) {
                        None => Err(ListenError::UnreadableHeader),
                        Some(port) => Ok(self.server_url->Some_0.host->Some_0 + ":"@ + port),
                    },
                },
                TunnelType::Http => match first_value(fields, "x-tinytun-domain"@) {
                    None => Err(ListenError::MissingDomain),
                    Some(value) => match visible_text(value) {
                        None => Err(ListenError::UnreadableHeader),
                        Some(_) => match built {
                            None => Err(ListenError::InvalidDomain),
                            Some(url) => Ok(url),
                        },
                    },
                },
            }
        }
    }
}

/// A public address by its characters, or why there is none.
pub open spec fn url_view(url: Result<String, ListenError>) -> Result<Seq<char>, ListenError> {
    match url {
        Ok(u) => Ok(u@),
        Err(err) => Err(err),
    }
}

impl Default for TunnelBuilder {
    fn default() -> (builder: TunnelBuilder)
        ensures
            builder@ == BuilderView::initial(),
    {
        TunnelBuilder {
            server_url: UriParts::parse("https://tinytun.com:5555"),
            subdomain: None,
            port: None,
            max_concurrent_streams: DEFAULT_MAX_STREAMS,
            tunnel_type: TunnelType::Http,
        }
    }
}

impl TunnelBuilder {
    /// The settings before any is made.
    pub fn new() -> (builder: TunnelBuilder)
        ensures
            builder@ == BuilderView::initial(),
    {
        TunnelBuilder::default()
    }

    /// Sets the address of the server.
    pub fn server_url(self, server_url: &str) -> (builder: TunnelBuilder)
        ensures
            builder@ == (BuilderView { server_url: uri_of(server_url@), ..self@ }),
    {
        TunnelBuilder {
            server_url: UriParts::parse(server_url),
            subdomain: self.subdomain,
            port: self.port,
            max_concurrent_streams: self.max_concurrent_streams,
            tunnel_type: self.tunnel_type,
        }
    }

    /// Sets the subdomain to ask for.
    pub fn subdomain<S: Into<Option<String>>>(self, subdomain: S) -> (builder: TunnelBuilder)
        ensures
            call_ensures(<S as Into<Option<String>>>::into, (subdomain,), builder@.subdomain),
            builder@ == (BuilderView { subdomain: builder@.subdomain, ..self@ }),
    {
        TunnelBuilder {
            server_url: self.server_url,
            subdomain: subdomain.into(),
            port: self.port,
            max_concurrent_streams: self.max_concurrent_streams,
            tunnel_type: self.tunnel_type,
        }
    }

    /// Sets the port to ask for.
    pub fn port<P: Into<Option<u16>>>(self, port: P) -> (builder: TunnelBuilder)
        ensures
            call_ensures(<P as Into<Option<u16>>>::into, (port,), builder@.port),
            builder@ == (BuilderView { port: builder@.port, ..self@ }),
    {
        TunnelBuilder {
            server_url: self.server_url,
            subdomain: self.subdomain,
            port: port.into(),
            max_concurrent_streams: self.max_concurrent_streams,
            tunnel_type: self.tunnel_type,
        }
    }

    /// Sets how many streams are taken at once.
    pub fn max_concurrent_streams(self, streams: u32) -> (builder: TunnelBuilder)
        ensures
            builder@ == (BuilderView { max_concurrent_streams: streams, ..self@ }),
    {
        TunnelBuilder {
            server_url: self.server_url,
            subdomain: self.subdomain,
            port: self.port,
            max_concurrent_streams: streams,
            tunnel_type: self.tunnel_type,
        }
    }

    /// Sets what the tunnel carries.
    pub fn tunnel_type<K: Into<TunnelType>>(self, tunnel: K) -> (builder: TunnelBuilder)
        ensures
            call_ensures(<K as Into<TunnelType>>::into, (tunnel,), builder@.tunnel_type),
            builder@ == (BuilderView { tunnel_type: builder@.tunnel_type, ..self@ }),
    {
        TunnelBuilder {
            server_url: self.server_url,
            subdomain: self.subdomain,
            port: self.port,
            max_concurrent_streams: self.max_concurrent_streams,
            tunnel_type: tunnel.into(),
        }
    }

    /// Whether the address of the server names a host.
    pub fn has_host(&self) -> (named: bool)
        ensures
            named == self@.has_host(),
    {
        match &self.server_url {
            Some(url) => url.host.is_some(),
            None => false,
        }
    }

    /// The request that asks for the tunnel.
    pub fn request(&self) -> (request: Result<ConnectRequest, ListenError>)
        ensures
            match request {
                Ok(r) => self@.request() == Ok::<RequestView, ListenError>(r@),
                Err(err) => self@.request() == Err::<RequestView, ListenError>(err),
            },
    {
        let uri = match &self.server_url {
            Some(url) => url.text.clone(),
            None => {
                return Err(ListenError::InvalidServerUrl);
            },
        };
        let mut headers: Vec<(String, String)> = Vec::new();
        proof {
            assert(header_list(headers@) =~= Seq::<(Seq<char>, Seq<char>)>::empty());
        }
        add_header(&mut headers, "x-tinytun-type", self.tunnel_type.to_text());
        match self.tunnel_type {
            TunnelType::Tcp => {
                if let Some(port) = self.port {
                    add_header(&mut headers, "x-tinytun-port", decimal_text(port));
                }
            },
            TunnelType::Http => {
                if let Some(subdomain) = &self.subdomain {
                    if !is_blank(subdomain.as_str()) {
                        if !is_header_value(subdomain.as_str()) {
                            return Err(ListenError::InvalidSubdomain);
                        }
                        add_header(&mut headers, "x-tinytun-subdomain", subdomain.clone());
                    }
                }
            },
        }
        proof {
            assert(header_list(headers@) =~= request_headers(
                self@.tunnel_type,
                self@.port,
                self@.wanted_subdomain(),
            ));
        }
        Ok(ConnectRequest { uri, method: "CONNECT".to_owned(), headers })
    }

    /// The public address of the tunnel, from the header fields with which the
    /// server grants it.
    pub fn proxy_url(&self, headers: &HeaderMap<HeaderValue>) -> (url: Result<String, ListenError>)
        requires
            self@.tunnel_type == TunnelType::Tcp && self@.server_url is Some && field_text(
                header_fields(*headers),
                "x-tinytun-port"@,
            ) is Some ==> self@.has_host(),
        ensures
            ({
                let fields = header_fields(*headers);
                let domain = field_text(fields, "x-tinytun-domain"@);
                let built = built_uri(self@.scheme(), domain->Some_0, ""@);
                &&& url_view(url) == self@.proxy_url(fields, built)
                &&& self@.tunnel_type == TunnelType::Http && url is Ok ==> url->Ok_0@
                    == self@.scheme() + "://"@ + domain->Some_0 + "/"@
                &&& self@.tunnel_type == TunnelType::Http && self@.server_url is Some && domain
                    is Some && plain_authority(domain->Some_0) && (self@.scheme() == "http"@
                    || self@.scheme() == "https"@) ==> url is Ok
            }),
    {
        let server_url = match &self.server_url {
            Some(url) => url,
            None => {
                return Err(ListenError::InvalidServerUrl);
            },
        };
        match self.tunnel_type {
            TunnelType::Tcp => {
                let value = match get_value(headers, "x-tinytun-port") {
                    Some(value) => value,
                    None => {
                        return Err(ListenError::MissingPort);
                    },
                };
                let port = match header_text(value.as_slice()) {
                    Some(port) => port,
                    None => {
                        return Err(ListenError::UnreadableHeader);
                    },
                };
                match &server_url.host {
                    Some(host) => {
                        let mut url: String = host.clone();
                        url.append(":");
                        url.append(port.as_str());
                        Ok(url)
                    },
                    None => Err(ListenError::InvalidServerUrl),
                }
            },
            TunnelType::Http => {
                let value = match get_value(headers, "x-tinytun-domain") {
                    Some(value) => value,
                    None => {
                        return Err(ListenError::MissingDomain);
                    },
                };
                let domain = match header_text(value.as_slice()) {
                    Some(domain) => domain,
                    None => {
                        return Err(ListenError::UnreadableHeader);
                    },
                };
                let scheme = match &server_url.scheme {
                    Some(scheme) => scheme.clone(),
                    None => "http".to_owned(),
                };
                proof {
                    reveal_strlit("");
                }
                match build_uri(scheme.as_str(), domain.as_str(), "") {
                    Some(url) => Ok(url),
                    None => Err(ListenError::InvalidDomain),
                }
            },
        }
    }

    /// The tunnel that the server grants with some header fields.
    pub fn listen(self, headers: &HeaderMap<HeaderValue>) -> (tunnel: Result<Tunnel, ListenError>)
        requires
            self@.tunnel_type == TunnelType::Tcp && self@.server_url is Some && field_text(
                header_fields(*headers),
                "x-tinytun-port"@,
            ) is Some ==> self@.has_host(),
        ensures
            ({
                let fields = header_fields(*headers);
                let domain = field_text(fields, "x-tinytun-domain"@);
                let built = built_uri(self@.scheme(), domain->Some_0, ""@);
                &&& match tunnel {
                    Ok(t) => self@.proxy_url(fields, built) == Ok::<Seq<char>, ListenError>(t@.0)
                        && t@.1 == self@.max_concurrent_streams,
                    Err(err) => self@.proxy_url(fields, built) == Err::<Seq<char>, ListenError>(
                        err,
                    ),
                }
                &&& self@.tunnel_type == TunnelType::Http && tunnel is Ok ==> tunnel->Ok_0@.0
                    == self@.scheme() + "://"@ + domain->Some_0 + "/"@
                &&& self@.tunnel_type == TunnelType::Http && self@.server_url is Some && domain
                    is Some && plain_authority(domain->Some_0) && (self@.scheme() == "http"@
                    || self@.scheme() == "https"@) ==> tunnel is Ok
            }),
    {
        match self.proxy_url(headers) {
            Ok(proxy_url) => Ok(
                Tunnel { proxy_url, max_concurrent_streams: self.max_concurrent_streams },
            ),
            Err(err) => Err(err),
        }
    }
}

/// The settings for a tunnel that a user asks for.
pub fn configured(
    server_url: &str,
    subdomain: Option<String>,
    port: Option<u16>,
    streams: u32,
    tunnel_type: TunnelType,
) -> (builder: TunnelBuilder)
    ensures
        builder@ == (BuilderView {
            server_url: uri_of(server_url@),
            subdomain,
            port,
            max_concurrent_streams: streams,
            tunnel_type,
        }),
{
    let builder = Tunnel::builder().server_url(server_url).subdomain(subdomain);
    let builder = match port {
        Some(port) => builder.port(port),
        None => builder,
    };
    builder.max_concurrent_streams(streams).tunnel_type(tunnel_type)
}

/// A tunnel that has been granted.
#[derive(Debug)]
pub struct Tunnel {
    proxy_url: String,
    max_concurrent_streams: u32,
}

impl View for Tunnel {
    type V = (Seq<char>, u32);

    closed spec fn view(&self) -> (Seq<char>, u32) {
        (self.proxy_url@, self.max_concurrent_streams)
    }
}

impl Tunnel {
    /// The settings before any is made.
    pub fn builder() -> (builder: TunnelBuilder)
        ensures
            builder@ == BuilderView::initial(),
    {
        TunnelBuilder::default()
    }

    /// The public address.
    pub fn proxy_url(&self) -> (url: &str)
        ensures
            url@ == self@.0,
    {
        self.proxy_url.as_str()
    }

    /// How many streams are taken at once.
    pub fn max_concurrent_streams(&self) -> (streams: u32)
        ensures
            streams == self@.1,
    {
        self.max_concurrent_streams
    }
}

} // verus!
