use http::{HeaderMap, HeaderValue};
use tinytun::api::{answer_request, metadata_answer, Answer, MetadataAnswer};
use tinytun::client::{ListenError, Tunnel, TunnelBuilder, TunnelType};
use tinytun::name::TunnelName;
use tinytun::proxy::{http_step, peek_host, HostEvent, HostPeek, HttpStep};
use tinytun::session::Session;
use tinytun::tunnel::{TunnelConnection, Tunnels};

fn fields(list: &[(String, String)]) -> HeaderMap<HeaderValue> {
    let mut map = HeaderMap::new();
    for (name, value) in list {
        let name = http::header::HeaderName::from_bytes(name.as_bytes()).unwrap();
        map.append(name, HeaderValue::from_str(value).unwrap());
    }
    map
}

struct TestServer {
    tuns: Tunnels<&'static str>,
}

impl TestServer {
    fn start() -> TestServer {
        TestServer { tuns: Tunnels::new() }
    }

    fn connect(&mut self, builder: TunnelBuilder) -> Result<(Tunnel, Session), ListenError> {
        let request = builder.request()?;
        let sent = fields(&request.headers);
        let answer =
            answer_request(&request.method, "test.tinytun.local", &mut self.tuns, &sent).unwrap();
        match answer {
            Answer::Granted(reply, mut session) => {
                let tunnel = builder.listen(&fields(&reply.headers))?;
                session.connected(&mut self.tuns, "client");
                Ok((tunnel, session))
            }
            Answer::Refused(reply) => {
                Err(builder.listen(&fields(&reply.headers)).unwrap_err())
            }
        }
    }

    fn names(&self) -> Vec<String> {
        match metadata_answer("/tunnels", &self.tuns) {
            MetadataAnswer::Listing(list) => list.iter().map(|t| t.name.to_text()).collect(),
            MetadataAnswer::Missing(_) => panic!("no listing"),
        }
    }
}

fn builder() -> TunnelBuilder {
    Tunnel::builder().server_url("http://127.0.0.1:5554")
}

#[test]
fn test_http_tunnel_establishment() {
    let mut server = TestServer::start();
    let (tun, _session) = server.connect(builder()).expect("tunnel should connect");
    let proxy_url = tun.proxy_url();
    assert!(
        proxy_url.contains("test.tinytun.local"),
        "proxy_url should contain base domain, got: {proxy_url}"
    );
}

#[test]
fn test_http_tunnel_custom_subdomain() {
    let mut server = TestServer::start();
    let (tun, _session) = server
        .connect(builder().subdomain("my-custom-app".to_string()))
        .expect("tunnel should connect");
    let proxy_url = tun.proxy_url();
    assert!(
        proxy_url.contains("my-custom-app"),
        "proxy_url should contain custom subdomain, got: {proxy_url}"
    );
    assert_eq!(proxy_url, "http://my-custom-app.test.tinytun.local/");
}

#[test]
fn test_metadata_api_lists_tunnel() {
    let mut server = TestServer::start();
    let _tun = server
        .connect(builder().subdomain("meta-test".to_string()))
        .expect("tunnel should connect");
    assert_eq!(server.names(), vec!["meta-test".to_string()]);
}

#[test]
fn test_tunnel_cleanup_after_disconnect() {
    let mut server = TestServer::start();
    let (_tun, session) = server
        .connect(builder().subdomain("cleanup-test".to_string()))
        .expect("tunnel should connect");
    assert!(
        server.names().contains(&"cleanup-test".to_string()),
        "tunnel should appear before disconnect"
    );
    session.closed(&mut server.tuns);
    assert!(
        !server.names().contains(&"cleanup-test".to_string()),
        "tunnel should disappear after disconnect"
    );
}

#[test]
fn test_subdomain_conflict() {
    let mut server = TestServer::start();
    let _tun1 = server
        .connect(builder().subdomain("taken".to_string()))
        .expect("first tunnel should connect");
    let result = server.connect(builder().subdomain("taken".to_string()));
    assert!(
        matches!(result, Err(ListenError::MissingDomain)),
        "second tunnel with same subdomain should fail"
    );
}

#[test]
fn a_visitor_of_the_public_address_reaches_the_client() {
    let mut server = TestServer::start();
    let _tun = server.connect(builder().subdomain("roundtrip".to_string())).unwrap();
    let request = b"POST / HTTP/1.1\r\nHost: roundtrip.test.tinytun.local\r\nContent-Length: 11\r\nConnection: close\r\n\r\nhello world";
    let mut buffer = vec![0u8; 1024];
    buffer[..request.len()].copy_from_slice(request);
    let host = match peek_host(&buffer, request.len()) {
        HostPeek::Found(host) => host,
        other => panic!("{:?}", other),
    };
    match http_step(HostEvent::Read(host)) {
        HttpStep::Find(name) => {
            let found = server.tuns.local_tunnel(&name).unwrap();
            assert!(matches!(found.connection, TunnelConnection::Local("client")));
        }
        other => panic!("{:?}", other),
    }
}

#[test]
fn a_dotted_subdomain_is_not_reached() {
    let mut server = TestServer::start();
    let (tun, _session) = server.connect(builder().subdomain("a.b".to_string())).unwrap();
    assert_eq!(tun.proxy_url(), "http://a.b.test.tinytun.local/");
    match http_step(HostEvent::Read("a.b.test.tinytun.local".to_string())) {
        HttpStep::Find(name) => assert!(server.tuns.local_tunnel(&name).is_none()),
        other => panic!("{:?}", other),
    }
}

#[test]
fn a_tcp_tunnel_is_reached_at_its_port() {
    let mut server = TestServer::start();
    let (tun, _session) =
        server.connect(builder().tunnel_type(TunnelType::Tcp).port(23456)).unwrap();
    assert_eq!(tun.proxy_url(), "127.0.0.1:23456");
    assert!(server.tuns.local_tunnel(&TunnelName::PortNumber(23456)).is_some());
    let second = server.connect(builder().tunnel_type(TunnelType::Tcp).port(23456));
    assert!(matches!(second, Err(ListenError::MissingPort)));
}
