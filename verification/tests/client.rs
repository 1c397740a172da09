use http::{HeaderMap, HeaderValue};
use tinytun::client::{configured, ListenError, Tunnel, TunnelBuilder, TunnelType};
use tinytun::config::{base_domain, port_setting, server_url};
use tinytun::dial::{Delay, Dial, DialEvent, DialStep, TunnelError};
use tinytun::peers::{IpAddress, PeerAddr};
use tinytun::reconnect::{local_address, Reconnect};
use tinytun::reverse_proxy::{remove_hop_by_hop_headers, ReverseProxy, RewriteError};
use tinytun::tunnel::Tunnel as OpenTunnel;
use tinytun::uri::UriParts;

fn headers(list: &[(&'static str, &str)]) -> HeaderMap<HeaderValue> {
    let mut map = HeaderMap::new();
    for (name, value) in list {
        map.append(*name, HeaderValue::from_str(value).unwrap());
    }
    map
}

fn pair(name: &str, value: &str) -> (String, String) {
    (name.to_string(), value.to_string())
}

#[test]
fn types_are_written_and_read() {
    assert_eq!(TunnelType::Tcp.to_text(), "tcp");
    assert_eq!(TunnelType::Http.to_text(), "http");
    assert_eq!("tcp".parse::<TunnelType>(), Ok(TunnelType::Tcp));
    assert_eq!("http".parse::<TunnelType>(), Ok(TunnelType::Http));
    assert_eq!("HTTP".parse::<TunnelType>(), Err("invalid tunnel type"));
    assert_eq!("".parse::<TunnelType>(), Err("invalid tunnel type"));
}

#[test]
fn the_usual_settings_ask_the_public_server() {
    let request = TunnelBuilder::new().request().unwrap();
    assert_eq!(request.uri, "https://tinytun.com:5555");
    assert_eq!(request.method, "CONNECT");
    assert_eq!(request.headers, vec![pair("x-tinytun-type", "http")]);
    let tunnel = Tunnel::builder().listen(&headers(&[("x-tinytun-domain", "a.b")])).unwrap();
    assert_eq!(tunnel.max_concurrent_streams(), 100);
    assert_eq!(tunnel.proxy_url(), "https://a.b/");
}

#[test]
fn requests_ask_for_what_is_set() {
    let request = Tunnel::builder()
        .server_url("http://h:1")
        .tunnel_type(TunnelType::Tcp)
        .port(8080)
        .subdomain("unused".to_string())
        .request()
        .unwrap();
    assert_eq!(request.uri, "http://h:1");
    assert_eq!(request.headers, vec![pair("x-tinytun-type", "tcp"), pair("x-tinytun-port", "8080")]);

    let request = Tunnel::builder().subdomain("app".to_string()).port(1).request().unwrap();
    assert_eq!(
        request.headers,
        vec![pair("x-tinytun-type", "http"), pair("x-tinytun-subdomain", "app")]
    );

    let request = Tunnel::builder().tunnel_type(TunnelType::Tcp).request().unwrap();
    assert_eq!(request.headers, vec![pair("x-tinytun-type", "tcp")]);

    let request = Tunnel::builder().subdomain(" \t\u{3000}".to_string()).request().unwrap();
    assert_eq!(request.headers, vec![pair("x-tinytun-type", "http")]);

    let request = configured("http://h", Some(" a".to_string()), Some(5), 3, TunnelType::Http)
        .request()
        .unwrap();
    assert_eq!(request.headers[1], pair("x-tinytun-subdomain", " a"));
    let request = configured("http://h", None, Some(5), 3, TunnelType::Tcp).request().unwrap();
    assert_eq!(request.headers[1], pair("x-tinytun-port", "5"));
}

#[test]
fn unusable_settings_are_errors() {
    let err = Tunnel::builder().server_url("http://a b").request().unwrap_err();
    assert_eq!(err, ListenError::InvalidServerUrl);
    assert_eq!(err.message(), None);
    let err = Tunnel::builder().server_url("").proxy_url(&headers(&[])).unwrap_err();
    assert_eq!(err, ListenError::InvalidServerUrl);
    let err = Tunnel::builder().subdomain("a\nb".to_string()).request().unwrap_err();
    assert_eq!(err, ListenError::InvalidSubdomain);
    let tcp = Tunnel::builder().subdomain("a\nb".to_string()).tunnel_type(TunnelType::Tcp);
    assert!(tcp.request().is_ok());
}

#[test]
fn public_addresses_come_from_the_reply() {
    let http = Tunnel::builder().server_url("http://server:5554");
    let map = headers(&[("x-tinytun-domain", "app.test.tinytun.local")]);
    assert_eq!(http.proxy_url(&map).unwrap(), "http://app.test.tinytun.local/");
    let map = headers(&[("x-tinytun-domain", "App_1.local:8080")]);
    assert_eq!(http.proxy_url(&map).unwrap(), "http://App_1.local:8080/");

    let bare = Tunnel::builder().server_url("server:5554");
    assert!(bare.has_host());
    let map = headers(&[("x-tinytun-domain", "app.local")]);
    assert_eq!(bare.proxy_url(&map).unwrap(), "http://app.local/");

    let tcp = Tunnel::builder().server_url("https://u@server:5554/x").tunnel_type(TunnelType::Tcp);
    assert!(tcp.has_host());
    let map = headers(&[("x-tinytun-port", "4242")]);
    assert_eq!(tcp.proxy_url(&map).unwrap(), "server:4242");
    assert!(!Tunnel::builder().server_url("/x").has_host());
}

#[test]
fn unusable_replies_are_errors() {
    let http = Tunnel::builder().server_url("http://server:5554");
    let err = http.proxy_url(&headers(&[])).unwrap_err();
    assert_eq!(err, ListenError::MissingDomain);
    assert_eq!(err.message().unwrap(), "Server didn't provide a connection id");
    let err = http.proxy_url(&headers(&[("x-tinytun-domain", "\u{e9}")])).unwrap_err();
    assert_eq!(err, ListenError::UnreadableHeader);
    for domain in ["a b", "a/b", "", "a:b:c"] {
        let err = http.proxy_url(&headers(&[("x-tinytun-domain", domain)])).unwrap_err();
        assert_eq!(err, ListenError::InvalidDomain);
    }
    let tcp = Tunnel::builder().server_url("http://server:5554").tunnel_type(TunnelType::Tcp);
    let err = tcp.proxy_url(&headers(&[])).unwrap_err();
    assert_eq!(err, ListenError::MissingPort);
    assert_eq!(err.message().unwrap(), "Server didn't provide a connection port");
    let err = tcp.proxy_url(&headers(&[("x-tinytun-port", "\u{e9}")])).unwrap_err();
    assert_eq!(err, ListenError::UnreadableHeader);
    assert!(tcp.listen(&headers(&[])).is_err());
}

#[test]
fn uris_are_taken_apart() {
    let uri = UriParts::parse("http://user@host:80/path?q=1").unwrap();
    assert_eq!(uri.text, "http://user@host:80/path?q=1");
    assert_eq!(uri.scheme.unwrap(), "http");
    assert_eq!(uri.authority.unwrap(), "user@host:80");
    assert_eq!(uri.host.unwrap(), "host");
    assert_eq!(uri.path_and_query.unwrap(), "/path?q=1");
    let path = UriParts::parse("/only").unwrap();
    assert!(path.scheme.is_none() && path.authority.is_none() && path.host.is_none());
    assert!(UriParts::parse("").is_none());
    let authority = UriParts::parse("host:80").unwrap();
    assert!(authority.path_and_query.is_none());
}

#[test]
fn requests_are_passed_on() {
    let mut map = headers(&[
        ("content-length", "5"),
        ("content-length", "6"),
        ("transfer-encoding", "chunked"),
        ("accept-encoding", "gzip"),
        ("content-encoding", "gzip"),
        ("host", "old"),
        ("host", "older"),
        ("x-kept", "1"),
        ("x-kept", "2"),
    ]);
    let target = UriParts::parse("https://user@upstream:8080/ignored").unwrap();
    let request = UriParts::parse("/path?q=1").unwrap();
    let uri = ReverseProxy.proxy(&target, &mut map, &request).unwrap();
    assert_eq!(uri.text, "http://user@upstream:8080/path?q=1");
    assert_eq!(uri.scheme, "http");
    assert_eq!(uri.authority, "user@upstream:8080");
    assert_eq!(uri.path_and_query, "/path?q=1");
    assert_eq!(map.get_all("host").iter().collect::<Vec<_>>(), vec!["upstream"]);
    assert_eq!(map.get_all("x-kept").iter().count(), 2);
    assert_eq!(map.len(), 3);
}

#[test]
fn requests_that_lead_nowhere_are_errors() {
    let nowhere = UriParts::parse("/x").unwrap();
    let somewhere = UriParts::parse("http://h").unwrap();
    let pathless = UriParts::parse("h:80").unwrap();
    let mut map = headers(&[("host", "old")]);
    assert_eq!(
        ReverseProxy.proxy(&nowhere, &mut map, &nowhere),
        Err(RewriteError::MissingAuthority)
    );
    assert_eq!(map.get("host").unwrap(), "old");
    assert_eq!(
        ReverseProxy.proxy(&somewhere, &mut map, &pathless),
        Err(RewriteError::MissingPath)
    );
    assert_eq!(map.get("host").unwrap(), "h");
    assert_eq!(ReverseProxy.proxy(&somewhere, &mut map, &nowhere).unwrap().text, "http://h/x");
    let asterisk = UriParts::parse("*").unwrap();
    let uri = ReverseProxy.proxy(&somewhere, &mut map, &asterisk).unwrap();
    assert_eq!((uri.authority.as_str(), uri.path_and_query.as_str()), ("h", "*"));
}

#[test]
fn a_host_needs_room_among_the_header_fields() {
    let uri = UriParts::parse("http://h/x").unwrap();
    let mut map: HeaderMap<HeaderValue> = HeaderMap::new();
    for i in 0..24_575 {
        let name = http::header::HeaderName::from_bytes(format!("x-{}", i).as_bytes()).unwrap();
        map.insert(name, HeaderValue::from_static("v"));
    }
    let mut roomy = map.clone();
    assert_eq!(ReverseProxy.proxy(&uri, &mut roomy, &uri).unwrap().text, "http://h/x");
    assert_eq!(roomy.get("host").unwrap(), "h");

    map.insert("x-last", HeaderValue::from_static("v"));
    let full = map.clone();
    assert_eq!(
        ReverseProxy.proxy(&uri, &mut map, &uri),
        Err(RewriteError::TooManyHeaders)
    );
    assert_eq!(map, full);
}

#[test]
fn connection_fields_are_removed_in_any_case() {
    let mut map = headers(&[("content-length", "5"), ("x-kept", "1")]);
    remove_hop_by_hop_headers(&mut map);
    assert_eq!(map.len(), 1);
    remove_hop_by_hop_headers(&mut map);
    assert_eq!(map.len(), 1);
}

#[test]
fn a_client_gives_up_at_last() {
    let mut failing = Reconnect::new();
    assert_eq!(failing.announcement("u").unwrap(), "Forwarding via: u");
    for _ in 0..10 {
        assert!(failing.failed());
    }
    assert!(!failing.failed());
    assert_eq!(failing.announcement("u"), None);

    let mut closing = Reconnect::new();
    for _ in 0..20 {
        assert!(closing.closed());
    }
    assert!(!closing.closed());

    let mut mixed = Reconnect::new();
    for _ in 0..10 {
        assert!(mixed.closed());
    }
    assert!(!mixed.failed());
    assert_eq!(local_address(8080), "localhost:8080");
}

#[test]
fn settings_fall_back() {
    assert_eq!(port_setting(Some("80".to_string()), 5553), 80);
    assert_eq!(port_setting(Some("x".to_string()), 5553), 5553);
    assert_eq!(port_setting(None, 5553), 5553);
    assert_eq!(base_domain(Some("a".to_string()), Some("b".to_string())), "a");
    assert_eq!(base_domain(None, Some("b".to_string())), "b");
    assert_eq!(base_domain(None, None), "local.tinytun.com");
    assert_eq!(server_url(Some("http://a".to_string()), None), "http://a");
    assert_eq!(server_url(Some("a b".to_string()), Some("http://b".to_string())), "http://b");
    assert_eq!(server_url(None, None), "http://local.tinytun.com:5554");
}

#[test]
fn a_local_stream_is_dialled_step_by_step() {
    let tunnel = OpenTunnel::local(1);
    let (mut dial, step) = tunnel.tunnel::<u8, u8>();
    assert!(matches!(step, DialStep::AwaitReady(5)));
    assert!(matches!(dial.step::<u8, u8>(DialEvent::Succeeded), DialStep::SendRequest));
    assert!(matches!(dial.step::<u8, u8>(DialEvent::Succeeded), DialStep::AwaitResponse(10)));
    assert!(matches!(dial.step::<u8, u8>(DialEvent::Succeeded), DialStep::Copy(true)));
    assert!(matches!(dial.step::<u8, u8>(DialEvent::Succeeded), DialStep::Done));
    assert_eq!(dial, Dial::Over);
}

#[test]
fn a_remote_stream_is_dialled() {
    let addr = PeerAddr { ip: IpAddress::V4(1), port: 2 };
    let tunnel: OpenTunnel<u8> = OpenTunnel::remote(addr);
    let (mut dial, step) = tunnel.tunnel::<u8, u8>();
    assert!(matches!(step, DialStep::Connect(a) if a == addr));
    assert!(matches!(dial.step::<u8, u8>(DialEvent::Succeeded), DialStep::Copy(false)));
    let end = dial.step::<u8, u8>(DialEvent::IoFailed(7));
    assert!(matches!(end, DialStep::Fail(TunnelError::Io(7))));
}

#[test]
fn dialling_fails_with_the_right_error() {
    let mut dial = Dial::Readying;
    let end = dial.step::<u8, u8>(DialEvent::TimedOut);
    assert!(matches!(end, DialStep::Fail(TunnelError::TimedOut(Delay::NotReady))));
    let mut dial = Dial::Responding;
    let end = dial.step::<u8, u8>(DialEvent::TimedOut);
    assert!(matches!(end, DialStep::Fail(TunnelError::TimedOut(Delay::NoResponse))));
    let mut dial = Dial::Requesting;
    let end = dial.step::<u8, u8>(DialEvent::H2Failed(3));
    assert!(matches!(end, DialStep::Fail(TunnelError::H2(3))));
    assert_eq!(Delay::NotReady.message(), "H2 stream not ready");
    assert_eq!(Delay::NoResponse.message(), "H2 send_request timed out");
}
