use tinytun::name::TunnelName;
use tinytun::proxy::{
    accept_step, host_event, host_from, http_found, http_step, peek_host, port_event, tcp_found,
    tcp_step, AcceptStep, HostEvent, HostPeek, HttpStep, PeekError, PortEvent, TcpStep,
};
use tinytun::proxy_protocol::{
    parse_proxy_protocol, read_body_size, read_port, ProxyProtocolError,
};
use tinytun::text::{decode_text, first_label, is_blank, lower_text};

fn peek(request: &[u8]) -> HostPeek {
    let mut buffer = vec![0u8; 1024];
    buffer[..request.len()].copy_from_slice(request);
    peek_host(&buffer, request.len())
}

fn found(peek: HostPeek) -> String {
    match peek {
        HostPeek::Found(host) => host,
        other => panic!("{:?}", other),
    }
}

#[test]
fn a_host_is_read_from_a_request() {
    let request = b"POST / HTTP/1.1\r\nHost: roundtrip.test.tinytun.local\r\nContent-Length: 11\r\nConnection: close\r\n\r\nhello world";
    assert_eq!(found(peek(request)), "roundtrip.test.tinytun.local");
    assert_eq!(found(peek(b"GET / HTTP/1.1\r\nAccept: */*\r\nhOST: a.b:80\r\n\r\n")), "a.b:80");
    assert_eq!(found(peek(b"GET / HTTP/1.1\nHost:   a.b  \n\n")), "a.b");
    assert_eq!(found(peek(b"G\r\nHost: one.x\r\nHost: two.x\r\n\r\n")), "one.x");
}

#[test]
fn a_request_without_a_host_is_waited_for() {
    assert!(matches!(peek(b"GET / HTTP/1.1\r\nAccept: x\r\n\r\n"), HostPeek::Again));
    assert!(matches!(peek(b"GET / HTTP/1.1\r\n\r\n"), HostPeek::Again));
    assert!(matches!(peek(b"GET / HTTP/1.1\r\nHost: \xff\r\n\r\n"), HostPeek::Again));
    assert!(matches!(peek(b"GET"), HostPeek::Again));
    assert!(matches!(peek_host(&[], 1), HostPeek::Again));
}

#[test]
fn unreadable_requests_fail() {
    assert!(matches!(peek(b""), HostPeek::Failed(PeekError::EmptyStream)));
    assert_eq!(PeekError::EmptyStream.message().unwrap(), "Empty stream");
    assert_eq!(PeekError::NotText.message(), None);
    assert!(matches!(peek(b"\xff\r\nHost: a.b\r\n\r\n"), HostPeek::Failed(PeekError::NotText)));
    assert!(matches!(peek(b"G\r\nno colon\r\n\r\n"), HostPeek::Failed(PeekError::BadHeaders)));
    // The rest of the buffer is zero, which no header holds.
    assert!(matches!(peek(b"G\r\nHost: a.b\r\n"), HostPeek::Failed(PeekError::BadHeaders)));
    let mut many = b"G\r\n".to_vec();
    for _ in 0..16 {
        many.extend_from_slice(b"A: b\r\n");
    }
    let mut fits = many.clone();
    fits.extend_from_slice(b"\r\n");
    assert!(matches!(peek(&fits), HostPeek::Again));
    many.extend_from_slice(b"Host: a.b\r\n\r\n");
    assert!(matches!(peek(&many), HostPeek::Failed(PeekError::BadHeaders)));
}

#[test]
fn a_host_is_found_among_fields() {
    let fields = vec![
        ("accept".to_string(), b"x".to_vec()),
        ("HOST".to_string(), b"a.b".to_vec()),
        ("".to_string(), vec![]),
    ];
    assert_eq!(found(host_from(Some(fields))), "a.b");
    assert!(matches!(host_from(Some(vec![])), HostPeek::Again));
    assert!(matches!(host_from(None), HostPeek::Failed(PeekError::BadHeaders)));
    let first = vec![("host".to_string(), vec![0xff]), ("host".to_string(), b"a.b".to_vec())];
    assert!(matches!(host_from(Some(first)), HostPeek::Again));
}

#[test]
fn hosts_lead_to_tunnels() {
    match http_step(HostEvent::Read("app.example.com".to_string())) {
        HttpStep::Find(name) => assert!(name == TunnelName::Subdomain("app".to_string())),
        other => panic!("{:?}", other),
    }
    match http_step(HostEvent::Read(".x".to_string())) {
        HttpStep::Find(name) => assert!(name == TunnelName::Subdomain(String::new())),
        other => panic!("{:?}", other),
    }
    match http_step(HostEvent::Read("localhost".to_string())) {
        HttpStep::Answer(reply) => {
            assert_eq!((reply.status, reply.body.as_str()), (404, "Tunnel not informed"))
        }
        other => panic!("{:?}", other),
    }
    assert!(matches!(http_step(HostEvent::Failed), HttpStep::Close));
    assert!(matches!(http_step(HostEvent::TimedOut), HttpStep::Close));
    assert!(matches!(http_found(Some(3)), Ok(3)));
    let reply = http_found::<u8>(None).unwrap_err();
    assert_eq!((reply.status, reply.body.as_str()), (404, "Tunnel not found"));
}

#[test]
fn ports_lead_to_tunnels() {
    match tcp_step(PortEvent::Read(22)) {
        TcpStep::Find(name) => assert!(name == TunnelName::PortNumber(22)),
        other => panic!("{:?}", other),
    }
    assert!(matches!(tcp_step(PortEvent::Failed), TcpStep::Shutdown));
    assert!(matches!(tcp_step(PortEvent::TimedOut), TcpStep::Shutdown));
}

fn proxied(port: u16, extra: usize, data: &[u8]) -> Vec<u8> {
    let mut bytes = b"\x0D\x0A\x0D\x0A\x00\x0D\x0A\x51\x55\x49\x54\x0A\x21\x11".to_vec();
    bytes.extend_from_slice(&((12 + extra) as u16).to_be_bytes());
    bytes.extend_from_slice(&[10, 0, 0, 1, 10, 0, 0, 2]);
    bytes.extend_from_slice(&40000u16.to_be_bytes());
    bytes.extend_from_slice(&port.to_be_bytes());
    bytes.extend_from_slice(&vec![7u8; extra]);
    bytes.extend_from_slice(data);
    bytes
}

#[test]
fn a_proxied_port_is_read() {
    assert_eq!(parse_proxy_protocol(&proxied(0x1234, 0, b"data")), Ok(0x1234));
    assert_eq!(parse_proxy_protocol(&proxied(65535, 300, b"")), Ok(65535));
    assert_eq!(parse_proxy_protocol(&proxied(0, 0, b"")), Ok(0));
    assert_eq!(read_body_size(&proxied(1, 300, b"")[..16]), Ok(312));
    assert_eq!(read_port(0x11, &proxied(515, 0, b"")[16..]), Ok(515));
}

#[test]
fn other_beginnings_are_rejected() {
    let mut bytes = proxied(1, 0, b"");
    assert_eq!(parse_proxy_protocol(&bytes[..15]), Err(ProxyProtocolError::Truncated));
    assert_eq!(parse_proxy_protocol(&bytes[..27]), Err(ProxyProtocolError::Truncated));
    for i in 0..12 {
        bytes[i] ^= 1;
        assert_eq!(parse_proxy_protocol(&bytes), Err(ProxyProtocolError::InvalidSignature));
        bytes[i] ^= 1;
    }
    assert_eq!(
        ProxyProtocolError::InvalidSignature.message(),
        "invalid proxy protocol v2 signature"
    );
    assert_eq!(ProxyProtocolError::Truncated.message(), "early eof");
}

#[test]
fn white_space_is_what_the_standard_library_takes_for_it() {
    for code in 0..=0x10FFFFu32 {
        if let Some(c) = char::from_u32(code) {
            let text = c.to_string();
            assert_eq!(is_blank(&text), text.trim().is_empty());
        }
    }
    assert!(is_blank(""));
    assert!(is_blank(" \t\n"));
    assert!(!is_blank(" a "));
}

#[test]
fn small_text_routines() {
    assert_eq!(lower_text("HoSt-\u{c4}"), "host-\u{c4}");
    assert_eq!(first_label("a.b.c").unwrap(), "a");
    assert_eq!(first_label("abc"), None);
    assert_eq!(first_label("\u{e9}t.x").unwrap(), "\u{e9}t");
    assert_eq!(decode_text("\u{e9}".as_bytes()).unwrap(), "\u{e9}");
    assert_eq!(decode_text(&[0xc3]), None);
}

fn proxied6(family: u8, port: u16, extra: usize, data: &[u8]) -> Vec<u8> {
    let mut bytes = b"\x0D\x0A\x0D\x0A\x00\x0D\x0A\x51\x55\x49\x54\x0A\x21".to_vec();
    bytes.push(family);
    bytes.extend_from_slice(&((36 + extra) as u16).to_be_bytes());
    bytes.extend_from_slice(&[0x20; 16]);
    bytes.extend_from_slice(&[0xfe; 16]);
    bytes.extend_from_slice(&40000u16.to_be_bytes());
    bytes.extend_from_slice(&port.to_be_bytes());
    bytes.extend_from_slice(&vec![7u8; extra]);
    bytes.extend_from_slice(data);
    bytes
}

#[test]
fn a_proxied_port_is_read_over_ipv6() {
    assert_eq!(parse_proxy_protocol(&proxied6(0x21, 0x1234, 0, b"data")), Ok(0x1234));
    assert_eq!(parse_proxy_protocol(&proxied6(0x22, 65535, 9, b"")), Ok(65535));
    assert_eq!(
        parse_proxy_protocol(&proxied6(0x21, 1, 0, b"")[..51]),
        Err(ProxyProtocolError::Truncated)
    );
    assert_eq!(read_port(0x21, &proxied6(0x21, 515, 0, b"")[16..]), Ok(515));
}

#[test]
fn a_header_without_room_for_a_port_is_truncated() {
    let truncated = Err(ProxyProtocolError::Truncated);
    assert_eq!(read_port(0x11, &[0; 11]), truncated);
    assert_eq!(read_port(0x21, &[0; 35]), truncated);
    assert_eq!(read_port(0x22, &[0; 12]), truncated);
    let mut local = proxied(1, 0, b"")[..16].to_vec();
    local[12] = 0x20;
    local[13] = 0;
    local[15] = 0;
    assert_eq!(parse_proxy_protocol(&local), truncated);
    let mut short = proxied(1, 0, b"");
    short[13] = 0x21;
    assert_eq!(parse_proxy_protocol(&short), truncated);
}

#[test]
fn a_host_is_read_from_unusual_heads() {
    assert_eq!(found(peek(b"G\r\nX.!#$%&'*+^_`|~1:\r\nHost:a.b\r\n\r\n")), "a.b");
    assert_eq!(found(peek(b"G\nEmpty: \t \nHost: \t a.b \t\r\n\n")), "a.b");
    assert_eq!(found(peek(b"G\r\nHost: a b\tc\r\n\r\n")), "a b\tc");
    assert_eq!(found(peek(b"G\r\nHost:\r\n\r\n")), "");
}

#[test]
fn a_host_is_read_before_a_head_that_overflows() {
    for tail in ["", "X", "X:", "X: ", "X: y", "X: y\r", "\r"] {
        let front = b"G\r\nHost: a.b\r\nPad: ";
        let mut request = front.to_vec();
        request.resize(1024 - 2 - tail.len(), b'p');
        request.extend_from_slice(b"\r\n");
        request.extend_from_slice(tail.as_bytes());
        assert_eq!(request.len(), 1024);
        assert_eq!(found(peek(&request)), "a.b");
    }
}

#[test]
fn a_connection_without_a_tunnel_is_shut_down() {
    assert!(matches!(tcp_found(Some(3)), Ok(3)));
    assert!(matches!(tcp_found::<u8>(None), Err(TcpStep::Shutdown)));
}

#[test]
fn attempts_to_read_become_events() {
    assert_eq!(port_event::<u8>(Some(Ok(5))), PortEvent::Read(5));
    assert_eq!(port_event::<u8>(Some(Err(1))), PortEvent::Failed);
    assert_eq!(port_event::<u8>(None), PortEvent::TimedOut);
    let read = host_event::<u8>(Some(Ok("a.b".to_string())));
    assert!(matches!(read, HostEvent::Read(host) if host == "a.b"));
    assert!(matches!(host_event::<u8>(Some(Err(1))), HostEvent::Failed));
    assert!(matches!(host_event::<u8>(None), HostEvent::TimedOut));
}

#[test]
fn a_failed_accept_is_retried() {
    assert!(matches!(accept_step(Some(4)), AcceptStep::Serve(4)));
    assert!(matches!(accept_step::<u8>(None), AcceptStep::RetryAfter(100)));
}
