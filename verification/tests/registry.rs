use tinytun::name::TunnelName;
use tinytun::peers::{DnsPeerResolver, IpAddress, Peer, PeerAddr, PeerQuery};
use tinytun::session::{
    after_ping, listener_error, ListenerEnd, PingEvent, PingStep, Serving, Session,
};
use tinytun::tunnel::{Lookup, RegistryError, Tunnel, TunnelConnection, Tunnels};
use tinytun::tunnel_id::TunnelId;

fn sub(s: &str) -> TunnelName {
    TunnelName::Subdomain(s.to_string())
}

#[test]
fn new_registry_is_empty() {
    let tuns: Tunnels<u8> = Tunnels::new();
    assert!(tuns.list_tunnels_metadata().is_empty());
    assert!(tuns.local_tunnel(&sub("a")).is_none());
    let other: Tunnels<u8> = Default::default();
    assert!(other.id_for_name(&sub("a")).is_none());
}

#[test]
fn identifiers_are_random_and_simple() {
    let id = TunnelId::new();
    let text = id.to_text();
    assert_eq!(text.len(), 32);
    assert!(text.chars().all(|c| c.is_ascii_digit() || ('a'..='f').contains(&c)));
    assert_eq!(text.as_bytes()[12], b'4');
    assert!(matches!(text.as_bytes()[16], b'8' | b'9' | b'a' | b'b'));
    assert!(TunnelId::new() != id);
    assert_eq!(
        TunnelId::from_value(0x0123_4567_89ab_cdef_0123_4567_89ab_cdef).to_text(),
        "0123456789abcdef0123456789abcdef"
    );
    assert_eq!(TunnelId::from_value(0xf).to_text(), "0000000000000000000000000000000f");
    assert!(TunnelId::default() != TunnelId::default());
}

#[test]
fn a_subdomain_is_taken_once() {
    let mut tuns: Tunnels<u8> = Tunnels::new();
    let entry = tuns.new_http_tunnel(Some("taken".to_string())).unwrap();
    assert!(*entry.name() == sub("taken"));
    let err = tuns.new_http_tunnel(Some("taken".to_string())).unwrap_err();
    assert_eq!(err, RegistryError::SubdomainConflict);
    assert_eq!(err.message(), "subdomain already in use");
    assert!(tuns.new_http_tunnel(Some("Taken".to_string())).is_ok());
    entry.release(&mut tuns);
    assert!(tuns.new_http_tunnel(Some("taken".to_string())).is_ok());
}

#[test]
fn without_a_subdomain_the_identifier_serves() {
    let mut tuns: Tunnels<u8> = Tunnels::new();
    let entry = tuns.new_http_tunnel(None).unwrap();
    assert!(*entry.name() == sub(&entry.id().to_text()));
    assert!(*entry.name() == *entry.id().to_text().as_str());
}

#[test]
fn a_requested_port_is_taken_once() {
    let mut tuns: Tunnels<u8> = Tunnels::new();
    let (entry, port) = tuns.new_tcp_proxy_tunnel(Some(20_080)).unwrap();
    assert_eq!(port, 20_080);
    assert!(*entry.name() == TunnelName::PortNumber(20_080));
    let err = tuns.new_tcp_proxy_tunnel(Some(20_080)).unwrap_err();
    assert_eq!(err, RegistryError::PortConflict(20_080));
    assert_eq!(err.message(), "port already in use: 20080");
    assert_eq!(tuns.new_tcp_tunnel(Some(20_080)).unwrap_err(), RegistryError::PortConflict(20_080));
}

#[test]
fn a_port_outside_the_range_is_refused() {
    let mut tuns: Tunnels<u8> = Tunnels::new();
    for port in [0, 80, 19_999, 60_001, 65_535] {
        let err = tuns.new_tcp_proxy_tunnel(Some(port)).unwrap_err();
        assert_eq!(err, RegistryError::PortOutOfRange(port));
        assert_eq!(err.message(), format!("port out of range: {}", port));
        assert_eq!(tuns.new_tcp_tunnel(Some(port)).unwrap_err(), err);
        let id = TunnelId::from_value(1);
        assert!(matches!(tuns.reserve_port(Some(port), id), Err(e) if e == err));
        assert!(tuns.id_for_name(&TunnelName::PortNumber(port)).is_none());
    }
    assert_eq!(tuns.new_tcp_proxy_tunnel(Some(20_000)).unwrap().1, 20_000);
    assert_eq!(tuns.new_tcp_proxy_tunnel(Some(60_000)).unwrap().1, 60_000);
}

#[test]
fn drawn_ports_are_of_the_range_and_differ() {
    let mut tuns: Tunnels<u8> = Tunnels::new();
    let mut seen: Vec<u16> = Vec::new();
    for _ in 0..200 {
        let (_, port) = tuns.new_tcp_proxy_tunnel(None).unwrap();
        assert!((20_000..60_000).contains(&port));
        assert!(!seen.contains(&port));
        seen.push(port);
    }
}

#[test]
fn a_full_range_is_exhausted() {
    let mut tuns: Tunnels<u8> = Tunnels::new();
    let id = TunnelId::from_value(1);
    for port in 20_000..60_000u16 {
        assert!(tuns.claim_port(port, id));
    }
    let err = tuns.new_tcp_proxy_tunnel(None).unwrap_err();
    assert_eq!(err, RegistryError::PortExhausted);
    assert_eq!(err.message(), "no available port found after 100 attempts");
    assert_eq!(tuns.new_tcp_tunnel(None).unwrap_err(), RegistryError::PortExhausted);
    assert!(tuns.new_tcp_tunnel(Some(60_000)).is_ok());
}

#[test]
fn the_first_free_draw_is_claimed() {
    let mut tuns: Tunnels<u8> = Tunnels::new();
    let id = TunnelId::from_value(1);
    assert!(tuns.claim_port(20_001, id));
    assert_eq!(tuns.claim_first_free(&vec![20_001, 20_002, 20_003], id), Some(20_002));
    assert_eq!(tuns.claim_first_free(&vec![20_001, 20_002], id), None);
    assert_eq!(tuns.claim_first_free(&vec![], id), None);
}

#[test]
fn a_tunnel_is_found_while_it_is_open() {
    let mut tuns: Tunnels<&str> = Tunnels::new();
    let mut entry = tuns.new_http_tunnel(Some("app".to_string())).unwrap();
    assert!(tuns.local_tunnel(&sub("app")).is_none());
    entry.add_tunnel(&mut tuns, Tunnel::local("client"));
    let found = tuns.local_tunnel(&sub("app")).unwrap();
    assert!(matches!(found.connection, TunnelConnection::Local("client")));
    assert!(tuns.local_tunnel(&sub("other")).is_none());
    assert_eq!(tuns.id_for_name(&sub("app")), Some(entry.id()));
    entry.release(&mut tuns);
    assert!(tuns.local_tunnel(&sub("app")).is_some());
    tuns.remove_tunnel(entry.id());
    assert!(tuns.local_tunnel(&sub("app")).is_none());
    assert!(tuns.new_http_tunnel(Some("app".to_string())).is_ok());
}

#[test]
fn removing_an_unknown_tunnel_changes_nothing() {
    let mut tuns: Tunnels<u8> = Tunnels::new();
    let mut entry = tuns.new_http_tunnel(Some("app".to_string())).unwrap();
    entry.add_tunnel(&mut tuns, Tunnel::local(1));
    tuns.remove_tunnel(TunnelId::from_value(5));
    assert!(tuns.local_tunnel(&sub("app")).is_some());
}

#[test]
fn metadata_counts_traffic() {
    let mut tuns: Tunnels<u8> = Tunnels::new();
    let mut a = tuns.new_http_tunnel(Some("a".to_string())).unwrap();
    let (mut b, _) = tuns.new_tcp_proxy_tunnel(Some(20_070)).unwrap();
    a.add_tunnel(&mut tuns, Tunnel::local(1));
    b.add_tunnel(&mut tuns, Tunnel::local(2));
    tuns.record_read(a.id(), 100, 60);
    tuns.record_read(a.id(), 10, 10);
    tuns.record_written(a.id(), 7);
    tuns.record_written(TunnelId::from_value(9), 7);
    let list = tuns.list_tunnels_metadata();
    assert_eq!(list.len(), 2);
    for item in list {
        if item.id == a.id() {
            assert!(item.name == sub("a"));
            assert_eq!((item.read_bytes, item.written_bytes), (40, 7));
        } else {
            assert!(item.id == b.id());
            assert!(item.name == TunnelName::PortNumber(20_070));
            assert_eq!((item.read_bytes, item.written_bytes), (0, 0));
        }
    }
    tuns.record_written(a.id(), usize::MAX);
    let list = tuns.list_tunnels_metadata();
    let counted = list.iter().find(|item| item.id == a.id()).unwrap();
    assert_eq!(counted.written_bytes, 6);
}

#[test]
fn names_are_written_and_compared() {
    assert_eq!(sub("app").to_text(), "app");
    assert_eq!(TunnelName::PortNumber(65535).to_text(), ":65535");
    assert_eq!(TunnelName::PortNumber(0).to_text(), ":0");
    assert!(sub("app") == *"app");
    assert!(sub("app") != *"App");
    assert!(TunnelName::PortNumber(80) == *"80");
    assert!(TunnelName::PortNumber(80) == *"+080");
    assert!(TunnelName::PortNumber(80) != *":80");
    assert!(TunnelName::PortNumber(80) != *"81");
    assert!(TunnelName::PortNumber(0) != *"65536");
    assert!(TunnelName::PortNumber(0) != *"");
    assert!(sub("80") != TunnelName::PortNumber(80));
    assert!(sub("x").clone() == sub("x"));
}

#[test]
fn a_session_cleans_up_after_each_ending() {
    let mut tuns: Tunnels<u8> = Tunnels::new();
    let name = Some("app".to_string());

    let session = Session::Proxied(tuns.new_http_tunnel(name.clone()).unwrap());
    session.upgrade_failed(&mut tuns);
    assert!(tuns.id_for_name(&sub("app")).is_none());

    let session = Session::Proxied(tuns.new_http_tunnel(name.clone()).unwrap());
    session.closed(&mut tuns);
    assert!(tuns.id_for_name(&sub("app")).is_none());

    let mut session = Session::Proxied(tuns.new_http_tunnel(name.clone()).unwrap());
    assert!(matches!(session.connected(&mut tuns, 3), Serving::Registered));
    assert!(tuns.local_tunnel(&sub("app")).is_some());
    session.closed(&mut tuns);
    assert!(tuns.id_for_name(&sub("app")).is_none());
    assert!(tuns.list_tunnels_metadata().is_empty());
}

#[test]
fn a_listening_session_keeps_its_port() {
    let mut tuns: Tunnels<u8> = Tunnels::new();
    let (id, port) = tuns.new_tcp_tunnel(Some(20_090)).unwrap();
    let mut session = Session::Listening(id, port);
    assert_eq!(session.id(), id);
    match session.connected(&mut tuns, 3) {
        Serving::Listen(tunnel, port) => {
            assert_eq!(port, 20_090);
            assert!(matches!(tunnel.connection, TunnelConnection::Local(3)));
        }
        Serving::Registered => panic!("not registered"),
    }
    assert!(tuns.local_tunnel(&TunnelName::PortNumber(20_090)).is_none());
    session.closed(&mut tuns);
    assert_eq!(tuns.id_for_name(&TunnelName::PortNumber(20_090)), Some(id));
    assert_eq!(tuns.new_tcp_tunnel(Some(20_090)).unwrap_err(), RegistryError::PortConflict(20_090));
}

#[test]
fn pings_go_on_until_one_fails() {
    assert!(matches!(after_ping::<u8>(PingEvent::Pong), PingStep::PingAfter(10)));
    assert!(matches!(after_ping::<u8>(PingEvent::Failed(4)), PingStep::Fail(4)));
    assert!(matches!(after_ping::<u8>(PingEvent::TimedOut), PingStep::Stop(0)));
    assert_eq!(listener_error(ListenerEnd::NotBound), Some(2));
    assert_eq!(listener_error(ListenerEnd::NoMoreConnections), None);
}

fn peers() -> Vec<Peer> {
    vec![
        Peer { text: "10.0.0.1:5553".to_string(), ip: IpAddress::V4(0x0a00_0001) },
        Peer { text: "[::1]:5553".to_string(), ip: IpAddress::V6(1) },
    ]
}

#[test]
fn peers_are_asked_in_turn() {
    let tuns: Tunnels<u8> = Tunnels::with_peer_proxy_ports(7000, 7001);
    let mut search = match tuns.tunnel_for_name(&sub("app")) {
        Lookup::AskPeers(query) => query.among(peers()),
        Lookup::Here(..) => panic!("not open here"),
    };
    assert_eq!(search.query().unwrap(), "http://10.0.0.1:5553/tunnels/app");
    assert_eq!(search.answered(Some(404)), None);
    assert_eq!(search.query().unwrap(), "http://[::1]:5553/tunnels/app");
    assert_eq!(
        search.answered(Some(204)),
        Some(PeerAddr { ip: IpAddress::V6(1), port: 7000 })
    );
    assert_eq!(search.query(), None);
}

#[test]
fn peers_without_the_tunnel_lead_nowhere() {
    let mut search = PeerQuery::new(&TunnelName::PortNumber(22), 5555, 5556).among(peers());
    assert_eq!(search.query().unwrap(), "http://10.0.0.1:5553/tunnels/:22");
    assert_eq!(search.answered(None), None);
    assert_eq!(search.answered(Some(300)), None);
    assert_eq!(search.query(), None);
    let mut search = PeerQuery::new(&TunnelName::PortNumber(22), 5555, 5556).among(peers());
    assert_eq!(
        search.answered(Some(200)),
        Some(PeerAddr { ip: IpAddress::V4(0x0a00_0001), port: 5556 })
    );
    assert_eq!(search.answered(Some(199)), None);
}

#[test]
fn a_resolver_keeps_what_it_looks_for() {
    let resolver = DnsPeerResolver::new("peers.local", 5553);
    assert_eq!(resolver.hostname(), "peers.local");
    assert_eq!(resolver.port(), 5553);
    assert_eq!(DnsPeerResolver::new("a".to_string(), 1).hostname(), "a");
}

#[test]
fn a_remote_tunnel_has_no_traffic() {
    let addr = PeerAddr { ip: IpAddress::V4(1), port: 2 };
    let tunnel: Tunnel<u8> = Tunnel::remote(addr);
    assert!(matches!(tunnel.connection, TunnelConnection::Remote(a) if a == addr));
    assert_eq!((tunnel.read_bytes, tunnel.written_bytes), (0, 0));
}

#[test]
fn a_tunnel_is_looked_for_here_first() {
    let mut tuns: Tunnels<&str> = Tunnels::new();
    let mut entry = tuns.new_http_tunnel(Some("app".to_string())).unwrap();
    assert!(matches!(tuns.tunnel_for_name(&sub("app")), Lookup::AskPeers(_)));
    entry.add_tunnel(&mut tuns, Tunnel::local("client"));
    match tuns.tunnel_for_name(&sub("app")) {
        Lookup::Here(id, tunnel) => {
            assert_eq!(id, entry.id());
            assert!(matches!(tunnel.connection, TunnelConnection::Local("client")));
        }
        Lookup::AskPeers(_) => panic!("open here"),
    }
    match tuns.tunnel_for_name(&TunnelName::PortNumber(22)) {
        Lookup::AskPeers(query) => {
            let mut search = query.among(peers());
            let found = search.answered(Some(200));
            assert_eq!(found, Some(PeerAddr { ip: IpAddress::V4(0x0a00_0001), port: 5556 }));
        }
        Lookup::Here(..) => panic!("not open here"),
    }
}
