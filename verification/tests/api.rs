use http::{HeaderMap, HeaderValue};
use tinytun::api::{
    answer_request, grant_http_tunnel, greeting, http_tunnel, metadata_answer, port_request,
    route_request, tcp_proxy_tunnel, tcp_tunnel, Answer, ApiRoute, InvalidHeader, MetadataAnswer,
};
use tinytun::headers::get_text;
use tinytun::name::TunnelName;
use tinytun::reply::Reply;
use tinytun::session::Session;
use tinytun::tunnel::Tunnels;
use tinytun::tunnel_id::TunnelId;

fn headers(list: &[(&'static str, &str)]) -> HeaderMap<HeaderValue> {
    let mut map = HeaderMap::new();
    for (name, value) in list {
        map.append(*name, HeaderValue::from_str(value).unwrap());
    }
    map
}

fn field<'a>(reply: &'a Reply, name: &str) -> &'a str {
    &reply.headers.iter().find(|(n, _)| n == name).unwrap().1
}

#[test]
fn header_text_is_the_first_visible_value() {
    let map = headers(&[("x-a", "one"), ("x-a", "two"), ("x-b", "\u{e9}")]);
    assert_eq!(get_text(&map, "x-a").unwrap(), "one");
    assert_eq!(get_text(&map, "X-A").unwrap(), "one");
    assert_eq!(get_text(&map, "x-b"), None);
    assert_eq!(get_text(&map, "x-c"), None);
    assert_eq!(get_text(&map, "not a name"), None);
    assert_eq!(get_text(&headers(&[("x-a", "a\tb")]), "x-a").unwrap(), "a\tb");
}

#[test]
fn a_granted_http_tunnel_tells_its_domain() {
    let mut tuns: Tunnels<u8> = Tunnels::new();
    let id = TunnelId::from_value(0xabc);
    let map = headers(&[("x-tinytun-subdomain", "app")]);
    match grant_http_tunnel("example.com", &mut tuns, &map, id).unwrap() {
        Answer::Granted(reply, Session::Proxied(entry)) => {
            assert_eq!(reply.status, 101);
            assert_eq!(reply.body, "");
            assert_eq!(
                reply.headers,
                vec![
                    ("x-tinytun-connection-id".to_string(), id.to_text()),
                    ("x-tinytun-domain".to_string(), "app.example.com".to_string()),
                    ("x-tinytun-subdomain".to_string(), "app".to_string()),
                ]
            );
            assert_eq!(entry.id(), id);
            assert_eq!(entry.name().to_text(), "app");
        }
        _ => panic!("not granted"),
    }
}

#[test]
fn a_taken_subdomain_is_answered_with_a_conflict() {
    let mut tuns: Tunnels<u8> = Tunnels::new();
    let map = headers(&[("x-tinytun-subdomain", "taken")]);
    assert!(matches!(http_tunnel("b", &mut tuns, &map), Ok(Answer::Granted(..))));
    match http_tunnel("b", &mut tuns, &map) {
        Ok(Answer::Refused(reply)) => {
            assert_eq!(reply.status, 409);
            assert_eq!(reply.body, "Subdomain not available");
            assert!(reply.headers.is_empty());
        }
        _ => panic!("not refused"),
    }
}

#[test]
fn an_unsendable_domain_is_an_error_and_frees_the_name() {
    let mut tuns: Tunnels<u8> = Tunnels::new();
    let map = headers(&[("x-tinytun-subdomain", "app")]);
    assert!(matches!(http_tunnel("bad\ndomain", &mut tuns, &map), Err(InvalidHeader)));
    assert!(tuns.id_for_name(&TunnelName::Subdomain("app".to_string())).is_none());
    assert!(matches!(http_tunnel("\u{7f}", &mut tuns, &map), Err(InvalidHeader)));
    assert!(matches!(http_tunnel("d\u{f6}main", &mut tuns, &map), Ok(Answer::Granted(..))));
}

#[test]
fn an_unreadable_subdomain_counts_for_none() {
    let mut tuns: Tunnels<u8> = Tunnels::new();
    let map = headers(&[("x-tinytun-subdomain", "\u{e9}")]);
    match http_tunnel("b", &mut tuns, &map) {
        Ok(Answer::Granted(reply, session)) => {
            assert_eq!(field(&reply, "x-tinytun-subdomain"), session.id().to_text());
        }
        _ => panic!("not granted"),
    }
}

#[test]
fn ports_are_read_from_the_request() {
    assert_eq!(port_request(&headers(&[("x-tinytun-port", "8080")])), Some(8080));
    assert_eq!(port_request(&headers(&[("x-tinytun-port", "+1")])), Some(1));
    assert_eq!(port_request(&headers(&[("x-tinytun-port", "65536")])), None);
    assert_eq!(port_request(&headers(&[("x-tinytun-port", "-1")])), None);
    assert_eq!(port_request(&headers(&[("x-tinytun-port", " 1")])), None);
    assert_eq!(port_request(&headers(&[])), None);
}

#[test]
fn tcp_tunnels_are_granted_and_refused() {
    let mut tuns: Tunnels<u8> = Tunnels::new();
    let map = headers(&[("x-tinytun-port", "28080")]);
    match tcp_proxy_tunnel(&mut tuns, &map) {
        Answer::Granted(reply, Session::Proxied(entry)) => {
            assert_eq!(reply.status, 101);
            assert_eq!(field(&reply, "x-tinytun-port"), "28080");
            assert_eq!(field(&reply, "x-tinytun-connection-id"), entry.id().to_text());
            assert_eq!(reply.headers.len(), 2);
        }
        _ => panic!("not granted"),
    }
    match tcp_tunnel(&mut tuns, &map) {
        Answer::Refused(reply) => {
            assert_eq!((reply.status, reply.body.as_str()), (409, "Port not available"));
        }
        _ => panic!("not refused"),
    }
    match tcp_tunnel(&mut tuns, &headers(&[])) {
        Answer::Granted(reply, Session::Listening(_, port)) => {
            assert_eq!(field(&reply, "x-tinytun-port"), port.to_string());
        }
        _ => panic!("not granted"),
    }
    assert!(matches!(tcp_proxy_tunnel(&mut tuns, &map), Answer::Refused(_)));
}

#[test]
fn requests_are_routed_by_method_and_type() {
    let route = |method: &str, list: &[(&'static str, &str)]| route_request(method, &headers(list));
    assert_eq!(route("GET", &[("x-tinytun-type", "tcp")]), ApiRoute::Greeting);
    assert_eq!(route("connect", &[]), ApiRoute::Greeting);
    assert_eq!(route("CONNECT", &[("x-tinytun-type", "tcp")]), ApiRoute::TcpProxy);
    assert_eq!(route("CONNECT", &[("x-tinytun-type", "tcp_port")]), ApiRoute::TcpPort);
    assert_eq!(route("CONNECT", &[("x-tinytun-type", "http")]), ApiRoute::Http);
    assert_eq!(route("CONNECT", &[("x-tinytun-type", "TCP")]), ApiRoute::Http);
    assert_eq!(route("CONNECT", &[]), ApiRoute::Http);
}

#[test]
fn requests_for_no_tunnel_are_greeted() {
    let reply = greeting();
    assert_eq!(reply.status, 200);
    assert_eq!(reply.headers, vec![("connection".to_string(), "close".to_string())]);
    assert_eq!(reply.body, "");
    let mut tuns: Tunnels<u8> = Tunnels::new();
    match answer_request("GET", "b", &mut tuns, &headers(&[])) {
        Ok(Answer::Refused(reply)) => assert_eq!(reply.status, 200),
        _ => panic!("not greeted"),
    }
}

#[test]
fn requests_are_answered_by_type() {
    let mut tuns: Tunnels<u8> = Tunnels::new();
    let http = answer_request("CONNECT", "b", &mut tuns, &headers(&[])).unwrap();
    assert!(matches!(http, Answer::Granted(_, Session::Proxied(_))));
    let map = headers(&[("x-tinytun-type", "tcp_port"), ("x-tinytun-port", "20099")]);
    let port = answer_request("CONNECT", "b", &mut tuns, &map).unwrap();
    assert!(matches!(port, Answer::Granted(_, Session::Listening(_, 20099))));
    let map = headers(&[("x-tinytun-type", "tcp"), ("x-tinytun-port", "20098")]);
    let tcp = answer_request("CONNECT", "b", &mut tuns, &map).unwrap();
    assert!(matches!(tcp, Answer::Granted(_, Session::Proxied(_))));
}

#[test]
fn metadata_has_one_path() {
    let tuns: Tunnels<u8> = Tunnels::new();
    assert!(matches!(metadata_answer("/tunnels", &tuns), MetadataAnswer::Listing(l) if l.is_empty()));
    for path in ["", "/", "/tunnels/", "/tunnels/app", "tunnels", "//tunnels"] {
        match metadata_answer(path, &tuns) {
            MetadataAnswer::Missing(reply) => {
                assert_eq!((reply.status, reply.body.as_str()), (404, ""))
            }
            MetadataAnswer::Listing(_) => panic!("listed under {}", path),
        }
    }
}

#[test]
fn tcp_tunnels_outside_the_range_are_refused() {
    let mut tuns: Tunnels<u8> = Tunnels::new();
    let map = headers(&[("x-tinytun-port", "80")]);
    for answer in [tcp_tunnel(&mut tuns, &map), tcp_proxy_tunnel(&mut tuns, &map)] {
        match answer {
            Answer::Refused(reply) => {
                assert_eq!((reply.status, reply.body.as_str()), (409, "Port not available"))
            }
            Answer::Granted(..) => panic!("granted"),
        }
    }
    assert!(tuns.id_for_name(&TunnelName::PortNumber(80)).is_none());
}
