use meow::addr::{IpAddr, SocketAddr};
use meow::metadata::{ConnType, Metadata, Network};
use meow::session::{Action, Event, Refusal, Route, Session, Traffic};

const CLIENT: SocketAddr = SocketAddr::V4 { ipv4: 0x0a00_0002, port: 50000 };
const LISTEN: SocketAddr = SocketAddr::V4 { ipv4: 0x0a00_0001, port: 7890 };
const SERVER: SocketAddr =
    SocketAddr::V6 { ipv6: 0x2001_0db8 << 96, port: 443, flowinfo: 0, scope_id: 0 };

fn mixed(sniffing: bool) -> Session {
    Session::transparent(CLIENT, Some(LISTEN), "in".to_string(), 7891, sniffing)
}

fn redir() -> Session {
    Session::redir(CLIENT, LISTEN, "redir".to_string(), false)
}

fn route() -> Route {
    Route {
        proxy: "px".to_string(),
        rule_name: "DOMAIN".to_string(),
        rule_payload: "example.com".to_string(),
    }
}

#[test]
fn addresses_have_parts() {
    assert_eq!(CLIENT.ip(), IpAddr::V4(0x0a00_0002));
    assert_eq!(CLIENT.port(), 50000);
    assert_eq!(SERVER.ip(), IpAddr::V6(0x2001_0db8 << 96));
    assert_eq!(SERVER.port(), 443);
    assert_eq!(SocketAddr::any(5), SocketAddr::V4 { ipv4: 0, port: 5 });
}

#[test]
fn a_transparent_connection_goes_through() {
    let mut s = mixed(false);
    assert_eq!(s.listen_addr(), LISTEN);
    assert_eq!(s.step(Event::OriginalDst(Some(SERVER))), Action::ReverseLookup(SERVER.ip()));
    assert_eq!(s.step(Event::LookedUp(Some("example.com".to_string()))), Action::Resolve);
    let m = s.metadata();
    assert_eq!(m.network, Network::Tcp);
    assert_eq!(m.conn_type, ConnType::TProxy);
    assert_eq!((m.src_ip, m.src_port), (Some(CLIENT.ip()), 50000));
    assert_eq!((m.dst_ip, m.dst_port), (Some(SERVER.ip()), 443));
    assert_eq!((m.in_name.as_str(), m.in_port), ("in", 7891));
    assert_eq!((m.host.as_str(), m.sniff_host.as_str()), ("example.com", ""));
    assert!(s.tracking().is_none());
    assert_eq!(s.step(Event::Resolved(Some(route()))), Action::Dial);
    let tracking = s.tracking().unwrap();
    assert_eq!(tracking.rule_name, "DOMAIN");
    assert_eq!(tracking.rule_payload, "example.com");
    assert_eq!(tracking.chain, vec!["px".to_string()]);
    assert_eq!(s.step(Event::Dialed(true)), Action::Relay);
    let traffic = Traffic { up: 1, down: 2 };
    assert_eq!(s.step(Event::Relayed(Some(traffic))), Action::Finish(None));
}

#[test]
fn an_unknown_local_address_is_any_address() {
    let s = Session::transparent(CLIENT, None, "in".to_string(), 7891, false);
    assert_eq!(s.listen_addr(), SocketAddr::any(7891));
}

#[test]
fn a_redirect_session_takes_its_port_from_the_listener() {
    let s = redir();
    assert_eq!(s.listen_addr(), LISTEN);
    assert_eq!(s.metadata().in_port, 7890);
    assert_eq!(s.metadata().in_name, "redir");
    assert_eq!(s.metadata().dst_ip, None);
}

#[test]
fn an_unknown_destination_is_refused() {
    let mut s = mixed(true);
    assert_eq!(s.step(Event::OriginalDst(None)), Action::Close(Refusal::NoOriginalDst));
    assert!(!s.accepts(&Event::Resolved(Some(route()))));
    assert!(!s.accepts(&Event::OriginalDst(Some(SERVER))));
}

#[test]
fn the_listener_itself_is_refused() {
    for mut s in [mixed(true), mixed(false), redir()] {
        assert_eq!(
            s.step(Event::OriginalDst(Some(LISTEN))),
            Action::Close(Refusal::OwnAddress)
        );
    }
    let here = SocketAddr::V6 { ipv6: 1, port: 2, flowinfo: 0, scope_id: 1 };
    let there = SocketAddr::V6 { ipv6: 1, port: 2, flowinfo: 0, scope_id: 2 };
    let mut s = Session::redir(CLIENT, here, "r".to_string(), false);
    assert_eq!(s.step(Event::OriginalDst(Some(there))), Action::ReverseLookup(IpAddr::V6(1)));
}

#[test]
fn a_sniffed_name_is_the_host() {
    let mut s = mixed(true);
    assert_eq!(s.step(Event::OriginalDst(Some(SERVER))), Action::Sniff);
    let mut m = s.metadata().clone();
    assert_eq!((m.dst_ip, m.dst_port), (Some(SERVER.ip()), 443));
    m.sniff_host = "sni.example".to_string();
    m.host = "old".to_string();
    assert_eq!(s.step(Event::Sniffed(m)), Action::Resolve);
    assert_eq!(s.metadata().host, "sni.example");
    assert_eq!(s.metadata().sniff_host, "sni.example");
}

#[test]
fn without_a_sniffed_name_the_resolver_is_asked() {
    let mut s = mixed(true);
    s.step(Event::OriginalDst(Some(SERVER)));
    let mut m: Metadata = s.metadata().clone();
    m.host = "old".to_string();
    m.dst_ip = Some(IpAddr::V4(9));
    assert_eq!(s.step(Event::Sniffed(m)), Action::ReverseLookup(SERVER.ip()));
    assert_eq!(s.step(Event::LookedUp(None)), Action::Resolve);
    assert_eq!(s.metadata().host, "");
    assert_eq!(s.metadata().dst_ip, Some(IpAddr::V4(9)));
}

#[test]
fn no_rule_and_no_proxy_are_refused() {
    let mut s = mixed(false);
    s.step(Event::OriginalDst(Some(SERVER)));
    s.step(Event::LookedUp(None));
    assert_eq!(s.step(Event::Resolved(None)), Action::Close(Refusal::NoRule));
    let mut s = redir();
    s.step(Event::OriginalDst(Some(SERVER)));
    s.step(Event::LookedUp(None));
    s.step(Event::Resolved(Some(route())));
    assert_eq!(s.step(Event::Dialed(false)), Action::Close(Refusal::DialFailed));
}

#[test]
fn a_redirect_session_counts_its_traffic() {
    for (relayed, counted) in [
        (Some(Traffic { up: 3, down: 4 }), Traffic { up: 3, down: 4 }),
        (None, Traffic { up: 0, down: 0 }),
    ] {
        let mut s = redir();
        s.step(Event::OriginalDst(Some(SERVER)));
        s.step(Event::LookedUp(None));
        s.step(Event::Resolved(Some(route())));
        s.step(Event::Dialed(true));
        assert_eq!(s.step(Event::Relayed(relayed)), Action::Finish(Some(counted)));
    }
}

#[test]
fn a_session_waits_for_one_kind_of_event() {
    let mut s = mixed(false);
    assert!(s.accepts(&Event::OriginalDst(None)));
    assert!(!s.accepts(&Event::LookedUp(None)));
    s.step(Event::OriginalDst(Some(SERVER)));
    assert!(s.accepts(&Event::LookedUp(None)));
    assert!(!s.accepts(&Event::OriginalDst(None)));
    assert!(!s.accepts(&Event::Dialed(true)));
    assert!(!s.accepts(&Event::Relayed(None)));
}

#[test]
fn both_kinds_of_session_act_alike() {
    let mut a = Session::transparent(CLIENT, Some(LISTEN), "in".to_string(), 7890, false);
    let mut b = Session::redir(CLIENT, LISTEN, "in".to_string(), false);
    for s in [&mut a, &mut b] {
        assert_eq!(s.step(Event::OriginalDst(Some(SERVER))), Action::ReverseLookup(SERVER.ip()));
        assert_eq!(s.step(Event::LookedUp(Some("h".to_string()))), Action::Resolve);
        assert!(s.tracking().is_none());
        assert_eq!(s.step(Event::Resolved(Some(route()))), Action::Dial);
        assert_eq!(s.step(Event::Dialed(true)), Action::Relay);
    }
    assert_eq!(format!("{:?}", a.metadata()), format!("{:?}", b.metadata()));
    assert_eq!(format!("{:?}", a.tracking()), format!("{:?}", b.tracking()));
}
