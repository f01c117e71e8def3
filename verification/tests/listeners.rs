use meow::accept::{AcceptLoop, LoopAction, LoopEvent, LoopPhase};
use meow::addr::SocketAddr;
use meow::mixed::{AuthConfig, Credential, MixedListener, SnifferRuntime, DEFAULT_MAX_CONNECTIONS};
use meow::redir::RedirListener;
use meow::session::ListenerKind;
use std::sync::Arc;

fn mixed() -> MixedListener<&'static str, u8> {
    MixedListener::new("tunnel", SocketAddr::any(7890), "mixed".to_string())
}

fn sniffer(enabled: bool, engine: u8) -> Arc<SnifferRuntime<u8>> {
    Arc::new(SnifferRuntime { enabled, engine })
}

fn users(names: &[&str]) -> Arc<AuthConfig> {
    let credentials = names
        .iter()
        .map(|n| Credential { username: n.to_string(), password: "p".to_string() })
        .collect();
    Arc::new(AuthConfig { credentials })
}

#[test]
fn a_new_listener_has_no_extras() {
    let l = mixed();
    assert_eq!(l.tunnel, "tunnel");
    assert_eq!(l.listen_addr.port(), 7890);
    assert_eq!(l.name, "mixed");
    assert!(l.sniffer.is_none());
    assert!(l.auth.is_none());
    assert_eq!(l.max_connections, DEFAULT_MAX_CONNECTIONS);
    assert_eq!(DEFAULT_MAX_CONNECTIONS, 0);
}

#[test]
fn the_cap_can_be_set() {
    let l = mixed().with_max_connections(256);
    assert_eq!(l.max_connections, 256);
    assert_eq!(l.name, "mixed");
    assert_eq!(l.accept_loop(), AcceptLoop::start(ListenerKind::Mixed, 256));
}

#[test]
fn only_an_enabled_sniffer_is_taken_on() {
    assert!(sniffer(true, 0).is_enabled());
    let l = mixed().with_sniffer(sniffer(false, 1));
    assert!(l.sniffer.is_none());
    let l = l.with_sniffer(sniffer(true, 2)).with_sniffer(sniffer(false, 3));
    assert_eq!(l.sniffer.unwrap().engine, 2);
}

#[test]
fn only_an_auth_with_users_is_taken_on() {
    let l = mixed().with_auth(users(&[]));
    assert!(l.auth.is_none());
    let l = l.with_auth(users(&["u"])).with_auth(users(&[]));
    let auth = l.auth.unwrap();
    assert_eq!(auth.credentials.len(), 1);
    assert_eq!(auth.credentials[0].username, "u");
}

#[test]
fn a_redirect_listener_keeps_what_it_is_given() {
    let l = RedirListener::new("t", SocketAddr::any(1), Some(sniffer(false, 9)), "r".to_string());
    assert_eq!(l.sniffer.as_ref().unwrap().engine, 9);
    assert_eq!((l.tunnel, l.name.as_str(), l.listen_addr.port()), ("t", "r", 1));
    assert_eq!(l.accept_loop(), AcceptLoop::start(ListenerKind::Redir, 0));
}

#[test]
fn without_a_cap_no_slot_is_asked_for() {
    let mut l = AcceptLoop::start(ListenerKind::Mixed, 0);
    assert_eq!(l.step(LoopEvent::Bound(true)), LoopAction::Accept { announce: false });
    assert_eq!(l.step(LoopEvent::Accepted(true)), LoopAction::Spawn);
    assert_eq!(l.step(LoopEvent::Handled), LoopAction::Accept { announce: false });
    assert_eq!(l.step(LoopEvent::Accepted(false)), LoopAction::Discard);
    assert_eq!(l.step(LoopEvent::Handled), LoopAction::Accept { announce: false });
}

#[test]
fn with_a_cap_a_slot_comes_before_the_connection() {
    let mut l = AcceptLoop::start(ListenerKind::Mixed, 2);
    assert_eq!(l.step(LoopEvent::Bound(true)), LoopAction::CheckSlots);
    assert_eq!(l.step(LoopEvent::Available(2)), LoopAction::Acquire { warn: false });
    assert_eq!(l.step(LoopEvent::Acquired(true)), LoopAction::Accept { announce: false });
    assert_eq!(l.step(LoopEvent::Accepted(true)), LoopAction::Spawn);
    assert_eq!(l.step(LoopEvent::Handled), LoopAction::CheckSlots);
}

#[test]
fn saturation_is_warned_of_and_taken_back() {
    let mut l = AcceptLoop::start(ListenerKind::Mixed, 1);
    l.step(LoopEvent::Bound(true));
    assert_eq!(l.step(LoopEvent::Available(0)), LoopAction::Acquire { warn: true });
    assert!(l.warned_saturated);
    assert_eq!(l.step(LoopEvent::Acquired(true)), LoopAction::Accept { announce: true });
    assert!(!l.warned_saturated);
    let mut warned = AcceptLoop { warned_saturated: true, phase: LoopPhase::Check, ..l };
    assert_eq!(warned.step(LoopEvent::Available(0)), LoopAction::Acquire { warn: false });
}

#[test]
fn the_loop_ends_without_socket_or_slots() {
    let mut l = AcceptLoop::start(ListenerKind::Mixed, 1);
    assert_eq!(l.step(LoopEvent::Bound(false)), LoopAction::Stop { failed: true });
    assert_eq!(l.phase, LoopPhase::Stopped);
    let mut l = AcceptLoop::start(ListenerKind::Mixed, 1);
    l.step(LoopEvent::Bound(true));
    l.step(LoopEvent::Available(1));
    assert_eq!(l.step(LoopEvent::Acquired(false)), LoopAction::Stop { failed: false });
}

#[test]
fn a_redirect_listener_ends_when_accepting_fails() {
    let mut l = AcceptLoop::start(ListenerKind::Redir, 0);
    assert_eq!(l.step(LoopEvent::Bound(true)), LoopAction::Accept { announce: false });
    assert_eq!(l.step(LoopEvent::Accepted(true)), LoopAction::Spawn);
    assert_eq!(l.step(LoopEvent::Handled), LoopAction::Accept { announce: false });
    assert_eq!(l.step(LoopEvent::Accepted(false)), LoopAction::Stop { failed: true });
}

#[test]
fn events_out_of_order_are_told_apart() {
    let l = AcceptLoop::start(ListenerKind::Mixed, 1);
    assert!(l.accepts(LoopEvent::Bound(true)));
    assert!(!l.accepts(LoopEvent::Accepted(true)));
    assert!(!l.accepts(LoopEvent::Available(1)));
    assert!(!l.accepts(LoopEvent::Acquired(true)));
    assert!(!l.accepts(LoopEvent::Handled));
}

#[test]
fn never_more_connections_than_the_cap() {
    // A semaphore of three slots; handlers end now and then.
    let cap = 3usize;
    let mut l = AcceptLoop::start(ListenerKind::Mixed, cap);
    let (mut taken, mut in_flight) = (0usize, 0usize);
    let mut action = l.step(LoopEvent::Bound(true));
    for round in 0..200usize {
        if round % 7 == 0 && in_flight > 0 {
            in_flight -= 1;
            taken -= 1;
        }
        action = match action {
            LoopAction::CheckSlots => l.step(LoopEvent::Available(cap - taken)),
            LoopAction::Acquire { .. } => {
                if taken == cap {
                    continue;
                }
                taken += 1;
                l.step(LoopEvent::Acquired(true))
            }
            LoopAction::Accept { .. } => {
                assert!(in_flight < cap);
                l.step(LoopEvent::Accepted(round % 5 != 0))
            }
            LoopAction::Spawn => {
                in_flight += 1;
                assert!(in_flight <= cap);
                l.step(LoopEvent::Handled)
            }
            LoopAction::Discard => {
                taken -= 1;
                l.step(LoopEvent::Handled)
            }
            LoopAction::Stop { .. } => unreachable!(),
        };
    }
    assert!(in_flight > 0);
}
