use party_sheets::listener::{Listener, ListenerEvent, ListenerPhase};
use party_sheets::status::{LocalAddress, ServerStatus};

#[test]
fn bind_failure_reports_error_once() {
    let mut l = Listener::new();
    assert_eq!(l.on_event(ListenerEvent::BindFailed), Some(ServerStatus::Error));
    assert_eq!(l.phase, ListenerPhase::Stopped);
    assert_eq!(l.on_event(ListenerEvent::ServeEnded { clean: true }), None);
    assert_eq!(l.on_event(ListenerEvent::Bound { ip: None }), None);
}

#[test]
fn bound_reports_address_or_no_address() {
    let mut with_ip = Listener::new();
    let ip = LocalAddress::V4([192, 168, 0, 12]);
    assert_eq!(with_ip.on_event(ListenerEvent::Bound { ip: Some(ip) }), Some(ServerStatus::Online { ip }));
    let mut without = Listener::new();
    assert_eq!(without.on_event(ListenerEvent::Bound { ip: None }), Some(ServerStatus::OnlineNoIp));
    assert_eq!(without.phase, ListenerPhase::Serving);
}

#[test]
fn serving_ends_offline_or_error() {
    let mut clean = Listener::new();
    clean.on_event(ListenerEvent::Bound { ip: None });
    assert_eq!(clean.on_event(ListenerEvent::ServeEnded { clean: true }), Some(ServerStatus::Offline));
    assert_eq!(clean.on_event(ListenerEvent::ServeEnded { clean: false }), None);

    let mut failed = Listener::new();
    failed.on_event(ListenerEvent::Bound { ip: None });
    assert_eq!(failed.on_event(ListenerEvent::ServeEnded { clean: false }), Some(ServerStatus::Error));
    assert_eq!(failed.phase, ListenerPhase::Stopped);
}
