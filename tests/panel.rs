use party_sheets::panel::{can_stop, port_input, start_label, ConnectionList, PortEntry};
use party_sheets::status::{LocalAddress, ServerStatus};

fn typed(s: &str) -> Option<(String, u16)> {
    let chars: Vec<char> = s.chars().collect();
    port_input(&chars).map(|e: PortEntry| (chars[e.start..e.end].iter().collect(), e.port))
}

#[test]
fn plain_port_is_accepted() {
    assert_eq!(typed("8080"), Some(("8080".to_string(), 8080)));
    assert_eq!(typed("65535"), Some(("65535".to_string(), 65535)));
    assert_eq!(typed("0"), Some(("0".to_string(), 0)));
}

#[test]
fn non_digits_at_the_ends_are_cut() {
    assert_eq!(typed("ab12cd"), Some(("12".to_string(), 12)));
    assert_eq!(typed(" 9000\n"), Some(("9000".to_string(), 9000)));
    assert_eq!(typed("é77ü"), Some(("77".to_string(), 77)));
    assert_eq!(typed("000080"), Some(("000080".to_string(), 80)));
}

#[test]
fn empty_entry_stands_for_default_port() {
    assert_eq!(typed(""), Some((String::new(), 8000)));
    assert_eq!(typed("abc"), Some((String::new(), 8000)));
}

#[test]
fn bad_ports_are_refused() {
    assert_eq!(typed("1a2"), None);
    assert_eq!(typed("65536"), None);
    assert_eq!(typed("70000"), None);
    assert_eq!(typed("99999999999999999999"), None);
}

#[test]
fn connection_list_shows_and_hides() {
    let mut list = ConnectionList::new();
    list.connection_opened(5);
    list.connection_opened(9);
    assert_eq!(list.shown_ids(), vec![5, 9]);
    list.connection_closed(5);
    assert_eq!(list.shown_ids(), vec![9]);
    assert_eq!(list.len(), 2);
    list.connection_opened(5);
    assert_eq!(list.shown_ids(), vec![5, 9]);
    list.connection_closed(42);
    assert_eq!(list.len(), 2);
}

#[test]
fn buttons_follow_status() {
    assert_eq!(start_label(ServerStatus::Offline), "Start");
    assert_eq!(start_label(ServerStatus::Error), "Restart");
    assert_eq!(start_label(ServerStatus::Restarting), "Restart");
    assert!(can_stop(ServerStatus::OnlineNoIp));
    assert!(can_stop(ServerStatus::Online { ip: LocalAddress::V4([10, 0, 0, 2]) }));
    assert!(!can_stop(ServerStatus::Offline));
    assert!(!can_stop(ServerStatus::Restarting));
}
