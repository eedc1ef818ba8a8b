use party_sheets::connection::Connection;
use party_sheets::protocol::{ClientMessage, Effect, Inbound, InternalMessage, ToClientMessage};
use party_sheets::status::ServerMessage;
use party_sheets::store::CharacterStore;

fn update(data: &str) -> Inbound {
    Inbound::Client(ClientMessage::CharacterUpdated { data: data.to_string() })
}

fn sent_updates(effects: &[Effect]) -> Vec<(String, u32)> {
    effects
        .iter()
        .filter_map(|e| match e {
            Effect::Send(ToClientMessage::CharacterUpdated { data, player_id }) => {
                Some((data.clone(), *player_id))
            }
            _ => None,
        })
        .collect()
}

fn identified(key: u64, id: u32, store: &mut CharacterStore) -> Connection {
    let mut conn = Connection::new(key, false);
    conn.on_message(Inbound::Client(ClientMessage::Id { id }), store);
    conn
}

#[test]
fn update_from_one_connection_reaches_another() {
    let mut store = CharacterStore::new();
    let mut a = identified(10, 1, &mut store);
    let b = identified(11, 2, &mut store);
    let data = r#"{"name":"Aria","level":3}"#;
    let effects = a.on_message(update(data), &mut store);
    assert_eq!(effects.len(), 1);
    let event = match &effects[0] {
        Effect::Broadcast(m) => m.clone(),
        other => panic!("expected a broadcast, got {:?}", other),
    };
    let at_b = b.received_internal_message(event.clone());
    assert_eq!(sent_updates(&at_b), vec![(data.to_string(), 1)]);
    // The writer does not get its own update back.
    assert!(a.received_internal_message(event).is_empty());
}

#[test]
fn request_id_sends_id_then_announces_then_snapshot() {
    let mut store = CharacterStore::new();
    store.upsert("Aria".to_string(), 5, "{\"name\":\"Aria\"}".to_string());
    let mut conn = Connection::new(1, false);
    let effects = conn.on_message(Inbound::Client(ClientMessage::RequestId), &mut store);
    let id = conn.id.expect("an id was assigned");
    assert_eq!(effects.len(), 3);
    assert!(matches!(effects[0], Effect::Send(ToClientMessage::Id { id: sent }) if sent == id));
    assert!(matches!(effects[1], Effect::Signal(ServerMessage::NewConnection { id: sent }) if sent == id));
    assert_eq!(sent_updates(&effects[2..]), vec![("{\"name\":\"Aria\"}".to_string(), 5)]);
}

#[test]
fn ids_from_the_server_cover_the_full_range() {
    let store = CharacterStore::new();
    let trials = 4000;
    let mut ids = Vec::new();
    for key in 0..trials {
        let mut conn = Connection::new(key, false);
        conn.requested_id(&store);
        ids.push(conn.id.unwrap());
    }
    let mut distinct = ids.clone();
    distinct.sort();
    distinct.dedup();
    assert!(distinct.len() > 3990);
    // Each of the 32 bits is set in roughly half of the ids.
    for bit in 0..32 {
        let set = ids.iter().filter(|id| (*id >> bit) & 1 == 1).count();
        assert!(set > 1700 && set < 2300, "bit {} set in {} of {}", bit, set, trials);
    }
    assert!(ids.iter().any(|id| *id > u32::MAX / 4 * 3));
    assert!(ids.iter().any(|id| *id < u32::MAX / 4));
}

#[test]
fn joining_after_two_updates_gets_both_sheets() {
    let mut store = CharacterStore::new();
    let mut a = identified(1, 1, &mut store);
    a.on_message(update(r#"{"name":"Aria","hp":10}"#), &mut store);
    a.on_message(update(r#"{"name":"Bram","hp":12}"#), &mut store);
    let mut late = Connection::new(2, false);
    let effects = late.on_message(Inbound::Client(ClientMessage::Id { id: 9 }), &mut store);
    assert!(matches!(effects[0], Effect::Signal(ServerMessage::NewConnection { id: 9 })));
    assert_eq!(
        sent_updates(&effects),
        vec![
            (r#"{"name":"Aria","hp":10}"#.to_string(), 1),
            (r#"{"name":"Bram","hp":12}"#.to_string(), 1),
        ]
    );
}

#[test]
fn joining_after_two_updates_of_one_name_gets_the_latest() {
    let mut store = CharacterStore::new();
    let mut a = identified(1, 1, &mut store);
    let mut b = identified(2, 2, &mut store);
    a.on_message(update(r#"{"name":"Aria","hp":10}"#), &mut store);
    b.on_message(update(r#"{"name":"Aria","hp":4}"#), &mut store);
    let mut late = Connection::new(3, false);
    let effects = late.on_message(Inbound::Client(ClientMessage::Id { id: 9 }), &mut store);
    assert_eq!(sent_updates(&effects), vec![(r#"{"name":"Aria","hp":4}"#.to_string(), 2)]);
}

#[test]
fn malformed_update_changes_nothing_and_keeps_connection() {
    let mut store = CharacterStore::new();
    let mut a = identified(1, 1, &mut store);
    a.on_message(update(r#"{"name":"Aria"}"#), &mut store);
    for bad in ["not json", r#"{"level":3}"#, r#"{"name":7}"#, r#"["name"]"#, ""] {
        let effects = a.on_message(update(bad), &mut store);
        assert!(effects.is_empty(), "payload {:?}", bad);
        assert!(a.open);
        assert_eq!(store.len(), 1);
        assert_eq!(store.snapshot()[0].payload, r#"{"name":"Aria"}"#);
    }
    assert!(a.on_message(Inbound::Unreadable, &mut store).is_empty());
    assert!(a.open);
}

#[test]
fn update_before_identification_is_dropped() {
    let mut store = CharacterStore::new();
    let mut conn = Connection::new(1, false);
    let effects = conn.on_message(update(r#"{"name":"Aria"}"#), &mut store);
    assert!(effects.is_empty());
    assert_eq!(store.len(), 0);
}

#[test]
fn second_identity_message_is_ignored() {
    let mut store = CharacterStore::new();
    let mut conn = identified(1, 4, &mut store);
    assert!(conn.on_message(Inbound::Client(ClientMessage::Id { id: 8 }), &mut store).is_empty());
    assert!(conn.on_message(Inbound::Client(ClientMessage::RequestId), &mut store).is_empty());
    assert_eq!(conn.id, Some(4));
}

#[test]
fn close_reports_identified_connection_only() {
    let mut store = CharacterStore::new();
    let mut anonymous = Connection::new(1, false);
    assert!(anonymous.on_message(Inbound::Close, &mut store).is_empty());
    assert!(!anonymous.open);

    let mut conn = identified(2, 6, &mut store);
    let effects = conn.on_message(Inbound::Close, &mut store);
    assert_eq!(effects.len(), 1);
    assert!(matches!(effects[0], Effect::Signal(ServerMessage::ClosedConnection { id: 6 })));
    assert!(!conn.open);
    // A closed connection takes no further messages.
    assert!(conn.on_message(Inbound::Close, &mut store).is_empty());
    let event = InternalMessage::CharacterUpdated { origin: 99, character_data: "x".to_string(), player_id: 1 };
    assert!(conn.received_internal_message(event).is_empty());
}

#[test]
fn close_keeps_or_forgets_records_as_configured() {
    let mut store = CharacterStore::new();
    let mut keeper = Connection::new(1, false);
    keeper.on_message(Inbound::Client(ClientMessage::Id { id: 1 }), &mut store);
    keeper.on_message(update(r#"{"name":"Aria"}"#), &mut store);
    keeper.on_message(Inbound::Close, &mut store);
    assert_eq!(store.len(), 1);

    let mut forgetter = Connection::new(2, true);
    forgetter.on_message(Inbound::Client(ClientMessage::Id { id: 2 }), &mut store);
    forgetter.on_message(update(r#"{"name":"Bram"}"#), &mut store);
    assert_eq!(store.len(), 2);
    forgetter.on_message(Inbound::Close, &mut store);
    assert_eq!(store.len(), 1);
    assert_eq!(store.snapshot()[0].name, "Aria");
}

#[test]
fn update_named_records_under_the_given_name() {
    let mut store = CharacterStore::new();
    let mut conn = identified(1, 3, &mut store);
    let effects = conn.update_named(Some("Cole".to_string()), "sheet".to_string(), &mut store);
    assert_eq!(effects.len(), 1);
    assert_eq!(store.snapshot()[0].name, "Cole");
    assert!(conn.update_named(None, "sheet".to_string(), &mut store).is_empty());
    assert_eq!(store.len(), 1);
}
