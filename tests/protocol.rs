use party_sheets::protocol::{encode_to_client, ToClientMessage};

#[test]
fn id_frame_text() {
    assert_eq!(encode_to_client(&ToClientMessage::Id { id: 5 }), r#"{"Id":{"id":5}}"#);
    assert_eq!(encode_to_client(&ToClientMessage::Id { id: 0 }), r#"{"Id":{"id":0}}"#);
    assert_eq!(
        encode_to_client(&ToClientMessage::Id { id: u32::MAX }),
        r#"{"Id":{"id":4294967295}}"#
    );
}

#[test]
fn character_frame_escapes_the_sheet() {
    let m = ToClientMessage::CharacterUpdated {
        data: r#"{"name":"Aria","note":"a\b"}"#.to_string(),
        player_id: 1021,
    };
    assert_eq!(
        encode_to_client(&m),
        r#"{"CharacterUpdated":{"data":"{\"name\":\"Aria\",\"note\":\"a\\b\"}","player_id":1021}}"#
    );
}

#[test]
fn character_frame_reads_back_as_json() {
    let m = ToClientMessage::CharacterUpdated { data: "line\nbreak \u{e9}".to_string(), player_id: 7 };
    let value: serde_json::Value = serde_json::from_str(&encode_to_client(&m)).unwrap();
    assert_eq!(value["CharacterUpdated"]["data"], "line\nbreak \u{e9}");
    assert_eq!(value["CharacterUpdated"]["player_id"], 7);
}

#[test]
fn character_frame_escapes_control_characters() {
    let m = ToClientMessage::CharacterUpdated { data: "\u{1}\u{8}\u{c}\r\t\u{1f}/é".to_string(), player_id: 2 };
    assert_eq!(
        encode_to_client(&m),
        "{\"CharacterUpdated\":{\"data\":\"\\u0001\\b\\f\\r\\t\\u001f/é\",\"player_id\":2}}"
    );
}
