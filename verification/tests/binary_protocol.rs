use diaryx_sync_extism::binary_protocol::{
    decode_actions, encode_actions, DecodedAction, SessionAction,
};

#[test]
fn roundtrip_empty() {
    let encoded = encode_actions(&[]);
    let decoded = decode_actions(&encoded).unwrap();
    assert!(decoded.is_empty());
}

#[test]
fn roundtrip_send_binary() {
    let actions = vec![SessionAction::SendBinary(vec![1, 2, 3, 4])];
    let encoded = encode_actions(&actions);
    let decoded = decode_actions(&encoded).unwrap();
    assert_eq!(decoded.len(), 1);
    match &decoded[0] {
        DecodedAction::SendBinary(data) => assert_eq!(data, &[1, 2, 3, 4]),
        other => panic!("Expected SendBinary, got {other:?}"),
    }
}

#[test]
fn roundtrip_mixed() {
    let actions = vec![
        SessionAction::SendBinary(vec![0xAB]),
        SessionAction::SendText("hello".into()),
        SessionAction::DownloadSnapshot {
            workspace_id: "ws-123".into(),
        },
    ];
    let encoded = encode_actions(&actions);
    let decoded = decode_actions(&encoded).unwrap();
    assert_eq!(decoded.len(), 3);
    assert!(matches!(&decoded[0], DecodedAction::SendBinary(d) if d == &[0xAB]));
    assert!(matches!(&decoded[1], DecodedAction::SendText(s) if s == "hello"));
    assert!(matches!(&decoded[2], DecodedAction::DownloadSnapshot(s) if s == "ws-123"));
}

#[test]
fn envelope_layout() {
    let actions = vec![
        SessionAction::SendText("hé".into()),
        SessionAction::SendBinary(vec![]),
    ];
    assert_eq!(
        encode_actions(&actions),
        vec![2, 0, 1, 3, 0, 0, 0, b'h', 0xC3, 0xA9, 0, 0, 0, 0, 0]
    );
}

#[test]
fn events_are_written_as_json() {
    let actions = vec![SessionAction::Emit(diaryx_sync::SyncEvent::Progress {
        completed: 1,
        total: 2,
    })];
    let encoded = encode_actions(&actions);
    let json = "{\"type\":\"progress\",\"completed\":1,\"total\":2}";
    assert_eq!(encoded[2], 2);
    assert_eq!(encoded[3] as usize, json.len());
    let decoded = decode_actions(&encoded).unwrap();
    match &decoded[0] {
        DecodedAction::EmitEvent(bytes) => assert_eq!(bytes, json.as_bytes()),
        other => panic!("Expected EmitEvent, got {other:?}"),
    }
}

#[test]
fn large_payloads_have_a_long_length() {
    let actions = vec![SessionAction::SendBinary(vec![7; 70_000])];
    let encoded = encode_actions(&actions);
    assert_eq!(&encoded[..7], &[1, 0, 0, 0x70, 0x11, 0x01, 0x00]);
    match &decode_actions(&encoded).unwrap()[0] {
        DecodedAction::SendBinary(data) => assert_eq!(data.len(), 70_000),
        other => panic!("Expected SendBinary, got {other:?}"),
    }
}

#[test]
fn too_many_actions_wrap_their_count() {
    let actions: Vec<SessionAction> = (0..65_536)
        .map(|_| SessionAction::SendBinary(vec![]))
        .collect();
    let encoded = encode_actions(&actions);
    assert_eq!(&encoded[..2], &[0, 0]);
    assert!(decode_actions(&encoded).unwrap().is_empty());
}

#[test]
fn trailing_bytes_are_ignored() {
    let mut encoded = encode_actions(&[SessionAction::SendText("x".into())]);
    encoded.extend_from_slice(&[9, 9, 9]);
    assert_eq!(decode_actions(&encoded).unwrap().len(), 1);
}

#[test]
fn decoding_errors() {
    let error = |data: &[u8]| decode_actions(data).unwrap_err();
    assert_eq!(error(&[]), "Buffer too short for action count");
    assert_eq!(error(&[1]), "Buffer too short for action count");
    assert_eq!(error(&[1, 0]), "Unexpected end of buffer");
    assert_eq!(
        error(&[1, 0, 0]),
        "Unexpected end of buffer reading payload length"
    );
    assert_eq!(
        error(&[1, 0, 0, 1, 0, 0]),
        "Unexpected end of buffer reading payload length"
    );
    assert_eq!(error(&[1, 0, 0, 1, 0, 0, 0]), "Payload exceeds buffer");
    assert_eq!(
        error(&[1, 0, 0, 255, 255, 255, 255]),
        "Payload exceeds buffer"
    );
    assert_eq!(error(&[1, 0, 9, 0, 0, 0, 0]), "Unknown action type: 9");
    assert_eq!(error(&[1, 0, 255, 0, 0, 0, 0]), "Unknown action type: 255");
    let invalid = String::from_utf8(vec![0xFF]).unwrap_err().to_string();
    assert_eq!(
        error(&[1, 0, 1, 1, 0, 0, 0, 0xFF]),
        format!("Invalid UTF-8 in SendText: {invalid}")
    );
    assert_eq!(
        error(&[1, 0, 3, 1, 0, 0, 0, 0xFF]),
        format!("Invalid UTF-8 in DownloadSnapshot: {invalid}")
    );
}

#[test]
fn cut_envelopes_are_errors() {
    let encoded = encode_actions(&[
        SessionAction::SendBinary(vec![1, 2]),
        SessionAction::SendText(String::new()),
        SessionAction::DownloadSnapshot {
            workspace_id: "w".to_string(),
        },
    ]);
    for n in 0..encoded.len() {
        assert!(decode_actions(&encoded[..n]).is_err(), "{n}");
    }
    assert!(decode_actions(&encoded).is_ok());
}

#[test]
fn lists_are_encoded_one_after_the_other() {
    let a = || SessionAction::SendText("a".to_string());
    let b = || SessionAction::SendBinary(vec![7]);
    let first = encode_actions(&[a()]);
    let second = encode_actions(&[b(), a()]);
    let all = encode_actions(&[a(), b(), a()]);
    assert_eq!(all[..2], [3, 0]);
    assert_eq!(all[2..], [&first[2..], &second[2..]].concat());
}
