use chat_client::codec::{decode, decode_payload, encode, encode_payload};
use chat_client::wire::{ChatMessage, DecodeError, Frame, MsgTypes, WebSocketMessage};

fn register(name: &str) -> Frame {
    Frame::Register { data: name.to_string() }
}

fn users(names: &[&str]) -> Frame {
    Frame::Users { data_array: names.iter().map(|n| n.to_string()).collect() }
}

fn message(data: &str) -> Frame {
    Frame::Message { data: data.to_string() }
}

#[test]
fn encode_register_writes_tag_then_data() {
    assert_eq!(encode(&register("alice")), r#"{"messageType":"register","data":"alice"}"#);
}

#[test]
fn encode_users_writes_tag_then_data_array() {
    assert_eq!(
        encode(&users(&["alice", "bob"])),
        r#"{"messageType":"users","dataArray":["alice","bob"]}"#
    );
}

#[test]
fn encode_users_with_empty_roster() {
    assert_eq!(encode(&users(&[])), r#"{"messageType":"users","dataArray":[]}"#);
}

#[test]
fn encode_message_escapes_the_inner_text() {
    let inner = encode_payload(&ChatMessage { from: "bob".to_string(), body: "hi".to_string() });
    assert_eq!(inner, r#"{"from":"bob","message":"hi"}"#);
    assert_eq!(
        encode(&message(&inner)),
        r#"{"messageType":"message","data":"{\"from\":\"bob\",\"message\":\"hi\"}"}"#
    );
}

#[test]
fn round_trip_register() {
    let frame = register("alice");
    assert_eq!(decode(&encode(&frame)), Ok(frame));
}

#[test]
fn round_trip_users() {
    let frame = users(&["alice", "bob", "carol"]);
    assert_eq!(decode(&encode(&frame)), Ok(frame));
}

#[test]
fn round_trip_users_empty() {
    let frame = users(&[]);
    assert_eq!(decode(&encode(&frame)), Ok(frame));
}

#[test]
fn round_trip_message() {
    let frame = message(r#"{"from":"bob","message":"hi"}"#);
    assert_eq!(decode(&encode(&frame)), Ok(frame));
}

#[test]
fn round_trip_keeps_quotes_controls_and_unicode() {
    let odd = "a\"b\\c\n\t\r\u{0}\u{1f}\u{7f} é ü 漢字 \u{1F600} </script> \u{2028}";
    for frame in [register(odd), message(odd), users(&[odd, "", odd])] {
        assert_eq!(decode(&encode(&frame)), Ok(frame));
    }
}

#[test]
fn round_trip_empty_strings() {
    for frame in [register(""), message(""), users(&[""])] {
        assert_eq!(decode(&encode(&frame)), Ok(frame));
    }
}

#[test]
fn round_trip_payload() {
    let m = ChatMessage { from: "b\"ob".to_string(), body: "line\nbreak \u{1F600}".to_string() };
    assert_eq!(decode_payload(&encode_payload(&m)), Ok(m));
}

#[test]
fn message_frame_carries_payload_through_both_layers() {
    let m = ChatMessage { from: "bob".to_string(), body: "hi".to_string() };
    let text = encode(&Frame::Message { data: encode_payload(&m) });
    match decode(&text) {
        Ok(Frame::Message { data }) => assert_eq!(decode_payload(&data), Ok(m)),
        other => panic!("not a message frame: {:?}", other),
    }
}

#[test]
fn decode_reads_null_as_absent() {
    assert_eq!(
        decode(r#"{"messageType":"register","dataArray":null,"data":"alice"}"#),
        Ok(register("alice"))
    );
    assert_eq!(
        decode(r#"{"messageType":"users","dataArray":["a"],"data":null}"#),
        Ok(users(&["a"]))
    );
}

#[test]
fn decode_takes_members_in_any_order_and_with_white_space() {
    assert_eq!(
        decode(" {\n  \"data\" : \"alice\" ,\n  \"messageType\" : \"register\"\n} "),
        Ok(register("alice"))
    );
}

#[test]
fn decode_passes_over_unknown_members() {
    assert_eq!(
        decode(r#"{"extra":{"deep":[1,2,{"x":null}]},"messageType":"message","data":"d","n":1.5}"#),
        Ok(message("d"))
    );
}

#[test]
fn decode_reads_escapes() {
    assert_eq!(
        decode(r#"{"messageType":"register","data":"A\n\"😀"}"#),
        Ok(register("A\n\"\u{1F600}"))
    );
}

#[test]
fn decode_takes_the_last_of_a_repeated_member() {
    assert_eq!(
        decode(r#"{"messageType":"users","messageType":"register","data":"x"}"#),
        Ok(register("x"))
    );
}

#[test]
fn decode_message_without_data_is_malformed() {
    assert_eq!(decode(r#"{"messageType":"message"}"#), Err(DecodeError::Malformed));
    assert_eq!(decode(r#"{"messageType":"message","data":null}"#), Err(DecodeError::Malformed));
}

#[test]
fn decode_register_without_data_is_malformed() {
    assert_eq!(decode(r#"{"messageType":"register"}"#), Err(DecodeError::Malformed));
    assert_eq!(
        decode(r#"{"messageType":"register","dataArray":["alice"]}"#),
        Err(DecodeError::Malformed)
    );
}

#[test]
fn decode_users_without_data_array_is_malformed() {
    assert_eq!(decode(r#"{"messageType":"users"}"#), Err(DecodeError::Malformed));
    assert_eq!(decode(r#"{"messageType":"users","data":"alice"}"#), Err(DecodeError::Malformed));
}

#[test]
fn decode_frame_with_both_fields_is_malformed() {
    for tag in ["users", "register", "message"] {
        let text = format!(r#"{{"messageType":"{}","dataArray":["a"],"data":"b"}}"#, tag);
        assert_eq!(decode(&text), Err(DecodeError::Malformed));
    }
}

#[test]
fn decode_unknown_tag_is_malformed() {
    assert_eq!(decode(r#"{"messageType":"ping","data":"x"}"#), Err(DecodeError::Malformed));
    assert_eq!(decode(r#"{"messageType":"Users","dataArray":[]}"#), Err(DecodeError::Malformed));
    assert_eq!(decode(r#"{"messageType":"","data":"x"}"#), Err(DecodeError::Malformed));
    assert_eq!(decode(r#"{"messageType":"users ","dataArray":[]}"#), Err(DecodeError::Malformed));
}

#[test]
fn decode_missing_or_mistyped_tag_is_malformed() {
    assert_eq!(decode(r#"{"data":"x"}"#), Err(DecodeError::Malformed));
    assert_eq!(decode(r#"{"messageType":null,"data":"x"}"#), Err(DecodeError::Malformed));
    assert_eq!(decode(r#"{"messageType":1,"data":"x"}"#), Err(DecodeError::Malformed));
    assert_eq!(decode(r#"{"messageType":["users"],"dataArray":[]}"#), Err(DecodeError::Malformed));
    assert_eq!(decode(r#"{"message_type":"register","data":"x"}"#), Err(DecodeError::Malformed));
}

#[test]
fn decode_mistyped_fields_are_malformed() {
    assert_eq!(decode(r#"{"messageType":"register","data":5}"#), Err(DecodeError::Malformed));
    assert_eq!(decode(r#"{"messageType":"register","data":["x"]}"#), Err(DecodeError::Malformed));
    assert_eq!(decode(r#"{"messageType":"users","dataArray":"a"}"#), Err(DecodeError::Malformed));
    assert_eq!(
        decode(r#"{"messageType":"users","dataArray":["a",1]}"#),
        Err(DecodeError::Malformed)
    );
    assert_eq!(
        decode(r#"{"messageType":"users","dataArray":["a",null]}"#),
        Err(DecodeError::Malformed)
    );
    assert_eq!(
        decode(r#"{"messageType":"users","dataArray":[["a"]]}"#),
        Err(DecodeError::Malformed)
    );
    assert_eq!(
        decode(r#"{"messageType":"register","data":"x","dataArray":7}"#),
        Err(DecodeError::Malformed)
    );
    assert_eq!(
        decode(r#"{"messageType":"users","dataArray":[],"data":false}"#),
        Err(DecodeError::Malformed)
    );
}

#[test]
fn decode_what_is_no_object_is_malformed() {
    for text in ["", " ", "null", "true", "12", "\"register\"", "[]", "[\"register\",null,\"x\"]"] {
        assert_eq!(decode(text), Err(DecodeError::Malformed), "{:?}", text);
    }
}

#[test]
fn decode_broken_json_is_malformed() {
    for text in [
        "{",
        "}",
        r#"{"messageType":"register","data":"x""#,
        r#"{"messageType":"register","data":"x"} trailing"#,
        r#"{"messageType":"register","data":"x",}"#,
        r#"{'messageType':'register','data':'x'}"#,
        r#"{"messageType":"register","data":"\x"}"#,
        "not json",
    ] {
        assert_eq!(decode(text), Err(DecodeError::Malformed), "{:?}", text);
    }
}

#[test]
fn decode_payload_reads_from_and_message() {
    assert_eq!(
        decode_payload(r#"{"message":"hi","from":"bob","seen":true}"#),
        Ok(ChatMessage { from: "bob".to_string(), body: "hi".to_string() })
    );
}

#[test]
fn decode_payload_rejects_what_is_not_a_chat_message() {
    for text in [
        "",
        "hello",
        "\"hello\"",
        "[]",
        "{}",
        r#"{"from":"bob"}"#,
        r#"{"message":"hi"}"#,
        r#"{"from":"bob","message":null}"#,
        r#"{"from":null,"message":"hi"}"#,
        r#"{"from":"bob","message":1}"#,
        r#"{"from":["bob"],"message":"hi"}"#,
        r#"{"from":"bob","body":"hi"}"#,
        r#"{"from":"bob","message":"hi""#,
    ] {
        assert_eq!(decode_payload(text), Err(DecodeError::InvalidPayload), "{:?}", text);
    }
}

#[test]
fn frame_to_wire_sets_the_one_field_of_the_tag() {
    assert_eq!(
        register("alice").to_wire(),
        WebSocketMessage {
            message_type: MsgTypes::Register,
            data_array: None,
            data: Some("alice".to_string()),
        }
    );
    assert_eq!(
        users(&["a", "b"]).to_wire(),
        WebSocketMessage {
            message_type: MsgTypes::Users,
            data_array: Some(vec!["a".to_string(), "b".to_string()]),
            data: None,
        }
    );
    assert_eq!(
        message("m").to_wire(),
        WebSocketMessage {
            message_type: MsgTypes::Message,
            data_array: None,
            data: Some("m".to_string()),
        }
    );
}

#[test]
fn frame_from_wire_accepts_exactly_the_well_formed_records() {
    let list = Some(vec!["a".to_string()]);
    let text = Some("t".to_string());
    for tag in [MsgTypes::Users, MsgTypes::Register, MsgTypes::Message] {
        for data_array in [None, list.clone()] {
            for data in [None, text.clone()] {
                let record = WebSocketMessage {
                    message_type: tag,
                    data_array: data_array.clone(),
                    data: data.clone(),
                };
                let expected = match (tag, data_array.clone(), data.clone()) {
                    (MsgTypes::Users, Some(names), None) => {
                        Some(Frame::Users { data_array: names })
                    }
                    (MsgTypes::Register, None, Some(t)) => Some(Frame::Register { data: t }),
                    (MsgTypes::Message, None, Some(t)) => Some(Frame::Message { data: t }),
                    _ => None,
                };
                assert_eq!(Frame::from_wire(record), expected);
            }
        }
    }
}

#[test]
fn frame_from_wire_undoes_to_wire() {
    for frame in [register("alice"), users(&["a", "b"]), users(&[]), message("m")] {
        assert_eq!(Frame::from_wire(frame.to_wire()), Some(frame));
    }
}

#[test]
fn tag_names_are_lower_case_words() {
    assert_eq!(MsgTypes::Users.name(), "users");
    assert_eq!(MsgTypes::Register.name(), "register");
    assert_eq!(MsgTypes::Message.name(), "message");
}

#[test]
fn tag_from_name_knows_the_three_words_only() {
    assert_eq!(MsgTypes::from_name("users"), Some(MsgTypes::Users));
    assert_eq!(MsgTypes::from_name("register"), Some(MsgTypes::Register));
    assert_eq!(MsgTypes::from_name("message"), Some(MsgTypes::Message));
    for word in ["", "Users", "USERS", "user", "messages", " register", "register\n"] {
        assert_eq!(MsgTypes::from_name(word), None, "{:?}", word);
    }
}

#[test]
fn record_from_json_reads_a_value() {
    let text = r#"{"dataArray":["a","b"],"messageType":"users","data":null}"#;
    let value: serde_json::Value = serde_json::from_str(text).unwrap();
    assert_eq!(
        WebSocketMessage::from_json(value),
        Some(WebSocketMessage {
            message_type: MsgTypes::Users,
            data_array: Some(vec!["a".to_string(), "b".to_string()]),
            data: None,
        })
    );
    assert_eq!(WebSocketMessage::from_json(serde_json::Value::Null), None);
    assert_eq!(WebSocketMessage::from_json(serde_json::Value::String("users".to_string())), None);
}

#[test]
fn record_from_json_keeps_a_record_that_is_no_frame() {
    let value: serde_json::Value = serde_json::from_str(r#"{"messageType":"message"}"#).unwrap();
    let record = WebSocketMessage::from_json(value).unwrap();
    assert_eq!(
        record,
        WebSocketMessage { message_type: MsgTypes::Message, data_array: None, data: None }
    );
    assert_eq!(Frame::from_wire(record), None);
}

#[test]
fn record_into_json_builds_the_object_in_field_order() {
    let record = WebSocketMessage {
        message_type: MsgTypes::Users,
        data_array: Some(vec!["a".to_string()]),
        data: Some("d".to_string()),
    };
    let value = record.into_json();
    let keys: Vec<String> = value.as_object().unwrap().keys().cloned().collect();
    assert_eq!(
        keys,
        vec!["messageType".to_string(), "dataArray".to_string(), "data".to_string()]
    );
    assert_eq!(value["messageType"], serde_json::Value::String("users".to_string()));
    assert_eq!(
        value["dataArray"],
        serde_json::Value::Array(vec![serde_json::Value::String("a".to_string())])
    );
    assert_eq!(value["data"], serde_json::Value::String("d".to_string()));
}

#[test]
fn record_into_json_leaves_out_what_is_absent() {
    let record = WebSocketMessage { message_type: MsgTypes::Register, data_array: None, data: None };
    assert_eq!(record.into_json().to_string(), r#"{"messageType":"register"}"#);
}

#[test]
fn payload_json_round_trip_on_values() {
    let m = ChatMessage { from: "bob".to_string(), body: "hi".to_string() };
    let value = m.to_json();
    assert_eq!(value.to_string(), r#"{"from":"bob","message":"hi"}"#);
    assert_eq!(ChatMessage::from_json(value), Some(m));
    assert_eq!(ChatMessage::from_json(serde_json::Value::Array(vec![])), None);
}

#[test]
fn encoded_text_is_what_serde_json_reads_as_the_same_object() {
    let text = encode(&users(&["a\"b", "c"]));
    let value: serde_json::Value = serde_json::from_str(&text).unwrap();
    let object = value.as_object().unwrap();
    assert_eq!(object.len(), 2);
    assert_eq!(object["messageType"].as_str(), Some("users"));
    let names: Vec<&str> =
        object["dataArray"].as_array().unwrap().iter().map(|v| v.as_str().unwrap()).collect();
    assert_eq!(names, vec!["a\"b", "c"]);
}
