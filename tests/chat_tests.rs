use chat_core::chat::{
    decode_chat_payload, generate_avatar_for_user, is_gif, Chat, ChatMessage, Msg, Reaction,
    UserProfile,
};
use chat_core::envelope::{
    build_chat_message, build_register, decode, encode, kind_from_tag, ChatError, Envelope,
    MsgTypes,
};

fn users_frame(names: &[&str]) -> String {
    let list: Vec<String> = names.iter().map(|n| n.to_string()).collect();
    encode(&Envelope { message_type: MsgTypes::Users, data_array: Some(list), data: None })
}

fn message_frame(from: &str, message: &str) -> String {
    let payload = format!("{{\"from\":\"{}\",\"message\":\"{}\"}}", from, message);
    encode(&Envelope { message_type: MsgTypes::Message, data_array: None, data: Some(payload) })
}

fn roster_names(chat: &Chat) -> Vec<String> {
    chat.users.iter().map(|u| u.name.clone()).collect()
}

#[test]
fn avatar_url_has_exact_form() {
    assert_eq!(generate_avatar_for_user("alice"), "https://robohash.org/alice.png?set=set4");
    assert_eq!(generate_avatar_for_user(""), "https://robohash.org/.png?set=set4");
}

#[test]
fn avatar_is_deterministic_and_distinguishes_names() {
    assert_eq!(generate_avatar_for_user("bob"), generate_avatar_for_user("bob"));
    assert_ne!(generate_avatar_for_user("bob"), generate_avatar_for_user("alice"));
}

#[test]
fn users_envelope_gives_roster_in_wire_order() {
    let (mut chat, _) = Chat::create("me");
    let r = chat.update(Msg::HandleMsg(users_frame(&["carol", "alice", "bob"])));
    assert!(matches!(r, Ok(Reaction::Redraw)));
    assert_eq!(roster_names(&chat), vec!["carol", "alice", "bob"]);
    for u in &chat.users {
        assert!(!u.avatar.is_empty());
        assert_eq!(u.avatar, generate_avatar_for_user(&u.name));
    }
}

#[test]
fn users_envelope_keeps_duplicate_names() {
    let (mut chat, _) = Chat::create("me");
    chat.update(Msg::HandleMsg(users_frame(&["ann", "ann"]))).unwrap();
    assert_eq!(roster_names(&chat), vec!["ann", "ann"]);
}

#[test]
fn users_envelope_without_list_empties_roster() {
    let (mut chat, _) = Chat::create("me");
    chat.update(Msg::HandleMsg(users_frame(&["ann"]))).unwrap();
    let r = chat.update(Msg::HandleMsg("{\"messageType\":\"users\",\"data\":null}".to_string()));
    assert!(matches!(r, Ok(Reaction::Redraw)));
    assert!(chat.users.is_empty());
}

#[test]
fn replaying_users_envelope_leaves_roster_unchanged() {
    let (mut chat, _) = Chat::create("me");
    let frame = users_frame(&["alice", "bob"]);
    chat.update(Msg::HandleMsg(frame.clone())).unwrap();
    let once = roster_names(&chat);
    chat.update(Msg::HandleMsg(frame)).unwrap();
    assert_eq!(roster_names(&chat), once);
    assert_eq!(chat.users.len(), 2);
}

#[test]
fn round_trip_of_each_kind() {
    let cases = vec![
        Envelope { message_type: MsgTypes::Users, data_array: Some(vec!["a".to_string(), "b \"q\"".to_string()]), data: None },
        Envelope { message_type: MsgTypes::Users, data_array: Some(vec![]), data: None },
        Envelope { message_type: MsgTypes::Register, data_array: None, data: Some("alice".to_string()) },
        Envelope { message_type: MsgTypes::Message, data_array: None, data: Some("{\"x\":1}\n".to_string()) },
        Envelope { message_type: MsgTypes::Message, data_array: Some(vec!["z".to_string()]), data: Some("both".to_string()) },
        Envelope { message_type: MsgTypes::Register, data_array: None, data: None },
    ];
    for e in cases {
        let d = decode(&encode(&e)).unwrap();
        assert_eq!(d.message_type, e.message_type);
        assert_eq!(d.data_array, e.data_array);
        assert_eq!(d.data, e.data);
    }
}

#[test]
fn encode_writes_lowercase_tags_and_nulls() {
    let text = encode(&build_register("alice"));
    let v: serde_json::Value = serde_json::from_str(&text).unwrap();
    assert_eq!(v["messageType"], "register");
    assert_eq!(v["data"], "alice");
    assert!(v["dataArray"].is_null());
    let text = encode(&build_chat_message("hi"));
    let v: serde_json::Value = serde_json::from_str(&text).unwrap();
    assert_eq!(v["messageType"], "message");
    assert_eq!(v["data"], "hi");
}

#[test]
fn decode_accepts_tags_in_any_ascii_case() {
    let e = decode("{\"messageType\":\"USERS\",\"dataArray\":[\"a\"]}").unwrap();
    assert_eq!(e.message_type, MsgTypes::Users);
    assert_eq!(e.data_array, Some(vec!["a".to_string()]));
    assert_eq!(e.data, None);
    assert_eq!(kind_from_tag("Message"), Some(MsgTypes::Message));
    assert_eq!(kind_from_tag("rEgIsTeR"), Some(MsgTypes::Register));
    assert_eq!(kind_from_tag("user"), None);
}

#[test]
fn decode_malformed_frame_fails() {
    assert_eq!(decode("{not json").unwrap_err(), ChatError::MalformedEnvelope);
    assert_eq!(decode("[]").unwrap_err(), ChatError::MalformedEnvelope);
    assert_eq!(decode("{\"data\":\"x\"}").unwrap_err(), ChatError::MalformedEnvelope);
    assert_eq!(decode("{\"messageType\":5}").unwrap_err(), ChatError::MalformedEnvelope);
    assert_eq!(decode("{\"messageType\":\"users\",\"dataArray\":[1]}").unwrap_err(), ChatError::MalformedEnvelope);
    assert_eq!(decode("{\"messageType\":\"message\",\"data\":[]}").unwrap_err(), ChatError::MalformedEnvelope);
}

#[test]
fn decode_unknown_kind_fails() {
    assert_eq!(decode("{\"messageType\":\"typing\",\"data\":null}").unwrap_err(), ChatError::UnknownMessageKind);
}

#[test]
fn malformed_frame_does_not_corrupt_state() {
    let (mut chat, _) = Chat::create("me");
    let r = chat.update(Msg::HandleMsg("{not json".to_string()));
    assert!(matches!(r, Err(ChatError::MalformedEnvelope)));
    assert!(chat.users.is_empty() && chat.messages.is_empty());
    let r = chat.update(Msg::HandleMsg(users_frame(&["alice"])));
    assert!(matches!(r, Ok(Reaction::Redraw)));
    assert_eq!(roster_names(&chat), vec!["alice"]);
}

#[test]
fn malformed_payload_is_dropped() {
    let (mut chat, _) = Chat::create("me");
    chat.update(Msg::HandleMsg(users_frame(&["alice"]))).unwrap();
    let bad = encode(&Envelope { message_type: MsgTypes::Message, data_array: None, data: Some("hello".to_string()) });
    assert!(matches!(chat.update(Msg::HandleMsg(bad)), Err(ChatError::MalformedMessagePayload)));
    let none = encode(&Envelope { message_type: MsgTypes::Message, data_array: None, data: None });
    assert!(matches!(chat.update(Msg::HandleMsg(none)), Err(ChatError::MalformedMessagePayload)));
    assert!(chat.messages.is_empty());
    assert_eq!(roster_names(&chat), vec!["alice"]);
}

#[test]
fn chat_payload_decoding() {
    let m = decode_chat_payload("{\"from\":\"alice\",\"message\":\"hi\",\"extra\":1}").unwrap();
    assert_eq!(m.from, "alice");
    assert_eq!(m.message, "hi");
    assert_eq!(decode_chat_payload("{\"from\":\"alice\"}").unwrap_err(), ChatError::MalformedMessagePayload);
    assert_eq!(decode_chat_payload("{\"from\":null,\"message\":\"x\"}").unwrap_err(), ChatError::MalformedMessagePayload);
}

#[test]
fn register_envelope_changes_nothing() {
    let (mut chat, _) = Chat::create("me");
    let r = chat.update(Msg::HandleMsg(encode(&build_register("bob"))));
    assert!(matches!(r, Ok(Reaction::Unchanged)));
    assert!(chat.users.is_empty() && chat.messages.is_empty());
}

#[test]
fn messages_are_appended_in_order() {
    let (mut chat, _) = Chat::create("me");
    let frames = vec![
        message_frame("alice", "one"),
        encode(&Envelope { message_type: MsgTypes::Message, data_array: None, data: Some("oops".to_string()) }),
        message_frame("bob", "two"),
        message_frame("alice", "three"),
    ];
    let mut ok = 0;
    for f in frames {
        if chat.update(Msg::HandleMsg(f)).is_ok() {
            ok += 1;
        }
    }
    assert_eq!(chat.messages.len(), ok);
    let bodies: Vec<&str> = chat.messages.iter().map(|m| m.message.as_str()).collect();
    assert_eq!(bodies, vec!["one", "two", "three"]);
}

#[test]
fn unknown_sender_gets_placeholder() {
    let (mut chat, _) = Chat::create("me");
    chat.update(Msg::HandleMsg(message_frame("alice", "hi"))).unwrap();
    let view = chat.view();
    assert_eq!(view.messages.len(), 1);
    let m = &view.messages[0];
    assert_eq!(m.sender, "alice");
    assert_eq!(m.body, "hi");
    assert_eq!(m.profile.as_ref().unwrap_err(), &ChatError::UnresolvedSender);
    assert_eq!(m.avatar(), "/assets/avatar-placeholder.png");
}

#[test]
fn known_sender_resolves_to_roster_entry() {
    let (mut chat, _) = Chat::create("me");
    chat.update(Msg::HandleMsg(users_frame(&["alice", "bob"]))).unwrap();
    chat.update(Msg::HandleMsg(message_frame("bob", "yo"))).unwrap();
    chat.update(Msg::HandleMsg(message_frame("eve", "hey"))).unwrap();
    let view = chat.view();
    assert_eq!(view.users.len(), 2);
    assert_eq!(view.users[1].name, "bob");
    let p = view.messages[0].profile.as_ref().unwrap();
    assert_eq!(p.name, "bob");
    assert_eq!(view.messages[0].avatar(), "https://robohash.org/bob.png?set=set4");
    assert!(view.messages[1].profile.is_err());
}

#[test]
fn resolve_sender_takes_first_match() {
    let chat = Chat {
        users: vec![
            UserProfile { name: "ann".to_string(), avatar: "a1".to_string() },
            UserProfile { name: "ann".to_string(), avatar: "a2".to_string() },
        ],
        messages: vec![ChatMessage { from: "ann".to_string(), message: "x".to_string() }],
    };
    assert_eq!(chat.resolve_sender(&"ann".to_string()).unwrap().avatar, "a1");
    assert_eq!(chat.resolve_sender(&"bo".to_string()).unwrap_err(), ChatError::UnresolvedSender);
}

#[test]
fn gif_detection_is_exact_suffix() {
    assert!(is_gif("https://x.test/a.gif"));
    assert!(!is_gif("https://x.test/a.gif.txt"));
    assert!(!is_gif("https://x.test/a.GIF"));
    assert!(is_gif(".gif"));
    assert!(!is_gif("gif"));
    assert!(!is_gif(""));
    let (mut chat, _) = Chat::create("me");
    chat.update(Msg::HandleMsg(message_frame("a", "https://x.test/a.gif"))).unwrap();
    chat.update(Msg::HandleMsg(message_frame("a", "https://x.test/a.gif.txt"))).unwrap();
    let view = chat.view();
    assert!(view.messages[0].is_gif);
    assert!(!view.messages[1].is_gif);
}

#[test]
fn end_to_end_session() {
    let (mut chat, register) = Chat::create("me");
    let e = decode(&register).unwrap();
    assert_eq!(e.message_type, MsgTypes::Register);
    assert_eq!(e.data, Some("me".to_string()));
    let r = chat.update(Msg::HandleMsg(users_frame(&["alice", "bob"])));
    assert!(matches!(r, Ok(Reaction::Redraw)));
    assert_eq!(roster_names(&chat), vec!["alice", "bob"]);
    let r = chat.update(Msg::HandleMsg(message_frame("alice", "hello")));
    assert!(matches!(r, Ok(Reaction::Redraw)));
    assert_eq!(chat.messages.len(), 1);
    assert_eq!(chat.messages[0].from, "alice");
    assert_eq!(chat.messages[0].message, "hello");
}

#[test]
fn submit_builds_outbound_chat_frame() {
    let (mut chat, _) = Chat::create("me");
    let r = chat.update(Msg::SubmitMessage("hi there".to_string()));
    let frame = match r {
        Ok(Reaction::Send(f)) => f,
        other => panic!("unexpected {:?}", other),
    };
    let e = decode(&frame).unwrap();
    assert_eq!(e.message_type, MsgTypes::Message);
    assert_eq!(e.data, Some("hi there".to_string()));
    assert_eq!(e.data_array, None);
    assert!(chat.messages.is_empty());
}
