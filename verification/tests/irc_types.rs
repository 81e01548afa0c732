use rootmos_bot::irc::{ChatEffect, ChatEvent};

#[test]
fn chat_events_compare_by_contents() {
    let a = ChatEvent::ChannelMsg {
        channel: "#chan".to_owned(),
        from: "user1".to_owned(),
        msg: "hello".to_owned(),
    };
    let b = ChatEvent::ChannelMsg {
        channel: "#chan".to_owned(),
        from: "user1".to_owned(),
        msg: "hello".to_owned(),
    };
    assert_eq!(a, b);
    let c = ChatEvent::PrivateMsg { from: "user1".to_owned(), msg: "hello".to_owned() };
    assert_ne!(a, c);
}

#[test]
fn chat_effects_compare_by_contents() {
    let a = ChatEffect::ChannelMsg {
        channel: "#chan".to_owned(),
        msg: vec!["one".to_owned(), "two".to_owned()],
    };
    let b = ChatEffect::PrivateMsg { to: "user2".to_owned(), msg: vec!["one".to_owned()] };
    assert_ne!(
        a,
        ChatEffect::ChannelMsg { channel: "#chan".to_owned(), msg: vec!["one".to_owned()] }
    );
    assert_eq!(
        b,
        ChatEffect::PrivateMsg { to: "user2".to_owned(), msg: vec!["one".to_owned()] }
    );
}

#[test]
fn parted_channel_carries_optional_comment() {
    let e = ChatEvent::PartedChannel {
        channel: "#chan".to_owned(),
        who: "user3".to_owned(),
        comment: Some("bye".to_owned()),
    };
    match e {
        ChatEvent::PartedChannel { comment, .. } => assert_eq!(comment, Some("bye".to_owned())),
        _ => panic!(),
    }
}
