use bancho_irc::channel::{Channel, ChannelType};
use bancho_irc::error::BanchoIrcError;
use bancho_irc::message::{InboundCommand, InboundMessage};
use bancho_irc::private_message::PrivateMessage;

fn chat(sender: &str, target: &str, text: &str) -> InboundMessage {
    InboundMessage {
        sender: Some(sender.to_string()),
        command: InboundCommand::PrivMsg { target: target.to_string(), text: text.to_string() },
    }
}

#[test]
fn public_matcher_takes_exact_target_only() {
    let ident = ChannelType::Public("#osu".to_string());
    let ev = ident.handle_msg(&chat("peppy", "#osu", "hello")).expect("must match");
    assert_eq!(ev.sender, "peppy");
    assert_eq!(ev.text, "hello");
    assert!(ident.handle_msg(&chat("peppy", "#osu2", "hello")).is_none());
    assert!(ident.handle_msg(&chat("peppy", "#OSU", "hello")).is_none());
    let anonymous = InboundMessage {
        sender: None,
        command: InboundCommand::PrivMsg { target: "#osu".to_string(), text: "x".to_string() },
    };
    assert!(ident.handle_msg(&anonymous).is_none());
}

#[test]
fn private_matcher_takes_peer_sender_only() {
    let ident = ChannelType::Private("Tillerino".to_string());
    let ev = ident.handle_msg(&chat("Tillerino", "someone", "!help")).expect("must match");
    assert_eq!(ev.sender, "Tillerino");
    assert_eq!(ev.text, "!help");
    assert!(ident.handle_msg(&chat("somebody", "someone", "!help")).is_none());
}

#[test]
fn non_chat_commands_never_match() {
    let pub_ident = ChannelType::Public("#osu".to_string());
    let prv_ident = ChannelType::Private("peppy".to_string());
    let join = InboundMessage {
        sender: Some("peppy".to_string()),
        command: InboundCommand::JoinAck { channel: "#osu".to_string() },
    };
    assert!(pub_ident.handle_msg(&join).is_none());
    assert!(prv_ident.handle_msg(&join).is_none());
}

#[test]
fn display_name_forms() {
    assert_eq!(ChannelType::Public("#osu".to_string()).display_name(), "[#osu]");
    assert_eq!(ChannelType::Private("peppy".to_string()).display_name(), "[PM] peppy");
    assert_eq!(ChannelType::Public("#osu".to_string()).target(), "#osu");
}

#[test]
fn subscribers_each_see_every_event() {
    let mut ch = Channel::new(ChannelType::Public("#lobby".to_string()));
    let mut c1 = ch.receiver();
    let mut c2 = ch.receiver();
    let mut c3 = ch.receiver();
    ch.task_inbound(&chat("bot", "#lobby", "hi"));
    for c in [&mut c1, &mut c2, &mut c3] {
        let ev = ch.recv(c).unwrap().expect("event due");
        assert_eq!(ev.sender, "bot");
        assert_eq!(ev.text, "hi");
        assert!(ch.recv(c).unwrap().is_none());
    }
}

#[test]
fn subscription_starts_now_no_replay() {
    let mut ch = Channel::new(ChannelType::Public("#lobby".to_string()));
    ch.task_inbound(&chat("bot", "#lobby", "old"));
    let mut c = ch.receiver();
    assert!(ch.recv(&mut c).unwrap().is_none());
    ch.task_inbound(&chat("bot", "#lobby", "new"));
    assert_eq!(ch.recv(&mut c).unwrap().unwrap().text, "new");
}

#[test]
fn slow_subscriber_sees_lag_then_oldest_retained() {
    let mut ch = Channel::new(ChannelType::Public("#busy".to_string()));
    let mut c = ch.receiver();
    for i in 0..130 {
        ch.task_inbound(&chat("bot", "#busy", &format!("m{i}")));
    }
    match ch.recv(&mut c) {
        Err(BanchoIrcError::StreamLag { missed }) => assert_eq!(missed, 2),
        other => panic!("expected lag, got {other:?}"),
    }
    assert_eq!(ch.recv(&mut c).unwrap().unwrap().text, "m2");
}

#[test]
fn send_queues_chat_for_own_identity() {
    let mut ch = Channel::new(ChannelType::Public("#lobby".to_string()));
    ch.send_message("hello".to_string()).unwrap();
    assert_eq!(ch.name(), "[#lobby]");
    assert_eq!(ch.target(), "#lobby");
}

#[test]
fn released_channel_refuses_sends_and_closes_stream() {
    let mut ch = Channel::new(ChannelType::Public("#lobby".to_string()));
    let mut c = ch.receiver();
    ch.release();
    assert!(matches!(ch.send_message("x".to_string()), Err(BanchoIrcError::SendMsgError)));
    ch.task_inbound(&chat("bot", "#lobby", "late"));
    assert!(matches!(ch.recv(&mut c), Err(BanchoIrcError::RecvMsgError)));
}

#[test]
fn private_message_round_trip() {
    let mut pm = PrivateMessage::new("Tillerino");
    assert_eq!(pm.name(), "[PM] Tillerino");
    assert_eq!(pm.target(), "Tillerino");
    let mut c = pm.receiver();
    pm.send_message("!help".to_string()).unwrap();
    pm.task_inbound(&chat("Tillerino", "me", "here to help"));
    let ev = pm.recv(&mut c).unwrap().expect("reply due");
    assert_eq!(ev.sender, "Tillerino");
    assert_eq!(ev.text, "here to help");
}

#[test]
fn error_messages_are_nonempty() {
    let errs = [
        BanchoIrcError::SendMsgError,
        BanchoIrcError::RecvMsgError,
        BanchoIrcError::StreamLag { missed: 3 },
        BanchoIrcError::IrcLoginFailure { detail: "bad password".to_string() },
        BanchoIrcError::ChannelDoesNotExists { detail: "#nope".to_string() },
        BanchoIrcError::ProtocolError { code: 465, detail: "banned".to_string() },
    ];
    for e in errs {
        assert!(!e.message().is_empty());
    }
}
