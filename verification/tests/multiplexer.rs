use bancho_irc::client::{login_step, LoginStep, OsuIrcClient};
use bancho_irc::error::BanchoIrcError;
use bancho_irc::message::{Command, InboundCommand, InboundMessage};

fn chat(sender: &str, target: &str, text: &str) -> InboundMessage {
    InboundMessage {
        sender: Some(sender.to_string()),
        command: InboundCommand::PrivMsg { target: target.to_string(), text: text.to_string() },
    }
}

fn response(code: u16, detail: &str) -> InboundMessage {
    InboundMessage {
        sender: None,
        command: InboundCommand::Response { code: code, detail: detail.to_string() },
    }
}

fn join_ack(channel: &str) -> InboundMessage {
    InboundMessage {
        sender: None,
        command: InboundCommand::JoinAck { channel: channel.to_string() },
    }
}

fn welcome() -> InboundMessage {
    response(1, "Welcome to the server")
}

fn login(inbound: Vec<InboundMessage>) -> OsuIrcClient {
    OsuIrcClient::new("user".to_string(), "token".to_string(), inbound).expect("login must succeed")
}

#[test]
fn test_login() {
    let cli = OsuIrcClient::new("user".to_string(), "token".to_string(), vec![welcome()]);
    assert!(cli.is_ok());
}

#[test]
fn test_login_failed() {
    let res = OsuIrcClient::new(
        "abcd".to_string(),
        "1234".to_string(),
        vec![response(464, "Bad authentication token")],
    );
    assert!(res.is_err());
    match res {
        Err(BanchoIrcError::IrcLoginFailure { detail }) => {
            assert_eq!(detail, "Bad authentication token")
        },
        Err(other) => panic!("expected login failure, got {other:?}"),
        Ok(_) => panic!("expected login failure, got a session"),
    }
}

#[test]
fn handshake_skips_unrecognized_messages() {
    let cli = OsuIrcClient::new(
        "user".to_string(),
        "token".to_string(),
        vec![response(375, "- message of the day"), chat("peppy", "#osu", "early"), welcome()],
    );
    assert!(cli.is_ok());
}

#[test]
fn handshake_fatal_on_other_error_response() {
    let res = OsuIrcClient::new(
        "user".to_string(),
        "token".to_string(),
        vec![response(465, "You are banned")],
    );
    match res {
        Err(BanchoIrcError::ProtocolError { code, detail }) => {
            assert_eq!(code, 465);
            assert_eq!(detail, "You are banned");
        },
        Err(other) => panic!("expected protocol error, got {other:?}"),
        Ok(_) => panic!("expected protocol error, got a session"),
    }
}

#[test]
fn test_join_channel() {
    let mut cli = login(vec![welcome(), join_ack("#osu")]);
    let h = cli.join_channel("#osu".to_string()).expect("join must succeed");
    let mut rx = cli.subscribe(h);
    for i in 0..5 {
        cli.push_inbound(chat("peppy", "#osu", &format!("msg {i}")));
        assert!(cli.poll_inbound());
        let ev = cli.recv_from(h, &mut rx).unwrap().expect("event due");
        assert_eq!(ev.sender, "peppy");
        assert_eq!(ev.text, format!("msg {i}"));
    }
    assert_eq!(cli.name_of(h), "[#osu]");
}

#[test]
fn test_join_channel_failed() {
    let mut cli = login(vec![welcome(), response(403, "#chinrse No such channel")]);
    let res = cli.join_channel("#chinrse".to_string());
    assert!(res.is_err());
    match res {
        Err(BanchoIrcError::ChannelDoesNotExists { detail }) => {
            assert_eq!(detail, "#chinrse No such channel")
        },
        other => panic!("expected missing channel, got {other:?}"),
    }
    // no conversation task is left behind: a later chat for that name goes nowhere
    let outbound = cli.take_outbound();
    assert!(matches!(&outbound[..], [Command::Join { channel }] if channel == "#chinrse"));
}

#[test]
fn test_channel_chat() {
    let mut cli = login(vec![welcome()]);
    let h = cli.new_private_message("Tillerino".to_string()).unwrap();
    let mut rx = cli.subscribe(h);
    cli.send_message(h, "!help".to_string()).unwrap();
    cli.flush_outbound();
    let outbound = cli.take_outbound();
    assert!(
        matches!(&outbound[..], [Command::PrivMsg { target, text }] if target == "Tillerino" && text == "!help")
    );
    cli.push_inbound(chat("Tillerino", "user", "here to help"));
    assert!(cli.poll_inbound());
    let ev = cli.recv_from(h, &mut rx).unwrap().expect("reply due");
    assert_eq!(ev.text, "here to help");
}

#[test]
fn join_is_idempotent_and_sends_one_join() {
    let mut cli = login(vec![welcome(), join_ack("#osu")]);
    let h1 = cli.join_channel("#osu".to_string()).unwrap();
    let h2 = cli.join_channel("#osu".to_string()).unwrap();
    assert_eq!(h1, h2);
    let outbound = cli.take_outbound();
    let joins = outbound
        .iter()
        .filter(|c| matches!(c, Command::Join { channel } if channel == "#osu"))
        .count();
    assert_eq!(joins, 1);
}

#[test]
fn open_private_message_is_idempotent() {
    let mut cli = login(vec![welcome()]);
    let h1 = cli.new_private_message("peppy".to_string()).unwrap();
    let h2 = cli.new_private_message("peppy".to_string()).unwrap();
    assert_eq!(h1, h2);
}

#[test]
fn messages_are_isolated_between_conversations() {
    let mut cli = login(vec![welcome(), join_ack("#a"), join_ack("#b")]);
    let ha = cli.join_channel("#a".to_string()).unwrap();
    let hb = cli.join_channel("#b".to_string()).unwrap();
    let mut rxa = cli.subscribe(ha);
    let mut rxb = cli.subscribe(hb);
    cli.push_inbound(chat("peppy", "#a", "for a only"));
    assert!(cli.poll_inbound());
    let ev = cli.recv_from(ha, &mut rxa).unwrap().expect("a's event");
    assert_eq!(ev.text, "for a only");
    assert!(cli.recv_from(hb, &mut rxb).unwrap().is_none());
}

#[test]
fn send_reaches_shared_sink_exactly_once() {
    let mut cli = login(vec![welcome(), join_ack("#osu")]);
    let h = cli.join_channel("#osu".to_string()).unwrap();
    cli.take_outbound();
    cli.send_message(h, "x".to_string()).unwrap();
    cli.flush_outbound();
    cli.flush_outbound();
    let outbound = cli.take_outbound();
    let hits = outbound
        .iter()
        .filter(|c| matches!(c, Command::PrivMsg { target, text } if target == "#osu" && text == "x"))
        .count();
    assert_eq!(hits, 1);
    assert_eq!(outbound.len(), 1);
}

#[test]
fn releasing_last_handle_parts_once_and_stops_fanout() {
    let mut cli = login(vec![welcome(), join_ack("#osu")]);
    let h = cli.join_channel("#osu".to_string()).unwrap();
    let mut rx = cli.subscribe(h);
    cli.take_outbound();
    cli.release_handle(h);
    cli.flush_outbound();
    let outbound = cli.take_outbound();
    let parts = outbound
        .iter()
        .filter(|c| matches!(c, Command::Part { channel } if channel == "#osu"))
        .count();
    assert_eq!(parts, 1);
    cli.push_inbound(chat("peppy", "#osu", "too late"));
    assert!(cli.poll_inbound());
    assert!(matches!(cli.recv_from(h, &mut rx), Err(BanchoIrcError::RecvMsgError)));
    // a released identity can be joined afresh, spawning a new task
    cli.push_inbound(join_ack("#osu"));
    let h2 = cli.join_channel("#osu".to_string()).unwrap();
    assert_ne!(h, h2);
}

#[test]
fn two_handles_part_only_after_both_release() {
    let mut cli = login(vec![welcome(), join_ack("#osu")]);
    let h = cli.join_channel("#osu".to_string()).unwrap();
    let h2 = cli.join_channel("#osu".to_string()).unwrap();
    assert_eq!(h, h2);
    cli.take_outbound();
    cli.release_handle(h);
    cli.flush_outbound();
    assert!(cli.take_outbound().is_empty());
    cli.release_handle(h);
    cli.flush_outbound();
    let outbound = cli.take_outbound();
    assert!(matches!(&outbound[..], [Command::Part { channel }] if channel == "#osu"));
}

#[test]
fn join_wait_keeps_messages_flowing_to_existing_conversations() {
    let mut cli = login(vec![welcome(), join_ack("#a")]);
    let ha = cli.join_channel("#a".to_string()).unwrap();
    let mut rxa = cli.subscribe(ha);
    // while waiting for #b's echo, a chat for #a arrives and must not be lost
    cli.push_inbound(chat("peppy", "#a", "during join"));
    cli.push_inbound(join_ack("#b"));
    let hb = cli.join_channel("#b".to_string()).unwrap();
    assert_ne!(ha, hb);
    let ev = cli.recv_from(ha, &mut rxa).unwrap().expect("must still arrive");
    assert_eq!(ev.text, "during join");
}

#[test]
fn join_on_closed_inbound_reports_transport_gone() {
    let mut cli = login(vec![welcome()]);
    let res = cli.join_channel("#osu".to_string());
    assert!(matches!(res, Err(BanchoIrcError::RecvMsgError)));
}

#[test]
fn handshake_on_silent_stream_yields_deaf_session() {
    // an inbound stream that ends without any recognized response leaves a
    // session that will simply never hear anything
    let cli = OsuIrcClient::new("user".to_string(), "token".to_string(), vec![]);
    assert!(cli.is_ok());
}

#[test]
fn login_step_classifies_like_the_handshake() {
    assert!(matches!(login_step(&welcome()), LoginStep::Welcome));
    assert!(matches!(login_step(&response(372, "motd")), LoginStep::Pending));
    assert!(matches!(login_step(&chat("a", "#b", "c")), LoginStep::Pending));
    assert!(
        matches!(login_step(&response(464, "no")), LoginStep::Failure { detail } if detail == "no")
    );
    assert!(
        matches!(login_step(&response(465, "ban")), LoginStep::Fatal { code: 465, detail } if detail == "ban")
    );
}

#[test]
fn incremental_join_driver_round() {
    let mut cli = login(vec![welcome()]);
    assert!(cli.begin_join("#osu".to_string()).is_none());
    let outbound = cli.take_outbound();
    assert!(matches!(&outbound[..], [Command::Join { channel }] if channel == "#osu"));
    // the queue is still dry: the wait reports that and sends nothing
    assert!(matches!(
        cli.await_join("#osu".to_string()),
        Err(BanchoIrcError::RecvMsgError)
    ));
    assert!(cli.take_outbound().is_empty());
    cli.push_inbound(join_ack("#osu"));
    let h = cli.await_join("#osu".to_string()).expect("ack queued");
    assert_eq!(cli.conversation_count(), 1);
    assert_eq!(cli.name_of(h), "[#osu]");
}

#[test]
fn full_relay_send_drains_oldest_first() {
    let mut cli = login(vec![welcome(), join_ack("#osu")]);
    let h = cli.join_channel("#osu".to_string()).unwrap();
    cli.take_outbound();
    for i in 0..9 {
        cli.send_message(h, format!("m{i}")).unwrap();
    }
    // the ninth send found the relay full and forwarded the oldest queued
    // line onto the sink before queuing
    let outbound = cli.take_outbound();
    assert!(
        matches!(&outbound[..], [Command::PrivMsg { target, text }] if target == "#osu" && text == "m0")
    );
    cli.flush_outbound();
    let rest = cli.take_outbound();
    assert_eq!(rest.len(), 8);
    assert!(matches!(&rest[0], Command::PrivMsg { text, .. } if text == "m1"));
    assert!(matches!(&rest[7], Command::PrivMsg { text, .. } if text == "m8"));
}

#[test]
fn lobby_scenario_delivers_exactly_the_mirrored_tuple() {
    let mut cli = login(vec![welcome(), join_ack("#lobby")]);
    let h = cli.join_channel("#lobby".to_string()).expect("join #lobby");
    let mut rx = cli.subscribe(h);
    cli.send_message(h, "hello".to_string()).unwrap();
    cli.flush_outbound();
    let outbound = cli.take_outbound();
    assert!(outbound.iter().any(
        |c| matches!(c, Command::PrivMsg { target, text } if target == "#lobby" && text == "hello"),
    ));
    cli.push_inbound(chat("bot", "#lobby", "hi"));
    assert!(cli.poll_inbound());
    let ev = cli.recv_from(h, &mut rx).unwrap().expect("mirrored chat due");
    assert_eq!((ev.sender.as_str(), ev.text.as_str()), ("bot", "hi"));
    assert!(cli.recv_from(h, &mut rx).unwrap().is_none());
}
