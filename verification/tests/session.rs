use twitch_chat::badges::TwitchBadge;
use twitch_chat::clock::ClockTime;
use twitch_chat::connection::{HandshakePhase, Session};
use twitch_chat::duplex::{DuplexLoop, EndReason, Incoming, LoopAction, Typed};
use twitch_chat::reader::{present, read_frame};
use twitch_chat::parser::parse_twitch_message;
use twitch_chat::wire::{capability_request, chat_line, join_line, nick_line, pass_line};
use twitch_chat::writer::outbound_line;

fn session() -> Session {
    Session::new(
        "wss://irc-ws.chat.twitch.tv:443".to_string(),
        "oauth:abc".to_string(),
        "nick".to_string(),
        "bar".to_string(),
    )
}

fn joined() -> Session {
    let mut s = session();
    while !s.is_joined() {
        s.advance();
    }
    s
}

fn catalog() -> Vec<TwitchBadge> {
    vec![
        TwitchBadge { name: "moderator".to_string(), url: "m/{SIZE}".to_string() },
        TwitchBadge { name: "subscriber".to_string(), url: "s/{SIZE}".to_string() },
    ]
}

fn noon() -> ClockTime {
    ClockTime::new(12, 0).expect("valid")
}

fn lines(list: &[&str]) -> Vec<String> {
    list.iter().map(|s| s.to_string()).collect()
}

#[test]
fn wire_lines_have_fixed_formats() {
    assert_eq!(capability_request(), "CAP REQ :twitch.tv/tags twitch.tv/commands");
    assert_eq!(pass_line("oauth:abc"), "PASS oauth:abc");
    assert_eq!(nick_line("nick"), "NICK nick");
    assert_eq!(join_line("bar"), "JOIN #bar");
    assert_eq!(chat_line("bar", "hi there"), "PRIVMSG #bar :hi there");
    assert_eq!(pass_line(""), "PASS ");
}

#[test]
fn handshake_lines_come_in_fixed_order() {
    assert_eq!(
        session().handshake_lines(),
        lines(&[
            "CAP REQ :twitch.tv/tags twitch.tv/commands",
            "PASS oauth:abc",
            "NICK nick",
            "JOIN #bar",
        ])
    );
}

#[test]
fn handshake_steps_send_the_same_lines() {
    let mut s = session();
    assert_eq!(s.phase, HandshakePhase::Disconnected);
    let mut sent: Vec<String> = Vec::new();
    let mut phases = vec![s.phase];
    while !s.is_joined() {
        sent.extend(s.step_lines());
        s.advance();
        phases.push(s.phase);
    }
    assert_eq!(sent, session().handshake_lines());
    assert_eq!(
        phases,
        vec![
            HandshakePhase::Disconnected,
            HandshakePhase::TransportOpen,
            HandshakePhase::CapabilitiesRequested,
            HandshakePhase::Authenticated,
            HandshakePhase::ChannelJoined,
        ]
    );
}

#[test]
fn each_step_sends_its_lines() {
    let mut s = session();
    assert!(s.step_lines().is_empty());
    s.advance();
    assert_eq!(s.step_lines(), lines(&["CAP REQ :twitch.tv/tags twitch.tv/commands"]));
    s.advance();
    assert_eq!(s.step_lines(), lines(&["PASS oauth:abc", "NICK nick"]));
    s.advance();
    assert_eq!(s.step_lines(), lines(&["JOIN #bar"]));
    s.advance();
    assert!(s.is_joined());
    assert!(s.step_lines().is_empty());
    s.advance();
    assert_eq!(s.phase, HandshakePhase::ChannelJoined);
    assert_eq!(s.channel, "bar");
    assert_eq!(s.nickname, "nick");
}

#[test]
fn blank_input_gives_no_line() {
    assert_eq!(outbound_line("bar", ""), None);
    assert_eq!(outbound_line("bar", "   "), None);
    assert_eq!(outbound_line("bar", "\t\r\n"), None);
    assert_eq!(outbound_line("bar", "\u{a0}\u{2003}"), None);
}

#[test]
fn input_is_trimmed_and_wrapped() {
    assert_eq!(outbound_line("bar", "hi there").as_deref(), Some("PRIVMSG #bar :hi there"));
    assert_eq!(outbound_line("bar", "  hi  there \n").as_deref(), Some("PRIVMSG #bar :hi  there"));
    assert_eq!(outbound_line("", ":x").as_deref(), Some("PRIVMSG # ::x"));
}

#[test]
fn outbound_line_decodes_back() {
    let line = outbound_line("bar", " hi there \n").expect("not blank");
    let post = parse_twitch_message(&line).expect("chat post");
    assert_eq!(post._channel, "#bar");
    assert_eq!(post.message, "hi there");
}

#[test]
fn loop_needs_a_complete_handshake() {
    let mut s = session();
    assert!(DuplexLoop::start(&s).is_none());
    s.advance();
    s.advance();
    s.advance();
    assert!(DuplexLoop::start(&s).is_none());
    s.advance();
    let state = DuplexLoop::start(&s).expect("joined");
    assert_eq!(state.channel, "bar");
    assert!(state.inbound_active());
    assert!(state.outbound_active());
}

#[test]
fn text_frame_delivers_chat_events() {
    let mut state = DuplexLoop::start(&joined()).expect("joined");
    let frame = "@badges=moderator/1,x/1;color=#FF0000;display-name=Foo :foo!f@h PRIVMSG #bar :one\r\nPING :tmi\r\n:n!u@h PRIVMSG #bar :two\r\n";
    let received = ClockTime::new(7, 5).expect("valid");
    match state.on_incoming_at(Incoming::Text(frame.to_string()), &catalog(), received) {
        LoopAction::Deliver(events) => {
            assert_eq!(events.len(), 2);
            assert_eq!(events[0].received.text(), "07:05");
            assert_eq!(events[1].received, received);
            assert_eq!(events[0].name, "Foo");
            assert_eq!(events[0].color, "#FF0000");
            assert_eq!(events[0].message, "one");
            assert_eq!(events[0].badges.len(), 1);
            assert_eq!(events[0].badges[0].url, "m/3");
            assert_eq!(events[1].name, "n");
            assert_eq!(events[1].color, "#555555");
            assert_eq!(events[1].message, "two");
            assert!(events[1].badges.is_empty());
        }
        other => panic!("unexpected {:?}", other),
    }
    assert!(state.inbound_active());
    assert!(state.outbound_active());
}

#[test]
fn frame_without_chat_posts_delivers_nothing() {
    assert!(read_frame("", &catalog(), noon()).is_empty());
    assert!(read_frame("\r\n\r\n", &catalog(), noon()).is_empty());
    assert!(read_frame("PING :tmi.twitch.tv\r\n", &catalog(), noon()).is_empty());
    assert!(read_frame("@msg-id=resub :tmi.twitch.tv USERNOTICE #bar :hi", &catalog(), noon())
        .is_empty());
    assert!(read_frame(":n!u@h JOIN #c\r\n@k=v\r\n", &catalog(), noon()).is_empty());
    assert_eq!(read_frame("PRIVMSG #c :a\nPRIVMSG #c :b", &catalog(), noon()).len(), 2);
}

#[test]
fn chat_post_without_text_is_shown_with_empty_message() {
    let events = read_frame(
        ":n!u@h PRIVMSG #c\r\nJOIN #c\r\n@display-name=Foo PRIVMSG #c :x",
        &catalog(),
        noon(),
    );
    assert_eq!(events.len(), 2);
    assert_eq!(events[0].name, "n");
    assert_eq!(events[0].message, "");
    assert_eq!(events[1].name, "Foo");
    assert_eq!(events[1].message, "x");
}

#[test]
fn failed_step_does_not_advance_the_handshake() {
    let mut s = session();
    s.advance();
    assert_eq!(s.phase, HandshakePhase::TransportOpen);
    assert!(!s.on_step_sent(false));
    assert_eq!(s.phase, HandshakePhase::TransportOpen);
    assert_eq!(s.step_lines(), lines(&["CAP REQ :twitch.tv/tags twitch.tv/commands"]));
    assert!(s.on_step_sent(true));
    assert_eq!(s.phase, HandshakePhase::CapabilitiesRequested);
    assert!(!s.on_step_sent(false));
    assert_eq!(s.phase, HandshakePhase::CapabilitiesRequested);
    assert!(s.on_step_sent(true));
    assert!(s.on_step_sent(true));
    assert!(s.is_joined());
    assert!(DuplexLoop::start(&s).is_some());
    assert_eq!(s.nickname, "nick");
    assert_eq!(s.oauth_token, "oauth:abc");
}

#[test]
fn sender_without_name_is_guest() {
    let post = parse_twitch_message("PRIVMSG #c :x").expect("chat post");
    let event = present(&post, &catalog(), noon());
    assert_eq!(event.received.text(), "12:00");
    assert_eq!(event.name, "Guest");
    assert_eq!(event.color, "#555555");
    assert_eq!(event.message, "x");
    let empty = parse_twitch_message("@color= : PRIVMSG #c :x").expect("chat post");
    let shown = present(&empty, &catalog(), noon());
    assert_eq!(shown.name, "Guest");
    assert_eq!(shown.color, "");
}

#[test]
fn frame_received_now_is_stamped_with_a_time_of_day() {
    let mut state = DuplexLoop::start(&joined()).expect("joined");
    let before = ClockTime::now();
    let action = state.on_incoming(Incoming::Text("PRIVMSG #bar :x".to_string()), &catalog());
    let after = ClockTime::now();
    match action {
        LoopAction::Deliver(events) => {
            assert_eq!(events.len(), 1);
            assert_eq!(events[0].message, "x");
            assert!(events[0].received == before || events[0].received == after);
        }
        other => panic!("unexpected {:?}", other),
    }
}

#[test]
fn close_ends_both_activities() {
    let mut state = DuplexLoop::start(&joined()).expect("joined");
    match state.on_incoming(Incoming::Close, &catalog()) {
        LoopAction::Stop(reason) => assert_eq!(reason, EndReason::TransportClosed),
        other => panic!("unexpected {:?}", other),
    }
    assert!(!state.inbound_active());
    assert!(!state.outbound_active());
    assert_eq!(state.ended, Some(EndReason::TransportClosed));
    match state.on_typed(Typed::Line("hello".to_string())) {
        LoopAction::Stop(reason) => assert_eq!(reason, EndReason::TransportClosed),
        other => panic!("unexpected {:?}", other),
    }
    match state.on_incoming(Incoming::Text("PRIVMSG #c :x".to_string()), &catalog()) {
        LoopAction::Stop(reason) => assert_eq!(reason, EndReason::TransportClosed),
        other => panic!("unexpected {:?}", other),
    }
    match state.on_sent(true) {
        LoopAction::Stop(reason) => assert_eq!(reason, EndReason::TransportClosed),
        other => panic!("unexpected {:?}", other),
    }
    assert_eq!(state.ended, Some(EndReason::TransportClosed));
}

#[test]
fn receive_error_and_stream_end_stop_the_loop() {
    let mut failed = DuplexLoop::start(&joined()).expect("joined");
    assert!(matches!(
        failed.on_incoming(Incoming::Failed, &catalog()),
        LoopAction::Stop(EndReason::ReceiveFailed)
    ));
    assert!(!failed.outbound_active());
    let mut ended = DuplexLoop::start(&joined()).expect("joined");
    assert!(matches!(
        ended.on_incoming(Incoming::Ended, &catalog()),
        LoopAction::Stop(EndReason::StreamEnded)
    ));
    assert!(!ended.inbound_active());
}

#[test]
fn other_frames_are_passed_over() {
    let mut state = DuplexLoop::start(&joined()).expect("joined");
    assert!(matches!(state.on_incoming(Incoming::Other, &catalog()), LoopAction::Continue));
    assert!(state.inbound_active());
}

#[test]
fn typed_line_is_sent_to_the_channel() {
    let mut state = DuplexLoop::start(&joined()).expect("joined");
    match state.on_typed(Typed::Line(" hi there ".to_string())) {
        LoopAction::Send(line) => assert_eq!(line, "PRIVMSG #bar :hi there"),
        other => panic!("unexpected {:?}", other),
    }
    assert!(matches!(state.on_typed(Typed::Line("   ".to_string())), LoopAction::Continue));
    assert!(matches!(state.on_typed(Typed::Line(String::new())), LoopAction::Continue));
    assert!(matches!(state.on_sent(true), LoopAction::Continue));
    assert!(state.outbound_active());
}

#[test]
fn send_failure_and_input_end_stop_the_loop() {
    let mut state = DuplexLoop::start(&joined()).expect("joined");
    assert!(matches!(state.on_sent(false), LoopAction::Stop(EndReason::SendFailed)));
    assert!(!state.inbound_active());
    assert!(matches!(
        state.on_incoming(Incoming::Close, &catalog()),
        LoopAction::Stop(EndReason::SendFailed)
    ));
    let mut input = DuplexLoop::start(&joined()).expect("joined");
    assert!(matches!(input.on_typed(Typed::Ended), LoopAction::Stop(EndReason::InputEnded)));
    assert!(!input.inbound_active());
    assert!(!input.outbound_active());
}
