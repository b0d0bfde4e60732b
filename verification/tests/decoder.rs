use twitch_chat::badges::{resolve_badges, TwitchBadge};
use twitch_chat::message_interface::TwitchMessage;
use twitch_chat::parser::{parse_twitch_message, user_badges};
use twitch_chat::wire::chat_line;

const SAMPLE: &str = "@badge-info=;badges=moderator/1,subscriber/12;color=#FF0000;display-name=Foo :foo!foo@foo.tmi.twitch.tv PRIVMSG #bar :hello world";

fn tag<'a>(m: &'a TwitchMessage, key: &str) -> Option<&'a str> {
    m.tags.get(key).map(|v| v.as_str())
}

fn badge(name: &str, url: &str) -> TwitchBadge {
    TwitchBadge { name: name.to_string(), url: url.to_string() }
}

#[test]
fn sample_line_decodes_to_chat_post() {
    let m = TwitchMessage::parse(SAMPLE).expect("decodable");
    assert_eq!(m.command, "PRIVMSG");
    assert_eq!(m.message.as_deref(), Some("hello world"));
    assert_eq!(tag(&m, "display-name"), Some("Foo"));
    assert_eq!(tag(&m, "color"), Some("#FF0000"));
    assert_eq!(tag(&m, "badges"), Some("moderator/1,subscriber/12"));
    assert_eq!(tag(&m, "badge-info"), Some(""));
    assert_eq!(m.tags.len(), 4);
    assert_eq!(m.prefix.as_deref(), Some("foo!foo@foo.tmi.twitch.tv"));
    assert_eq!(m.username.as_deref(), Some("foo"));
    assert_eq!(m.params, vec!["#bar".to_string(), "hello world".to_string()]);
}

#[test]
fn sample_line_resolves_two_badges_in_order() {
    let m = TwitchMessage::parse(SAMPLE).expect("decodable");
    let catalog = vec![
        badge("subscriber", "https://badges.example/sub/{SIZE}"),
        badge("moderator", "https://badges.example/mod/{SIZE}"),
    ];
    let resolved = resolve_badges(&m.tags, &catalog);
    assert_eq!(resolved.len(), 2);
    assert_eq!(resolved[0].name, "moderator");
    assert_eq!(resolved[0].url, "https://badges.example/mod/3");
    assert_eq!(resolved[1].name, "subscriber");
    assert_eq!(resolved[1].url, "https://badges.example/sub/3");
}

#[test]
fn chat_line_round_trip() {
    let line = chat_line("bar", "hi there");
    assert_eq!(line, "PRIVMSG #bar :hi there");
    let m = TwitchMessage::parse(&line).expect("decodable");
    assert_eq!(m.command, "PRIVMSG");
    assert_eq!(m.message.as_deref(), Some("hi there"));
    assert_eq!(m.params, vec!["#bar".to_string(), "hi there".to_string()]);
    assert!(m.tags.is_empty());
    assert_eq!(m.prefix, None);
    assert_eq!(m.username, None);
}

#[test]
fn line_without_tags_has_empty_tag_map() {
    let m = TwitchMessage::parse(":nick!user@host PRIVMSG #chan :yo").expect("decodable");
    assert!(m.tags.is_empty());
    assert_eq!(m.tags.len(), 0);
    assert_eq!(m.message.as_deref(), Some("yo"));
    let ping = TwitchMessage::parse("PING :tmi.twitch.tv").expect("decodable");
    assert!(ping.tags.is_empty());
    assert_eq!(ping.command, "PING");
    assert_eq!(ping.params, vec!["tmi.twitch.tv".to_string()]);
    assert_eq!(ping.message, None);
}

#[test]
fn two_tags_give_exactly_two_entries() {
    let m = TwitchMessage::parse("@k1=v1;k2=v2 CMD").expect("decodable");
    assert_eq!(m.tags.len(), 2);
    assert_eq!(tag(&m, "k1"), Some("v1"));
    assert_eq!(tag(&m, "k2"), Some("v2"));
    assert_eq!(tag(&m, "k3"), None);
    assert!(!m.tags.contains_key("k3"));
}

#[test]
fn tag_without_equals_has_empty_value() {
    let m = TwitchMessage::parse("@flag;k=v CMD").expect("decodable");
    assert_eq!(m.tags.len(), 2);
    assert!(m.tags.contains_key("flag"));
    assert_eq!(tag(&m, "flag"), Some(""));
    assert_eq!(tag(&m, "k"), Some("v"));
}

#[test]
fn tag_with_empty_value_is_present() {
    let m = TwitchMessage::parse("@key= CMD").expect("decodable");
    assert_eq!(m.tags.len(), 1);
    assert_eq!(tag(&m, "key"), Some(""));
}

#[test]
fn tag_value_keeps_later_equals_signs() {
    let m = TwitchMessage::parse("@a=b=c;d==e CMD").expect("decodable");
    assert_eq!(tag(&m, "a"), Some("b=c"));
    assert_eq!(tag(&m, "d"), Some("=e"));
}

#[test]
fn later_tag_replaces_earlier_one() {
    let m = TwitchMessage::parse("@k=1;k=2 CMD").expect("decodable");
    assert_eq!(m.tags.len(), 1);
    assert_eq!(tag(&m, "k"), Some("2"));
}

#[test]
fn empty_tag_segment_gives_empty_key() {
    let m = TwitchMessage::parse("@ CMD").expect("decodable");
    assert_eq!(m.tags.len(), 1);
    assert_eq!(tag(&m, ""), Some(""));
    assert_eq!(m.command, "CMD");
}

#[test]
fn tag_segment_without_space_is_not_decodable() {
    assert!(TwitchMessage::parse("@k=v").is_none());
    assert!(TwitchMessage::parse("@").is_none());
}

#[test]
fn prefix_without_space_is_not_decodable() {
    assert!(TwitchMessage::parse(":tmi.twitch.tv").is_none());
    assert!(TwitchMessage::parse("@k=v :tmi.twitch.tv").is_none());
}

#[test]
fn line_without_command_is_not_decodable() {
    assert!(TwitchMessage::parse("").is_none());
    assert!(TwitchMessage::parse("   \r\n").is_none());
    assert!(TwitchMessage::parse("@k=v ").is_none());
    assert!(TwitchMessage::parse(":prefix  CMD").is_none());
    assert!(TwitchMessage::parse("@k=v  :prefix CMD").is_none());
}

#[test]
fn surrounding_whitespace_is_ignored() {
    let m = TwitchMessage::parse("  \t:a!b@c PRIVMSG #x :text here \r\n").expect("decodable");
    assert_eq!(m.prefix.as_deref(), Some("a!b@c"));
    assert_eq!(m.message.as_deref(), Some("text here"));
}

#[test]
fn other_command_keeps_params_without_message() {
    let m = TwitchMessage::parse(":tmi.twitch.tv CAP * ACK :twitch.tv/tags twitch.tv/commands")
        .expect("decodable");
    assert_eq!(m.command, "CAP");
    assert_eq!(
        m.params,
        vec!["*".to_string(), "ACK".to_string(), "twitch.tv/tags twitch.tv/commands".to_string()]
    );
    assert_eq!(m.message, None);
    assert_eq!(m.username.as_deref(), Some("tmi.twitch.tv"));
    assert_eq!(m.format_display(), None);
}

#[test]
fn command_alone_has_no_params() {
    let m = TwitchMessage::parse("RECONNECT").expect("decodable");
    assert_eq!(m.command, "RECONNECT");
    assert!(m.params.is_empty());
    assert_eq!(m.prefix, None);
}

#[test]
fn params_split_on_single_spaces() {
    let m = TwitchMessage::parse("CMD a  b").expect("decodable");
    assert_eq!(m.params, vec!["a".to_string(), "".to_string(), "b".to_string()]);
}

#[test]
fn trailing_param_keeps_spaces_and_colons() {
    let m = TwitchMessage::parse("PRIVMSG #c :a :b  c").expect("decodable");
    assert_eq!(m.params, vec!["#c".to_string(), "a :b  c".to_string()]);
    assert_eq!(m.message.as_deref(), Some("a :b  c"));
    let empty = TwitchMessage::parse("PRIVMSG #c :").expect("decodable");
    assert_eq!(empty.message.as_deref(), Some(""));
}

#[test]
fn chat_post_with_one_param_has_no_message() {
    let m = TwitchMessage::parse("PRIVMSG #c").expect("decodable");
    assert_eq!(m.params, vec!["#c".to_string()]);
    assert_eq!(m.message, None);
}

#[test]
fn chat_post_message_is_second_param() {
    let m = TwitchMessage::parse("PRIVMSG #c one two").expect("decodable");
    assert_eq!(m.message.as_deref(), Some("one"));
}

#[test]
fn username_is_whole_prefix_without_bang() {
    let m = TwitchMessage::parse(":server NOTICE * :hi").expect("decodable");
    assert_eq!(m.username.as_deref(), Some("server"));
    let bang = TwitchMessage::parse(":!x NOTICE").expect("decodable");
    assert_eq!(bang.username.as_deref(), Some(""));
}

#[test]
fn display_name_prefers_tag() {
    let m = TwitchMessage::parse(SAMPLE).expect("decodable");
    assert_eq!(m.display_name().as_deref(), Some("Foo"));
    let plain = TwitchMessage::parse(":nick!u@h PRIVMSG #c :x").expect("decodable");
    assert_eq!(plain.display_name().as_deref(), Some("nick"));
    let bare = TwitchMessage::parse("PRIVMSG #c :x").expect("decodable");
    assert_eq!(bare.display_name(), None);
}

#[test]
fn status_flags_read_tags() {
    let m = TwitchMessage::parse("@mod=1;subscriber=0;vip=1 :n!u@h PRIVMSG #c :x")
        .expect("decodable");
    assert!(m.is_mod());
    assert!(!m.is_subscriber());
    assert!(m.is_vip());
    let none = TwitchMessage::parse(":n!u@h PRIVMSG #c :x").expect("decodable");
    assert!(!none.is_mod());
    assert!(!none.is_subscriber());
    assert!(!none.is_vip());
    let vip = TwitchMessage::parse("@vip;mod=11 PRIVMSG #c :x").expect("decodable");
    assert!(vip.is_vip());
    assert!(!vip.is_mod());
}

#[test]
fn format_display_gives_marks_name_and_text() {
    let m = TwitchMessage::parse(
        "@mod=1;vip=1;subscriber=1;display-name=Foo :foo!f@h PRIVMSG #c :hello world",
    )
    .expect("decodable");
    assert_eq!(m.format_display().as_deref(), Some("[MOD] [VIP] [SUB] Foo: hello world"));
    let sub = TwitchMessage::parse("@subscriber=1 :foo!f@h PRIVMSG #c :hi").expect("decodable");
    assert_eq!(sub.format_display().as_deref(), Some("[SUB] foo: hi"));
    let plain = TwitchMessage::parse(":foo!f@h PRIVMSG #c :hi").expect("decodable");
    assert_eq!(plain.format_display().as_deref(), Some("foo: hi"));
    let nameless = TwitchMessage::parse("PRIVMSG #c :hi").expect("decodable");
    assert_eq!(nameless.format_display(), None);
    let textless = TwitchMessage::parse(":foo!f@h PRIVMSG #c").expect("decodable");
    assert_eq!(textless.format_display(), None);
}

#[test]
fn clone_keeps_the_message() {
    let m = TwitchMessage::parse(SAMPLE).expect("decodable");
    let c = m.clone();
    assert_eq!(c.command, m.command);
    assert_eq!(c.params, m.params);
    assert_eq!(c.tags.len(), 4);
    assert_eq!(c.tags.get("display-name").map(|s| s.as_str()), Some("Foo"));
}

#[test]
fn chat_post_of_sample() {
    let post = parse_twitch_message(SAMPLE).expect("chat post");
    assert!(post.is_chat_post());
    assert_eq!(post._prefix, "foo!foo@foo.tmi.twitch.tv");
    assert_eq!(post._command, "PRIVMSG");
    assert_eq!(post._channel, "#bar");
    assert_eq!(post.message, "hello world");
    assert_eq!(post.tags.get("display-name").map(|s| s.as_str()), Some("Foo"));
    assert_eq!(user_badges(&post.tags), vec!["moderator".to_string(), "subscriber".to_string()]);
}

#[test]
fn chat_post_without_tags_or_prefix() {
    let post = parse_twitch_message("PRIVMSG #bar :hi there").expect("chat post");
    assert!(post.tags.is_empty());
    assert_eq!(post._prefix, "");
    assert_eq!(post._channel, "#bar");
    assert_eq!(post.message, "hi there");
}

#[test]
fn chat_post_without_text_has_empty_message() {
    let line = parse_twitch_message("@k=v :foo!foo@foo.tmi.twitch.tv PRIVMSG #bar").expect("line");
    assert!(line.is_chat_post());
    assert_eq!(line._prefix, "foo!foo@foo.tmi.twitch.tv");
    assert_eq!(line._command, "PRIVMSG");
    assert_eq!(line._channel, "#bar");
    assert_eq!(line.message, "");
    assert_eq!(line.tags.len(), 1);
    assert_eq!(line.tags.get("k").map(|s| s.as_str()), Some("v"));
}

#[test]
fn line_of_another_command_is_decoded() {
    let line =
        parse_twitch_message("@msg-id=resub :tmi.twitch.tv USERNOTICE #bar :hi").expect("line");
    assert!(!line.is_chat_post());
    assert_eq!(line._command, "USERNOTICE");
    assert_eq!(line._prefix, "tmi.twitch.tv");
    assert_eq!(line._channel, "#bar");
    assert_eq!(line.message, "");
    assert_eq!(line.tags.len(), 1);
    assert_eq!(line.tags.get("msg-id").map(|s| s.as_str()), Some("resub"));
}

#[test]
fn line_without_parameters_has_empty_channel() {
    let ping = parse_twitch_message("PING :tmi.twitch.tv").expect("line");
    assert_eq!(ping._command, "PING");
    assert_eq!(ping._prefix, "");
    assert_eq!(ping._channel, "tmi.twitch.tv");
    assert_eq!(ping.message, "");
    assert!(ping.tags.is_empty());
    let bare = parse_twitch_message("RECONNECT").expect("line");
    assert_eq!(bare._command, "RECONNECT");
    assert_eq!(bare._channel, "");
    assert_eq!(bare.message, "");
    let join = parse_twitch_message("@k=v :n!u@h JOIN #c").expect("line");
    assert_eq!(join._command, "JOIN");
    assert_eq!(join._channel, "#c");
    assert!(!join.is_chat_post());
}

#[test]
fn flat_form_exists_exactly_for_decodable_lines() {
    for raw in [
        "",
        "   ",
        "@k=v",
        "@k=v ",
        ":prefix",
        ":prefix  CMD",
        "PING",
        "PRIVMSG #c",
        "PRIVMSG #c :x",
        "@a=b :p CMD x :y z",
        " :n!u@h NOTICE * :hi \r\n",
    ] {
        assert_eq!(
            parse_twitch_message(raw).is_some(),
            TwitchMessage::parse(raw).is_some(),
            "{:?}",
            raw
        );
    }
    assert!(parse_twitch_message("@k=v").is_none());
    assert!(parse_twitch_message("").is_none());
    assert!(parse_twitch_message(":prefix").is_none());
}
