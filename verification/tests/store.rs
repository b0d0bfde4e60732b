use config::Config;
use twitch_chat::account::{Acquisition, Field, Notice, Request, Stage};

fn store(pairs: &[(&str, &str)]) -> Config {
    let mut builder = Config::builder();
    for (key, value) in pairs {
        builder = builder.set_override(*key, *value).expect("key");
    }
    builder.build().expect("store")
}

#[test]
fn acquisition_reads_the_three_keys() {
    let s = store(&[("url", "wss://example:443"), ("nickname", "nick"), ("token", "oauth:abc")]);
    let a = Acquisition::begin(&s);
    assert_eq!(a.stage, Stage::CheckToken);
    assert_eq!(a.settings.url, "wss://example:443");
    assert_eq!(a.settings.nickname, "nick");
    assert_eq!(a.settings.token, "oauth:abc");
    assert!(!a.save);
    assert!(matches!(a.pending(), Request::Check(t) if t == "oauth:abc"));
}

#[test]
fn empty_store_gives_default_url_and_asks_for_nickname() {
    let a = Acquisition::begin(&store(&[]));
    assert_eq!(a.settings.url, "wss://irc-ws.chat.twitch.tv:443");
    assert!(a.save);
    assert!(matches!(a.pending(), Request::Ask(Field::Nickname, Notice::Missing)));
}

#[test]
fn keys_are_not_mixed_up() {
    let a = Acquisition::begin(&store(&[("nickname", "only-nick")]));
    assert_eq!(a.settings.nickname, "only-nick");
    assert_eq!(a.settings.url, "wss://irc-ws.chat.twitch.tv:443");
    assert!(matches!(a.pending(), Request::Ask(Field::Token, Notice::Missing)));
    let b = Acquisition::begin(&store(&[("token", "only-token"), ("url", "u")]));
    assert_eq!(b.settings.url, "u");
    assert!(!b.save);
    assert!(matches!(b.pending(), Request::Ask(Field::Nickname, Notice::Missing)));
}

#[test]
fn empty_stored_values_are_asked_for() {
    let a = Acquisition::begin(&store(&[("url", "u"), ("nickname", ""), ("token", "t")]));
    assert!(matches!(a.pending(), Request::Ask(Field::Nickname, Notice::Empty)));
    let b = Acquisition::begin(&store(&[("url", "u"), ("nickname", "n"), ("token", "")]));
    assert!(matches!(b.pending(), Request::Ask(Field::Token, Notice::Empty)));
}

#[test]
fn stored_number_is_read_as_text() {
    let s = Config::builder()
        .set_override("url", "u")
        .expect("key")
        .set_override("nickname", 42)
        .expect("key")
        .set_override("token", "t")
        .expect("key")
        .build()
        .expect("store");
    let a = Acquisition::begin(&s);
    assert_eq!(a.settings.nickname, "42");
    assert_eq!(a.stage, Stage::CheckToken);
}

#[test]
fn unreadable_value_is_a_failed_lookup() {
    let s = Config::builder()
        .set_override("url", vec!["a", "b"])
        .expect("key")
        .set_override("nickname", vec!["a", "b"])
        .expect("key")
        .set_override("token", vec!["a", "b"])
        .expect("key")
        .build()
        .expect("store");
    let a = Acquisition::begin(&s);
    assert_eq!(a.settings.url, "wss://irc-ws.chat.twitch.tv:443");
    assert!(!a.save);
    assert_eq!(a.settings.nickname, "");
    assert_eq!(a.settings.token, "");
    assert!(a.is_finished());
}
