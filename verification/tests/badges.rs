use twitch_chat::badges::{find_badge, resolve_badges, resolve_names, sized_url, TwitchBadge};
use twitch_chat::parser::{badge_names_in, user_badges};
use twitch_chat::tags::TagMap;

fn badge(name: &str, url: &str) -> TwitchBadge {
    TwitchBadge { name: name.to_string(), url: url.to_string() }
}

fn tags_with_badges(value: &str) -> TagMap {
    let mut tags = TagMap::new();
    tags.insert("badges".to_string(), value.to_string());
    tags
}

fn names(list: &[&str]) -> Vec<String> {
    list.iter().map(|s| s.to_string()).collect()
}

#[test]
fn badge_names_keep_order_and_drop_versions() {
    assert_eq!(
        user_badges(&tags_with_badges("broadcaster/1,premium/1,sub-gifter/25")),
        names(&["broadcaster", "premium", "sub-gifter"])
    );
}

#[test]
fn badge_entry_splits_on_first_slash() {
    assert_eq!(badge_names_in("a/b/c,/1,x/"), names(&["a", "", "x"]));
}

#[test]
fn badge_entry_without_slash_is_skipped() {
    assert_eq!(badge_names_in("moderator,vip/1,,staff"), names(&["vip"]));
    assert_eq!(badge_names_in(""), Vec::<String>::new());
}

#[test]
fn missing_badge_tag_gives_no_names() {
    assert_eq!(user_badges(&TagMap::new()), Vec::<String>::new());
    let mut tags = TagMap::new();
    tags.insert("color".to_string(), "#FFFFFF".to_string());
    assert_eq!(user_badges(&tags), Vec::<String>::new());
    assert!(resolve_badges(&tags, &vec![badge("vip", "u{SIZE}")]).is_empty());
}

#[test]
fn unknown_badge_is_omitted() {
    let catalog = vec![badge("moderator", "m/{SIZE}"), badge("subscriber", "s/{SIZE}")];
    let tags = tags_with_badges("moderator/1,glitchcon/1,subscriber/3");
    let resolved = resolve_badges(&tags, &catalog);
    assert_eq!(resolved.len(), 2);
    assert_eq!(resolved[0].name, "moderator");
    assert_eq!(resolved[0].url, "m/3");
    assert_eq!(resolved[1].name, "subscriber");
    assert_eq!(resolved[1].url, "s/3");
    let same = resolve_badges(&tags_with_badges("moderator/1,subscriber/3"), &catalog);
    assert_eq!(same.len(), 2);
    assert_eq!(same[0].url, resolved[0].url);
    assert_eq!(same[1].url, resolved[1].url);
}

#[test]
fn nothing_resolves_against_empty_catalog() {
    assert!(resolve_badges(&tags_with_badges("moderator/1"), &Vec::new()).is_empty());
}

#[test]
fn repeated_badge_resolves_each_time() {
    let catalog = vec![badge("vip", "v/{SIZE}")];
    let resolved = resolve_names(&names(&["vip", "x", "vip"]), &catalog);
    assert_eq!(resolved.len(), 2);
    assert_eq!(resolved[0].url, "v/3");
    assert_eq!(resolved[1].url, "v/3");
}

#[test]
fn first_catalog_entry_wins() {
    let catalog = vec![badge("vip", "first/{SIZE}"), badge("vip", "second/{SIZE}")];
    let found = find_badge(&catalog, &"vip".to_string()).expect("known");
    assert_eq!(found.url, "first/{SIZE}");
    assert!(find_badge(&catalog, &"mod".to_string()).is_none());
    let resolved = resolve_names(&names(&["vip"]), &catalog);
    assert_eq!(resolved[0].url, "first/3");
}

#[test]
fn size_placeholder_is_replaced_everywhere() {
    assert_eq!(
        sized_url("https://static.example/badges/v1/abc/{SIZE}"),
        "https://static.example/badges/v1/abc/3"
    );
    assert_eq!(sized_url("{SIZE}x{SIZE}"), "3x3");
    assert_eq!(sized_url("{SIZE}{SIZE}"), "33");
    assert_eq!(sized_url("a{SIZE}"), "a3");
    assert_eq!(sized_url("{SIZE}a"), "3a");
}

#[test]
fn url_without_placeholder_is_unchanged() {
    assert_eq!(sized_url("https://static.example/badge.png"), "https://static.example/badge.png");
    assert_eq!(sized_url(""), "");
    assert_eq!(sized_url("{SIZE"), "{SIZE");
    assert_eq!(sized_url("{size}"), "{size}");
    assert_eq!(sized_url("{{SIZE}"), "{3");
    assert_eq!(sized_url("{SIZ{SIZE}E}"), "{SIZ3E}");
}

#[test]
fn sized_url_agrees_with_replace() {
    for template in ["", "{", "{SIZE}", "x{SIZE}y{SIZE}z", "{S{SIZE}", "日本{SIZE}語", "{SIZE}}"] {
        assert_eq!(sized_url(template), template.replace("{SIZE}", "3"));
    }
}
