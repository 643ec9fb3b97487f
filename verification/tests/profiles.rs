use harmony::fetched::FetchedData;
use harmony::profiles::{auto_correlate, build_from_config, enrich_message, UserLink, UserProfile};
use harmony::user::User;
use harmony::Table;

fn link(ids: &[(&str, &str)], name: Option<&str>, avatar: Option<&str>) -> UserLink {
    let mut identities: Table<String, String> = Table::new();
    for (p, id) in ids {
        identities.insert((*p).to_owned(), (*id).to_owned());
    }
    UserLink {
        identities,
        display_name: name.map(str::to_owned),
        avatar_url: avatar.map(str::to_owned),
    }
}

fn shown(t: &Table<String, UserProfile>, id: &str) -> Option<(Option<String>, Option<String>)> {
    t.get(&id.to_owned()).map(|p| (p.display_name.clone(), p.avatar_url.clone()))
}

#[test]
fn build_from_config_binds_every_linked_id() {
    let links = vec![
        link(&[("irc", "al"), ("discord", "123")], Some("Alice"), None),
        link(&[("irc", "bo")], Some("Bob"), Some("http://b")),
    ];
    let t = build_from_config(&links);
    assert_eq!(t.len(), 3);
    assert_eq!(shown(&t, "al"), Some((Some("Alice".to_owned()), None)));
    assert_eq!(shown(&t, "123"), Some((Some("Alice".to_owned()), None)));
    assert_eq!(shown(&t, "bo"), Some((Some("Bob".to_owned()), Some("http://b".to_owned()))));
}

#[test]
fn later_link_wins_for_a_shared_id() {
    let links = vec![link(&[("irc", "x")], Some("First"), None), link(&[("irc", "x")], Some("Second"), None)];
    let t = build_from_config(&links);
    assert_eq!(t.len(), 1);
    assert_eq!(shown(&t, "x"), Some((Some("Second".to_owned()), None)));
}

fn fetched() -> FetchedData {
    let mut d = FetchedData::new();
    d.upsert_user("irc", "alice", "alice".to_owned(), None, None);
    d.upsert_user("irc", "zed", "zed".to_owned(), None, None);
    d.upsert_user("discord", "1", "ALICE".to_owned(), Some("Alice W".to_owned()), Some("pic".to_owned()));
    d.upsert_user("discord", "2", "bobby".to_owned(), Some("Zed".to_owned()), None);
    d
}

#[test]
fn auto_correlate_matches_names_ignoring_case() {
    let d = fetched();
    let mut t: Table<String, UserProfile> = Table::new();
    auto_correlate(&d, &mut t);
    assert_eq!(shown(&t, "alice"), Some((Some("Alice W".to_owned()), Some("pic".to_owned()))));
    assert_eq!(shown(&t, "1"), Some((Some("Alice W".to_owned()), Some("pic".to_owned()))));
    assert_eq!(shown(&t, "zed"), Some((Some("Zed".to_owned()), None)));
    assert_eq!(shown(&t, "2"), Some((Some("Zed".to_owned()), None)));
    assert_eq!(t.len(), 4);
}

#[test]
fn auto_correlate_keeps_configured_profiles() {
    let d = fetched();
    let mut t = build_from_config(&[link(&[("irc", "alice")], Some("Configured"), None)]);
    auto_correlate(&d, &mut t);
    assert_eq!(shown(&t, "alice"), Some((Some("Configured".to_owned()), None)));
    assert_eq!(shown(&t, "1"), Some((Some("Alice W".to_owned()), Some("pic".to_owned()))));
}

#[test]
fn enrich_message_applies_profile_by_id_or_name() {
    let t = build_from_config(&[link(&[("irc", "u1")], Some("Shown"), Some("pic"))]);
    let mut a = User { id: Some("u1".to_owned()), name: "raw".to_owned(), display_name: None, avatar_url: None };
    enrich_message(&mut a, &t);
    assert_eq!(a.name, "Shown");
    assert_eq!(a.avatar_url.as_deref(), Some("pic"));

    let mut b = User { id: None, name: "u1".to_owned(), display_name: None, avatar_url: Some("old".to_owned()) };
    enrich_message(&mut b, &t);
    assert_eq!(b.name, "Shown");
    assert_eq!(b.avatar_url.as_deref(), Some("pic"));

    let mut c = User { id: Some("other".to_owned()), name: "n".to_owned(), display_name: None, avatar_url: None };
    enrich_message(&mut c, &t);
    assert_eq!(c.name, "n");
    assert!(c.avatar_url.is_none());
}

#[test]
fn auto_correlate_matches_display_names_whatever_the_platform_order() {
    let mut d = FetchedData::new();
    d.upsert_user("discord", "42", "al".to_owned(), Some("Alice".to_owned()), None);
    d.upsert_user("irc", "alice", "alice".to_owned(), None, None);
    let mut t: Table<String, UserProfile> = Table::new();
    auto_correlate(&d, &mut t);
    assert_eq!(shown(&t, "alice"), Some((Some("Alice".to_owned()), None)));
    assert_eq!(shown(&t, "42"), Some((Some("Alice".to_owned()), None)));
}
