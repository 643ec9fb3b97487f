use harmony::fetched::{FetchedData, FetchedUser};
use harmony::user::User;

fn store() -> FetchedData {
    FetchedData::new()
}

fn users(d: &FetchedData, platform: &str) -> Vec<(String, String, Option<String>, Option<String>)> {
    for (p, data) in &d.platforms {
        if p == platform {
            return data
                .users
                .iter()
                .map(|u| (u.id.clone(), u.name.clone(), u.display_name.clone(), u.avatar_url.clone()))
                .collect();
        }
    }
    Vec::new()
}

fn channels(d: &FetchedData, platform: &str) -> Vec<(String, String)> {
    for (p, data) in &d.platforms {
        if p == platform {
            return data.channels.iter().map(|c| (c.id.clone(), c.name.clone())).collect();
        }
    }
    Vec::new()
}

#[test]
fn platform_mut_creates_platform_once() {
    let mut d = store();
    d.platform_mut("irc");
    d.platform_mut("irc");
    d.platform_mut("discord");
    let names: Vec<&str> = d.platforms.iter().map(|(p, _)| p.as_str()).collect();
    assert_eq!(names, vec!["irc", "discord"]);
}

#[test]
fn upsert_user_adds_then_reports_no_change_on_repeat() {
    let mut d = store();
    assert!(d.upsert_user("irc", "1", "alice".to_owned(), None, None));
    assert!(!d.upsert_user("irc", "1", "alice".to_owned(), None, None));
    assert_eq!(users(&d, "irc"), vec![("1".to_owned(), "alice".to_owned(), None, None)]);
}

#[test]
fn upsert_user_updates_fields_in_place() {
    let mut d = store();
    d.upsert_user("irc", "1", "alice".to_owned(), None, None);
    d.upsert_user("irc", "2", "bob".to_owned(), None, None);
    assert!(d.upsert_user("irc", "1", "alicia".to_owned(), Some("Alicia".to_owned()), Some("http://a".to_owned())));
    assert_eq!(
        users(&d, "irc"),
        vec![
            ("1".to_owned(), "alicia".to_owned(), Some("Alicia".to_owned()), Some("http://a".to_owned())),
            ("2".to_owned(), "bob".to_owned(), None, None),
        ]
    );
    assert!(d.upsert_user("irc", "1", "alicia".to_owned(), None, Some("http://a".to_owned())));
}

#[test]
fn remove_user_reports_whether_present() {
    let mut d = store();
    d.upsert_user("irc", "1", "alice".to_owned(), None, None);
    d.upsert_user("irc", "2", "bob".to_owned(), None, None);
    assert!(d.remove_user("irc", "1"));
    assert!(!d.remove_user("irc", "1"));
    assert_eq!(users(&d, "irc"), vec![("2".to_owned(), "bob".to_owned(), None, None)]);
}

#[test]
fn remove_user_on_unknown_platform_creates_it_empty() {
    let mut d = store();
    assert!(!d.remove_user("discord", "9"));
    assert_eq!(d.platforms.len(), 1);
    assert!(users(&d, "discord").is_empty());
}

#[test]
fn upsert_and_remove_channel() {
    let mut d = store();
    assert!(d.upsert_channel("irc", "#a", "#a".to_owned()));
    assert!(!d.upsert_channel("irc", "#a", "#a".to_owned()));
    assert!(d.upsert_channel("irc", "#a", "#renamed".to_owned()));
    assert!(d.upsert_channel("irc", "#b", "#b".to_owned()));
    assert_eq!(
        channels(&d, "irc"),
        vec![("#a".to_owned(), "#renamed".to_owned()), ("#b".to_owned(), "#b".to_owned())]
    );
    assert!(d.remove_channel("irc", "#a"));
    assert!(!d.remove_channel("irc", "#a"));
    assert_eq!(channels(&d, "irc"), vec![("#b".to_owned(), "#b".to_owned())]);
}

#[test]
fn rename_user_keeps_display_name_and_avatar() {
    let mut d = store();
    d.upsert_user("irc", "old", "old".to_owned(), Some("Shown".to_owned()), Some("pic".to_owned()));
    assert!(d.rename_user("irc", "old", "new", "new"));
    assert_eq!(
        users(&d, "irc"),
        vec![("new".to_owned(), "new".to_owned(), Some("Shown".to_owned()), Some("pic".to_owned()))]
    );
}

#[test]
fn rename_to_the_same_id_and_name_changes_nothing() {
    let mut d = store();
    d.upsert_user("irc", "bob", "bob".to_owned(), None, None);
    assert!(!d.rename_user("irc", "bob", "bob", "bob"));
    assert!(!handle_meta_event(
        &mut d,
        &FetchEvent::UserRenamed {
            platform: "irc".to_owned(),
            old_id: "bob".to_owned(),
            new_id: "bob".to_owned(),
            new_name: "bob".to_owned()
        }
    ));
    assert_eq!(users(&d, "irc"), vec![("bob".to_owned(), "bob".to_owned(), None, None)]);
}

#[test]
fn rename_unknown_user_adds_bare_record() {
    let mut d = store();
    assert!(d.rename_user("irc", "ghost", "n", "nick"));
    assert_eq!(users(&d, "irc"), vec![("n".to_owned(), "nick".to_owned(), None, None)]);
}

#[test]
fn merge_users_keys_by_id_or_name() {
    let mut d = store();
    let listed = vec![
        User { id: Some("7".to_owned()), name: "seven".to_owned(), display_name: None, avatar_url: None },
        User { id: None, name: "anon".to_owned(), display_name: Some("A".to_owned()), avatar_url: None },
    ];
    assert!(d.merge_users("discord", listed));
    assert_eq!(
        users(&d, "discord"),
        vec![
            ("7".to_owned(), "seven".to_owned(), None, None),
            ("anon".to_owned(), "anon".to_owned(), Some("A".to_owned()), None),
        ]
    );
    let again = vec![User { id: Some("7".to_owned()), name: "seven".to_owned(), display_name: None, avatar_url: None }];
    assert!(!d.merge_users("discord", again));
    assert!(!d.merge_users("discord", Vec::new()));
}

#[test]
fn fetched_user_from_user_defaults_missing_id_to_empty() {
    let u = FetchedUser::from_user(User { id: None, name: "n".to_owned(), display_name: None, avatar_url: None });
    assert_eq!(u.id, "");
    assert_eq!(u.name, "n");
}

use harmony::fetch_events::{handle_meta_event, FetchEvent};

#[test]
fn meta_events_update_the_store_and_report_changes() {
    let mut d = store();
    let alice = User { id: None, name: "alice".to_owned(), display_name: None, avatar_url: None };
    assert!(handle_meta_event(&mut d, &FetchEvent::UserJoined { platform: "irc".to_owned(), user: alice }));
    let again = User { id: None, name: "alice".to_owned(), display_name: None, avatar_url: None };
    assert!(!handle_meta_event(&mut d, &FetchEvent::UserUpdated { platform: "irc".to_owned(), user: again }));
    assert!(handle_meta_event(
        &mut d,
        &FetchEvent::UserRenamed {
            platform: "irc".to_owned(),
            old_id: "alice".to_owned(),
            new_id: "ali".to_owned(),
            new_name: "ali".to_owned()
        }
    ));
    assert_eq!(users(&d, "irc"), vec![("ali".to_owned(), "ali".to_owned(), None, None)]);
    assert!(handle_meta_event(&mut d, &FetchEvent::UserLeft { platform: "irc".to_owned(), id: "ali".to_owned() }));
    assert!(!handle_meta_event(&mut d, &FetchEvent::UserLeft { platform: "irc".to_owned(), id: "ali".to_owned() }));
    assert!(handle_meta_event(
        &mut d,
        &FetchEvent::ChannelCreated { platform: "irc".to_owned(), id: "#a".to_owned(), name: "#a".to_owned() }
    ));
    assert!(!handle_meta_event(
        &mut d,
        &FetchEvent::ChannelUpdated { platform: "irc".to_owned(), id: "#a".to_owned(), name: "#a".to_owned() }
    ));
    assert!(handle_meta_event(&mut d, &FetchEvent::ChannelDeleted { platform: "irc".to_owned(), id: "#a".to_owned() }));
    let listed = vec![User { id: Some("9".to_owned()), name: "n".to_owned(), display_name: None, avatar_url: None }];
    assert!(handle_meta_event(&mut d, &FetchEvent::UsersDiscovered { platform: "discord".to_owned(), users: listed }));
    assert_eq!(users(&d, "discord"), vec![("9".to_owned(), "n".to_owned(), None, None)]);
}
