use harmony::peers::{Peered, Peers};
use harmony::users::{CoreUser, PlatformUser};
use harmony::PlatformId;

fn item(platform: &str, id: &str, name: &str) -> PlatformUser {
    PlatformUser {
        platform: PlatformId::new(platform),
        id: id.to_owned(),
        display_name: Some(name.to_owned()),
        avatar_url: None,
    }
}

fn pid(name: &str) -> PlatformId {
    PlatformId::new(name)
}

#[test]
fn detach_one_alias_keeps_entity() {
    let mut peers: Peers<CoreUser> = Peers::new();
    let mut core = CoreUser::from_single_alias(pid("a"), item("a", "1", "alice"));
    core.aliases_mut().insert(pid("b"), item("b", "2", "alice"));
    peers.insert(core);

    peers.detach(&pid("a"), "1");

    assert!(peers.find(&pid("a"), "1").is_none());
    let found = peers.find(&pid("b"), "2").expect("should still exist");
    assert_eq!(found.aliases().len(), 1);
    assert!(found.aliases().contains_key(&pid("b")));
    assert_eq!(peers.len(), 1);
}

#[test]
fn detach_last_alias_removes_entity() {
    let mut peers: Peers<CoreUser> = Peers::new();
    peers.insert(CoreUser::from_single_alias(pid("a"), item("a", "1", "alice")));
    assert_eq!(peers.len(), 1);

    peers.detach(&pid("a"), "1");

    assert!(peers.find(&pid("a"), "1").is_none());
    assert_eq!(peers.len(), 0);
}

#[test]
fn detach_no_stale_index() {
    let mut peers: Peers<CoreUser> = Peers::new();
    let mut core = CoreUser::from_single_alias(pid("a"), item("a", "1", "alice"));
    core.aliases_mut().insert(pid("b"), item("b", "2", "alice"));
    peers.insert(core);

    peers.detach(&pid("a"), "1");

    assert!(peers.find(&pid("a"), "1").is_none());
    assert!(peers.find(&pid("b"), "2").is_some());
    assert_eq!(peers.len(), 1);
}

#[test]
fn upsert_auto_correlates_by_match_key() {
    let mut peers: Peers<CoreUser> = Peers::new();
    peers.upsert(item("a", "1", "alice"));
    peers.upsert(item("b", "2", "alice"));

    assert_eq!(peers.len(), 1);
    let found = peers.find(&pid("a"), "1").expect("should exist");
    assert_eq!(found.aliases().len(), 2);
    assert!(found.aliases().contains_key(&pid("a")));
    assert!(found.aliases().contains_key(&pid("b")));

    let same = peers.find(&pid("b"), "2").expect("should exist");
    assert_eq!(same.aliases().len(), 2);
}

#[test]
fn upsert_same_platform_no_merge() {
    let mut peers: Peers<CoreUser> = Peers::new();
    peers.upsert(item("a", "1", "alice"));
    peers.upsert(item("a", "2", "alice"));

    assert_eq!(peers.len(), 2);
    assert!(peers.find(&pid("a"), "1").is_some());
    assert!(peers.find(&pid("a"), "2").is_some());
}

#[test]
fn upsert_updates_existing() {
    let mut peers: Peers<CoreUser> = Peers::new();
    peers.upsert(item("a", "1", "alice"));
    peers.upsert(item("a", "1", "ALICE_UPDATED"));

    assert_eq!(peers.len(), 1);
    let found = peers.find(&pid("a"), "1").expect("should exist");
    assert_eq!(
        found.get_platform_user(&pid("a")).unwrap().display_name.as_deref(),
        Some("ALICE_UPDATED")
    );
}

#[test]
fn upsert_matches_names_ignoring_case() {
    let mut peers: Peers<CoreUser> = Peers::new();
    peers.upsert(item("a", "1", "Alice"));
    peers.upsert(item("b", "2", "ALICE"));
    assert_eq!(peers.len(), 1);
    let found = peers.find(&pid("b"), "2").expect("should exist");
    assert!(found.aliases().contains_key(&pid("a")));
}

#[test]
fn upsert_without_display_name_never_merges() {
    let mut peers: Peers<CoreUser> = Peers::new();
    let mut u1 = item("a", "1", "x");
    u1.display_name = None;
    let mut u2 = item("b", "2", "x");
    u2.display_name = None;
    peers.upsert(u1);
    peers.upsert(u2);
    assert_eq!(peers.len(), 2);
}

#[test]
fn upsert_then_find_returns_the_alias() {
    let mut peers: Peers<CoreUser> = Peers::new();
    peers.upsert(item("a", "7", "zed"));
    let found = peers.find(&pid("a"), "7").expect("just upserted");
    let alias = found.get_platform_user(&pid("a")).unwrap();
    assert_eq!(alias.id, "7");
    assert_eq!(found.display_name(), Some("zed"));
}

#[test]
fn detach_unknown_alias_changes_nothing() {
    let mut peers: Peers<CoreUser> = Peers::new();
    peers.upsert(item("a", "1", "alice"));
    peers.detach(&pid("a"), "9");
    peers.detach(&pid("z"), "1");
    assert_eq!(peers.len(), 1);
    assert!(peers.find(&pid("a"), "1").is_some());
}

#[test]
fn build_keeps_only_correlated_users() {
    let discovered = vec![
        (pid("a"), vec![item("a", "1", "alice"), item("a", "2", "bob")]),
        (pid("b"), vec![item("b", "x", "Alice")]),
    ];
    let peers: Peers<CoreUser> = Peers::build(&discovered);
    assert_eq!(peers.len(), 1);
    let alice = peers.find(&pid("b"), "x").expect("discovered");
    assert!(alice.aliases().contains_key(&pid("a")));
    // only matched items become entities
    assert!(peers.find(&pid("a"), "2").is_none());
    assert!(!peers.is_empty());
}

#[test]
fn rename_moves_alias_to_new_id() {
    let mut peers: Peers<CoreUser> = Peers::new();
    peers.upsert(item("a", "1", "alice"));
    peers.rename(&pid("a"), "1", "2", Some("alicia".to_owned()));
    assert!(peers.find(&pid("a"), "1").is_none());
    let found = peers.find(&pid("a"), "2").expect("renamed");
    assert_eq!(found.get_platform_user(&pid("a")).unwrap().display_name.as_deref(), Some("alicia"));
}

#[test]
fn detach_keeps_match_key_while_another_alias_carries_it() {
    let mut peers: Peers<CoreUser> = Peers::new();
    let mut core = CoreUser::from_single_alias(pid("a"), item("a", "1", "alice"));
    core.aliases_mut().insert(pid("b"), item("b", "2", "alice"));
    peers.insert(core);
    peers.detach(&pid("a"), "1");
    peers.upsert(item("c", "3", "alice"));
    assert_eq!(peers.len(), 1);
    assert_eq!(peers.find(&pid("c"), "3").unwrap().aliases().len(), 2);
}

#[test]
fn update_in_place_follows_the_new_name() {
    let mut peers: Peers<CoreUser> = Peers::new();
    peers.upsert(item("a", "1", "alice"));
    peers.upsert(item("a", "1", "bob"));
    peers.upsert(item("b", "2", "bob"));
    assert_eq!(peers.len(), 1);
    assert_eq!(peers.find(&pid("b"), "2").unwrap().aliases().len(), 2);
    peers.upsert(item("c", "3", "alice"));
    assert_eq!(peers.len(), 2);
}

#[test]
fn build_never_overwrites_an_alias_of_the_same_platform() {
    let discovered = vec![
        (pid("a"), vec![item("a", "1", "x"), item("a", "2", "X")]),
        (pid("b"), vec![item("b", "3", "x")]),
    ];
    let peers: Peers<CoreUser> = Peers::build(&discovered);
    for id in ["1", "2"] {
        if let Some(e) = peers.find(&pid("a"), id) {
            assert_eq!(e.get_platform_user(&pid("a")).unwrap().id, id);
        }
    }
    assert!(peers.find(&pid("a"), "1").is_some());
}
