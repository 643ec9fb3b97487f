use harmony::channels::{CoreChannel, PlatformChannel};
use harmony::event::{handle_event, MetaEvent};
use harmony::messages::{CoreMessageSegment, PlatformMessage, PlatformMessageSegment};
use harmony::peers::{Peered, Peers};
use harmony::relay::{relay, resolve_or_register};
use harmony::users::{CoreUser, PlatformUser};
use harmony::PlatformId;

fn pid(p: &str) -> PlatformId {
    PlatformId::new(p)
}

fn pch(p: &str, name: &str) -> PlatformChannel {
    PlatformChannel { platform: pid(p), id: name.to_owned(), name: name.to_owned() }
}

fn pu(p: &str, id: &str) -> PlatformUser {
    PlatformUser { platform: pid(p), id: id.to_owned(), display_name: Some(id.to_owned()), avatar_url: None }
}

fn linked_channels() -> Peers<CoreChannel> {
    let mut channels: Peers<CoreChannel> = Peers::new();
    let mut general = CoreChannel::from_single_alias(pid("alpha"), pch("alpha", "#general"));
    general.aliases_mut().insert(pid("beta"), pch("beta", "#chat"));
    channels.insert(general);
    channels.insert(CoreChannel::from_single_alias(pid("alpha"), pch("alpha", "#unrelated")));
    channels
}

fn inbound(channel: &str, author: &str, content: Vec<PlatformMessageSegment>) -> PlatformMessage {
    PlatformMessage { author: pu("alpha", author), channel: pch("alpha", channel), content }
}

#[test]
fn message_relayed_between_two_platforms() {
    let channels = linked_channels();
    let mut users: Peers<CoreUser> = Peers::new();
    let msg = inbound("#general", "alice", vec![PlatformMessageSegment::Text("hello from alpha".to_owned())]);
    let r = relay(&channels, &mut users, &pid("alpha"), &msg).expect("bridged channel");
    let targets: Vec<&str> = r.targets.iter().map(|p| p.as_str()).collect();
    assert_eq!(targets, vec!["beta"]);
    assert_eq!(r.message.author.display_name(), Some("alice"));
    assert_eq!(r.message.channel.get_platform_channel(&pid("beta")).unwrap().id, "#chat");
    match &r.message.content[..] {
        [CoreMessageSegment::Text(t)] => assert_eq!(t, "hello from alpha"),
        other => panic!("unexpected {other:?}"),
    }
    assert!(users.find(&pid("alpha"), "alice").is_some());
}

#[test]
fn message_on_channel_without_other_platforms_has_no_target() {
    let channels = linked_channels();
    let mut users: Peers<CoreUser> = Peers::new();
    let msg = inbound("#unrelated", "alice", vec![PlatformMessageSegment::Text("only for beta".to_owned())]);
    let r = relay(&channels, &mut users, &pid("alpha"), &msg).expect("known channel");
    assert!(r.targets.is_empty());
}

#[test]
fn message_on_unknown_channel_is_dropped() {
    let channels = linked_channels();
    let mut users: Peers<CoreUser> = Peers::new();
    let msg = inbound("#nowhere", "alice", vec![]);
    assert!(relay(&channels, &mut users, &pid("alpha"), &msg).is_none());
    assert_eq!(users.len(), 0);
}

#[test]
fn mention_resolved_or_falls_back_to_text() {
    let channels = linked_channels();
    let mut users: Peers<CoreUser> = Peers::new();
    users.upsert(pu("alpha", "bob"));
    users.upsert(pu("beta", "bob"));
    let msg = inbound(
        "#general",
        "alice",
        vec![
            PlatformMessageSegment::Text("hello ".to_owned()),
            PlatformMessageSegment::Mention("bob".to_owned()),
            PlatformMessageSegment::Mention("ghost".to_owned()),
        ],
    );
    let r = relay(&channels, &mut users, &pid("alpha"), &msg).expect("bridged");
    match &r.message.content[..] {
        [CoreMessageSegment::Text(a), CoreMessageSegment::Mention(u), CoreMessageSegment::Text(b)] => {
            assert_eq!(a, "hello ");
            assert_eq!(u.get_platform_user(&pid("beta")).unwrap().id, "bob");
            assert_eq!(b, "@ghost");
        }
        other => panic!("unexpected {other:?}"),
    }
}

#[test]
fn deeply_nested_quotes_truncate() {
    let channels = linked_channels();
    let mut users: Peers<CoreUser> = Peers::new();
    let mut m = inbound("#general", "a5", vec![PlatformMessageSegment::Text("deep".to_owned())]);
    for level in (0..5).rev() {
        m = inbound(
            "#general",
            &format!("a{level}"),
            vec![PlatformMessageSegment::MessageRef(Box::new(m))],
        );
    }
    let r = relay(&channels, &mut users, &pid("alpha"), &m).expect("bridged");
    let mut cursor = &r.message.content;
    for _ in 0..4 {
        match &cursor[..] {
            [CoreMessageSegment::MessageRef(inner)] => cursor = &inner.content,
            other => panic!("expected a quote, got {other:?}"),
        }
    }
    match &cursor[..] {
        [CoreMessageSegment::Text(t)] => assert_eq!(t, "> ..."),
        other => panic!("expected the truncation marker, got {other:?}"),
    }
}

#[test]
fn resolve_or_register_registers_once() {
    let mut users: Peers<CoreUser> = Peers::new();
    let a = resolve_or_register(&mut users, &pid("alpha"), &pu("alpha", "alice"));
    let b = resolve_or_register(&mut users, &pid("alpha"), &pu("alpha", "alice"));
    assert_eq!(users.len(), 1);
    assert_eq!(a.display_name(), b.display_name());
}

#[test]
fn events_update_collections() {
    let mut users: Peers<CoreUser> = Peers::new();
    let mut channels: Peers<CoreChannel> = Peers::new();
    handle_event(&mut users, &mut channels, &MetaEvent::UserJoined { platform: pid("alpha"), user: pu("alpha", "al") });
    handle_event(&mut users, &mut channels, &MetaEvent::UserJoined { platform: pid("beta"), user: pu("beta", "al") });
    assert_eq!(users.len(), 1);
    handle_event(&mut users, &mut channels, &MetaEvent::UserLeft { platform: pid("alpha"), id: "al".to_owned() });
    assert!(users.find(&pid("alpha"), "al").is_none());
    assert!(users.find(&pid("beta"), "al").is_some());
    handle_event(
        &mut users,
        &mut channels,
        &MetaEvent::ChannelCreated { platform: pid("alpha"), channel: pch("alpha", "#x") },
    );
    assert_eq!(channels.len(), 1);
    handle_event(&mut users, &mut channels, &MetaEvent::ChannelDeleted { platform: pid("alpha"), id: "#x".to_owned() });
    assert!(channels.is_empty());
    handle_event(
        &mut users,
        &mut channels,
        &MetaEvent::UsersDiscovered { platform: pid("gamma"), users: vec![pu("gamma", "u1"), pu("gamma", "u2")] },
    );
    assert_eq!(users.len(), 3);
}
