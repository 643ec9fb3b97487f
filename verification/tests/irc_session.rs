use harmony::event::MetaEvent;
use harmony::irc_fetch::{FetchAction, FetchCommand, ListFetch};
use harmony::irc_session::{irc_step, names_of, Discovery, DiscoveryAction, DiscoveryCommand, IrcAction, IrcCommand};
use harmony::PlatformId;

fn pid() -> PlatformId {
    PlatformId::new("irc")
}

#[test]
fn names_strip_prefixes_and_skip_bot() {
    assert_eq!(names_of("@op +voice Bot %half ~own &adm plain", "bot"), vec!["op", "voice", "half", "own", "adm", "plain"]);
}

#[test]
fn privmsg_is_forwarded_and_nick_changes_follow_the_bot() {
    let mut bot = "bridge".to_owned();
    match irc_step(&pid(), &mut bot, &IrcCommand::Privmsg { source: Some("al".to_owned()), target: "#c".to_owned(), text: "hi".to_owned() }) {
        IrcAction::Forward(m) => {
            assert_eq!(m.author.id, "al");
            assert_eq!(m.channel.id, "#c");
        }
        other => panic!("unexpected {other:?}"),
    }
    match irc_step(&pid(), &mut bot, &IrcCommand::Nick { source: Some("bridge".to_owned()), new_nick: "bridge2".to_owned() }) {
        IrcAction::Nothing => {}
        other => panic!("unexpected {other:?}"),
    }
    assert_eq!(bot, "bridge2");
    match irc_step(&pid(), &mut bot, &IrcCommand::Nick { source: Some("al".to_owned()), new_nick: "ally".to_owned() }) {
        IrcAction::Event(MetaEvent::UserRenamed { old_id, new_id, .. }) => {
            assert_eq!(old_id, "al");
            assert_eq!(new_id, "ally");
        }
        other => panic!("unexpected {other:?}"),
    }
}

#[test]
fn discovery_lists_joins_collects_and_finishes() {
    let mut d = Discovery::new();
    assert!(matches!(d.step("bot", &DiscoveryCommand::EndOfMotd), DiscoveryAction::SendList));
    d.step("bot", &DiscoveryCommand::ListItem { channel: Some("#a".to_owned()) });
    d.step("bot", &DiscoveryCommand::ListItem { channel: Some("#b".to_owned()) });
    match d.step("bot", &DiscoveryCommand::ListEnd) {
        DiscoveryAction::JoinAll(chs) => assert_eq!(chs, vec!["#a", "#b"]),
        other => panic!("unexpected {other:?}"),
    }
    d.step("bot", &DiscoveryCommand::NamesReply { names: Some("@zed bot amy".to_owned()) });
    d.step("bot", &DiscoveryCommand::NamesReply { names: Some("amy +bob".to_owned()) });
    assert!(matches!(d.step("bot", &DiscoveryCommand::Pong { token: Some("other".to_owned()) }), DiscoveryAction::Nothing));
    assert!(matches!(
        d.step("bot", &DiscoveryCommand::Pong { token: Some("harmony-discovery".to_owned()) }),
        DiscoveryAction::Done
    ));
    let (channels, users) = d.finish(&pid());
    let chs: Vec<&str> = channels.iter().map(|c| c.id.as_str()).collect();
    assert_eq!(chs, vec!["#a", "#b"]);
    let nicks: Vec<&str> = users.iter().map(|u| u.id.as_str()).collect();
    assert_eq!(nicks, vec!["amy", "bob", "zed"]);
}

#[test]
fn list_fetch_counts_names_queries_down() {
    let mut f = ListFetch::new();
    assert!(matches!(f.step("bot", &FetchCommand::EndOfMotd), FetchAction::SendList));
    f.step("bot", &FetchCommand::NamesReply { names: Some("early".to_owned()) });
    f.step("bot", &FetchCommand::ListItem { channel: Some("#a".to_owned()) });
    f.step("bot", &FetchCommand::ListItem { channel: Some("#b".to_owned()) });
    match f.step("bot", &FetchCommand::ListEnd) {
        FetchAction::SendNames(chs) => assert_eq!(chs, vec!["#a", "#b"]),
        other => panic!("unexpected {other:?}"),
    }
    f.step("bot", &FetchCommand::NamesReply { names: Some("@zed BOT amy".to_owned()) });
    assert!(matches!(f.step("bot", &FetchCommand::EndOfNames), FetchAction::Nothing));
    f.step("bot", &FetchCommand::NamesReply { names: Some("amy".to_owned()) });
    assert!(matches!(f.step("bot", &FetchCommand::EndOfNames), FetchAction::Done));
    let (channels, users) = f.finish();
    let chs: Vec<(&str, &str)> = channels.iter().map(|c| (c.id.as_str(), c.name.as_str())).collect();
    assert_eq!(chs, vec![("#a", "#a"), ("#b", "#b")]);
    let names: Vec<&str> = users.iter().map(|u| u.name.as_str()).collect();
    assert_eq!(names, vec!["amy", "zed"]);
    assert_eq!(users[0].id.as_deref(), Some("amy"));
}

#[test]
fn list_fetch_with_no_channels_is_done_at_list_end() {
    let mut f = ListFetch::new();
    assert!(matches!(f.step("bot", &FetchCommand::EndOfNames), FetchAction::Nothing));
    assert!(matches!(f.step("bot", &FetchCommand::ListEnd), FetchAction::Done));
}
