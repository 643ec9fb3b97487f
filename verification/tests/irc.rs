use harmony::channels::{CoreChannel, PlatformChannel};
use harmony::irc::{format_mention, format_message_from_core, irc_to_core, parse_message, prepare_send};
use harmony::messages::{CoreMessage, CoreMessageSegment, PlatformMessageSegment};
use harmony::peers::Peered;
use harmony::users::{CoreUser, PlatformUser};
use harmony::PlatformId;

fn pid() -> PlatformId {
    PlatformId::new("irc")
}

fn user(name: &str) -> CoreUser {
    CoreUser::from_single_alias(
        pid(),
        PlatformUser {
            platform: pid(),
            id: name.to_owned(),
            display_name: Some(name.to_owned()),
            avatar_url: None,
        },
    )
}

fn channel() -> CoreChannel {
    CoreChannel::from_single_alias(
        pid(),
        PlatformChannel {
            platform: pid(),
            id: "#test".to_owned(),
            name: "#test".to_owned(),
        },
    )
}

fn msg(author: &str, content: Vec<CoreMessageSegment>) -> CoreMessage {
    CoreMessage {
        author: user(author),
        channel: channel(),
        content,
    }
}

#[test]
fn netiquette_layout_emits_one_privmsg_per_quote_line() {
    let alice = msg("alice", vec![CoreMessageSegment::Text("67 67 67".to_owned())]);
    let bob = msg(
        "bob",
        vec![
            CoreMessageSegment::MessageRef(Box::new(alice)),
            CoreMessageSegment::Text("Haha".to_owned()),
        ],
    );
    let charlie = msg(
        "charlie",
        vec![
            CoreMessageSegment::MessageRef(Box::new(bob)),
            CoreMessageSegment::Text("What am I looking at?".to_owned()),
        ],
    );
    let mine = msg(
        "me",
        vec![
            CoreMessageSegment::MessageRef(Box::new(charlie)),
            CoreMessageSegment::Text("It's a joke".to_owned()),
        ],
    );

    let lines = format_message_from_core(&pid(), "me", &mine);
    assert_eq!(
        lines,
        vec![
            "<me> Quoting @charlie:".to_owned(),
            "<me> > Quoting @bob:".to_owned(),
            "<me> > > Quoting @alice:".to_owned(),
            "<me> > > > 67 67 67".to_owned(),
            "<me> > > Haha".to_owned(),
            "<me> > What am I looking at?".to_owned(),
            "<me> It's a joke".to_owned(),
        ],
    );
}

#[test]
fn ref_only_message_emits_no_trailing_empty_privmsg() {
    let alice = msg("alice", vec![CoreMessageSegment::Text("hi".to_owned())]);
    let mine = msg("me", vec![CoreMessageSegment::MessageRef(Box::new(alice))]);

    let lines = format_message_from_core(&pid(), "me", &mine);
    assert_eq!(lines, vec!["<me> Quoting @alice:".to_owned(), "<me> > hi".to_owned()]);
}

#[test]
fn irc_mention_is_at_sign_and_id() {
    assert_eq!(format_mention("bob"), "@bob");
}

#[test]
fn mention_of_user_without_irc_alias_uses_display_name() {
    let discord = PlatformId::new("discord");
    let carol = CoreUser::from_single_alias(
        discord.clone(),
        PlatformUser {
            platform: discord,
            id: "42".to_owned(),
            display_name: Some("Carol".to_owned()),
            avatar_url: None,
        },
    );
    let m = msg(
        "me",
        vec![
            CoreMessageSegment::Text("hi ".to_owned()),
            CoreMessageSegment::Mention(carol),
        ],
    );
    assert_eq!(format_message_from_core(&pid(), "me", &m), vec!["<me> hi @Carol".to_owned()]);
}

#[test]
fn multi_line_text_gives_one_line_each_and_drops_empty_lines() {
    let m = msg("me", vec![CoreMessageSegment::Text("a\n\nb".to_owned())]);
    assert_eq!(
        format_message_from_core(&pid(), "me", &m),
        vec!["<me> a".to_owned(), "<me> b".to_owned()]
    );
}

#[test]
fn prepare_send_targets_the_channel_alias() {
    let m = msg("alice", vec![CoreMessageSegment::Text("yo".to_owned())]);
    let (ch, lines) = prepare_send(&pid(), &m).expect("channel has an irc alias");
    assert_eq!(ch, "#test");
    assert_eq!(lines, vec!["<alice> yo".to_owned()]);
}

#[test]
fn prepare_send_without_channel_alias_is_a_permanent_send_error() {
    let m = msg("alice", vec![CoreMessageSegment::Text("yo".to_owned())]);
    let err = prepare_send(&PlatformId::new("discord"), &m).unwrap_err();
    assert!(err.is_send_failure());
    assert!(!err.is_temporary());
    assert_eq!(err.message(), "no channel alias for this platform");
}

#[test]
fn parse_message_splits_mentions_after_whitespace() {
    let segs = parse_message("hi @bob and a@b @ @carol");
    let mut out: Vec<String> = Vec::new();
    for s in &segs {
        match s {
            PlatformMessageSegment::Text(t) => out.push(format!("T:{t}")),
            PlatformMessageSegment::Mention(m) => out.push(format!("M:{m}")),
            PlatformMessageSegment::MessageRef(_) => out.push("R".to_owned()),
        }
    }
    assert_eq!(
        out,
        vec![
            "T:hi ".to_owned(),
            "M:bob".to_owned(),
            "T: and a@b @ ".to_owned(),
            "M:carol".to_owned(),
        ]
    );
}

#[test]
fn irc_to_core_uses_nickname_or_unknown() {
    let m = irc_to_core(Some("dave"), "#chan", "hello", &pid());
    assert_eq!(m.author.id, "dave");
    assert_eq!(m.author.display_name.as_deref(), Some("dave"));
    assert_eq!(m.channel.id, "#chan");
    assert_eq!(m.channel.name, "#chan");
    let anon = irc_to_core(None, "#chan", "x", &pid());
    assert_eq!(anon.author.id, "unknown");
}

#[test]
fn irc_mention_parses_back_to_the_nickname() {
    let segs = parse_message(&format_mention("carol_99"));
    match &segs[..] {
        [PlatformMessageSegment::Mention(m)] => assert_eq!(m, "carol_99"),
        other => panic!("unexpected {other:?}"),
    }
}

#[test]
fn a_mention_ends_at_any_ascii_whitespace() {
    let segs = parse_message("@a\t@b");
    let mut out: Vec<String> = Vec::new();
    for s in &segs {
        match s {
            PlatformMessageSegment::Text(t) => out.push(format!("T:{t}")),
            PlatformMessageSegment::Mention(m) => out.push(format!("M:{m}")),
            PlatformMessageSegment::MessageRef(_) => out.push("R".to_owned()),
        }
    }
    assert_eq!(out, vec!["M:a".to_owned(), "T:\t".to_owned(), "M:b".to_owned()]);
}

#[test]
fn nickname_holding_at_sign_round_trips() {
    match &parse_message(&format_mention("a@b"))[..] {
        [PlatformMessageSegment::Mention(m)] => assert_eq!(m, "a@b"),
        other => panic!("unexpected {other:?}"),
    }
}
