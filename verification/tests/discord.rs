use harmony::channels::{CoreChannel, PlatformChannel};
use harmony::discord::{
    collect_channels, collect_members, discord_to_core, format_mention, format_message_from_core, gateway_event,
    next_page_after, parse_decimal, parse_message, prepare_send, should_relay, to_decimal, DiscordAuthor,
    DiscordChannelInfo, DiscordSendError, GatewayEvent, MEMBERS_PAGE,
};
use harmony::event::MetaEvent;
use harmony::messages::{CoreMessage, CoreMessageSegment, PlatformMessageSegment};
use harmony::peers::Peered;
use harmony::users::{CoreUser, PlatformUser};
use harmony::PlatformId;

fn pid() -> PlatformId {
    PlatformId::new("discord")
}

fn author(id: u64, name: &str) -> DiscordAuthor {
    DiscordAuthor {
        id,
        name: name.to_owned(),
        global_name: None,
        nick: None,
        avatar_url: None,
        bot: false,
    }
}

fn pieces(segs: &[PlatformMessageSegment]) -> Vec<String> {
    segs.iter()
        .map(|s| match s {
            PlatformMessageSegment::Text(t) => format!("T:{t}"),
            PlatformMessageSegment::Mention(m) => format!("M:{m}"),
            PlatformMessageSegment::MessageRef(_) => "R".to_owned(),
        })
        .collect()
}

#[test]
fn discord_mention_format() {
    assert_eq!(format_mention("123"), "<@123>");
}

#[test]
fn parse_message_finds_user_mentions_only() {
    let segs = parse_message("hi <@12> and <@!34>, not <@&56> or <@> or <@7");
    assert_eq!(
        pieces(&segs),
        vec![
            "T:hi ".to_owned(),
            "M:12".to_owned(),
            "T: and ".to_owned(),
            "M:34".to_owned(),
            "T:, not <@&56> or <@> or <@7".to_owned(),
        ]
    );
}

#[test]
fn decimal_round_trip() {
    assert_eq!(to_decimal(0), "0");
    assert_eq!(to_decimal(1234567890123), "1234567890123");
    assert_eq!(to_decimal(u64::MAX), "18446744073709551615");
    assert_eq!(parse_decimal("18446744073709551615"), Some(u64::MAX));
    assert_eq!(parse_decimal("18446744073709551616"), None);
    assert_eq!(parse_decimal("+42"), Some(42));
    assert_eq!(parse_decimal(""), None);
    assert_eq!(parse_decimal("4a"), None);
}

fn channel_with(id: &str) -> CoreChannel {
    CoreChannel::from_single_alias(
        pid(),
        PlatformChannel { platform: pid(), id: id.to_owned(), name: "general".to_owned() },
    )
}

fn user_on(platform: &str, id: &str, name: &str, avatar: Option<&str>) -> CoreUser {
    let p = PlatformId::new(platform);
    CoreUser::from_single_alias(
        p.clone(),
        PlatformUser {
            platform: p,
            id: id.to_owned(),
            display_name: Some(name.to_owned()),
            avatar_url: avatar.map(str::to_owned),
        },
    )
}

#[test]
fn format_message_renders_mentions_and_drops_quotes() {
    let quoted = CoreMessage {
        author: user_on("discord", "1", "q", None),
        channel: channel_with("5"),
        content: vec![CoreMessageSegment::Text("old".to_owned())],
    };
    let m = CoreMessage {
        author: user_on("discord", "1", "a", None),
        channel: channel_with("5"),
        content: vec![
            CoreMessageSegment::MessageRef(Box::new(quoted)),
            CoreMessageSegment::Text("hey ".to_owned()),
            CoreMessageSegment::Mention(user_on("discord", "77", "bob", None)),
        ],
    };
    assert_eq!(format_message_from_core(&pid(), &m), "hey <@77>");
}

#[test]
fn prepare_send_posts_as_author() {
    let m = CoreMessage {
        author: user_on("irc", "al", "alice", Some("http://pic")),
        channel: channel_with("99"),
        content: vec![CoreMessageSegment::Text("hello".to_owned())],
    };
    let post = prepare_send(&pid(), &m).expect("postable");
    assert_eq!(post.channel_id, 99);
    assert_eq!(post.username, "alice");
    assert_eq!(post.avatar_url.as_deref(), Some("http://pic"));
    assert_eq!(post.content, "hello");
}

#[test]
fn prepare_send_errors() {
    let bad_id = CoreMessage {
        author: user_on("irc", "al", "alice", None),
        channel: channel_with("general"),
        content: vec![],
    };
    assert_eq!(prepare_send(&pid(), &bad_id).unwrap_err(), DiscordSendError::InvalidChannelId);
    let irc_only = CoreMessage {
        author: user_on("irc", "al", "alice", None),
        channel: CoreChannel::from_single_alias(
            PlatformId::new("irc"),
            PlatformChannel { platform: PlatformId::new("irc"), id: "#g".to_owned(), name: "#g".to_owned() },
        ),
        content: vec![],
    };
    assert_eq!(prepare_send(&pid(), &irc_only).unwrap_err(), DiscordSendError::NoChannelAlias);
}

#[test]
fn discord_to_core_appends_attachments_and_prefers_nick() {
    let mut a = author(42, "acct");
    a.global_name = Some("Global".to_owned());
    a.nick = Some("Nick".to_owned());
    let m = discord_to_core("look", &vec!["http://x/1.png".to_owned(), "http://x/2.png".to_owned()], &a, 7, &pid());
    assert_eq!(m.author.id, "42");
    assert_eq!(m.author.display_name.as_deref(), Some("Nick"));
    assert_eq!(m.channel.id, "7");
    assert_eq!(pieces(&m.content), vec!["T:look http://x/1.png http://x/2.png".to_owned()]);
    let empty = discord_to_core("", &vec!["u".to_owned()], &author(1, "n"), 2, &pid());
    assert_eq!(pieces(&empty.content), vec!["T:u".to_owned()]);
    assert_eq!(empty.author.display_name.as_deref(), Some("n"));
}

#[test]
fn relay_filter_skips_bots_and_self() {
    assert!(should_relay(1, false, Some(2)));
    assert!(!should_relay(2, false, Some(2)));
    assert!(!should_relay(1, true, None));
    assert!(should_relay(1, false, None));
}

#[test]
fn members_skip_bots_and_duplicates() {
    let mut bot = author(3, "bot");
    bot.bot = true;
    let page = vec![author(1, "a"), bot, author(2, "b"), author(1, "a")];
    let mut seen: Vec<u64> = vec![2];
    let users = collect_members(&pid(), &page, &mut seen);
    let ids: Vec<&str> = users.iter().map(|u| u.id.as_str()).collect();
    assert_eq!(ids, vec!["1"]);
    assert_eq!(seen, vec![2, 1]);
    assert_eq!(next_page_after(&page), None);
    let full: Vec<DiscordAuthor> = (0..MEMBERS_PAGE as u64).map(|i| author(i + 10, "m")).collect();
    assert_eq!(next_page_after(&full), Some(MEMBERS_PAGE as u64 + 9));
    assert_eq!(next_page_after(&Vec::new()), None);
}

#[test]
fn only_text_channels_are_collected() {
    let infos = vec![
        DiscordChannelInfo { id: 1, name: "general".to_owned(), is_text: true },
        DiscordChannelInfo { id: 2, name: "voice".to_owned(), is_text: false },
    ];
    let chs = collect_channels(&pid(), &infos);
    assert_eq!(chs.len(), 1);
    assert_eq!(chs[0].id, "1");
    assert_eq!(chs[0].name, "general");
}

#[test]
fn gateway_events_map_to_lifecycle_events() {
    match gateway_event(&pid(), &GatewayEvent::MemberAdded(author(5, "e"))) {
        Some(MetaEvent::UserJoined { platform, user }) => {
            assert_eq!(platform.as_str(), "discord");
            assert_eq!(user.id, "5");
            assert!(user.display_name.is_none());
        }
        other => panic!("unexpected {other:?}"),
    }
    assert!(gateway_event(&pid(), &GatewayEvent::MemberRemoved { id: 5, bot: true }).is_none());
    match gateway_event(&pid(), &GatewayEvent::MemberRemoved { id: 5, bot: false }) {
        Some(MetaEvent::UserLeft { id, .. }) => assert_eq!(id, "5"),
        other => panic!("unexpected {other:?}"),
    }
    let voice = DiscordChannelInfo { id: 9, name: "v".to_owned(), is_text: false };
    assert!(gateway_event(&pid(), &GatewayEvent::ChannelCreated(voice)).is_none());
    let text = DiscordChannelInfo { id: 9, name: "t".to_owned(), is_text: true };
    match gateway_event(&pid(), &GatewayEvent::ChannelDeleted(text)) {
        Some(MetaEvent::ChannelDeleted { id, .. }) => assert_eq!(id, "9"),
        other => panic!("unexpected {other:?}"),
    }
}

#[test]
fn discord_mention_parses_back_to_the_id() {
    let segs = parse_message(&format_mention("8675309"));
    assert_eq!(pieces(&segs), vec!["M:8675309".to_owned()]);
}

#[test]
fn member_events_carry_the_nickname_alone() {
    let mut a = author(6, "acct");
    a.global_name = Some("Global".to_owned());
    match gateway_event(&pid(), &GatewayEvent::MemberUpdated(a.clone())) {
        Some(MetaEvent::UserUpdated { user, .. }) => assert!(user.display_name.is_none()),
        other => panic!("unexpected {other:?}"),
    }
    a.nick = Some("Nick".to_owned());
    match gateway_event(&pid(), &GatewayEvent::MemberAdded(a)) {
        Some(MetaEvent::UserJoined { user, .. }) => assert_eq!(user.display_name.as_deref(), Some("Nick")),
        other => panic!("unexpected {other:?}"),
    }
}
