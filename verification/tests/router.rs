use harmony::args::{Args, Command};
use harmony::config::default_true;
use harmony::fetched::FetchedData;
use harmony::logger::{verbosity_to_level, LogLevel};
use harmony::router::{auto_correlate, normalize_channel_name, ChannelRef};

#[test]
fn normalize_strips_hashes_and_lowercases() {
    assert_eq!(normalize_channel_name("##General"), "general");
    assert_eq!(normalize_channel_name("Chat#1"), "chat#1");
    assert_eq!(normalize_channel_name(""), "");
}

fn cref(p: &str, c: &str) -> ChannelRef {
    ChannelRef { platform: p.to_owned(), channel: c.to_owned() }
}

#[test]
fn auto_correlate_pairs_channels_by_normalized_name() {
    let mut d = FetchedData::new();
    d.upsert_channel("irc", "#general", "#general".to_owned());
    d.upsert_channel("irc", "#irc-only", "#irc-only".to_owned());
    d.upsert_channel("discord", "100", "General".to_owned());
    d.upsert_channel("discord", "200", "random".to_owned());
    let pairs = auto_correlate(&d);
    assert_eq!(pairs, vec![(cref("irc", "#general"), cref("discord", "100"))]);
}

#[test]
fn auto_correlate_later_channel_of_same_name_wins() {
    let mut d = FetchedData::new();
    d.upsert_channel("irc", "#x", "#x".to_owned());
    d.upsert_channel("discord", "1", "x".to_owned());
    d.upsert_channel("discord", "2", "X".to_owned());
    d.upsert_channel("slack", "s", "#X".to_owned());
    let pairs = auto_correlate(&d);
    assert_eq!(
        pairs,
        vec![
            (cref("irc", "#x"), cref("discord", "2")),
            (cref("irc", "#x"), cref("slack", "s")),
            (cref("discord", "1"), cref("slack", "s")),
            (cref("discord", "2"), cref("slack", "s")),
        ]
    );
}

#[test]
fn verbosity_levels() {
    assert_eq!(verbosity_to_level(0), LogLevel::Info);
    assert_eq!(verbosity_to_level(1), LogLevel::Debug);
    assert_eq!(verbosity_to_level(2), LogLevel::Trace);
    assert_eq!(verbosity_to_level(9), LogLevel::Trace);
}

#[test]
fn tls_defaults_on_and_args_hold_values() {
    assert!(default_true());
    let a = Args { config: None, log_path: None, verbose: 0, command: Some(Command::Fetch) };
    assert_eq!(a.command, Some(Command::Fetch));
}

use harmony::config::resolve_paths;

#[test]
fn resolve_paths_from_config_argument_or_runtime_dir() {
    assert_eq!(
        resolve_paths(Some("a/b/config.toml".to_owned()), Some("ignored".to_owned())),
        ("a/b".to_owned(), "a/b/config.toml".to_owned())
    );
    assert_eq!(resolve_paths(Some("config.toml".to_owned()), None), ("".to_owned(), "config.toml".to_owned()));
    assert_eq!(resolve_paths(Some("".to_owned()), None), (".".to_owned(), "".to_owned()));
    assert_eq!(resolve_paths(None, None), ("runtime".to_owned(), "runtime/config.toml".to_owned()));
    assert_eq!(resolve_paths(None, Some("x/".to_owned())), ("x/".to_owned(), "x/config.toml".to_owned()));
    assert_eq!(resolve_paths(None, Some("".to_owned())), ("".to_owned(), "config.toml".to_owned()));
}

#[test]
fn users_and_channels_are_peer_collections() {
    let users: harmony::users::Users = harmony::peers::Peers::new();
    let channels: harmony::channels::Channels = harmony::peers::Peers::new();
    assert!(users.is_empty() && channels.is_empty());
}
