# Harmony

Harmony relays chat messages between IRC and Discord. Channels and users of
the two platforms are correlated into cross-platform entities (by channel
name, and by lowercased display name), mentions are carried over, quoted
messages are laid out as quotes on IRC (Discord shows only the replying
text), and lifecycle events (joins, leaves, renames, channel changes)
keep the entities up to date.

## Layout

- `src/` — the library, verified with Verus:
  - `table.rs`: an association list with unique keys (the map of the library);
  - `peers.rs`, `users.rs`, `channels.rs`: cross-platform entities, their
    index and auto-correlation, with the laws of upsert, detach and rename;
  - `messages.rs`, `relay.rs`, `event.rs`: converting inbound messages,
    routing them, applying lifecycle events;
  - `irc.rs`, `irc_session.rs`, `irc_fetch.rs`: IRC mentions, message layout,
    and the decisions of an IRC session (discovery, fetching, the live stream);
  - `discord.rs`: Discord mentions, webhook posts, member paging, gateway
    events;
  - `fetched.rs`, `fetch_events.rs`, `profiles.rs`, `router.rs`: the cache of
    fetched channels and users, user profiles, channel matching;
  - `error.rs`, `config.rs`, `args.rs`, `logger.rs`, `text.rs`, `platform.rs`.
- `app/` — the program: command line, configuration file, logging, and the
  IRC and Discord connections, which hand every decision to the library.
- `tests/` — tests of the library.
