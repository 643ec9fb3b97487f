//! Decisions of an IRC session: what each server command means for the
//! bridge (a message to relay, a lifecycle event, or nothing), during
//! discovery and afterwards.

use vstd::prelude::*;

use crate::channels::PlatformChannel;
use crate::event::MetaEvent;
use crate::irc::{irc_message_ok, irc_rope, irc_to_core, unknown_sender};
use crate::messages::{piece_of, PlatformMessage, PlatformMessageSegment};
use crate::platform::PlatformId;
use crate::table::Duplicate;
use crate::text::{
    eq_ignore_ascii_case, eq_ignore_case, insert_sorted, opt_view, split_whitespace,
    strictly_sorted, trim_start_any, trim_start_matches_any, words,
};
use crate::users::PlatformUser;

verus! {

/// A server command, as far as the bridge cares.
#[derive(Debug)]
pub enum IrcCommand {
    Privmsg { source: Option<String>, target: String, text: String },
    /// RPL_NAMREPLY, with its last argument (the names), if any.
    NamesReply { names: Option<String> },
    Join { source: Option<String> },
    Quit { source: Option<String> },
    Nick { source: Option<String>, new_nick: String },
    Other,
}

/// What to do about a server command.
#[derive(Debug)]
pub enum IrcAction {
    /// Relay this message.
    Forward(PlatformMessage),
    /// Report this lifecycle event.
    Event(MetaEvent),
    Nothing,
}

/// The channel-membership prefixes stripped from NAMES entries.
pub open spec fn nick_prefixes() -> Seq<char> {
    seq!['@', '+', '%', '~', '&']
}

fn nick_prefix_chars() -> (r: Vec<char>)
    ensures
        r@ == nick_prefixes(),
{
    let v = vec!['@', '+', '%', '~', '&'];
    assert(v@ =~= nick_prefixes());
    v
}

/// The nicknames of NAMES words: prefixes stripped, the bot itself left out.
pub open spec fn names_nicks(ws: Seq<Seq<char>>, bot: Seq<char>) -> Seq<Seq<char>>
    decreases ws.len(),
{
    if ws.len() == 0 {
        Seq::empty()
    } else {
        let rest = names_nicks(ws.drop_last(), bot);
        let n = trim_start_any(ws.last(), nick_prefixes());
        if eq_ignore_ascii_case(n, bot) {
            rest
        } else {
            rest.push(n)
        }
    }
}

/// `u` is the IRC user `nick`: id and display name are the nickname.
pub open spec fn irc_user_ok(u: PlatformUser, pid: Seq<char>, nick: Seq<char>) -> bool {
    &&& u.platform@ == pid
    &&& u.id@ == nick
    &&& opt_view(u.display_name) == Some(nick)
    &&& u.avatar_url is None
}

/// `users` are the IRC users `nicks`, in order.
pub open spec fn irc_users_ok(users: Seq<PlatformUser>, pid: Seq<char>, nicks: Seq<Seq<char>>) -> bool {
    &&& users.len() == nicks.len()
    &&& forall|i: int| 0 <= i < users.len() ==> irc_user_ok(#[trigger] users[i], pid, nicks[i])
}

/// The IRC user `nick`.
fn irc_user(pid: &PlatformId, nick: &str) -> (r: PlatformUser)
    ensures
        irc_user_ok(r, pid@, nick@),
{
    PlatformUser {
        platform: pid.duplicate(),
        id: nick.to_string(),
        display_name: Some(nick.to_string()),
        avatar_url: None,
    }
}

/// The nicknames in a NAMES reply, other than the bot's.
pub fn names_of(names: &str, bot_nickname: &str) -> (r: Vec<String>)
    ensures
        r@.map_values(|s: String| s@) == names_nicks(words(names@), bot_nickname@),
{
    let ws = split_whitespace(names);
    let ghost wv = words(names@);
    let prefixes = nick_prefix_chars();
    let mut out: Vec<String> = Vec::new();
    let mut i: usize = 0;
    while i < ws.len()
        invariant
            i <= ws@.len(),
            wv == ws@.map_values(|s: String| s@),
            prefixes@ == nick_prefixes(),
            out@.map_values(|s: String| s@) == names_nicks(wv.take(i as int), bot_nickname@),
        decreases ws@.len() - i,
    {
        proof {
            assert(wv.take(i + 1).drop_last() =~= wv.take(i as int));
        }
        let nick = trim_start_matches_any(ws[i].as_str(), &prefixes);
        if !eq_ignore_case(nick.as_str(), bot_nickname) {
            let ghost before = out@.map_values(|s: String| s@);
            out.push(nick);
            assert(out@.map_values(|s: String| s@) =~= before.push(nick@));
        }
        i = i + 1;
    }
    proof {
        assert(wv.take(i as int) =~= wv);
    }
    out
}

/// The IRC users for a list of nicknames.
fn users_of(pid: &PlatformId, nicks: &Vec<String>) -> (r: Vec<PlatformUser>)
    ensures
        irc_users_ok(r@, pid@, nicks@.map_values(|s: String| s@)),
{
    let mut out: Vec<PlatformUser> = Vec::new();
    let mut i: usize = 0;
    while i < nicks.len()
        invariant
            i <= nicks@.len(),
            out@.len() == i,
            forall|j: int| 0 <= j < i ==> irc_user_ok(#[trigger] out@[j], pid@, nicks@[j]@),
        decreases nicks@.len() - i,
    {
        out.push(irc_user(pid, nicks[i].as_str()));
        i = i + 1;
    }
    out
}

/// The view of an optional nickname.
pub open spec fn opt_nick(o: Option<String>) -> Option<Seq<char>> {
    opt_view(o)
}

/// What a server command means once the bridge is running. The bot's own
/// messages are not relayed and its own joins, quits and renames are not
/// reported; a rename of the bot updates `bot_nickname`.
pub open spec fn irc_step_ok(
    pid: Seq<char>,
    bot: Seq<char>,
    new_bot: Seq<char>,
    cmd: IrcCommand,
    r: IrcAction,
) -> bool {
    match cmd {
        IrcCommand::Privmsg { source, target, text } => {
            let nick = match source {
                Some(n) => n@,
                None => unknown_sender(),
            };
            &&& new_bot == bot
            &&& if nick == bot {
                r is Nothing
            } else {
                r matches IrcAction::Forward(m) && irc_message_ok(m, pid, opt_view(source), target@, text@)
            }
        },
        IrcCommand::NamesReply { names } => {
            &&& new_bot == bot
            &&& match names {
                None => r is Nothing,
                Some(n) => {
                    let nicks = names_nicks(words(n@), bot);
                    if nicks.len() == 0 {
                        r is Nothing
                    } else {
                        r matches IrcAction::Event(MetaEvent::UsersDiscovered { platform, users }) && platform@
                            == pid && irc_users_ok(users@, pid, nicks)
                    }
                },
            }
        },
        IrcCommand::Join { source } => {
            &&& new_bot == bot
            &&& match source {
                Some(n) if !eq_ignore_ascii_case(n@, bot) => r matches IrcAction::Event(
                    MetaEvent::UserJoined { platform, user },
                ) && platform@ == pid && irc_user_ok(user, pid, n@),
                _ => r is Nothing,
            }
        },
        IrcCommand::Quit { source } => {
            &&& new_bot == bot
            &&& match source {
                Some(n) if !eq_ignore_ascii_case(n@, bot) => r matches IrcAction::Event(
                    MetaEvent::UserLeft { platform, id },
                ) && platform@ == pid && id@ == n@,
                _ => r is Nothing,
            }
        },
        IrcCommand::Nick { source, new_nick } => match source {
            Some(o) => if eq_ignore_ascii_case(o@, bot) {
                new_bot == new_nick@ && r is Nothing
            } else {
                &&& new_bot == bot
                &&& r matches IrcAction::Event(
                    MetaEvent::UserRenamed { platform, old_id, new_id, new_display_name },
                )
                &&& platform@ == pid
                &&& old_id@ == o@
                &&& new_id@ == new_nick@
                &&& opt_view(new_display_name) == Some(new_nick@)
            },
            None => new_bot == bot && r is Nothing,
        },
        IrcCommand::Other => new_bot == bot && r is Nothing,
    }
}

/// Decides what a server command means once the bridge is running.
pub fn irc_step(pid: &PlatformId, bot_nickname: &mut String, cmd: &IrcCommand) -> (r: IrcAction)
    ensures
        irc_step_ok(pid@, old(bot_nickname)@, final(bot_nickname)@, *cmd, r),
{
    match cmd {
        IrcCommand::Privmsg { source, target, text } => {
            let src = match source {
                Some(s) => Some(s.as_str()),
                None => None,
            };
            let msg = irc_to_core(src, target.as_str(), text.as_str(), pid);
            if msg.author.id == *bot_nickname {
                IrcAction::Nothing
            } else {
                IrcAction::Forward(msg)
            }
        },
        IrcCommand::NamesReply { names } => match names {
            None => IrcAction::Nothing,
            Some(n) => {
                let nicks = names_of(n.as_str(), bot_nickname.as_str());
                let users = users_of(pid, &nicks);
                if users.len() == 0 {
                    IrcAction::Nothing
                } else {
                    IrcAction::Event(MetaEvent::UsersDiscovered { platform: pid.duplicate(), users })
                }
            },
        },
        IrcCommand::Join { source } => match source {
            Some(n) => {
                if eq_ignore_case(n.as_str(), bot_nickname.as_str()) {
                    IrcAction::Nothing
                } else {
                    IrcAction::Event(
                        MetaEvent::UserJoined { platform: pid.duplicate(), user: irc_user(pid, n.as_str()) },
                    )
                }
            },
            None => IrcAction::Nothing,
        },
        IrcCommand::Quit { source } => match source {
            Some(n) => {
                if eq_ignore_case(n.as_str(), bot_nickname.as_str()) {
                    IrcAction::Nothing
                } else {
                    IrcAction::Event(MetaEvent::UserLeft { platform: pid.duplicate(), id: n.clone() })
                }
            },
            None => IrcAction::Nothing,
        },
        IrcCommand::Nick { source, new_nick } => match source {
            Some(o) => {
                if eq_ignore_case(o.as_str(), bot_nickname.as_str()) {
                    *bot_nickname = new_nick.clone();
                    IrcAction::Nothing
                } else {
                    IrcAction::Event(
                        MetaEvent::UserRenamed {
                            platform: pid.duplicate(),
                            old_id: o.clone(),
                            new_id: new_nick.clone(),
                            new_display_name: Some(new_nick.clone()),
                        },
                    )
                }
            },
            None => IrcAction::Nothing,
        },
        IrcCommand::Other => IrcAction::Nothing,
    }
}

pub proof fn lemma_take_push_set<A>(s: Seq<A>, i: int)
    requires
        0 <= i < s.len(),
    ensures
        s.take(i + 1).to_set() == s.take(i).to_set().insert(s[i]),
{
    let t = s.take(i);
    let u = s.take(i + 1);
    assert(u =~= t.push(s[i]));
    assert forall|e: A| u.to_set().contains(e) <==> t.to_set().insert(s[i]).contains(e) by {
        if u.contains(e) {
            let k = choose|k: int| 0 <= k < u.len() && #[trigger] u[k] == e;
            if k < i {
                assert(t[k] == e);
            }
        }
        if t.contains(e) {
            let k = choose|k: int| 0 <= k < t.len() && #[trigger] t[k] == e;
            assert(u[k] == e);
        }
        if e == s[i] {
            assert(u[i] == e);
        }
    }
    assert(u.to_set() =~= t.to_set().insert(s[i]));
}

/// A server command during discovery, as far as the bridge cares.
#[derive(Debug)]
pub enum DiscoveryCommand {
    /// RPL_ENDOFMOTD or ERR_NOMOTD: registration is complete.
    EndOfMotd,
    /// RPL_LIST, with its second argument (the channel), if any.
    ListItem { channel: Option<String> },
    /// RPL_LISTEND.
    ListEnd,
    /// RPL_NAMREPLY, with its last argument (the names), if any.
    NamesReply { names: Option<String> },
    /// PONG, with its second argument (the token), if any.
    Pong { token: Option<String> },
    Other,
}

/// What to do during discovery.
#[derive(Debug)]
pub enum DiscoveryAction {
    /// Ask the server for its channel list.
    SendList,
    /// Join these channels, then send a PING carrying the sentinel token.
    JoinAll(Vec<String>),
    /// Discovery is complete.
    Done,
    Nothing,
}

/// The token of the PING that marks the end of discovery.
pub open spec fn sentinel() -> Seq<char> {
    "harmony-discovery"@
}

/// The token of the PING that marks the end of discovery.
pub fn discovery_sentinel() -> (r: &'static str)
    ensures
        r@ == sentinel(),
{
    "harmony-discovery"
}

/// What discovery has found so far: channel names in listing order, and the
/// distinct nicknames in sorted order.
pub struct Discovery {
    channels: Vec<String>,
    nicknames: Vec<String>,
}

impl Discovery {
    pub closed spec fn channel_names(&self) -> Seq<Seq<char>> {
        self.channels@.map_values(|s: String| s@)
    }

    pub closed spec fn nicknames(&self) -> Seq<Seq<char>> {
        self.nicknames@.map_values(|s: String| s@)
    }

    pub open spec fn wf(&self) -> bool {
        strictly_sorted(self.nicknames())
    }

    /// Both have found the same channels and nicknames.
    pub open spec fn same_as(&self, other: Self) -> bool {
        self.channel_names() == other.channel_names() && self.nicknames() == other.nicknames()
    }

    /// Nothing found yet.
    pub fn new() -> (r: Self)
        ensures
            r.wf(),
            r.channel_names().len() == 0,
            r.nicknames().len() == 0,
    {
        let r = Discovery { channels: Vec::new(), nicknames: Vec::new() };
        assert(r.nicknames() =~= Seq::<Seq<char>>::empty());
        assert(r.channel_names() =~= Seq::<Seq<char>>::empty());
        r
    }

    /// Handles one server command: ask for the list once registered, collect
    /// listed channels, join them all when the list ends, collect nicknames
    /// (other than the bot's) from NAMES replies, and finish on the PONG
    /// answering the sentinel.
    pub fn step(&mut self, bot_nickname: &str, cmd: &DiscoveryCommand) -> (r: DiscoveryAction)
        requires
            old(self).wf(),
        ensures
            final(self).wf(),
            match *cmd {
                DiscoveryCommand::EndOfMotd => r is SendList && final(self).same_as(*old(self)),
                DiscoveryCommand::ListItem { channel } => match channel {
                    Some(c) => r is Nothing && final(self).channel_names() == old(self).channel_names().push(c@)
                        && final(self).nicknames() == old(self).nicknames(),
                    None => r is Nothing && final(self).same_as(*old(self)),
                },
                DiscoveryCommand::ListEnd => r matches DiscoveryAction::JoinAll(chs) && chs@.map_values(
                    |s: String| s@,
                ) == old(self).channel_names() && final(self).same_as(*old(self)),
                DiscoveryCommand::NamesReply { names } => r is Nothing && final(self).channel_names() == old(
                    self,
                ).channel_names() && match names {
                    Some(n) => final(self).nicknames().to_set() == old(self).nicknames().to_set().union(
                        names_nicks(words(n@), bot_nickname@).to_set(),
                    ),
                    None => final(self).nicknames() == old(self).nicknames(),
                },
                DiscoveryCommand::Pong { token } => final(self).same_as(*old(self)) && match token {
                    Some(t) if t@ == sentinel() => r is Done,
                    _ => r is Nothing,
                },
                DiscoveryCommand::Other => r is Nothing && final(self).same_as(*old(self)),
            },
    {
        match cmd {
            DiscoveryCommand::EndOfMotd => DiscoveryAction::SendList,
            DiscoveryCommand::ListItem { channel } => {
                if let Some(c) = channel {
                    let ghost before = self.channel_names();
                    self.channels.push(c.clone());
                    assert(self.channel_names() =~= before.push(c@));
                }
                DiscoveryAction::Nothing
            },
            DiscoveryCommand::ListEnd => {
                let mut chs: Vec<String> = Vec::new();
                let mut i: usize = 0;
                while i < self.channels.len()
                    invariant
                        i <= self.channels@.len(),
                        chs@.map_values(|s: String| s@) == self.channels@.take(i as int).map_values(
                            |s: String| s@,
                        ),
                    decreases self.channels@.len() - i,
                {
                    let ghost before = chs@.map_values(|s: String| s@);
                    assert(self.channels@.take(i + 1).map_values(|s: String| s@) =~= self.channels@.take(
                        i as int,
                    ).map_values(|s: String| s@).push(self.channels@[i as int]@));
                    chs.push(self.channels[i].clone());
                    assert(chs@.map_values(|s: String| s@) =~= self.channels@.take(i + 1).map_values(
                        |s: String| s@,
                    ));
                    i = i + 1;
                }
                assert(self.channels@.take(i as int) =~= self.channels@);
                DiscoveryAction::JoinAll(chs)
            },
            DiscoveryCommand::NamesReply { names } => {
                if let Some(n) = names {
                    let nicks = names_of(n.as_str(), bot_nickname);
                    let ghost nv = nicks@.map_values(|s: String| s@);
                    let ghost start = self.nicknames().to_set();
                    let mut i: usize = 0;
                    while i < nicks.len()
                        invariant
                            i <= nicks@.len(),
                            nv == nicks@.map_values(|s: String| s@),
                            strictly_sorted(self.nicknames()),
                            self.channel_names() == old(self).channel_names(),
                            self.nicknames().to_set() == start.union(nv.take(i as int).to_set()),
                        decreases nicks@.len() - i,
                    {
                        insert_sorted(&mut self.nicknames, nicks[i].clone());
                        proof {
                            lemma_take_push_set(nv, i as int);
                            assert(self.nicknames().to_set() =~= start.union(nv.take(i + 1).to_set()));
                        }
                        i = i + 1;
                    }
                    assert(nv.take(i as int) =~= nv);
                }
                DiscoveryAction::Nothing
            },
            DiscoveryCommand::Pong { token } => match token {
                Some(t) => {
                    if *t == discovery_sentinel().to_string() {
                        DiscoveryAction::Done
                    } else {
                        DiscoveryAction::Nothing
                    }
                },
                None => DiscoveryAction::Nothing,
            },
            DiscoveryCommand::Other => DiscoveryAction::Nothing,
        }
    }

    /// The discovered channels (id and name are the channel name) and users
    /// (one per distinct nickname, sorted by nickname).
    pub fn finish(&self, pid: &PlatformId) -> (r: (Vec<PlatformChannel>, Vec<PlatformUser>))
        ensures
            r.0@.len() == self.channel_names().len(),
            forall|i: int|
                0 <= i < r.0@.len() ==> (#[trigger] r.0@[i]).platform@ == pid@ && r.0@[i].id@
                    == self.channel_names()[i] && r.0@[i].name@ == self.channel_names()[i],
            irc_users_ok(r.1@, pid@, self.nicknames()),
    {
        let mut channels: Vec<PlatformChannel> = Vec::new();
        let mut i: usize = 0;
        while i < self.channels.len()
            invariant
                i <= self.channels@.len(),
                channels@.len() == i,
                forall|j: int|
                    0 <= j < i ==> (#[trigger] channels@[j]).platform@ == pid@ && channels@[j].id@
                        == self.channels@[j]@ && channels@[j].name@ == self.channels@[j]@,
            decreases self.channels@.len() - i,
        {
            channels.push(
                PlatformChannel {
                    platform: pid.duplicate(),
                    id: self.channels[i].clone(),
                    name: self.channels[i].clone(),
                },
            );
            i = i + 1;
        }
        let users = users_of(pid, &self.nicknames);
        (channels, users)
    }
}

/// The bot itself is never among the nicknames taken from NAMES words, in
/// any letter case.
pub proof fn law_names_exclude_bot(ws: Seq<Seq<char>>, bot: Seq<char>)
    ensures
        forall|i: int|
            0 <= i < names_nicks(ws, bot).len() ==> !eq_ignore_ascii_case(#[trigger] names_nicks(ws, bot)[i], bot),
    decreases ws.len(),
{
    if ws.len() > 0 {
        law_names_exclude_bot(ws.drop_last(), bot);
        let rest = names_nicks(ws.drop_last(), bot);
        let t = names_nicks(ws, bot);
        assert forall|i: int| 0 <= i < t.len() implies !eq_ignore_ascii_case(#[trigger] t[i], bot) by {
            if i < rest.len() {
                assert(t[i] == rest[i]);
            }
        }
    }
}

/// A QUIT from anyone but the bot reports that user leaving the IRC
/// platform; the bot's nickname is unchanged.
pub proof fn law_irc_quit_reports_leave(
    pid: Seq<char>,
    bot: Seq<char>,
    new_bot: Seq<char>,
    source: Option<String>,
    r: IrcAction,
)
    requires
        irc_step_ok(pid, bot, new_bot, IrcCommand::Quit { source }, r),
        source matches Some(n) && !eq_ignore_ascii_case(n@, bot),
    ensures
        r matches IrcAction::Event(MetaEvent::UserLeft { platform, id }) && platform@ == pid && id@ == source->0@,
        new_bot == bot,
{
}

/// A JOIN from anyone but the bot reports that user joining, with the
/// nickname as id and display name.
pub proof fn law_irc_join_reports_user(
    pid: Seq<char>,
    bot: Seq<char>,
    new_bot: Seq<char>,
    source: Option<String>,
    r: IrcAction,
)
    requires
        irc_step_ok(pid, bot, new_bot, IrcCommand::Join { source }, r),
        source matches Some(n) && !eq_ignore_ascii_case(n@, bot),
    ensures
        r matches IrcAction::Event(MetaEvent::UserJoined { platform, user }) && platform@ == pid && user.platform@ == pid
            && user.id@ == source->0@ && opt_view(user.display_name) == Some(source->0@),
        new_bot == bot,
{
}

/// The bot's own JOIN, QUIT and messages are never reported or relayed.
pub proof fn law_irc_bot_is_silent(
    pid: Seq<char>,
    bot: Seq<char>,
    new_bot: Seq<char>,
    cmd: IrcCommand,
    r: IrcAction,
)
    requires
        irc_step_ok(pid, bot, new_bot, cmd, r),
        match cmd {
            IrcCommand::Join { source } => source matches Some(n) && eq_ignore_ascii_case(n@, bot),
            IrcCommand::Quit { source } => source matches Some(n) && eq_ignore_ascii_case(n@, bot),
            IrcCommand::Privmsg { source, .. } => source matches Some(n) && n@ == bot,
            _ => false,
        },
    ensures
        r is Nothing,
        new_bot == bot,
{
}

/// A message from anyone else is forwarded: the author is the sender (or
/// `unknown`), the channel is the target, and the content is the parsed
/// text.
pub proof fn law_irc_message_forwarded(
    pid: Seq<char>,
    bot: Seq<char>,
    new_bot: Seq<char>,
    source: Option<String>,
    target: String,
    text: String,
    r: IrcAction,
)
    requires
        irc_step_ok(pid, bot, new_bot, IrcCommand::Privmsg { source, target, text }, r),
        (match source {
            Some(n) => n@,
            None => unknown_sender(),
        }) != bot,
    ensures
        r matches IrcAction::Forward(m) && m.author.id@ == (match source {
            Some(n) => n@,
            None => unknown_sender(),
        }) && m.author.platform@ == pid && m.channel.id@ == target@ && m.channel.platform@ == pid
            && m.content@.map_values(|s: PlatformMessageSegment| piece_of(s)) == irc_rope(text@),
        new_bot == bot,
{
}

/// A NICK change of someone else reports a rename from the old nickname to
/// the new one, shown under the new one; a NICK change of the bot only
/// updates the bot's nickname.
pub proof fn law_irc_nick_change(
    pid: Seq<char>,
    bot: Seq<char>,
    new_bot: Seq<char>,
    o: String,
    new_nick: String,
    r: IrcAction,
)
    requires
        irc_step_ok(pid, bot, new_bot, IrcCommand::Nick { source: Some(o), new_nick }, r),
    ensures
        eq_ignore_ascii_case(o@, bot) ==> r is Nothing && new_bot == new_nick@,
        !eq_ignore_ascii_case(o@, bot) ==> new_bot == bot && (r matches IrcAction::Event(
            MetaEvent::UserRenamed { platform, old_id, new_id, new_display_name },
        ) && platform@ == pid && old_id@ == o@ && new_id@ == new_nick@ && opt_view(new_display_name) == Some(
            new_nick@,
        )),
{
}

} // verus!
