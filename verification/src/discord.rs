//! Discord conventions: mentions, parsing inbound text into a rope, the text
//! and identity of outbound webhook messages, and what gateway data means for
//! the bridge.

use vstd::prelude::*;
use vstd::string::StringExecFns;

use crate::channels::PlatformChannel;
use crate::messages::{piece_of, CoreMessage, CoreMessageSegment, Piece, PlatformMessage, PlatformMessageSegment};
use crate::platform::PlatformId;
use crate::irc::next_index_of;
use crate::table::{lookup, Duplicate};
use crate::text::{chars_of, extend_chars, opt_view, push_char, string_of};
use crate::event::MetaEvent;
use crate::users::{shown_avatar, shown_name, CoreUser, PlatformUser};

verus! {

/// How Discord mentions a user id: `<@id>`.
pub open spec fn discord_mention(id: Seq<char>) -> Seq<char> {
    "<@"@ + id + ">"@
}

/// Formats a mention of the Discord user `id`.
pub fn format_mention(id: &str) -> (r: String)
    ensures
        r@ == discord_mention(id@),
{
    let mut s = String::from_str("<@");
    s.append(id);
    s.append(">");
    s
}

/// Scanning the first `k` characters of a Discord text: `<@id>`, `<@!id>`
/// are mentions of `id`; role mentions `<@&id>`, empty ids and an unclosed
/// `<@` are left as text. Yields the position after the last mention and the
/// pieces so far.
pub open spec fn discord_scan(t: Seq<char>, k: int) -> (int, Seq<Piece>)
    decreases k,
{
    if k <= 0 {
        (0, Seq::empty())
    } else {
        let (cursor, rope) = discord_scan(t, k - 1);
        let s = k - 1;
        if s + 1 < t.len() && t[s] == '<' && t[s + 1] == '@' {
            let close = next_index_of(t, s, '>');
            if close >= t.len() {
                (cursor, rope)
            } else {
                let raw = t.subrange(s + 2, close);
                if raw.len() > 0 && raw[0] == '&' {
                    (cursor, rope)
                } else {
                    let inner = if raw.len() > 0 && raw[0] == '!' {
                        raw.drop_first()
                    } else {
                        raw
                    };
                    if inner.len() == 0 {
                        (cursor, rope)
                    } else {
                        let rope2 = if cursor < s {
                            rope.push(Piece::Text(t.subrange(cursor, s)))
                        } else {
                            rope
                        };
                        (close + 1, rope2.push(Piece::Mention(inner)))
                    }
                }
            }
        } else {
            (cursor, rope)
        }
    }
}

/// The rope of a Discord text: the scanned pieces and the trailing text.
pub open spec fn discord_rope(t: Seq<char>) -> Seq<Piece> {
    let (cursor, rope) = discord_scan(t, t.len() as int);
    if cursor < t.len() {
        rope.push(Piece::Text(t.subrange(cursor, t.len() as int)))
    } else {
        rope
    }
}

pub proof fn lemma_discord_scan_bounds(t: Seq<char>, k: int)
    requires
        0 <= k <= t.len(),
    ensures
        0 <= discord_scan(t, k).0 <= t.len(),
    decreases k,
{
    if k > 0 {
        lemma_discord_scan_bounds(t, k - 1);
        let s = k - 1;
        if s + 1 < t.len() && t[s] == '<' && t[s + 1] == '@' {
            crate::irc::lemma_next_index_bounds(t, s, '>');
        }
    }
}

/// Parses a Discord message text into a rope of text and user mentions.
pub fn parse_message(text: &str) -> (r: Vec<PlatformMessageSegment>)
    ensures
        r@.map_values(|s: PlatformMessageSegment| piece_of(s)) == discord_rope(text@),
{
    let cs = chars_of(text);
    let len = cs.len();
    let mut rope: Vec<PlatformMessageSegment> = Vec::new();
    let mut cursor: usize = 0;
    let mut k: usize = 0;
    while k < len
        invariant
            len == cs@.len(),
            cs@ == text@,
            k <= len,
            cursor <= len,
            discord_scan(cs@, k as int) == (cursor as int, rope@.map_values(|s: PlatformMessageSegment| piece_of(s))),
        decreases len - k,
    {
        if k + 1 < len && cs[k] == '<' && cs[k + 1] == '@' {
            let mut close = k;
            while close < len && cs[close] != '>'
                invariant
                    k <= close <= len,
                    len == cs@.len(),
                    forall|j: int| k <= j < close ==> cs@[j] != '>',
                decreases len - close,
            {
                close = close + 1;
            }
            proof {
                crate::irc::lemma_next_index_of(cs@, k as int, '>', close as int);
            }
            if close < len {
                let raw_start = k + 2;
                if !(raw_start < close && cs[raw_start] == '&') {
                    let start = if raw_start < close && cs[raw_start] == '!' {
                        raw_start + 1
                    } else {
                        raw_start
                    };
                    proof {
                        let raw = cs@.subrange(k + 2, close as int);
                        if raw.len() > 0 && raw[0] == '!' {
                            assert(raw.drop_first() =~= cs@.subrange(start as int, close as int));
                        } else {
                            assert(raw =~= cs@.subrange(start as int, close as int));
                        }
                    }
                    if start < close {
                        if cursor < k {
                            rope.push(PlatformMessageSegment::Text(string_of(&cs, cursor, k)));
                        }
                        rope.push(PlatformMessageSegment::Mention(string_of(&cs, start, close)));
                        cursor = close + 1;
                    }
                }
            }
        }
        proof {
            lemma_discord_scan_bounds(cs@, k + 1);
            assert(rope@.map_values(|s: PlatformMessageSegment| piece_of(s)) =~= discord_scan(cs@, k + 1).1);
        }
        k = k + 1;
    }
    if cursor < len {
        rope.push(PlatformMessageSegment::Text(string_of(&cs, cursor, len)));
    }
    assert(rope@.map_values(|s: PlatformMessageSegment| piece_of(s)) =~= discord_rope(text@));
    rope
}

/// The character of a decimal digit.
pub open spec fn digit_char(d: nat) -> char {
    if d == 0 {
        '0'
    } else if d == 1 {
        '1'
    } else if d == 2 {
        '2'
    } else if d == 3 {
        '3'
    } else if d == 4 {
        '4'
    } else if d == 5 {
        '5'
    } else if d == 6 {
        '6'
    } else if d == 7 {
        '7'
    } else if d == 8 {
        '8'
    } else {
        '9'
    }
}

/// The value of a decimal digit character.
pub open spec fn digit_value(c: char) -> nat {
    if c == '1' {
        1
    } else if c == '2' {
        2
    } else if c == '3' {
        3
    } else if c == '4' {
        4
    } else if c == '5' {
        5
    } else if c == '6' {
        6
    } else if c == '7' {
        7
    } else if c == '8' {
        8
    } else if c == '9' {
        9
    } else {
        0
    }
}

pub open spec fn is_digit(c: char) -> bool {
    '0' <= c <= '9'
}

/// The decimal representation of `n` (as `u64::to_string`).
pub open spec fn decimal(n: nat) -> Seq<char>
    decreases n,
{
    if n < 10 {
        seq![digit_char(n)]
    } else {
        decimal(n / 10).push(digit_char(n % 10))
    }
}

fn digit(d: u64) -> (r: char)
    requires
        d < 10,
    ensures
        r == digit_char(d as nat),
{
    if d == 0 {
        '0'
    } else if d == 1 {
        '1'
    } else if d == 2 {
        '2'
    } else if d == 3 {
        '3'
    } else if d == 4 {
        '4'
    } else if d == 5 {
        '5'
    } else if d == 6 {
        '6'
    } else if d == 7 {
        '7'
    } else if d == 8 {
        '8'
    } else {
        '9'
    }
}

fn decimal_chars(n: u64) -> (r: Vec<char>)
    ensures
        r@ == decimal(n as nat),
    decreases n,
{
    if n < 10 {
        let v = vec![digit(n)];
        assert(v@ =~= decimal(n as nat));
        v
    } else {
        let mut v = decimal_chars(n / 10);
        v.push(digit(n % 10));
        v
    }
}

/// The decimal representation of `n`.
pub fn to_decimal(n: u64) -> (r: String)
    ensures
        r@ == decimal(n as nat),
{
    let cs = decimal_chars(n);
    let r = string_of(&cs, 0, cs.len());
    assert(cs@.subrange(0, cs@.len() as int) =~= cs@);
    r
}

/// The value of a sequence of decimal digits.
pub open spec fn digits_value(s: Seq<char>) -> nat
    decreases s.len(),
{
    if s.len() == 0 {
        0
    } else {
        digits_value(s.drop_last()) * 10 + digit_value(s.last())
    }
}

/// Whether every character is a decimal digit.
pub open spec fn all_digits(d: Seq<char>) -> bool {
    forall|i: int| 0 <= i < d.len() ==> is_digit(#[trigger] d[i])
}

/// `s` without one leading `+`.
pub open spec fn strip_plus(s: Seq<char>) -> Seq<char> {
    if s.len() > 0 && s[0] == '+' {
        s.drop_first()
    } else {
        s
    }
}

/// The value of a non-empty run of digits, if it fits in a `u64`.
pub open spec fn parse_digits(d: Seq<char>) -> Option<u64> {
    if d.len() > 0 && all_digits(d) && digits_value(d) <= u64::MAX {
        Some(digits_value(d) as u64)
    } else {
        None
    }
}

/// What `str::parse::<u64>` gives: an optional `+`, then at least one digit
/// and nothing else, with a value that fits.
pub open spec fn parse_u64(s: Seq<char>) -> Option<u64> {
    parse_digits(strip_plus(s))
}

pub proof fn lemma_digits_value_grows(d: Seq<char>, i: int, j: int)
    requires
        0 <= i <= j <= d.len(),
    ensures
        digits_value(d.take(i)) <= digits_value(d.take(j)),
    decreases j - i,
{
    if i < j {
        lemma_digits_value_grows(d, i, j - 1);
        assert(d.take(j).drop_last() =~= d.take(j - 1));
    }
}

fn digit_of(c: char) -> (r: u64)
    requires
        is_digit(c),
    ensures
        r == digit_value(c),
        r < 10,
{
    if c == '1' {
        1
    } else if c == '2' {
        2
    } else if c == '3' {
        3
    } else if c == '4' {
        4
    } else if c == '5' {
        5
    } else if c == '6' {
        6
    } else if c == '7' {
        7
    } else if c == '8' {
        8
    } else if c == '9' {
        9
    } else {
        0
    }
}

/// Parses a decimal `u64`.
pub fn parse_decimal(s: &str) -> (r: Option<u64>)
    ensures
        r == parse_u64(s@),
{
    let cs = chars_of(s);
    let start: usize = if cs.len() > 0 && cs[0] == '+' {
        1
    } else {
        0
    };
    let ghost d = strip_plus(s@);
    assert(d =~= cs@.subrange(start as int, cs@.len() as int));
    if start == cs.len() {
        return None;
    }
    let mut acc: u64 = 0;
    let mut i: usize = start;
    while i < cs.len()
        invariant
            start <= i <= cs@.len(),
            cs@ == s@,
            d == cs@.subrange(start as int, cs@.len() as int),
            d == strip_plus(s@),
            forall|j: int| 0 <= j < i - start ==> is_digit(#[trigger] d[j]),
            acc as nat == digits_value(d.take(i - start)),
        decreases cs@.len() - i,
    {
        let c = cs[i];
        assert(c == d[i - start]);
        if !('0' <= c && c <= '9') {
            proof {
                assert(!is_digit(d[i - start]));
                assert(!all_digits(d));
            }
            return None;
        }
        let v = digit_of(c);
        assert(d.take(i - start + 1).drop_last() =~= d.take(i - start));
        if acc > (u64::MAX - v) / 10 {
            proof {
                assert(d.take(i - start + 1).last() == c);
                assert(digits_value(d.take(i - start + 1)) == acc * 10 + v);
                assert(acc * 10 + v > u64::MAX) by (nonlinear_arith)
                    requires
                        acc > (u64::MAX - v) / 10,
                        v < 10,
                ;
                lemma_digits_value_grows(d, i - start + 1, d.len() as int);
                assert(d.take(d.len() as int) =~= d);
                assert(digits_value(d) > u64::MAX);
            }
            return None;
        }
        proof {
            assert(acc * 10 + v <= u64::MAX) by (nonlinear_arith)
                requires
                    acc <= (u64::MAX - v) / 10,
                    v < 10,
            ;
        }
        acc = acc * 10 + v;
        assert(d.take(i - start + 1).last() == c);
        i = i + 1;
    }
    assert(d.take(d.len() as int) =~= d);
    Some(acc)
}

/// The text of the first `n` segments on Discord: text as is, a mention as
/// `<@id>` of the user's Discord alias; quoted messages are not shown.
pub open spec fn discord_text(pid: Seq<char>, s: Seq<CoreMessageSegment>, n: int) -> Seq<char>
    decreases n,
{
    if n <= 0 || n > s.len() {
        Seq::empty()
    } else {
        discord_text(pid, s, n - 1) + match s[n - 1] {
            CoreMessageSegment::Text(t) => t@,
            CoreMessageSegment::Mention(u) => discord_mention(lookup(u.alias@, pid)->0.id@),
            CoreMessageSegment::MessageRef(_) => Seq::empty(),
        }
    }
}

/// Every mentioned user has an alias on `pid`.
pub open spec fn mentions_resolvable(pid: Seq<char>, s: Seq<CoreMessageSegment>) -> bool {
    forall|i: int|
        0 <= i < s.len() ==> (#[trigger] s[i] matches CoreMessageSegment::Mention(u) ==> lookup(
            u.alias@,
            pid,
        ) is Some)
}

/// The text of an outbound message on Discord.
pub fn format_message_from_core(platform_id: &PlatformId, message: &CoreMessage) -> (r: String)
    requires
        mentions_resolvable(platform_id@, message.content@),
    ensures
        r@ == discord_text(platform_id@, message.content@, message.content@.len() as int),
{
    let mut result = String::new();
    let mut i: usize = 0;
    while i < message.content.len()
        invariant
            i <= message.content@.len(),
            mentions_resolvable(platform_id@, message.content@),
            result@ == discord_text(platform_id@, message.content@, i as int),
        decreases message.content@.len() - i,
    {
        match &message.content[i] {
            CoreMessageSegment::Text(text) => {
                result.append(text.as_str());
            },
            CoreMessageSegment::Mention(core_user) => {
                assert(message.content@[i as int] matches CoreMessageSegment::Mention(u) && u == *core_user);
                let platform_user = core_user.get_platform_user(platform_id).unwrap();
                let m = format_mention(platform_user.id.as_str());
                result.append(m.as_str());
            },
            CoreMessageSegment::MessageRef(_) => {
                assert(result@ =~= result@ + Seq::<char>::empty());
            },
        }
        i = i + 1;
    }
    result
}

/// What a webhook post needs.
#[derive(Debug)]
pub struct DiscordPost {
    pub channel_id: u64,
    pub username: String,
    pub avatar_url: Option<String>,
    pub content: String,
}

/// Why a message cannot be posted.
#[derive(Debug, PartialEq, Eq, Structural)]
pub enum DiscordSendError {
    /// The channel has no Discord alias.
    NoChannelAlias,
    /// The channel's Discord id is not a number.
    InvalidChannelId,
}

/// What to post on Discord for a message: to the channel's Discord alias
/// (whose id must be a number), under the author's name and avatar there.
pub fn prepare_send(platform_id: &PlatformId, message: &CoreMessage) -> (r: Result<DiscordPost, DiscordSendError>)
    requires
        mentions_resolvable(platform_id@, message.content@),
    ensures
        match lookup(message.channel.alias@, platform_id@) {
            None => r == Err::<DiscordPost, DiscordSendError>(DiscordSendError::NoChannelAlias),
            Some(pc) => match parse_u64(pc.id@) {
                None => r == Err::<DiscordPost, DiscordSendError>(DiscordSendError::InvalidChannelId),
                Some(id) => r matches Ok(post) && post.channel_id == id && post.username@ == shown_name(
                    platform_id@,
                    message.author,
                ) && opt_view(post.avatar_url) == shown_avatar(platform_id@, message.author)
                    && post.content@ == discord_text(platform_id@, message.content@, message.content@.len() as int),
            },
        },
{
    let channel = match message.channel.get_platform_channel(platform_id) {
        Some(pc) => pc,
        None => {
            return Err(DiscordSendError::NoChannelAlias);
        },
    };
    let channel_id = match parse_decimal(channel.id.as_str()) {
        Some(id) => id,
        None => {
            return Err(DiscordSendError::InvalidChannelId);
        },
    };
    let username = message.author.shown_name(platform_id).to_string();
    let avatar_url = match message.author.shown_avatar(platform_id) {
        Some(a) => Some(a.to_string()),
        None => None,
    };
    let content = format_message_from_core(platform_id, message);
    Ok(DiscordPost { channel_id, username, avatar_url, content })
}

/// A Discord user as the gateway or the HTTP API describes them (with the
/// guild nickname, when known).
#[derive(Debug, Clone)]
pub struct DiscordAuthor {
    pub id: u64,
    pub name: String,
    pub global_name: Option<String>,
    pub nick: Option<String>,
    pub avatar_url: Option<String>,
    pub bot: bool,
}

/// A guild channel.
#[derive(Debug, Clone)]
pub struct DiscordChannelInfo {
    pub id: u64,
    pub name: String,
    pub is_text: bool,
}

/// The name a Discord user goes by: guild nickname, else global name, else
/// user name.
pub open spec fn member_display_name(a: DiscordAuthor) -> Seq<char> {
    match a.nick {
        Some(n) => n@,
        None => match a.global_name {
            Some(g) => g@,
            None => a.name@,
        },
    }
}

/// `u` is the platform user for the Discord user `a`.
pub open spec fn discord_user_ok(u: PlatformUser, pid: Seq<char>, a: DiscordAuthor) -> bool {
    &&& u.platform@ == pid
    &&& u.id@ == decimal(a.id as nat)
    &&& opt_view(u.display_name) == Some(member_display_name(a))
    &&& opt_view(u.avatar_url) == opt_view(a.avatar_url)
}

/// The platform user for a Discord user.
pub fn discord_user(pid: &PlatformId, a: &DiscordAuthor) -> (r: PlatformUser)
    ensures
        discord_user_ok(r, pid@, *a),
{
    let display_name = match &a.nick {
        Some(n) => n.clone(),
        None => match &a.global_name {
            Some(g) => g.clone(),
            None => a.name.clone(),
        },
    };
    PlatformUser {
        platform: pid.duplicate(),
        id: to_decimal(a.id),
        display_name: Some(display_name),
        avatar_url: a.avatar_url.duplicate(),
    }
}

/// `u` is the platform user a member event reports for `a`: the display
/// name is the guild nickname alone.
pub open spec fn member_event_user_ok(u: PlatformUser, pid: Seq<char>, a: DiscordAuthor) -> bool {
    &&& u.platform@ == pid
    &&& u.id@ == decimal(a.id as nat)
    &&& opt_view(u.display_name) == opt_view(a.nick)
    &&& opt_view(u.avatar_url) == opt_view(a.avatar_url)
}

/// The platform user a member event reports: its display name is the guild
/// nickname, if any.
pub fn member_event_user(pid: &PlatformId, a: &DiscordAuthor) -> (r: PlatformUser)
    ensures
        member_event_user_ok(r, pid@, *a),
{
    PlatformUser {
        platform: pid.duplicate(),
        id: to_decimal(a.id),
        display_name: a.nick.duplicate(),
        avatar_url: a.avatar_url.duplicate(),
    }
}

/// A message's content followed by its attachments' URLs, separated by
/// spaces.
pub open spec fn with_attachments(content: Seq<char>, urls: Seq<Seq<char>>) -> Seq<char>
    decreases urls.len(),
{
    if urls.len() == 0 {
        content
    } else {
        let c = with_attachments(content, urls.drop_last());
        (if c.len() > 0 {
            c + " "@
        } else {
            c
        }) + urls.last()
    }
}

/// The inbound message for a Discord message.
pub open spec fn discord_message_ok(
    m: PlatformMessage,
    pid: Seq<char>,
    content: Seq<char>,
    urls: Seq<Seq<char>>,
    author: DiscordAuthor,
    channel_id: u64,
) -> bool {
    &&& discord_user_ok(m.author, pid, author)
    &&& m.channel.platform@ == pid
    &&& m.channel.id@ == decimal(channel_id as nat)
    &&& m.channel.name@ == decimal(channel_id as nat)
    &&& m.content@.map_values(|s: PlatformMessageSegment| piece_of(s)) == discord_rope(
        with_attachments(content, urls),
    )
}

/// Converts a Discord message into an inbound message: attachments are
/// appended to the text as URLs.
pub fn discord_to_core(
    content: &str,
    attachment_urls: &Vec<String>,
    author: &DiscordAuthor,
    channel_id: u64,
    platform_id: &PlatformId,
) -> (r: PlatformMessage)
    ensures
        discord_message_ok(
            r,
            platform_id@,
            content@,
            attachment_urls@.map_values(|u: String| u@),
            *author,
            channel_id,
        ),
{
    let ghost urls = attachment_urls@.map_values(|u: String| u@);
    let mut text = content.to_string();
    let mut i: usize = 0;
    while i < attachment_urls.len()
        invariant
            i <= attachment_urls@.len(),
            urls == attachment_urls@.map_values(|u: String| u@),
            text@ == with_attachments(content@, urls.take(i as int)),
        decreases attachment_urls@.len() - i,
    {
        proof {
            assert(urls.take(i + 1).drop_last() =~= urls.take(i as int));
        }
        if !text.as_str().is_empty() {
            text.append(" ");
        }
        text.append(attachment_urls[i].as_str());
        i = i + 1;
    }
    proof {
        assert(urls.take(i as int) =~= urls);
    }
    let channel = to_decimal(channel_id);
    PlatformMessage {
        author: discord_user(platform_id, author),
        channel: PlatformChannel { platform: platform_id.duplicate(), id: channel.clone(), name: channel },
        content: parse_message(text.as_str()),
    }
}

/// The members of a page that become users: not bots, not seen before
/// (`seen` grows by their ids).
pub open spec fn members_scan(members: Seq<DiscordAuthor>, seen: Seq<u64>, k: int) -> (Seq<u64>, Seq<DiscordAuthor>)
    decreases k,
{
    if k <= 0 {
        (seen, Seq::empty())
    } else {
        let (s, picked) = members_scan(members, seen, k - 1);
        let m = members[k - 1];
        if m.bot || s.contains(m.id) {
            (s, picked)
        } else {
            (s.push(m.id), picked.push(m))
        }
    }
}

/// The users for a page of guild members, skipping bots and members already
/// seen.
pub fn collect_members(pid: &PlatformId, members: &Vec<DiscordAuthor>, seen: &mut Vec<u64>) -> (r: Vec<PlatformUser>)
    ensures
        ({
            let (s, picked) = members_scan(members@, old(seen)@, members@.len() as int);
            &&& final(seen)@ == s
            &&& r@.len() == picked.len()
            &&& forall|i: int| 0 <= i < r@.len() ==> discord_user_ok(#[trigger] r@[i], pid@, picked[i])
        }),
{
    let mut users: Vec<PlatformUser> = Vec::new();
    let ghost picked: Seq<DiscordAuthor> = Seq::empty();
    let mut i: usize = 0;
    while i < members.len()
        invariant
            i <= members@.len(),
            members_scan(members@, old(seen)@, i as int) == (seen@, picked),
            users@.len() == picked.len(),
            forall|j: int| 0 <= j < users@.len() ==> discord_user_ok(#[trigger] users@[j], pid@, picked[j]),
        decreases members@.len() - i,
    {
        let m = &members[i];
        let mut known = false;
        let mut j: usize = 0;
        while j < seen.len()
            invariant
                j <= seen@.len(),
                known == (exists|k: int| 0 <= k < j && seen@[k] == m.id),
            decreases seen@.len() - j,
        {
            if seen[j] == m.id {
                known = true;
            }
            j = j + 1;
        }
        if !(m.bot || known) {
            seen.push(m.id);
            users.push(discord_user(pid, m));
            proof {
                picked = picked.push(*m);
            }
        }
        i = i + 1;
    }
    users
}

/// Members are fetched in pages of this many.
pub const MEMBERS_PAGE: usize = 1000;

/// After a page of members: the id to continue after, or `None` when the
/// page was the last (empty or short).
pub fn next_page_after(members: &Vec<DiscordAuthor>) -> (r: Option<u64>)
    ensures
        r == (if members@.len() == 0 || members@.len() < MEMBERS_PAGE {
            None
        } else {
            Some(members@.last().id)
        }),
{
    if members.len() == 0 || members.len() < MEMBERS_PAGE {
        None
    } else {
        Some(members[members.len() - 1].id)
    }
}

/// `c` is the platform channel for the Discord channel `info`.
pub open spec fn discord_channel_ok(c: PlatformChannel, pid: Seq<char>, info: DiscordChannelInfo) -> bool {
    &&& c.platform@ == pid
    &&& c.id@ == decimal(info.id as nat)
    &&& c.name@ == info.name@
}

/// The platform channel for a Discord channel.
pub fn discord_channel(pid: &PlatformId, info: &DiscordChannelInfo) -> (r: PlatformChannel)
    ensures
        discord_channel_ok(r, pid@, *info),
{
    PlatformChannel { platform: pid.duplicate(), id: to_decimal(info.id), name: info.name.clone() }
}

/// The text channels among `infos`, in order.
pub open spec fn text_channels(infos: Seq<DiscordChannelInfo>) -> Seq<DiscordChannelInfo>
    decreases infos.len(),
{
    if infos.len() == 0 {
        Seq::empty()
    } else if infos.last().is_text {
        text_channels(infos.drop_last()).push(infos.last())
    } else {
        text_channels(infos.drop_last())
    }
}

/// The platform channels for the text channels of a guild.
pub fn collect_channels(pid: &PlatformId, infos: &Vec<DiscordChannelInfo>) -> (r: Vec<PlatformChannel>)
    ensures
        r@.len() == text_channels(infos@).len(),
        forall|i: int| 0 <= i < r@.len() ==> discord_channel_ok(#[trigger] r@[i], pid@, text_channels(infos@)[i]),
{
    let mut out: Vec<PlatformChannel> = Vec::new();
    let mut i: usize = 0;
    while i < infos.len()
        invariant
            i <= infos@.len(),
            out@.len() == text_channels(infos@.take(i as int)).len(),
            forall|j: int|
                0 <= j < out@.len() ==> discord_channel_ok(#[trigger] out@[j], pid@, text_channels(infos@.take(i as int))[j]),
        decreases infos@.len() - i,
    {
        proof {
            assert(infos@.take(i + 1).drop_last() =~= infos@.take(i as int));
        }
        if infos[i].is_text {
            out.push(discord_channel(pid, &infos[i]));
        }
        i = i + 1;
    }
    proof {
        assert(infos@.take(i as int) =~= infos@);
    }
    out
}

/// How the bridge logs in to Discord, and which user it is (so that its own
/// messages are not relayed back).
#[derive(Debug)]
pub struct DiscordConfig {
    pub token: String,
    pub bot_user_id: Option<u64>,
}

/// Whether a Discord message is relayed: not from the bot itself, nor from
/// any bot.
pub fn should_relay(author_id: u64, author_is_bot: bool, bot_user_id: Option<u64>) -> (r: bool)
    ensures
        r == !(bot_user_id == Some(author_id) || author_is_bot),
{
    let is_self = match bot_user_id {
        Some(b) => author_id == b,
        None => false,
    };
    !(is_self || author_is_bot)
}

/// A gateway event about guild members or channels.
#[derive(Debug)]
pub enum GatewayEvent {
    MemberAdded(DiscordAuthor),
    MemberRemoved { id: u64, bot: bool },
    MemberUpdated(DiscordAuthor),
    ChannelCreated(DiscordChannelInfo),
    ChannelDeleted(DiscordChannelInfo),
    ChannelUpdated(DiscordChannelInfo),
}

/// The lifecycle event for a gateway event: bots and non-text channels are
/// ignored; a member joining or changing is reported with its guild
/// nickname as display name.
pub open spec fn gateway_event_ok(pid: Seq<char>, ev: GatewayEvent, r: Option<MetaEvent>) -> bool {
    match ev {
        GatewayEvent::MemberAdded(a) => if a.bot {
            r is None
        } else {
            r matches Some(MetaEvent::UserJoined { platform, user }) && platform@ == pid && member_event_user_ok(
                user,
                pid,
                a,
            )
        },
        GatewayEvent::MemberUpdated(a) => if a.bot {
            r is None
        } else {
            r matches Some(MetaEvent::UserUpdated { platform, user }) && platform@ == pid && member_event_user_ok(
                user,
                pid,
                a,
            )
        },
        GatewayEvent::MemberRemoved { id, bot } => if bot {
            r is None
        } else {
            r matches Some(MetaEvent::UserLeft { platform, id: uid }) && platform@ == pid && uid@ == decimal(
                id as nat,
            )
        },
        GatewayEvent::ChannelCreated(c) => if !c.is_text {
            r is None
        } else {
            r matches Some(MetaEvent::ChannelCreated { platform, channel }) && platform@ == pid
                && discord_channel_ok(channel, pid, c)
        },
        GatewayEvent::ChannelUpdated(c) => if !c.is_text {
            r is None
        } else {
            r matches Some(MetaEvent::ChannelUpdated { platform, channel }) && platform@ == pid
                && discord_channel_ok(channel, pid, c)
        },
        GatewayEvent::ChannelDeleted(c) => if !c.is_text {
            r is None
        } else {
            r matches Some(MetaEvent::ChannelDeleted { platform, id }) && platform@ == pid && id@ == decimal(
                c.id as nat,
            )
        },
    }
}

/// The lifecycle event for a gateway event, if any.
pub fn gateway_event(pid: &PlatformId, ev: &GatewayEvent) -> (r: Option<MetaEvent>)
    ensures
        gateway_event_ok(pid@, *ev, r),
{
    match ev {
        GatewayEvent::MemberAdded(a) => {
            if a.bot {
                None
            } else {
                Some(MetaEvent::UserJoined { platform: pid.duplicate(), user: member_event_user(pid, a) })
            }
        },
        GatewayEvent::MemberUpdated(a) => {
            if a.bot {
                None
            } else {
                Some(MetaEvent::UserUpdated { platform: pid.duplicate(), user: member_event_user(pid, a) })
            }
        },
        GatewayEvent::MemberRemoved { id, bot } => {
            if *bot {
                None
            } else {
                Some(MetaEvent::UserLeft { platform: pid.duplicate(), id: to_decimal(*id) })
            }
        },
        GatewayEvent::ChannelCreated(c) => {
            if !c.is_text {
                None
            } else {
                Some(MetaEvent::ChannelCreated { platform: pid.duplicate(), channel: discord_channel(pid, c) })
            }
        },
        GatewayEvent::ChannelUpdated(c) => {
            if !c.is_text {
                None
            } else {
                Some(MetaEvent::ChannelUpdated { platform: pid.duplicate(), channel: discord_channel(pid, c) })
            }
        },
        GatewayEvent::ChannelDeleted(c) => {
            if !c.is_text {
                None
            } else {
                Some(MetaEvent::ChannelDeleted { platform: pid.duplicate(), id: to_decimal(c.id) })
            }
        },
    }
}

proof fn lemma_discord_scan_mention(id: Seq<char>, k: int)
    requires
        id.len() > 0,
        id[0] != '&',
        id[0] != '!',
        forall|i: int| 0 <= i < id.len() ==> id[i] != '<' && id[i] != '>',
        1 <= k <= id.len() + 3,
    ensures
        discord_scan(discord_mention(id), k) == ((id.len() + 3) as int, seq![Piece::Mention(id)]),
    decreases k,
{
    let t = discord_mention(id);
    reveal_strlit("<@");
    reveal_strlit(">");
    assert(t.len() == id.len() + 3);
    assert(t[0] == '<');
    assert(t[1] == '@');
    assert(t[t.len() - 1] == '>');
    assert forall|j: int| 2 <= j < t.len() - 1 implies t[j] == id[j - 2] by {}
    if k == 1 {
        assert(discord_scan(t, 0) == (0int, Seq::<Piece>::empty()));
        crate::irc::lemma_next_index_of(t, 0, '>', t.len() - 1);
        assert(t.subrange(2, t.len() - 1) =~= id);
        assert(Seq::<Piece>::empty().push(Piece::Mention(id)) =~= seq![Piece::Mention(id)]);
    } else {
        lemma_discord_scan_mention(id, k - 1);
        let s = k - 1;
        assert(!(t[s] == '<' && s + 1 < t.len() && t[s + 1] == '@')) by {
            if s >= 2 && s < t.len() - 1 {
                assert(t[s] == id[s - 2]);
            }
        }
    }
}

/// Parsing a Discord mention gives back the mentioned id, for every id that
/// is non-empty, holds no `<` and no `>`, and does not start with the role
/// (`&`) or nickname (`!`) marker.
pub proof fn law_discord_mention_round_trip(id: Seq<char>)
    requires
        id.len() > 0,
        id[0] != '&',
        id[0] != '!',
        forall|i: int| 0 <= i < id.len() ==> id[i] != '<' && id[i] != '>',
    ensures
        discord_rope(discord_mention(id)) == seq![Piece::Mention(id)],
{
    reveal_strlit("<@");
    reveal_strlit(">");
    assert(discord_mention(id).len() == id.len() + 3);
    lemma_discord_scan_mention(id, id.len() + 3int);
}

proof fn lemma_decimal(n: nat)
    ensures
        decimal(n).len() > 0,
        all_digits(decimal(n)),
        digits_value(decimal(n)) == n,
        decimal(n)[0] != '+',
    decreases n,
{
    let d = decimal(n);
    if n >= 10 {
        lemma_decimal(n / 10);
        let r = n % 10;
        assert(d.drop_last() =~= decimal(n / 10));
        assert(d[0] == decimal(n / 10)[0]);
        assert(d.last() == digit_char(r));
        assert(digit_value(digit_char(r)) == r);
        assert(digits_value(d) == digits_value(decimal(n / 10)) * 10 + digit_value(d.last()));
        assert((n / 10) * 10 + n % 10 == n) by (nonlinear_arith);
    } else {
        assert(d.drop_last() =~= Seq::<char>::empty());
        assert(digits_value(d.drop_last()) == 0);
        assert(digit_value(digit_char(n)) == n);
        assert(digits_value(d) == digits_value(d.drop_last()) * 10 + digit_value(d.last()));
    }
}

/// Reading back the decimal representation of a number gives the number.
pub proof fn law_decimal_round_trip(n: u64)
    ensures
        parse_u64(decimal(n as nat)) == Some(n),
{
    lemma_decimal(n as nat);
}

/// The name a Discord user goes by on the other platforms: the guild
/// nickname when there is one, else the global name when there is one, else
/// the account name; and the user's id reads back as its Discord id.
pub proof fn law_discord_display_name(u: PlatformUser, pid: Seq<char>, a: DiscordAuthor)
    requires
        discord_user_ok(u, pid, a),
    ensures
        a.nick matches Some(n) ==> opt_view(u.display_name) == Some(n@),
        a.nick is None && a.global_name is Some ==> opt_view(u.display_name) == Some(a.global_name->0@),
        a.nick is None && a.global_name is None ==> opt_view(u.display_name) == Some(a.name@),
        parse_u64(u.id@) == Some(a.id),
        u.platform@ == pid,
{
    law_decimal_round_trip(a.id);
}

/// A member joining or changing is reported with its guild nickname alone
/// as display name, and an id that reads back as its Discord id.
pub proof fn law_member_event_display_name(u: PlatformUser, pid: Seq<char>, a: DiscordAuthor)
    requires
        member_event_user_ok(u, pid, a),
    ensures
        opt_view(u.display_name) == opt_view(a.nick),
        parse_u64(u.id@) == Some(a.id),
        u.platform@ == pid,
{
    law_decimal_round_trip(a.id);
}

} // verus!
