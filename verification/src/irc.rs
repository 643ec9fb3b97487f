//! IRC conventions: mentions, parsing inbound text into a rope, and laying
//! out outbound messages as PRIVMSG lines (netiquette quoting).

use vstd::prelude::*;
use vstd::string::StringExecFns;

use crate::error::{ErrorKind, ErrorStatus, HarmonyError};
use crate::channels::PlatformChannel;
use crate::messages::{
    piece_of, CoreMessage, CoreMessageSegment, Piece, PlatformMessage, PlatformMessageSegment,
};
use crate::table::Duplicate;
use crate::users::PlatformUser;
use crate::platform::PlatformId;
use crate::table::lookup;
use crate::text::{
    chars_of, extend_chars, lines_chars, lines_of, opt_view, split_chars, split_pieces, string_of,
    trim_both, trim_chars,
};
use crate::users::{shown_name, user_display_name, CoreUser};

verus! {

/// How IRC mentions a nickname: `@nick`.
pub open spec fn irc_mention(id: Seq<char>) -> Seq<char> {
    "@"@ + id
}

/// Formats a mention of the IRC user `id`.
pub fn format_mention(id: &str) -> (r: String)
    ensures
        r@ == irc_mention(id@),
{
    let mut s = String::from_str("@");
    s.append(id);
    s
}

/// The name a user is shown under: their best display name, else "unknown".
pub open spec fn name_or_unknown(u: CoreUser) -> Seq<char> {
    match user_display_name(opt_view(u.display_name_override), u.alias@) {
        Some(n) => n,
        None => "unknown"@,
    }
}

/// How a user is referred to on IRC: their nick there if they have an IRC
/// alias, else their display name, as a mention.
pub open spec fn irc_user_ref(pid: Seq<char>, u: CoreUser) -> Seq<char> {
    match lookup(u.alias@, pid) {
        Some(pu) => irc_mention(pu.id@),
        None => irc_mention(name_or_unknown(u)),
    }
}

/// Each line of a quoted body, prefixed by a newline and `"> "`.
pub open spec fn quote_lines(ls: Seq<Seq<char>>) -> Seq<char>
    decreases ls.len(),
{
    if ls.len() == 0 {
        Seq::empty()
    } else {
        quote_lines(ls.drop_last()) + "\n> "@ + ls.last()
    }
}

/// The text of the first `n` segments, before trimming.
pub open spec fn render_segments(pid: Seq<char>, s: Seq<CoreMessageSegment>, n: int) -> Seq<char>
    decreases s, n,
{
    if n <= 0 || n > s.len() {
        Seq::empty()
    } else {
        render_segments(pid, s, n - 1) + render_segment(pid, s[n - 1])
    }
}

/// The text of one segment: text as is, a mention as `@nick`, a quote as a
/// `Quoting @author:` line followed by the quoted text's lines prefixed with
/// `"> "`, each on a line of its own.
pub open spec fn render_segment(pid: Seq<char>, seg: CoreMessageSegment) -> Seq<char>
    decreases seg,
{
    match seg {
        CoreMessageSegment::Text(t) => t@,
        CoreMessageSegment::Mention(u) => irc_user_ref(pid, u),
        CoreMessageSegment::MessageRef(b) => "\nQuoting "@ + irc_user_ref(pid, b.author) + ":"@
            + quote_lines(lines_of(render(pid, *b))) + "\n"@,
    }
}

/// The text of a message as shown on IRC, without leading or trailing
/// newlines.
pub open spec fn render(pid: Seq<char>, m: CoreMessage) -> Seq<char>
    decreases m,
{
    trim_both(render_segments(pid, m.content@, m.content@.len() as int), '\n')
}

/// Appends how IRC refers to `u`.
fn push_user_ref(acc: &mut Vec<char>, pid: &PlatformId, u: &CoreUser)
    ensures
        final(acc)@ == old(acc)@ + irc_user_ref(pid@, *u),
{
    match u.get_platform_user(pid) {
        Some(pu) => {
            let m = format_mention(pu.id.as_str());
            extend_chars(acc, m.as_str());
        },
        None => {
            let name = match u.display_name() {
                Some(n) => n,
                None => "unknown",
            };
            let m = format_mention(name);
            extend_chars(acc, m.as_str());
        },
    }
}

pub proof fn lemma_render_segments_prefix(pid: Seq<char>, s: Seq<CoreMessageSegment>, t: Seq<CoreMessageSegment>, n: int)
    requires
        0 <= n <= t.len(),
        n <= s.len(),
        forall|i: int| 0 <= i < n ==> s[i] == t[i],
    ensures
        render_segments(pid, s, n) == render_segments(pid, t, n),
    decreases n,
{
    if n > 0 {
        lemma_render_segments_prefix(pid, s, t, n - 1);
    }
}

/// The characters of a message as shown on IRC.
fn render_chars(pid: &PlatformId, msg: &CoreMessage) -> (r: Vec<char>)
    ensures
        r@ == render(pid@, *msg),
    decreases msg,
{
    let mut acc: Vec<char> = Vec::new();
    let mut i: usize = 0;
    while i < msg.content.len()
        invariant
            i <= msg.content@.len(),
            acc@ == render_segments(pid@, msg.content@, i as int),
        decreases msg.content@.len() - i,
    {
        let ghost prev = acc@;
        match &msg.content[i] {
            CoreMessageSegment::Text(text) => {
                extend_chars(&mut acc, text.as_str());
            },
            CoreMessageSegment::Mention(user) => {
                push_user_ref(&mut acc, pid, user);
            },
            CoreMessageSegment::MessageRef(inner) => {
                let body = render_chars(pid, inner);
                extend_chars(&mut acc, "\nQuoting ");
                push_user_ref(&mut acc, pid, &inner.author);
                extend_chars(&mut acc, ":");
                let lines = lines_chars(&body);
                let ghost ls = lines_of(body@);
                let ghost start = acc@;
                let mut j: usize = 0;
                while j < lines.len()
                    invariant
                        j <= lines@.len(),
                        ls == lines@.map_values(|v: Vec<char>| v@),
                        acc@ == start + quote_lines(ls.take(j as int)),
                    decreases lines@.len() - j,
                {
                    proof {
                        assert(ls.take(j + 1).drop_last() =~= ls.take(j as int));
                    }
                    extend_chars(&mut acc, "\n> ");
                    let mut line = lines[j].clone();
                    assert(line@ == ls[j as int]);
                    acc.append(&mut line);
                    proof {
                        assert(acc@ =~= start + quote_lines(ls.take(j + 1)));
                    }
                    j = j + 1;
                }
                proof {
                    assert(ls.take(j as int) =~= ls);
                }
                extend_chars(&mut acc, "\n");
                assert(acc@ =~= prev + render_segment(pid@, msg.content@[i as int]));
            },
        }
        assert(acc@ =~= prev + render_segment(pid@, msg.content@[i as int]));
        assert(render_segments(pid@, msg.content@, i + 1) == render_segments(pid@, msg.content@, i as int)
            + render_segment(pid@, msg.content@[i as int]));
        i = i + 1;
    }
    trim_chars(&acc, '\n')
}

/// The text of a message as shown on IRC.
pub fn render_msg(pid: &PlatformId, msg: &CoreMessage) -> (r: String)
    ensures
        r@ == render(pid@, *msg),
{
    let cs = render_chars(pid, msg);
    string_of(&cs, 0, cs.len())
}

/// One PRIVMSG line per non-empty line of text, as `<name> line`.
pub open spec fn privmsg_lines(pieces: Seq<Seq<char>>, name: Seq<char>) -> Seq<Seq<char>>
    decreases pieces.len(),
{
    if pieces.len() == 0 {
        Seq::empty()
    } else {
        let rest = privmsg_lines(pieces.drop_last(), name);
        if pieces.last().len() == 0 {
            rest
        } else {
            rest.push("<"@ + name + "> "@ + pieces.last())
        }
    }
}

/// The PRIVMSG lines for a message: the rendered text split at newlines,
/// empty lines dropped, each line prefixed with `<display_name> `.
pub open spec fn irc_lines(pid: Seq<char>, display_name: Seq<char>, m: CoreMessage) -> Seq<Seq<char>> {
    privmsg_lines(split_pieces(render(pid, m), '\n'), display_name)
}

/// Lays out a message as PRIVMSG lines.
pub fn format_message_from_core(platform_id: &PlatformId, display_name: &str, message: &CoreMessage) -> (r: Vec<String>)
    ensures
        r@.map_values(|s: String| s@) == irc_lines(platform_id@, display_name@, *message),
{
    let text = render_chars(platform_id, message);
    let pieces = split_chars(&text, '\n');
    let ghost p = split_pieces(text@, '\n');
    let mut out: Vec<String> = Vec::new();
    let mut i: usize = 0;
    while i < pieces.len()
        invariant
            i <= pieces@.len(),
            p == pieces@.map_values(|v: Vec<char>| v@),
            out@.map_values(|s: String| s@) == privmsg_lines(p.take(i as int), display_name@),
        decreases pieces@.len() - i,
    {
        proof {
            assert(p.take(i + 1).drop_last() =~= p.take(i as int));
        }
        let piece = &pieces[i];
        assert(piece@ == p[i as int]);
        if piece.len() > 0 {
            let mut line = String::from_str("<");
            line.append(display_name);
            line.append("> ");
            let rest = string_of(piece, 0, piece.len());
            assert(piece@.subrange(0, piece@.len() as int) =~= piece@);
            line.append(rest.as_str());
            let ghost before = out@.map_values(|s: String| s@);
            out.push(line);
            assert(out@.map_values(|s: String| s@) =~= before.push(line@));
        }
        i = i + 1;
    }
    proof {
        assert(p.take(i as int) =~= p);
    }
    out
}

/// What to send on IRC for a message: the target channel's IRC id and the
/// PRIVMSG lines; a permanent send error when the channel has no IRC alias.
pub fn prepare_send(platform_id: &PlatformId, message: &CoreMessage) -> (r: Result<(String, Vec<String>), HarmonyError>)
    ensures
        match lookup(message.channel.alias@, platform_id@) {
            Some(pc) => r matches Ok((channel, lines)) && channel@ == pc.id@ && lines@.map_values(
                |s: String| s@,
            ) == irc_lines(platform_id@, shown_name(platform_id@, message.author), *message),
            None => r matches Err(e) && e@ == (
                ErrorKind::SendFailed,
                ErrorStatus::Permanent,
                "no channel alias for this platform"@,
            ),
        },
{
    let display_name = message.author.shown_name(platform_id);
    let channel = match message.channel.get_platform_channel(platform_id) {
        Some(pc) => pc,
        None => {
            return Err(HarmonyError::send("no channel alias for this platform").permanent());
        },
    };
    let lines = format_message_from_core(platform_id, display_name, message);
    Ok((channel.id.clone(), lines))
}

/// ASCII whitespace (as `u8::is_ascii_whitespace`).
pub open spec fn is_ascii_ws(c: char) -> bool {
    c == ' ' || c == '\t' || c == '\n' || c == '\x0C' || c == '\r'
}

/// The first position at or after `k` holding `c`, or the length.
pub open spec fn next_index_of(t: Seq<char>, k: int, c: char) -> int
    decreases t.len() - k,
{
    if k >= t.len() {
        t.len() as int
    } else if t[k] == c {
        k
    } else {
        next_index_of(t, k + 1, c)
    }
}

/// The first position at or after `k` holding ASCII whitespace, or the
/// length.
pub open spec fn next_ws(t: Seq<char>, k: int) -> int
    decreases t.len() - k,
{
    if k >= t.len() {
        t.len() as int
    } else if is_ascii_ws(t[k]) {
        k
    } else {
        next_ws(t, k + 1)
    }
}

/// Scanning the first `k` characters of an IRC text: an `@` at the start or
/// after ASCII whitespace, and not inside an earlier mention, begins a
/// mention running to the next ASCII whitespace; a mention with an empty
/// nickname is ignored; text between mentions is kept. Yields the position
/// after the last mention and the pieces so far.
pub open spec fn irc_scan(t: Seq<char>, k: int) -> (int, Seq<Piece>)
    decreases k,
{
    if k <= 0 {
        (0, Seq::empty())
    } else {
        let (cursor, rope) = irc_scan(t, k - 1);
        let s = k - 1;
        if s >= cursor && t[s] == '@' && (s == 0 || is_ascii_ws(t[s - 1])) {
            let end = next_ws(t, s);
            let nick = t.subrange(s + 1, end);
            if nick.len() == 0 {
                (cursor, rope)
            } else {
                let rope2 = if cursor < s {
                    rope.push(Piece::Text(t.subrange(cursor, s)))
                } else {
                    rope
                };
                (end, rope2.push(Piece::Mention(nick)))
            }
        } else {
            (cursor, rope)
        }
    }
}

/// The rope of an IRC text: the scanned pieces and the trailing text.
pub open spec fn irc_rope(t: Seq<char>) -> Seq<Piece> {
    let (cursor, rope) = irc_scan(t, t.len() as int);
    if cursor < t.len() {
        rope.push(Piece::Text(t.subrange(cursor, t.len() as int)))
    } else {
        rope
    }
}

pub proof fn lemma_next_index_of(t: Seq<char>, k: int, c: char, e: int)
    requires
        0 <= k <= e <= t.len(),
        forall|j: int| k <= j < e ==> t[j] != c,
        e == t.len() || t[e] == c,
    ensures
        next_index_of(t, k, c) == e,
    decreases e - k,
{
    if k < e {
        lemma_next_index_of(t, k + 1, c, e);
    }
}

pub proof fn lemma_irc_scan_bounds(t: Seq<char>, k: int)
    requires
        0 <= k <= t.len(),
    ensures
        0 <= irc_scan(t, k).0 <= t.len(),
    decreases k,
{
    if k > 0 {
        lemma_irc_scan_bounds(t, k - 1);
        let s = k - 1;
        if t[s] == '@' && (s == 0 || is_ascii_ws(t[s - 1])) {
            lemma_next_ws_bounds(t, s);
        }
    }
}

pub proof fn lemma_next_ws(t: Seq<char>, k: int, e: int)
    requires
        0 <= k <= e <= t.len(),
        forall|j: int| k <= j < e ==> !is_ascii_ws(t[j]),
        e == t.len() || is_ascii_ws(t[e]),
    ensures
        next_ws(t, k) == e,
    decreases e - k,
{
    if k < e {
        lemma_next_ws(t, k + 1, e);
    }
}

pub proof fn lemma_next_ws_bounds(t: Seq<char>, k: int)
    requires
        0 <= k <= t.len(),
    ensures
        k <= next_ws(t, k) <= t.len(),
        forall|j: int| k <= j < next_ws(t, k) ==> !is_ascii_ws(#[trigger] t[j]),
    decreases t.len() - k,
{
    if k < t.len() && !is_ascii_ws(t[k]) {
        lemma_next_ws_bounds(t, k + 1);
    }
}

pub proof fn lemma_next_index_bounds(t: Seq<char>, k: int, c: char)
    requires
        0 <= k <= t.len(),
    ensures
        k <= next_index_of(t, k, c) <= t.len(),
    decreases t.len() - k,
{
    if k < t.len() && t[k] != c {
        lemma_next_index_bounds(t, k + 1, c);
    }
}

/// Parses an IRC message text into a rope: `@word` tokens (at the start or
/// after ASCII whitespace) become mentions of the nickname after `@`, which
/// runs to the next ASCII whitespace.
pub fn parse_message(text: &str) -> (r: Vec<PlatformMessageSegment>)
    ensures
        r@.map_values(|s: PlatformMessageSegment| piece_of(s)) == irc_rope(text@),
{
    let cs = chars_of(text);
    let len = cs.len();
    let mut rope: Vec<PlatformMessageSegment> = Vec::new();
    let mut cursor: usize = 0;
    let mut k: usize = 0;
    while k < len
        invariant
            len == cs@.len(),
            cs@ == text@,
            k <= len,
            cursor <= len,
            irc_scan(cs@, k as int) == (cursor as int, rope@.map_values(|s: PlatformMessageSegment| piece_of(s))),
        decreases len - k,
    {
        let ghost before = rope@.map_values(|s: PlatformMessageSegment| piece_of(s));
        if k >= cursor && cs[k] == '@' && (k == 0 || is_ascii_whitespace(cs[k - 1])) {
            let mut end = k;
            while end < len && !is_ascii_whitespace(cs[end])
                invariant
                    k <= end <= len,
                    len == cs@.len(),
                    forall|j: int| k <= j < end ==> !is_ascii_ws(cs@[j]),
                decreases len - end,
            {
                end = end + 1;
            }
            proof {
                lemma_next_ws(cs@, k as int, end as int);
            }
            if end > k + 1 {
                if cursor < k {
                    rope.push(PlatformMessageSegment::Text(string_of(&cs, cursor, k)));
                }
                rope.push(PlatformMessageSegment::Mention(string_of(&cs, k + 1, end)));
                cursor = end;
            }
        }
        proof {
            lemma_irc_scan_bounds(cs@, k + 1);
            assert(rope@.map_values(|s: PlatformMessageSegment| piece_of(s)) =~= irc_scan(cs@, k + 1).1);
        }
        k = k + 1;
    }
    if cursor < len {
        rope.push(PlatformMessageSegment::Text(string_of(&cs, cursor, len)));
    }
    assert(rope@.map_values(|s: PlatformMessageSegment| piece_of(s)) =~= irc_rope(text@));
    rope
}

/// ASCII whitespace test on a character.
fn is_ascii_whitespace(c: char) -> (r: bool)
    ensures
        r == is_ascii_ws(c),
{
    c == ' ' || c == '\t' || c == '\n' || c == '\x0C' || c == '\r'
}

/// The author name of a message with no known sender.
pub open spec fn unknown_sender() -> Seq<char> {
    "unknown"@
}

/// The inbound message for a PRIVMSG to `channel` with `text` from the
/// sender `source_nickname` (or "unknown").
pub open spec fn irc_message_ok(
    m: PlatformMessage,
    platform_id: Seq<char>,
    source_nickname: Option<Seq<char>>,
    channel: Seq<char>,
    text: Seq<char>,
) -> bool {
    let nick = match source_nickname {
        Some(n) => n,
        None => unknown_sender(),
    };
    &&& m.author.platform@ == platform_id
    &&& m.author.id@ == nick
    &&& opt_view(m.author.display_name) == Some(nick)
    &&& m.author.avatar_url is None
    &&& m.channel.platform@ == platform_id
    &&& m.channel.id@ == channel
    &&& m.channel.name@ == channel
    &&& m.content@.map_values(|s: PlatformMessageSegment| piece_of(s)) == irc_rope(text)
}

/// Converts a PRIVMSG into an inbound message.
pub fn irc_to_core(source_nickname: Option<&str>, channel: &str, text: &str, platform_id: &PlatformId) -> (r: PlatformMessage)
    ensures
        irc_message_ok(
            r,
            platform_id@,
            match source_nickname {
                Some(n) => Some(n@),
                None => None,
            },
            channel@,
            text@,
        ),
{
    let nickname = match source_nickname {
        Some(n) => n.to_string(),
        None => "unknown".to_string(),
    };
    PlatformMessage {
        author: PlatformUser {
            platform: platform_id.duplicate(),
            id: nickname.clone(),
            display_name: Some(nickname),
            avatar_url: None,
        },
        channel: PlatformChannel {
            platform: platform_id.duplicate(),
            id: channel.to_string(),
            name: channel.to_string(),
        },
        content: parse_message(text),
    }
}

proof fn lemma_irc_scan_mention(nick: Seq<char>, k: int)
    requires
        nick.len() > 0,
        forall|i: int| 0 <= i < nick.len() ==> !is_ascii_ws(nick[i]),
        1 <= k <= nick.len() + 1,
    ensures
        irc_scan(irc_mention(nick), k) == ((nick.len() + 1) as int, seq![Piece::Mention(nick)]),
    decreases k,
{
    let t = irc_mention(nick);
    reveal_strlit("@");
    assert(t.len() == nick.len() + 1);
    assert(t[0] == '@');
    assert forall|j: int| 1 <= j < t.len() implies t[j] == nick[j - 1] by {}
    if k == 1 {
        assert(irc_scan(t, 0) == (0int, Seq::<Piece>::empty()));
        assert forall|j: int| 0 <= j < t.len() implies !is_ascii_ws(t[j]) by {
            if j > 0 {
                assert(t[j] == nick[j - 1]);
            }
        }
        lemma_next_ws(t, 0, t.len() as int);
        assert(t.subrange(1, t.len() as int) =~= nick);
        assert(Seq::<Piece>::empty().push(Piece::Mention(nick)) =~= seq![Piece::Mention(nick)]);
    } else {
        lemma_irc_scan_mention(nick, k - 1);
    }
}

/// Parsing an IRC mention gives back the mentioned nickname, for every
/// nickname that is non-empty and holds no ASCII whitespace.
pub proof fn law_irc_mention_round_trip(nick: Seq<char>)
    requires
        nick.len() > 0,
        forall|i: int| 0 <= i < nick.len() ==> !is_ascii_ws(nick[i]),
    ensures
        irc_rope(irc_mention(nick)) == seq![Piece::Mention(nick)],
{
    reveal_strlit("@");
    assert(irc_mention(nick).len() == nick.len() + 1);
    lemma_irc_scan_mention(nick, nick.len() + 1int);
}

/// The text a piece stands for: text as is, a mention as `@` and the
/// nickname.
pub open spec fn piece_text(p: Piece) -> Seq<char> {
    match p {
        Piece::Text(t) => t,
        Piece::Mention(n) => irc_mention(n),
        Piece::Quote => Seq::empty(),
    }
}

/// The text a rope stands for.
pub open spec fn rope_text(r: Seq<Piece>) -> Seq<char>
    decreases r.len(),
{
    if r.len() == 0 {
        Seq::empty()
    } else {
        rope_text(r.drop_last()) + piece_text(r.last())
    }
}

/// Every mention of the rope has a non-empty nickname without ASCII
/// whitespace.
pub open spec fn mentions_are_words(r: Seq<Piece>) -> bool {
    forall|i: int|
        0 <= i < r.len() ==> (#[trigger] r[i] matches Piece::Mention(n) ==> n.len() > 0 && forall|j: int|
            0 <= j < n.len() ==> !is_ascii_ws(n[j]))
}

proof fn lemma_rope_text_push(r: Seq<Piece>, p: Piece)
    ensures
        rope_text(r.push(p)) == rope_text(r) + piece_text(p),
{
    assert(r.push(p).drop_last() =~= r);
}

proof fn lemma_irc_scan_text(t: Seq<char>, k: int)
    requires
        0 <= k <= t.len(),
    ensures
        0 <= irc_scan(t, k).0 <= t.len(),
        rope_text(irc_scan(t, k).1) == t.subrange(0, irc_scan(t, k).0),
        mentions_are_words(irc_scan(t, k).1),
    decreases k,
{
    reveal_strlit("@");
    if k == 0 {
        assert(t.subrange(0, 0) =~= Seq::<char>::empty());
    } else {
        lemma_irc_scan_text(t, k - 1);
        let (cursor, rope) = irc_scan(t, k - 1);
        let s = k - 1;
        if s >= cursor && t[s] == '@' && (s == 0 || is_ascii_ws(t[s - 1])) {
            let end = next_ws(t, s);
            lemma_next_ws_bounds(t, s);
            lemma_next_ws_bounds(t, s + 1);
            assert(!is_ascii_ws(t[s]));
            assert(end == next_ws(t, s + 1));
            let nick = t.subrange(s + 1, end);
            if nick.len() > 0 {
                let rope2 = if cursor < s {
                    rope.push(Piece::Text(t.subrange(cursor, s)))
                } else {
                    rope
                };
                if cursor < s {
                    lemma_rope_text_push(rope, Piece::Text(t.subrange(cursor, s)));
                    assert(t.subrange(0, cursor) + t.subrange(cursor, s) =~= t.subrange(0, s));
                }
                assert(rope_text(rope2) == t.subrange(0, s));
                lemma_rope_text_push(rope2, Piece::Mention(nick));
                let mm = irc_mention(nick);
                assert(mm.len() == nick.len() + 1);
                assert(mm[0] == '@');
                assert forall|i: int| 1 <= i < mm.len() implies mm[i] == nick[i - 1] by {}
                assert(t.subrange(0, s) + mm =~= t.subrange(0, end)) by {
                    let lhs = t.subrange(0, s) + mm;
                    assert forall|i: int| 0 <= i < end implies lhs[i] == t[i] by {
                        if i > s {
                            assert(lhs[i] == mm[i - s]);
                            assert(mm[i - s] == nick[i - s - 1]);
                        }
                    }
                }
                let r3 = rope2.push(Piece::Mention(nick));
                assert forall|i: int| 0 <= i < r3.len() implies (#[trigger] r3[i] matches Piece::Mention(n) ==> n.len()
                    > 0 && forall|j: int| 0 <= j < n.len() ==> !is_ascii_ws(n[j])) by {
                    if i < rope.len() {
                        assert(r3[i] == rope[i]);
                    }
                    if i == r3.len() - 1 {
                        assert forall|j: int| 0 <= j < nick.len() implies !is_ascii_ws(nick[j]) by {
                            assert(nick[j] == t[s + 1 + j]);
                        }
                    }
                }
            }
        }
    }
}

/// Parsing IRC text loses nothing: the pieces, a mention written back as
/// `@` and its nickname, rebuild the text exactly, and every mention is one
/// non-empty word.
pub proof fn law_irc_rope_rebuilds_text(t: Seq<char>)
    ensures
        rope_text(irc_rope(t)) == t,
        mentions_are_words(irc_rope(t)),
{
    lemma_irc_scan_text(t, t.len() as int);
    let (cursor, rope) = irc_scan(t, t.len() as int);
    if cursor < t.len() {
        lemma_rope_text_push(rope, Piece::Text(t.subrange(cursor, t.len() as int)));
        assert(t.subrange(0, cursor) + t.subrange(cursor, t.len() as int) =~= t);
        let r = rope.push(Piece::Text(t.subrange(cursor, t.len() as int)));
        assert forall|i: int| 0 <= i < r.len() implies (#[trigger] r[i] matches Piece::Mention(n) ==> n.len() > 0
            && forall|j: int| 0 <= j < n.len() ==> !is_ascii_ws(n[j])) by {
            if i < rope.len() {
                assert(r[i] == rope[i]);
            }
        }
    } else {
        assert(t.subrange(0, t.len() as int) =~= t);
    }
}

} // verus!
