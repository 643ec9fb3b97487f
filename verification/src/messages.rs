//! Message types for platform-to-core and core-to-platform communication,
//! and the conversion of an inbound platform message into a core message.

use vstd::prelude::*;
use vstd::string::StringExecFns;

use crate::channels::{CoreChannel, PlatformChannel};
use crate::peers::{model_find, peer_view, Peered, PeerView, Peers, PeersModel};
use crate::platform::PlatformId;
use crate::table::Duplicate;
use crate::users::{CoreUser, PlatformUser};

verus! {

/// A message as produced by a platform adapter (inbound to core).
#[derive(Debug)]
pub struct PlatformMessage {
    pub author: PlatformUser,
    pub channel: PlatformChannel,
    pub content: Vec<PlatformMessageSegment>,
}

/// A segment of an inbound message.
#[derive(Debug)]
pub enum PlatformMessageSegment {
    Text(String),
    /// The platform-specific id of the mentioned user.
    Mention(String),
    /// A quoted (replied-to) message.
    MessageRef(Box<PlatformMessage>),
}

/// The abstract value of an inbound segment as produced by a parser.
pub enum Piece {
    Text(Seq<char>),
    Mention(Seq<char>),
    Quote,
}

pub open spec fn piece_of(s: PlatformMessageSegment) -> Piece {
    match s {
        PlatformMessageSegment::Text(t) => Piece::Text(t@),
        PlatformMessageSegment::Mention(m) => Piece::Mention(m@),
        PlatformMessageSegment::MessageRef(_) => Piece::Quote,
    }
}

/// A message as sent from core to a platform adapter (outbound).
#[derive(Debug)]
pub struct CoreMessage {
    pub author: CoreUser,
    pub channel: CoreChannel,
    pub content: Vec<CoreMessageSegment>,
}

/// A segment of an outbound message.
#[derive(Debug)]
pub enum CoreMessageSegment {
    Text(String),
    Mention(CoreUser),
    MessageRef(Box<CoreMessage>),
}

/// The abstract value of an outbound message.
pub struct CoreMessageView {
    pub author: PeerView<PlatformUser>,
    pub channel: PeerView<PlatformChannel>,
    pub content: Seq<CoreSegmentView>,
}

/// The abstract value of an outbound segment.
pub enum CoreSegmentView {
    Text(Seq<char>),
    Mention(PeerView<PlatformUser>),
    MessageRef(CoreMessageView),
}

pub open spec fn core_message_view(m: CoreMessage) -> CoreMessageView
    decreases m,
{
    CoreMessageView {
        author: peer_view(m.author),
        channel: peer_view(m.channel),
        content: core_segments_view(m.content@, m.content@.len() as int),
    }
}

/// The views of the first `n` segments of `s`.
pub open spec fn core_segments_view(s: Seq<CoreMessageSegment>, n: int) -> Seq<CoreSegmentView>
    decreases s, n,
{
    if n <= 0 || n > s.len() {
        Seq::empty()
    } else {
        core_segments_view(s, n - 1).push(core_segment_view(s[n - 1]))
    }
}

pub open spec fn core_segment_view(s: CoreMessageSegment) -> CoreSegmentView
    decreases s,
{
    match s {
        CoreMessageSegment::Text(t) => CoreSegmentView::Text(t@),
        CoreMessageSegment::Mention(u) => CoreSegmentView::Mention(peer_view(u)),
        CoreMessageSegment::MessageRef(b) => CoreSegmentView::MessageRef(core_message_view(*b)),
    }
}

/// Quoted messages are kept down to this quote level; deeper ones are
/// replaced by a truncation marker.
pub const MAX_QUOTE_LEVEL: usize = 4;

/// The marker that replaces a quote nested deeper than `MAX_QUOTE_LEVEL`.
pub open spec fn truncation_marker() -> Seq<char> {
    "> ..."@
}

/// A user as referenced from an inbound message: the known entity, or a
/// one-alias entity made up from the platform user.
pub open spec fn resolve_user_view(users: PeersModel<PlatformUser>, source: Seq<char>, u: PlatformUser) -> PeerView<PlatformUser> {
    match model_find(users, source, u.id@) {
        Some(v) => v,
        None => PeerView { aliases: seq![(source, u)], overrides: CoreUser::fresh_overrides() },
    }
}

/// A channel as referenced from an inbound message: the known entity, or a
/// one-alias entity made up from the platform channel.
pub open spec fn resolve_channel_view(
    channels: PeersModel<PlatformChannel>,
    source: Seq<char>,
    c: PlatformChannel,
) -> PeerView<PlatformChannel> {
    match model_find(channels, source, c.id@) {
        Some(v) => v,
        None => PeerView { aliases: seq![(source, c)], overrides: CoreChannel::fresh_overrides() },
    }
}

/// The conversion of the first `n` segments of a message at quote `level`:
/// text is kept; a mention of a known user becomes a mention of the entity,
/// of an unknown one the text `@id`; a quote becomes a converted quote down to
/// `MAX_QUOTE_LEVEL`, below which it becomes the truncation marker.
pub open spec fn convert_segments(
    users: PeersModel<PlatformUser>,
    channels: PeersModel<PlatformChannel>,
    source: Seq<char>,
    s: Seq<PlatformMessageSegment>,
    level: nat,
    n: int,
) -> Seq<CoreSegmentView>
    decreases 5 - level, 1int, n,
{
    if n <= 0 || n > s.len() || level > 4 {
        Seq::empty()
    } else {
        let seg = match s[n - 1] {
            PlatformMessageSegment::Text(t) => CoreSegmentView::Text(t@),
            PlatformMessageSegment::Mention(id) => match model_find(users, source, id@) {
                Some(v) => CoreSegmentView::Mention(v),
                None => CoreSegmentView::Text("@"@ + id@),
            },
            PlatformMessageSegment::MessageRef(inner) => if level + 1 <= 4 {
                CoreSegmentView::MessageRef(convert_quote(users, channels, source, *inner, level + 1))
            } else {
                CoreSegmentView::Text(truncation_marker())
            },
        };
        convert_segments(users, channels, source, s, level, n - 1).push(seg)
    }
}

/// The conversion of a quoted message at quote `level`.
pub open spec fn convert_quote(
    users: PeersModel<PlatformUser>,
    channels: PeersModel<PlatformChannel>,
    source: Seq<char>,
    m: PlatformMessage,
    level: nat,
) -> CoreMessageView
    decreases 5 - level, 2int, 0int,
{
    CoreMessageView {
        author: resolve_user_view(users, source, m.author),
        channel: resolve_channel_view(channels, source, m.channel),
        content: convert_segments(users, channels, source, m.content@, level, m.content@.len() as int),
    }
}

/// The user entity for a reference found in a message, or a made-up one.
fn resolve_user(users: &Peers<CoreUser>, source: &PlatformId, u: &PlatformUser) -> (r: CoreUser)
    requires
        users.wf(),
    ensures
        peer_view(r) == resolve_user_view(users.model(), source@, *u),
{
    match users.find(source, u.id.as_str()) {
        Some(core) => core.duplicate_peer(),
        None => CoreUser::from_single_alias(source.duplicate(), u.duplicate()),
    }
}

/// The channel entity for a reference found in a message, or a made-up one.
fn resolve_channel(channels: &Peers<CoreChannel>, source: &PlatformId, c: &PlatformChannel) -> (r: CoreChannel)
    requires
        channels.wf(),
    ensures
        peer_view(r) == resolve_channel_view(channels.model(), source@, *c),
{
    match channels.find(source, c.id.as_str()) {
        Some(core) => core.duplicate_peer(),
        None => CoreChannel::from_single_alias(source.duplicate(), c.duplicate()),
    }
}

/// Converts the segments of an inbound message at quote `level`.
pub fn convert_content(
    users: &Peers<CoreUser>,
    channels: &Peers<CoreChannel>,
    source: &PlatformId,
    content: &Vec<PlatformMessageSegment>,
    level: usize,
) -> (r: Vec<CoreMessageSegment>)
    requires
        users.wf(),
        channels.wf(),
        level <= 4,
    ensures
        core_segments_view(r@, r@.len() as int) == convert_segments(
            users.model(),
            channels.model(),
            source@,
            content@,
            level as nat,
            content@.len() as int,
        ),
    decreases 5 - level, 1int, content@.len(),
{
    let mut out: Vec<CoreMessageSegment> = Vec::new();
    let mut i: usize = 0;
    while i < content.len()
        invariant
            users.wf(),
            channels.wf(),
            level <= 4,
            i <= content@.len(),
            out@.len() == i,
            core_segments_view(out@, i as int) == convert_segments(
                users.model(),
                channels.model(),
                source@,
                content@,
                level as nat,
                i as int,
            ),
        decreases content@.len() - i,
    {
        let seg = match &content[i] {
            PlatformMessageSegment::Text(t) => CoreMessageSegment::Text(t.clone()),
            PlatformMessageSegment::Mention(id) => match users.find(source, id.as_str()) {
                Some(core) => CoreMessageSegment::Mention(core.duplicate_peer()),
                None => {
                    let mut text = String::from_str("@");
                    text.append(id.as_str());
                    CoreMessageSegment::Text(text)
                },
            },
            PlatformMessageSegment::MessageRef(inner) => {
                if level + 1 <= MAX_QUOTE_LEVEL {
                    CoreMessageSegment::MessageRef(
                        Box::new(convert_quote_message(users, channels, source, inner, level + 1)),
                    )
                } else {
                    CoreMessageSegment::Text(String::from_str("> ..."))
                }
            },
        };
        let ghost before = out@;
        out.push(seg);
        proof {
            assert(out@.drop_last() == before);
            lemma_segments_view_push(before, seg);
        }
        i = i + 1;
    }
    out
}

/// Converts a quoted message at quote `level`.
fn convert_quote_message(
    users: &Peers<CoreUser>,
    channels: &Peers<CoreChannel>,
    source: &PlatformId,
    m: &PlatformMessage,
    level: usize,
) -> (r: CoreMessage)
    requires
        users.wf(),
        channels.wf(),
        level <= 4,
    ensures
        core_message_view(r) == convert_quote(users.model(), channels.model(), source@, *m, level as nat),
    decreases 5 - level, 2int, 0int,
{
    CoreMessage {
        author: resolve_user(users, source, &m.author),
        channel: resolve_channel(channels, source, &m.channel),
        content: convert_content(users, channels, source, &m.content, level),
    }
}

pub proof fn lemma_segments_view_push(s: Seq<CoreMessageSegment>, x: CoreMessageSegment)
    ensures
        core_segments_view(s.push(x), (s.len() + 1) as int) == core_segments_view(s, s.len() as int).push(
            core_segment_view(x),
        ),
{
    lemma_segments_view_prefix(s.push(x), s, s.len() as int);
}

pub proof fn lemma_segments_view_prefix(s: Seq<CoreMessageSegment>, t: Seq<CoreMessageSegment>, n: int)
    requires
        0 <= n <= t.len(),
        n <= s.len(),
        forall|i: int| 0 <= i < n ==> s[i] == t[i],
    ensures
        core_segments_view(s, n) == core_segments_view(t, n),
    decreases n,
{
    if n > 0 {
        lemma_segments_view_prefix(s, t, n - 1);
    }
}

/// Converting content keeps every segment in place and every text exactly:
/// the `i`-th inbound segment gives the `i`-th converted one; a text gives
/// the same text; a mention gives a mention of the entity found under
/// (source, id), or the text `@id` when none is; a quote gives a quote while
/// the level allows it, and the truncation marker below.
pub proof fn law_convert_keeps_segments(
    users: PeersModel<PlatformUser>,
    channels: PeersModel<PlatformChannel>,
    source: Seq<char>,
    s: Seq<PlatformMessageSegment>,
    level: nat,
    n: int,
)
    requires
        0 <= n <= s.len(),
        level <= 4,
    ensures
        convert_segments(users, channels, source, s, level, n).len() == n,
        forall|i: int|
            0 <= i < n ==> (#[trigger] s[i] matches PlatformMessageSegment::Text(t) ==> convert_segments(
                users,
                channels,
                source,
                s,
                level,
                n,
            )[i] == CoreSegmentView::Text(t@)),
        forall|i: int|
            0 <= i < n ==> (#[trigger] s[i] matches PlatformMessageSegment::Mention(id) ==> convert_segments(
                users,
                channels,
                source,
                s,
                level,
                n,
            )[i] == match model_find(users, source, id@) {
                Some(v) => CoreSegmentView::Mention(v),
                None => CoreSegmentView::Text(seq!['@'] + id@),
            }),
        forall|i: int|
            0 <= i < n ==> (#[trigger] s[i] matches PlatformMessageSegment::MessageRef(_) ==> if level < 4 {
                convert_segments(users, channels, source, s, level, n)[i] is MessageRef
            } else {
                convert_segments(users, channels, source, s, level, n)[i] == CoreSegmentView::Text(
                    truncation_marker(),
                )
            }),
    decreases n,
{
    reveal_strlit("@");
    if n > 0 {
        law_convert_keeps_segments(users, channels, source, s, level, n - 1);
        assert("@"@ =~= seq!['@']);
    }
}

} // verus!
