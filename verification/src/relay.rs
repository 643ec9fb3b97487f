//! Relaying: from an inbound platform message to the core message and the
//! platforms it must be delivered to.

use vstd::prelude::*;

use crate::channels::{CoreChannel, PlatformChannel};
use crate::messages::{
    convert_content, convert_segments, core_message_view, CoreMessage, CoreMessageView,
    PlatformMessage,
};
use crate::peers::{
    count_present, law_find_holds_alias, law_upsert_count, law_upsert_then_find, model_find, model_upsert, peer_view,
    Peered, Peers, PeersModel,
};
use crate::platform::PlatformId;
use crate::table::{has_key, lookup, Duplicate, Table, TableKey};
use crate::users::{CoreUser, PlatformUser};

verus! {

/// The user collection after resolving `author`: unchanged if known,
/// otherwise with `author` upserted.
pub open spec fn users_after_resolve(
    users: PeersModel<PlatformUser>,
    source: Seq<char>,
    author: PlatformUser,
) -> PeersModel<PlatformUser> {
    if model_find(users, source, author.id@) is Some {
        users
    } else {
        model_upsert::<CoreUser>(users, author)
    }
}

/// Looks up the entity of a message author; if unknown, registers the author
/// (which also auto-correlates it) so it becomes a first-class entity.
pub fn resolve_or_register(users: &mut Peers<CoreUser>, source_platform: &PlatformId, author: &PlatformUser) -> (r: CoreUser)
    requires
        old(users).wf(),
        author.platform@ == source_platform@,
    ensures
        final(users).wf(),
        final(users).model() == users_after_resolve(old(users).model(), source_platform@, *author),
        model_find(final(users).model(), source_platform@, author.id@) == Some(peer_view(r)),
        lookup(peer_view(r).aliases, source_platform@) matches Some(a) && a.id@ == author.id@,
        count_present(final(users).model().items) <= count_present(old(users).model().items) + 1,
{
    if let Some(core_user) = users.find(source_platform, author.id.as_str()) {
        let r = core_user.duplicate_peer();
        proof {
            law_find_holds_alias::<CoreUser>(users.model(), source_platform@, author.id@);
        }
        return r;
    }
    users.upsert(author.duplicate());
    proof {
        law_upsert_then_find::<CoreUser>(old(users).model(), *author);
        law_upsert_count::<CoreUser>(old(users).model(), *author);
        law_find_holds_alias::<CoreUser>(users.model(), source_platform@, author.id@);
    }
    users.find(source_platform, author.id.as_str()).expect("just upserted").duplicate_peer()
}

/// The platforms of `aliases` other than `source`, in alias order.
pub open spec fn other_platforms<P>(aliases: Seq<(Seq<char>, P)>, source: Seq<char>) -> Seq<Seq<char>>
    decreases aliases.len(),
{
    if aliases.len() == 0 {
        Seq::empty()
    } else {
        let rest = other_platforms(aliases.drop_last(), source);
        if aliases.last().0 == source {
            rest
        } else {
            rest.push(aliases.last().0)
        }
    }
}

/// A message ready to be delivered, with the platforms to deliver it to.
pub struct Relay {
    pub message: CoreMessage,
    pub targets: Vec<PlatformId>,
}

/// The message that `relay` builds for an inbound message on a known channel.
pub open spec fn relayed_message(
    users: PeersModel<PlatformUser>,
    channels: PeersModel<PlatformChannel>,
    source: Seq<char>,
    msg: PlatformMessage,
) -> CoreMessageView {
    let users2 = users_after_resolve(users, source, msg.author);
    CoreMessageView {
        author: model_find(users2, source, msg.author.id@)->0,
        channel: model_find(channels, source, msg.channel.id@)->0,
        content: convert_segments(users2, channels, source, msg.content@, 0, msg.content@.len() as int),
    }
}

/// The platforms of `aliases` other than `source`.
fn target_platforms(aliases: &Table<PlatformId, PlatformChannel>, source: &PlatformId) -> (r: Vec<PlatformId>)
    ensures
        r@.map_values(|p: PlatformId| p@) == other_platforms(aliases@, source@),
{
    let mut out: Vec<PlatformId> = Vec::new();
    let mut i: usize = 0;
    while i < aliases.len()
        invariant
            i <= aliases@.len(),
            out@.map_values(|p: PlatformId| p@) == other_platforms(aliases@.take(i as int), source@),
        decreases aliases@.len() - i,
    {
        let (platform, _) = aliases.entry_at(i);
        proof {
            assert(aliases@.take(i + 1).drop_last() =~= aliases@.take(i as int));
        }
        if !platform.same_as(source) {
            let ghost before = out@;
            out.push(platform.key_clone());
            assert(out@.map_values(|p: PlatformId| p@) =~= before.map_values(|p: PlatformId| p@).push(platform@));
        }
        i = i + 1;
    }
    proof {
        assert(aliases@.take(i as int) =~= aliases@);
    }
    out
}

/// Routes an inbound message from `source`: nothing when its channel is not
/// bridged; otherwise the author is resolved (and registered if unknown), the
/// content converted, and the message addressed to every other platform of
/// the channel's entity.
pub fn relay(
    channels: &Peers<CoreChannel>,
    users: &mut Peers<CoreUser>,
    source: &PlatformId,
    msg: &PlatformMessage,
) -> (r: Option<Relay>)
    requires
        channels.wf(),
        old(users).wf(),
        msg.author.platform@ == source@,
    ensures
        final(users).wf(),
        match model_find(channels.model(), source@, msg.channel.id@) {
            None => r is None && final(users).model() == old(users).model(),
            Some(ch) => r matches Some(relay) && final(users).model() == users_after_resolve(
                old(users).model(),
                source@,
                msg.author,
            ) && core_message_view(relay.message) == relayed_message(
                old(users).model(),
                channels.model(),
                source@,
                *msg,
            ) && relay.targets@.map_values(|p: PlatformId| p@) == other_platforms(ch.aliases, source@),
        },
{
    let core_channel = match channels.find(source, msg.channel.id.as_str()) {
        Some(c) => c.duplicate_peer(),
        None => {
            return None;
        },
    };
    let author = resolve_or_register(users, source, &msg.author);
    let content = convert_content(users, channels, source, &msg.content, 0);
    let targets = target_platforms(&core_channel.alias, source);
    let message = CoreMessage { author, channel: core_channel, content };
    Some(Relay { message, targets })
}

/// A relayed message never goes back to its source platform: every target
/// is a platform of the channel's entity other than the source, and every
/// such platform is a target.
pub proof fn law_relay_targets_other_platforms<P>(aliases: Seq<(Seq<char>, P)>, source: Seq<char>)
    ensures
        forall|i: int|
            0 <= i < other_platforms(aliases, source).len() ==> #[trigger] other_platforms(aliases, source)[i]
                != source && has_key(aliases, other_platforms(aliases, source)[i]),
        forall|j: int|
            0 <= j < aliases.len() && aliases[j].0 != source ==> other_platforms(aliases, source).contains(
                #[trigger] aliases[j].0,
            ),
    decreases aliases.len(),
{
    if aliases.len() > 0 {
        let init = aliases.drop_last();
        law_relay_targets_other_platforms(init, source);
        let rest = other_platforms(init, source);
        let t = other_platforms(aliases, source);
        assert forall|i: int| 0 <= i < t.len() implies #[trigger] t[i] != source && has_key(aliases, t[i]) by {
            if i < rest.len() {
                assert(t[i] == rest[i]);
                let j = choose|j: int| 0 <= j < init.len() && init[j].0 == rest[i];
                assert(aliases[j] == init[j]);
            } else {
                assert(aliases[aliases.len() - 1].0 == t[i]);
            }
        }
        assert forall|j: int| 0 <= j < aliases.len() && aliases[j].0 != source implies t.contains(
            #[trigger] aliases[j].0,
        ) by {
            if j < aliases.len() - 1 {
                assert(init[j] == aliases[j]);
                assert(rest.contains(init[j].0));
                let k = choose|k: int| 0 <= k < rest.len() && rest[k] == init[j].0;
                assert(t[k] == rest[k]);
            } else {
                assert(t[t.len() - 1] == aliases[j].0);
            }
        }
    }
}

} // verus!
