//! Lifecycle events (joins, leaves, renames, channel changes) and how they
//! update the user and channel collections.

use vstd::prelude::*;

use crate::channels::{CoreChannel, PlatformChannel};
use crate::peers::{
    law_detach_then_find, law_upsert_then_find, model_detach, model_find, model_upsert, model_wf, Peered, Peers,
    PeersModel,
};
use crate::platform::PlatformId;
use crate::table::{lookup, Duplicate};
use crate::users::{model_rename, prior_avatar, CoreUser, PlatformUser};

verus! {

#[derive(Debug)]
pub enum MetaEvent {
    UserJoined { platform: PlatformId, user: PlatformUser },
    UserLeft { platform: PlatformId, id: String },
    UserUpdated { platform: PlatformId, user: PlatformUser },
    UserRenamed {
        platform: PlatformId,
        old_id: String,
        new_id: String,
        new_display_name: Option<String>,
    },
    UsersDiscovered { platform: PlatformId, users: Vec<PlatformUser> },
    ChannelCreated { platform: PlatformId, channel: PlatformChannel },
    ChannelDeleted { platform: PlatformId, id: String },
    ChannelUpdated { platform: PlatformId, channel: PlatformChannel },
}

/// The user collection after upserting each of `list`, in order.
pub open spec fn upsert_all(m: PeersModel<PlatformUser>, list: Seq<PlatformUser>) -> PeersModel<PlatformUser>
    decreases list.len(),
{
    if list.len() == 0 {
        m
    } else {
        model_upsert::<CoreUser>(upsert_all(m, list.drop_last()), list.last())
    }
}

/// The new user collection after a user event (the channel collection is
/// then unchanged), given the alias `nu` that a rename installs.
pub open spec fn users_after(m: PeersModel<PlatformUser>, event: MetaEvent, nu: PlatformUser) -> PeersModel<PlatformUser> {
    match event {
        MetaEvent::UserJoined { user, .. } => model_upsert::<CoreUser>(m, user),
        MetaEvent::UserUpdated { user, .. } => model_upsert::<CoreUser>(m, user),
        MetaEvent::UserLeft { platform, id } => model_detach::<CoreUser>(m, platform@, id@),
        MetaEvent::UserRenamed { platform, old_id, new_id, .. } => model_rename(m, platform@, old_id@, new_id@, nu),
        MetaEvent::UsersDiscovered { users, .. } => upsert_all(m, users@),
        _ => m,
    }
}

/// The new channel collection after a channel event (the user collection is
/// then unchanged).
pub open spec fn channels_after(m: PeersModel<PlatformChannel>, event: MetaEvent) -> PeersModel<PlatformChannel> {
    match event {
        MetaEvent::ChannelCreated { channel, .. } => model_upsert::<CoreChannel>(m, channel),
        MetaEvent::ChannelUpdated { channel, .. } => model_upsert::<CoreChannel>(m, channel),
        MetaEvent::ChannelDeleted { platform, id } => model_detach::<CoreChannel>(m, platform@, id@),
        _ => m,
    }
}

/// The alias a rename installs is described by the event: the new id and
/// display name, and the avatar of the alias it replaces.
pub open spec fn rename_alias_ok(m: PeersModel<PlatformUser>, event: MetaEvent, nu: PlatformUser) -> bool {
    match event {
        MetaEvent::UserRenamed { platform, old_id, new_id, new_display_name } => {
            &&& nu.platform@ == platform@
            &&& nu.id@ == new_id@
            &&& nu.display_name == new_display_name
            &&& nu.avatar_url == prior_avatar(m, platform@, old_id@)
        },
        _ => true,
    }
}

/// Applies a runtime event to the in-memory collections.
pub fn handle_event(users: &mut Peers<CoreUser>, channels: &mut Peers<CoreChannel>, event: &MetaEvent)
    requires
        old(users).wf(),
        old(channels).wf(),
    ensures
        final(users).wf(),
        final(channels).wf(),
        exists|nu: PlatformUser|
            rename_alias_ok(old(users).model(), *event, nu) && final(users).model() == users_after(
                old(users).model(),
                *event,
                nu,
            ),
        final(channels).model() == channels_after(old(channels).model(), *event),
{
    let ghost any_alias: PlatformUser = vstd::pervasive::arbitrary();
    match event {
        MetaEvent::UserJoined { user, .. } => {
            users.upsert(user.duplicate());
            assert(rename_alias_ok(old(users).model(), *event, any_alias) && users.model()
                == users_after(old(users).model(), *event, any_alias));
        },
        MetaEvent::UserUpdated { user, .. } => {
            users.upsert(user.duplicate());
            assert(rename_alias_ok(old(users).model(), *event, any_alias) && users.model()
                == users_after(old(users).model(), *event, any_alias));
        },
        MetaEvent::UserLeft { platform, id } => {
            users.detach(platform, id.as_str());
            assert(rename_alias_ok(old(users).model(), *event, any_alias) && users.model()
                == users_after(old(users).model(), *event, any_alias));
        },
        MetaEvent::UserRenamed { platform, old_id, new_id, new_display_name } => {
            users.rename(platform, old_id.as_str(), new_id.as_str(), new_display_name.duplicate());
            proof {
                let nu = choose|nu: PlatformUser|
                    nu.platform@ == platform@ && nu.id@ == new_id@ && nu.display_name == *new_display_name
                        && nu.avatar_url == prior_avatar(old(users).model(), platform@, old_id@)
                        && users.model() == model_rename(
                        old(users).model(),
                        platform@,
                        old_id@,
                        new_id@,
                        nu,
                    );
                assert(rename_alias_ok(old(users).model(), *event, nu) && users.model() == users_after(
                    old(users).model(),
                    *event,
                    nu,
                ));
            }
        },
        MetaEvent::UsersDiscovered { users: new_users, .. } => {
            let mut i: usize = 0;
            while i < new_users.len()
                invariant
                    users.wf(),
                    i <= new_users@.len(),
                    users.model() == upsert_all(old(users).model(), new_users@.take(i as int)),
                decreases new_users@.len() - i,
            {
                proof {
                    assert(new_users@.take(i + 1).drop_last() =~= new_users@.take(i as int));
                }
                users.upsert(new_users[i].duplicate());
                i = i + 1;
            }
            proof {
                assert(new_users@.take(i as int) =~= new_users@);
            }
            assert(rename_alias_ok(old(users).model(), *event, any_alias) && users.model()
                == users_after(old(users).model(), *event, any_alias));
        },
        MetaEvent::ChannelCreated { channel, .. } => {
            channels.upsert(channel.duplicate());
            assert(rename_alias_ok(old(users).model(), *event, any_alias) && users.model()
                == users_after(old(users).model(), *event, any_alias));
        },
        MetaEvent::ChannelUpdated { channel, .. } => {
            channels.upsert(channel.duplicate());
            assert(rename_alias_ok(old(users).model(), *event, any_alias) && users.model()
                == users_after(old(users).model(), *event, any_alias));
        },
        MetaEvent::ChannelDeleted { platform, id } => {
            channels.detach(platform, id.as_str());
            assert(rename_alias_ok(old(users).model(), *event, any_alias) && users.model()
                == users_after(old(users).model(), *event, any_alias));
        },
    }
}

/// A user joining or changing is then found under its (platform, id) with
/// exactly the reported alias on its platform; the channels are untouched.
pub proof fn law_user_event_then_find(m: PeersModel<PlatformUser>, c: PeersModel<PlatformChannel>, platform: PlatformId, u: PlatformUser, nu: PlatformUser)
    requires
        model_wf(m),
    ensures
        model_find(users_after(m, MetaEvent::UserJoined { platform, user: u }, nu), u.platform@, u.id@) matches Some(v)
            && lookup(v.aliases, u.platform@) == Some(u),
        model_find(users_after(m, MetaEvent::UserUpdated { platform, user: u }, nu), u.platform@, u.id@) matches Some(v)
            && lookup(v.aliases, u.platform@) == Some(u),
        channels_after(c, MetaEvent::UserJoined { platform, user: u }) == c,
        channels_after(c, MetaEvent::UserUpdated { platform, user: u }) == c,
{
    law_upsert_then_find::<CoreUser>(m, u);
}

/// After a user leaves, nothing is found under its (platform, id).
pub proof fn law_user_left_then_absent(m: PeersModel<PlatformUser>, platform: PlatformId, id: String, nu: PlatformUser)
    requires
        model_wf(m),
    ensures
        model_find(users_after(m, MetaEvent::UserLeft { platform, id }, nu), platform@, id@) is None,
{
    law_detach_then_find::<CoreUser>(m, platform@, id@);
}

/// A channel created or changed is then found under its (platform, id) with
/// exactly the reported alias; a deleted one is no longer found; the users
/// are untouched by channel events.
pub proof fn law_channel_event_then_find(
    m: PeersModel<PlatformChannel>,
    users: PeersModel<PlatformUser>,
    platform: PlatformId,
    ch: PlatformChannel,
    id: String,
    nu: PlatformUser,
)
    requires
        model_wf(m),
    ensures
        model_find(channels_after(m, MetaEvent::ChannelCreated { platform, channel: ch }), ch.platform@, ch.id@) matches Some(
            v,
        ) && lookup(v.aliases, ch.platform@) == Some(ch),
        model_find(channels_after(m, MetaEvent::ChannelUpdated { platform, channel: ch }), ch.platform@, ch.id@) matches Some(
            v,
        ) && lookup(v.aliases, ch.platform@) == Some(ch),
        model_find(channels_after(m, MetaEvent::ChannelDeleted { platform, id }), platform@, id@) is None,
        users_after(users, MetaEvent::ChannelCreated { platform, channel: ch }, nu) == users,
        users_after(users, MetaEvent::ChannelDeleted { platform, id }, nu) == users,
{
    law_upsert_then_find::<CoreChannel>(m, ch);
    law_detach_then_find::<CoreChannel>(m, platform@, id@);
}

} // verus!
