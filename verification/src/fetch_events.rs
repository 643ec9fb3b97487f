//! Lifecycle events as the fetched-data store sees them, and how each one
//! changes the store.

use vstd::prelude::*;

use crate::fetched::{
    has_channel, has_user, platform_of, record_of, store_channel_removed,
    store_channel_upserted, store_user_removed, store_user_renamed, store_user_upsert_changes,
    store_user_upserted, store_users_merged, user_rename_changes, users_merge_changes, channel_upsert_changes, FetchedChannelView,
    FetchedData, FetchedView,
};
use crate::table::Duplicate;
use crate::user::User;

verus! {

impl Duplicate for User {
    fn duplicate(&self) -> (r: Self) {
        User {
            id: self.id.duplicate(),
            name: self.name.clone(),
            display_name: self.display_name.duplicate(),
            avatar_url: self.avatar_url.duplicate(),
        }
    }
}

/// A change reported by a platform: users joining, leaving, changing or
/// being renamed, users listed in bulk, channels created, changed or
/// deleted.
#[derive(Debug)]
pub enum FetchEvent {
    UserJoined { platform: String, user: User },
    UserLeft { platform: String, id: String },
    UserUpdated { platform: String, user: User },
    UserRenamed { platform: String, old_id: String, new_id: String, new_name: String },
    UsersDiscovered { platform: String, users: Vec<User> },
    ChannelCreated { platform: String, id: String, name: String },
    ChannelUpdated { platform: String, id: String, name: String },
    ChannelDeleted { platform: String, id: String },
}

/// The store after an event, and whether the event changed it.
pub open spec fn store_after(s: FetchedView, e: FetchEvent) -> (FetchedView, bool) {
    match e {
        FetchEvent::UserLeft { platform, id } => (
            store_user_removed(s, platform@, id@),
            has_user(platform_of(s, platform@).users, id@),
        ),
        FetchEvent::UserJoined { platform, user } => (
            store_user_upserted(s, platform@, record_of(user)),
            store_user_upsert_changes(s, platform@, record_of(user)),
        ),
        FetchEvent::UserUpdated { platform, user } => (
            store_user_upserted(s, platform@, record_of(user)),
            store_user_upsert_changes(s, platform@, record_of(user)),
        ),
        FetchEvent::UserRenamed { platform, old_id, new_id, new_name } => (
            store_user_renamed(s, platform@, old_id@, new_id@, new_name@),
            user_rename_changes(platform_of(s, platform@).users, old_id@, new_id@, new_name@),
        ),
        FetchEvent::UsersDiscovered { platform, users } => (
            store_users_merged(s, platform@, users@),
            users_merge_changes(s, platform@, users@),
        ),
        FetchEvent::ChannelCreated { platform, id, name } => (
            store_channel_upserted(s, platform@, FetchedChannelView { id: id@, name: name@ }),
            channel_upsert_changes(platform_of(s, platform@).channels, FetchedChannelView { id: id@, name: name@ }),
        ),
        FetchEvent::ChannelUpdated { platform, id, name } => (
            store_channel_upserted(s, platform@, FetchedChannelView { id: id@, name: name@ }),
            channel_upsert_changes(platform_of(s, platform@).channels, FetchedChannelView { id: id@, name: name@ }),
        ),
        FetchEvent::ChannelDeleted { platform, id } => (
            store_channel_removed(s, platform@, id@),
            has_channel(platform_of(s, platform@).channels, id@),
        ),
    }
}

/// Applies an event to the store; returns whether the store changed.
pub fn handle_meta_event(fetched: &mut FetchedData, event: &FetchEvent) -> (r: bool)
    requires
        old(fetched).wf(),
    ensures
        final(fetched).wf(),
        (final(fetched)@, r) == store_after(old(fetched)@, *event),
{
    match event {
        FetchEvent::UserLeft { platform, id } => fetched.remove_user(platform.as_str(), id.as_str()),
        FetchEvent::UserJoined { platform, user } | FetchEvent::UserUpdated { platform, user } => {
            let id = match &user.id {
                Some(i) => i.clone(),
                None => user.name.clone(),
            };
            fetched.upsert_user(
                platform.as_str(),
                id.as_str(),
                user.name.clone(),
                user.display_name.duplicate(),
                user.avatar_url.duplicate(),
            )
        },
        FetchEvent::UserRenamed { platform, old_id, new_id, new_name } => fetched.rename_user(
            platform.as_str(),
            old_id.as_str(),
            new_id.as_str(),
            new_name.as_str(),
        ),
        FetchEvent::UsersDiscovered { platform, users } => {
            let mut copy: Vec<User> = Vec::new();
            let mut i: usize = 0;
            while i < users.len()
                invariant
                    i <= users@.len(),
                    copy@ == users@.take(i as int),
                decreases users@.len() - i,
            {
                copy.push(users[i].duplicate());
                assert(copy@ =~= users@.take(i + 1));
                i = i + 1;
            }
            assert(users@.take(i as int) =~= users@);
            fetched.merge_users(platform.as_str(), copy)
        },
        FetchEvent::ChannelCreated { platform, id, name } | FetchEvent::ChannelUpdated { platform, id, name } => {
            fetched.upsert_channel(platform.as_str(), id.as_str(), name.clone())
        },
        FetchEvent::ChannelDeleted { platform, id } => fetched.remove_channel(platform.as_str(), id.as_str()),
    }
}

} // verus!
