//! The cache of discovered channels and users, per platform.

use vstd::prelude::*;

use crate::table::{assoc_insert, has_key, key_pos, keys_unique, lemma_insert_unique, lemma_key_pos, lookup, Duplicate};
use crate::text::opt_view;
use crate::user::User;

verus! {

/// A channel as fetched from a platform.
#[derive(Debug, Clone)]
pub struct FetchedChannel {
    pub id: String,
    pub name: String,
}

/// The contents of a fetched channel.
pub struct FetchedChannelView {
    pub id: Seq<char>,
    pub name: Seq<char>,
}

impl View for FetchedChannel {
    type V = FetchedChannelView;

    open spec fn view(&self) -> FetchedChannelView {
        FetchedChannelView { id: self.id@, name: self.name@ }
    }
}

/// A user as fetched from a platform.
#[derive(Debug, Clone)]
pub struct FetchedUser {
    pub id: String,
    pub name: String,
    pub display_name: Option<String>,
    pub avatar_url: Option<String>,
}

/// The contents of a fetched user.
pub struct FetchedUserView {
    pub id: Seq<char>,
    pub name: Seq<char>,
    pub display_name: Option<Seq<char>>,
    pub avatar_url: Option<Seq<char>>,
}

impl View for FetchedUser {
    type V = FetchedUserView;

    open spec fn view(&self) -> FetchedUserView {
        FetchedUserView {
            id: self.id@,
            name: self.name@,
            display_name: opt_view(self.display_name),
            avatar_url: opt_view(self.avatar_url),
        }
    }
}

impl FetchedChannel {
    /// A copy with the same contents.
    pub fn duplicate(&self) -> (r: Self)
        ensures
            r@ == self@,
    {
        FetchedChannel { id: self.id.clone(), name: self.name.clone() }
    }
}

impl FetchedUser {
    /// A copy with the same contents.
    pub fn duplicate(&self) -> (r: Self)
        ensures
            r@ == self@,
    {
        FetchedUser {
            id: self.id.clone(),
            name: self.name.clone(),
            display_name: self.display_name.duplicate(),
            avatar_url: self.avatar_url.duplicate(),
        }
    }

    /// The record kept for a listed user: its id, or an empty id when it has
    /// none, and its names and avatar.
    pub fn from_user(u: User) -> (r: Self)
        ensures
            r@ == user_record(
                match u.id {
                    Some(i) => i@,
                    None => Seq::<char>::empty(),
                },
                u.name@,
                opt_view(u.display_name),
                opt_view(u.avatar_url),
            ),
    {
        let id = match u.id {
            Some(i) => i,
            None => String::new(),
        };
        FetchedUser { id, name: u.name, display_name: u.display_name, avatar_url: u.avatar_url }
    }
}

/// Everything fetched from one platform.
#[derive(Debug, Clone)]
pub struct PlatformData {
    pub channels: Vec<FetchedChannel>,
    pub users: Vec<FetchedUser>,
}

/// The contents of one platform's data.
pub struct PlatformDataView {
    pub channels: Seq<FetchedChannelView>,
    pub users: Seq<FetchedUserView>,
}

impl View for PlatformData {
    type V = PlatformDataView;

    open spec fn view(&self) -> PlatformDataView {
        PlatformDataView {
            channels: self.channels@.map_values(|c: FetchedChannel| c@),
            users: self.users@.map_values(|u: FetchedUser| u@),
        }
    }
}

/// A platform with nothing fetched yet.
pub open spec fn empty_platform() -> PlatformDataView {
    PlatformDataView { channels: Seq::empty(), users: Seq::empty() }
}

impl PlatformData {
    /// No channels and no users.
    pub fn new() -> (r: Self)
        ensures
            r@ == empty_platform(),
    {
        let r = PlatformData { channels: Vec::new(), users: Vec::new() };
        assert(r@.channels =~= Seq::<FetchedChannelView>::empty());
        assert(r@.users =~= Seq::<FetchedUserView>::empty());
        r
    }
}

/// The fetched data, platform by platform, in the order the platforms were
/// first seen.
#[derive(Debug)]
pub struct FetchedData {
    pub platforms: Vec<(String, PlatformData)>,
}

/// What is stored per platform name.
pub type FetchedView = Seq<(Seq<char>, PlatformDataView)>;

impl View for FetchedData {
    type V = Seq<(Seq<char>, PlatformDataView)>;

    open spec fn view(&self) -> Seq<(Seq<char>, PlatformDataView)> {
        self.platforms@.map_values(|e: (String, PlatformData)| (e.0@, e.1@))
    }
}

/// The data held for platform `p`; a platform never seen holds nothing.
pub open spec fn platform_of(s: Seq<(Seq<char>, PlatformDataView)>, p: Seq<char>) -> PlatformDataView {
    match lookup(s, p) {
        Some(d) => d,
        None => empty_platform(),
    }
}

/// Whether `i` is the first position of a user with id `id`.
pub open spec fn first_user(users: Seq<FetchedUserView>, id: Seq<char>, i: int) -> bool {
    &&& 0 <= i < users.len()
    &&& users[i].id == id
    &&& forall|j: int| 0 <= j < i ==> users[j].id != id
}

/// The first position of a user with id `id`, if any.
pub open spec fn user_index(users: Seq<FetchedUserView>, id: Seq<char>) -> Option<int> {
    if exists|i: int| first_user(users, id, i) {
        Some(choose|i: int| first_user(users, id, i))
    } else {
        None
    }
}

/// Whether `i` is the first position of a channel with id `id`.
pub open spec fn first_channel(channels: Seq<FetchedChannelView>, id: Seq<char>, i: int) -> bool {
    &&& 0 <= i < channels.len()
    &&& channels[i].id == id
    &&& forall|j: int| 0 <= j < i ==> channels[j].id != id
}

/// The first position of a channel with id `id`, if any.
pub open spec fn channel_index(channels: Seq<FetchedChannelView>, id: Seq<char>) -> Option<int> {
    if exists|i: int| first_channel(channels, id, i) {
        Some(choose|i: int| first_channel(channels, id, i))
    } else {
        None
    }
}

/// A fetched user record.
pub open spec fn user_record(
    id: Seq<char>,
    name: Seq<char>,
    display_name: Option<Seq<char>>,
    avatar_url: Option<Seq<char>>,
) -> FetchedUserView {
    FetchedUserView { id, name, display_name, avatar_url }
}

/// The users after an upsert: the first user with the record's id is
/// replaced by the record, or the record is appended.
pub open spec fn users_upserted(users: Seq<FetchedUserView>, rec: FetchedUserView) -> Seq<FetchedUserView> {
    match user_index(users, rec.id) {
        Some(k) => users.update(k, rec),
        None => users.push(rec),
    }
}

/// Whether an upsert of `rec` changes anything.
pub open spec fn user_upsert_changes(users: Seq<FetchedUserView>, rec: FetchedUserView) -> bool {
    match user_index(users, rec.id) {
        Some(k) => users[k] != rec,
        None => true,
    }
}

/// The whole store after upserting `rec` on platform `p` (which is created
/// when missing).
pub open spec fn store_user_upserted(s: FetchedView, p: Seq<char>, rec: FetchedUserView) -> FetchedView {
    let d = platform_of(s, p);
    assoc_insert(s, p, PlatformDataView { users: users_upserted(d.users, rec), ..d })
}

/// Whether upserting `rec` on platform `p` changes the store's users.
pub open spec fn store_user_upsert_changes(s: FetchedView, p: Seq<char>, rec: FetchedUserView) -> bool {
    user_upsert_changes(platform_of(s, p).users, rec)
}

/// `users` without those whose id is `id`, in order.
pub open spec fn users_without(users: Seq<FetchedUserView>, id: Seq<char>) -> Seq<FetchedUserView>
    decreases users.len(),
{
    if users.len() == 0 {
        users
    } else {
        let rest = users_without(users.drop_last(), id);
        if users.last().id == id {
            rest
        } else {
            rest.push(users.last())
        }
    }
}

/// `channels` without those whose id is `id`, in order.
pub open spec fn channels_without(channels: Seq<FetchedChannelView>, id: Seq<char>) -> Seq<FetchedChannelView>
    decreases channels.len(),
{
    if channels.len() == 0 {
        channels
    } else {
        let rest = channels_without(channels.drop_last(), id);
        if channels.last().id == id {
            rest
        } else {
            rest.push(channels.last())
        }
    }
}

/// Whether some user has id `id`.
pub open spec fn has_user(users: Seq<FetchedUserView>, id: Seq<char>) -> bool {
    exists|i: int| 0 <= i < users.len() && users[i].id == id
}

/// Whether some channel has id `id`.
pub open spec fn has_channel(channels: Seq<FetchedChannelView>, id: Seq<char>) -> bool {
    exists|i: int| 0 <= i < channels.len() && channels[i].id == id
}

/// The store after removing the users with id `id` from platform `p`
/// (which is created when missing).
pub open spec fn store_user_removed(s: FetchedView, p: Seq<char>, id: Seq<char>) -> FetchedView {
    let d = platform_of(s, p);
    assoc_insert(s, p, PlatformDataView { users: users_without(d.users, id), ..d })
}

/// The store after removing the channels with id `id` from platform `p`
/// (which is created when missing).
pub open spec fn store_channel_removed(s: FetchedView, p: Seq<char>, id: Seq<char>) -> FetchedView {
    let d = platform_of(s, p);
    assoc_insert(s, p, PlatformDataView { channels: channels_without(d.channels, id), ..d })
}

/// The channels after an upsert: the first channel with the record's id is
/// replaced by the record, or the record is appended.
pub open spec fn channels_upserted(channels: Seq<FetchedChannelView>, rec: FetchedChannelView) -> Seq<FetchedChannelView> {
    match channel_index(channels, rec.id) {
        Some(k) => channels.update(k, rec),
        None => channels.push(rec),
    }
}

/// Whether a channel upsert of `rec` changes anything.
pub open spec fn channel_upsert_changes(channels: Seq<FetchedChannelView>, rec: FetchedChannelView) -> bool {
    match channel_index(channels, rec.id) {
        Some(k) => channels[k] != rec,
        None => true,
    }
}

/// The store after upserting channel `rec` on platform `p`.
pub open spec fn store_channel_upserted(s: FetchedView, p: Seq<char>, rec: FetchedChannelView) -> FetchedView {
    let d = platform_of(s, p);
    assoc_insert(s, p, PlatformDataView { channels: channels_upserted(d.channels, rec), ..d })
}

/// The users after renaming the first user with id `old_id` (keeping its
/// display name and avatar), or after adding a bare record for the new id.
pub open spec fn users_renamed(
    users: Seq<FetchedUserView>,
    old_id: Seq<char>,
    new_id: Seq<char>,
    new_name: Seq<char>,
) -> Seq<FetchedUserView> {
    match user_index(users, old_id) {
        Some(k) => users.update(k, FetchedUserView { id: new_id, name: new_name, ..users[k] }),
        None => users.push(user_record(new_id, new_name, None, None)),
    }
}

/// Whether a rename changes the users.
pub open spec fn user_rename_changes(
    users: Seq<FetchedUserView>,
    old_id: Seq<char>,
    new_id: Seq<char>,
    new_name: Seq<char>,
) -> bool {
    users_renamed(users, old_id, new_id, new_name) != users
}

/// The store after a rename on platform `p`.
pub open spec fn store_user_renamed(
    s: FetchedView,
    p: Seq<char>,
    old_id: Seq<char>,
    new_id: Seq<char>,
    new_name: Seq<char>,
) -> FetchedView {
    let d = platform_of(s, p);
    assoc_insert(s, p, PlatformDataView { users: users_renamed(d.users, old_id, new_id, new_name), ..d })
}

/// The record a listed user is stored as: keyed by its id, or by its name
/// when it has none.
pub open spec fn record_of(u: User) -> FetchedUserView {
    user_record(
        match u.id {
            Some(i) => i@,
            None => u.name@,
        },
        u.name@,
        opt_view(u.display_name),
        opt_view(u.avatar_url),
    )
}

/// The store after upserting each of `users` on platform `p`, in order.
pub open spec fn store_users_merged(s: FetchedView, p: Seq<char>, users: Seq<User>) -> FetchedView
    decreases users.len(),
{
    if users.len() == 0 {
        s
    } else {
        store_user_upserted(store_users_merged(s, p, users.drop_last()), p, record_of(users.last()))
    }
}

/// Whether any of the upserts of `users` changed something.
pub open spec fn users_merge_changes(s: FetchedView, p: Seq<char>, users: Seq<User>) -> bool
    decreases users.len(),
{
    if users.len() == 0 {
        false
    } else {
        users_merge_changes(s, p, users.drop_last()) || store_user_upsert_changes(
            store_users_merged(s, p, users.drop_last()),
            p,
            record_of(users.last()),
        )
    }
}

/// A user with id `id` at position `i` means there is a first one.
pub proof fn lemma_first_user_exists(users: Seq<FetchedUserView>, id: Seq<char>, i: int)
    requires
        0 <= i < users.len(),
        users[i].id == id,
    ensures
        user_index(users, id) is Some,
        first_user(users, id, user_index(users, id)->0),
    decreases i,
{
    if exists|j: int| 0 <= j < i && users[j].id == id {
        let j = choose|j: int| 0 <= j < i && users[j].id == id;
        lemma_first_user_exists(users, id, j);
    } else {
        assert(first_user(users, id, i));
    }
}

/// A channel with id `id` at position `i` means there is a first one.
pub proof fn lemma_first_channel_exists(channels: Seq<FetchedChannelView>, id: Seq<char>, i: int)
    requires
        0 <= i < channels.len(),
        channels[i].id == id,
    ensures
        channel_index(channels, id) is Some,
        first_channel(channels, id, channel_index(channels, id)->0),
    decreases i,
{
    if exists|j: int| 0 <= j < i && channels[j].id == id {
        let j = choose|j: int| 0 <= j < i && channels[j].id == id;
        lemma_first_channel_exists(channels, id, j);
    } else {
        assert(first_channel(channels, id, i));
    }
}

/// After an upsert the first user with the record's id is the record.
proof fn lemma_users_upserted(users: Seq<FetchedUserView>, rec: FetchedUserView)
    ensures
        user_index(users_upserted(users, rec), rec.id) matches Some(k) && users_upserted(users, rec)[k] == rec,
{
    let t = users_upserted(users, rec);
    match user_index(users, rec.id) {
        Some(k) => {
            assert(first_user(users, rec.id, k));
            assert(first_user(t, rec.id, k));
            let k2 = choose|k2: int| first_user(t, rec.id, k2);
            assert(k2 == k);
        },
        None => {
            let n = users.len() as int;
            assert forall|j: int| 0 <= j < n implies users[j].id != rec.id by {
                if users[j].id == rec.id {
                    lemma_first_user_exists(users, rec.id, j);
                }
            }
            assert(first_user(t, rec.id, n));
            let k2 = choose|k2: int| first_user(t, rec.id, k2);
            assert(k2 == n);
        },
    }
}

/// After an upsert the first channel with the record's id is the record.
proof fn lemma_channels_upserted(channels: Seq<FetchedChannelView>, rec: FetchedChannelView)
    ensures
        channel_index(channels_upserted(channels, rec), rec.id) matches Some(k) && channels_upserted(channels, rec)[k] == rec,
{
    let t = channels_upserted(channels, rec);
    match channel_index(channels, rec.id) {
        Some(k) => {
            assert(first_channel(channels, rec.id, k));
            assert(first_channel(t, rec.id, k));
            let k2 = choose|k2: int| first_channel(t, rec.id, k2);
            assert(k2 == k);
        },
        None => {
            let n = channels.len() as int;
            assert forall|j: int| 0 <= j < n implies channels[j].id != rec.id by {
                if channels[j].id == rec.id {
                    lemma_first_channel_exists(channels, rec.id, j);
                }
            }
            assert(first_channel(t, rec.id, n));
            let k2 = choose|k2: int| first_channel(t, rec.id, k2);
            assert(k2 == n);
        },
    }
}

/// After an upsert of a user on platform `p`, the platform's first user with
/// that id is exactly the upserted record, upserting the same record again
/// changes nothing, and every other platform is untouched.
pub proof fn law_upsert_user_then_found(s: FetchedView, p: Seq<char>, rec: FetchedUserView)
    requires
        keys_unique(s),
    ensures
        ({
            let t = store_user_upserted(s, p, rec);
            &&& keys_unique(t)
            &&& user_index(platform_of(t, p).users, rec.id) matches Some(k) && platform_of(t, p).users[k] == rec
            &&& !store_user_upsert_changes(t, p, rec)
            &&& store_user_upserted(t, p, rec) == t
            &&& forall|q: Seq<char>| q != p ==> lookup(t, q) == lookup(s, q)
        }),
{
    let d = platform_of(s, p);
    let nd = PlatformDataView { users: users_upserted(d.users, rec), ..d };
    let t = store_user_upserted(s, p, rec);
    lemma_insert_unique(s, p, nd);
    assert(platform_of(t, p) == nd);
    lemma_users_upserted(d.users, rec);
    let k = user_index(nd.users, rec.id)->0;
    assert(nd.users.update(k, rec) =~= nd.users);
    lemma_insert_unique(t, p, nd);
    assert(lookup(t, p) == Some(nd));
    assert(has_key(t, p));
    lemma_key_pos(t, key_pos(t, p));
    assert(t.update(key_pos(t, p), (p, nd)) =~= t);
}

/// After a channel upsert on platform `p`, the platform's first channel with
/// that id is exactly the upserted record, upserting it again changes
/// nothing, and every other platform is untouched.
pub proof fn law_upsert_channel_then_found(s: FetchedView, p: Seq<char>, rec: FetchedChannelView)
    requires
        keys_unique(s),
    ensures
        ({
            let t = store_channel_upserted(s, p, rec);
            &&& keys_unique(t)
            &&& channel_index(platform_of(t, p).channels, rec.id) matches Some(k) && platform_of(t, p).channels[k] == rec
            &&& !channel_upsert_changes(platform_of(t, p).channels, rec)
            &&& store_channel_upserted(t, p, rec) == t
            &&& forall|q: Seq<char>| q != p ==> lookup(t, q) == lookup(s, q)
        }),
{
    let d = platform_of(s, p);
    let nd = PlatformDataView { channels: channels_upserted(d.channels, rec), ..d };
    let t = store_channel_upserted(s, p, rec);
    lemma_insert_unique(s, p, nd);
    assert(platform_of(t, p) == nd);
    lemma_channels_upserted(d.channels, rec);
    let k = channel_index(nd.channels, rec.id)->0;
    assert(nd.channels.update(k, rec) =~= nd.channels);
    lemma_insert_unique(t, p, nd);
    assert(has_key(t, p));
    lemma_key_pos(t, key_pos(t, p));
    assert(t.update(key_pos(t, p), (p, nd)) =~= t);
}

/// No user with id `id` is left after removing them, and the others keep
/// their order.
pub proof fn lemma_users_without(users: Seq<FetchedUserView>, id: Seq<char>)
    ensures
        !has_user(users_without(users, id), id),
        users_without(users, id).len() <= users.len(),
        has_user(users, id) <==> users_without(users, id).len() < users.len(),
    decreases users.len(),
{
    if users.len() > 0 {
        let init = users.drop_last();
        lemma_users_without(init, id);
        let rest = users_without(init, id);
        if has_user(rest.push(users.last()), id) && users.last().id != id {
            let j = choose|j: int| 0 <= j < rest.len() + 1 && rest.push(users.last())[j].id == id;
            assert(rest[j].id == id);
        }
        if has_user(users, id) && users.last().id != id {
            let j = choose|j: int| 0 <= j < users.len() && users[j].id == id;
            assert(init[j].id == id);
        }
        if has_user(init, id) {
            let j = choose|j: int| 0 <= j < init.len() && init[j].id == id;
            assert(users[j].id == id);
        }
    }
}

/// After removing the users with id `id` from platform `p`, none is left
/// there, and every other platform is untouched.
pub proof fn law_remove_user_then_absent(s: FetchedView, p: Seq<char>, id: Seq<char>)
    requires
        keys_unique(s),
    ensures
        ({
            let t = store_user_removed(s, p, id);
            &&& keys_unique(t)
            &&& !has_user(platform_of(t, p).users, id)
            &&& platform_of(t, p).channels == platform_of(s, p).channels
            &&& forall|q: Seq<char>| q != p ==> lookup(t, q) == lookup(s, q)
        }),
{
    let d = platform_of(s, p);
    let nd = PlatformDataView { users: users_without(d.users, id), ..d };
    lemma_insert_unique(s, p, nd);
    lemma_users_without(d.users, id);
}

/// No channel with id `id` is left after removing them.
pub proof fn lemma_channels_without(channels: Seq<FetchedChannelView>, id: Seq<char>)
    ensures
        !has_channel(channels_without(channels, id), id),
        channels_without(channels, id).len() <= channels.len(),
        has_channel(channels, id) <==> channels_without(channels, id).len() < channels.len(),
    decreases channels.len(),
{
    if channels.len() > 0 {
        let init = channels.drop_last();
        lemma_channels_without(init, id);
        let rest = channels_without(init, id);
        if has_channel(rest.push(channels.last()), id) && channels.last().id != id {
            let j = choose|j: int| 0 <= j < rest.len() + 1 && rest.push(channels.last())[j].id == id;
            assert(rest[j].id == id);
        }
        if has_channel(channels, id) && channels.last().id != id {
            let j = choose|j: int| 0 <= j < channels.len() && channels[j].id == id;
            assert(init[j].id == id);
        }
        if has_channel(init, id) {
            let j = choose|j: int| 0 <= j < init.len() && init[j].id == id;
            assert(channels[j].id == id);
        }
    }
}

/// After removing the channels with id `id` from platform `p`, none is left
/// there, and every other platform is untouched.
pub proof fn law_remove_channel_then_absent(s: FetchedView, p: Seq<char>, id: Seq<char>)
    requires
        keys_unique(s),
    ensures
        ({
            let t = store_channel_removed(s, p, id);
            &&& keys_unique(t)
            &&& !has_channel(platform_of(t, p).channels, id)
            &&& platform_of(t, p).users == platform_of(s, p).users
            &&& forall|q: Seq<char>| q != p ==> lookup(t, q) == lookup(s, q)
        }),
{
    let d = platform_of(s, p);
    let nd = PlatformDataView { channels: channels_without(d.channels, id), ..d };
    lemma_insert_unique(s, p, nd);
    lemma_channels_without(d.channels, id);
}

/// The first position of a user with id `id` in `users`.
fn find_user(users: &Vec<FetchedUser>, id: &String) -> (r: Option<usize>)
    ensures
        r matches Some(k) ==> first_user(users@.map_values(|u: FetchedUser| u@), id@, k as int),
        r is None ==> forall|j: int| 0 <= j < users@.len() ==> users@[j].id@ != id@,
        match r {
            Some(k) => user_index(users@.map_values(|u: FetchedUser| u@), id@) == Some(k as int),
            None => user_index(users@.map_values(|u: FetchedUser| u@), id@) is None,
        },
{
    let ghost vs = users@.map_values(|u: FetchedUser| u@);
    let mut i: usize = 0;
    while i < users.len()
        invariant
            i <= users@.len(),
            vs == users@.map_values(|u: FetchedUser| u@),
            forall|j: int| 0 <= j < i ==> vs[j].id != id@,
        decreases users@.len() - i,
    {
        if users[i].id == *id {
            assert(first_user(vs, id@, i as int));
            proof {
                let k = choose|k: int| first_user(vs, id@, k);
                assert(k == i as int);
            }
            return Some(i);
        }
        i = i + 1;
    }
    assert forall|j: int| 0 <= j < users@.len() implies users@[j].id@ != id@ by {
        assert(vs[j].id == users@[j].id@);
    }
    None
}

/// The first position of a channel with id `id` in `channels`.
fn find_channel(channels: &Vec<FetchedChannel>, id: &String) -> (r: Option<usize>)
    ensures
        r matches Some(k) ==> first_channel(channels@.map_values(|c: FetchedChannel| c@), id@, k as int),
        r is None ==> forall|j: int| 0 <= j < channels@.len() ==> channels@[j].id@ != id@,
        match r {
            Some(k) => channel_index(channels@.map_values(|c: FetchedChannel| c@), id@) == Some(k as int),
            None => channel_index(channels@.map_values(|c: FetchedChannel| c@), id@) is None,
        },
{
    let ghost vs = channels@.map_values(|c: FetchedChannel| c@);
    let mut i: usize = 0;
    while i < channels.len()
        invariant
            i <= channels@.len(),
            vs == channels@.map_values(|c: FetchedChannel| c@),
            forall|j: int| 0 <= j < i ==> vs[j].id != id@,
        decreases channels@.len() - i,
    {
        if channels[i].id == *id {
            assert(first_channel(vs, id@, i as int));
            proof {
                let k = choose|k: int| first_channel(vs, id@, k);
                assert(k == i as int);
            }
            return Some(i);
        }
        i = i + 1;
    }
    assert forall|j: int| 0 <= j < channels@.len() implies channels@[j].id@ != id@ by {
        assert(vs[j].id == channels@[j].id@);
    }
    None
}

/// Whether two optional strings are equal.
fn opt_str_eq(a: &Option<String>, b: &Option<String>) -> (r: bool)
    ensures
        r == (opt_view(*a) == opt_view(*b)),
{
    match (a, b) {
        (Some(x), Some(y)) => *x == *y,
        (None, None) => true,
        _ => false,
    }
}

impl FetchedData {
    /// No platforms yet.
    pub fn new() -> (r: Self)
        ensures
            r@ == Seq::<(Seq<char>, PlatformDataView)>::empty(),
            r.wf(),
    {
        let r = FetchedData { platforms: Vec::new() };
        assert(r@ =~= Seq::<(Seq<char>, PlatformDataView)>::empty());
        r
    }

    /// Every platform occurs once.
    pub open spec fn wf(&self) -> bool {
        keys_unique(self@)
    }

    /// The position of `platform`, if present.
    fn platform_index(&self, platform: &String) -> (r: Option<usize>)
        requires
            self.wf(),
        ensures
            r is None <==> !has_key(self@, platform@),
            r matches Some(i) ==> i < self@.len() && key_pos(self@, platform@) == i,
    {
        let mut i: usize = 0;
        while i < self.platforms.len()
            invariant
                i <= self.platforms@.len(),
                keys_unique(self@),
                self@.len() == self.platforms@.len(),
                forall|j: int| 0 <= j < i ==> self@[j].0 != platform@,
            decreases self.platforms@.len() - i,
        {
            assert(self@[i as int].0 == self.platforms@[i as int].0@);
            if self.platforms[i].0 == *platform {
                proof {
                    lemma_key_pos(self@, i as int);
                }
                return Some(i);
            }
            i = i + 1;
        }
        None
    }

    /// The data of `platform`, created empty when the platform is new.
    pub fn platform_mut(&mut self, platform: &str) -> (r: &mut PlatformData)
        requires
            old(self).wf(),
        ensures
            r@ == platform_of(old(self)@, platform@),
            final(self)@ == assoc_insert(old(self)@, platform@, final(r)@),
    {
        let key = platform.to_string();
        let i = match self.platform_index(&key) {
            Some(i) => {
                proof {
                    lemma_key_pos(self@, i as int);
                }
                i
            },
            None => {
                let d = PlatformData::new();
                self.platforms.push((key, d));
                assert(self@ =~= old(self)@.push((platform@, empty_platform())));
                (self.platforms.len() - 1) as usize
            },
        };
        let r = &mut self.platforms[i].1;
        r
    }
    /// Adds the user `id` to `platform`, or updates the first user with that
    /// id; returns whether anything changed.
    pub fn upsert_user(
        &mut self,
        platform: &str,
        id: &str,
        name: String,
        display_name: Option<String>,
        avatar_url: Option<String>,
    ) -> (r: bool)
        requires
            old(self).wf(),
        ensures
            final(self).wf(),
            final(self)@ == store_user_upserted(
                old(self)@,
                platform@,
                user_record(id@, name@, opt_view(display_name), opt_view(avatar_url)),
            ),
            r == store_user_upsert_changes(
                old(self)@,
                platform@,
                user_record(id@, name@, opt_view(display_name), opt_view(avatar_url)),
            ),
    {
        let ghost rec = user_record(id@, name@, opt_view(display_name), opt_view(avatar_url));
        let ghost d0 = platform_of(self@, platform@);
        let key = id.to_string();
        let data = self.platform_mut(platform);
        let r = match find_user(&data.users, &key) {
            Some(k) => {
                let changed = !(data.users[k].name == name) || !opt_str_eq(
                    &data.users[k].display_name,
                    &display_name,
                ) || !opt_str_eq(&data.users[k].avatar_url, &avatar_url);
                if changed {
                    data.users.set(k, FetchedUser { id: key, name, display_name, avatar_url });
                } else {
                    assert(d0.users[k as int] == rec);
                }
                assert(data@.users =~= d0.users.update(k as int, rec));
                changed
            },
            None => {
                data.users.push(FetchedUser { id: key, name, display_name, avatar_url });
                assert(data@.users =~= d0.users.push(rec));
                true
            },
        };
        assert(data@.channels == d0.channels);
        proof {
            lemma_insert_unique(old(self)@, platform@, data@);
        }
        r
    }
    /// Removes every user with id `id` from `platform`; returns whether one
    /// was there.
    pub fn remove_user(&mut self, platform: &str, id: &str) -> (r: bool)
        requires
            old(self).wf(),
        ensures
            final(self).wf(),
            final(self)@ == store_user_removed(old(self)@, platform@, id@),
            r == has_user(platform_of(old(self)@, platform@).users, id@),
    {
        let ghost d0 = platform_of(self@, platform@);
        let key = id.to_string();
        let data = self.platform_mut(platform);
        let mut kept: Vec<FetchedUser> = Vec::new();
        let mut removed = false;
        let mut i: usize = 0;
        while i < data.users.len()
            invariant
                i <= data.users@.len(),
                data@ == d0,
                kept@.map_values(|u: FetchedUser| u@) == users_without(d0.users.take(i as int), id@),
                removed == has_user(d0.users.take(i as int), id@),
                key@ == id@,
            decreases data.users@.len() - i,
        {
            let ghost before = d0.users.take(i as int);
            let ghost after = d0.users.take(i + 1);
            assert(after.drop_last() =~= before);
            assert(after.last() == data.users@[i as int]@);
            if data.users[i].id == key {
                removed = true;
                assert(after[i as int].id == id@);
            } else {
                let u = data.users[i].duplicate();
                kept.push(u);
                assert(kept@.map_values(|u: FetchedUser| u@) =~= users_without(before, id@).push(after.last()));
                assert(has_user(after, id@) == has_user(before, id@)) by {
                    if has_user(after, id@) {
                        let j = choose|j: int| 0 <= j < after.len() && after[j].id == id@;
                        assert(before[j] == after[j]);
                    }
                    if has_user(before, id@) {
                        let j = choose|j: int| 0 <= j < before.len() && before[j].id == id@;
                        assert(before[j] == after[j]);
                    }
                }
            }
            if removed {
                assert(has_user(after, id@)) by {
                    if has_user(before, id@) {
                        let j = choose|j: int| 0 <= j < before.len() && before[j].id == id@;
                        assert(before[j] == after[j]);
                    } else {
                        assert(after[i as int].id == id@);
                    }
                }
            }
            i = i + 1;
        }
        assert(d0.users.take(i as int) =~= d0.users);
        data.users = kept;
        assert(data@.users == users_without(d0.users, id@));
        proof {
            lemma_insert_unique(old(self)@, platform@, data@);
        }
        removed
    }

    /// Removes every channel with id `id` from `platform`; returns whether one
    /// was there.
    pub fn remove_channel(&mut self, platform: &str, id: &str) -> (r: bool)
        requires
            old(self).wf(),
        ensures
            final(self).wf(),
            final(self)@ == store_channel_removed(old(self)@, platform@, id@),
            r == has_channel(platform_of(old(self)@, platform@).channels, id@),
    {
        let ghost d0 = platform_of(self@, platform@);
        let key = id.to_string();
        let data = self.platform_mut(platform);
        let mut kept: Vec<FetchedChannel> = Vec::new();
        let mut removed = false;
        let mut i: usize = 0;
        while i < data.channels.len()
            invariant
                i <= data.channels@.len(),
                data@ == d0,
                kept@.map_values(|c: FetchedChannel| c@) == channels_without(d0.channels.take(i as int), id@),
                removed == has_channel(d0.channels.take(i as int), id@),
                key@ == id@,
            decreases data.channels@.len() - i,
        {
            let ghost before = d0.channels.take(i as int);
            let ghost after = d0.channels.take(i + 1);
            assert(after.drop_last() =~= before);
            assert(after.last() == data.channels@[i as int]@);
            if data.channels[i].id == key {
                removed = true;
                assert(after[i as int].id == id@);
            } else {
                let c = data.channels[i].duplicate();
                kept.push(c);
                assert(kept@.map_values(|c: FetchedChannel| c@) =~= channels_without(before, id@).push(after.last()));
                assert(has_channel(after, id@) == has_channel(before, id@)) by {
                    if has_channel(after, id@) {
                        let j = choose|j: int| 0 <= j < after.len() && after[j].id == id@;
                        assert(before[j] == after[j]);
                    }
                    if has_channel(before, id@) {
                        let j = choose|j: int| 0 <= j < before.len() && before[j].id == id@;
                        assert(before[j] == after[j]);
                    }
                }
            }
            if removed {
                assert(has_channel(after, id@)) by {
                    if has_channel(before, id@) {
                        let j = choose|j: int| 0 <= j < before.len() && before[j].id == id@;
                        assert(before[j] == after[j]);
                    } else {
                        assert(after[i as int].id == id@);
                    }
                }
            }
            i = i + 1;
        }
        assert(d0.channels.take(i as int) =~= d0.channels);
        data.channels = kept;
        assert(data@.channels == channels_without(d0.channels, id@));
        proof {
            lemma_insert_unique(old(self)@, platform@, data@);
        }
        removed
    }
    /// Adds the channel `id` to `platform`, or renames the first channel with
    /// that id; returns whether anything changed.
    pub fn upsert_channel(&mut self, platform: &str, id: &str, name: String) -> (r: bool)
        requires
            old(self).wf(),
        ensures
            final(self).wf(),
            final(self)@ == store_channel_upserted(
                old(self)@,
                platform@,
                FetchedChannelView { id: id@, name: name@ },
            ),
            r == channel_upsert_changes(
                platform_of(old(self)@, platform@).channels,
                FetchedChannelView { id: id@, name: name@ },
            ),
    {
        let ghost rec = FetchedChannelView { id: id@, name: name@ };
        let ghost d0 = platform_of(self@, platform@);
        let key = id.to_string();
        let data = self.platform_mut(platform);
        let r = match find_channel(&data.channels, &key) {
            Some(k) => {
                let changed = !(data.channels[k].name == name);
                if changed {
                    data.channels.set(k, FetchedChannel { id: key, name });
                } else {
                    assert(d0.channels[k as int] == rec);
                }
                assert(data@.channels =~= d0.channels.update(k as int, rec));
                changed
            },
            None => {
                data.channels.push(FetchedChannel { id: key, name });
                assert(data@.channels =~= d0.channels.push(rec));
                true
            },
        };
        assert(data@.users == d0.users);
        proof {
            lemma_insert_unique(old(self)@, platform@, data@);
        }
        r
    }

    /// Gives the first user with id `old_id` on `platform` a new id and name,
    /// keeping its display name and avatar; when there is none, adds a bare
    /// record under the new id. Returns whether anything changed.
    pub fn rename_user(&mut self, platform: &str, old_id: &str, new_id: &str, new_name: &str) -> (r: bool)
        requires
            old(self).wf(),
        ensures
            final(self).wf(),
            final(self)@ == store_user_renamed(old(self)@, platform@, old_id@, new_id@, new_name@),
            r == user_rename_changes(platform_of(old(self)@, platform@).users, old_id@, new_id@, new_name@),
            r == (final(self)@ != old(self)@),
    {
        let ghost d0 = platform_of(self@, platform@);
        let ghost s0 = self@;
        let key = old_id.to_string();
        let data = self.platform_mut(platform);
        let changed = match find_user(&data.users, &key) {
            Some(k) => {
                let u = &data.users[k];
                let nid = new_id.to_string();
                let nname = new_name.to_string();
                let differs = !(u.id == nid) || !(u.name == nname);
                assert(u@ == d0.users[k as int]);
                let renamed = FetchedUser {
                    id: new_id.to_string(),
                    name: new_name.to_string(),
                    display_name: u.display_name.duplicate(),
                    avatar_url: u.avatar_url.duplicate(),
                };
                proof {
                    let rec = FetchedUserView { id: new_id@, name: new_name@, ..d0.users[k as int] };
                    assert(renamed@ == rec);
                    if !differs {
                        assert(d0.users[k as int] == rec);
                        assert(d0.users.update(k as int, rec) =~= d0.users);
                    } else {
                        assert(d0.users.update(k as int, rec)[k as int] != d0.users[k as int]);
                    }
                }
                data.users.set(k, renamed);
                assert(data@.users =~= users_renamed(d0.users, old_id@, new_id@, new_name@));
                differs
            },
            None => {
                data.users.push(
                    FetchedUser {
                        id: new_id.to_string(),
                        name: new_name.to_string(),
                        display_name: None,
                        avatar_url: None,
                    },
                );
                assert(data@.users =~= users_renamed(d0.users, old_id@, new_id@, new_name@));
                assert(data@.users.len() != d0.users.len());
                true
            },
        };
        assert(data@.channels == d0.channels);
        proof {
            lemma_insert_unique(s0, platform@, data@);
            let t = assoc_insert(s0, platform@, data@);
            if changed {
                assert(lookup(t, platform@) == Some(data@));
                if t == s0 {
                    assert(platform_of(s0, platform@) == data@);
                }
            } else {
                assert(data@ == d0);
                assert(has_key(s0, platform@));
                lemma_key_pos(s0, key_pos(s0, platform@));
                assert(t =~= s0);
            }
        }
        changed
    }

    /// Upserts each listed user on `platform`, in order, keyed by its id or,
    /// lacking one, its name; returns whether any of them changed something.
    pub fn merge_users(&mut self, platform: &str, users: Vec<User>) -> (r: bool)
        requires
            old(self).wf(),
        ensures
            final(self).wf(),
            final(self)@ == store_users_merged(old(self)@, platform@, users@),
            r == users_merge_changes(old(self)@, platform@, users@),
    {
        let mut changed = false;
        let mut i: usize = 0;
        while i < users.len()
            invariant
                i <= users@.len(),
                self.wf(),
                self@ == store_users_merged(old(self)@, platform@, users@.take(i as int)),
                changed == users_merge_changes(old(self)@, platform@, users@.take(i as int)),
            decreases users@.len() - i,
        {
            let ghost before = users@.take(i as int);
            let ghost after = users@.take(i + 1);
            assert(after.drop_last() =~= before);
            assert(after.last() == users@[i as int]);
            let u = &users[i];
            let id = match &u.id {
                Some(x) => x.clone(),
                None => u.name.clone(),
            };
            let name = u.name.clone();
            let display_name = u.display_name.duplicate();
            let avatar_url = u.avatar_url.duplicate();
            assert(user_record(id@, name@, opt_view(display_name), opt_view(avatar_url)) == record_of(users@[i as int]));
            if self.upsert_user(platform, id.as_str(), name, display_name, avatar_url) {
                changed = true;
            }
            i = i + 1;
        }
        assert(users@.take(i as int) =~= users@);
        changed
    }
}

} // verus!
