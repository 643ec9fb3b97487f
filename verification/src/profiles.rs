//! Cross-platform user profiles: from configured links, and by matching user
//! names across platforms.

use vstd::prelude::*;

use crate::fetched::{FetchedData, FetchedUser, PlatformData};
use crate::table::{
    assoc_insert, assoc_insert_absent, has_key, keys_unique, lemma_insert_unique, lemma_lookup_below, lemma_vals_below, lookup, vals_below, Duplicate, Table,
};
use crate::text::{lowercase, to_lowercase};
use crate::user::User;

verus! {

/// The display identity shown for a user on every platform.
#[derive(Debug)]
pub struct UserProfile {
    pub display_name: Option<String>,
    pub avatar_url: Option<String>,
}

impl Duplicate for UserProfile {
    fn duplicate(&self) -> (r: Self) {
        UserProfile { display_name: self.display_name.duplicate(), avatar_url: self.avatar_url.duplicate() }
    }
}

/// A configured link between one person's accounts: platform name to user
/// id, with the profile to show for all of them.
#[derive(Debug)]
pub struct UserLink {
    pub identities: Table<String, String>,
    pub display_name: Option<String>,
    pub avatar_url: Option<String>,
}

/// The profile a link configures.
pub open spec fn link_profile(link: UserLink) -> UserProfile {
    UserProfile { display_name: link.display_name, avatar_url: link.avatar_url }
}

/// `s` with each of the user ids in `ids` bound to `profile`, in order.
pub open spec fn bind_ids(
    s: Seq<(Seq<char>, UserProfile)>,
    ids: Seq<(Seq<char>, String)>,
    profile: UserProfile,
) -> Seq<(Seq<char>, UserProfile)>
    decreases ids.len(),
{
    if ids.len() == 0 {
        s
    } else {
        assoc_insert(bind_ids(s, ids.drop_last(), profile), ids.last().1@, profile)
    }
}

/// The profiles that `links` configure: every linked user id bound to its
/// link's profile, a later link overriding an earlier one.
pub open spec fn profiles_from(links: Seq<UserLink>) -> Seq<(Seq<char>, UserProfile)>
    decreases links.len(),
{
    if links.len() == 0 {
        Seq::empty()
    } else {
        bind_ids(profiles_from(links.drop_last()), links.last().identities@, link_profile(links.last()))
    }
}

/// Builds the profiles configured by `links`, keyed by user id.
pub fn build_from_config(links: &[UserLink]) -> (r: Table<String, UserProfile>)
    ensures
        r@ == profiles_from(links@),
{
    let mut profiles: Table<String, UserProfile> = Table::new();
    let mut i: usize = 0;
    while i < links.len()
        invariant
            i <= links@.len(),
            profiles@ == profiles_from(links@.take(i as int)),
        decreases links@.len() - i,
    {
        let link = &links[i];
        let ghost start = profiles@;
        assert(links@.take(i + 1).drop_last() =~= links@.take(i as int));
        let mut j: usize = 0;
        while j < link.identities.len()
            invariant
                j <= link.identities@.len(),
                link == links@[i as int],
                profiles@ == bind_ids(start, link.identities@.take(j as int), link_profile(*link)),
            decreases link.identities@.len() - j,
        {
            let (_, id) = link.identities.entry_at(j);
            let profile = UserProfile {
                display_name: link.display_name.duplicate(),
                avatar_url: link.avatar_url.duplicate(),
            };
            assert(link.identities@.take(j + 1).drop_last() =~= link.identities@.take(j as int));
            profiles.insert(id.clone(), profile);
            j = j + 1;
        }
        assert(link.identities@.take(j as int) =~= link.identities@);
        i = i + 1;
    }
    assert(links@.take(i as int) =~= links@);
    profiles
}

/// Lowercased names and display names of `users`, each to the position of
/// the user: a name binds its user, overriding an earlier one; a display
/// name binds its user only if not yet bound.
pub open spec fn name_index(users: Seq<FetchedUser>) -> Seq<(Seq<char>, usize)>
    decreases users.len(),
{
    if users.len() == 0 {
        Seq::empty()
    } else {
        let k = (users.len() - 1) as usize;
        let u = users.last();
        let s = assoc_insert(name_index(users.drop_last()), lowercase(u.name@), k);
        match u.display_name {
            Some(dn) => assoc_insert_absent(s, lowercase(dn@), k),
            None => s,
        }
    }
}

/// The profile a matched user lends: its display name (its name when it has
/// none) and its avatar.
pub open spec fn matched_profile(u: FetchedUser) -> UserProfile {
    UserProfile {
        display_name: Some(
            match u.display_name {
                Some(d) => d,
                None => u.name,
            },
        ),
        avatar_url: u.avatar_url,
    }
}

/// `prof` after matching each of `users1` by lowercased name against
/// `users2`: both matched ids get the lent profile unless they have one.
pub open spec fn correlate_users(
    prof: Seq<(Seq<char>, UserProfile)>,
    users1: Seq<FetchedUser>,
    users2: Seq<FetchedUser>,
) -> Seq<(Seq<char>, UserProfile)>
    decreases users1.len(),
{
    if users1.len() == 0 {
        prof
    } else {
        let p0 = correlate_users(prof, users1.drop_last(), users2);
        let u1 = users1.last();
        match lookup(name_index(users2), lowercase(u1.name@)) {
            Some(k) => {
                let u2 = users2[k as int];
                let pr = matched_profile(u2);
                assoc_insert_absent(assoc_insert_absent(p0, u1.id@, pr), u2.id@, pr)
            },
            None => p0,
        }
    }
}

/// `prof` after matching two platforms both ways: the names of each
/// platform's users against the names and display names of the other's.
pub open spec fn correlate_pair(
    prof: Seq<(Seq<char>, UserProfile)>,
    users1: Seq<FetchedUser>,
    users2: Seq<FetchedUser>,
) -> Seq<(Seq<char>, UserProfile)> {
    correlate_users(correlate_users(prof, users1, users2), users2, users1)
}

/// `prof` after matching platform `i` against platforms `i + 1 .. m`.
pub open spec fn correlate_row(
    prof: Seq<(Seq<char>, UserProfile)>,
    plats: Seq<(String, PlatformData)>,
    i: int,
    m: int,
) -> Seq<(Seq<char>, UserProfile)>
    decreases m - i,
{
    if m <= i + 1 {
        prof
    } else {
        correlate_pair(correlate_row(prof, plats, i, m - 1), plats[i].1.users@, plats[m - 1].1.users@)
    }
}

/// `prof` after matching each of the platforms `0 .. r` against every later
/// one.
pub open spec fn correlate_rows(
    prof: Seq<(Seq<char>, UserProfile)>,
    plats: Seq<(String, PlatformData)>,
    r: int,
) -> Seq<(Seq<char>, UserProfile)>
    decreases r,
{
    if r <= 0 {
        prof
    } else {
        correlate_row(correlate_rows(prof, plats, r - 1), plats, r - 1, plats.len() as int)
    }
}

/// Indexes `users` by lowercased name and display name.
fn index_names(users: &Vec<FetchedUser>) -> (r: Table<String, usize>)
    ensures
        r@ == name_index(users@),
{
    let mut by_name: Table<String, usize> = Table::new();
    let mut k: usize = 0;
    while k < users.len()
        invariant
            k <= users@.len(),
            by_name@ == name_index(users@.take(k as int)),
        decreases users@.len() - k,
    {
        let ghost t = users@.take(k + 1);
        assert(t.drop_last() =~= users@.take(k as int));
        assert(t.last() == users@[k as int]);
        let u = &users[k];
        by_name.insert(to_lowercase(u.name.as_str()), k);
        match &u.display_name {
            Some(dn) => {
                by_name.insert_absent(to_lowercase(dn.as_str()), k);
            },
            None => {},
        }
        k = k + 1;
    }
    assert(users@.take(k as int) =~= users@);
    by_name
}

/// Matches the users of `d1` against those of `d2` by lowercased name.
fn match_users(d1: &PlatformData, d2: &PlatformData, profiles: &mut Table<String, UserProfile>)
    ensures
        final(profiles)@ == correlate_users(old(profiles)@, d1.users@, d2.users@),
{
    let by_name = index_names(&d2.users);
    let ghost start = profiles@;
    let mut a: usize = 0;
    while a < d1.users.len()
        invariant
            a <= d1.users@.len(),
            by_name@ == name_index(d2.users@),
            profiles@ == correlate_users(start, d1.users@.take(a as int), d2.users@),
        decreases d1.users@.len() - a,
    {
        let ghost t = d1.users@.take(a + 1);
        assert(t.drop_last() =~= d1.users@.take(a as int));
        assert(t.last() == d1.users@[a as int]);
        let u1 = &d1.users[a];
        let key = to_lowercase(u1.name.as_str());
        match by_name.get(&key) {
            Some(k) => {
                proof {
                    assert(d2.users@.len() == d2.users.len());
                    lemma_name_index_below(d2.users@, key@);
                }
                let u2 = &d2.users[*k];
                let display = match &u2.display_name {
                    Some(d) => d.clone(),
                    None => u2.name.clone(),
                };
                let profile = UserProfile { display_name: Some(display), avatar_url: u2.avatar_url.duplicate() };
                assert(profile == matched_profile(*u2));
                profiles.insert_absent(u1.id.clone(), profile.duplicate());
                profiles.insert_absent(u2.id.clone(), profile);
            },
            None => {},
        }
        a = a + 1;
    }
    assert(d1.users@.take(a as int) =~= d1.users@);
}

/// Every position in the name index is a position of `users`.
proof fn lemma_name_index_below(users: Seq<FetchedUser>, key: Seq<char>)
    requires
        users.len() <= usize::MAX,
    ensures
        vals_below(name_index(users), users.len() as int),
        lookup(name_index(users), key) matches Some(k) ==> k < users.len(),
    decreases users.len(),
{
    if users.len() > 0 {
        let k = (users.len() - 1) as usize;
        let u = users.last();
        let s0 = name_index(users.drop_last());
        lemma_name_index_below(users.drop_last(), key);
        let s1 = assoc_insert(s0, lowercase(u.name@), k);
        lemma_vals_below(s0, lowercase(u.name@), k, k as int, users.len() as int);
        if let Some(dn) = u.display_name {
            lemma_vals_below(s1, lowercase(dn@), k, users.len() as int, users.len() as int);
        }
    }
    lemma_lookup_below(name_index(users), key, users.len() as int);
}

/// `t` has unique keys and keeps every binding of `s`.
pub open spec fn keeps_bindings(s: Seq<(Seq<char>, UserProfile)>, t: Seq<(Seq<char>, UserProfile)>) -> bool {
    &&& keys_unique(t)
    &&& forall|k: Seq<char>| has_key(s, k) ==> #[trigger] lookup(t, k) == lookup(s, k)
}

proof fn lemma_keeps_trans(
    a: Seq<(Seq<char>, UserProfile)>,
    b: Seq<(Seq<char>, UserProfile)>,
    c: Seq<(Seq<char>, UserProfile)>,
)
    requires
        keeps_bindings(a, b),
        keeps_bindings(b, c),
    ensures
        keeps_bindings(a, c),
{
    assert forall|k: Seq<char>| has_key(a, k) implies #[trigger] lookup(c, k) == lookup(a, k) by {
        assert(lookup(b, k) == lookup(a, k));
        assert(has_key(b, k));
    }
}

proof fn lemma_absent_keeps(s: Seq<(Seq<char>, UserProfile)>, k: Seq<char>, v: UserProfile)
    requires
        keys_unique(s),
    ensures
        keeps_bindings(s, assoc_insert_absent(s, k, v)),
{
    lemma_insert_unique(s, k, v);
}

proof fn lemma_correlate_users_keeps(
    prof: Seq<(Seq<char>, UserProfile)>,
    users1: Seq<FetchedUser>,
    users2: Seq<FetchedUser>,
)
    requires
        keys_unique(prof),
    ensures
        keeps_bindings(prof, correlate_users(prof, users1, users2)),
    decreases users1.len(),
{
    if users1.len() > 0 {
        let p0 = correlate_users(prof, users1.drop_last(), users2);
        lemma_correlate_users_keeps(prof, users1.drop_last(), users2);
        let u1 = users1.last();
        match lookup(name_index(users2), lowercase(u1.name@)) {
            Some(k) => {
                let u2 = users2[k as int];
                let pr = matched_profile(u2);
                let p1 = assoc_insert_absent(p0, u1.id@, pr);
                lemma_absent_keeps(p0, u1.id@, pr);
                lemma_absent_keeps(p1, u2.id@, pr);
                lemma_keeps_trans(prof, p0, p1);
                lemma_keeps_trans(prof, p1, assoc_insert_absent(p1, u2.id@, pr));
            },
            None => {},
        }
    }
}

proof fn lemma_correlate_row_keeps(
    prof: Seq<(Seq<char>, UserProfile)>,
    plats: Seq<(String, PlatformData)>,
    i: int,
    m: int,
)
    requires
        keys_unique(prof),
    ensures
        keeps_bindings(prof, correlate_row(prof, plats, i, m)),
    decreases m - i,
{
    if m > i + 1 {
        let p0 = correlate_row(prof, plats, i, m - 1);
        lemma_correlate_row_keeps(prof, plats, i, m - 1);
        let p1 = correlate_users(p0, plats[i].1.users@, plats[m - 1].1.users@);
        lemma_correlate_users_keeps(p0, plats[i].1.users@, plats[m - 1].1.users@);
        lemma_correlate_users_keeps(p1, plats[m - 1].1.users@, plats[i].1.users@);
        lemma_keeps_trans(prof, p0, p1);
        lemma_keeps_trans(prof, p1, correlate_row(prof, plats, i, m));
    }
}

proof fn lemma_correlate_rows_keeps(prof: Seq<(Seq<char>, UserProfile)>, plats: Seq<(String, PlatformData)>, r: int)
    requires
        keys_unique(prof),
    ensures
        keeps_bindings(prof, correlate_rows(prof, plats, r)),
    decreases r,
{
    if r > 0 {
        let p0 = correlate_rows(prof, plats, r - 1);
        lemma_correlate_rows_keeps(prof, plats, r - 1);
        lemma_correlate_row_keeps(p0, plats, r - 1, plats.len() as int);
        lemma_keeps_trans(prof, p0, correlate_rows(prof, plats, r));
    }
}

/// Matching names across platforms never replaces a profile: every user id
/// that had a profile (from the configured links, say) keeps exactly it.
pub proof fn law_auto_correlate_keeps_profiles(prof: Seq<(Seq<char>, UserProfile)>, fetched: FetchedData)
    requires
        keys_unique(prof),
    ensures
        ({
            let t = correlate_rows(prof, fetched.platforms@, fetched.platforms@.len() as int);
            forall|k: Seq<char>| has_key(prof, k) ==> #[trigger] lookup(t, k) == lookup(prof, k)
        }),
{
    lemma_correlate_rows_keeps(prof, fetched.platforms@, fetched.platforms@.len() as int);
}

proof fn lemma_bind_ids(s: Seq<(Seq<char>, UserProfile)>, ids: Seq<(Seq<char>, String)>, profile: UserProfile)
    requires
        keys_unique(s),
    ensures
        keys_unique(bind_ids(s, ids, profile)),
        forall|j: int| 0 <= j < ids.len() ==> lookup(bind_ids(s, ids, profile), #[trigger] ids[j].1@) == Some(profile),
        forall|k: Seq<char>|
            (forall|j: int| 0 <= j < ids.len() ==> #[trigger] ids[j].1@ != k) ==> lookup(bind_ids(s, ids, profile), k) == lookup(s, k),
    decreases ids.len(),
{
    if ids.len() > 0 {
        let init = ids.drop_last();
        let b0 = bind_ids(s, init, profile);
        lemma_bind_ids(s, init, profile);
        lemma_insert_unique(b0, ids.last().1@, profile);
        assert forall|j: int| 0 <= j < ids.len() implies lookup(bind_ids(s, ids, profile), #[trigger] ids[j].1@) == Some(profile) by {
            if j < ids.len() - 1 {
                assert(init[j] == ids[j]);
            }
        }
        assert forall|k: Seq<char>|
            (forall|j: int| 0 <= j < ids.len() ==> #[trigger] ids[j].1@ != k) implies lookup(bind_ids(s, ids, profile), k) == lookup(s, k) by {
            assert(ids[ids.len() - 1].1@ != k);
            assert forall|j: int| 0 <= j < init.len() implies #[trigger] init[j].1@ != k by {
                assert(init[j] == ids[j]);
            }
        }
    }
}

proof fn lemma_profiles_from_unique(links: Seq<UserLink>)
    ensures
        keys_unique(profiles_from(links)),
    decreases links.len(),
{
    if links.len() > 0 {
        lemma_profiles_from_unique(links.drop_last());
        lemma_bind_ids(profiles_from(links.drop_last()), links.last().identities@, link_profile(links.last()));
    }
}

/// Every user id that a configured link lists gets the profile of the last
/// link that lists it.
pub proof fn law_linked_ids_get_last_link_profile(links: Seq<UserLink>, i: int, j: int)
    requires
        0 <= i < links.len(),
        0 <= j < links[i].identities@.len(),
        forall|i2: int, j2: int|
            i < i2 < links.len() && 0 <= j2 < links[i2].identities@.len() ==> #[trigger] links[i2].identities@[j2].1@
                != links[i].identities@[j].1@,
    ensures
        lookup(profiles_from(links), links[i].identities@[j].1@) == Some(link_profile(links[i])),
    decreases links.len(),
{
    let init = links.drop_last();
    lemma_profiles_from_unique(init);
    let last = links.last();
    lemma_bind_ids(profiles_from(init), last.identities@, link_profile(last));
    if i < links.len() - 1 {
        assert forall|i2: int, j2: int|
            i < i2 < init.len() && 0 <= j2 < init[i2].identities@.len() implies #[trigger] init[i2].identities@[j2].1@
                != init[i].identities@[j].1@ by {
            assert(init[i2] == links[i2]);
        }
        assert(init[i] == links[i]);
        law_linked_ids_get_last_link_profile(init, i, j);
        let k = links[i].identities@[j].1@;
        assert forall|j2: int| 0 <= j2 < last.identities@.len() implies #[trigger] last.identities@[j2].1@ != k by {
            assert(links[links.len() - 1] == last);
        }
    }
}

/// Matches users across every pair of platforms, both ways: a user's
/// lowercased name against the other platform's lowercased names and display
/// names, lending each matched pair the matched user's display name and
/// avatar; ids that already have a profile keep it.
pub fn auto_correlate(fetched: &FetchedData, profiles: &mut Table<String, UserProfile>)
    ensures
        final(profiles)@ == correlate_rows(old(profiles)@, fetched.platforms@, fetched.platforms@.len() as int),
{
    let n = fetched.platforms.len();
    let mut i: usize = 0;
    while i < n
        invariant
            i <= n,
            n == fetched.platforms@.len(),
            profiles@ == correlate_rows(old(profiles)@, fetched.platforms@, i as int),
        decreases n - i,
    {
        let ghost row_start = profiles@;
        let mut j: usize = i + 1;
        while j < n
            invariant
                i < n,
                i + 1 <= j <= n,
                n == fetched.platforms@.len(),
                profiles@ == correlate_row(row_start, fetched.platforms@, i as int, j as int),
            decreases n - j,
        {
            match_users(&fetched.platforms[i].1, &fetched.platforms[j].1, profiles);
            match_users(&fetched.platforms[j].1, &fetched.platforms[i].1, profiles);
            j = j + 1;
        }
        i = i + 1;
    }
}

/// The key under which a user's profile is kept: its id, or its name when
/// it has none.
pub open spec fn profile_key(u: User) -> Seq<char> {
    match u.id {
        Some(i) => i@,
        None => u.name@,
    }
}

/// Stamps a message's author with its profile, if it has one: the profile's
/// display name replaces the author's name and the profile's avatar the
/// author's avatar, each only when the profile has it.
pub fn enrich_message(author: &mut User, profiles: &Table<String, UserProfile>)
    ensures
        match lookup(profiles@, profile_key(*old(author))) {
            Some(p) => *final(author) == User {
                name: match p.display_name {
                    Some(n) => n,
                    None => old(author).name,
                },
                avatar_url: match p.avatar_url {
                    Some(a) => Some(a),
                    None => old(author).avatar_url,
                },
                ..*old(author)
            },
            None => *final(author) == *old(author),
        },
{
    let key = match &author.id {
        Some(i) => i.clone(),
        None => author.name.clone(),
    };
    match profiles.get(&key) {
        Some(p) => {
            match &p.display_name {
                Some(n) => {
                    author.name = n.clone();
                },
                None => {},
            }
            match &p.avatar_url {
                Some(a) => {
                    author.avatar_url = Some(a.clone());
                },
                None => {},
            }
        },
        None => {},
    }
}

} // verus!
