//! User identity types: platform-specific and cross-platform.

use vstd::prelude::*;

use crate::peers::{
    alias_at, index_consistent, model_find, model_ok, model_wf, reindexed, rekeyed, AliasKey, Peered, PeerView, Peers,
    PeersModel,
};
use crate::platform::PlatformId;
use crate::table::{
    assoc_insert, assoc_remove, has_key, lemma_insert_unique, lemma_remove_unique, lookup, Duplicate, Table,
};
use crate::text::{first_present, lemma_first_present, lowercase, opt_view, to_lowercase};

verus! {

/// A user's identity on a single platform.
#[derive(Debug, Clone)]
pub struct PlatformUser {
    pub platform: PlatformId,
    pub id: String,
    pub display_name: Option<String>,
    pub avatar_url: Option<String>,
}

impl Duplicate for PlatformUser {
    fn duplicate(&self) -> (r: Self) {
        PlatformUser {
            platform: self.platform.duplicate(),
            id: self.id.clone(),
            display_name: self.display_name.duplicate(),
            avatar_url: self.avatar_url.duplicate(),
        }
    }
}

/// A cross-platform user identity, grouping aliases across platforms.
#[derive(Debug, Clone)]
pub struct CoreUser {
    pub alias: Table<PlatformId, PlatformUser>,
    pub display_name_override: Option<String>,
    pub avatar_override: Option<String>,
}

impl Peered for CoreUser {
    type Platform = PlatformUser;

    open spec fn alias_view(&self) -> Seq<(Seq<char>, PlatformUser)> {
        self.alias@
    }

    open spec fn overrides(&self) -> Seq<Option<Seq<char>>> {
        seq![opt_view(self.display_name_override), opt_view(self.avatar_override)]
    }

    open spec fn fresh_overrides() -> Seq<Option<Seq<char>>> {
        seq![None, None]
    }

    open spec fn spec_platform_of(item: PlatformUser) -> Seq<char> {
        item.platform@
    }

    open spec fn spec_id_of(item: PlatformUser) -> Seq<char> {
        item.id@
    }

    open spec fn spec_match_key(item: PlatformUser) -> Option<Seq<char>> {
        match item.display_name {
            Some(d) => Some(lowercase(d@)),
            None => None,
        }
    }

    fn aliases(&self) -> (r: &Table<PlatformId, PlatformUser>) {
        &self.alias
    }

    fn aliases_mut(&mut self) -> (r: &mut Table<PlatformId, PlatformUser>) {
        &mut self.alias
    }

    fn platform_of(item: &PlatformUser) -> (r: &PlatformId) {
        &item.platform
    }

    fn id_of(item: &PlatformUser) -> (r: &str) {
        item.id.as_str()
    }

    fn from_single_alias(platform: PlatformId, item: PlatformUser) -> (r: Self) {
        let mut alias = Table::new();
        alias.insert(platform, item);
        let r = CoreUser { alias, display_name_override: None, avatar_override: None };
        assert(r.overrides() =~= Self::fresh_overrides());
        r
    }

    fn match_key(item: &PlatformUser) -> (r: Option<String>) {
        match &item.display_name {
            Some(dn) => Some(to_lowercase(dn.as_str())),
            None => None,
        }
    }

    fn duplicate_alias(item: &PlatformUser) -> (r: PlatformUser) {
        item.duplicate()
    }

    fn duplicate_peer(&self) -> (r: Self) {
        let r = CoreUser {
            alias: self.alias.duplicate(),
            display_name_override: self.display_name_override.duplicate(),
            avatar_override: self.avatar_override.duplicate(),
        };
        assert(r.overrides() =~= self.overrides());
        r
    }
}

/// The aliases' display names, in alias order.
pub open spec fn alias_display_names(al: Seq<(Seq<char>, PlatformUser)>) -> Seq<Option<Seq<char>>> {
    al.map_values(|e: (Seq<char>, PlatformUser)| opt_view(e.1.display_name))
}

/// The aliases' avatar URLs, in alias order.
pub open spec fn alias_avatars(al: Seq<(Seq<char>, PlatformUser)>) -> Seq<Option<Seq<char>>> {
    al.map_values(|e: (Seq<char>, PlatformUser)| opt_view(e.1.avatar_url))
}

/// Best display name: the override, else the first alias that has one.
pub open spec fn user_display_name(overridden: Option<Seq<char>>, al: Seq<(Seq<char>, PlatformUser)>) -> Option<Seq<char>> {
    match overridden {
        Some(o) => Some(o),
        None => first_present(alias_display_names(al)),
    }
}

/// Best avatar URL: the override, else the first alias that has one.
pub open spec fn user_avatar_url(overridden: Option<Seq<char>>, al: Seq<(Seq<char>, PlatformUser)>) -> Option<Seq<char>> {
    match overridden {
        Some(o) => Some(o),
        None => first_present(alias_avatars(al)),
    }
}

impl CoreUser {
    /// The user's alias on `platform`, if any.
    pub fn get_platform_user(&self, platform: &PlatformId) -> (r: Option<&PlatformUser>)
        ensures
            match r {
                Some(pu) => lookup(self.alias@, platform@) == Some(*pu),
                None => lookup(self.alias@, platform@) is None,
            },
    {
        self.alias.get(platform)
    }

    /// Best display name: the override, then the first alias that has one.
    pub fn display_name(&self) -> (r: Option<&str>)
        ensures
            match r {
                Some(s) => user_display_name(opt_view(self.display_name_override), self.alias@) == Some(s@),
                None => user_display_name(opt_view(self.display_name_override), self.alias@) is None,
            },
    {
        if let Some(o) = &self.display_name_override {
            return Some(o.as_str());
        }
        let ghost s = alias_display_names(self.alias@);
        let n = self.alias.len();
        let mut i: usize = 0;
        while i < n
            invariant
                n == self.alias@.len(),
                s == alias_display_names(self.alias@),
                self.display_name_override is None,
                i <= n,
                forall|j: int| 0 <= j < i ==> s[j] is None,
            decreases n - i,
        {
            let (_, pu) = self.alias.entry_at(i);
            assert(s[i as int] == opt_view(pu.display_name));
            if let Some(dn) = &pu.display_name {
                proof {
                    lemma_first_present(s, i as int);
                }
                return Some(dn.as_str());
            }
            i = i + 1;
        }
        proof {
            lemma_first_present(s, i as int);
        }
        None
    }

    /// Best avatar URL: the override, then the first alias that has one.
    pub fn avatar_url(&self) -> (r: Option<&str>)
        ensures
            match r {
                Some(s) => user_avatar_url(opt_view(self.avatar_override), self.alias@) == Some(s@),
                None => user_avatar_url(opt_view(self.avatar_override), self.alias@) is None,
            },
    {
        if let Some(o) = &self.avatar_override {
            return Some(o.as_str());
        }
        let ghost s = alias_avatars(self.alias@);
        let n = self.alias.len();
        let mut i: usize = 0;
        while i < n
            invariant
                n == self.alias@.len(),
                s == alias_avatars(self.alias@),
                self.avatar_override is None,
                i <= n,
                forall|j: int| 0 <= j < i ==> s[j] is None,
            decreases n - i,
        {
            let (_, pu) = self.alias.entry_at(i);
            assert(s[i as int] == opt_view(pu.avatar_url));
            if let Some(url) = &pu.avatar_url {
                proof {
                    lemma_first_present(s, i as int);
                }
                return Some(url.as_str());
            }
            i = i + 1;
        }
        proof {
            lemma_first_present(s, i as int);
        }
        None
    }
}

/// The name a user is shown under on `platform`: their alias's display name
/// there, else their best display name, else "unknown".
pub open spec fn shown_name(platform: Seq<char>, u: CoreUser) -> Seq<char> {
    match lookup(u.alias@, platform) {
        Some(pu) if pu.display_name is Some => pu.display_name->0@,
        _ => match user_display_name(opt_view(u.display_name_override), u.alias@) {
            Some(n) => n,
            None => "unknown"@,
        },
    }
}

/// The avatar a user is shown with on `platform`: their alias's avatar there,
/// else their best avatar.
pub open spec fn shown_avatar(platform: Seq<char>, u: CoreUser) -> Option<Seq<char>> {
    match lookup(u.alias@, platform) {
        Some(pu) if pu.avatar_url is Some => opt_view(pu.avatar_url),
        _ => user_avatar_url(opt_view(u.avatar_override), u.alias@),
    }
}

impl CoreUser {
    /// The name the user is shown under on `platform`.
    pub fn shown_name(&self, platform: &PlatformId) -> (r: &str)
        ensures
            r@ == shown_name(platform@, *self),
    {
        if let Some(pu) = self.get_platform_user(platform) {
            if let Some(dn) = &pu.display_name {
                return dn.as_str();
            }
        }
        match self.display_name() {
            Some(n) => n,
            None => "unknown",
        }
    }

    /// The avatar the user is shown with on `platform`, if any.
    pub fn shown_avatar(&self, platform: &PlatformId) -> (r: Option<&str>)
        ensures
            match r {
                Some(a) => shown_avatar(platform@, *self) == Some(a@),
                None => shown_avatar(platform@, *self) is None,
            },
    {
        if let Some(pu) = self.get_platform_user(platform) {
            if let Some(a) = &pu.avatar_url {
                return Some(a.as_str());
            }
        }
        self.avatar_url()
    }
}

/// The avatar of the alias that `rename` replaces, if any.
pub open spec fn prior_avatar(m: PeersModel<PlatformUser>, platform: Seq<char>, old_id: Seq<char>) -> Option<String> {
    match lookup(m.index, (platform, old_id)) {
        Some(idx) => if idx < m.items.len() && m.items[idx as int] is Some {
            match lookup(m.items[idx as int]->0.aliases, platform) {
                Some(pu) => pu.avatar_url,
                None => None,
            }
        } else {
            None
        },
        None => None,
    }
}

/// `rename`: the index entry (platform, old_id) moves to (platform, new_id);
/// in the renamed entity the alias on `platform` is replaced by `nu`, and the
/// match index follows the alias's new match key (the old key is released
/// only when no alias of the entity still carries it).
pub open spec fn model_rename(
    m: PeersModel<PlatformUser>,
    platform: Seq<char>,
    old_id: Seq<char>,
    new_id: Seq<char>,
    nu: PlatformUser,
) -> PeersModel<PlatformUser> {
    match lookup(m.index, (platform, old_id)) {
        None => m,
        Some(idx) => {
            let index2 = reindexed(m.index, (platform, old_id), (platform, new_id));
            if idx < m.items.len() && m.items[idx as int] is Some {
                let v = m.items[idx as int]->0;
                let old_match = match lookup(v.aliases, platform) {
                    Some(pu) => CoreUser::spec_match_key(pu),
                    None => None,
                };
                let aliases2 = assoc_insert(assoc_remove(v.aliases, platform), platform, nu);
                PeersModel {
                    items: m.items.update(idx as int, Some(PeerView { aliases: aliases2, overrides: v.overrides })),
                    index: index2,
                    matches: rekeyed::<CoreUser>(m.matches, old_match, CoreUser::spec_match_key(nu), aliases2, idx),
                }
            } else {
                PeersModel { items: m.items, index: index2, matches: m.matches }
            }
        },
    }
}

/// Renaming to an alias with the new id keeps the index consistent.
pub proof fn lemma_rename_ok(
    m: PeersModel<PlatformUser>,
    platform: Seq<char>,
    old_id: Seq<char>,
    new_id: Seq<char>,
    nu: PlatformUser,
)
    requires
        model_ok::<CoreUser>(m),
        CoreUser::spec_id_of(nu) == new_id,
    ensures
        index_consistent::<CoreUser>(model_rename(m, platform, old_id, new_id, nu)),
{
    let ko = (platform, old_id);
    let kn = (platform, new_id);
    if has_key(m.index, ko) {
        let idx = lookup(m.index, ko)->0;
        assert(alias_at::<CoreUser>(m, idx, ko));
        let v = m.items[idx as int]->0;
        let r = model_rename(m, platform, old_id, new_id, nu);
        let ix1 = assoc_remove(m.index, ko);
        lemma_remove_unique(m.index, ko);
        lemma_insert_unique(ix1, kn, idx);
        let al1 = assoc_remove(v.aliases, platform);
        lemma_remove_unique(v.aliases, platform);
        lemma_insert_unique(al1, platform, nu);
        assert forall|k: (Seq<char>, Seq<char>)| #![trigger lookup(r.index, k)] has_key(r.index, k) implies alias_at::<CoreUser>(
            r,
            lookup(r.index, k)->0,
            k,
        ) by {
            if k != kn {
                assert(lookup(r.index, k) == lookup(ix1, k));
                assert(k != ko);
                assert(lookup(ix1, k) == lookup(m.index, k));
                let j = lookup(m.index, k)->0;
                assert(alias_at::<CoreUser>(m, j, k));
                if j == idx {
                    assert(k.0 != platform);
                }
            }
        }
    }
}

/// After renaming a known user, the user is found under the new id with the
/// new alias, and no longer under the old id (when the ids differ).
pub proof fn law_rename_then_find(
    m: PeersModel<PlatformUser>,
    platform: Seq<char>,
    old_id: Seq<char>,
    new_id: Seq<char>,
    nu: PlatformUser,
)
    requires
        model_wf(m),
        model_find(m, platform, old_id) is Some,
    ensures
        model_find(model_rename(m, platform, old_id, new_id, nu), platform, new_id) matches Some(v)
            && lookup(v.aliases, platform) == Some(nu),
        old_id != new_id ==> model_find(model_rename(m, platform, old_id, new_id, nu), platform, old_id) is None,
{
    let idx = lookup(m.index, (platform, old_id))->0;
    let v = m.items[idx as int]->0;
    lemma_remove_unique(m.index, (platform, old_id));
    lemma_insert_unique(assoc_remove(m.index, (platform, old_id)), (platform, new_id), idx);
    lemma_remove_unique(v.aliases, platform);
    lemma_insert_unique(assoc_remove(v.aliases, platform), platform, nu);
}

/// The collection of cross-platform users.
pub type Users = Peers<CoreUser>;

impl Peers<CoreUser> {
    /// Renames a user: updates the primary index, the match-key index and
    /// the alias entry (keeping the alias's avatar).
    pub fn rename(
        &mut self,
        platform: &PlatformId,
        old_id: &str,
        new_id: &str,
        new_display_name: Option<String>,
    )
        requires
            old(self).wf(),
        ensures
            final(self).wf(),
            exists|nu: PlatformUser|
                nu.platform@ == platform@ && nu.id@ == new_id@ && nu.display_name == new_display_name
                    && nu.avatar_url == prior_avatar(old(self).model(), platform@, old_id@)
                    && final(self).model() == model_rename(old(self).model(), platform@, old_id@, new_id@, nu),
    {
        let old_key = AliasKey { platform: platform.duplicate(), id: old_id.to_string() };
        let new_key = AliasKey { platform: platform.duplicate(), id: new_id.to_string() };
        let ghost witness = PlatformUser {
            platform: *platform,
            id: new_key.id,
            display_name: new_display_name,
            avatar_url: prior_avatar(self.model(), platform@, old_id@),
        };
        let idx = match self.find_index(platform, old_id) {
            Some(i) => i,
            None => {
                assert(self.model() == model_rename(old(self).model(), platform@, old_id@, new_id@, witness));
                return ;
            },
        };
        proof {
            crate::table::lemma_lookup_below(old(self).model().index, old_key@, old(self).model().items.len() as int);
        }
        self.reindex(&old_key, new_key);
        match self.take_item(idx) {
            Some(mut core_user) => {
                let old_match = match core_user.alias.get(platform) {
                    Some(pu) => CoreUser::match_key(pu),
                    None => None,
                };
                let old_avatar = match core_user.alias.remove(platform) {
                    Some(pu) => pu.avatar_url,
                    None => None,
                };
                let new_alias = PlatformUser {
                    platform: platform.duplicate(),
                    id: new_id.to_string(),
                    display_name: new_display_name,
                    avatar_url: old_avatar,
                };
                let ghost nu = new_alias;
                let new_match = CoreUser::match_key(&new_alias);
                core_user.alias.insert(platform.duplicate(), new_alias);
                self.put_item(idx, core_user);
                self.update_match_key(old_match, new_match, idx);
                proof {
                    let m0 = old(self).model();
                    let want = model_rename(m0, platform@, old_id@, new_id@, nu);
                    assert(lookup(m0.index, (platform@, old_id@)) == Some(idx));
                    assert(self.model().items =~= want.items);
                    assert(self.model().index =~= want.index);
                    assert(self.model().matches =~= want.matches);
                    lemma_rename_ok(m0, platform@, old_id@, new_id@, nu);
                }
            },
            None => {
                proof {
                    let m0 = old(self).model();
                    let want = model_rename(m0, platform@, old_id@, new_id@, witness);
                    assert(self.model().items =~= want.items);
                    assert(self.model().index =~= want.index);
                    assert(self.model().matches =~= want.matches);
                    lemma_rename_ok(m0, platform@, old_id@, new_id@, witness);
                }
            },
        }
    }
}

/// Users are matched by display name alone: two users with the same display
/// name have the same match key, whatever their platforms, ids and avatars;
/// a user without a display name is never matched.
pub proof fn law_user_key_is_by_display_name(u1: PlatformUser, u2: PlatformUser)
    ensures
        opt_view(u1.display_name) == opt_view(u2.display_name) ==> CoreUser::spec_match_key(u1)
            == CoreUser::spec_match_key(u2),
        u1.display_name is None <==> CoreUser::spec_match_key(u1) is None,
{
}

} // verus!
