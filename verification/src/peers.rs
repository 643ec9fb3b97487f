//! Generic indexed collection of cross-platform peer entities.

use vstd::prelude::*;

use crate::platform::PlatformId;
use crate::table::{
    assoc_insert, assoc_insert_absent, assoc_remove, has_key, keys_unique, lemma_insert_unique,
    lemma_lookup_below, lemma_remove_unique,
    lemma_vals_below, lookup, vals_below, Table, TableKey,
};
use crate::text::opt_view;

verus! {

/// Core types (`CoreChannel`, `CoreUser`) that aggregate platform-specific
/// aliases, one per platform.
pub trait Peered: Sized {
    type Platform;

    /// The aliases, keyed by platform name, in insertion order.
    spec fn alias_view(&self) -> Seq<(Seq<char>, Self::Platform)>;

    /// The entity's fields other than its aliases (its overrides).
    spec fn overrides(&self) -> Seq<Option<Seq<char>>>;

    /// The overrides of an entity built from a single alias.
    spec fn fresh_overrides() -> Seq<Option<Seq<char>>>;

    spec fn spec_platform_of(item: Self::Platform) -> Seq<char>;

    spec fn spec_id_of(item: Self::Platform) -> Seq<char>;

    spec fn spec_match_key(item: Self::Platform) -> Option<Seq<char>>;

    fn aliases(&self) -> (r: &Table<PlatformId, Self::Platform>)
        ensures
            r@ == self.alias_view(),
    ;

    fn aliases_mut(&mut self) -> (r: &mut Table<PlatformId, Self::Platform>)
        ensures
            r@ == old(self).alias_view(),
            final(self).alias_view() == final(r)@,
            final(self).overrides() == old(self).overrides(),
    ;

    /// The platform this item belongs to.
    fn platform_of(item: &Self::Platform) -> (r: &PlatformId)
        ensures
            r@ == Self::spec_platform_of(*item),
    ;

    /// The platform-specific id (e.g. channel id, user id).
    fn id_of(item: &Self::Platform) -> (r: &str)
        ensures
            r@ == Self::spec_id_of(*item),
    ;

    /// A core entity from a single platform alias, with default fields.
    fn from_single_alias(platform: PlatformId, item: Self::Platform) -> (r: Self)
        ensures
            r.alias_view() == seq![(platform@, item)],
            r.overrides() == Self::fresh_overrides(),
    ;

    /// Key used to auto-correlate entities across platforms (e.g. normalized
    /// channel name, lowercased display name); `None` to skip.
    fn match_key(item: &Self::Platform) -> (r: Option<String>)
        ensures
            opt_view(r) == Self::spec_match_key(*item),
    ;

    /// An identical copy of a platform item.
    fn duplicate_alias(item: &Self::Platform) -> (r: Self::Platform)
        ensures
            r == *item,
    ;

    /// A copy of the entity with the same aliases and overrides.
    fn duplicate_peer(&self) -> (r: Self)
        ensures
            r.alias_view() == self.alias_view(),
            r.overrides() == self.overrides(),
    ;
}

/// The abstract value of a core entity: its aliases and its overrides.
pub struct PeerView<P> {
    pub aliases: Seq<(Seq<char>, P)>,
    pub overrides: Seq<Option<Seq<char>>>,
}

pub open spec fn peer_view<T: Peered>(t: T) -> PeerView<T::Platform> {
    PeerView { aliases: t.alias_view(), overrides: t.overrides() }
}

pub open spec fn opt_peer_view<T: Peered>(o: Option<T>) -> Option<PeerView<T::Platform>> {
    match o {
        Some(t) => Some(peer_view(t)),
        None => None,
    }
}

/// The abstract state of a `Peers` collection: the entity slots (a removed
/// entity leaves `None`), the index from (platform, id) to slot, and the
/// index from match key to slot.
pub struct PeersModel<P> {
    pub items: Seq<Option<PeerView<P>>>,
    pub index: Seq<((Seq<char>, Seq<char>), usize)>,
    pub matches: Seq<(Seq<char>, usize)>,
}

/// Well-formedness: indices point into the slots, keys are unique, and every
/// entity's aliases have unique platforms.
pub open spec fn model_wf<P>(m: PeersModel<P>) -> bool {
    &&& m.items.len() <= usize::MAX
    &&& keys_unique(m.index)
    &&& keys_unique(m.matches)
    &&& vals_below(m.index, m.items.len() as int)
    &&& vals_below(m.matches, m.items.len() as int)
    &&& forall|i: int|
        0 <= i < m.items.len() && (#[trigger] m.items[i]) is Some ==> keys_unique(
            m.items[i]->0.aliases,
        )
}

/// Slot `i` holds a live entity whose alias on platform `k.0` has id `k.1`.
pub open spec fn alias_at<T: Peered>(m: PeersModel<T::Platform>, i: usize, k: (Seq<char>, Seq<char>)) -> bool {
    &&& i < m.items.len()
    &&& m.items[i as int] is Some
    &&& lookup(m.items[i as int]->0.aliases, k.0) matches Some(a) && T::spec_id_of(a) == k.1
}

/// Every index entry (platform, id) points at a live entity holding exactly
/// that alias.
pub open spec fn index_consistent<T: Peered>(m: PeersModel<T::Platform>) -> bool {
    forall|k: (Seq<char>, Seq<char>)|
        #![trigger lookup(m.index, k)]
        has_key(m.index, k) ==> alias_at::<T>(m, lookup(m.index, k)->0, k)
}

/// The full invariant of a collection: well-formed and index-consistent.
pub open spec fn model_ok<T: Peered>(m: PeersModel<T::Platform>) -> bool {
    model_wf(m) && index_consistent::<T>(m)
}

/// Whether some alias in `al` has the match key `k`.
pub open spec fn carries_key<T: Peered>(al: Seq<(Seq<char>, T::Platform)>, k: Seq<char>) -> bool {
    exists|j: int| 0 <= j < al.len() && T::spec_match_key(#[trigger] al[j].1) == Some(k)
}

/// The aliases of slot `idx`, none when the slot is empty.
pub open spec fn slot_aliases<P>(m: PeersModel<P>, idx: usize) -> Seq<(Seq<char>, P)> {
    if idx < m.items.len() && m.items[idx as int] is Some {
        m.items[idx as int]->0.aliases
    } else {
        Seq::empty()
    }
}

/// The match index with `key` released when it points at `idx` and the
/// entity's aliases `al` no longer carry it.
pub open spec fn release_key<T: Peered>(
    mx: Seq<(Seq<char>, usize)>,
    key: Option<Seq<char>>,
    al: Seq<(Seq<char>, T::Platform)>,
    idx: usize,
) -> Seq<(Seq<char>, usize)> {
    match key {
        Some(o) => if lookup(mx, o) == Some(idx) && !carries_key::<T>(al, o) {
            assoc_remove(mx, o)
        } else {
            mx
        },
        None => mx,
    }
}

/// The match index with `key` registered for `idx` unless already taken.
pub open spec fn claim_key(mx: Seq<(Seq<char>, usize)>, key: Option<Seq<char>>, idx: usize) -> Seq<(Seq<char>, usize)> {
    match key {
        Some(n) => assoc_insert_absent(mx, n, idx),
        None => mx,
    }
}

/// The match index after the keys of slot `idx` changed from `old_key` to
/// `new_key`, the slot now holding the aliases `al`.
pub open spec fn rekeyed<T: Peered>(
    mx: Seq<(Seq<char>, usize)>,
    old_key: Option<Seq<char>>,
    new_key: Option<Seq<char>>,
    al: Seq<(Seq<char>, T::Platform)>,
    idx: usize,
) -> Seq<(Seq<char>, usize)> {
    claim_key(release_key::<T>(mx, old_key, al, idx), new_key, idx)
}

/// The match key of the alias on `platform` in slot `idx`, if any.
pub open spec fn alias_key<T: Peered>(m: PeersModel<T::Platform>, idx: usize, platform: Seq<char>) -> Option<Seq<char>> {
    match lookup(slot_aliases(m, idx), platform) {
        Some(a) => T::spec_match_key(a),
        None => None,
    }
}

/// The index after registering every alias of an entity at slot `idx`.
pub open spec fn index_aliases<T: Peered>(
    ix: Seq<((Seq<char>, Seq<char>), usize)>,
    al: Seq<(Seq<char>, T::Platform)>,
    idx: usize,
) -> Seq<((Seq<char>, Seq<char>), usize)>
    decreases al.len(),
{
    if al.len() == 0 {
        ix
    } else {
        let e = al.last();
        assoc_insert(index_aliases::<T>(ix, al.drop_last(), idx), (e.0, T::spec_id_of(e.1)), idx)
    }
}

/// The match index after registering the match keys of an entity's aliases
/// at slot `idx` (an existing key keeps its slot).
pub open spec fn match_aliases<T: Peered>(
    mx: Seq<(Seq<char>, usize)>,
    al: Seq<(Seq<char>, T::Platform)>,
    idx: usize,
) -> Seq<(Seq<char>, usize)>
    decreases al.len(),
{
    if al.len() == 0 {
        mx
    } else {
        let rest = match_aliases::<T>(mx, al.drop_last(), idx);
        match T::spec_match_key(al.last().1) {
            Some(k) => assoc_insert_absent(rest, k, idx),
            None => rest,
        }
    }
}

/// `insert`: a new slot holding `v`, indexed under all of its aliases.
pub open spec fn model_insert<T: Peered>(m: PeersModel<T::Platform>, v: PeerView<T::Platform>) -> PeersModel<T::Platform> {
    PeersModel {
        items: m.items.push(Some(v)),
        index: index_aliases::<T>(m.index, v.aliases, m.items.len() as usize),
        matches: match_aliases::<T>(m.matches, v.aliases, m.items.len() as usize),
    }
}

/// `find`: the entity indexed under (platform, id), if its slot is occupied.
pub open spec fn model_find<P>(m: PeersModel<P>, platform: Seq<char>, id: Seq<char>) -> Option<PeerView<P>> {
    match lookup(m.index, (platform, id)) {
        Some(i) => if i < m.items.len() {
            m.items[i as int]
        } else {
            None
        },
        None => None,
    }
}

/// The number of occupied slots.
pub open spec fn count_present<X>(s: Seq<Option<X>>) -> nat
    decreases s.len(),
{
    if s.len() == 0 {
        0
    } else {
        count_present(s.drop_last()) + if s.last() is Some {
            1nat
        } else {
            0nat
        }
    }
}

/// Replaces (or adds) the alias on `platform` of the entity in slot `idx`,
/// if that slot is occupied.
pub open spec fn model_set_alias<P>(m: PeersModel<P>, idx: int, platform: Seq<char>, item: P) -> PeersModel<P> {
    if 0 <= idx < m.items.len() && m.items[idx] is Some {
        let v = m.items[idx]->0;
        PeersModel {
            items: m.items.update(
                idx,
                Some(PeerView { aliases: assoc_insert(v.aliases, platform, item), overrides: v.overrides }),
            ),
            index: m.index,
            matches: m.matches,
        }
    } else {
        m
    }
}

/// `merge_into`: indexes `item` under slot `idx` and adds it to that entity.
pub open spec fn model_merge_into<T: Peered>(m: PeersModel<T::Platform>, idx: usize, item: T::Platform) -> PeersModel<T::Platform> {
    let p = T::spec_platform_of(item);
    let m1 = PeersModel {
        items: m.items,
        index: assoc_insert(m.index, (p, T::spec_id_of(item)), idx),
        matches: match T::spec_match_key(item) {
            Some(k) => assoc_insert_absent(m.matches, k, idx),
            None => m.matches,
        },
    };
    model_set_alias(m1, idx as int, p, item)
}

/// The live entity on another platform that `upsert` merges `item` into: the
/// one registered under `item`'s match key, if it has no alias on `item`'s
/// platform yet.
pub open spec fn upsert_merge_target<T: Peered>(m: PeersModel<T::Platform>, item: T::Platform) -> Option<usize> {
    match T::spec_match_key(item) {
        Some(k) => match lookup(m.matches, k) {
            Some(e) => if e < m.items.len() && m.items[e as int] is Some && !has_key(
                m.items[e as int]->0.aliases,
                T::spec_platform_of(item),
            ) {
                Some(e)
            } else {
                None
            },
            None => None,
        },
        None => None,
    }
}

/// The live slot already indexed under `item`'s (platform, id), if any.
pub open spec fn upsert_existing<T: Peered>(m: PeersModel<T::Platform>, item: T::Platform) -> Option<usize> {
    match lookup(m.index, (T::spec_platform_of(item), T::spec_id_of(item))) {
        Some(i) => if i < m.items.len() && m.items[i as int] is Some {
            Some(i)
        } else {
            None
        },
        None => None,
    }
}

/// `upsert`: update in place (the match index following the alias's new
/// match key), else merge by match key, else a new entity.
pub open spec fn model_upsert<T: Peered>(m: PeersModel<T::Platform>, item: T::Platform) -> PeersModel<T::Platform> {
    let p = T::spec_platform_of(item);
    match upsert_existing::<T>(m, item) {
        Some(i) => {
            let m1 = model_set_alias(m, i as int, p, item);
            PeersModel {
                matches: rekeyed::<T>(
                    m.matches,
                    alias_key::<T>(m, i, p),
                    T::spec_match_key(item),
                    slot_aliases(m1, i),
                    i,
                ),
                ..m1
            }
        },
        None => match upsert_merge_target::<T>(m, item) {
            Some(e) => model_merge_into::<T>(m, e, item),
            None => model_insert::<T>(
                m,
                PeerView { aliases: seq![(p, item)], overrides: T::fresh_overrides() },
            ),
        },
    }
}

/// `detach`: drops the alias (platform, id) and its index entry; the match
/// key of the dropped alias is released if it pointed at that entity and no
/// remaining alias of the entity carries it; an entity left without aliases
/// is removed.
pub open spec fn model_detach<T: Peered>(m: PeersModel<T::Platform>, platform: Seq<char>, id: Seq<char>) -> PeersModel<T::Platform> {
    match lookup(m.index, (platform, id)) {
        None => m,
        Some(idx) => {
            let index2 = assoc_remove(m.index, (platform, id));
            if idx < m.items.len() && m.items[idx as int] is Some {
                let v = m.items[idx as int]->0;
                let aliases2 = assoc_remove(v.aliases, platform);
                let matches2 = release_key::<T>(m.matches, alias_key::<T>(m, idx, platform), aliases2, idx);
                let slot = if aliases2.len() == 0 {
                    None
                } else {
                    Some(PeerView { aliases: aliases2, overrides: v.overrides })
                };
                PeersModel { items: m.items.update(idx as int, slot), index: index2, matches: matches2 }
            } else {
                PeersModel { items: m.items, index: index2, matches: m.matches }
            }
        },
    }
}

/// For each match key among `items`, the position of the last item carrying
/// it.
pub open spec fn key_positions<T: Peered>(items: Seq<T::Platform>) -> Seq<(Seq<char>, usize)>
    decreases items.len(),
{
    if items.len() == 0 {
        Seq::empty()
    } else {
        let rest = key_positions::<T>(items.drop_last());
        match T::spec_match_key(items.last()) {
            Some(k) => assoc_insert(rest, k, (items.len() - 1) as usize),
            None => rest,
        }
    }
}

/// Correlates one item of platform `p1` with the item of platform `p2`
/// sharing its match key: a new entity when neither is known; when exactly
/// one is, a merge of the other into its entity unless that entity already
/// has an alias on the other item's platform; nothing otherwise, nor when
/// both platforms are the same.
pub open spec fn correlate_item<T: Peered>(
    m: PeersModel<T::Platform>,
    p1: Seq<char>,
    item1: T::Platform,
    p2: Seq<char>,
    items2: Seq<T::Platform>,
    by_key: Seq<(Seq<char>, usize)>,
) -> PeersModel<T::Platform> {
    if p1 == p2 {
        m
    } else {
        correlate_matched::<T>(m, p1, item1, p2, items2, by_key)
    }
}

/// `correlate_item` for two distinct platforms.
pub open spec fn correlate_matched<T: Peered>(
    m: PeersModel<T::Platform>,
    p1: Seq<char>,
    item1: T::Platform,
    p2: Seq<char>,
    items2: Seq<T::Platform>,
    by_key: Seq<(Seq<char>, usize)>,
) -> PeersModel<T::Platform> {
    match T::spec_match_key(item1) {
        None => m,
        Some(k1) => match lookup(by_key, k1) {
            None => m,
            Some(pos) => {
                let item2 = items2[pos as int];
                match (lookup(m.index, (p1, T::spec_id_of(item1))), lookup(m.index, (p2, T::spec_id_of(item2)))) {
                    (None, None) => model_insert::<T>(
                        m,
                        PeerView {
                            aliases: assoc_insert(seq![(p1, item1)], p2, item2),
                            overrides: T::fresh_overrides(),
                        },
                    ),
                    (Some(i), None) => if has_key(slot_aliases(m, i), T::spec_platform_of(item2)) {
                        m
                    } else {
                        model_merge_into::<T>(m, i, item2)
                    },
                    (None, Some(i)) => if has_key(slot_aliases(m, i), T::spec_platform_of(item1)) {
                        m
                    } else {
                        model_merge_into::<T>(m, i, item1)
                    },
                    (Some(_), Some(_)) => m,
                }
            },
        },
    }
}

/// Correlates every item of `items1` (on `p1`) in order.
pub open spec fn correlate_items<T: Peered>(
    m: PeersModel<T::Platform>,
    p1: Seq<char>,
    items1: Seq<T::Platform>,
    p2: Seq<char>,
    items2: Seq<T::Platform>,
    by_key: Seq<(Seq<char>, usize)>,
) -> PeersModel<T::Platform>
    decreases items1.len(),
{
    if items1.len() == 0 {
        m
    } else {
        correlate_item::<T>(
            correlate_items::<T>(m, p1, items1.drop_last(), p2, items2, by_key),
            p1,
            items1.last(),
            p2,
            items2,
            by_key,
        )
    }
}

/// Correlates the platforms at positions `i` and `j` of `d`.
pub open spec fn correlate_pair<T: Peered>(
    m: PeersModel<T::Platform>,
    d: Seq<(Seq<char>, Seq<T::Platform>)>,
    i: int,
    j: int,
) -> PeersModel<T::Platform> {
    correlate_items::<T>(m, d[i].0, d[i].1, d[j].0, d[j].1, key_positions::<T>(d[j].1))
}

/// Correlates platform `i` with the platforms `i + 1 .. upto`, in order.
pub open spec fn correlate_row<T: Peered>(
    m: PeersModel<T::Platform>,
    d: Seq<(Seq<char>, Seq<T::Platform>)>,
    i: int,
    upto: int,
) -> PeersModel<T::Platform>
    decreases upto - i,
{
    if upto <= i + 1 {
        m
    } else {
        correlate_pair::<T>(correlate_row::<T>(m, d, i, upto - 1), d, i, upto - 1)
    }
}

/// Correlates every platform `i < upto` with all later platforms.
pub open spec fn correlate_all<T: Peered>(
    m: PeersModel<T::Platform>,
    d: Seq<(Seq<char>, Seq<T::Platform>)>,
    upto: int,
) -> PeersModel<T::Platform>
    decreases upto,
{
    if upto <= 0 {
        m
    } else {
        correlate_row::<T>(correlate_all::<T>(m, d, upto - 1), d, upto - 1, d.len() as int)
    }
}

/// The discovered items per platform, by view.
pub open spec fn discovered_view<P>(d: Seq<(PlatformId, Vec<P>)>) -> Seq<(Seq<char>, Seq<P>)> {
    d.map_values(|e: (PlatformId, Vec<P>)| (e.0@, e.1@))
}

/// The model of an empty collection.
pub open spec fn empty_model<P>() -> PeersModel<P> {
    PeersModel { items: Seq::empty(), index: Seq::empty(), matches: Seq::empty() }
}

/// The index with the entry of `old_key`, if any, moved to `new_key`.
pub open spec fn reindexed(
    ix: Seq<((Seq<char>, Seq<char>), usize)>,
    old_key: (Seq<char>, Seq<char>),
    new_key: (Seq<char>, Seq<char>),
) -> Seq<((Seq<char>, Seq<char>), usize)> {
    match lookup(ix, old_key) {
        Some(i) => assoc_insert(assoc_remove(ix, old_key), new_key, i),
        None => ix,
    }
}

/// A (platform, id) pair, the key of the primary index.
#[derive(Debug, Clone)]
pub struct AliasKey {
    pub platform: PlatformId,
    pub id: String,
}

impl View for AliasKey {
    type V = (Seq<char>, Seq<char>);

    open spec fn view(&self) -> (Seq<char>, Seq<char>) {
        (self.platform@, self.id@)
    }
}

impl TableKey for AliasKey {
    fn key_eq(&self, other: &Self) -> (r: bool) {
        self.platform.key_eq(&other.platform) && self.id.key_eq(&other.id)
    }

    fn key_clone(&self) -> (r: Self) {
        AliasKey { platform: self.platform.key_clone(), id: self.id.key_clone() }
    }
}

/// Indexed collection of peer entities with lookup by (platform, id) and
/// auto-correlation by match key.
pub struct Peers<T: Peered> {
    items: Vec<Option<T>>,
    index: Table<AliasKey, usize>,
    match_index: Table<String, usize>,
}

impl<T: Peered> Peers<T> {
    /// The abstract state of the collection.
    pub closed spec fn model(&self) -> PeersModel<T::Platform> {
        PeersModel {
            items: self.items@.map_values(|o: Option<T>| opt_peer_view(o)),
            index: self.index@,
            matches: self.match_index@,
        }
    }

    pub open spec fn wf(&self) -> bool {
        model_ok::<T>(self.model())
    }

    /// An empty collection.
    pub fn new() -> (r: Self)
        ensures
            r.wf(),
            r.model() == empty_model::<T::Platform>(),
    {
        let r = Peers { items: Vec::new(), index: Table::new(), match_index: Table::new() };
        assert(r.model().items =~= Seq::<Option<PeerView<T::Platform>>>::empty());
        assert(r.model().index =~= empty_model::<T::Platform>().index);
        assert(r.model().matches =~= empty_model::<T::Platform>().matches);
        r
    }

    /// Adds `item` as a new entity, indexed under every alias.
    pub fn insert(&mut self, item: T)
        requires
            old(self).wf(),
        ensures
            final(self).wf(),
            final(self).model() == model_insert::<T>(old(self).model(), peer_view(item)),
    {
        let idx = self.items.len();
        let aliases = item.aliases();
        proof {
            use_type_invariant(aliases);
        }
        let ghost ix0 = self.index@;
        let ghost mx0 = self.match_index@;
        let ghost al = aliases@;
        let n = aliases.len();
        let mut i: usize = 0;
        while i < n
            invariant
                n == al.len(),
                al == item.alias_view(),
                aliases@ == al,
                i <= n,
                idx == self.items@.len(),
                self.items@ == old(self).items@,
                self.index@ == index_aliases::<T>(ix0, al.take(i as int), idx),
                self.match_index@ == match_aliases::<T>(mx0, al.take(i as int), idx),
                vals_below(self.index@, idx + 1),
                vals_below(self.match_index@, idx + 1),
                ix0 == old(self).index@,
                mx0 == old(self).match_index@,
            decreases n - i,
        {
            let (platform, p) = aliases.entry_at(i);
            let key = AliasKey { platform: platform.key_clone(), id: T::id_of(p).to_string() };
            proof {
                lemma_vals_below(self.index@, key@, idx, idx + 1, idx + 1);
                assert(al.take(i + 1).drop_last() =~= al.take(i as int));
            }
            self.index.insert(key, idx);
            match T::match_key(p) {
                Some(k) => {
                    proof {
                        lemma_vals_below(self.match_index@, k@, idx, idx + 1, idx + 1);
                    }
                    self.match_index.insert_absent(k, idx);
                },
                None => {},
            }
            i = i + 1;
        }
        proof {
            assert(al.take(n as int) =~= al);
            use_type_invariant(&self.index);
            use_type_invariant(&self.match_index);
        }
        self.items.push(Some(item));
        let _ = self.items.len();
        assert(self.model().items =~= old(self).model().items.push(Some(peer_view(item))));
        proof {
            lemma_insert_ok::<T>(old(self).model(), peer_view(item));
        }
    }

    /// The slot indexed under (platform, id), if any.
    pub fn find_index(&self, platform: &PlatformId, id: &str) -> (r: Option<usize>)
        ensures
            r == lookup(self.model().index, (platform@, id@)),
    {
        let key = AliasKey { platform: platform.key_clone(), id: id.to_string() };
        match self.index.get(&key) {
            Some(i) => Some(*i),
            None => None,
        }
    }

    /// The entity that has an alias (platform, id), if any.
    pub fn find(&self, platform: &PlatformId, id: &str) -> (r: Option<&T>)
        requires
            self.wf(),
        ensures
            match r {
                Some(t) => model_find(self.model(), platform@, id@) == Some(peer_view(*t)),
                None => model_find(self.model(), platform@, id@) is None,
            },
    {
        match self.find_index(platform, id) {
            Some(i) => {
                proof {
                    lemma_lookup_below(self.index@, (platform@, id@), self.items@.len() as int);
                }
                match &self.items[i] {
                    Some(t) => Some(t),
                    None => None,
                }
            },
            None => None,
        }
    }

    /// Replaces (or adds) the alias on `platform` of the entity in slot `idx`.
    fn set_alias_at(&mut self, idx: usize, platform: PlatformId, item: T::Platform)
        requires
            model_wf(old(self).model()),
            idx < old(self).model().items.len(),
        ensures
            model_wf(final(self).model()),
            final(self).model() == model_set_alias(old(self).model(), idx as int, platform@, item),
    {
        let slot = self.items[idx].take();
        match slot {
            Some(mut core) => {
                proof {
                    assert(old(self).model().items[idx as int] == Some(peer_view(core)));
                    lemma_insert_unique(core.alias_view(), platform@, item);
                }
                let ghost pv = platform@;
                core.aliases_mut().insert(platform, item);
                self.items.set(idx, Some(core));
                proof {
                    let m0 = old(self).model();
                    let v = m0.items[idx as int]->0;
                    assert(peer_view(core) == PeerView {
                        aliases: assoc_insert(v.aliases, pv, item),
                        overrides: v.overrides,
                    });
                    assert(self.model().items =~= m0.items.update(idx as int, Some(peer_view(core))));
                }
            },
            None => {
                assert(self.model().items =~= old(self).model().items);
            },
        }
    }

    /// Merges a platform item into the existing entity at `idx`.
    fn merge_into(&mut self, idx: usize, item: T::Platform)
        requires
            model_wf(old(self).model()),
            idx < old(self).model().items.len(),
        ensures
            model_wf(final(self).model()),
            final(self).model() == model_merge_into::<T>(old(self).model(), idx, item),
    {
        let platform = T::platform_of(&item).key_clone();
        let key = AliasKey { platform: platform.key_clone(), id: T::id_of(&item).to_string() };
        let n = self.items.len();
        proof {
            lemma_vals_below(self.index@, key@, idx, n as int, n as int);
        }
        self.index.insert(key, idx);
        match T::match_key(&item) {
            Some(k) => {
                proof {
                    lemma_vals_below(self.match_index@, k@, idx, n as int, n as int);
                }
                self.match_index.insert_absent(k, idx);
            },
            None => {},
        }
        proof {
            use_type_invariant(&self.index);
            use_type_invariant(&self.match_index);
        }
        self.set_alias_at(idx, platform, item);
    }

    /// Inserts, updates, or auto-correlates a platform item.
    ///
    /// If an entity already exists for this (platform, id), the alias is
    /// updated in place. Otherwise, if an entity lacking this platform shares
    /// the item's match key, the item is merged into it. Otherwise a new
    /// standalone entity is created.
    pub fn upsert(&mut self, item: T::Platform)
        requires
            old(self).wf(),
        ensures
            final(self).wf(),
            final(self).model() == model_upsert::<T>(old(self).model(), item),
    {
        let platform = T::platform_of(&item).key_clone();
        let found = self.find_index(&platform, T::id_of(&item));
        proof {
            lemma_lookup_below(self.index@, (platform@, T::spec_id_of(item)), self.items@.len() as int);
        }
        if let Some(idx) = found {
            if self.items[idx].is_some() {
                let old_key = match &self.items[idx] {
                    Some(core) => match core.aliases().get(&platform) {
                        Some(a) => T::match_key(a),
                        None => None,
                    },
                    None => None,
                };
                let new_key = T::match_key(&item);
                let ghost m0 = self.model();
                proof {
                    lemma_set_alias_ok::<T>(m0, idx, platform@, item);
                }
                self.set_alias_at(idx, platform, item);
                self.update_match_key(old_key, new_key, idx);
                proof {
                    let want = model_upsert::<T>(m0, item);
                    assert(self.model().items == want.items);
                    assert(self.model().index == want.index);
                    assert(self.model().matches == want.matches);
                    assert(index_consistent::<T>(model_set_alias(m0, idx as int, T::spec_platform_of(item), item)));
                }
                return;
            }
        }
        assert(upsert_existing::<T>(self.model(), item) is None);
        if let Some(mk) = T::match_key(&item) {
            if let Some(e) = self.match_index.get(&mk) {
                let e = *e;
                proof {
                    lemma_lookup_below(self.match_index@, mk@, self.items@.len() as int);
                }
                let free = match &self.items[e] {
                    Some(core) => !core.aliases().contains_key(&platform),
                    None => false,
                };
                if free {
                    proof {
                        lemma_merge_ok::<T>(self.model(), e, item);
                    }
                    self.merge_into(e, item);
                    return;
                }
            }
        }
        assert(upsert_merge_target::<T>(self.model(), item) is None);
        let core = T::from_single_alias(platform, item);
        self.insert(core);
    }

    /// Detaches a single platform alias from its entity.
    ///
    /// The entity stays alive as long as it retains at least one alias; it is
    /// removed when its last alias is detached.
    pub fn detach(&mut self, platform: &PlatformId, id: &str)
        requires
            old(self).wf(),
        ensures
            final(self).wf(),
            final(self).model() == model_detach::<T>(old(self).model(), platform@, id@),
    {
        let key = AliasKey { platform: platform.key_clone(), id: id.to_string() };
        let idx = match self.index.get(&key) {
            Some(i) => *i,
            None => {
                return ;
            },
        };
        proof {
            use_type_invariant(&self.index);
            use_type_invariant(&self.match_index);
            lemma_lookup_below(self.index@, key@, self.items@.len() as int);
            lemma_vals_below(self.index@, key@, 0, self.items@.len() as int, self.items@.len() as int);
            lemma_remove_unique(self.index@, key@);
        }
        proof {
            lemma_detach_ok::<T>(old(self).model(), platform@, id@);
        }
        self.index.remove(&key);
        let slot = self.items[idx].take();
        match slot {
            Some(mut core) => {
                proof {
                    assert(old(self).model().items[idx as int] == Some(peer_view(core)));
                    lemma_remove_unique(core.alias_view(), platform@);
                }
                let removed = core.aliases_mut().remove(platform);
                let old_key = match &removed {
                    Some(r) => T::match_key(r),
                    None => None,
                };
                if !core.aliases().is_empty() {
                    self.items.set(idx, Some(core));
                }
                let ghost m0 = old(self).model();
                let ghost v = m0.items[idx as int]->0;
                let ghost aliases2 = assoc_remove(v.aliases, platform@);
                proof {
                    let slot2 = if aliases2.len() == 0 {
                        None
                    } else {
                        Some(PeerView { aliases: aliases2, overrides: v.overrides })
                    };
                    assert(self.model().items =~= m0.items.update(idx as int, slot2));
                    use_type_invariant(&self.index);
                    assert forall|i: int|
                        0 <= i < self.model().items.len() && (#[trigger] self.model().items[i]) is Some implies keys_unique(
                        self.model().items[i]->0.aliases,
                    ) by {
                        if i != idx {
                            assert(self.model().items[i] == m0.items[i]);
                        }
                    }
                    assert(model_wf(self.model()));
                    if aliases2.len() == 0 {
                        assert(aliases2 =~= Seq::<(Seq<char>, T::Platform)>::empty());
                    }
                    assert(slot_aliases(self.model(), idx) == aliases2);
                }
                self.update_match_key(old_key, None, idx);
                proof {
                    let want = model_detach::<T>(m0, platform@, id@);
                    assert(self.model().items == want.items);
                    assert(self.model().index == want.index);
                    assert(self.model().matches == want.matches);
                }
            },
            None => {
                assert(self.model().items =~= old(self).model().items);
            },
        }
    }

    /// A collection built from discovered platform items, auto-correlating
    /// across platforms by match key.
    pub fn build(discovered: &[(PlatformId, Vec<T::Platform>)]) -> (r: Self)
        ensures
            r.wf(),
            r.model() == correlate_all::<T>(
                empty_model(),
                discovered_view(discovered@),
                discovered@.len() as int,
            ),
    {
        let mut peers = Self::new();
        peers.auto_correlate(discovered);
        peers
    }

    /// For each match key among `items`, the position of the last item with it.
    fn key_positions(items: &Vec<T::Platform>) -> (r: Table<String, usize>)
        ensures
            r@ == key_positions::<T>(items@),
            vals_below(r@, items@.len() as int),
    {
        let mut t: Table<String, usize> = Table::new();
        let mut i: usize = 0;
        while i < items.len()
            invariant
                i <= items@.len(),
                t@ == key_positions::<T>(items@.take(i as int)),
                vals_below(t@, i as int),
            decreases items@.len() - i,
        {
            proof {
                assert(items@.take(i + 1).drop_last() =~= items@.take(i as int));
            }
            match T::match_key(&items[i]) {
                Some(k) => {
                    proof {
                        lemma_vals_below(t@, k@, i, i as int, i + 1);
                    }
                    t.insert(k, i);
                },
                None => {
                    proof {
                        lemma_vals_below(t@, Seq::empty(), 0, i as int, i + 1);
                    }
                },
            }
            i = i + 1;
        }
        proof {
            assert(items@.take(i as int) =~= items@);
        }
        t
    }

    /// Correlates one item of `p1` with the matching item of `p2`, if any.
    fn correlate_item(
        &mut self,
        p1: &PlatformId,
        item1: &T::Platform,
        p2: &PlatformId,
        items2: &Vec<T::Platform>,
        by_key: &Table<String, usize>,
    )
        requires
            old(self).wf(),
            vals_below(by_key@, items2@.len() as int),
        ensures
            final(self).wf(),
            final(self).model() == correlate_item::<T>(
                old(self).model(),
                p1@,
                *item1,
                p2@,
                items2@,
                by_key@,
            ),
    {
        if p1.same_as(p2) {
            return ;
        }
        let key1 = match T::match_key(item1) {
            Some(k) => k,
            None => {
                return ;
            },
        };
        let pos = match by_key.get(&key1) {
            Some(p) => *p,
            None => {
                return ;
            },
        };
        proof {
            lemma_lookup_below(by_key@, key1@, items2@.len() as int);
        }
        let item2 = &items2[pos];
        let idx1 = self.find_index(p1, T::id_of(item1));
        let idx2 = self.find_index(p2, T::id_of(item2));
        proof {
            lemma_lookup_below(self.index@, (p1@, T::spec_id_of(*item1)), self.items@.len() as int);
            lemma_lookup_below(self.index@, (p2@, T::spec_id_of(*item2)), self.items@.len() as int);
        }
        match (idx1, idx2) {
            (None, None) => {
                let mut core = T::from_single_alias(p1.key_clone(), T::duplicate_alias(item1));
                core.aliases_mut().insert(p2.key_clone(), T::duplicate_alias(item2));
                self.insert(core);
            },
            (Some(idx), None) => {
                proof {
                    let k1 = (p1@, T::spec_id_of(*item1));
                    assert(has_key(self.index@, k1));
                    assert(alias_at::<T>(self.model(), idx, k1));
                }
                let free = match &self.items[idx] {
                    Some(core) => !core.aliases().contains_key(T::platform_of(item2)),
                    None => true,
                };
                if free {
                    proof {
                        lemma_merge_ok::<T>(self.model(), idx, *item2);
                    }
                    self.merge_into(idx, T::duplicate_alias(item2));
                }
            },
            (None, Some(idx)) => {
                proof {
                    let k2 = (p2@, T::spec_id_of(*item2));
                    assert(has_key(self.index@, k2));
                    assert(alias_at::<T>(self.model(), idx, k2));
                }
                let free = match &self.items[idx] {
                    Some(core) => !core.aliases().contains_key(T::platform_of(item1)),
                    None => true,
                };
                if free {
                    proof {
                        lemma_merge_ok::<T>(self.model(), idx, *item1);
                    }
                    self.merge_into(idx, T::duplicate_alias(item1));
                }
            },
            (Some(_), Some(_)) => {},
        }
    }

    /// Auto-correlates discovered items across platforms by match key.
    fn auto_correlate(&mut self, discovered: &[(PlatformId, Vec<T::Platform>)])
        requires
            old(self).wf(),
        ensures
            final(self).wf(),
            final(self).model() == correlate_all::<T>(
                old(self).model(),
                discovered_view(discovered@),
                discovered@.len() as int,
            ),
    {
        let ghost d = discovered_view(discovered@);
        let ghost m0 = self.model();
        let n = discovered.len();
        let mut i: usize = 0;
        while i < n
            invariant
                n == discovered@.len(),
                d == discovered_view(discovered@),
                i <= n,
                self.wf(),
                self.model() == correlate_all::<T>(m0, d, i as int),
            decreases n - i,
        {
            let ghost row_start = self.model();
            let mut j: usize = i + 1;
            while j < n
                invariant
                    n == discovered@.len(),
                    d == discovered_view(discovered@),
                    i < n,
                    i + 1 <= j <= n,
                    self.wf(),
                    row_start == correlate_all::<T>(m0, d, i as int),
                    self.model() == correlate_row::<T>(row_start, d, i as int, j as int),
                decreases n - j,
            {
                let (p1, items1) = &discovered[i];
                let (p2, items2) = &discovered[j];
                let by_key = Self::key_positions(items2);
                let ghost pair_start = self.model();
                let mut k: usize = 0;
                while k < items1.len()
                    invariant
                        n == discovered@.len(),
                        d == discovered_view(discovered@),
                        i < j < n,
                        k <= items1@.len(),
                        self.wf(),
                        d[i as int] == (p1@, items1@),
                        d[j as int] == (p2@, items2@),
                        by_key@ == key_positions::<T>(items2@),
                        vals_below(by_key@, items2@.len() as int),
                        self.model() == correlate_items::<T>(
                            pair_start,
                            p1@,
                            items1@.take(k as int),
                            p2@,
                            items2@,
                            by_key@,
                        ),
                    decreases items1@.len() - k,
                {
                    proof {
                        assert(items1@.take(k + 1).drop_last() =~= items1@.take(k as int));
                    }
                    self.correlate_item(p1, &items1[k], p2, items2, &by_key);
                    k = k + 1;
                }
                proof {
                    assert(items1@.take(k as int) =~= items1@);
                }
                j = j + 1;
            }
            i = i + 1;
        }
    }

    /// Takes the entity out of slot `idx`, leaving the slot empty.
    pub(crate) fn take_item(&mut self, idx: usize) -> (r: Option<T>)
        requires
            model_wf(old(self).model()),
            idx < old(self).model().items.len(),
        ensures
            model_wf(final(self).model()),
            opt_peer_view(r) == old(self).model().items[idx as int],
            final(self).model() == (PeersModel {
                items: old(self).model().items.update(idx as int, None),
                index: old(self).model().index,
                matches: old(self).model().matches,
            }),
    {
        let r = self.items[idx].take();
        assert(self.model().items =~= old(self).model().items.update(idx as int, None));
        r
    }

    /// Puts `item` into slot `idx`.
    pub(crate) fn put_item(&mut self, idx: usize, item: T)
        requires
            model_wf(old(self).model()),
            idx < old(self).model().items.len(),
        ensures
            model_wf(final(self).model()),
            final(self).model() == (PeersModel {
                items: old(self).model().items.update(idx as int, Some(peer_view(item))),
                index: old(self).model().index,
                matches: old(self).model().matches,
            }),
    {
        let a = item.aliases();
        proof {
            use_type_invariant(a);
        }
        self.items.set(idx, Some(item));
        assert(self.model().items =~= old(self).model().items.update(
            idx as int,
            Some(peer_view(item)),
        ));
    }

    /// Moves the index entry of `old_key` to `new_key`.
    pub(crate) fn reindex(&mut self, old_key: &AliasKey, new_key: AliasKey)
        requires
            model_wf(old(self).model()),
        ensures
            model_wf(final(self).model()),
            final(self).model() == (PeersModel {
                items: old(self).model().items,
                index: reindexed(old(self).model().index, old_key@, new_key@),
                matches: old(self).model().matches,
            }),
    {
        proof {
            use_type_invariant(&self.index);
        }
        let n = self.items.len();
        match self.index.get(old_key) {
            Some(i) => {
                let idx = *i;
                proof {
                    lemma_lookup_below(self.index@, old_key@, n as int);
                    lemma_vals_below(self.index@, old_key@, idx, n as int, n as int);
                    lemma_remove_unique(self.index@, old_key@);
                    lemma_vals_below(assoc_remove(self.index@, old_key@), new_key@, idx, n as int, n as int);
                }
                self.index.remove(old_key);
                self.index.insert(new_key, idx);
            },
            None => {},
        }
        proof {
            use_type_invariant(&self.index);
        }
    }

    /// Whether some alias in `al` has the match key `k`.
    fn carries(al: &Table<PlatformId, T::Platform>, k: &String) -> (r: bool)
        ensures
            r == carries_key::<T>(al@, k@),
    {
        let mut i: usize = 0;
        while i < al.len()
            invariant
                i <= al@.len(),
                forall|j: int| 0 <= j < i ==> T::spec_match_key(#[trigger] al@[j].1) != Some(k@),
            decreases al@.len() - i,
        {
            let (_, a) = al.entry_at(i);
            match T::match_key(a) {
                Some(mk) => {
                    if mk == *k {
                        assert(T::spec_match_key(al@[i as int].1) == Some(k@));
                        return true;
                    }
                },
                None => {},
            }
            i = i + 1;
        }
        false
    }

    /// The match keys of slot `idx` changed from `old_key` to `new_key`:
    /// `old_key` is released if it points at the slot and none of the
    /// slot's aliases still carries it, then `new_key` is registered for the
    /// slot unless taken.
    pub(crate) fn update_match_key(&mut self, old_key: Option<String>, new_key: Option<String>, idx: usize)
        requires
            model_wf(old(self).model()),
            idx < old(self).model().items.len(),
        ensures
            model_wf(final(self).model()),
            final(self).model() == (PeersModel {
                items: old(self).model().items,
                index: old(self).model().index,
                matches: rekeyed::<T>(
                    old(self).model().matches,
                    opt_view(old_key),
                    opt_view(new_key),
                    slot_aliases(old(self).model(), idx),
                    idx,
                ),
            }),
    {
        let n = self.items.len();
        proof {
            use_type_invariant(&self.match_index);
        }
        if let Some(old) = old_key {
            let owned = match self.match_index.get(&old) {
                Some(cur) => *cur == idx,
                None => false,
            };
            if owned {
                let carried = match &self.items[idx] {
                    Some(core) => Self::carries(core.aliases(), &old),
                    None => false,
                };
                if !carried {
                    proof {
                        lemma_vals_below(self.match_index@, old@, idx, n as int, n as int);
                    }
                    self.match_index.remove(&old);
                }
            }
        }
        if let Some(new) = new_key {
            proof {
                lemma_vals_below(self.match_index@, new@, idx, n as int, n as int);
            }
            self.match_index.insert_absent(new, idx);
        }
        proof {
            use_type_invariant(&self.match_index);
        }
    }

    /// Number of live entities.
    pub fn len(&self) -> (r: usize)
        ensures
            r == count_present(self.model().items),
    {
        let ghost s = self.model().items;
        let mut count: usize = 0;
        let mut i: usize = 0;
        while i < self.items.len()
            invariant
                i <= self.items@.len(),
                s == self.model().items,
                s.len() == self.items@.len(),
                count == count_present(s.take(i as int)),
                count <= i,
            decreases self.items@.len() - i,
        {
            proof {
                assert(s.take(i + 1).drop_last() =~= s.take(i as int));
            }
            if self.items[i].is_some() {
                count = count + 1;
            }
            i = i + 1;
        }
        proof {
            assert(s.take(i as int) =~= s);
        }
        count
    }

    /// Whether no entity is live.
    pub fn is_empty(&self) -> (r: bool)
        ensures
            r == (count_present(self.model().items) == 0),
    {
        self.len() == 0
    }
}

} // verus!

verus! {

pub proof fn lemma_count_update<X>(s: Seq<Option<X>>, i: int, x: Option<X>)
    requires
        0 <= i < s.len(),
    ensures
        count_present(s.update(i, x)) + (if s[i] is Some {
            1int
        } else {
            0int
        }) == count_present(s) + (if x is Some {
            1int
        } else {
            0int
        }),
    decreases s.len(),
{
    let t = s.update(i, x);
    if i == s.len() - 1 {
        assert(t.drop_last() =~= s.drop_last());
    } else {
        lemma_count_update(s.drop_last(), i, x);
        assert(t.drop_last() =~= s.drop_last().update(i, x));
    }
}

pub proof fn lemma_count_push<X>(s: Seq<Option<X>>, x: Option<X>)
    ensures
        count_present(s.push(x)) == count_present(s) + (if x is Some {
            1nat
        } else {
            0nat
        }),
{
    assert(s.push(x).drop_last() =~= s);
}

pub proof fn lemma_single_alias<P>(p: Seq<char>, item: P)
    ensures
        keys_unique(seq![(p, item)]),
        lookup(seq![(p, item)], p) == Some(item),
{
    crate::table::lemma_key_pos(seq![(p, item)], 0);
}

/// Writing then reading: after `upsert(item)`, looking up the item's
/// (platform, id) finds an entity whose alias on that platform is `item`.
pub proof fn law_upsert_then_find<T: Peered>(m: PeersModel<T::Platform>, item: T::Platform)
    requires
        model_wf(m),
    ensures
        model_find(model_upsert::<T>(m, item), T::spec_platform_of(item), T::spec_id_of(item)) matches Some(
            v,
        ) && lookup(v.aliases, T::spec_platform_of(item)) == Some(item),
{
    let p = T::spec_platform_of(item);
    let key = (p, T::spec_id_of(item));
    let r = model_upsert::<T>(m, item);
    match upsert_existing::<T>(m, item) {
        Some(i) => {
            let v = m.items[i as int]->0;
            lemma_insert_unique(v.aliases, p, item);
        },
        None => match upsert_merge_target::<T>(m, item) {
            Some(e) => {
                let v = m.items[e as int]->0;
                lemma_insert_unique(m.index, key, e);
                lemma_insert_unique(v.aliases, p, item);
            },
            None => {
                let n = m.items.len() as usize;
                let al = seq![(p, item)];
                assert(al.drop_last() =~= Seq::<(Seq<char>, T::Platform)>::empty());
                assert(index_aliases::<T>(m.index, al.drop_last(), n) == m.index);
                assert(index_aliases::<T>(m.index, al, n) == assoc_insert(m.index, key, n));
                lemma_insert_unique(m.index, key, n);
                lemma_single_alias(p, item);
            },
        },
    }
}

/// After `detach(platform, id)`, nothing is found under (platform, id).
pub proof fn law_detach_then_find<T: Peered>(m: PeersModel<T::Platform>, platform: Seq<char>, id: Seq<char>)
    requires
        model_wf(m),
    ensures
        model_find(model_detach::<T>(m, platform, id), platform, id) is None,
{
    lemma_remove_unique(m.index, (platform, id));
}

/// Detaching one alias of an entity that has another keeps the entity (the
/// number of live entities is unchanged) and keeps it findable under its
/// other aliases' index entries; detaching its last alias removes it.
pub proof fn law_detach_keeps_entity<T: Peered>(
    m: PeersModel<T::Platform>,
    platform: Seq<char>,
    id: Seq<char>,
    other: (Seq<char>, Seq<char>),
)
    requires
        model_wf(m),
        model_find(m, platform, id) is Some,
        other != (platform, id),
        lookup(m.index, other) == lookup(m.index, (platform, id)),
    ensures
        ({
            let v = model_find(m, platform, id)->0;
            let r = model_detach::<T>(m, platform, id);
            &&& (exists|q: Seq<char>| q != platform && has_key(v.aliases, q)) ==> {
                &&& count_present(r.items) == count_present(m.items)
                &&& model_find(r, other.0, other.1) == Some(
                    PeerView { aliases: assoc_remove(v.aliases, platform), overrides: v.overrides },
                )
            }
            &&& !(exists|q: Seq<char>| q != platform && has_key(v.aliases, q)) ==> count_present(
                r.items,
            ) + 1 == count_present(m.items)
        }),
{
    let key = (platform, id);
    let idx = lookup(m.index, key)->0;
    let v = m.items[idx as int]->0;
    let aliases2 = assoc_remove(v.aliases, platform);
    lemma_remove_unique(v.aliases, platform);
    lemma_remove_unique(m.index, key);
    if exists|q: Seq<char>| q != platform && has_key(v.aliases, q) {
        let q = choose|q: Seq<char>| q != platform && has_key(v.aliases, q);
        assert(lookup(aliases2, q) == lookup(v.aliases, q));
        assert(aliases2.len() != 0);
        lemma_count_update(
            m.items,
            idx as int,
            Some(PeerView { aliases: aliases2, overrides: v.overrides }),
        );
    } else {
        if aliases2.len() != 0 {
            let a = aliases2[0];
            crate::table::lemma_key_pos(aliases2, 0);
            assert(lookup(v.aliases, a.0) is Some);
            assert(a.0 != platform);
        }
        lemma_count_update(m.items, idx as int, None);
    }
}

/// `upsert` never removes an entity, and adds exactly one exactly when the
/// item is neither known under its (platform, id) nor merged by match key.
pub proof fn law_upsert_count<T: Peered>(m: PeersModel<T::Platform>, item: T::Platform)
    requires
        model_wf(m),
    ensures
        count_present(model_upsert::<T>(m, item).items) == count_present(m.items) + (if upsert_existing::<
            T,
        >(m, item) is None && upsert_merge_target::<T>(m, item) is None {
            1nat
        } else {
            0nat
        }),
{
    let p = T::spec_platform_of(item);
    match upsert_existing::<T>(m, item) {
        Some(i) => {
            let v = m.items[i as int]->0;
            lemma_count_update(
                m.items,
                i as int,
                Some(PeerView { aliases: assoc_insert(v.aliases, p, item), overrides: v.overrides }),
            );
        },
        None => match upsert_merge_target::<T>(m, item) {
            Some(e) => {
                let v = m.items[e as int]->0;
                lemma_count_update(
                    m.items,
                    e as int,
                    Some(PeerView { aliases: assoc_insert(v.aliases, p, item), overrides: v.overrides }),
                );
            },
            None => {
                lemma_count_push(
                    m.items,
                    Some(PeerView { aliases: seq![(p, item)], overrides: T::fresh_overrides() }),
                );
            },
        },
    }
}

pub proof fn lemma_index_aliases<T: Peered>(
    ix: Seq<((Seq<char>, Seq<char>), usize)>,
    al: Seq<(Seq<char>, T::Platform)>,
    n: usize,
)
    requires
        keys_unique(ix),
        vals_below(ix, n as int),
    ensures
        keys_unique(index_aliases::<T>(ix, al, n)),
        forall|k: (Seq<char>, Seq<char>)|
            #![trigger lookup(index_aliases::<T>(ix, al, n), k)]
            has_key(index_aliases::<T>(ix, al, n), k) ==> if lookup(index_aliases::<T>(ix, al, n), k)->0 == n {
                exists|j: int| 0 <= j < al.len() && al[j].0 == k.0 && T::spec_id_of(al[j].1) == k.1
            } else {
                lookup(ix, k) == lookup(index_aliases::<T>(ix, al, n), k)
            },
    decreases al.len(),
{
    if al.len() == 0 {
        assert forall|k: (Seq<char>, Seq<char>)| #![trigger lookup(ix, k)] has_key(ix, k) implies lookup(ix, k)->0 != n by {
            lemma_lookup_below(ix, k, n as int);
        }
    } else {
        let init = al.drop_last();
        let r0 = index_aliases::<T>(ix, init, n);
        let e = al.last();
        let ek = (e.0, T::spec_id_of(e.1));
        lemma_index_aliases::<T>(ix, init, n);
        lemma_insert_unique(r0, ek, n);
        let r = index_aliases::<T>(ix, al, n);
        assert forall|k: (Seq<char>, Seq<char>)| #![trigger lookup(r, k)] has_key(r, k) implies if lookup(r, k)->0 == n {
            exists|j: int| 0 <= j < al.len() && al[j].0 == k.0 && T::spec_id_of(al[j].1) == k.1
        } else {
            lookup(ix, k) == lookup(r, k)
        } by {
            if k == ek {
                assert(al[al.len() - 1].0 == k.0);
            } else {
                assert(lookup(r, k) == lookup(r0, k));
                assert(has_key(r0, k));
                if lookup(r0, k)->0 == n {
                    let j = choose|j: int| 0 <= j < init.len() && init[j].0 == k.0 && T::spec_id_of(init[j].1) == k.1;
                    assert(al[j] == init[j]);
                }
            }
        }
    }
}

/// Adding an entity with unique alias platforms keeps the index consistent.
pub proof fn lemma_insert_ok<T: Peered>(m: PeersModel<T::Platform>, v: PeerView<T::Platform>)
    requires
        model_wf(m),
        index_consistent::<T>(m),
        keys_unique(v.aliases),
    ensures
        index_consistent::<T>(model_insert::<T>(m, v)),
{
    let n = m.items.len() as usize;
    let r = model_insert::<T>(m, v);
    lemma_index_aliases::<T>(m.index, v.aliases, n);
    assert forall|k: (Seq<char>, Seq<char>)| #![trigger lookup(r.index, k)] has_key(r.index, k) implies alias_at::<T>(
        r,
        lookup(r.index, k)->0,
        k,
    ) by {
        let i = lookup(r.index, k)->0;
        if i == n {
            let j = choose|j: int| 0 <= j < v.aliases.len() && v.aliases[j].0 == k.0 && T::spec_id_of(v.aliases[j].1) == k.1;
            crate::table::lemma_key_pos(v.aliases, j);
            assert(r.items[n as int] == Some(v));
        } else {
            assert(lookup(m.index, k) == Some(i));
            assert(has_key(m.index, k));
            assert(alias_at::<T>(m, i, k));
            assert(r.items[i as int] == m.items[i as int]);
        }
    }
}

/// Replacing an alias by an item with the id it is indexed under keeps the
/// index consistent.
pub proof fn lemma_set_alias_ok<T: Peered>(m: PeersModel<T::Platform>, i: usize, p: Seq<char>, item: T::Platform)
    requires
        model_wf(m),
        index_consistent::<T>(m),
        lookup(m.index, (p, T::spec_id_of(item))) == Some(i),
    ensures
        index_consistent::<T>(model_set_alias(m, i as int, p, item)),
{
    let ki = (p, T::spec_id_of(item));
    assert(has_key(m.index, ki));
    assert(alias_at::<T>(m, i, ki));
    let v = m.items[i as int]->0;
    let r = model_set_alias(m, i as int, p, item);
    lemma_insert_unique(v.aliases, p, item);
    assert forall|k: (Seq<char>, Seq<char>)| #![trigger lookup(r.index, k)] has_key(r.index, k) implies alias_at::<T>(
        r,
        lookup(r.index, k)->0,
        k,
    ) by {
        let j = lookup(m.index, k)->0;
        assert(alias_at::<T>(m, j, k));
        if j == i && k.0 == p {
            assert(lookup(v.aliases, p) == lookup(v.aliases, ki.0));
        }
    }
}

/// Merging an item into a live entity without an alias on the item's
/// platform keeps the index consistent.
pub proof fn lemma_merge_ok<T: Peered>(m: PeersModel<T::Platform>, idx: usize, item: T::Platform)
    requires
        model_wf(m),
        index_consistent::<T>(m),
        idx < m.items.len(),
        m.items[idx as int] is Some,
        !has_key(m.items[idx as int]->0.aliases, T::spec_platform_of(item)),
    ensures
        index_consistent::<T>(model_merge_into::<T>(m, idx, item)),
{
    let p = T::spec_platform_of(item);
    let ki = (p, T::spec_id_of(item));
    let v = m.items[idx as int]->0;
    let r = model_merge_into::<T>(m, idx, item);
    lemma_insert_unique(m.index, ki, idx);
    lemma_insert_unique(v.aliases, p, item);
    assert forall|k: (Seq<char>, Seq<char>)| #![trigger lookup(r.index, k)] has_key(r.index, k) implies alias_at::<T>(
        r,
        lookup(r.index, k)->0,
        k,
    ) by {
        if k != ki {
            assert(lookup(r.index, k) == lookup(m.index, k));
            let j = lookup(m.index, k)->0;
            assert(alias_at::<T>(m, j, k));
            if j == idx {
                assert(has_key(v.aliases, k.0));
            }
        }
    }
}

/// Detaching keeps the index consistent.
pub proof fn lemma_detach_ok<T: Peered>(m: PeersModel<T::Platform>, p: Seq<char>, id: Seq<char>)
    requires
        model_wf(m),
        index_consistent::<T>(m),
    ensures
        index_consistent::<T>(model_detach::<T>(m, p, id)),
{
    let key = (p, id);
    if has_key(m.index, key) {
        let idx = lookup(m.index, key)->0;
        assert(alias_at::<T>(m, idx, key));
        let v = m.items[idx as int]->0;
        let r = model_detach::<T>(m, p, id);
        lemma_remove_unique(m.index, key);
        lemma_remove_unique(v.aliases, p);
        assert forall|k: (Seq<char>, Seq<char>)| #![trigger lookup(r.index, k)] has_key(r.index, k) implies alias_at::<T>(
            r,
            lookup(r.index, k)->0,
            k,
        ) by {
            assert(k != key);
            assert(lookup(r.index, k) == lookup(m.index, k));
            let j = lookup(m.index, k)->0;
            assert(alias_at::<T>(m, j, k));
            if j == idx {
                assert(k.0 != p);
                let al2 = assoc_remove(v.aliases, p);
                assert(lookup(al2, k.0) == lookup(v.aliases, k.0));
                assert(has_key(al2, k.0));
                assert(al2.len() > 0);
            }
        }
    }
}

/// A lookup only ever returns an entity holding that very alias: its alias
/// on the looked-up platform has the looked-up id.
pub proof fn law_find_holds_alias<T: Peered>(m: PeersModel<T::Platform>, platform: Seq<char>, id: Seq<char>)
    requires
        model_ok::<T>(m),
    ensures
        model_find(m, platform, id) matches Some(v) ==> (lookup(v.aliases, platform) matches Some(a)
            && T::spec_id_of(a) == id),
{
    if has_key(m.index, (platform, id)) {
        assert(alias_at::<T>(m, lookup(m.index, (platform, id))->0, (platform, id)));
    }
}

} // verus!
