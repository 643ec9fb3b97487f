//! Channel references, the name by which channels are matched across
//! platforms, and the channel pairs that matching finds.

use vstd::prelude::*;

use crate::fetched::{FetchedChannel, FetchedData};
use crate::table::{assoc_insert, lemma_lookup_below, lemma_vals_below, lookup, vals_below, Table};
use crate::text::{lowercase, to_lowercase, trim_start, trim_start_char};

verus! {

/// A channel on a given platform.
#[derive(Debug, Clone, PartialEq, Eq, Hash)]
pub struct ChannelRef {
    pub platform: String,
    pub channel: String,
}

impl View for ChannelRef {
    type V = (Seq<char>, Seq<char>);

    open spec fn view(&self) -> (Seq<char>, Seq<char>) {
        (self.platform@, self.channel@)
    }
}

/// The matching name of a channel name: without leading `#` signs,
/// lowercased.
pub open spec fn normalized(name: Seq<char>) -> Seq<char> {
    lowercase(trim_start(name, '#'))
}

/// The name by which channels are matched across platforms: without leading
/// `#` signs, lowercased.
pub fn normalize_channel_name(name: &str) -> (r: String)
    ensures
        r@ == normalized(name@),
{
    to_lowercase(trim_start_char(name, '#'))
}

/// Normalized channel names to the position of the last channel bearing
/// them.
pub open spec fn channel_name_index(channels: Seq<FetchedChannel>) -> Seq<(Seq<char>, usize)>
    decreases channels.len(),
{
    if channels.len() == 0 {
        Seq::empty()
    } else {
        assoc_insert(
            channel_name_index(channels.drop_last()),
            normalized(channels.last().name@),
            (channels.len() - 1) as usize,
        )
    }
}

/// A matched pair of channels.
pub type ChannelPair = ((Seq<char>, Seq<char>), (Seq<char>, Seq<char>));

/// The pairs found by matching each channel of `chs1` (on platform `p1`)
/// by normalized name against `chs2` (on `p2`), in the order of `chs1`.
pub open spec fn pair_matches(
    p1: Seq<char>,
    chs1: Seq<FetchedChannel>,
    p2: Seq<char>,
    chs2: Seq<FetchedChannel>,
) -> Seq<ChannelPair>
    decreases chs1.len(),
{
    if chs1.len() == 0 {
        Seq::empty()
    } else {
        let prev = pair_matches(p1, chs1.drop_last(), p2, chs2);
        let c1 = chs1.last();
        match lookup(channel_name_index(chs2), normalized(c1.name@)) {
            Some(k) => prev.push(((p1, c1.id@), (p2, chs2[k as int].id@))),
            None => prev,
        }
    }
}

/// The pairs found matching platform `i` against platforms `i + 1 .. m`.
pub open spec fn row_matches(plats: Seq<(String, crate::fetched::PlatformData)>, i: int, m: int) -> Seq<ChannelPair>
    decreases m - i,
{
    if m <= i + 1 {
        Seq::empty()
    } else {
        row_matches(plats, i, m - 1) + pair_matches(
            plats[i].0@,
            plats[i].1.channels@,
            plats[m - 1].0@,
            plats[m - 1].1.channels@,
        )
    }
}

/// The pairs found matching each of the platforms `0 .. r` against every
/// later one.
pub open spec fn all_matches(plats: Seq<(String, crate::fetched::PlatformData)>, r: int) -> Seq<ChannelPair>
    decreases r,
{
    if r <= 0 {
        Seq::empty()
    } else {
        all_matches(plats, r - 1) + row_matches(plats, r - 1, plats.len() as int)
    }
}

proof fn lemma_channel_index_below(channels: Seq<FetchedChannel>, key: Seq<char>)
    requires
        channels.len() <= usize::MAX,
    ensures
        vals_below(channel_name_index(channels), channels.len() as int),
        lookup(channel_name_index(channels), key) matches Some(k) ==> k < channels.len(),
    decreases channels.len(),
{
    if channels.len() > 0 {
        let k = (channels.len() - 1) as usize;
        lemma_channel_index_below(channels.drop_last(), key);
        lemma_vals_below(
            channel_name_index(channels.drop_last()),
            normalized(channels.last().name@),
            k,
            k as int,
            channels.len() as int,
        );
    }
    lemma_lookup_below(channel_name_index(channels), key, channels.len() as int);
}

/// Indexes `channels` by normalized name.
fn index_channel_names(channels: &Vec<FetchedChannel>) -> (r: Table<String, usize>)
    ensures
        r@ == channel_name_index(channels@),
{
    let mut by_name: Table<String, usize> = Table::new();
    let mut k: usize = 0;
    while k < channels.len()
        invariant
            k <= channels@.len(),
            by_name@ == channel_name_index(channels@.take(k as int)),
        decreases channels@.len() - k,
    {
        let ghost t = channels@.take(k + 1);
        assert(t.drop_last() =~= channels@.take(k as int));
        assert(t.last() == channels@[k as int]);
        by_name.insert(normalize_channel_name(channels[k].name.as_str()), k);
        k = k + 1;
    }
    assert(channels@.take(k as int) =~= channels@);
    by_name
}

/// The view of a sequence of channel pairs.
pub open spec fn pairs_view(v: Seq<(ChannelRef, ChannelRef)>) -> Seq<ChannelPair> {
    v.map_values(|e: (ChannelRef, ChannelRef)| (e.0@, e.1@))
}

/// Appends the pairs found matching `chs1` on `p1` against `chs2` on `p2`.
fn match_pair(
    p1: &String,
    chs1: &Vec<FetchedChannel>,
    p2: &String,
    chs2: &Vec<FetchedChannel>,
    out: &mut Vec<(ChannelRef, ChannelRef)>,
)
    ensures
        pairs_view(final(out)@) == pairs_view(old(out)@) + pair_matches(p1@, chs1@, p2@, chs2@),
{
    let by_name = index_channel_names(chs2);
    let ghost start = pairs_view(out@);
    let mut a: usize = 0;
    while a < chs1.len()
        invariant
            a <= chs1@.len(),
            by_name@ == channel_name_index(chs2@),
            pairs_view(out@) == start + pair_matches(p1@, chs1@.take(a as int), p2@, chs2@),
        decreases chs1@.len() - a,
    {
        let ghost t = chs1@.take(a + 1);
        assert(t.drop_last() =~= chs1@.take(a as int));
        assert(t.last() == chs1@[a as int]);
        let c1 = &chs1[a];
        let norm = normalize_channel_name(c1.name.as_str());
        match by_name.get(&norm) {
            Some(k) => {
                proof {
                    assert(chs2@.len() == chs2.len());
                    lemma_channel_index_below(chs2@, norm@);
                }
                let c2 = &chs2[*k];
                let r1 = ChannelRef { platform: p1.clone(), channel: c1.id.clone() };
                let r2 = ChannelRef { platform: p2.clone(), channel: c2.id.clone() };
                let ghost before = pairs_view(out@);
                out.push((r1, r2));
                assert(pairs_view(out@) =~= before.push(((p1@, c1.id@), (p2@, c2.id@))));
            },
            None => {},
        }
        a = a + 1;
    }
    assert(chs1@.take(a as int) =~= chs1@);
}

/// The channel pairs to link: across every pair of platforms, each channel
/// of the earlier platform matched by normalized name against the channels
/// of the later one (the last of equal names wins).
pub fn auto_correlate(fetched: &FetchedData) -> (r: Vec<(ChannelRef, ChannelRef)>)
    ensures
        pairs_view(r@) == all_matches(fetched.platforms@, fetched.platforms@.len() as int),
{
    let mut out: Vec<(ChannelRef, ChannelRef)> = Vec::new();
    assert(pairs_view(out@) =~= Seq::<ChannelPair>::empty());
    let n = fetched.platforms.len();
    let mut i: usize = 0;
    while i < n
        invariant
            i <= n,
            n == fetched.platforms@.len(),
            pairs_view(out@) == all_matches(fetched.platforms@, i as int),
        decreases n - i,
    {
        let ghost row_start = pairs_view(out@);
        let mut j: usize = i + 1;
        assert(row_start =~= row_start + row_matches(fetched.platforms@, i as int, j as int));
        while j < n
            invariant
                i < n,
                i + 1 <= j <= n,
                n == fetched.platforms@.len(),
                pairs_view(out@) == row_start + row_matches(fetched.platforms@, i as int, j as int),
            decreases n - j,
        {
            let ghost before = pairs_view(out@);
            match_pair(
                &fetched.platforms[i].0,
                &fetched.platforms[i].1.channels,
                &fetched.platforms[j].0,
                &fetched.platforms[j].1.channels,
                &mut out,
            );
            assert(pairs_view(out@) =~= row_start + row_matches(fetched.platforms@, i as int, j + 1));
            j = j + 1;
        }
        i = i + 1;
    }
    out
}

} // verus!
