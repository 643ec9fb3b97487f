//! Channel identity types: platform-specific and cross-platform.

use vstd::prelude::*;

use crate::peers::{Peered, Peers};
use crate::platform::PlatformId;
use crate::table::{lookup, Duplicate, Table};
use crate::text::{lowercase, opt_view, to_lowercase, trim_start, trim_start_char};

verus! {

/// A channel's identity on a single platform.
#[derive(Debug, Clone)]
pub struct PlatformChannel {
    pub platform: PlatformId,
    pub id: String,
    pub name: String,
}

impl Duplicate for PlatformChannel {
    fn duplicate(&self) -> (r: Self) {
        PlatformChannel {
            platform: self.platform.duplicate(),
            id: self.id.clone(),
            name: self.name.clone(),
        }
    }
}

/// A cross-platform channel, grouping aliases across platforms.
#[derive(Debug, Clone)]
pub struct CoreChannel {
    pub alias: Table<PlatformId, PlatformChannel>,
    pub name_override: Option<String>,
}

/// The key by which channels are correlated: the name without leading `#`,
/// lowercased.
pub open spec fn channel_match_key(name: Seq<char>) -> Seq<char> {
    lowercase(trim_start(name, '#'))
}

impl Peered for CoreChannel {
    type Platform = PlatformChannel;

    open spec fn alias_view(&self) -> Seq<(Seq<char>, PlatformChannel)> {
        self.alias@
    }

    open spec fn overrides(&self) -> Seq<Option<Seq<char>>> {
        seq![opt_view(self.name_override)]
    }

    open spec fn fresh_overrides() -> Seq<Option<Seq<char>>> {
        seq![None]
    }

    open spec fn spec_platform_of(item: PlatformChannel) -> Seq<char> {
        item.platform@
    }

    open spec fn spec_id_of(item: PlatformChannel) -> Seq<char> {
        item.id@
    }

    open spec fn spec_match_key(item: PlatformChannel) -> Option<Seq<char>> {
        Some(channel_match_key(item.name@))
    }

    fn aliases(&self) -> (r: &Table<PlatformId, PlatformChannel>) {
        &self.alias
    }

    fn aliases_mut(&mut self) -> (r: &mut Table<PlatformId, PlatformChannel>) {
        &mut self.alias
    }

    fn platform_of(item: &PlatformChannel) -> (r: &PlatformId) {
        &item.platform
    }

    fn id_of(item: &PlatformChannel) -> (r: &str) {
        item.id.as_str()
    }

    fn from_single_alias(platform: PlatformId, item: PlatformChannel) -> (r: Self) {
        let mut alias = Table::new();
        alias.insert(platform, item);
        let r = CoreChannel { alias, name_override: None };
        assert(r.overrides() =~= Self::fresh_overrides());
        r
    }

    fn match_key(item: &PlatformChannel) -> (r: Option<String>) {
        Some(to_lowercase(trim_start_char(item.name.as_str(), '#')))
    }

    fn duplicate_alias(item: &PlatformChannel) -> (r: PlatformChannel) {
        item.duplicate()
    }

    fn duplicate_peer(&self) -> (r: Self) {
        let r = CoreChannel {
            alias: self.alias.duplicate(),
            name_override: self.name_override.duplicate(),
        };
        assert(r.overrides() =~= self.overrides());
        r
    }
}

/// Best name: the override, else the first alias's name.
pub open spec fn channel_name(overridden: Option<Seq<char>>, al: Seq<(Seq<char>, PlatformChannel)>) -> Option<Seq<char>> {
    match overridden {
        Some(o) => Some(o),
        None => if al.len() > 0 {
            Some(al[0].1.name@)
        } else {
            None
        },
    }
}

impl CoreChannel {
    /// The channel's alias on `platform`, if any.
    pub fn get_platform_channel(&self, platform: &PlatformId) -> (r: Option<&PlatformChannel>)
        ensures
            match r {
                Some(pc) => lookup(self.alias@, platform@) == Some(*pc),
                None => lookup(self.alias@, platform@) is None,
            },
    {
        self.alias.get(platform)
    }

    /// Best name: the override, then the first alias's name.
    pub fn name(&self) -> (r: Option<&str>)
        ensures
            match r {
                Some(s) => channel_name(opt_view(self.name_override), self.alias@) == Some(s@),
                None => channel_name(opt_view(self.name_override), self.alias@) is None,
            },
    {
        if let Some(o) = &self.name_override {
            return Some(o.as_str());
        }
        if self.alias.len() > 0 {
            let (_, pc) = self.alias.entry_at(0);
            Some(pc.name.as_str())
        } else {
            None
        }
    }
}

/// The collection of cross-platform channels.
pub type Channels = Peers<CoreChannel>;

/// Channels are matched by name alone: two channels with the same name have
/// the same match key, whatever their platforms and ids, and every channel
/// has one.
pub proof fn law_channel_key_is_by_name(c1: PlatformChannel, c2: PlatformChannel)
    requires
        c1.name@ == c2.name@,
    ensures
        CoreChannel::spec_match_key(c1) is Some,
        CoreChannel::spec_match_key(c1) == CoreChannel::spec_match_key(c2),
{
}

/// A leading `#` makes no difference to the match key: a channel named
/// `#` followed by a name matches a channel with that bare name (so an IRC
/// `#general` and a Discord `general` become one entity).
pub proof fn law_channel_key_ignores_leading_hash(c1: PlatformChannel, c2: PlatformChannel)
    requires
        c1.name@ == seq!['#'] + c2.name@,
    ensures
        CoreChannel::spec_match_key(c1) == CoreChannel::spec_match_key(c2),
{
    let x = c1.name@;
    assert(x.len() > 0 && x[0] == '#');
    assert(x.drop_first() =~= c2.name@);
    assert(trim_start(x, '#') == trim_start(x.drop_first(), '#'));
}

} // verus!
