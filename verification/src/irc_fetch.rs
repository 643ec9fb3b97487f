//! One-shot discovery of an IRC server's channels and users: LIST, then a
//! NAMES query per listed channel, done when every NAMES query has ended.

use vstd::prelude::*;

use crate::fetched::{FetchedChannel, FetchedChannelView};
use crate::irc_session::{lemma_take_push_set, names_nicks, names_of};
use crate::text::{insert_sorted, strictly_sorted, words};
use crate::user::User;

verus! {

/// The server replies that matter while fetching.
#[derive(Debug)]
pub enum FetchCommand {
    /// RPL_ENDOFMOTD or ERR_NOMOTD: registration is complete.
    EndOfMotd,
    /// RPL_LIST, with its second argument (the channel), if any.
    ListItem { channel: Option<String> },
    /// RPL_LISTEND.
    ListEnd,
    /// RPL_NAMREPLY, with its last argument (the names), if any.
    NamesReply { names: Option<String> },
    /// RPL_ENDOFNAMES.
    EndOfNames,
    Other,
}

/// What to do while fetching.
#[derive(Debug)]
pub enum FetchAction {
    /// Ask the server for its channel list.
    SendList,
    /// Ask for the names in each of these channels.
    SendNames(Vec<String>),
    /// Fetching is complete.
    Done,
    Nothing,
}

/// What fetching has found so far: channel names in listing order, the
/// distinct nicknames in sorted order, whether the list has ended, and how
/// many NAMES queries are still open.
pub struct ListFetch {
    channels: Vec<String>,
    nicknames: Vec<String>,
    list_done: bool,
    names_pending: usize,
}

impl ListFetch {
    pub closed spec fn channel_names(&self) -> Seq<Seq<char>> {
        self.channels@.map_values(|s: String| s@)
    }

    pub closed spec fn nicknames(&self) -> Seq<Seq<char>> {
        self.nicknames@.map_values(|s: String| s@)
    }

    pub closed spec fn list_done(&self) -> bool {
        self.list_done
    }

    pub closed spec fn names_pending(&self) -> nat {
        self.names_pending as nat
    }

    pub open spec fn wf(&self) -> bool {
        strictly_sorted(self.nicknames())
    }

    /// Both have found the same channels and nicknames.
    pub open spec fn same_found(&self, other: Self) -> bool {
        self.channel_names() == other.channel_names() && self.nicknames() == other.nicknames()
    }

    /// Both are at the same point of the exchange.
    pub open spec fn same_progress(&self, other: Self) -> bool {
        self.list_done() == other.list_done() && self.names_pending() == other.names_pending()
    }

    /// Nothing found yet.
    pub fn new() -> (r: Self)
        ensures
            r.wf(),
            r.channel_names().len() == 0,
            r.nicknames().len() == 0,
            !r.list_done(),
            r.names_pending() == 0,
    {
        let r = ListFetch { channels: Vec::new(), nicknames: Vec::new(), list_done: false, names_pending: 0 };
        assert(r.nicknames() =~= Seq::<Seq<char>>::empty());
        assert(r.channel_names() =~= Seq::<Seq<char>>::empty());
        r
    }

    /// Handles one server reply: ask for the list once registered, collect
    /// listed channels, ask for the names of each when the list ends (done at
    /// once when there is none), then collect nicknames (other than the
    /// bot's) and count the ended NAMES queries down to done.
    pub fn step(&mut self, bot_nickname: &str, cmd: &FetchCommand) -> (r: FetchAction)
        requires
            old(self).wf(),
        ensures
            final(self).wf(),
            match *cmd {
                FetchCommand::EndOfMotd => r is SendList && final(self).same_found(*old(self)) && final(self).same_progress(*old(self)),
                FetchCommand::ListItem { channel } => r is Nothing && final(self).same_progress(*old(self))
                    && final(self).nicknames() == old(self).nicknames() && match channel {
                    Some(c) => final(self).channel_names() == old(self).channel_names().push(c@),
                    None => final(self).channel_names() == old(self).channel_names(),
                },
                FetchCommand::ListEnd => {
                    &&& final(self).same_found(*old(self))
                    &&& final(self).list_done()
                    &&& final(self).names_pending() == old(self).channel_names().len()
                    &&& (if old(self).channel_names().len() == 0 {
                        r is Done
                    } else {
                        r matches FetchAction::SendNames(chs) && chs@.map_values(|s: String| s@)
                            == old(self).channel_names()
                    })
                },
                FetchCommand::NamesReply { names } => r is Nothing && final(self).same_progress(*old(self))
                    && final(self).channel_names() == old(self).channel_names() && match names {
                    Some(n) if old(self).list_done() => final(self).nicknames().to_set() == old(self).nicknames().to_set().union(names_nicks(words(n@), bot_nickname@).to_set()),
                    _ => final(self).nicknames() == old(self).nicknames(),
                },
                FetchCommand::EndOfNames => {
                    &&& final(self).same_found(*old(self))
                    &&& final(self).list_done() == old(self).list_done()
                    &&& (if old(self).list_done() {
                        &&& final(self).names_pending() == (if old(self).names_pending() == 0 {
                            0
                        } else {
                            old(self).names_pending() - 1
                        })
                        &&& (if final(self).names_pending() == 0 {
                            r is Done
                        } else {
                            r is Nothing
                        })
                    } else {
                        r is Nothing && final(self).names_pending() == old(self).names_pending()
                    })
                },
                FetchCommand::Other => r is Nothing && final(self).same_found(*old(self)) && final(self).same_progress(*old(self)),
            },
    {
        match cmd {
            FetchCommand::EndOfMotd => FetchAction::SendList,
            FetchCommand::ListItem { channel } => {
                if let Some(c) = channel {
                    let ghost before = self.channel_names();
                    self.channels.push(c.clone());
                    assert(self.channel_names() =~= before.push(c@));
                }
                FetchAction::Nothing
            },
            FetchCommand::ListEnd => {
                self.list_done = true;
                self.names_pending = self.channels.len();
                if self.names_pending == 0 {
                    return FetchAction::Done;
                }
                let mut chs: Vec<String> = Vec::new();
                let mut i: usize = 0;
                while i < self.channels.len()
                    invariant
                        i <= self.channels@.len(),
                        chs@.map_values(|s: String| s@) == self.channels@.take(i as int).map_values(
                            |s: String| s@,
                        ),
                    decreases self.channels@.len() - i,
                {
                    assert(self.channels@.take(i + 1).map_values(|s: String| s@) =~= self.channels@.take(
                        i as int,
                    ).map_values(|s: String| s@).push(self.channels@[i as int]@));
                    chs.push(self.channels[i].clone());
                    assert(chs@.map_values(|s: String| s@) =~= self.channels@.take(i + 1).map_values(
                        |s: String| s@,
                    ));
                    i = i + 1;
                }
                assert(self.channels@.take(i as int) =~= self.channels@);
                FetchAction::SendNames(chs)
            },
            FetchCommand::NamesReply { names } => {
                if self.list_done {
                    if let Some(n) = names {
                        let nicks = names_of(n.as_str(), bot_nickname);
                        let ghost nv = nicks@.map_values(|s: String| s@);
                        let ghost start = self.nicknames().to_set();
                        let mut i: usize = 0;
                        while i < nicks.len()
                            invariant
                                i <= nicks@.len(),
                                nv == nicks@.map_values(|s: String| s@),
                                strictly_sorted(self.nicknames()),
                                self.channel_names() == old(self).channel_names(),
                                self.list_done == old(self).list_done,
                                self.names_pending == old(self).names_pending,
                                self.nicknames().to_set() == start.union(nv.take(i as int).to_set()),
                            decreases nicks@.len() - i,
                        {
                            insert_sorted(&mut self.nicknames, nicks[i].clone());
                            proof {
                                lemma_take_push_set(nv, i as int);
                                assert(self.nicknames().to_set() =~= start.union(nv.take(i + 1).to_set()));
                            }
                            i = i + 1;
                        }
                        assert(nv.take(i as int) =~= nv);
                    }
                }
                FetchAction::Nothing
            },
            FetchCommand::EndOfNames => {
                if self.list_done {
                    if self.names_pending > 0 {
                        self.names_pending = self.names_pending - 1;
                    }
                    if self.names_pending == 0 {
                        FetchAction::Done
                    } else {
                        FetchAction::Nothing
                    }
                } else {
                    FetchAction::Nothing
                }
            },
            FetchCommand::Other => FetchAction::Nothing,
        }
    }

    /// The fetched channels (id and name are the channel name) and users (one
    /// per distinct nickname, sorted, the nickname as id and name).
    pub fn finish(&self) -> (r: (Vec<FetchedChannel>, Vec<User>))
        ensures
            r.0@.map_values(|c: FetchedChannel| c@) == self.channel_names().map_values(
                |n: Seq<char>| FetchedChannelView { id: n, name: n },
            ),
            r.1@.len() == self.nicknames().len(),
            forall|i: int|
                0 <= i < r.1@.len() ==> {
                    let u = #[trigger] r.1@[i];
                    &&& u.id matches Some(id) && id@ == self.nicknames()[i]
                    &&& u.name@ == self.nicknames()[i]
                    &&& u.display_name is None
                    &&& u.avatar_url is None
                },
    {
        let mut channels: Vec<FetchedChannel> = Vec::new();
        let mut i: usize = 0;
        while i < self.channels.len()
            invariant
                i <= self.channels@.len(),
                channels@.len() == i,
                forall|j: int|
                    0 <= j < i ==> (#[trigger] channels@[j]).id@ == self.channels@[j]@ && channels@[j].name@
                        == self.channels@[j]@,
            decreases self.channels@.len() - i,
        {
            channels.push(FetchedChannel { id: self.channels[i].clone(), name: self.channels[i].clone() });
            i = i + 1;
        }
        assert(channels@.map_values(|c: FetchedChannel| c@) =~= self.channel_names().map_values(
            |n: Seq<char>| FetchedChannelView { id: n, name: n },
        ));
        let mut users: Vec<User> = Vec::new();
        let mut k: usize = 0;
        while k < self.nicknames.len()
            invariant
                k <= self.nicknames@.len(),
                users@.len() == k,
                forall|j: int|
                    0 <= j < k ==> {
                        let u = #[trigger] users@[j];
                        &&& u.id matches Some(id) && id@ == self.nicknames@[j]@
                        &&& u.name@ == self.nicknames@[j]@
                        &&& u.display_name is None
                        &&& u.avatar_url is None
                    },
            decreases self.nicknames@.len() - k,
        {
            let nick = &self.nicknames[k];
            users.push(User { id: Some(nick.clone()), name: nick.clone(), display_name: None, avatar_url: None });
            k = k + 1;
        }
        (channels, users)
    }
}

} // verus!
