use vstd::prelude::*;

use crate::assoc::{
    distinct_elems, distinct_keys, lemma_set_absent, lemma_set_at, lemma_set_push,
    lemma_table_absent, lemma_table_at, lemma_table_len, lemma_table_push, lemma_table_update,
    set_of, table_of,
};
use crate::data::{
    CharacterData, CharacterDataInner, ChannelData, ChannelMode, FriendRelation, Message,
    MessageChannel, MessageContent, PartialChannelData, PartialUserData, Timestamp,
    conversation_eq, message_eq, relation_eq, default_profile, ConvV, MessageV, ProfileV,
};
use crate::model::{
    ChannelV, StateV, ad_dup, add_member_t, add_op_t, announced_channel_v, channel_or_default,
    default_channel_v, empty_state_v, filtered_log, insert_ad_t, insert_channel_t,
    insert_message_t, limit_v, log_or_empty, passes_since, remove_member_t, remove_op_t,
    replace_members_t, replace_ops_t, since_v, update_channel_t, update_character_t,
    upsert_counts_t, window_of, apply_channel_partial, apply_user_partial,
    channel_partial_differs, user_partial_differs, profile_or_default,
};
use crate::concurrent::{
    dashmap_counts, dashset_strings, dm_insert, dm_new, ds_clear, ds_insert, ds_items, ds_new,
    ds_remove, SharedCountMap, SharedStrSet,
};
use crate::strset::{str_v, StrSet};

verus! {

/// How many messages a windowed read returns when the caller gives no limit.
pub const DEFAULT_MESSAGE_LIMIT: u32 = 80;

/// Returns the effective window size for a message read: the caller's limit,
/// or the default when none was given.
pub fn effective_limit(limit: Option<u32>) -> (r: u32)
    ensures
        r as int == limit_v(limit),
{
    match limit {
        Option::Some(l) => l,
        Option::None => DEFAULT_MESSAGE_LIMIT,
    }
}

/// Errors the store could raise. Its operations are infallible by
/// construction — a mutation that names an unknown key is a documented no-op,
/// never an error — so nothing in this crate builds a value of this type: it
/// only reserves a fatal-only error path for callers that want one.
#[derive(Debug)]
pub struct CacheError {
    _never: (),
}

/// One channel's stored record.
#[derive(Debug)]
struct ChannelRec {
    mode: ChannelMode,
    members: StrSet,
    ops: StrSet,
    title: String,
    description: String,
}

impl ChannelRec {
    /// The abstract channel this record holds.
    spec fn v(self) -> ChannelV {
        ChannelV {
            mode: self.mode,
            members: self.members@,
            ops: self.ops@,
            title: self.title@,
            description: self.description@,
        }
    }

    /// Both identifier sets are duplicate-free.
    spec fn wf(self) -> bool {
        self.members.wf() && self.ops.wf()
    }
}

/// The view function for channel records.
spec fn chan_v() -> spec_fn(ChannelRec) -> ChannelV {
    |r: ChannelRec| r.v()
}

/// The view function for stored profiles.
spec fn prof_v() -> spec_fn(CharacterDataInner) -> ProfileV {
    |p: CharacterDataInner| p@
}

/// The view function for conversation keys.
spec fn conv_key_v() -> spec_fn(MessageChannel) -> ConvV {
    |k: MessageChannel| k@
}

/// The abstract value of a stored message sequence.
pub open spec fn msgs_v(s: Seq<Message>) -> Seq<MessageV> {
    s.map_values(|m: Message| m@)
}

/// The view function for message logs.
spec fn log_v() -> spec_fn(Vec<Message>) -> Seq<MessageV> {
    |v: Vec<Message>| msgs_v(v@)
}

/// The view function for friend relations.
pub open spec fn rel_v() -> spec_fn(FriendRelation) -> (Seq<char>, Seq<char>) {
    |r: FriendRelation| r@
}

/// The client-side state cache: six independent collections of server-pushed
/// state, owned by one client session. Every mutation reports whether it
/// changed what a reader could observe, so a caller can decide whether to
/// notify anyone.
#[derive(Debug)]
pub struct Cache {
    channels: Vec<(String, ChannelRec)>,
    characters: Vec<(String, CharacterDataInner)>,
    messages: Vec<(MessageChannel, Vec<Message>)>,
    ads: Vec<(String, Vec<Message>)>,
    bookmarks: SharedStrSet,
    friends: Vec<FriendRelation>,
    admins: SharedStrSet,
    global_channels: SharedCountMap,
    unofficial_channels: SharedCountMap,
}

impl Cache {
    /// The channels, abstractly.
    pub closed spec fn channels_v(&self) -> Map<Seq<char>, ChannelV> {
        table_of(self.channels@, str_v(), chan_v())
    }

    /// The character profiles, abstractly.
    pub closed spec fn characters_v(&self) -> Map<Seq<char>, ProfileV> {
        table_of(self.characters@, str_v(), prof_v())
    }

    /// The conversation logs, abstractly.
    pub closed spec fn messages_v(&self) -> Map<ConvV, Seq<MessageV>> {
        table_of(self.messages@, conv_key_v(), log_v())
    }

    /// The ad logs, abstractly.
    pub closed spec fn ads_v(&self) -> Map<Seq<char>, Seq<MessageV>> {
        table_of(self.ads@, str_v(), log_v())
    }

    /// The bookmarked characters, abstractly.
    pub closed spec fn bookmarks_v(&self) -> Set<Seq<char>> {
        dashset_strings(&self.bookmarks)
    }

    /// The friend relations, abstractly.
    pub closed spec fn friends_v(&self) -> Set<(Seq<char>, Seq<char>)> {
        set_of(self.friends@, rel_v())
    }

    /// The global operators, abstractly.
    pub closed spec fn admins_v(&self) -> Set<Seq<char>> {
        dashset_strings(&self.admins)
    }

    /// The official directory counts, abstractly.
    pub closed spec fn global_channels_v(&self) -> Map<Seq<char>, u32> {
        dashmap_counts(&self.global_channels)
    }

    /// The unofficial directory counts, abstractly.
    pub closed spec fn unofficial_channels_v(&self) -> Map<Seq<char>, u32> {
        dashmap_counts(&self.unofficial_channels)
    }

    /// The whole store, abstractly.
    pub open spec fn state_v(&self) -> StateV {
        StateV {
            channels: self.channels_v(),
            characters: self.characters_v(),
            messages: self.messages_v(),
            ads: self.ads_v(),
            bookmarks: self.bookmarks_v(),
            friends: self.friends_v(),
            admins: self.admins_v(),
            global_channels: self.global_channels_v(),
            unofficial_channels: self.unofficial_channels_v(),
        }
    }

    /// Every collection keys its entries uniquely and holds well-formed
    /// records.
    pub closed spec fn wf(&self) -> bool {
        &&& distinct_keys(self.channels@, str_v())
        &&& forall|i: int| 0 <= i < self.channels@.len() ==> (#[trigger] self.channels@[i]).1.wf()
        &&& distinct_keys(self.characters@, str_v())
        &&& distinct_keys(self.messages@, conv_key_v())
        &&& distinct_keys(self.ads@, str_v())
        &&& distinct_elems(self.friends@, rel_v())
    }

    /// Builds an empty store, as a fresh client session starts with.
    pub fn new() -> (r: Cache)
        ensures
            r.wf(),
            r.state_v() == empty_state_v(),
    {
        let r = Cache {
            channels: Vec::new(),
            characters: Vec::new(),
            messages: Vec::new(),
            ads: Vec::new(),
            bookmarks: ds_new(),
            friends: Vec::new(),
            admins: ds_new(),
            global_channels: dm_new(),
            unofficial_channels: dm_new(),
        };
        proof {
            assert(r.state_v() =~= empty_state_v());
        }
        r
    }

    /// Bookmarks a character; reports whether the set grew.
    pub fn add_bookmark(&mut self, character: String) -> (r: bool)
        requires
            old(self).wf(),
        ensures
            final(self).wf(),
            final(self).state_v() == (StateV {
                bookmarks: old(self).bookmarks_v().insert(character@),
                ..old(self).state_v()
            }),
            r == !old(self).bookmarks_v().contains(character@),
    {
        let r = ds_insert(&mut self.bookmarks, character);
        proof {
            assert(self.state_v() =~= (StateV {
                bookmarks: old(self).bookmarks_v().insert(character@),
                ..old(self).state_v()
            }));
        }
        r
    }

    /// Takes a character's bookmark out; reports whether it was there.
    pub fn remove_bookmark(&mut self, character: &String) -> (r: bool)
        requires
            old(self).wf(),
        ensures
            final(self).wf(),
            final(self).state_v() == (StateV {
                bookmarks: old(self).bookmarks_v().remove(character@),
                ..old(self).state_v()
            }),
            r == old(self).bookmarks_v().contains(character@),
    {
        let r = match ds_remove(&mut self.bookmarks, character) {
            Option::Some(_) => true,
            Option::None => false,
        };
        proof {
            assert(self.state_v() =~= (StateV {
                bookmarks: old(self).bookmarks_v().remove(character@),
                ..old(self).state_v()
            }));
        }
        r
    }

    /// Marks a character as a global operator; reports whether the set grew.
    pub fn add_global_op(&mut self, character: String) -> (r: bool)
        requires
            old(self).wf(),
        ensures
            final(self).wf(),
            final(self).state_v() == (StateV {
                admins: old(self).admins_v().insert(character@),
                ..old(self).state_v()
            }),
            r == !old(self).admins_v().contains(character@),
    {
        let r = ds_insert(&mut self.admins, character);
        proof {
            assert(self.state_v() =~= (StateV {
                admins: old(self).admins_v().insert(character@),
                ..old(self).state_v()
            }));
        }
        r
    }

    /// Unmarks a global operator; reports whether the set shrank.
    pub fn remove_global_op(&mut self, character: &String) -> (r: bool)
        requires
            old(self).wf(),
        ensures
            final(self).wf(),
            final(self).state_v() == (StateV {
                admins: old(self).admins_v().remove(character@),
                ..old(self).state_v()
            }),
            r == old(self).admins_v().contains(character@),
    {
        let r = match ds_remove(&mut self.admins, character) {
            Option::Some(_) => true,
            Option::None => false,
        };
        proof {
            assert(self.state_v() =~= (StateV {
                admins: old(self).admins_v().remove(character@),
                ..old(self).state_v()
            }));
        }
        r
    }

    /// Replaces the bookmark set with exactly the given characters; always
    /// reports a change, as the protocol pushes the full list.
    pub fn set_bookmarks(&mut self, bookmarks: &Vec<String>) -> (r: bool)
        requires
            old(self).wf(),
        ensures
            final(self).wf(),
            final(self).state_v() == (StateV {
                bookmarks: set_of(bookmarks@, str_v()),
                ..old(self).state_v()
            }),
            r == true,
    {
        replace_shared_set(&mut self.bookmarks, bookmarks);
        proof {
            assert(self.state_v() =~= (StateV {
                bookmarks: set_of(bookmarks@, str_v()),
                ..old(self).state_v()
            }));
        }
        true
    }

    /// Replaces the global-operator set with exactly the given characters;
    /// always reports a change.
    pub fn set_global_ops(&mut self, ops: &Vec<String>) -> (r: bool)
        requires
            old(self).wf(),
        ensures
            final(self).wf(),
            final(self).state_v() == (StateV {
                admins: set_of(ops@, str_v()),
                ..old(self).state_v()
            }),
            r == true,
    {
        replace_shared_set(&mut self.admins, ops);
        proof {
            assert(self.state_v() =~= (StateV {
                admins: set_of(ops@, str_v()),
                ..old(self).state_v()
            }));
        }
        true
    }

    /// Hands out the bookmarked characters, in no promised order, without
    /// duplicates.
    pub fn get_bookmarks(&self) -> (r: Vec<String>)
        ensures
            set_of(r@, str_v()) == self.bookmarks_v(),
            distinct_elems(r@, str_v()),
    {
        ds_items(&self.bookmarks)
    }

    /// Replaces the friend-relation set with exactly the given relations;
    /// always reports a change.
    pub fn set_friends(&mut self, friends: &Vec<FriendRelation>) -> (r: bool)
        requires
            old(self).wf(),
        ensures
            final(self).wf(),
            final(self).state_v() == (StateV {
                friends: set_of(friends@, rel_v()),
                ..old(self).state_v()
            }),
            r == true,
    {
        self.friends.clear();
        let n = friends.len();
        let mut i: usize = 0;
        while i < n
            invariant
                n == friends@.len(),
                i <= n,
                distinct_elems(self.friends@, rel_v()),
                set_of(self.friends@, rel_v()) == set_of(friends@.subrange(0, i as int), rel_v()),
                self.channels == old(self).channels,
                self.characters == old(self).characters,
                self.messages == old(self).messages,
                self.ads == old(self).ads,
                self.bookmarks == old(self).bookmarks,
                self.admins == old(self).admins,
                self.global_channels == old(self).global_channels,
                self.unofficial_channels == old(self).unofficial_channels,
                old(self).wf(),
            decreases n - i,
        {
            let ghost prefix = friends@.subrange(0, i as int);
            let next = &friends[i];
            match find_rel(&self.friends, next) {
                Option::Some(j) => {
                    proof {
                        lemma_set_at(self.friends@, rel_v(), j as int);
                        lemma_set_push(prefix, rel_v(), friends@[i as int]);
                        assert(set_of(self.friends@, rel_v())
                            =~= set_of(self.friends@, rel_v()).insert(next@));
                    }
                },
                Option::None => {
                    proof {
                        lemma_set_absent(self.friends@, rel_v(), next@);
                        lemma_set_push(self.friends@, rel_v(), friends@[i as int]);
                        lemma_set_push(prefix, rel_v(), friends@[i as int]);
                    }
                    self.friends.push(next.clone());
                },
            }
            proof {
                assert(prefix.push(friends@[i as int]) =~= friends@.subrange(0, i as int + 1));
            }
            i = i + 1;
        }
        proof {
            assert(friends@.subrange(0, n as int) =~= friends@);
            assert(self.state_v() =~= (StateV {
                friends: set_of(friends@, rel_v()),
                ..old(self).state_v()
            }));
        }
        true
    }

    /// Hands out the friend relations, in no promised order, without
    /// duplicates.
    pub fn get_friend_relations(&self) -> (r: Vec<FriendRelation>)
        requires
            self.wf(),
        ensures
            set_of(r@, rel_v()) == self.friends_v(),
            distinct_elems(r@, rel_v()),
    {
        let n = self.friends.len();
        let mut r: Vec<FriendRelation> = Vec::new();
        let mut i: usize = 0;
        while i < n
            invariant
                n == self.friends@.len(),
                i <= n,
                r@ == self.friends@.subrange(0, i as int),
            decreases n - i,
        {
            r.push(self.friends[i].clone());
            proof {
                assert(r@ =~= self.friends@.subrange(0, i as int + 1));
            }
            i = i + 1;
        }
        proof {
            assert(r@ =~= self.friends@);
        }
        r
    }
}

impl Cache {
    /// Announces a channel: create-if-absent. A known channel is left exactly
    /// as it was — re-announcements are assumed consistent with current state
    /// — and `false` comes back; otherwise the record is created from the
    /// announcement, absent fields defaulted, and `true` comes back.
    pub fn insert_channel(
        &mut self,
        channel: String,
        data: PartialChannelData,
        members: &Vec<String>,
    ) -> (r: bool)
        requires
            old(self).wf(),
        ensures
            final(self).wf(),
            final(self).state_v() == (StateV {
                channels: insert_channel_t(
                    old(self).channels_v(),
                    channel@,
                    data@,
                    set_of(members@, str_v()),
                ).0,
                ..old(self).state_v()
            }),
            r == insert_channel_t(
                old(self).channels_v(),
                channel@,
                data@,
                set_of(members@, str_v()),
            ).1,
    {
        let ghost d = data@;
        match find_key(&self.channels, &channel) {
            Option::Some(i) => {
                proof {
                    lemma_table_at(self.channels@, str_v(), chan_v(), i as int);
                    assert(self.state_v() =~= (StateV {
                        channels: insert_channel_t(
                            old(self).channels_v(),
                            channel@,
                            d,
                            set_of(members@, str_v()),
                        ).0,
                        ..old(self).state_v()
                    }));
                }
                false
            },
            Option::None => {
                proof {
                    lemma_table_absent(self.channels@, str_v(), chan_v(), channel@);
                }
                let mut member_set = StrSet::new();
                member_set.replace_all(members);
                let rec = ChannelRec {
                    mode: match data.mode {
                        Option::Some(m) => m,
                        Option::None => ChannelMode::Public,
                    },
                    members: member_set,
                    ops: StrSet::new(),
                    title: match data.title {
                        Option::Some(t) => t,
                        Option::None => String::new(),
                    },
                    description: match data.description {
                        Option::Some(x) => x,
                        Option::None => String::new(),
                    },
                };
                proof {
                    assert(rec.v() =~= announced_channel_v(d, set_of(members@, str_v())));
                }
                let ghost s0 = self.channels@;
                self.channels.push((channel, rec));
                proof {
                    lemma_table_push(
                        s0,
                        str_v(),
                        chan_v(),
                        self.channels@.last().0,
                        self.channels@.last().1,
                    );
                    assert(self.channels@.drop_last() =~= s0);
                    assert(self.channels_v() =~= insert_channel_t(
                        old(self).channels_v(),
                        self.channels@.last().0@,
                        d,
                        set_of(members@, str_v()),
                    ).0);
                    assert forall|j: int| 0 <= j < self.channels@.len()
                        implies (#[trigger] self.channels@[j]).1.wf() by {
                        if j < s0.len() {
                            assert(self.channels@[j] == s0[j]);
                        }
                    }
                    assert(self.state_v() =~= (StateV {
                        channels: self.channels_v(),
                        ..old(self).state_v()
                    }));
                }
                true
            },
        }
    }

    /// Finds a channel's entry, creating the default record first when the
    /// channel is unknown. Hands back where the entry sits.
    fn ensure_channel(&mut self, channel: &String) -> (i: usize)
        requires
            old(self).wf(),
        ensures
            final(self).wf(),
            i < final(self).channels@.len(),
            final(self).channels@[i as int].0@ == channel@,
            chan_v()(final(self).channels@[i as int].1)
                == channel_or_default(old(self).channels_v(), channel@),
            final(self).channels_v() == old(self).channels_v().insert(
                channel@,
                channel_or_default(old(self).channels_v(), channel@),
            ),
            final(self).state_v() == (StateV {
                channels: final(self).channels_v(),
                ..old(self).state_v()
            }),
    {
        match find_key(&self.channels, channel) {
            Option::Some(i) => {
                proof {
                    lemma_table_at(self.channels@, str_v(), chan_v(), i as int);
                    assert(self.channels_v() =~= old(self).channels_v().insert(
                        channel@,
                        channel_or_default(old(self).channels_v(), channel@),
                    ));
                    assert(self.state_v() =~= (StateV {
                        channels: self.channels_v(),
                        ..old(self).state_v()
                    }));
                }
                i
            },
            Option::None => {
                proof {
                    lemma_table_absent(self.channels@, str_v(), chan_v(), channel@);
                }
                let rec = ChannelRec {
                    mode: ChannelMode::Public,
                    members: StrSet::new(),
                    ops: StrSet::new(),
                    title: String::new(),
                    description: String::new(),
                };
                proof {
                    assert(rec.v() =~= default_channel_v());
                }
                let i = self.channels.len();
                let ghost s0 = self.channels@;
                self.channels.push((channel.clone(), rec));
                proof {
                    lemma_table_push(
                        s0,
                        str_v(),
                        chan_v(),
                        self.channels@.last().0,
                        self.channels@.last().1,
                    );
                    assert(self.channels@.drop_last() =~= s0);
                    assert forall|j: int| 0 <= j < self.channels@.len()
                        implies (#[trigger] self.channels@[j]).1.wf() by {
                        if j < s0.len() {
                            assert(self.channels@[j] == s0[j]);
                        }
                    }
                    assert(self.channels_v() =~= old(self).channels_v().insert(
                        channel@,
                        channel_or_default(old(self).channels_v(), channel@),
                    ));
                    assert(self.state_v() =~= (StateV {
                        channels: self.channels_v(),
                        ..old(self).state_v()
                    }));
                }
                i
            },
        }
    }

    /// A character joins a channel. Unknown channel: no record is created and
    /// `false` comes back. Known channel: the character enters the member set,
    /// and whether the set grew comes back.
    pub fn add_channel_member(&mut self, channel: &String, member: String) -> (r: bool)
        requires
            old(self).wf(),
        ensures
            final(self).wf(),
            final(self).state_v() == (StateV {
                channels: add_member_t(old(self).channels_v(), channel@, member@).0,
                ..old(self).state_v()
            }),
            r == add_member_t(old(self).channels_v(), channel@, member@).1,
    {
        match find_key(&self.channels, channel) {
            Option::None => {
                proof {
                    lemma_table_absent(self.channels@, str_v(), chan_v(), channel@);
                    assert(self.state_v() =~= (StateV {
                        channels: add_member_t(old(self).channels_v(), channel@, member@).0,
                        ..old(self).state_v()
                    }));
                }
                false
            },
            Option::Some(i) => {
                proof {
                    lemma_table_at(self.channels@, str_v(), chan_v(), i as int);
                }
                let ghost s0 = self.channels@;
                let r = self.channels[i].1.members.insert(member);
                proof {
                    self.lemma_channel_entry_updated(*old(self), s0, i as int);
                    assert(chan_v()(self.channels@[i as int].1) =~= add_member_t(
                        old(self).channels_v(),
                        channel@,
                        member@,
                    ).0[channel@]);
                    assert(self.channels_v() =~= add_member_t(
                        old(self).channels_v(),
                        channel@,
                        member@,
                    ).0);
                    assert(self.state_v() =~= (StateV {
                        channels: self.channels_v(),
                        ..old(self).state_v()
                    }));
                }
                r
            },
        }
    }

    /// A character leaves a channel. Unknown channel: no-op, `false`. Known
    /// channel: the character leaves the member set, and whether the set
    /// shrank comes back.
    pub fn remove_channel_member(&mut self, channel: &String, member: &String) -> (r: bool)
        requires
            old(self).wf(),
        ensures
            final(self).wf(),
            final(self).state_v() == (StateV {
                channels: remove_member_t(old(self).channels_v(), channel@, member@).0,
                ..old(self).state_v()
            }),
            r == remove_member_t(old(self).channels_v(), channel@, member@).1,
    {
        match find_key(&self.channels, channel) {
            Option::None => {
                proof {
                    lemma_table_absent(self.channels@, str_v(), chan_v(), channel@);
                    assert(self.state_v() =~= (StateV {
                        channels: remove_member_t(old(self).channels_v(), channel@, member@).0,
                        ..old(self).state_v()
                    }));
                }
                false
            },
            Option::Some(i) => {
                proof {
                    lemma_table_at(self.channels@, str_v(), chan_v(), i as int);
                }
                let ghost s0 = self.channels@;
                let r = self.channels[i].1.members.remove(member);
                proof {
                    self.lemma_channel_entry_updated(*old(self), s0, i as int);
                    assert(chan_v()(self.channels@[i as int].1) =~= remove_member_t(
                        old(self).channels_v(),
                        channel@,
                        member@,
                    ).0[channel@]);
                    assert(self.channels_v() =~= remove_member_t(
                        old(self).channels_v(),
                        channel@,
                        member@,
                    ).0);
                    assert(self.state_v() =~= (StateV {
                        channels: self.channels_v(),
                        ..old(self).state_v()
                    }));
                }
                r
            },
        }
    }

    /// A character gains operator standing in a channel. Same shape as
    /// `add_channel_member`, against the operator set; no cross-check against
    /// membership.
    pub fn add_channel_op(&mut self, channel: &String, character: String) -> (r: bool)
        requires
            old(self).wf(),
        ensures
            final(self).wf(),
            final(self).state_v() == (StateV {
                channels: add_op_t(old(self).channels_v(), channel@, character@).0,
                ..old(self).state_v()
            }),
            r == add_op_t(old(self).channels_v(), channel@, character@).1,
    {
        match find_key(&self.channels, channel) {
            Option::None => {
                proof {
                    lemma_table_absent(self.channels@, str_v(), chan_v(), channel@);
                    assert(self.state_v() =~= (StateV {
                        channels: add_op_t(old(self).channels_v(), channel@, character@).0,
                        ..old(self).state_v()
                    }));
                }
                false
            },
            Option::Some(i) => {
                proof {
                    lemma_table_at(self.channels@, str_v(), chan_v(), i as int);
                }
                let ghost s0 = self.channels@;
                let r = self.channels[i].1.ops.insert(character);
                proof {
                    self.lemma_channel_entry_updated(*old(self), s0, i as int);
                    assert(chan_v()(self.channels@[i as int].1) =~= add_op_t(
                        old(self).channels_v(),
                        channel@,
                        character@,
                    ).0[channel@]);
                    assert(self.channels_v() =~= add_op_t(
                        old(self).channels_v(),
                        channel@,
                        character@,
                    ).0);
                    assert(self.state_v() =~= (StateV {
                        channels: self.channels_v(),
                        ..old(self).state_v()
                    }));
                }
                r
            },
        }
    }

    /// A character loses operator standing in a channel. Same shape as
    /// `remove_channel_member`, against the operator set.
    pub fn remove_channel_op(&mut self, channel: &String, character: &String) -> (r: bool)
        requires
            old(self).wf(),
        ensures
            final(self).wf(),
            final(self).state_v() == (StateV {
                channels: remove_op_t(old(self).channels_v(), channel@, character@).0,
                ..old(self).state_v()
            }),
            r == remove_op_t(old(self).channels_v(), channel@, character@).1,
    {
        match find_key(&self.channels, channel) {
            Option::None => {
                proof {
                    lemma_table_absent(self.channels@, str_v(), chan_v(), channel@);
                    assert(self.state_v() =~= (StateV {
                        channels: remove_op_t(old(self).channels_v(), channel@, character@).0,
                        ..old(self).state_v()
                    }));
                }
                false
            },
            Option::Some(i) => {
                proof {
                    lemma_table_at(self.channels@, str_v(), chan_v(), i as int);
                }
                let ghost s0 = self.channels@;
                let r = self.channels[i].1.ops.remove(character);
                proof {
                    self.lemma_channel_entry_updated(*old(self), s0, i as int);
                    assert(chan_v()(self.channels@[i as int].1) =~= remove_op_t(
                        old(self).channels_v(),
                        channel@,
                        character@,
                    ).0[channel@]);
                    assert(self.channels_v() =~= remove_op_t(
                        old(self).channels_v(),
                        channel@,
                        character@,
                    ).0);
                    assert(self.state_v() =~= (StateV {
                        channels: self.channels_v(),
                        ..old(self).state_v()
                    }));
                }
                r
            },
        }
    }

    /// After one channel entry was reworked in place, the channel table is the
    /// old table with that entry's key remapped, and every record is still
    /// well-formed where the reworked one is.
    proof fn lemma_channel_entry_updated(&self, prior: Cache, s0: Seq<(String, ChannelRec)>, i: int)
        requires
            prior.wf(),
            s0 == prior.channels@,
            0 <= i < s0.len(),
            self.channels@ == s0.update(i, (s0[i].0, self.channels@[i].1)),
        ensures
            distinct_keys(self.channels@, str_v()),
            self.channels_v() == prior.channels_v().insert(
                s0[i].0@,
                chan_v()(self.channels@[i].1),
            ),
            self.channels@[i].0 == s0[i].0,
            self.channels@[i].1.wf() ==> forall|j: int| 0 <= j < self.channels@.len()
                ==> (#[trigger] self.channels@[j]).1.wf(),
    {
        lemma_table_update(s0, str_v(), chan_v(), i, self.channels@[i].1);
        assert(self.channels@ == s0.update(i, (s0[i].0, self.channels@[i].1)));
        if self.channels@[i].1.wf() {
            assert forall|j: int| 0 <= j < self.channels@.len()
                implies (#[trigger] self.channels@[j]).1.wf() by {
                if j != i {
                    assert(self.channels@[j] == s0[j]);
                }
            }
        }
    }
}

impl Cache {
    /// Applies a partial update to a channel, creating the record with
    /// defaults first when the channel is unknown; each present field is
    /// applied, and whether any of them differed comes back.
    pub fn update_channel(&mut self, channel: &String, data: PartialChannelData) -> (r: bool)
        requires
            old(self).wf(),
        ensures
            final(self).wf(),
            final(self).state_v() == (StateV {
                channels: update_channel_t(old(self).channels_v(), channel@, data@).0,
                ..old(self).state_v()
            }),
            r == update_channel_t(old(self).channels_v(), channel@, data@).1,
    {
        let ghost d = data@;
        let ghost cur = channel_or_default(old(self).channels_v(), channel@);
        let i = self.ensure_channel(channel);
        let ghost mid = *self;
        let ghost s1 = self.channels@;
        let mut changed = false;
        match &data.mode {
            Option::Some(m) => {
                if !(self.channels[i].1.mode == *m) {
                    changed = true;
                }
                self.channels[i].1.mode = *m;
            },
            Option::None => {},
        }
        match data.title {
            Option::Some(t) => {
                if !(self.channels[i].1.title == t) {
                    changed = true;
                }
                self.channels[i].1.title = t;
            },
            Option::None => {},
        }
        match data.description {
            Option::Some(x) => {
                if !(self.channels[i].1.description == x) {
                    changed = true;
                }
                self.channels[i].1.description = x;
            },
            Option::None => {},
        }
        proof {
            assert(self.channels@ =~= s1.update(i as int, (s1[i as int].0, self.channels@[i as int].1)));
            self.lemma_channel_entry_updated(mid, s1, i as int);
            assert(chan_v()(self.channels@[i as int].1) =~= apply_channel_partial(cur, d));
            assert(changed == channel_partial_differs(cur, d));
            assert(self.channels_v() =~= update_channel_t(old(self).channels_v(), channel@, d).0);
            assert(self.state_v() =~= (StateV {
                channels: self.channels_v(),
                ..old(self).state_v()
            }));
        }
        changed
    }

    /// Replaces a channel's member set wholesale, creating the record with
    /// defaults first when the channel is unknown. Always reports a change,
    /// even when the new set equals the old one: the callers get the full
    /// list pushed and do their own filtering.
    pub fn set_channel_members(&mut self, channel: &String, members: &Vec<String>) -> (r: bool)
        requires
            old(self).wf(),
        ensures
            final(self).wf(),
            final(self).state_v() == (StateV {
                channels: replace_members_t(
                    old(self).channels_v(),
                    channel@,
                    set_of(members@, str_v()),
                ).0,
                ..old(self).state_v()
            }),
            r == true,
    {
        let ghost cur = channel_or_default(old(self).channels_v(), channel@);
        let i = self.ensure_channel(channel);
        let ghost mid = *self;
        let ghost s1 = self.channels@;
        self.channels[i].1.members.replace_all(members);
        proof {
            assert(self.channels@ =~= s1.update(i as int, (s1[i as int].0, self.channels@[i as int].1)));
            self.lemma_channel_entry_updated(mid, s1, i as int);
            assert(chan_v()(self.channels@[i as int].1) =~= (ChannelV {
                members: set_of(members@, str_v()),
                ..cur
            }));
            assert(self.channels_v() =~= replace_members_t(
                old(self).channels_v(),
                channel@,
                set_of(members@, str_v()),
            ).0);
            assert(self.state_v() =~= (StateV {
                channels: self.channels_v(),
                ..old(self).state_v()
            }));
        }
        true
    }

    /// Replaces a channel's operator set wholesale; otherwise as
    /// `set_channel_members`.
    pub fn set_channel_ops(&mut self, channel: &String, ops: &Vec<String>) -> (r: bool)
        requires
            old(self).wf(),
        ensures
            final(self).wf(),
            final(self).state_v() == (StateV {
                channels: replace_ops_t(
                    old(self).channels_v(),
                    channel@,
                    set_of(ops@, str_v()),
                ).0,
                ..old(self).state_v()
            }),
            r == true,
    {
        let ghost cur = channel_or_default(old(self).channels_v(), channel@);
        let i = self.ensure_channel(channel);
        let ghost mid = *self;
        let ghost s1 = self.channels@;
        self.channels[i].1.ops.replace_all(ops);
        proof {
            assert(self.channels@ =~= s1.update(i as int, (s1[i as int].0, self.channels@[i as int].1)));
            self.lemma_channel_entry_updated(mid, s1, i as int);
            assert(chan_v()(self.channels@[i as int].1) =~= (ChannelV {
                ops: set_of(ops@, str_v()),
                ..cur
            }));
            assert(self.channels_v() =~= replace_ops_t(
                old(self).channels_v(),
                channel@,
                set_of(ops@, str_v()),
            ).0);
            assert(self.state_v() =~= (StateV {
                channels: self.channels_v(),
                ..old(self).state_v()
            }));
        }
        true
    }

    /// Merges a partial update into a character's profile, creating the
    /// default profile first when the character is fresh; each present field
    /// is applied, and whether any of them differed comes back.
    pub fn update_character(&mut self, character: &String, data: PartialUserData) -> (r: bool)
        requires
            old(self).wf(),
        ensures
            final(self).wf(),
            final(self).state_v() == (StateV {
                characters: update_character_t(old(self).characters_v(), character@, data@).0,
                ..old(self).state_v()
            }),
            r == update_character_t(old(self).characters_v(), character@, data@).1,
    {
        let ghost d = data@;
        let ghost cur = profile_or_default(old(self).characters_v(), character@);
        let i = match find_key(&self.characters, character) {
            Option::Some(i) => {
                proof {
                    lemma_table_at(self.characters@, str_v(), prof_v(), i as int);
                    assert(self.characters_v() =~= old(self).characters_v().insert(character@, cur));
                }
                i
            },
            Option::None => {
                proof {
                    lemma_table_absent(self.characters@, str_v(), prof_v(), character@);
                }
                let i = self.characters.len();
                let ghost s0 = self.characters@;
                self.characters.push((character.clone(), default_profile()));
                proof {
                    lemma_table_push(
                        s0,
                        str_v(),
                        prof_v(),
                        self.characters@.last().0,
                        self.characters@.last().1,
                    );
                    assert(self.characters@.drop_last() =~= s0);
                    assert(self.characters_v() =~= old(self).characters_v().insert(character@, cur));
                }
                i
            },
        };
        let ghost mid = *self;
        let ghost s1 = self.characters@;
        let mut changed = false;
        match &data.gender {
            Option::Some(g) => {
                if !(self.characters[i].1.gender == *g) {
                    changed = true;
                }
                self.characters[i].1.gender = *g;
            },
            Option::None => {},
        }
        match &data.status {
            Option::Some(st) => {
                if !(self.characters[i].1.status == *st) {
                    changed = true;
                }
                self.characters[i].1.status = *st;
            },
            Option::None => {},
        }
        match data.status_message {
            Option::Some(msg) => {
                if !(self.characters[i].1.status_message == msg) {
                    changed = true;
                }
                self.characters[i].1.status_message = msg;
            },
            Option::None => {},
        }
        proof {
            assert(self.characters@ =~= s1.update(
                i as int,
                (s1[i as int].0, self.characters@[i as int].1),
            ));
            lemma_table_update(s1, str_v(), prof_v(), i as int, self.characters@[i as int].1);
            assert(prof_v()(self.characters@[i as int].1) =~= apply_user_partial(cur, d));
            assert(changed == user_partial_differs(cur, d));
            assert(self.characters_v() =~= update_character_t(
                old(self).characters_v(),
                character@,
                d,
            ).0);
            assert(self.state_v() =~= (StateV {
                characters: self.characters_v(),
                ..old(self).state_v()
            }));
        }
        changed
    }

    /// Appends a message to its conversation's history, unless it is
    /// structurally equal to the current last entry there, in which case it
    /// is dropped and `false` comes back. Equality takes the timestamp in:
    /// this is a narrow guard against duplicate delivery, not a general retry
    /// dedup.
    pub fn insert_message(&mut self, source: MessageChannel, message: Message) -> (r: bool)
        requires
            old(self).wf(),
        ensures
            final(self).wf(),
            final(self).state_v() == (StateV {
                messages: insert_message_t(old(self).messages_v(), source@, message@).0,
                ..old(self).state_v()
            }),
            r == insert_message_t(old(self).messages_v(), source@, message@).1,
    {
        match find_conv(&self.messages, &source) {
            Option::None => {
                proof {
                    lemma_table_absent(self.messages@, conv_key_v(), log_v(), source@);
                }
                let mut log: Vec<Message> = Vec::new();
                log.push(message);
                let ghost s0 = self.messages@;
                self.messages.push((source, log));
                proof {
                    lemma_table_push(
                        s0,
                        conv_key_v(),
                        log_v(),
                        self.messages@.last().0,
                        self.messages@.last().1,
                    );
                    assert(self.messages@.drop_last() =~= s0);
                    assert(msgs_v(self.messages@.last().1@)
                        =~= Seq::<MessageV>::empty().push(message@));
                    assert(self.messages_v() =~= insert_message_t(
                        old(self).messages_v(),
                        source@,
                        message@,
                    ).0);
                    assert(self.state_v() =~= (StateV {
                        messages: self.messages_v(),
                        ..old(self).state_v()
                    }));
                }
                true
            },
            Option::Some(i) => {
                proof {
                    lemma_table_at(self.messages@, conv_key_v(), log_v(), i as int);
                }
                let n = self.messages[i].1.len();
                let is_dup = n > 0 && message_eq(&self.messages[i].1[n - 1], &message);
                if is_dup {
                    proof {
                        let lv = msgs_v(self.messages@[i as int].1@);
                        assert(lv.last() == message@);
                        assert(self.state_v() =~= (StateV {
                            messages: insert_message_t(
                                old(self).messages_v(),
                                source@,
                                message@,
                            ).0,
                            ..old(self).state_v()
                        }));
                    }
                    false
                } else {
                    let ghost s0 = self.messages@;
                    proof {
                        if msgs_v(s0[i as int].1@).len() > 0 {
                            assert(msgs_v(s0[i as int].1@).last() == s0[i as int].1@.last()@);
                        }
                    }
                    self.messages[i].1.push(message);
                    proof {
                        assert(self.messages@ =~= s0.update(
                            i as int,
                            (s0[i as int].0, self.messages@[i as int].1),
                        ));
                        lemma_table_update(
                            s0,
                            conv_key_v(),
                            log_v(),
                            i as int,
                            self.messages@[i as int].1,
                        );
                        assert(msgs_v(self.messages@[i as int].1@)
                            =~= msgs_v(s0[i as int].1@).push(message@));
                        assert(self.messages_v() =~= insert_message_t(
                            old(self).messages_v(),
                            source@,
                            message@,
                        ).0);
                        assert(self.state_v() =~= (StateV {
                            messages: self.messages_v(),
                            ..old(self).state_v()
                        }));
                    }
                    true
                }
            },
        }
    }

    /// Appends an ad to a channel's rotating ad history at the given moment,
    /// unless its text equals the text of the most recent ad there — the
    /// dedup looks at the text alone, never at the author or the time.
    pub fn insert_ad_at(
        &mut self,
        channel: String,
        character: String,
        ad: String,
        timestamp: Timestamp,
    ) -> (r: bool)
        requires
            old(self).wf(),
        ensures
            final(self).wf(),
            final(self).state_v() == (StateV {
                ads: insert_ad_t(
                    old(self).ads_v(),
                    channel@,
                    character@,
                    ad@,
                    timestamp as int,
                ).0,
                ..old(self).state_v()
            }),
            r == !ad_dup(log_or_empty(old(self).ads_v(), channel@), ad@),
    {
        match find_key(&self.ads, &channel) {
            Option::None => {
                proof {
                    lemma_table_absent(self.ads@, str_v(), log_v(), channel@);
                }
                let msg = Message {
                    timestamp,
                    character,
                    content: MessageContent::Text(ad),
                };
                let mut log: Vec<Message> = Vec::new();
                log.push(msg);
                let ghost s0 = self.ads@;
                self.ads.push((channel, log));
                proof {
                    lemma_table_push(
                        s0,
                        str_v(),
                        log_v(),
                        self.ads@.last().0,
                        self.ads@.last().1,
                    );
                    assert(self.ads@.drop_last() =~= s0);
                    assert(msgs_v(self.ads@.last().1@)
                        =~= Seq::<MessageV>::empty().push(self.ads@.last().1@[0]@));
                    assert(self.ads_v() =~= insert_ad_t(
                        old(self).ads_v(),
                        self.ads@.last().0@,
                        self.ads@.last().1@[0].character@,
                        ad@,
                        timestamp as int,
                    ).0);
                    assert(self.state_v() =~= (StateV {
                        ads: self.ads_v(),
                        ..old(self).state_v()
                    }));
                }
                true
            },
            Option::Some(i) => {
                proof {
                    lemma_table_at(self.ads@, str_v(), log_v(), i as int);
                }
                let n = self.ads[i].1.len();
                let mut is_dup = false;
                if n > 0 {
                    is_dup = match &self.ads[i].1[n - 1].content {
                        MessageContent::Text(s) => *s == ad,
                    };
                    proof {
                        let lv = msgs_v(self.ads@[i as int].1@);
                        assert(lv.last() == self.ads@[i as int].1@.last()@);
                        assert(is_dup == ad_dup(lv, ad@));
                    }
                }
                if is_dup {
                    proof {
                        assert(self.state_v() =~= (StateV {
                            ads: insert_ad_t(
                                old(self).ads_v(),
                                channel@,
                                character@,
                                ad@,
                                timestamp as int,
                            ).0,
                            ..old(self).state_v()
                        }));
                    }
                    false
                } else {
                    let msg = Message {
                        timestamp,
                        character,
                        content: MessageContent::Text(ad),
                    };
                    let ghost s0 = self.ads@;
                    proof {
                        if msgs_v(s0[i as int].1@).len() > 0 {
                            assert(msgs_v(s0[i as int].1@).last() == s0[i as int].1@.last()@);
                        }
                    }
                    self.ads[i].1.push(msg);
                    proof {
                        assert(self.ads@ =~= s0.update(
                            i as int,
                            (s0[i as int].0, self.ads@[i as int].1),
                        ));
                        lemma_table_update(s0, str_v(), log_v(), i as int, self.ads@[i as int].1);
                        assert(msgs_v(self.ads@[i as int].1@)
                            =~= msgs_v(s0[i as int].1@).push(self.ads@[i as int].1@.last()@));
                        assert(self.ads_v() =~= insert_ad_t(
                            old(self).ads_v(),
                            channel@,
                            character@,
                            ad@,
                            timestamp as int,
                        ).0);
                        assert(self.state_v() =~= (StateV {
                            ads: self.ads_v(),
                            ..old(self).state_v()
                        }));
                    }
                    true
                }
            },
        }
    }

    /// Appends an ad stamped with the moment of the call, with the same
    /// text-only dedup as `insert_ad_at`. The moment comes from the wall
    /// clock, so only its existence is promised.
    pub fn insert_ad(&mut self, channel: String, character: String, ad: String) -> (r: bool)
        requires
            old(self).wf(),
        ensures
            final(self).wf(),
            exists|t: int| final(self).state_v() == (StateV {
                ads: (#[trigger] insert_ad_t(old(self).ads_v(), channel@, character@, ad@, t)).0,
                ..old(self).state_v()
            }),
            r == !ad_dup(log_or_empty(old(self).ads_v(), channel@), ad@),
    {
        let ghost chan_view = channel@;
        let ghost char_view = character@;
        let ghost ad_view = ad@;
        let now = crate::clock::now_unix_seconds();
        let r = self.insert_ad_at(channel, character, ad, now);
        proof {
            let t0 = now as int;
            assert(self.state_v() == (StateV {
                ads: insert_ad_t(old(self).ads_v(), chan_view, char_view, ad_view, t0).0,
                ..old(self).state_v()
            }));
        }
        r
    }

    /// Upserts the official directory counts, pair by pair; a pair counts as
    /// a change when its key is new or its count differs. Entries are never
    /// removed: stale channels persist for the life of the store.
    pub fn set_global_channels(&mut self, channels: &Vec<(String, u32)>) -> (r: bool)
        requires
            old(self).wf(),
        ensures
            final(self).wf(),
            final(self).state_v() == (StateV {
                global_channels: upsert_counts_t(
                    old(self).global_channels_v(),
                    count_pairs_v(channels@),
                ).0,
                ..old(self).state_v()
            }),
            r == upsert_counts_t(old(self).global_channels_v(), count_pairs_v(channels@)).1,
    {
        let r = upsert_counts(&mut self.global_channels, channels);
        proof {
            assert(self.state_v() =~= (StateV {
                global_channels: self.global_channels_v(),
                ..old(self).state_v()
            }));
        }
        r
    }

    /// Upserts the unofficial directory counts; otherwise as
    /// `set_global_channels`.
    pub fn set_unofficial_channels(&mut self, channels: &Vec<(String, u32)>) -> (r: bool)
        requires
            old(self).wf(),
        ensures
            final(self).wf(),
            final(self).state_v() == (StateV {
                unofficial_channels: upsert_counts_t(
                    old(self).unofficial_channels_v(),
                    count_pairs_v(channels@),
                ).0,
                ..old(self).state_v()
            }),
            r == upsert_counts_t(old(self).unofficial_channels_v(), count_pairs_v(channels@)).1,
    {
        let r = upsert_counts(&mut self.unofficial_channels, channels);
        proof {
            assert(self.state_v() =~= (StateV {
                unofficial_channels: self.unofficial_channels_v(),
                ..old(self).state_v()
            }));
        }
        r
    }
}

impl Cache {
    /// Reads one channel as an owned snapshot: its mode, texts, and a full
    /// copy of its member list. The operator set is not part of the snapshot.
    pub fn get_channel(&self, channel: &String) -> (r: Option<ChannelData>)
        requires
            self.wf(),
        ensures
            match r {
                Option::None => !self.channels_v().contains_key(channel@),
                Option::Some(cd) => self.channels_v().contains_key(channel@)
                    && cd.channel@ == channel@
                    && channel_snapshot_ok(cd, self.channels_v()[channel@]),
            },
    {
        match find_key(&self.channels, channel) {
            Option::None => {
                proof {
                    lemma_table_absent(self.channels@, str_v(), chan_v(), channel@);
                }
                Option::None
            },
            Option::Some(i) => {
                proof {
                    lemma_table_at(self.channels@, str_v(), chan_v(), i as int);
                }
                let rec = &self.channels[i].1;
                Option::Some(ChannelData {
                    channel: channel.clone(),
                    channel_mode: rec.mode,
                    members: rec.members.to_vec(),
                    description: rec.description.clone(),
                    title: rec.title.clone(),
                })
            },
        }
    }

    /// Reads every channel as an owned snapshot: one snapshot per stored
    /// channel, keys pairwise distinct, in no promised order.
    pub fn get_channels(&self) -> (r: Vec<ChannelData>)
        requires
            self.wf(),
        ensures
            r@.len() == self.channels_v().dom().len(),
            forall|i: int| 0 <= i < r@.len()
                ==> self.channels_v().contains_key((#[trigger] r@[i]).channel@)
                    && channel_snapshot_ok(r@[i], self.channels_v()[r@[i].channel@]),
            forall|i: int, j: int| 0 <= i < j < r@.len() ==> r@[i].channel@ != r@[j].channel@,
    {
        let n = self.channels.len();
        let mut r: Vec<ChannelData> = Vec::new();
        let mut i: usize = 0;
        while i < n
            invariant
                self.wf(),
                n == self.channels@.len(),
                i <= n,
                r@.len() == i,
                forall|j: int| 0 <= j < i ==> (#[trigger] r@[j]).channel@ == self.channels@[j].0@
                    && channel_snapshot_ok(r@[j], chan_v()(self.channels@[j].1)),
            decreases n - i,
        {
            let rec = &self.channels[i].1;
            r.push(ChannelData {
                channel: self.channels[i].0.clone(),
                channel_mode: rec.mode,
                members: rec.members.to_vec(),
                description: rec.description.clone(),
                title: rec.title.clone(),
            });
            i = i + 1;
        }
        proof {
            lemma_table_len(self.channels@, str_v(), chan_v());
            assert forall|j: int| 0 <= j < r@.len()
                implies self.channels_v().contains_key((#[trigger] r@[j]).channel@)
                    && channel_snapshot_ok(r@[j], self.channels_v()[r@[j].channel@]) by {
                lemma_table_at(self.channels@, str_v(), chan_v(), j);
            }
        }
        r
    }

    /// Reads one character's profile as an owned snapshot.
    pub fn get_character(&self, character: &String) -> (r: Option<CharacterData>)
        requires
            self.wf(),
        ensures
            match r {
                Option::None => !self.characters_v().contains_key(character@),
                Option::Some(cd) => self.characters_v().contains_key(character@)
                    && cd.character@ == character@
                    && cd.profile_v() == self.characters_v()[character@],
            },
    {
        match find_key(&self.characters, character) {
            Option::None => {
                proof {
                    lemma_table_absent(self.characters@, str_v(), prof_v(), character@);
                }
                Option::None
            },
            Option::Some(i) => {
                proof {
                    lemma_table_at(self.characters@, str_v(), prof_v(), i as int);
                }
                let p = &self.characters[i].1;
                let cd = CharacterData {
                    character: character.clone(),
                    gender: p.gender,
                    status: p.status,
                    status_message: p.status_message.clone(),
                };
                proof {
                    assert(cd.profile_v() =~= self.characters_v()[character@]);
                }
                Option::Some(cd)
            },
        }
    }

    /// Reads every character as an owned snapshot: one snapshot per stored
    /// profile, keys pairwise distinct, in no promised order.
    pub fn get_characters(&self) -> (r: Vec<CharacterData>)
        requires
            self.wf(),
        ensures
            r@.len() == self.characters_v().dom().len(),
            forall|i: int| 0 <= i < r@.len()
                ==> self.characters_v().contains_key((#[trigger] r@[i]).character@)
                    && r@[i].profile_v() == self.characters_v()[r@[i].character@],
            forall|i: int, j: int| 0 <= i < j < r@.len() ==> r@[i].character@ != r@[j].character@,
    {
        let n = self.characters.len();
        let mut r: Vec<CharacterData> = Vec::new();
        let mut i: usize = 0;
        while i < n
            invariant
                self.wf(),
                n == self.characters@.len(),
                i <= n,
                r@.len() == i,
                forall|j: int| 0 <= j < i ==> (#[trigger] r@[j]).character@ == self.characters@[j].0@
                    && r@[j].profile_v() == prof_v()(self.characters@[j].1),
            decreases n - i,
        {
            let p = &self.characters[i].1;
            let cd = CharacterData {
                character: self.characters[i].0.clone(),
                gender: p.gender,
                status: p.status,
                status_message: p.status_message.clone(),
            };
            proof {
                assert(cd.profile_v() =~= prof_v()(self.characters@[i as int].1));
            }
            r.push(cd);
            i = i + 1;
        }
        proof {
            lemma_table_len(self.characters@, str_v(), prof_v());
            assert forall|j: int| 0 <= j < r@.len()
                implies self.characters_v().contains_key((#[trigger] r@[j]).character@)
                    && r@[j].profile_v() == self.characters_v()[r@[j].character@] by {
                lemma_table_at(self.characters@, str_v(), prof_v(), j);
            }
        }
        r
    }

    /// Reads a window of one conversation's history: of the messages strictly
    /// newer than `since` (all of them when `since` is absent), the at most
    /// `limit` most recent — `limit` defaults to `DEFAULT_MESSAGE_LIMIT` —
    /// in chronological order, oldest of the window first. An unknown key
    /// reads as an empty history.
    pub fn get_messages(
        &self,
        source: &MessageChannel,
        since: Option<Timestamp>,
        limit: Option<u32>,
    ) -> (r: Vec<Message>)
        requires
            self.wf(),
        ensures
            msgs_v(r@) == window_of(
                log_or_empty(self.messages_v(), source@),
                since_v(since),
                limit_v(limit),
            ),
    {
        let lim_u32 = match limit {
            Option::Some(l) => l,
            Option::None => DEFAULT_MESSAGE_LIMIT,
        };
        let lim = lim_u32 as usize;
        match find_conv(&self.messages, source) {
            Option::None => {
                proof {
                    lemma_table_absent(self.messages@, conv_key_v(), log_v(), source@);
                    let empty = Seq::<MessageV>::empty();
                    assert(filtered_log(empty, since_v(since)) =~= empty);
                    assert(msgs_v(Seq::<Message>::empty()) =~= empty);
                }
                Vec::new()
            },
            Option::Some(i) => {
                proof {
                    lemma_table_at(self.messages@, conv_key_v(), log_v(), i as int);
                }
                let log = &self.messages[i].1;
                let ghost fv = msgs_v(log@);
                let n = log.len();
                let mut kept: Vec<Message> = Vec::new();
                let mut j: usize = 0;
                while j < n
                    invariant
                        n == log@.len(),
                        j <= n,
                        fv == msgs_v(log@),
                        msgs_v(kept@) == filtered_log(fv.subrange(0, j as int), since_v(since)),
                    decreases n - j,
                {
                    let pass = match since {
                        Option::Some(t) => log[j].timestamp > t,
                        Option::None => true,
                    };
                    proof {
                        assert(fv.subrange(0, j as int + 1).drop_last() =~= fv.subrange(0, j as int));
                        assert(fv.subrange(0, j as int + 1).last() == log@[j as int]@);
                        assert(pass == passes_since(fv[j as int], since_v(since)));
                    }
                    if pass {
                        kept.push(log[j].clone());
                        proof {
                            assert(msgs_v(kept@) =~= filtered_log(
                                fv.subrange(0, j as int + 1),
                                since_v(since),
                            ));
                        }
                    }
                    j = j + 1;
                }
                proof {
                    assert(fv.subrange(0, n as int) =~= fv);
                }
                let klen = kept.len();
                let start = if klen > lim {
                    klen - lim
                } else {
                    0
                };
                let ghost kept_full = kept@;
                let out = kept.split_off(start);
                proof {
                    assert(msgs_v(out@) =~= msgs_v(kept_full).subrange(start as int, klen as int));
                    assert(msgs_v(out@) =~= window_of(
                        log_or_empty(self.messages_v(), source@),
                        since_v(since),
                        limit_v(limit),
                    ));
                }
                out
            },
        }
    }
}

/// Whether a channel snapshot faithfully presents an abstract channel: same
/// mode and texts, and a duplicate-free member list that spells out exactly
/// the member set.
pub open spec fn channel_snapshot_ok(cd: ChannelData, c: ChannelV) -> bool {
    &&& cd.channel_mode == c.mode
    &&& cd.title@ == c.title
    &&& cd.description@ == c.description
    &&& set_of(cd.members@, str_v()) == c.members
    &&& distinct_elems(cd.members@, str_v())
}

/// The abstract value of a directory pair list.
pub open spec fn count_pairs_v(s: Seq<(String, u32)>) -> Seq<(Seq<char>, u32)> {
    s.map_values(|p: (String, u32)| (p.0@, p.1))
}

/// Replaces a shared identifier set's contents with exactly the given
/// strings.
fn replace_shared_set(s: &mut SharedStrSet, xs: &Vec<String>)
    ensures
        dashset_strings(final(s)) == set_of(xs@, str_v()),
{
    ds_clear(s);
    let n = xs.len();
    let mut i: usize = 0;
    while i < n
        invariant
            n == xs@.len(),
            i <= n,
            dashset_strings(s) == set_of(xs@.subrange(0, i as int), str_v()),
        decreases n - i,
    {
        let ghost prefix = xs@.subrange(0, i as int);
        ds_insert(s, xs[i].clone());
        proof {
            lemma_set_push(prefix, str_v(), xs@[i as int]);
            assert(prefix.push(xs@[i as int]) =~= xs@.subrange(0, i as int + 1));
        }
        i = i + 1;
    }
    proof {
        assert(xs@.subrange(0, n as int) =~= xs@);
    }
}

/// Upserts each pair into a shared directory map, left to right, and reports
/// whether any pair brought a new key or a differing count.
fn upsert_counts(table: &mut SharedCountMap, pairs: &Vec<(String, u32)>) -> (r: bool)
    ensures
        dashmap_counts(final(table)) == upsert_counts_t(
            dashmap_counts(old(table)),
            count_pairs_v(pairs@),
        ).0,
        r == upsert_counts_t(dashmap_counts(old(table)), count_pairs_v(pairs@)).1,
{
    let ghost m0 = dashmap_counts(old(table));
    let mut changed = false;
    let n = pairs.len();
    let mut i: usize = 0;
    while i < n
        invariant
            n == pairs@.len(),
            i <= n,
            dashmap_counts(table) == upsert_counts_t(
                m0,
                count_pairs_v(pairs@.subrange(0, i as int)),
            ).0,
            changed == upsert_counts_t(m0, count_pairs_v(pairs@.subrange(0, i as int))).1,
            m0 == dashmap_counts(old(table)),
        decreases n - i,
    {
        let ghost pv = count_pairs_v(pairs@.subrange(0, i as int));
        let ghost pv1 = count_pairs_v(pairs@.subrange(0, i as int + 1));
        proof {
            assert(pv1.drop_last() =~= pv);
            assert(pv1.last() == (pairs@[i as int].0@, pairs@[i as int].1));
        }
        let k = pairs[i].0.clone();
        let v = pairs[i].1;
        match dm_insert(table, k, v) {
            Option::Some(prev) => {
                if !(prev == v) {
                    changed = true;
                }
            },
            Option::None => {
                changed = true;
            },
        }
        i = i + 1;
    }
    proof {
        assert(count_pairs_v(pairs@.subrange(0, n as int)) =~= count_pairs_v(pairs@));
    }
    changed
}

/// Where the given conversation key sits in an association vector, if
/// anywhere.
fn find_conv(v: &Vec<(MessageChannel, Vec<Message>)>, k: &MessageChannel) -> (r: Option<usize>)
    ensures
        match r {
            Option::Some(i) => i < v@.len() && v@[i as int].0@ == k@,
            Option::None => forall|j: int| 0 <= j < v@.len() ==> v@[j].0@ != k@,
        },
{
    let n = v.len();
    let mut i: usize = 0;
    while i < n
        invariant
            n == v@.len(),
            i <= n,
            forall|j: int| 0 <= j < i ==> v@[j].0@ != k@,
        decreases n - i,
    {
        if conversation_eq(&v[i].0, k) {
            return Option::Some(i);
        }
        i = i + 1;
    }
    Option::None
}

/// Where the given relation sits in a vector, if anywhere.
fn find_rel(v: &Vec<FriendRelation>, k: &FriendRelation) -> (r: Option<usize>)
    ensures
        match r {
            Option::Some(i) => i < v@.len() && v@[i as int]@ == k@,
            Option::None => forall|j: int| 0 <= j < v@.len() ==> v@[j]@ != k@,
        },
{
    let n = v.len();
    let mut i: usize = 0;
    while i < n
        invariant
            n == v@.len(),
            i <= n,
            forall|j: int| 0 <= j < i ==> v@[j]@ != k@,
        decreases n - i,
    {
        if relation_eq(&v[i], k) {
            return Option::Some(i);
        }
        i = i + 1;
    }
    Option::None
}

/// Where the given string key sits in an association vector, if anywhere.
fn find_key<V>(v: &Vec<(String, V)>, k: &String) -> (r: Option<usize>)
    ensures
        match r {
            Option::Some(i) => i < v@.len() && v@[i as int].0@ == k@,
            Option::None => forall|j: int| 0 <= j < v@.len() ==> v@[j].0@ != k@,
        },
{
    let n = v.len();
    let mut i: usize = 0;
    while i < n
        invariant
            n == v@.len(),
            i <= n,
            forall|j: int| 0 <= j < i ==> v@[j].0@ != k@,
        decreases n - i,
    {
        if v[i].0 == *k {
            return Option::Some(i);
        }
        i = i + 1;
    }
    Option::None
}

} // verus!
