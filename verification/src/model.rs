use vstd::prelude::*;

use crate::data::{ChannelMode, ContentV, ConvV, MessageV, PartialChannelV, PartialUserV, ProfileV,
    default_profile_v};

verus! {

/// Everything known of one channel, abstractly: its mode, who is in it, who
/// operates it, and its texts.
#[verifier::ext_equal]
pub struct ChannelV {
    pub mode: ChannelMode,
    pub members: Set<Seq<char>>,
    pub ops: Set<Seq<char>>,
    pub title: Seq<char>,
    pub description: Seq<char>,
}

/// The whole store, abstractly: one independent collection per concern.
#[verifier::ext_equal]
pub struct StateV {
    pub channels: Map<Seq<char>, ChannelV>,
    pub characters: Map<Seq<char>, ProfileV>,
    pub messages: Map<ConvV, Seq<MessageV>>,
    pub ads: Map<Seq<char>, Seq<MessageV>>,
    pub bookmarks: Set<Seq<char>>,
    pub friends: Set<(Seq<char>, Seq<char>)>,
    pub admins: Set<Seq<char>>,
    pub global_channels: Map<Seq<char>, u32>,
    pub unofficial_channels: Map<Seq<char>, u32>,
}

/// The state a fresh store holds: nothing.
pub open spec fn empty_state_v() -> StateV {
    StateV {
        channels: Map::empty(),
        characters: Map::empty(),
        messages: Map::empty(),
        ads: Map::empty(),
        bookmarks: Set::empty(),
        friends: Set::empty(),
        admins: Set::empty(),
        global_channels: Map::empty(),
        unofficial_channels: Map::empty(),
    }
}

/// The record a bare mention of an unknown channel creates: public, empty,
/// untitled.
pub open spec fn default_channel_v() -> ChannelV {
    ChannelV {
        mode: ChannelMode::Public,
        members: Set::empty(),
        ops: Set::empty(),
        title: Seq::empty(),
        description: Seq::empty(),
    }
}

/// The record a channel announcement creates: announced fields as given,
/// absent fields as in the default record, and the given member set.
pub open spec fn announced_channel_v(data: PartialChannelV, members: Set<Seq<char>>) -> ChannelV {
    ChannelV {
        mode: match data.mode {
            Option::Some(m) => m,
            Option::None => ChannelMode::Public,
        },
        members,
        ops: Set::empty(),
        title: match data.title {
            Option::Some(t) => t,
            Option::None => Seq::empty(),
        },
        description: match data.description {
            Option::Some(d) => d,
            Option::None => Seq::empty(),
        },
    }
}

/// The stored record of a channel, or the default record when none is stored.
pub open spec fn channel_or_default(m: Map<Seq<char>, ChannelV>, id: Seq<char>) -> ChannelV {
    if m.contains_key(id) {
        m[id]
    } else {
        default_channel_v()
    }
}

/// The stored profile of a character, or the default profile when none is
/// stored.
pub open spec fn profile_or_default(m: Map<Seq<char>, ProfileV>, id: Seq<char>) -> ProfileV {
    if m.contains_key(id) {
        m[id]
    } else {
        default_profile_v()
    }
}

/// The stored log under a key, or the empty log when none is stored.
pub open spec fn log_or_empty<K>(m: Map<K, Seq<MessageV>>, key: K) -> Seq<MessageV> {
    if m.contains_key(key) {
        m[key]
    } else {
        Seq::empty()
    }
}

/// Create-if-absent: an announcement of a known channel changes nothing and
/// reports no change; announced data is not reconciled with the stored record.
pub open spec fn insert_channel_t(
    m: Map<Seq<char>, ChannelV>,
    id: Seq<char>,
    data: PartialChannelV,
    members: Set<Seq<char>>,
) -> (Map<Seq<char>, ChannelV>, bool) {
    if m.contains_key(id) {
        (m, false)
    } else {
        (m.insert(id, announced_channel_v(data, members)), true)
    }
}

/// Joining an unknown channel is a no-op; joining a known one adds the
/// character and reports whether the member set grew.
pub open spec fn add_member_t(m: Map<Seq<char>, ChannelV>, id: Seq<char>, c: Seq<char>) -> (
    Map<Seq<char>, ChannelV>,
    bool,
) {
    if !m.contains_key(id) {
        (m, false)
    } else {
        (
            m.insert(id, ChannelV { members: m[id].members.insert(c), ..m[id] }),
            !m[id].members.contains(c),
        )
    }
}

/// Leaving an unknown channel is a no-op; leaving a known one takes the
/// character out and reports whether the member set shrank.
pub open spec fn remove_member_t(m: Map<Seq<char>, ChannelV>, id: Seq<char>, c: Seq<char>) -> (
    Map<Seq<char>, ChannelV>,
    bool,
) {
    if !m.contains_key(id) {
        (m, false)
    } else {
        (
            m.insert(id, ChannelV { members: m[id].members.remove(c), ..m[id] }),
            m[id].members.contains(c),
        )
    }
}

/// As `add_member_t`, against the operator set. No cross-check against
/// membership: an operator may stand outside the member set.
pub open spec fn add_op_t(m: Map<Seq<char>, ChannelV>, id: Seq<char>, c: Seq<char>) -> (
    Map<Seq<char>, ChannelV>,
    bool,
) {
    if !m.contains_key(id) {
        (m, false)
    } else {
        (m.insert(id, ChannelV { ops: m[id].ops.insert(c), ..m[id] }), !m[id].ops.contains(c))
    }
}

/// As `remove_member_t`, against the operator set.
pub open spec fn remove_op_t(m: Map<Seq<char>, ChannelV>, id: Seq<char>, c: Seq<char>) -> (
    Map<Seq<char>, ChannelV>,
    bool,
) {
    if !m.contains_key(id) {
        (m, false)
    } else {
        (m.insert(id, ChannelV { ops: m[id].ops.remove(c), ..m[id] }), m[id].ops.contains(c))
    }
}

/// The record after a partial update: each present field replaces the current
/// one; member and operator sets stay.
pub open spec fn apply_channel_partial(c: ChannelV, d: PartialChannelV) -> ChannelV {
    ChannelV {
        mode: match d.mode {
            Option::Some(m) => m,
            Option::None => c.mode,
        },
        title: match d.title {
            Option::Some(t) => t,
            Option::None => c.title,
        },
        description: match d.description {
            Option::Some(x) => x,
            Option::None => c.description,
        },
        members: c.members,
        ops: c.ops,
    }
}

/// Whether a partial update carries at least one field that differs from the
/// current record.
pub open spec fn channel_partial_differs(c: ChannelV, d: PartialChannelV) -> bool {
    ||| match d.mode {
        Option::Some(m) => m != c.mode,
        Option::None => false,
    }
    ||| match d.title {
        Option::Some(t) => t != c.title,
        Option::None => false,
    }
    ||| match d.description {
        Option::Some(x) => x != c.description,
        Option::None => false,
    }
}

/// Partial update of a channel: creates the record with defaults when absent,
/// then applies each present field; reports whether any field differed.
pub open spec fn update_channel_t(
    m: Map<Seq<char>, ChannelV>,
    id: Seq<char>,
    d: PartialChannelV,
) -> (Map<Seq<char>, ChannelV>, bool) {
    let cur = channel_or_default(m, id);
    (m.insert(id, apply_channel_partial(cur, d)), channel_partial_differs(cur, d))
}

/// Bulk replacement of a channel's member set: creates the record with
/// defaults when absent, installs exactly the given set, and always reports a
/// change, even when the new set equals the old one.
pub open spec fn replace_members_t(
    m: Map<Seq<char>, ChannelV>,
    id: Seq<char>,
    s: Set<Seq<char>>,
) -> (Map<Seq<char>, ChannelV>, bool) {
    let cur = channel_or_default(m, id);
    (m.insert(id, ChannelV { members: s, ..cur }), true)
}

/// As `replace_members_t`, against the operator set.
pub open spec fn replace_ops_t(m: Map<Seq<char>, ChannelV>, id: Seq<char>, s: Set<Seq<char>>) -> (
    Map<Seq<char>, ChannelV>,
    bool,
) {
    let cur = channel_or_default(m, id);
    (m.insert(id, ChannelV { ops: s, ..cur }), true)
}

/// The profile after a partial update: each present field replaces the
/// current one.
pub open spec fn apply_user_partial(p: ProfileV, d: PartialUserV) -> ProfileV {
    ProfileV {
        gender: match d.gender {
            Option::Some(g) => g,
            Option::None => p.gender,
        },
        status: match d.status {
            Option::Some(s) => s,
            Option::None => p.status,
        },
        status_message: match d.status_message {
            Option::Some(m) => m,
            Option::None => p.status_message,
        },
    }
}

/// Whether a profile update carries at least one field that differs from the
/// current profile.
pub open spec fn user_partial_differs(p: ProfileV, d: PartialUserV) -> bool {
    ||| match d.gender {
        Option::Some(g) => g != p.gender,
        Option::None => false,
    }
    ||| match d.status {
        Option::Some(s) => s != p.status,
        Option::None => false,
    }
    ||| match d.status_message {
        Option::Some(m) => m != p.status_message,
        Option::None => false,
    }
}

/// Profile merge: a fresh character gets the default profile first, then each
/// present field is applied; reports whether any field differed.
pub open spec fn update_character_t(
    m: Map<Seq<char>, ProfileV>,
    id: Seq<char>,
    d: PartialUserV,
) -> (Map<Seq<char>, ProfileV>, bool) {
    let cur = profile_or_default(m, id);
    (m.insert(id, apply_user_partial(cur, d)), user_partial_differs(cur, d))
}

/// Append with last-entry dedup: a message structurally equal to the last one
/// of its conversation is dropped; anything else is appended. Equality takes
/// the timestamp in, so only exact retransmissions are deduplicated.
pub open spec fn insert_message_t(m: Map<ConvV, Seq<MessageV>>, key: ConvV, msg: MessageV) -> (
    Map<ConvV, Seq<MessageV>>,
    bool,
) {
    let log = log_or_empty(m, key);
    if log.len() > 0 && log.last() == msg {
        (m, false)
    } else {
        (m.insert(key, log.push(msg)), true)
    }
}

/// Whether a new ad with the given text would duplicate the most recent ad of
/// the log. Only the text counts: neither author nor time.
pub open spec fn ad_dup(log: Seq<MessageV>, text: Seq<char>) -> bool {
    log.len() > 0 && log.last().content == ContentV::Text(text)
}

/// Rotating ad insert: dropped when its text equals the most recent ad's
/// text, appended otherwise with the author and the moment it arrived.
pub open spec fn insert_ad_t(
    m: Map<Seq<char>, Seq<MessageV>>,
    chan: Seq<char>,
    character: Seq<char>,
    text: Seq<char>,
    t: int,
) -> (Map<Seq<char>, Seq<MessageV>>, bool) {
    let log = log_or_empty(m, chan);
    if ad_dup(log, text) {
        (m, false)
    } else {
        (m.insert(chan, log.push(MessageV { timestamp: t, character, content: ContentV::Text(text) })), true)
    }
}

/// Directory upsert, pair by pair, left to right. A pair counts as a change
/// when its key is new or its count differs from the stored one. Entries are
/// never removed.
pub open spec fn upsert_counts_t(m: Map<Seq<char>, u32>, pairs: Seq<(Seq<char>, u32)>) -> (
    Map<Seq<char>, u32>,
    bool,
)
    decreases pairs.len(),
{
    if pairs.len() == 0 {
        (m, false)
    } else {
        let prev = upsert_counts_t(m, pairs.drop_last());
        let k = pairs.last().0;
        let v = pairs.last().1;
        (
            prev.0.insert(k, v),
            prev.1 || !prev.0.contains_key(k) || prev.0[k] != v,
        )
    }
}

/// The window size a read uses: the caller's limit, or the default of 80
/// when none was given.
pub open spec fn limit_v(limit: Option<u32>) -> int {
    match limit {
        Option::Some(l) => l as int,
        Option::None => 80,
    }
}

/// The abstract value of an optional `since` bound.
pub open spec fn since_v(s: Option<crate::data::Timestamp>) -> Option<int> {
    match s {
        Option::Some(t) => Option::Some(t as int),
        Option::None => Option::None,
    }
}

/// Whether a message clears the `since` bound: strictly newer, or no bound.
pub open spec fn passes_since(msg: MessageV, since: Option<int>) -> bool {
    match since {
        Option::Some(t) => msg.timestamp > t,
        Option::None => true,
    }
}

/// The messages of a log that clear the `since` bound, in their stored order.
pub open spec fn filtered_log(s: Seq<MessageV>, since: Option<int>) -> Seq<MessageV>
    decreases s.len(),
{
    if s.len() == 0 {
        Seq::empty()
    } else {
        let rest = filtered_log(s.drop_last(), since);
        if passes_since(s.last(), since) {
            rest.push(s.last())
        } else {
            rest
        }
    }
}

/// A windowed read: of the messages that clear the `since` bound, the at most
/// `limit` most recent ones, oldest of the window first.
pub open spec fn window_of(s: Seq<MessageV>, since: Option<int>, limit: int) -> Seq<MessageV> {
    let f = filtered_log(s, since);
    if f.len() <= limit {
        f
    } else {
        f.subrange(f.len() - limit, f.len() as int)
    }
}

} // verus!
