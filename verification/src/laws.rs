use vstd::prelude::*;

use crate::data::{ContentV, ConvV, Gender, MessageV, PartialChannelV, PartialUserV, ProfileV,
    Status, default_profile_v};
use crate::model::{
    ChannelV, add_member_t, insert_ad_t, insert_channel_t, insert_message_t, filtered_log,
    log_or_empty, replace_members_t, update_character_t, window_of,
};

verus! {

/// Idempotent creation: announcing a fresh channel twice reports a change
/// only the first time, and the second announcement — whatever data it
/// carries — leaves the stored map exactly as the first left it.
pub proof fn lemma_insert_channel_idempotent(
    m: Map<Seq<char>, ChannelV>,
    id: Seq<char>,
    d1: PartialChannelV,
    s1: Set<Seq<char>>,
    d2: PartialChannelV,
    s2: Set<Seq<char>>,
)
    requires
        !m.contains_key(id),
    ensures
        ({
            let (m1, r1) = insert_channel_t(m, id, d1, s1);
            let (m2, r2) = insert_channel_t(m1, id, d2, s2);
            r1 && !r2 && m2 == m1
        }),
{
}

/// Membership toggling: joining an unknown channel reports no change and
/// creates no record; joining a known channel reports a change exactly when
/// the character was not a member yet, and an immediate repeat reports none
/// and leaves the map as it was.
pub proof fn lemma_add_member_toggling(m: Map<Seq<char>, ChannelV>, id: Seq<char>, c: Seq<char>)
    ensures
        !m.contains_key(id) ==> add_member_t(m, id, c) == (m, false),
        m.contains_key(id) ==> ({
            let (m1, r1) = add_member_t(m, id, c);
            let (m2, r2) = add_member_t(m1, id, c);
            r1 == !m[id].members.contains(c) && !r2 && m2 == m1
        }),
{
    if m.contains_key(id) {
        let (m1, r1) = add_member_t(m, id, c);
        let (m2, r2) = add_member_t(m1, id, c);
        assert(m1[id].members.contains(c));
        assert(m1[id].members.insert(c) =~= m1[id].members);
        assert(ChannelV { members: m1[id].members.insert(c), ..m1[id] } =~= m1[id]);
        assert(m2 =~= m1);
    }
}

/// Profile merge: a status update for a fresh character creates the profile
/// with the default gender and status message, and reports a change exactly
/// when the new status differs from the default; repeating the same update
/// reports no change and leaves the map as it was.
pub proof fn lemma_profile_merge(m: Map<Seq<char>, ProfileV>, id: Seq<char>, st: Status)
    requires
        !m.contains_key(id),
    ensures
        ({
            let d = PartialUserV {
                gender: Option::None,
                status: Option::Some(st),
                status_message: Option::None,
            };
            let (m1, r1) = update_character_t(m, id, d);
            let (m2, r2) = update_character_t(m1, id, d);
            m1.contains_key(id)
                && m1[id] == (ProfileV {
                    gender: Gender::Unknown,
                    status: st,
                    status_message: Seq::empty(),
                })
                && r1 == (st != Status::Offline)
                && !r2
                && m2 == m1
        }),
{
    let d = PartialUserV {
        gender: Option::None,
        status: Option::Some(st),
        status_message: Option::None,
    };
    let (m1, r1) = update_character_t(m, id, d);
    let (m2, r2) = update_character_t(m1, id, d);
    assert(m1[id] =~= (ProfileV {
        gender: Gender::Unknown,
        status: st,
        status_message: default_profile_v().status_message,
    }));
    assert(m2 =~= m1);
}

/// Message dedup: right after a message was offered, offering a structurally
/// identical one is dropped and changes nothing; offering a different one —
/// say, the same content under another timestamp — is appended.
pub proof fn lemma_message_dedup(
    m: Map<ConvV, Seq<MessageV>>,
    key: ConvV,
    msg: MessageV,
    other: MessageV,
)
    ensures
        insert_message_t(insert_message_t(m, key, msg).0, key, msg)
            == (insert_message_t(m, key, msg).0, false),
        other != msg ==> insert_message_t(insert_message_t(m, key, msg).0, key, other).1 == true,
{
    let (m1, r1) = insert_message_t(m, key, msg);
    if r1 {
        assert(m1[key].last() == msg);
    } else {
        assert(log_or_empty(m, key).len() > 0);
        assert(m.contains_key(key));
        assert(m1[key].last() == msg);
    }
}

/// Ad rotation: once an ad with some text was offered, a second ad with the
/// same text is dropped whoever wrote it and whenever it arrives, and changes
/// nothing; an ad with a different text is accepted.
pub proof fn lemma_ad_rotation(
    m: Map<Seq<char>, Seq<MessageV>>,
    chan: Seq<char>,
    author1: Seq<char>,
    author2: Seq<char>,
    text: Seq<char>,
    other_text: Seq<char>,
    t1: int,
    t2: int,
)
    ensures
        ({
            let (m1, r1) = insert_ad_t(m, chan, author1, text, t1);
            insert_ad_t(m1, chan, author2, text, t2) == (m1, false)
        }),
        other_text != text ==> ({
            let (m1, r1) = insert_ad_t(m, chan, author1, text, t1);
            insert_ad_t(m1, chan, author2, other_text, t2).1 == true
        }),
{
    let (m1, r1) = insert_ad_t(m, chan, author1, text, t1);
    if r1 {
        assert(m1[chan].last().content == ContentV::Text(text));
    } else {
        assert(log_or_empty(m, chan).len() > 0);
        assert(m.contains_key(chan));
        assert(m1[chan].last().content == ContentV::Text(text));
    }
}

/// Windowed read: without a `since` bound nothing is filtered away, so the
/// window is exactly the `limit` most recent entries in stored order, or the
/// whole log when it is no longer than the limit.
pub proof fn lemma_window_no_since(s: Seq<MessageV>, limit: int)
    requires
        0 <= limit,
    ensures
        filtered_log(s, Option::None) == s,
        s.len() > limit ==> window_of(s, Option::None, limit)
            == s.subrange(s.len() - limit, s.len() as int),
        s.len() <= limit ==> window_of(s, Option::None, limit) == s,
    decreases s.len(),
{
    if s.len() == 0 {
        assert(filtered_log(s, Option::None) =~= s);
    } else {
        lemma_window_no_since(s.drop_last(), limit);
        assert(filtered_log(s, Option::None) =~= s);
    }
}

/// Bulk replace always reports change: replacing a channel's member set
/// reports a change even when it installs the very set the channel already
/// had, and repeating the replacement changes nothing further.
pub proof fn lemma_replace_members_always_changed(
    m: Map<Seq<char>, ChannelV>,
    id: Seq<char>,
    s: Set<Seq<char>>,
)
    ensures
        replace_members_t(m, id, s).1 == true,
        ({
            let (m1, r1) = replace_members_t(m, id, s);
            let (m2, r2) = replace_members_t(m1, id, s);
            r2 == true && m2 == m1
        }),
{
    let (m1, r1) = replace_members_t(m, id, s);
    let (m2, r2) = replace_members_t(m1, id, s);
    assert(ChannelV { members: s, ..m1[id] } =~= m1[id]);
    assert(m2 =~= m1);
}

} // verus!
