use chat_cache::cache::{effective_limit, Cache, DEFAULT_MESSAGE_LIMIT};
use chat_cache::data::{
    ChannelMode, FriendRelation, Gender, Message, MessageChannel, MessageContent,
    PartialChannelData, PartialUserData, Status,
};

fn no_channel_data() -> PartialChannelData {
    PartialChannelData { mode: None, title: None, description: None }
}

fn text_message(timestamp: i64, character: &str, text: &str) -> Message {
    Message {
        timestamp,
        character: character.to_string(),
        content: MessageContent::Text(text.to_string()),
    }
}

fn message_text(m: &Message) -> String {
    match &m.content {
        MessageContent::Text(s) => s.clone(),
    }
}

#[test]
fn insert_channel_twice_is_idempotent() {
    let mut c = Cache::new();
    let members = vec!["alice".to_string(), "bob".to_string()];
    let data = PartialChannelData {
        mode: Some(ChannelMode::Private),
        title: Some("Tea Room".to_string()),
        description: Some("cozy".to_string()),
    };
    assert!(c.insert_channel("tea".to_string(), data, &members));

    let other_data = PartialChannelData {
        mode: Some(ChannelMode::Public),
        title: Some("Renamed".to_string()),
        description: None,
    };
    let after_first = c.get_channel(&"tea".to_string()).unwrap();
    assert!(!c.insert_channel("tea".to_string(), other_data, &vec!["carol".to_string()]));
    let after_second = c.get_channel(&"tea".to_string()).unwrap();

    assert_eq!(after_second.title, after_first.title);
    assert_eq!(after_second.description, after_first.description);
    assert_eq!(after_second.channel_mode, after_first.channel_mode);
    let mut m1 = after_first.members.clone();
    let mut m2 = after_second.members.clone();
    m1.sort();
    m2.sort();
    assert_eq!(m2, m1);
    assert_eq!(m1, vec!["alice".to_string(), "bob".to_string()]);
}

#[test]
fn insert_channel_defaults_absent_fields() {
    let mut c = Cache::new();
    assert!(c.insert_channel("bare".to_string(), no_channel_data(), &Vec::new()));
    let snap = c.get_channel(&"bare".to_string()).unwrap();
    assert_eq!(snap.channel_mode, ChannelMode::Public);
    assert_eq!(snap.title, "");
    assert_eq!(snap.description, "");
    assert!(snap.members.is_empty());
}

#[test]
fn add_member_on_unknown_channel_creates_nothing() {
    let mut c = Cache::new();
    assert!(!c.add_channel_member(&"ghost".to_string(), "alice".to_string()));
    assert!(c.get_channel(&"ghost".to_string()).is_none());
}

#[test]
fn add_member_toggles() {
    let mut c = Cache::new();
    assert!(c.insert_channel("tea".to_string(), no_channel_data(), &Vec::new()));
    assert!(c.add_channel_member(&"tea".to_string(), "alice".to_string()));
    assert!(!c.add_channel_member(&"tea".to_string(), "alice".to_string()));
    assert!(c.remove_channel_member(&"tea".to_string(), &"alice".to_string()));
    assert!(!c.remove_channel_member(&"tea".to_string(), &"alice".to_string()));
}

#[test]
fn channel_ops_toggle_without_membership_check() {
    let mut c = Cache::new();
    assert!(c.insert_channel("tea".to_string(), no_channel_data(), &Vec::new()));
    assert!(!c.add_channel_op(&"ghost".to_string(), "alice".to_string()));
    assert!(c.add_channel_op(&"tea".to_string(), "alice".to_string()));
    assert!(!c.add_channel_op(&"tea".to_string(), "alice".to_string()));
    assert!(c.remove_channel_op(&"tea".to_string(), &"alice".to_string()));
    assert!(!c.remove_channel_op(&"tea".to_string(), &"alice".to_string()));
}

#[test]
fn update_profile_fresh_character() {
    let mut c = Cache::new();
    let update = PartialUserData {
        gender: None,
        status: Some(Status::Online),
        status_message: None,
    };
    assert!(c.update_character(&"alice".to_string(), update));
    let snap = c.get_character(&"alice".to_string()).unwrap();
    assert_eq!(snap.character, "alice");
    assert_eq!(snap.gender, Gender::Unknown);
    assert_eq!(snap.status, Status::Online);
    assert_eq!(snap.status_message, "");

    let same_again = PartialUserData {
        gender: None,
        status: Some(Status::Online),
        status_message: None,
    };
    assert!(!c.update_character(&"alice".to_string(), same_again));
}

#[test]
fn update_profile_accumulates_changes_across_fields() {
    let mut c = Cache::new();
    let first = PartialUserData {
        gender: Some(Gender::Female),
        status: Some(Status::Busy),
        status_message: Some("working".to_string()),
    };
    assert!(c.update_character(&"carol".to_string(), first));
    let partial = PartialUserData {
        gender: Some(Gender::Female),
        status: Some(Status::Busy),
        status_message: Some("done".to_string()),
    };
    assert!(c.update_character(&"carol".to_string(), partial));
    let snap = c.get_character(&"carol".to_string()).unwrap();
    assert_eq!(snap.status_message, "done");
}

#[test]
fn message_dedup_is_exact_retransmission_only() {
    let mut c = Cache::new();
    let key = || MessageChannel::Channel("tea".to_string());
    assert!(c.insert_message(key(), text_message(100, "alice", "hi")));
    assert!(!c.insert_message(key(), text_message(100, "alice", "hi")));
    assert!(c.insert_message(key(), text_message(101, "alice", "hi")));
    assert!(c.insert_message(key(), text_message(102, "alice", "hi")));
    let log = c.get_messages(&key(), None, None);
    assert_eq!(log.len(), 3);
    assert_eq!(log[0].timestamp, 100);
    assert_eq!(log[1].timestamp, 101);
    assert_eq!(log[2].timestamp, 102);
}

#[test]
fn message_dedup_compares_only_against_last_entry() {
    let mut c = Cache::new();
    let key = || MessageChannel::Channel("tea".to_string());
    assert!(c.insert_message(key(), text_message(100, "alice", "hi")));
    assert!(c.insert_message(key(), text_message(101, "bob", "yo")));
    // The first message shows up again: it no longer matches the last entry.
    assert!(c.insert_message(key(), text_message(100, "alice", "hi")));
    assert_eq!(c.get_messages(&key(), None, None).len(), 3);
}

#[test]
fn private_conversations_keep_participant_order_distinct() {
    let mut c = Cache::new();
    let ab = || MessageChannel::PrivateMessage("alice".to_string(), "bob".to_string());
    let ba = || MessageChannel::PrivateMessage("bob".to_string(), "alice".to_string());
    assert!(c.insert_message(ab(), text_message(1, "alice", "hello")));
    assert!(c.insert_message(ba(), text_message(2, "bob", "hey")));
    assert_eq!(c.get_messages(&ab(), None, None).len(), 1);
    assert_eq!(c.get_messages(&ba(), None, None).len(), 1);
    assert_eq!(c.get_messages(&ab(), None, None)[0].timestamp, 1);
    assert_eq!(c.get_messages(&ba(), None, None)[0].timestamp, 2);
}

#[test]
fn ad_rotation_dedups_on_text_alone() {
    let mut c = Cache::new();
    assert!(c.insert_ad("tea".to_string(), "alice".to_string(), "hello".to_string()));
    // Same text, different author: still a duplicate of the most recent ad.
    assert!(!c.insert_ad("tea".to_string(), "bob".to_string(), "hello".to_string()));
    assert!(c.insert_ad("tea".to_string(), "alice".to_string(), "world".to_string()));
    // Only the most recent entry takes part in dedup, so "hello" rotates back in.
    assert!(c.insert_ad("tea".to_string(), "alice".to_string(), "hello".to_string()));
}

#[test]
fn ad_rotation_with_fixed_moments() {
    let mut c = Cache::new();
    assert!(c.insert_ad_at("tea".to_string(), "alice".to_string(), "hello".to_string(), 5));
    assert!(!c.insert_ad_at("tea".to_string(), "bob".to_string(), "hello".to_string(), 99));
    assert!(c.insert_ad_at("other".to_string(), "bob".to_string(), "hello".to_string(), 99));
}

#[test]
fn windowed_read_returns_most_recent_in_order() {
    let mut c = Cache::new();
    let key = || MessageChannel::Channel("log".to_string());
    for i in 0..100 {
        assert!(c.insert_message(key(), text_message(1000 + i, "alice", &format!("m{}", i))));
    }
    let window = c.get_messages(&key(), None, Some(80));
    assert_eq!(window.len(), 80);
    assert_eq!(window[0].timestamp, 1020);
    assert_eq!(window[79].timestamp, 1099);
    for w in window.windows(2) {
        assert!(w[0].timestamp < w[1].timestamp);
    }

    let defaulted = c.get_messages(&key(), None, None);
    assert_eq!(defaulted.len(), 80);
    assert_eq!(defaulted[0].timestamp, 1020);
    assert_eq!(defaulted[79].timestamp, 1099);
}

#[test]
fn windowed_read_honors_since() {
    let mut c = Cache::new();
    let key = || MessageChannel::Channel("log".to_string());
    for i in 0..10 {
        assert!(c.insert_message(key(), text_message(i, "alice", &format!("m{}", i))));
    }
    // Strictly newer than 6: timestamps 7, 8, 9.
    let newer = c.get_messages(&key(), Some(6), None);
    assert_eq!(newer.len(), 3);
    assert_eq!(newer[0].timestamp, 7);
    assert_eq!(newer[2].timestamp, 9);
    // The limit applies after the filter.
    let capped = c.get_messages(&key(), Some(6), Some(2));
    assert_eq!(capped.len(), 2);
    assert_eq!(capped[0].timestamp, 8);
    assert_eq!(capped[1].timestamp, 9);
}

#[test]
fn get_messages_unknown_key_is_empty() {
    let c = Cache::new();
    let key = MessageChannel::Channel("nowhere".to_string());
    assert!(c.get_messages(&key, None, None).is_empty());
}

#[test]
fn default_limit_is_eighty() {
    assert_eq!(DEFAULT_MESSAGE_LIMIT, 80);
    assert_eq!(effective_limit(None), 80);
    assert_eq!(effective_limit(Some(5)), 5);
}

#[test]
fn replace_members_always_reports_change() {
    let mut c = Cache::new();
    let members = vec!["alice".to_string(), "bob".to_string()];
    assert!(c.insert_channel("tea".to_string(), no_channel_data(), &members));
    // The very same set goes back in: still reported as a change.
    assert!(c.set_channel_members(&"tea".to_string(), &members));
    assert!(c.set_channel_members(&"tea".to_string(), &members));
    let mut got = c.get_channel(&"tea".to_string()).unwrap().members;
    got.sort();
    assert_eq!(got, members);
}

#[test]
fn replace_members_creates_missing_channel() {
    let mut c = Cache::new();
    let members = vec!["alice".to_string()];
    assert!(c.set_channel_members(&"fresh".to_string(), &members));
    let snap = c.get_channel(&"fresh".to_string()).unwrap();
    assert_eq!(snap.members, members);
    assert_eq!(snap.channel_mode, ChannelMode::Public);
    assert_eq!(snap.title, "");
}

#[test]
fn replace_ops_always_reports_change() {
    let mut c = Cache::new();
    assert!(c.insert_channel("tea".to_string(), no_channel_data(), &Vec::new()));
    let ops = vec!["alice".to_string()];
    assert!(c.set_channel_ops(&"tea".to_string(), &ops));
    assert!(c.set_channel_ops(&"tea".to_string(), &ops));
}

#[test]
fn update_channel_reports_real_differences_only() {
    let mut c = Cache::new();
    let data = PartialChannelData {
        mode: Some(ChannelMode::Public),
        title: Some("Tea Room".to_string()),
        description: Some("cozy".to_string()),
    };
    assert!(c.insert_channel("tea".to_string(), data, &Vec::new()));

    let same = PartialChannelData {
        mode: Some(ChannelMode::Public),
        title: Some("Tea Room".to_string()),
        description: None,
    };
    assert!(!c.update_channel(&"tea".to_string(), same));

    let retitle = PartialChannelData {
        mode: None,
        title: Some("Coffee Room".to_string()),
        description: None,
    };
    assert!(c.update_channel(&"tea".to_string(), retitle));
    let snap = c.get_channel(&"tea".to_string()).unwrap();
    assert_eq!(snap.title, "Coffee Room");
    assert_eq!(snap.description, "cozy");
}

#[test]
fn update_channel_creates_record_with_defaults() {
    let mut c = Cache::new();
    let retitle = PartialChannelData {
        mode: None,
        title: Some("Fresh".to_string()),
        description: None,
    };
    // The title differs from the default empty title, so this is a change.
    assert!(c.update_channel(&"fresh".to_string(), retitle));
    let snap = c.get_channel(&"fresh".to_string()).unwrap();
    assert_eq!(snap.title, "Fresh");
    assert_eq!(snap.channel_mode, ChannelMode::Public);
}

#[test]
fn bookmarks_toggle_and_replace() {
    let mut c = Cache::new();
    assert!(c.add_bookmark("alice".to_string()));
    assert!(!c.add_bookmark("alice".to_string()));
    assert!(c.remove_bookmark(&"alice".to_string()));
    assert!(!c.remove_bookmark(&"alice".to_string()));

    assert!(c.set_bookmarks(&vec!["bob".to_string(), "carol".to_string(), "bob".to_string()]));
    let mut got = c.get_bookmarks();
    got.sort();
    assert_eq!(got, vec!["bob".to_string(), "carol".to_string()]);
    // The full list replaces, never merges.
    assert!(c.set_bookmarks(&vec!["dave".to_string()]));
    assert_eq!(c.get_bookmarks(), vec!["dave".to_string()]);
}

#[test]
fn global_ops_toggle_and_replace() {
    let mut c = Cache::new();
    assert!(c.add_global_op("alice".to_string()));
    assert!(!c.add_global_op("alice".to_string()));
    assert!(c.remove_global_op(&"alice".to_string()));
    assert!(!c.remove_global_op(&"alice".to_string()));
    assert!(c.set_global_ops(&vec!["bob".to_string()]));
    assert!(c.set_global_ops(&vec!["bob".to_string()]));
}

#[test]
fn friends_replace_and_read_back() {
    let mut c = Cache::new();
    let rel = |a: &str, b: &str| FriendRelation {
        own_character: a.to_string(),
        other_character: b.to_string(),
    };
    assert!(c.set_friends(&vec![rel("me", "alice"), rel("me", "bob"), rel("me", "alice")]));
    let got = c.get_friend_relations();
    assert_eq!(got.len(), 2);
    assert!(got.iter().any(|r| r.other_character == "alice"));
    assert!(got.iter().any(|r| r.other_character == "bob"));
    // A full replacement drops what the new list lacks.
    assert!(c.set_friends(&vec![rel("me", "carol")]));
    let got = c.get_friend_relations();
    assert_eq!(got.len(), 1);
    assert_eq!(got[0].other_character, "carol");
}

#[test]
fn directory_counts_change_on_new_key_or_new_value() {
    let mut c = Cache::new();
    let pairs = vec![("tea".to_string(), 10u32), ("bar".to_string(), 3u32)];
    assert!(c.set_global_channels(&pairs));
    // The very same pairs again: nothing differs, no change.
    assert!(!c.set_global_channels(&pairs));
    // One count differs.
    assert!(c.set_global_channels(&vec![("tea".to_string(), 11u32)]));
    assert!(!c.set_global_channels(&vec![("tea".to_string(), 11u32)]));
    // A new key.
    assert!(c.set_global_channels(&vec![("pub".to_string(), 1u32)]));

    // The unofficial directory is independent.
    assert!(c.set_unofficial_channels(&pairs));
    assert!(!c.set_unofficial_channels(&pairs));
}

#[test]
fn get_channels_snapshots_every_channel() {
    let mut c = Cache::new();
    assert!(c.insert_channel("tea".to_string(), no_channel_data(), &vec!["alice".to_string()]));
    assert!(c.insert_channel("bar".to_string(), no_channel_data(), &Vec::new()));
    let mut names: Vec<String> = c.get_channels().into_iter().map(|s| s.channel).collect();
    names.sort();
    assert_eq!(names, vec!["bar".to_string(), "tea".to_string()]);
}

#[test]
fn get_characters_snapshots_every_profile() {
    let mut c = Cache::new();
    let upd = |st: Status| PartialUserData { gender: None, status: Some(st), status_message: None };
    assert!(c.update_character(&"alice".to_string(), upd(Status::Online)));
    assert!(c.update_character(&"bob".to_string(), upd(Status::Away)));
    let mut snaps = c.get_characters();
    snaps.sort_by(|a, b| a.character.cmp(&b.character));
    assert_eq!(snaps.len(), 2);
    assert_eq!(snaps[0].character, "alice");
    assert_eq!(snaps[0].status, Status::Online);
    assert_eq!(snaps[1].character, "bob");
    assert_eq!(snaps[1].status, Status::Away);
}

#[test]
fn snapshots_are_independent_copies() {
    let mut c = Cache::new();
    assert!(c.insert_channel("tea".to_string(), no_channel_data(), &vec!["alice".to_string()]));
    let mut snap = c.get_channel(&"tea".to_string()).unwrap();
    snap.members.push("intruder".to_string());
    snap.title.push_str("!!");
    let fresh = c.get_channel(&"tea".to_string()).unwrap();
    assert_eq!(fresh.members, vec!["alice".to_string()]);
    assert_eq!(fresh.title, "");
}

#[test]
fn messages_keep_their_content() {
    let mut c = Cache::new();
    let key = || MessageChannel::Channel("tea".to_string());
    assert!(c.insert_message(key(), text_message(7, "alice", "first")));
    assert!(c.insert_message(key(), text_message(8, "bob", "second")));
    let log = c.get_messages(&key(), None, None);
    assert_eq!(log.len(), 2);
    assert_eq!(log[0].character, "alice");
    assert_eq!(message_text(&log[0]), "first");
    assert_eq!(log[1].character, "bob");
    assert_eq!(message_text(&log[1]), "second");
}
