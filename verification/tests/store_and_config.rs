use starboard::board::{match_boards, Board};
use starboard::config::{
    decide_create, decide_emoji_update, decide_setting_update, make_board, CreateDecision,
    EmojiDecision, SettingDecision,
};
use starboard::event::{screen_event, ReactionEvent, ReactionEventKind, Symbol};
use starboard::ids::{narrow_id, widen_id, EngineError};
use starboard::reactor::{count_qualifying, page_is_last, qualifies, Reactor};
use starboard::store::{MappingStore, StarredEntry};

fn board(channel_id: i64, guild_id: i64, emoji: &str, enabled: bool) -> Board {
    Board {
        channel_id,
        guild_id,
        enabled,
        emoji: String::from(emoji),
        threshold: 3,
        allow_selfstar: false,
    }
}

fn event() -> ReactionEvent {
    ReactionEvent {
        kind: ReactionEventKind::Added,
        guild_id: Some(10),
        channel_id: 5,
        message_id: 200,
        reactor_id: Some(42),
        symbol: Symbol::Unicode(String::from("\u{2b50}")),
        burst: false,
    }
}

#[test]
fn screening_keeps_plain_guild_events() {
    let s = screen_event(event()).unwrap();
    assert_eq!(s.guild_id, 10);
    assert_eq!(s.channel_id, 5);
    assert_eq!(s.message_id, 200);
    assert_eq!(s.reactor_id, Some(42));
    assert_eq!(s.emoji, "\u{2b50}");
    assert_eq!(s.kind, ReactionEventKind::Added);
}

#[test]
fn screening_drops_events_outside_guilds() {
    let mut e = event();
    e.guild_id = None;
    assert!(screen_event(e).is_none());
}

#[test]
fn screening_drops_custom_emojis() {
    let mut e = event();
    e.symbol = Symbol::Custom;
    assert!(screen_event(e).is_none());
}

#[test]
fn screening_drops_burst_reactions() {
    let mut e = event();
    e.burst = true;
    assert!(screen_event(e).is_none());
}

#[test]
fn matching_filters_on_guild_and_emoji_only() {
    let boards = vec![
        board(100, 10, "\u{2b50}", true),
        board(101, 10, "\u{2764}", true),
        board(102, 11, "\u{2b50}", true),
        board(103, 10, "\u{2b50}", false),
    ];
    let hits = match_boards(&boards, 10, &String::from("\u{2b50}"));
    let ids: Vec<i64> = hits.iter().map(|b| b.channel_id).collect();
    // The disabled board is still returned: the per-board guard skips it
    // later, so disabling mid-flight is observed uniformly.
    assert_eq!(ids, vec![100, 103]);
}

#[test]
fn matching_nothing_is_silent() {
    let boards = vec![board(100, 10, "\u{2b50}", true)];
    let hits = match_boards(&boards, 99, &String::from("\u{2b50}"));
    assert!(hits.is_empty());
}

#[test]
fn author_reaction_excluded_without_selfstar() {
    let rs = vec![
        Reactor { id: 77, is_bot: false },
        Reactor { id: 42, is_bot: false },
    ];
    assert_eq!(count_qualifying(&rs, 77, false), 1);
    assert_eq!(count_qualifying(&rs, 77, true), 2);
    assert!(!qualifies(&Reactor { id: 77, is_bot: false }, 77, false));
}

#[test]
fn bots_never_count() {
    let rs = vec![
        Reactor { id: 1, is_bot: true },
        Reactor { id: 2, is_bot: false },
        Reactor { id: 77, is_bot: true },
    ];
    assert_eq!(count_qualifying(&rs, 77, false), 1);
    assert_eq!(count_qualifying(&rs, 77, true), 1);
}

#[test]
fn pagination_ends_on_short_page() {
    assert!(!page_is_last(100));
    assert!(page_is_last(99));
    assert!(page_is_last(0));
}

#[test]
fn id_narrowing_surfaces_overflow() {
    assert_eq!(narrow_id(123), Ok(123));
    assert_eq!(narrow_id(i64::MAX as u64), Ok(i64::MAX));
    assert_eq!(narrow_id(i64::MAX as u64 + 1), Err(EngineError::SchemaMismatch));
    assert_eq!(widen_id(123), Ok(123));
    assert_eq!(widen_id(-1), Err(EngineError::SchemaMismatch));
    assert!(!EngineError::SchemaMismatch.describe().is_empty());
}

#[test]
fn upsert_overwrites_derived_and_count_only() {
    let mut store = MappingStore::new();
    store.upsert(StarredEntry {
        board_id: 100,
        message_id: 200,
        derived_message_id: 900,
        author_id: 77,
        channel_id: 5,
        count: 3,
    });
    // A conflicting upsert carries a different author and channel; they
    // must stay as first recorded.
    store.upsert(StarredEntry {
        board_id: 100,
        message_id: 200,
        derived_message_id: 901,
        author_id: 88,
        channel_id: 6,
        count: 4,
    });
    assert_eq!(store.entry_count(), 1);
    let e = store.find(100, 200).unwrap();
    assert_eq!(e.derived_message_id, 901);
    assert_eq!(e.count, 4);
    assert_eq!(e.author_id, 77);
    assert_eq!(e.channel_id, 5);
}

#[test]
fn delete_by_key_and_by_derived_id() {
    let mut store = MappingStore::new();
    store.upsert(StarredEntry {
        board_id: 100,
        message_id: 200,
        derived_message_id: 900,
        author_id: 77,
        channel_id: 5,
        count: 3,
    });
    store.upsert(StarredEntry {
        board_id: 101,
        message_id: 201,
        derived_message_id: 901,
        author_id: 77,
        channel_id: 5,
        count: 3,
    });
    store.delete_key(100, 200);
    assert!(store.find(100, 200).is_none());
    assert_eq!(store.entry_count(), 1);
    store.delete_by_derived(901);
    assert_eq!(store.entry_count(), 0);
}

#[test]
fn entries_for_message_spans_boards() {
    let mut store = MappingStore::new();
    store.upsert(StarredEntry {
        board_id: 100,
        message_id: 200,
        derived_message_id: 900,
        author_id: 77,
        channel_id: 5,
        count: 3,
    });
    store.upsert(StarredEntry {
        board_id: 101,
        message_id: 200,
        derived_message_id: 901,
        author_id: 77,
        channel_id: 5,
        count: 4,
    });
    store.upsert(StarredEntry {
        board_id: 100,
        message_id: 300,
        derived_message_id: 902,
        author_id: 77,
        channel_id: 5,
        count: 5,
    });
    let hits = store.entries_for_message(200);
    assert_eq!(hits.len(), 2);
    assert!(hits.iter().all(|e| e.message_id == 200));
}

#[test]
fn create_requires_guild_emoji_and_free_channel() {
    assert_eq!(decide_create(false, "\u{2b50}", false), CreateDecision::NotInGuild);
    assert_eq!(decide_create(true, "notanemoji", false), CreateDecision::InvalidEmoji);
    assert_eq!(decide_create(true, "\u{2b50}", true), CreateDecision::AlreadyConfigured);
    assert_eq!(decide_create(true, "\u{2b50}", false), CreateDecision::Create);
}

#[test]
fn created_board_starts_enabled() {
    let b = make_board(10, 100, String::from("\u{2b50}"), 3, None);
    assert!(b.enabled);
    assert!(!b.allow_selfstar);
    assert_eq!(b.threshold, 3);
    assert_eq!(b.guild_id, 10);
    assert_eq!(b.channel_id, 100);
    let b2 = make_board(10, 100, String::from("\u{2b50}"), 3, Some(true));
    assert!(b2.allow_selfstar);
}

#[test]
fn setting_updates_require_a_board() {
    assert_eq!(decide_setting_update(false), SettingDecision::NotConfigured);
    assert_eq!(decide_setting_update(true), SettingDecision::Apply);
}

#[test]
fn emoji_update_checks_board_then_emoji() {
    assert_eq!(decide_emoji_update(false, "\u{2b50}"), EmojiDecision::NotConfigured);
    assert_eq!(decide_emoji_update(true, "notanemoji"), EmojiDecision::InvalidEmoji);
    assert_eq!(decide_emoji_update(true, "\u{2b50}"), EmojiDecision::Apply);
}
