use starboard::board::Board;
use starboard::engine::{
    board_guard, clear_derived, decide_action, plan_removed_all, reconcile_board, Action,
    DerivedFetch, GuardOutcome,
};
use starboard::store::{MappingStore, StarredEntry};

fn board(channel_id: i64, threshold: i64) -> Board {
    Board {
        channel_id,
        guild_id: 10,
        enabled: true,
        emoji: String::from("\u{2b50}"),
        threshold,
        allow_selfstar: false,
    }
}

fn entry(board_id: i64, message_id: i64, derived: i64, count: i64) -> StarredEntry {
    StarredEntry {
        board_id,
        message_id,
        derived_message_id: derived,
        author_id: 77,
        channel_id: 5,
        count,
    }
}

#[test]
fn added_event_is_idempotent() {
    let mut store = MappingStore::new();
    let b = board(100, 3);
    // First application: no entry yet, count meets threshold, transport
    // produced derived message 900.
    let (g1, a1) = reconcile_board(
        &mut store, &b, 5, Some(42), 200, 77, 77, 5, 3, None, Some(900),
    );
    assert_eq!(g1, GuardOutcome::Proceed);
    assert_eq!(a1, Action::Create);
    assert_eq!(store.entry_count(), 1);
    let first = store.find(100, 200).unwrap();
    assert_eq!(first.derived_message_id, 900);
    assert_eq!(first.count, 3);
    // Second application of the same event with the same count: the
    // derived message still exists, so it is edited, never re-created,
    // and the store is unchanged.
    let (g2, a2) = reconcile_board(
        &mut store, &b, 5, Some(42), 200, 77, 77, 5, 3, Some(DerivedFetch::Found), None,
    );
    assert_eq!(g2, GuardOutcome::Proceed);
    assert_eq!(a2, Action::Edit { derived_message_id: 900 });
    assert_eq!(store.entry_count(), 1);
    assert_eq!(store.find(100, 200).unwrap(), first);
}

#[test]
fn count_at_threshold_creates() {
    let a = decide_action(3, 3, None, None);
    assert_eq!(a, Action::Create);
}

#[test]
fn count_at_threshold_keeps_existing() {
    let e = entry(100, 200, 900, 5);
    let a = decide_action(3, 3, Some(e), Some(DerivedFetch::Found));
    assert_eq!(a, Action::Edit { derived_message_id: 900 });
}

#[test]
fn count_one_below_threshold_never_creates() {
    let a = decide_action(2, 3, None, None);
    assert_eq!(a, Action::Skip);
}

#[test]
fn count_one_below_threshold_deletes_existing() {
    let e = entry(100, 200, 900, 5);
    let a = decide_action(2, 3, Some(e), Some(DerivedFetch::Found));
    assert_eq!(a, Action::DeleteMessageAndEntry { derived_message_id: 900 });
}

#[test]
fn gone_derived_message_below_threshold_drops_entry_only() {
    let e = entry(100, 200, 900, 5);
    let a = decide_action(2, 3, Some(e), Some(DerivedFetch::Gone));
    assert_eq!(a, Action::DeleteEntryOnly { derived_message_id: 900 });
}

#[test]
fn externally_deleted_derived_message_is_recreated() {
    let mut store = MappingStore::new();
    store.upsert(entry(100, 200, 900, 4));
    let b = board(100, 3);
    // The recorded derived message is gone, but the count still
    // qualifies: a new derived message is sent and the stale entry is
    // overwritten rather than erroring.
    let (g, a) = reconcile_board(
        &mut store, &b, 5, Some(42), 200, 77, 77, 5, 4, Some(DerivedFetch::Gone), Some(901),
    );
    assert_eq!(g, GuardOutcome::Proceed);
    assert_eq!(a, Action::Create);
    assert_eq!(store.entry_count(), 1);
    let e = store.find(100, 200).unwrap();
    assert_eq!(e.derived_message_id, 901);
    assert_eq!(e.count, 4);
}

#[test]
fn disabled_board_never_acts() {
    let mut store = MappingStore::new();
    let mut b = board(100, 3);
    b.enabled = false;
    let (g, a) = reconcile_board(&mut store, &b, 5, Some(42), 200, 77, 77, 5, 50, None, None);
    assert_eq!(g, GuardOutcome::Disabled);
    assert_eq!(a, Action::Skip);
    assert_eq!(store.entry_count(), 0);
}

#[test]
fn event_in_watch_channel_never_acts() {
    let mut store = MappingStore::new();
    let b = board(100, 3);
    // The event's channel is the board's own watch channel.
    let (g, a) = reconcile_board(&mut store, &b, 100, Some(42), 200, 77, 77, 5, 50, None, None);
    assert_eq!(g, GuardOutcome::OwnChannel);
    assert_eq!(a, Action::Skip);
    assert_eq!(store.entry_count(), 0);
}

#[test]
fn self_react_stops_when_disallowed() {
    let mut store = MappingStore::new();
    let b = board(100, 3);
    let (g, a) = reconcile_board(&mut store, &b, 5, Some(77), 200, 77, 77, 5, 50, None, None);
    assert_eq!(g, GuardOutcome::SelfReact);
    assert_eq!(a, Action::Skip);
    assert_eq!(store.entry_count(), 0);
}

#[test]
fn self_react_proceeds_when_allowed() {
    let mut b = board(100, 3);
    b.allow_selfstar = true;
    let g = board_guard(&b, 5, Some(77), 77);
    assert_eq!(g, GuardOutcome::Proceed);
}

#[test]
fn removal_all_event_without_reactor_passes_self_guard() {
    let b = board(100, 3);
    let g = board_guard(&b, 5, None, 77);
    assert_eq!(g, GuardOutcome::Proceed);
}

#[test]
fn removed_all_clears_every_board_once() {
    let mut store = MappingStore::new();
    // Two boards hold entries for the same original message.
    store.upsert(entry(100, 200, 900, 4));
    store.upsert(entry(101, 200, 901, 6));
    // And one unrelated entry that must survive.
    store.upsert(entry(100, 300, 902, 5));
    let plan = plan_removed_all(&store, 200);
    assert_eq!(plan.len(), 2);
    assert!(plan.contains(&900));
    assert!(plan.contains(&901));
    clear_derived(&mut store, &plan);
    assert_eq!(store.entry_count(), 1);
    assert!(store.find(100, 200).is_none());
    assert!(store.find(101, 200).is_none());
    assert!(store.find(100, 300).is_some());
}

#[test]
fn removed_all_plan_deduplicates_derived_ids() {
    let mut store = MappingStore::new();
    // Two boards that (however it came about) share a derived message id
    // still get exactly one delete call.
    store.upsert(entry(100, 200, 900, 4));
    store.upsert(entry(101, 200, 900, 4));
    let plan = plan_removed_all(&store, 200);
    assert_eq!(plan.len(), 1);
    assert_eq!(plan[0], 900);
}
