//! The reconciliation engine: the per-(event, board) state machine that
//! decides which transport action keeps the derived copy consistent, and
//! the commit that keeps the mapping store consistent with what the
//! transport actually produced.
//!
//! The engine itself performs no I/O. The caller fetches the original
//! message, counts reactors, and resolves the recorded derived message,
//! then hands the outcomes in as plain values; the engine returns the
//! action to perform and commits the matching store change. Transport
//! failures after a successful resolve are the caller's to surface; a
//! derived message that is gone is not an error but drives the
//! self-healing fork below.

use crate::board::{Board, BoardView};
use crate::store::{
    key_matches, spec_for_message, spec_has_key, spec_lookup, spec_merge, spec_remove_derived,
    lemma_for_message_complete, lemma_lookup_some_implies_index, lemma_remove_derived_element_of,
    lemma_unique_lookup_at_index, MappingStore, StarredEntry,
};
use vstd::prelude::*;

verus! {

/// Why a board was skipped before any counting, or `Proceed`.
///
/// A skip is a silent early termination of that one board's processing,
/// never an error, and never short-circuits the other boards.
#[derive(Clone, Copy, Debug, PartialEq, Eq, Structural)]
pub enum GuardOutcome {
    /// The board is disabled.
    Disabled,
    /// The event happened inside the board's own watch channel.
    OwnChannel,
    /// The reactor is the message author and the board disallows that.
    SelfReact,
    /// No guard applies; the state machine runs.
    Proceed,
}

/// The outcome of fetching the recorded derived message.
#[derive(Clone, Copy, Debug, PartialEq, Eq, Structural)]
pub enum DerivedFetch {
    /// The derived message still exists in the board's channel.
    Found,
    /// The derived message was deleted externally.
    Gone,
}

/// What the engine asks the transport and the store to do for one board.
#[derive(Clone, Copy, Debug, PartialEq, Eq, Structural)]
pub enum Action {
    /// Nothing to do: a guard stopped processing, or the message neither
    /// has nor deserves a derived copy.
    Skip,
    /// Send a new derived message, then record it.
    Create,
    /// Edit the existing derived message in place, then refresh the row.
    Edit { derived_message_id: i64 },
    /// Delete the derived message and its row: the count fell below
    /// threshold while the derived message still exists.
    DeleteMessageAndEntry { derived_message_id: i64 },
    /// Delete only the row: the derived message is already gone and the
    /// count no longer qualifies, so nothing must be re-deleted.
    DeleteEntryOnly { derived_message_id: i64 },
}

/// The pre-count guard for one board: disabled boards, events inside the
/// board's own channel, and disallowed self-reactions stop processing,
/// checked in that order.
pub open spec fn spec_board_guard(
    b: BoardView,
    event_channel_id: int,
    reactor_id: Option<u64>,
    author_id: u64,
) -> GuardOutcome {
    if !b.enabled {
        GuardOutcome::Disabled
    } else if event_channel_id == b.channel_id {
        GuardOutcome::OwnChannel
    } else if reactor_id == Some(author_id) && !b.allow_selfstar {
        GuardOutcome::SelfReact
    } else {
        GuardOutcome::Proceed
    }
}

/// Runs the pre-count guard for one board.
pub fn board_guard(
    board: &Board,
    event_channel_id: i64,
    reactor_id: Option<u64>,
    author_id: u64,
) -> (g: GuardOutcome)
    ensures
        g == spec_board_guard(board@, event_channel_id as int, reactor_id, author_id),
{
    if !board.enabled {
        GuardOutcome::Disabled
    } else if event_channel_id == board.channel_id {
        GuardOutcome::OwnChannel
    } else {
        let is_self = match reactor_id {
            Some(r) => r == author_id,
            None => false,
        };
        if is_self && !board.allow_selfstar {
            GuardOutcome::SelfReact
        } else {
            GuardOutcome::Proceed
        }
    }
}

/// The state machine's decision after counting and lookup.
///
/// With no recorded entry, a qualifying count creates and anything else
/// is a skip. With a recorded entry whose derived message still exists,
/// a qualifying count edits it in place and anything else deletes both
/// the message and the row. With a recorded entry whose derived message
/// was deleted externally, a qualifying count recreates it (self-healing)
/// and anything else merely drops the stale row: the engine never
/// re-deletes a message that no longer exists.
pub open spec fn spec_decide(
    count: int,
    threshold: int,
    existing: Option<StarredEntry>,
    fetch: Option<DerivedFetch>,
) -> Action {
    match existing {
        None => {
            if count >= threshold {
                Action::Create
            } else {
                Action::Skip
            }
        },
        Some(e) => {
            match fetch {
                Some(DerivedFetch::Found) => {
                    if count >= threshold {
                        Action::Edit { derived_message_id: e.derived_message_id }
                    } else {
                        Action::DeleteMessageAndEntry {
                            derived_message_id: e.derived_message_id,
                        }
                    }
                },
                _ => {
                    if count >= threshold {
                        Action::Create
                    } else {
                        Action::DeleteEntryOnly { derived_message_id: e.derived_message_id }
                    }
                },
            }
        },
    }
}

/// Decides the action for one board once the qualifying count and the
/// store lookup (with, when an entry exists, the derived-message fetch
/// outcome) are known.
pub fn decide_action(
    count: i64,
    threshold: i64,
    existing: Option<StarredEntry>,
    fetch: Option<DerivedFetch>,
) -> (a: Action)
    requires
        existing is Some <==> fetch is Some,
    ensures
        a == spec_decide(count as int, threshold as int, existing, fetch),
{
    match existing {
        None => {
            if count >= threshold {
                Action::Create
            } else {
                Action::Skip
            }
        },
        Some(e) => {
            match fetch {
                Some(DerivedFetch::Found) => {
                    if count >= threshold {
                        Action::Edit { derived_message_id: e.derived_message_id }
                    } else {
                        Action::DeleteMessageAndEntry {
                            derived_message_id: e.derived_message_id,
                        }
                    }
                },
                _ => {
                    if count >= threshold {
                        Action::Create
                    } else {
                        Action::DeleteEntryOnly { derived_message_id: e.derived_message_id }
                    }
                },
            }
        },
    }
}

/// Runs the whole per-board state machine for one screened Added /
/// Removed / RemovedAllForSymbol event and commits the store change.
///
/// The caller supplies the oracle values only it can know: `count`, the
/// qualifying count from the reactor listing; `fetch`, the outcome of
/// fetching the recorded derived message (exactly when an entry is
/// recorded); and `created_id`, the id of the message the transport
/// produced, required whenever the decision is Create. The returned pair
/// names the guard outcome and the action the caller must perform; the
/// store is already committed to match it, on the platform's promise
/// that editing a message keeps its id.
///
/// A guard stop returns `Skip` and leaves the store untouched; so does a
/// `Skip` decision. A second identical application — same count against
/// the row it committed — leaves the store exactly as it was.
pub fn reconcile_board(
    store: &mut MappingStore,
    board: &Board,
    event_channel_id: i64,
    reactor_id: Option<u64>,
    message_id: i64,
    author_id: u64,
    author_store_id: i64,
    source_channel_id: i64,
    count: i64,
    fetch: Option<DerivedFetch>,
    created_id: Option<i64>,
) -> (r: (GuardOutcome, Action))
    requires
        old(store).wf(),
        spec_board_guard(board@, event_channel_id as int, reactor_id, author_id)
            is Proceed ==> (fetch is Some <==> spec_has_key(
            old(store)@,
            board.channel_id,
            message_id,
        )),
        spec_board_guard(board@, event_channel_id as int, reactor_id, author_id) is Proceed
            && spec_decide(
            count as int,
            board.threshold as int,
            spec_lookup(old(store)@, board.channel_id, message_id),
            fetch,
        ) is Create ==> created_id is Some,
    ensures
        final(store).wf(),
        r.0 == spec_board_guard(board@, event_channel_id as int, reactor_id, author_id),
        !(r.0 is Proceed) ==> r.1 == Action::Skip && final(store)@ == old(store)@,
        r.0 is Proceed ==> r.1 == spec_decide(
            count as int,
            board.threshold as int,
            spec_lookup(old(store)@, board.channel_id, message_id),
            fetch,
        ),
        r.1 is Skip ==> final(store)@ == old(store)@,
        r.1 is Create || r.1 is Edit ==> {
            let d = if r.1 is Create {
                created_id->0
            } else {
                r.1->Edit_derived_message_id
            };
            let prior = spec_lookup(old(store)@, board.channel_id, message_id);
            &&& spec_lookup(final(store)@, board.channel_id, message_id) matches Some(en)
                && en.board_id == board.channel_id && en.message_id == message_id
                && en.derived_message_id == d && en.count == count && en.author_id == (
            if prior is Some {
                prior->0.author_id
            } else {
                author_store_id
            }) && en.channel_id == (
            if prior is Some {
                prior->0.channel_id
            } else {
                source_channel_id
            })
            &&& forall|b2: i64, m2: i64|
                !(b2 == board.channel_id && m2 == message_id) ==> #[trigger] spec_lookup(
                    final(store)@,
                    b2,
                    m2,
                ) == spec_lookup(old(store)@, b2, m2)
            &&& final(store)@.len() == old(store)@.len() + (if prior is Some {
                0int
            } else {
                1int
            })
        },
        r.1 matches Action::Edit { derived_message_id: d } && count == spec_lookup(
            old(store)@,
            board.channel_id,
            message_id,
        )->0.count ==> final(store)@ == old(store)@,
        (r.1 matches Action::DeleteMessageAndEntry { derived_message_id: d } ==> final(store)@
            == spec_remove_derived(old(store)@, d)),
        (r.1 matches Action::DeleteEntryOnly { derived_message_id: d } ==> final(store)@
            == spec_remove_derived(old(store)@, d)),
{
    let guard = board_guard(board, event_channel_id, reactor_id, author_id);
    match guard {
        GuardOutcome::Proceed => {},
        _ => {
            return (guard, Action::Skip);
        },
    }
    let existing = store.find(board.channel_id, message_id);
    let action = decide_action(count, board.threshold, existing, fetch);
    match action {
        Action::Skip => {},
        Action::Create => {
            let d = created_id.unwrap();
            store.upsert(
                StarredEntry {
                    board_id: board.channel_id,
                    message_id,
                    derived_message_id: d,
                    author_id: author_store_id,
                    channel_id: source_channel_id,
                    count,
                },
            );
            proof {
                if spec_has_key(old(store)@, board.channel_id, message_id) {
                    lemma_lookup_some_implies_index(old(store)@, board.channel_id, message_id);
                }
            }
        },
        Action::Edit { derived_message_id } => {
            let ghost prior = spec_lookup(old(store)@, board.channel_id, message_id);
            store.upsert(
                StarredEntry {
                    board_id: board.channel_id,
                    message_id,
                    derived_message_id,
                    author_id: author_store_id,
                    channel_id: source_channel_id,
                    count,
                },
            );
            proof {
                lemma_lookup_some_implies_index(old(store)@, board.channel_id, message_id);
                if count == prior->0.count {
                    let k = choose|k: int|
                        0 <= k < old(store)@.len() && key_matches(
                            #[trigger] old(store)@[k],
                            board.channel_id,
                            message_id,
                        ) && store@ == old(store)@.update(
                            k,
                            spec_merge(
                                old(store)@[k],
                                StarredEntry {
                                    board_id: board.channel_id,
                                    message_id,
                                    derived_message_id,
                                    author_id: author_store_id,
                                    channel_id: source_channel_id,
                                    count,
                                },
                            ),
                        );
                    lemma_unique_lookup_at_index(old(store)@, k, board.channel_id, message_id);
                    assert(old(store)@[k] == prior->0);
                    assert(store@ =~= old(store)@);
                }
            }
        },
        Action::DeleteMessageAndEntry { derived_message_id } => {
            store.delete_by_derived(derived_message_id);
        },
        Action::DeleteEntryOnly { derived_message_id } => {
            store.delete_by_derived(derived_message_id);
        },
    }
    (guard, action)
}

/// The store after deleting by each derived id in turn.
pub open spec fn spec_remove_derived_all(s: Seq<StarredEntry>, ids: Seq<i64>) -> Seq<StarredEntry>
    decreases ids.len(),
{
    if ids.len() == 0 {
        s
    } else {
        spec_remove_derived_all(spec_remove_derived(s, ids[0]), ids.drop_first())
    }
}

/// Whether the list already holds the id.
fn contains_id(v: &Vec<i64>, x: i64) -> (b: bool)
    ensures
        b == v@.contains(x),
{
    let mut i: usize = 0;
    while i < v.len()
        invariant
            i <= v.len(),
            forall|j: int| 0 <= j < i ==> v@[j] != x,
        decreases v.len() - i,
    {
        if v[i] == x {
            return true;
        }
        i += 1;
    }
    false
}

/// Plans a removed-all-for-message event: the derived messages to delete,
/// one entry per derived message however many boards point at it, for
/// every persisted entry that matches the original message — the symbol
/// is unknown or irrelevant, so board matching is bypassed entirely.
///
/// The caller deletes each listed message (logging and continuing when
/// one is already gone: deletion is idempotent) and then clears the
/// store with [`clear_derived`].
pub fn plan_removed_all(store: &MappingStore, message_id: i64) -> (plan: Vec<i64>)
    ensures
        plan@.no_duplicates(),
        forall|d: i64|
            #[trigger] plan@.contains(d) <==> exists|k: int|
                0 <= k < spec_for_message(store@, message_id).len() && (#[trigger] spec_for_message(
                    store@,
                    message_id,
                )[k]).derived_message_id == d,
{
    let entries = store.entries_for_message(message_id);
    let ghost all = entries@;
    let mut plan: Vec<i64> = Vec::new();
    let mut i: usize = 0;
    while i < entries.len()
        invariant
            i <= entries.len(),
            all == entries@,
            all == spec_for_message(store@, message_id),
            plan@.no_duplicates(),
            forall|d: i64|
                #[trigger] plan@.contains(d) <==> exists|k: int|
                    0 <= k < i && (#[trigger] all[k]).derived_message_id == d,
        decreases entries.len() - i,
    {
        let d = entries[i].derived_message_id;
        if !contains_id(&plan, d) {
            let ghost before = plan@;
            plan.push(d);
            proof {
                assert forall|i2: int, j2: int|
                    0 <= i2 < plan@.len() && 0 <= j2 < plan@.len() && i2 != j2 implies plan@[i2]
                    != plan@[j2] by {
                    if i2 < before.len() && j2 < before.len() {
                        assert(before[i2] != before[j2]);
                    } else if i2 < before.len() {
                        assert(plan@[j2] == d);
                        if plan@[i2] == d {
                            assert(before.contains(d));
                        }
                    } else {
                        assert(plan@[i2] == d);
                        if plan@[j2] == d {
                            assert(before.contains(d));
                        }
                    }
                }
                assert forall|d2: i64| #[trigger] plan@.contains(d2) implies exists|k: int|
                    0 <= k < i + 1 && (#[trigger] all[k]).derived_message_id == d2 by {
                    let j = choose|j: int| 0 <= j < plan@.len() && plan@[j] == d2;
                    if j < before.len() {
                        assert(before[j] == d2);
                        assert(before.contains(d2));
                    } else {
                        assert(all[i as int].derived_message_id == d2);
                    }
                }
                assert forall|d2: i64|
                    (exists|k: int|
                        0 <= k < i + 1 && (#[trigger] all[k]).derived_message_id
                            == d2) implies #[trigger] plan@.contains(d2) by {
                    let k = choose|k: int|
                        0 <= k < i + 1 && (#[trigger] all[k]).derived_message_id == d2;
                    if k < i {
                        assert(before.contains(d2));
                        let j = choose|j: int| 0 <= j < before.len() && before[j] == d2;
                        assert(plan@[j] == d2);
                    } else {
                        assert(plan@[plan@.len() - 1] == d);
                    }
                }
            }
        } else {
            proof {
                assert forall|d2: i64|
                    (exists|k: int|
                        0 <= k < i + 1 && (#[trigger] all[k]).derived_message_id
                            == d2) implies #[trigger] plan@.contains(d2) by {
                    let k = choose|k: int|
                        0 <= k < i + 1 && (#[trigger] all[k]).derived_message_id == d2;
                    if k == i {
                        assert(plan@.contains(d));
                    }
                }
            }
        }
        i += 1;
    }
    plan
}

/// Clears the store rows behind a removed-all plan: deletes by each
/// planned derived id in turn.
pub fn clear_derived(store: &mut MappingStore, plan: &Vec<i64>)
    requires
        old(store).wf(),
    ensures
        final(store).wf(),
        final(store)@ == spec_remove_derived_all(old(store)@, plan@),
{
    let ghost ids = plan@;
    let mut i: usize = 0;
    proof {
        assert(ids.skip(0int) =~= ids);
    }
    while i < plan.len()
        invariant
            i <= plan.len(),
            ids == plan@,
            store.wf(),
            spec_remove_derived_all(old(store)@, ids) == spec_remove_derived_all(
                store@,
                ids.skip(i as int),
            ),
        decreases plan.len() - i,
    {
        proof {
            assert(ids.skip(i as int)[0] == ids[i as int]);
            assert(ids.skip(i as int).drop_first() =~= ids.skip(i + 1));
        }
        store.delete_by_derived(plan[i]);
        i += 1;
    }
    proof {
        assert(ids.skip(plan.len() as int) =~= Seq::<i64>::empty());
    }
}

/// Whatever survives the clearing stood in the store before, and points
/// at none of the cleared derived messages.
pub proof fn lemma_remove_derived_all_elements(s: Seq<StarredEntry>, ids: Seq<i64>, i: int)
    requires
        0 <= i < spec_remove_derived_all(s, ids).len(),
    ensures
        exists|j: int|
            0 <= j < s.len() && #[trigger] s[j] == spec_remove_derived_all(s, ids)[i],
        !ids.contains(spec_remove_derived_all(s, ids)[i].derived_message_id),
    decreases ids.len(),
{
    let r = spec_remove_derived_all(s, ids);
    if ids.len() == 0 {
        assert(s[i] == r[i]);
        assert(!ids.contains(r[i].derived_message_id));
    } else {
        let s1 = spec_remove_derived(s, ids[0]);
        lemma_remove_derived_all_elements(s1, ids.drop_first(), i);
        let j1 = choose|j1: int| 0 <= j1 < s1.len() && #[trigger] s1[j1] == r[i];
        lemma_remove_derived_element_of(s, ids[0], j1);
        let j = choose|j: int| 0 <= j < s.len() && #[trigger] s[j] == s1[j1];
        assert(s[j] == r[i]);
        assert(r[i].derived_message_id != ids[0]);
        if ids.contains(r[i].derived_message_id) {
            let k = choose|k: int| 0 <= k < ids.len() && ids[k] == r[i].derived_message_id;
            assert(k > 0);
            assert(ids.drop_first()[k - 1] == ids[k]);
            assert(ids.drop_first().contains(r[i].derived_message_id));
        }
    }
}

/// After a removed-all-for-message clear whose plan covers every entry
/// for the message, no entry for that message remains; everything kept
/// was already persisted before.
pub proof fn lemma_removed_all_clears_message(s: Seq<StarredEntry>, ids: Seq<i64>, message_id: i64)
    requires
        forall|k: int|
            0 <= k < spec_for_message(s, message_id).len() ==> ids.contains(
                (#[trigger] spec_for_message(s, message_id)[k]).derived_message_id,
            ),
    ensures
        forall|i: int|
            0 <= i < spec_remove_derived_all(s, ids).len() ==> (#[trigger] spec_remove_derived_all(
                s,
                ids,
            )[i]).message_id != message_id,
{
    let r = spec_remove_derived_all(s, ids);
    assert forall|i: int| 0 <= i < r.len() implies (#[trigger] r[i]).message_id != message_id by {
        if r[i].message_id == message_id {
            lemma_remove_derived_all_elements(s, ids, i);
            let j = choose|j: int| 0 <= j < s.len() && #[trigger] s[j] == r[i];
            lemma_for_message_complete(s, message_id);
            assert(spec_for_message(s, message_id).contains(s[j]));
            let k = choose|k: int|
                0 <= k < spec_for_message(s, message_id).len() && spec_for_message(
                    s,
                    message_id,
                )[k] == s[j];
            assert(ids.contains(s[j].derived_message_id));
        }
    }
}

} // verus!
