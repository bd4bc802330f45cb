//! The engine's cross-cutting guarantees, each stated and proved over
//! the spec functions the public contracts use.

use crate::board::BoardView;
use crate::engine::{
    spec_board_guard, spec_decide, Action, DerivedFetch, GuardOutcome,
};
use crate::reactor::{spec_qualifies, spec_qualifying_count, Reactor};
use crate::store::{key_unique, spec_lookup, spec_merge, StarredEntry};
use crate::view::{
    spec_att_is_image, spec_first_image_attachment, spec_reply_body, spec_tier_color, Attachment,
    REPLY_EXCERPT_LIMIT, TIER_ONE_COLOR, TIER_THREE_COLOR, TIER_TWO_COLOR,
};
use vstd::prelude::*;

verus! {

/// Idempotence: once an Added event has committed a row, applying the
/// same event again with an unchanged qualifying count decides a
/// content-identical edit of the same derived message — never a second
/// create — and its commit merges to exactly the stored row, whatever
/// author and channel the repeat run hands in.
pub proof fn lemma_added_idempotent(
    s: Seq<StarredEntry>,
    e: StarredEntry,
    count: i64,
    threshold: i64,
)
    requires
        key_unique(s),
        spec_lookup(s, e.board_id, e.message_id) == Some(e),
        e.count == count,
        count >= threshold,
    ensures
        spec_decide(
            count as int,
            threshold as int,
            spec_lookup(s, e.board_id, e.message_id),
            Some(DerivedFetch::Found),
        ) == (Action::Edit { derived_message_id: e.derived_message_id }),
        forall|author_id: i64, channel_id: i64|
            #[trigger] spec_merge(
                e,
                StarredEntry {
                    board_id: e.board_id,
                    message_id: e.message_id,
                    derived_message_id: e.derived_message_id,
                    author_id,
                    channel_id,
                    count,
                },
            ) == e,
{
}

/// Threshold boundary: a count equal to the threshold always creates or
/// keeps the derived message; a count one below never creates or keeps
/// it, and deletes whatever entry exists.
pub proof fn lemma_threshold_boundary(
    threshold: int,
    existing: Option<StarredEntry>,
    fetch: Option<DerivedFetch>,
)
    requires
        existing is Some <==> fetch is Some,
    ensures
        ({
            let a = spec_decide(threshold, threshold, existing, fetch);
            a is Create || a is Edit
        }),
        ({
            let a = spec_decide(threshold - 1, threshold, existing, fetch);
            &&& !(a is Create)
            &&& !(a is Edit)
            &&& existing is Some ==> (a is DeleteMessageAndEntry || a is DeleteEntryOnly)
            &&& existing is None ==> a is Skip
        }),
{
}

/// Inserting a reactor that does not qualify anywhere in the list never
/// changes the qualifying count.
pub proof fn lemma_nonqualifying_insert(
    rs: Seq<Reactor>,
    i: int,
    r: Reactor,
    author_id: u64,
    allow_selfstar: bool,
)
    requires
        0 <= i <= rs.len(),
        !spec_qualifies(r, author_id, allow_selfstar),
    ensures
        spec_qualifying_count(rs.insert(i, r), author_id, allow_selfstar)
            == spec_qualifying_count(rs, author_id, allow_selfstar),
    decreases rs.len(),
{
    let t = rs.insert(i, r);
    if i == 0 {
        assert(t[0] == r);
        assert(t.drop_first() =~= rs);
    } else {
        assert(t[0] == rs[0]);
        assert(t.drop_first() =~= rs.drop_first().insert(i - 1, r));
        lemma_nonqualifying_insert(rs.drop_first(), i - 1, r, author_id, allow_selfstar);
    }
}

/// Self-react exclusion: with self-reactions disallowed, a reactor equal
/// to the message author adds nothing to the count, wherever the
/// platform lists it.
pub proof fn lemma_self_react_excluded(rs: Seq<Reactor>, i: int, r: Reactor, author_id: u64)
    requires
        0 <= i <= rs.len(),
        r.id == author_id,
    ensures
        spec_qualifying_count(rs.insert(i, r), author_id, false) == spec_qualifying_count(
            rs,
            author_id,
            false,
        ),
{
    lemma_nonqualifying_insert(rs, i, r, author_id, false);
}

/// Bot exclusion: an automated account adds nothing to the count,
/// whatever the board's self-reaction setting.
pub proof fn lemma_bot_excluded(
    rs: Seq<Reactor>,
    i: int,
    r: Reactor,
    author_id: u64,
    allow_selfstar: bool,
)
    requires
        0 <= i <= rs.len(),
        r.is_bot,
    ensures
        spec_qualifying_count(rs.insert(i, r), author_id, allow_selfstar)
            == spec_qualifying_count(rs, author_id, allow_selfstar),
{
    lemma_nonqualifying_insert(rs, i, r, author_id, allow_selfstar);
}

/// Tier coloring: the bands switch exactly at twice and three times the
/// threshold.
pub proof fn lemma_tier_boundaries(count: int, threshold: int)
    requires
        threshold >= 1,
    ensures
        count < 2 * threshold ==> spec_tier_color(count, threshold) == TIER_ONE_COLOR,
        2 * threshold <= count < 3 * threshold ==> spec_tier_color(count, threshold)
            == TIER_TWO_COLOR,
        count >= 3 * threshold ==> spec_tier_color(count, threshold) == TIER_THREE_COLOR,
{
}

/// Image precedence: a message with any image attachment always selects
/// an attachment image, so a text link can never be chosen beside one.
pub proof fn lemma_image_attachment_found(atts: Seq<Attachment>, i: int)
    requires
        0 <= i < atts.len(),
        spec_att_is_image(atts[i]),
    ensures
        spec_first_image_attachment(atts) is Some,
    decreases atts.len(),
{
    if !spec_att_is_image(atts[0]) {
        assert(atts.drop_first()[i - 1] == atts[i]);
        lemma_image_attachment_found(atts.drop_first(), i - 1);
    }
}

/// Reply truncation: an over-long reply excerpt keeps exactly the first
/// `REPLY_EXCERPT_LIMIT` characters and three more for the ellipsis.
pub proof fn lemma_reply_truncation(content: Seq<char>)
    requires
        content.len() > REPLY_EXCERPT_LIMIT,
    ensures
        spec_reply_body(content).len() == REPLY_EXCERPT_LIMIT + 3,
        spec_reply_body(content).take(REPLY_EXCERPT_LIMIT as int) == content.take(
            REPLY_EXCERPT_LIMIT as int,
        ),
{
    reveal_strlit("...");
    assert(spec_reply_body(content).take(REPLY_EXCERPT_LIMIT as int) =~= content.take(
        REPLY_EXCERPT_LIMIT as int,
    ));
}

/// Self-healing: an entry whose derived message was deleted externally
/// is recreated, not treated as an error, whenever the count still
/// qualifies.
pub proof fn lemma_self_heal_recreates(count: int, threshold: int, e: StarredEntry)
    requires
        count >= threshold,
    ensures
        spec_decide(count, threshold, Some(e), Some(DerivedFetch::Gone)) is Create,
{
}

/// Guards: a disabled board, or an event inside the board's own watch
/// channel, never reaches the state machine, so no transport call and no
/// store change can follow.
pub proof fn lemma_guard_stops(
    b: BoardView,
    event_channel_id: int,
    reactor_id: Option<u64>,
    author_id: u64,
)
    ensures
        !b.enabled ==> spec_board_guard(b, event_channel_id, reactor_id, author_id)
            is Disabled,
        b.enabled && event_channel_id == b.channel_id ==> spec_board_guard(
            b,
            event_channel_id,
            reactor_id,
            author_id,
        ) is OwnChannel,
        !b.enabled || event_channel_id == b.channel_id ==> !(spec_board_guard(
            b,
            event_channel_id,
            reactor_id,
            author_id,
        ) is Proceed),
{
}

} // verus!
