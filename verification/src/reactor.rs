//! The reactor counter: how many distinct users' reactions on a message
//! count toward a board's threshold.
//!
//! Automated accounts never count. The message author counts only when
//! the board allows self-reactions. The platform hands reactors out in
//! pages of up to [`REACTOR_PAGE_SIZE`]; a page shorter than that marks
//! the end of the list. Retrieval itself is I/O and stays with the
//! caller, which collects the pages and hands the engine the plain list.

use vstd::prelude::*;

verus! {

/// Reactor pages are requested in this size; a shorter page is the last.
pub const REACTOR_PAGE_SIZE: usize = 100;

/// One user that currently has the reaction applied.
#[derive(Clone, Copy, Debug, PartialEq, Eq, Structural)]
pub struct Reactor {
    pub id: u64,
    /// Whether the platform marks the account as automated.
    pub is_bot: bool,
}

/// Whether one reactor counts toward the threshold: not a bot, and not
/// the message author unless the board allows self-reactions.
pub open spec fn spec_qualifies(r: Reactor, author_id: u64, allow_selfstar: bool) -> bool {
    !r.is_bot && (allow_selfstar || r.id != author_id)
}

/// The number of qualifying reactors in a list.
pub open spec fn spec_qualifying_count(
    rs: Seq<Reactor>,
    author_id: u64,
    allow_selfstar: bool,
) -> nat
    decreases rs.len(),
{
    if rs.len() == 0 {
        0
    } else {
        (if spec_qualifies(rs[0], author_id, allow_selfstar) {
            1nat
        } else {
            0nat
        }) + spec_qualifying_count(rs.drop_first(), author_id, allow_selfstar)
    }
}

/// Decides whether one reactor counts under the board's policy.
pub fn qualifies(r: &Reactor, author_id: u64, allow_selfstar: bool) -> (b: bool)
    ensures
        b == spec_qualifies(*r, author_id, allow_selfstar),
{
    !r.is_bot && (allow_selfstar || r.id != author_id)
}

/// Counts the qualifying reactors in the full reactor list.
pub fn count_qualifying(reactors: &Vec<Reactor>, author_id: u64, allow_selfstar: bool) -> (n: usize)
    ensures
        n == spec_qualifying_count(reactors@, author_id, allow_selfstar),
        n <= reactors@.len(),
{
    let ghost all = reactors@;
    let mut n: usize = 0;
    let mut i: usize = 0;
    proof {
        assert(all.skip(0int) =~= all);
    }
    while i < reactors.len()
        invariant
            i <= reactors.len(),
            n <= i,
            all == reactors@,
            spec_qualifying_count(all, author_id, allow_selfstar) == n
                + spec_qualifying_count(all.skip(i as int), author_id, allow_selfstar),
        decreases reactors.len() - i,
    {
        proof {
            assert(all.skip(i as int)[0] == all[i as int]);
            assert(all.skip(i as int).drop_first() =~= all.skip(i + 1));
        }
        if qualifies(&reactors[i], author_id, allow_selfstar) {
            n += 1;
        }
        i += 1;
    }
    proof {
        assert(all.skip(reactors.len() as int) =~= Seq::<Reactor>::empty());
    }
    n
}

/// Whether a retrieved page ends the paginated listing: the platform
/// returns pages of [`REACTOR_PAGE_SIZE`] until the list is exhausted,
/// so a shorter page is the last one.
pub fn page_is_last(page_len: usize) -> (b: bool)
    ensures
        b == (page_len < REACTOR_PAGE_SIZE),
{
    page_len < REACTOR_PAGE_SIZE
}

} // verus!
