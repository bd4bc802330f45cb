//! Board configuration and the matcher that picks the boards a screened
//! event applies to.
//!
//! A board is a configured watch channel: messages in the owning guild
//! that collect enough qualifying reactions with the board's emoji get a
//! derived copy in the board's channel. Configuration is owned elsewhere;
//! the engine only reads it. The matcher filters on (guild, emoji) alone:
//! disabled boards are still returned, so that disabling is observed
//! uniformly by the per-board guard later.

use vstd::prelude::*;

verus! {

/// One board's configuration, as read from the configuration store.
#[derive(Clone, Debug)]
pub struct Board {
    /// The watch channel; also the board's identifier.
    pub channel_id: i64,
    /// The guild the board belongs to.
    pub guild_id: i64,
    /// A disabled board matches but is skipped by the per-board guard.
    pub enabled: bool,
    /// The reaction symbol the board collects.
    pub emoji: String,
    /// How many qualifying reactors a message needs; always positive.
    pub threshold: i64,
    /// Whether the message author's own reaction counts.
    pub allow_selfstar: bool,
}

/// The mathematical shape of a board.
pub struct BoardView {
    pub channel_id: int,
    pub guild_id: int,
    pub enabled: bool,
    pub emoji: Seq<char>,
    pub threshold: int,
    pub allow_selfstar: bool,
}

impl View for Board {
    type V = BoardView;

    open spec fn view(&self) -> BoardView {
        BoardView {
            channel_id: self.channel_id as int,
            guild_id: self.guild_id as int,
            enabled: self.enabled,
            emoji: self.emoji@,
            threshold: self.threshold as int,
            allow_selfstar: self.allow_selfstar,
        }
    }
}

impl DeepView for Board {
    type V = BoardView;

    open spec fn deep_view(&self) -> BoardView {
        self.view()
    }
}

impl Board {
    /// A board is well formed when its threshold is positive: a message
    /// can never qualify with no reactions at all.
    pub open spec fn wf(self) -> bool {
        self.threshold >= 1
    }
}

/// Whether one board applies to a reaction with `emoji` in `guild_id`.
pub open spec fn spec_board_matches(b: BoardView, guild_id: int, emoji: Seq<char>) -> bool {
    b.guild_id == guild_id && b.emoji == emoji
}

/// The boards among `boards` that apply to a reaction with `emoji` in
/// `guild_id`, in their original order.
pub open spec fn spec_matching_boards(
    boards: Seq<BoardView>,
    guild_id: int,
    emoji: Seq<char>,
) -> Seq<BoardView>
    decreases boards.len(),
{
    if boards.len() == 0 {
        Seq::empty()
    } else {
        let rest = spec_matching_boards(boards.drop_first(), guild_id, emoji);
        if spec_board_matches(boards[0], guild_id, emoji) {
            seq![boards[0]] + rest
        } else {
            rest
        }
    }
}

/// Picks every board whose (guild, emoji) pair matches the event's.
///
/// Deliberately does not filter on the enabled flag, and returns an
/// empty list silently when nothing matches.
pub fn match_boards(boards: &Vec<Board>, guild_id: i64, emoji: &String) -> (r: Vec<Board>)
    ensures
        r.deep_view() == spec_matching_boards(boards.deep_view(), guild_id as int, emoji@),
{
    let ghost all = boards.deep_view();
    let ghost g = guild_id as int;
    let ghost e = emoji@;
    let mut r: Vec<Board> = Vec::new();
    let mut i: usize = 0;
    proof {
        assert(all.skip(0int) =~= all);
        assert(r.deep_view() =~= Seq::<BoardView>::empty());
        assert(Seq::<BoardView>::empty() + spec_matching_boards(all, g, e)
            =~= spec_matching_boards(all, g, e));
    }
    while i < boards.len()
        invariant
            i <= boards.len(),
            all == boards.deep_view(),
            g == guild_id as int,
            e == emoji@,
            spec_matching_boards(all, g, e) == r.deep_view() + spec_matching_boards(
                all.skip(i as int),
                g,
                e,
            ),
        decreases boards.len() - i,
    {
        let b = &boards[i];
        proof {
            assert(all.skip(i as int)[0] == b.deep_view());
            assert(all.skip(i as int).drop_first() =~= all.skip(i + 1));
        }
        if b.guild_id == guild_id && b.emoji == *emoji {
            let matched = Board {
                channel_id: b.channel_id,
                guild_id: b.guild_id,
                enabled: b.enabled,
                emoji: b.emoji.clone(),
                threshold: b.threshold,
                allow_selfstar: b.allow_selfstar,
            };
            proof {
                assert(matched.deep_view() == b.deep_view());
                assert(r.deep_view() + seq![b.deep_view()] + spec_matching_boards(
                    all.skip(i + 1),
                    g,
                    e,
                ) =~= (r.deep_view() + (seq![b.deep_view()] + spec_matching_boards(
                    all.skip(i + 1),
                    g,
                    e,
                ))));
                assert(r.deep_view().push(matched.deep_view()) =~= r.deep_view() + seq![
                    b.deep_view(),
                ]);
            }
            r.push(matched);
        }
        i += 1;
    }
    proof {
        assert(all.skip(boards.len() as int) =~= Seq::<BoardView>::empty());
        assert(r.deep_view() + Seq::<BoardView>::empty() =~= r.deep_view());
    }
    r
}

} // verus!
