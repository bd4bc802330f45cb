//! Decisions behind the board-configuration commands: creating a board,
//! enabling or disabling it, and changing its threshold, emoji or
//! self-reaction policy.
//!
//! Configuration records are persisted elsewhere; these functions decide
//! what a command does, given what the caller looked up. The reaction
//! symbol must be one of the platform's default emojis: custom and
//! animated emojis are unsupported.

use crate::board::Board;
use vstd::prelude::*;

verus! {

/// Whether a string is one of the platform's default (Unicode) emojis.
pub uninterp spec fn is_known_emoji(s: Seq<char>) -> bool;

/// Relies on `emojis::get`: a lookup of the string in that crate's
/// static emoji table, depending on the characters alone.
#[verifier::external_body]
fn emoji_known(s: &str) -> (b: bool)
    ensures
        b == is_known_emoji(s@),
{
    emojis::get(s).is_some()
}

/// What a board-creation command does.
#[derive(Clone, Copy, Debug, PartialEq, Eq, Structural)]
pub enum CreateDecision {
    /// The command was used outside a guild; nothing is created.
    NotInGuild,
    /// The symbol is not a default emoji; nothing is created.
    InvalidEmoji,
    /// The channel already has a board; nothing is created.
    AlreadyConfigured,
    /// Create the board.
    Create,
}

/// Decides a board-creation command, in the order the checks apply:
/// the guild requirement, then the emoji, then the one-board-per-channel
/// rule.
pub fn decide_create(in_guild: bool, emoji: &str, board_exists: bool) -> (d: CreateDecision)
    ensures
        !in_guild ==> d == CreateDecision::NotInGuild,
        in_guild && !is_known_emoji(emoji@) ==> d == CreateDecision::InvalidEmoji,
        in_guild && is_known_emoji(emoji@) && board_exists ==> d
            == CreateDecision::AlreadyConfigured,
        in_guild && is_known_emoji(emoji@) && !board_exists ==> d == CreateDecision::Create,
{
    if !in_guild {
        CreateDecision::NotInGuild
    } else if !emoji_known(emoji) {
        CreateDecision::InvalidEmoji
    } else if board_exists {
        CreateDecision::AlreadyConfigured
    } else {
        CreateDecision::Create
    }
}

/// The board a creation command writes: enabled from the start, with
/// self-reactions off unless asked for.
pub fn make_board(
    guild_id: i64,
    channel_id: i64,
    emoji: String,
    threshold: i64,
    allow_selfstar: Option<bool>,
) -> (b: Board)
    requires
        threshold >= 1,
    ensures
        b.wf(),
        b.guild_id == guild_id,
        b.channel_id == channel_id,
        b.emoji@ == emoji@,
        b.threshold == threshold,
        b.enabled,
        b.allow_selfstar == (allow_selfstar matches Some(true)),
{
    let allow = match allow_selfstar {
        Some(v) => v,
        None => false,
    };
    Board { channel_id, guild_id, enabled: true, emoji, threshold, allow_selfstar: allow }
}

/// What a board-settings update command does.
#[derive(Clone, Copy, Debug, PartialEq, Eq, Structural)]
pub enum SettingDecision {
    /// No board is configured for the channel; nothing changes.
    NotConfigured,
    /// Apply the update.
    Apply,
}

/// Decides an enable, threshold, self-reaction or deletion command:
/// the update applies exactly when the channel has a board.
pub fn decide_setting_update(board_exists: bool) -> (d: SettingDecision)
    ensures
        d == SettingDecision::Apply <==> board_exists,
{
    if board_exists {
        SettingDecision::Apply
    } else {
        SettingDecision::NotConfigured
    }
}

/// What an emoji-change command does.
#[derive(Clone, Copy, Debug, PartialEq, Eq, Structural)]
pub enum EmojiDecision {
    /// No board is configured for the channel; nothing changes.
    NotConfigured,
    /// The symbol is not a default emoji; nothing changes.
    InvalidEmoji,
    /// Apply the new emoji.
    Apply,
}

/// Decides an emoji-change command, in the order the checks apply: the
/// board must exist, then the symbol must be a default emoji.
pub fn decide_emoji_update(board_exists: bool, emoji: &str) -> (d: EmojiDecision)
    ensures
        !board_exists ==> d == EmojiDecision::NotConfigured,
        board_exists && !is_known_emoji(emoji@) ==> d == EmojiDecision::InvalidEmoji,
        board_exists && is_known_emoji(emoji@) ==> d == EmojiDecision::Apply,
{
    if !board_exists {
        EmojiDecision::NotConfigured
    } else if !emoji_known(emoji) {
        EmojiDecision::InvalidEmoji
    } else {
        EmojiDecision::Apply
    }
}

} // verus!
