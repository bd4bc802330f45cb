//! Raw reaction events and the screening pass that every event goes
//! through before any board is considered.
//!
//! An event is dropped (silently, not as an error) when it carries no
//! guild, when its reaction symbol is not a plain platform-native emoji,
//! or when it is a burst ("super") reaction.

use vstd::prelude::*;

verus! {

/// Which change to a message's reactions the platform reported.
#[derive(Clone, Copy, Debug, PartialEq, Eq, Structural)]
pub enum ReactionEventKind {
    /// One user added one reaction.
    Added,
    /// One user removed one reaction.
    Removed,
    /// Every reaction with one symbol was stripped from the message.
    RemovedAllForSymbol,
    /// Every reaction, whatever the symbol, was stripped from the message.
    RemovedAllForMessage,
}

/// The reaction symbol as the platform delivered it.
#[derive(Clone, Debug)]
pub enum Symbol {
    /// A platform-native emoji, carried as its character sequence.
    Unicode(String),
    /// A custom or animated emoji; the engine does not work with these.
    Custom,
}

/// One raw reaction event, exactly as the gateway delivered it.
#[derive(Clone, Debug)]
pub struct ReactionEvent {
    pub kind: ReactionEventKind,
    /// Absent outside guilds; such events are ignored.
    pub guild_id: Option<u64>,
    /// The channel holding the message that was reacted to.
    pub channel_id: u64,
    /// The message that was reacted to.
    pub message_id: u64,
    /// The reacting user; absent only when every reaction was stripped.
    pub reactor_id: Option<u64>,
    pub symbol: Symbol,
    /// Set for burst ("super") reactions, which the engine ignores.
    pub burst: bool,
}

/// An event that passed screening: it happened in a guild, carries a
/// plain emoji, and is not a burst reaction.
#[derive(Clone, Debug)]
pub struct ScreenedEvent {
    pub kind: ReactionEventKind,
    pub guild_id: u64,
    pub channel_id: u64,
    pub message_id: u64,
    pub reactor_id: Option<u64>,
    /// The plain emoji the reaction used.
    pub emoji: String,
}

/// Whether the event survives screening: it must come from a guild,
/// use a plain emoji, and not be a burst reaction.
pub open spec fn spec_passes_screen(ev: ReactionEvent) -> bool {
    &&& ev.guild_id is Some
    &&& ev.symbol is Unicode
    &&& !ev.burst
}

/// Screens one raw event. Returns the screened form when the event is
/// one the engine works with, and `None` when it is to be ignored.
pub fn screen_event(ev: ReactionEvent) -> (r: Option<ScreenedEvent>)
    ensures
        r is Some <==> spec_passes_screen(ev),
        r matches Some(s) ==> {
            &&& s.kind == ev.kind
            &&& s.guild_id == ev.guild_id->0
            &&& s.channel_id == ev.channel_id
            &&& s.message_id == ev.message_id
            &&& s.reactor_id == ev.reactor_id
            &&& s.emoji@ == ev.symbol->Unicode_0@
        },
{
    if ev.burst {
        return None;
    }
    let guild_id = match ev.guild_id {
        Some(g) => g,
        None => {
            return None;
        },
    };
    match ev.symbol {
        Symbol::Unicode(emoji) => Some(ScreenedEvent {
            kind: ev.kind,
            guild_id,
            channel_id: ev.channel_id,
            message_id: ev.message_id,
            reactor_id: ev.reactor_id,
            emoji,
        }),
        Symbol::Custom => None,
    }
}

} // verus!
