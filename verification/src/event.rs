use vstd::prelude::*;

use crate::distance::Centimeters;
use crate::ids::{Character, GameMode, PlayerKind};

verus! {

/// One entry of the roster sent when a match starts.
#[derive(Clone, Copy, Debug, PartialEq, Eq, Structural)]
pub struct PlayerInfo {
    pub player: u8,
    pub kind: PlayerKind,
    pub character: Character,
    pub stocks: i32,
}

/// Something the game did, as the event stream reports it.
#[derive(Clone, Debug, PartialEq, Eq)]
#[allow(inconsistent_fields)]
pub enum Event {
    ModeChange { from: GameMode, to: GameMode },
    SceneChange { from: u8, to: u8 },
    MatchStart { players: Vec<PlayerInfo> },
    MatchEnd,
    Damage { player: u8, from: i32, to: i32 },
    StockLost { player: u8, stocks: i32 },
    Ko { killer: u8, victim: u8 },
    SelfDestruct { player: u8 },
    HomeRunResult { distance: Centimeters },
}

/// An [`Event`] with its roster held as a sequence.
#[allow(inconsistent_fields)]
pub enum EventView {
    ModeChange { from: GameMode, to: GameMode },
    SceneChange { from: u8, to: u8 },
    MatchStart { players: Seq<PlayerInfo> },
    MatchEnd,
    Damage { player: u8, from: i32, to: i32 },
    StockLost { player: u8, stocks: i32 },
    Ko { killer: u8, victim: u8 },
    SelfDestruct { player: u8 },
    HomeRunResult { distance: Centimeters },
}

impl View for Event {
    type V = EventView;

    open spec fn view(&self) -> EventView {
        match self {
            Event::ModeChange { from, to } => EventView::ModeChange { from: *from, to: *to },
            Event::SceneChange { from, to } => EventView::SceneChange { from: *from, to: *to },
            Event::MatchStart { players } => EventView::MatchStart { players: players@ },
            Event::MatchEnd => EventView::MatchEnd,
            Event::Damage { player, from, to } => EventView::Damage {
                player: *player,
                from: *from,
                to: *to,
            },
            Event::StockLost { player, stocks } => EventView::StockLost {
                player: *player,
                stocks: *stocks,
            },
            Event::Ko { killer, victim } => EventView::Ko { killer: *killer, victim: *victim },
            Event::SelfDestruct { player } => EventView::SelfDestruct { player: *player },
            Event::HomeRunResult { distance } => EventView::HomeRunResult { distance: *distance },
        }
    }
}

/// The views of a list of events.
pub open spec fn events_view(events: Seq<Event>) -> Seq<EventView> {
    events.map_values(|e: Event| e@)
}

/// An event with its place in the stream.
#[derive(Clone, Debug, PartialEq, Eq)]
pub struct Envelope {
    pub seq: u64,
    pub frame: u64,
    pub time_ms: u64,
    pub dropped: u64,
    pub event: Event,
}

/// What the collector on the other end of the stream asks the game to show.
#[derive(Clone, Debug, PartialEq, Eq)]
pub enum Command {
    Nameplate { key: String, summary: String },
    Notice { text: String },
}

} // verus!
