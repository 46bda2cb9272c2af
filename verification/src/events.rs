use vstd::prelude::*;

use crate::distance::Centimeters;
use crate::event::{Event, EventView, PlayerInfo, events_view};
use crate::game::PLAYER_SLOTS;
use crate::ids::{Character, GameMode, PlayerKind};

verus! {

/// What one player slot holds at one sample.
#[derive(Clone, Copy, Debug, PartialEq, Eq)]
pub struct PlayerSnapshot {
    pub kind: PlayerKind,
    pub character: Character,
    pub stocks: i32,
    pub damage: i32,
    /// How many times this player has knocked out each slot; its own slot
    /// counts self-destructs.
    pub kos: [i32; 6],
}

/// The part of the game's state the event stream is derived from.
#[derive(Clone, Copy, Debug, PartialEq, Eq)]
pub struct Snapshot {
    pub mode: GameMode,
    pub scene: u8,
    pub home_run: Option<Centimeters>,
    pub players: [Option<PlayerSnapshot>; 6],
}

/// The snapshot of a menu with nobody loaded.
pub open spec fn empty_snapshot() -> Snapshot {
    Snapshot {
        mode: GameMode::Title,
        scene: 0,
        home_run: None,
        players: [None, None, None, None, None, None],
    }
}

impl Default for Snapshot {
    fn default() -> (s: Self)
        ensures
            s == empty_snapshot(),
    {
        Snapshot {
            mode: GameMode::Title,
            scene: 0,
            home_run: None,
            players: [None, None, None, None, None, None],
        }
    }
}

/// Whether `slot` holds a fighter that is not a demo puppet.
pub open spec fn fights(s: Snapshot, slot: int) -> bool {
    s.players@[slot] matches Some(p) && p.kind != PlayerKind::Demo
}

/// A match is on while some slot holds a fighter that is not a demo puppet.
pub open spec fn in_match(s: Snapshot) -> bool {
    exists|slot: int| 0 <= slot < PLAYER_SLOTS && fights(s, slot)
}

/// The number a slot is shown as.
pub open spec fn number(slot: int) -> u8 {
    (slot + 1) as u8
}

/// The roster of the first `n` slots, in slot order.
pub open spec fn roster_upto(s: Snapshot, n: int) -> Seq<PlayerInfo>
    decreases n,
{
    if n <= 0 {
        seq![]
    } else {
        let earlier = roster_upto(s, n - 1);
        match s.players@[n - 1] {
            Some(p) => earlier.push(
                PlayerInfo { player: number(n - 1), kind: p.kind, character: p.character, stocks: p.stocks },
            ),
            None => earlier,
        }
    }
}

/// Every loaded player, in slot order.
pub open spec fn roster(s: Snapshot) -> Seq<PlayerInfo> {
    roster_upto(s, PLAYER_SLOTS as int)
}

/// The event one knockout in `slot`'s table against `victim` stands for.
pub open spec fn knockout(slot: int, victim: int) -> EventView {
    if victim == slot {
        EventView::SelfDestruct { player: number(slot) }
    } else {
        EventView::Ko { killer: number(slot), victim: number(victim) }
    }
}

/// One copy of `e` for each knockout gained from `before` to `now`.
pub open spec fn repeated(e: EventView, before: i32, now: i32) -> Seq<EventView> {
    Seq::new(if now > before { (now - before) as nat } else { 0 }, |i: int| e)
}

/// The knockouts `slot` gained against the first `n` victims.
pub open spec fn knockouts_upto(was: PlayerSnapshot, is: PlayerSnapshot, slot: int, n: int) -> Seq<EventView>
    decreases n,
{
    if n <= 0 {
        seq![]
    } else {
        knockouts_upto(was, is, slot, n - 1)
            + repeated(knockout(slot, n - 1), was.kos@[n - 1], is.kos@[n - 1])
    }
}

/// The events one slot that held a player at both samples gives.
pub open spec fn player_events(was: PlayerSnapshot, is: PlayerSnapshot, slot: int) -> Seq<EventView> {
    let damage = if was.damage != is.damage {
        seq![EventView::Damage { player: number(slot), from: was.damage, to: is.damage }]
    } else {
        seq![]
    };
    let stocks = if is.stocks < was.stocks {
        seq![EventView::StockLost { player: number(slot), stocks: is.stocks }]
    } else {
        seq![]
    };
    damage + stocks + knockouts_upto(was, is, slot, PLAYER_SLOTS as int)
}

/// The events of one slot; a slot that was or is empty gives none.
pub open spec fn slot_events(before: Snapshot, now: Snapshot, slot: int) -> Seq<EventView> {
    match (before.players@[slot], now.players@[slot]) {
        (Some(was), Some(is)) => player_events(was, is, slot),
        _ => seq![],
    }
}

/// The events of the first `n` slots, in slot order.
pub open spec fn slots_upto(before: Snapshot, now: Snapshot, n: int) -> Seq<EventView>
    decreases n,
{
    if n <= 0 {
        seq![]
    } else {
        slots_upto(before, now, n - 1) + slot_events(before, now, n - 1)
    }
}

/// Start or end of a match between the two samples.
pub open spec fn match_events(before: Snapshot, now: Snapshot) -> Seq<EventView> {
    if !in_match(before) && in_match(now) {
        seq![EventView::MatchStart { players: roster(now) }]
    } else if in_match(before) && !in_match(now) {
        match before.home_run {
            Some(distance) => seq![EventView::HomeRunResult { distance }, EventView::MatchEnd],
            None => seq![EventView::MatchEnd],
        }
    } else {
        seq![]
    }
}

/// Everything that changed from `before` to `now`, in the order the stream
/// reports it: mode, scene, match start or end, then each slot's damage, stock
/// loss and knockouts.
pub open spec fn changes(before: Snapshot, now: Snapshot) -> Seq<EventView> {
    let mode = if before.mode != now.mode {
        seq![EventView::ModeChange { from: before.mode, to: now.mode }]
    } else {
        seq![]
    };
    let scene = if before.scene != now.scene {
        seq![EventView::SceneChange { from: before.scene, to: now.scene }]
    } else {
        seq![]
    };
    mode + scene + match_events(before, now) + slots_upto(before, now, PLAYER_SLOTS as int)
}

impl Snapshot {
    fn in_match(&self) -> (r: bool)
        ensures
            r == in_match(*self),
    {
        let mut slot: usize = 0;
        while slot < 6
            invariant
                slot <= 6,
                forall|j: int| 0 <= j < slot ==> !fights(*self, j),
            decreases 6 - slot,
        {
            if let Some(p) = self.players[slot] {
                if p.kind != PlayerKind::Demo {
                    assert(fights(*self, slot as int));
                    return true;
                }
            }
            slot += 1;
        }
        false
    }

    fn roster(&self) -> (r: Vec<PlayerInfo>)
        ensures
            r@ == roster(*self),
    {
        let mut r: Vec<PlayerInfo> = Vec::new();
        let mut slot: usize = 0;
        while slot < 6
            invariant
                slot <= 6,
                r@ == roster_upto(*self, slot as int),
            decreases 6 - slot,
        {
            if let Some(p) = self.players[slot] {
                r.push(PlayerInfo { player: slot as u8 + 1, kind: p.kind, character: p.character, stocks: p.stocks });
            }
            slot += 1;
        }
        r
    }
}

/// Turns successive snapshots of the game into the events between them.
pub struct Tracker {
    previous: Option<Snapshot>,
}

impl Tracker {
    /// The sample the next update is compared against.
    pub closed spec fn last(self) -> Snapshot {
        match self.previous {
            Some(s) => s,
            None => empty_snapshot(),
        }
    }

    /// Whether a sample has been taken yet.
    pub closed spec fn has_sample(self) -> bool {
        self.previous is Some
    }
}

impl Default for Tracker {
    fn default() -> (t: Self)
        ensures
            !t.has_sample(),
            t.last() == empty_snapshot(),
    {
        Tracker { previous: None }
    }
}

fn push_event(events: &mut Vec<Event>, e: Event)
    ensures
        events_view(final(events)@) == events_view(old(events)@).push(e@),
{
    events.push(e);
    assert(events_view(old(events)@.push(e)) =~= events_view(old(events)@).push(e@));
}

fn push_knockouts(events: &mut Vec<Event>, was: PlayerSnapshot, is: PlayerSnapshot, slot: usize)
    requires
        slot < PLAYER_SLOTS,
    ensures
        events_view(final(events)@) == events_view(old(events)@) + knockouts_upto(
            was,
            is,
            slot as int,
            PLAYER_SLOTS as int,
        ),
{
    let mut victim: usize = 0;
    while victim < 6
        invariant
            victim <= 6,
            slot < PLAYER_SLOTS,
            events_view(events@) == events_view(old(events)@) + knockouts_upto(was, is, slot as int, victim as int),
        decreases 6 - victim,
    {
        let ghost start = events_view(events@);
        let before = was.kos[victim];
        let now = is.kos[victim];
        let mut k: i64 = before as i64;
        let ghost e = knockout(slot as int, victim as int);
        while k < now as i64
            invariant
                before as i64 <= k,
                k <= now as i64 || now <= before,
                now <= before ==> k == before as i64,
                victim < 6,
                slot < PLAYER_SLOTS,
                e == knockout(slot as int, victim as int),
                events_view(events@) == start + Seq::new((k - before) as nat, |i: int| e),
            decreases now as i64 - k,
        {
            let ev = if victim == slot {
                Event::SelfDestruct { player: slot as u8 + 1 }
            } else {
                Event::Ko { killer: slot as u8 + 1, victim: victim as u8 + 1 }
            };
            push_event(events, ev);
            assert(start + Seq::new((k + 1 - before) as nat, |i: int| e)
                =~= (start + Seq::new((k - before) as nat, |i: int| e)).push(e));
            k += 1;
        }
        assert(Seq::new((k - before) as nat, |i: int| e) =~= repeated(e, before, now));
        victim += 1;
        assert(knockouts_upto(was, is, slot as int, victim as int)
            == knockouts_upto(was, is, slot as int, victim - 1) + repeated(e, before, now));
        assert(events_view(events@) =~= events_view(old(events)@) + knockouts_upto(was, is, slot as int, victim as int));
    }
}

impl Tracker {
    /// Records `now` and returns what changed since the previous sample; the
    /// first sample is compared with an empty menu.
    pub fn update(&mut self, now: Snapshot) -> (events: Vec<Event>)
        ensures
            final(self).has_sample(),
            final(self).last() == now,
            events_view(events@) == changes(old(self).last(), now),
    {
        let mut events: Vec<Event> = Vec::new();
        let before = match self.previous {
            Some(s) => s,
            None => Snapshot::default(),
        };
        self.previous = Some(now);
        assert(events_view(events@) =~= seq![]);

        if before.mode != now.mode {
            push_event(&mut events, Event::ModeChange { from: before.mode, to: now.mode });
        }
        if before.scene != now.scene {
            push_event(&mut events, Event::SceneChange { from: before.scene, to: now.scene });
        }
        let ghost head = events_view(events@);
        let was_on = before.in_match();
        let is_on = now.in_match();
        if !was_on && is_on {
            push_event(&mut events, Event::MatchStart { players: now.roster() });
        } else if was_on && !is_on {
            if let Some(distance) = before.home_run {
                push_event(&mut events, Event::HomeRunResult { distance });
            }
            push_event(&mut events, Event::MatchEnd);
        }
        assert(events_view(events@) =~= head + match_events(before, now));

        let mut slot: usize = 0;
        while slot < 6
            invariant
                slot <= 6,
                events_view(events@) == head + match_events(before, now) + slots_upto(before, now, slot as int),
            decreases 6 - slot,
        {
            let ghost start = events_view(events@);
            if let (Some(was), Some(is)) = (before.players[slot], now.players[slot]) {
                if was.damage != is.damage {
                    push_event(&mut events, Event::Damage { player: slot as u8 + 1, from: was.damage, to: is.damage });
                }
                if is.stocks < was.stocks {
                    push_event(&mut events, Event::StockLost { player: slot as u8 + 1, stocks: is.stocks });
                }
                push_knockouts(&mut events, was, is, slot);
            }
            assert(events_view(events@) =~= start + slot_events(before, now, slot as int));
            slot += 1;
        }
        assert(events_view(events@) =~= changes(before, now));
        events
    }
}

proof fn lemma_no_knockouts_without_change(p: PlayerSnapshot, slot: int, n: int)
    ensures
        knockouts_upto(p, p, slot, n) == Seq::<EventView>::empty(),
    decreases n,
{
    if n > 0 {
        lemma_no_knockouts_without_change(p, slot, n - 1);
        assert(repeated(knockout(slot, n - 1), p.kos@[n - 1], p.kos@[n - 1]) =~= Seq::<EventView>::empty());
        assert(knockouts_upto(p, p, slot, n) =~= Seq::<EventView>::empty());
    }
}

proof fn lemma_no_slot_events_without_change(s: Snapshot, n: int)
    ensures
        slots_upto(s, s, n) == Seq::<EventView>::empty(),
    decreases n,
{
    if n > 0 {
        lemma_no_slot_events_without_change(s, n - 1);
        if let Some(p) = s.players@[n - 1] {
            lemma_no_knockouts_without_change(p, n - 1, PLAYER_SLOTS as int);
            assert(player_events(p, p, n - 1) =~= Seq::<EventView>::empty());
        }
        assert(slots_upto(s, s, n) =~= Seq::<EventView>::empty());
    }
}

/// A sample identical to the previous one reports nothing: the stream only
/// carries changes.
pub proof fn unchanged_state_reports_nothing(s: Snapshot)
    ensures
        changes(s, s) == Seq::<EventView>::empty(),
{
    lemma_no_slot_events_without_change(s, PLAYER_SLOTS as int);
    assert(changes(s, s) =~= Seq::<EventView>::empty());
}

proof fn lemma_roster_upto(s: Snapshot, n: int)
    requires
        0 <= n <= PLAYER_SLOTS,
    ensures
        forall|i: int| 0 <= i < roster_upto(s, n).len() ==> 1 <= #[trigger] roster_upto(s, n)[i].player <= n,
        forall|i: int| 0 <= i < roster_upto(s, n).len() ==> (s.players@[#[trigger] roster_upto(s, n)[i].player - 1] matches Some(p)
            && p.kind == roster_upto(s, n)[i].kind && p.character == roster_upto(s, n)[i].character
            && p.stocks == roster_upto(s, n)[i].stocks),
        forall|i: int, j: int| 0 <= i < j < roster_upto(s, n).len() ==> roster_upto(s, n)[i].player < roster_upto(s, n)[j].player,
        forall|k: int| 0 <= k < n && s.players@[k] is Some ==> exists|i: int| 0 <= i < roster_upto(s, n).len()
            && #[trigger] roster_upto(s, n)[i].player == k + 1,
    decreases n,
{
    if n > 0 {
        lemma_roster_upto(s, n - 1);
        let r = roster_upto(s, n);
        let e = roster_upto(s, n - 1);
        assert forall|i: int| 0 <= i < e.len() implies r[i] == e[i] by {}
        assert forall|k: int| 0 <= k < n && s.players@[k] is Some implies exists|i: int| 0 <= i < r.len()
            && #[trigger] r[i].player == k + 1 by {
            if k < n - 1 {
                let i = choose|i: int| 0 <= i < e.len() && #[trigger] e[i].player == k + 1;
                assert(r[i] == e[i]);
            } else {
                assert(r[e.len() as int].player == k + 1);
            }
        }
    }
}

/// A match start's roster lists every loaded slot once, in slot order, whatever
/// kind of player holds it: each entry is the player of the slot it numbers,
/// and each loaded slot has an entry.
pub proof fn the_roster_lists_every_loaded_slot(s: Snapshot)
    ensures
        forall|i: int| 0 <= i < roster(s).len() ==> 1 <= #[trigger] roster(s)[i].player <= PLAYER_SLOTS,
        forall|i: int| 0 <= i < roster(s).len() ==> (s.players@[#[trigger] roster(s)[i].player - 1] matches Some(p)
            && p.kind == roster(s)[i].kind && p.character == roster(s)[i].character && p.stocks == roster(s)[i].stocks),
        forall|i: int, j: int| 0 <= i < j < roster(s).len() ==> roster(s)[i].player < roster(s)[j].player,
        forall|k: int| 0 <= k < PLAYER_SLOTS && s.players@[k] is Some ==> exists|i: int| 0 <= i < roster(s).len()
            && #[trigger] roster(s)[i].player == k + 1,
{
    lemma_roster_upto(s, PLAYER_SLOTS as int);
}

} // verus!
