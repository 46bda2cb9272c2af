use vstd::prelude::*;

use crate::distance::Centimeters;
use crate::event::{Event, EventView, PlayerInfo};
use crate::ids::{Character, PlayerKind};

verus! {

/// A finished Home-Run Contest attempt: who batted and how far the bag went.
#[derive(Clone, Copy, Debug, PartialEq, Eq, Structural)]
pub struct RunResult {
    pub batter: Character,
    pub distance: Centimeters,
}

/// Follows the event stream of a Home-Run Contest session.
#[derive(Debug)]
pub struct Run {
    batter: Option<Character>,
}

/// The character of the first human player on a roster.
pub open spec fn first_human(players: Seq<PlayerInfo>) -> Option<Character>
    decreases players.len(),
{
    if players.len() == 0 {
        None
    } else if players[0].kind == PlayerKind::Human {
        Some(players[0].character)
    } else {
        first_human(players.drop_first())
    }
}

impl Run {
    /// The batter of the attempt under way, if a roster named one.
    pub closed spec fn batter(self) -> Option<Character> {
        self.batter
    }

    /// Takes one event. A match start remembers the first human on its roster
    /// as the batter; a home-run result is returned with that batter (or
    /// `Unknown` when no roster named one); nothing else is a result.
    pub fn observe(&mut self, event: &Event) -> (r: Option<RunResult>)
        ensures
            (final(self).batter(), r) == observe_step(old(self).batter(), event@),
    {
        match event {
            Event::MatchStart { players } => {
                let mut found: Option<Character> = None;
                let mut i = players.len();
                while i > 0
                    invariant
                        i <= players@.len(),
                        found == first_human(players@.skip(i as int)),
                    decreases i,
                {
                    i -= 1;
                    assert(players@.skip(i as int).drop_first() =~= players@.skip(i + 1));
                    if players[i].kind == PlayerKind::Human {
                        found = Some(players[i].character);
                    }
                }
                assert(players@.skip(0) =~= players@);
                self.batter = found;
                None
            },
            Event::HomeRunResult { distance } => Some(RunResult {
                batter: match self.batter {
                    Some(c) => c,
                    None => Character::Unknown,
                },
                distance: *distance,
            }),
            _ => None,
        }
    }
}

impl Default for Run {
    fn default() -> (r: Run)
        ensures
            r.batter() is None,
    {
        Run { batter: None }
    }
}

/// What one event does: the batter afterwards and the result, if any. A match
/// start names the first human on its roster as the batter; a home-run result
/// is reported with the batter (or `Unknown` when no roster named one).
pub open spec fn observe_step(batter: Option<Character>, event: EventView) -> (Option<Character>, Option<RunResult>) {
    match event {
        EventView::MatchStart { players } => (first_human(players), None),
        EventView::HomeRunResult { distance } => (batter, Some(RunResult {
            batter: match batter {
                Some(c) => c,
                None => Character::Unknown,
            },
            distance,
        })),
        _ => (batter, None),
    }
}

/// The result of an attempt names the first human of the roster that started
/// it, whatever came before.
pub proof fn result_names_the_latest_batter(before: Option<Character>, players: Seq<PlayerInfo>, distance: Centimeters)
    ensures
        observe_step(observe_step(before, EventView::MatchStart { players }).0, EventView::HomeRunResult { distance }).1
            == Some(RunResult {
                batter: match first_human(players) {
                    Some(c) => c,
                    None => Character::Unknown,
                },
                distance,
            }),
{
}

/// The batter after `events` were observed one after another.
pub open spec fn batter_after(batter: Option<Character>, events: Seq<EventView>) -> Option<Character>
    decreases events.len(),
{
    if events.len() == 0 {
        batter
    } else {
        batter_after(observe_step(batter, events[0]).0, events.drop_first())
    }
}

/// Only a match start names a batter: every other event leaves the batter as
/// it was, and only a home-run result reports anything.
pub proof fn other_events_keep_the_batter(batter: Option<Character>, e: EventView)
    requires
        !(e is MatchStart),
    ensures
        observe_step(batter, e).0 == batter,
        !(e is HomeRunResult) ==> observe_step(batter, e).1 is None,
{
}

proof fn lemma_batter_kept(batter: Option<Character>, events: Seq<EventView>)
    requires
        forall|i: int| 0 <= i < events.len() ==> !(#[trigger] events[i] is MatchStart),
    ensures
        batter_after(batter, events) == batter,
    decreases events.len(),
{
    if events.len() > 0 {
        assert forall|i: int| 0 <= i < events.drop_first().len() implies !(#[trigger] events.drop_first()[i] is MatchStart) by {
            assert(events.drop_first()[i] == events[i + 1]);
        }
        lemma_batter_kept(observe_step(batter, events[0]).0, events.drop_first());
    }
}

/// However many other events come between a match start and the home-run
/// result, the result names the first human of that match's roster, or
/// `Unknown` when the roster has none.
pub proof fn the_result_names_the_batter_across_other_events(
    before: Option<Character>,
    players: Seq<PlayerInfo>,
    between: Seq<EventView>,
    distance: Centimeters,
)
    requires
        forall|i: int| 0 <= i < between.len() ==> !(#[trigger] between[i] is MatchStart),
    ensures
        observe_step(
            batter_after(before, seq![EventView::MatchStart { players }] + between),
            EventView::HomeRunResult { distance },
        ).1 == Some(RunResult {
            batter: match first_human(players) {
                Some(c) => c,
                None => Character::Unknown,
            },
            distance,
        }),
{
    let all = seq![EventView::MatchStart { players }] + between;
    assert(all[0] == EventView::MatchStart { players });
    assert(all.drop_first() =~= between);
    lemma_batter_kept(first_human(players), between);
}

/// The batter a roster names is the character of its first human player; a
/// roster without a human names none.
pub proof fn the_batter_is_the_first_human(players: Seq<PlayerInfo>)
    ensures
        first_human(players) is None <==> forall|i: int| 0 <= i < players.len() ==> (#[trigger] players[i]).kind != PlayerKind::Human,
        first_human(players) matches Some(c) ==> exists|i: int| 0 <= i < players.len()
            && (#[trigger] players[i]).kind == PlayerKind::Human && players[i].character == c
            && forall|j: int| 0 <= j < i ==> players[j].kind != PlayerKind::Human,
    decreases players.len(),
{
    if players.len() > 0 {
        let rest = players.drop_first();
        the_batter_is_the_first_human(rest);
        if players[0].kind == PlayerKind::Human {
            assert(0 <= 0 < players.len() && players[0].kind == PlayerKind::Human);
        } else {
            assert forall|i: int| 0 <= i < rest.len() implies rest[i] == players[i + 1] by {}
            if first_human(rest) is None {
                assert forall|i: int| 0 <= i < players.len() implies (#[trigger] players[i]).kind != PlayerKind::Human by {
                    if i > 0 {
                        assert(rest[i - 1] == players[i]);
                    }
                }
            } else {
                let c = first_human(rest)->0;
                let i = choose|i: int| 0 <= i < rest.len()
                    && (#[trigger] rest[i]).kind == PlayerKind::Human && rest[i].character == c
                    && forall|j: int| 0 <= j < i ==> rest[j].kind != PlayerKind::Human;
                assert(players[i + 1] == rest[i]);
                assert forall|j: int| 0 <= j < i + 1 implies players[j].kind != PlayerKind::Human by {
                    if j > 0 {
                        assert(rest[j - 1] == players[j]);
                    }
                }
                assert(players[0].kind != PlayerKind::Human);
                assert(!(forall|k: int| 0 <= k < players.len() ==> (#[trigger] players[k]).kind != PlayerKind::Human));
            }
        }
    }
}

} // verus!
