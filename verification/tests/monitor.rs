use melee_pc::event::{Envelope, Event};
use melee_pc::events::{PlayerSnapshot, Snapshot};
use melee_pc::ids::{Character, PlayerKind};
use melee_pc::monitor::{Monitor, Sequence};
use melee_pc::overlay::{FEED_LIFETIME, FeedKind};

fn fighter(character: Character, damage: i32) -> PlayerSnapshot {
    PlayerSnapshot {
        kind: PlayerKind::Human,
        character,
        stocks: 4,
        damage,
        kos: [0; 6],
    }
}

#[test]
fn a_frame_feeds_its_events_to_the_display_and_then_expires_it() {
    let mut monitor = Monitor::default();
    let mut duel = Snapshot {
        scene: 2,
        ..Snapshot::default()
    };
    duel.players[0] = Some(fighter(Character::Fox, 0));
    assert_eq!(monitor.observe(1, Snapshot::default()), []);
    let events = monitor.observe(2, duel);
    assert_eq!(events.len(), 2);
    let mut hit = duel;
    hit.players[0] = Some(fighter(Character::Fox, 12));
    let events = monitor.observe(3, hit);
    assert_eq!(events, [Event::Damage { player: 1, from: 0, to: 12 }]);
    let kinds: Vec<FeedKind> = monitor.hud.feed().iter().map(|entry| entry.kind.clone()).collect();
    assert!(kinds.contains(&FeedKind::Damage { player: 1, dealt: 12, total: 12, hits: 1 }));
    assert_eq!(monitor.observe(3 + FEED_LIFETIME * 2, hit), []);
    assert!(monitor.hud.feed().is_empty());
}

#[test]
fn envelopes_are_numbered_one_after_another() {
    let mut sequence = Sequence { next: 5 };
    let first = sequence.stamp(10, 1000, 0, Event::MatchEnd);
    let second = sequence.stamp(10, 1000, 2, Event::SelfDestruct { player: 1 });
    assert_eq!(
        first,
        Envelope {
            seq: 5,
            frame: 10,
            time_ms: 1000,
            dropped: 0,
            event: Event::MatchEnd
        }
    );
    assert_eq!(second.seq, 6);
    assert_eq!(second.dropped, 2);
    assert_eq!(sequence.next, 7);
}
