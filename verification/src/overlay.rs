use std::collections::VecDeque;

use vstd::prelude::*;

use crate::distance::{Centimeters, feet_text};
use crate::event::{Command, Event, EventView, PlayerInfo};
use crate::game::PLAYER_SLOTS;
use crate::ids::GameMode;
use crate::text::{
    chars_of, decimal, int_text, push_decimal, push_int, push_str, push_two_digits, slice_chars,
    string_of, trim_end, trim_end_len, two_digits,
};

verus! {

broadcast use vstd::std_specs::vecdeque::group_vec_dequeue_axioms;

/// Rows the feed shows at most; the oldest drops out first.
pub const FEED_CAPACITY: usize = 7;

/// Frames a feed row stays up.
pub const FEED_LIFETIME: u64 = 300;

/// Frames a row takes to fade in.
pub const FEED_FADE_IN: u64 = 8;

/// Frames a row takes to fade out at the end of its life.
pub const FEED_FADE_OUT: u64 = 45;

/// Hits on one player this many frames apart or less merge into one row.
pub const COMBO_WINDOW: u64 = 90;

/// The slot of a one-based player number, if there is such a slot.
pub open spec fn spec_slot_index(player: u8) -> Option<usize> {
    if 1 <= player && player <= PLAYER_SLOTS {
        Some((player - 1) as usize)
    } else {
        None
    }
}

/// The slot of a one-based player number, if there is such a slot.
pub fn slot_index(player: u8) -> (r: Option<usize>)
    ensures
        r == spec_slot_index(player),
{
    match player.checked_sub(1) {
        Some(slot) if (slot as usize) < PLAYER_SLOTS => Some(slot as usize),
        _ => None,
    }
}

/// What a feed row shows.
#[derive(Clone, Debug, PartialEq, Eq)]
pub enum FeedKind {
    Banner(&'static str),
    Notice(String),
    HomeRun { distance: Centimeters },
    Ko { killer: u8, victim: u8 },
    SelfDestruct { player: u8 },
    Damage { player: u8, dealt: i32, total: i32, hits: u32 },
}

/// A [`FeedKind`] with its text held as characters.
pub enum FeedKindView {
    Banner(Seq<char>),
    Notice(Seq<char>),
    HomeRun { distance: Centimeters },
    Ko { killer: u8, victim: u8 },
    SelfDestruct { player: u8 },
    Damage { player: u8, dealt: i32, total: i32, hits: u32 },
}

impl View for FeedKind {
    type V = FeedKindView;

    open spec fn view(&self) -> FeedKindView {
        match self {
            FeedKind::Banner(text) => FeedKindView::Banner(text@),
            FeedKind::Notice(text) => FeedKindView::Notice(text@),
            FeedKind::HomeRun { distance } => FeedKindView::HomeRun { distance: *distance },
            FeedKind::Ko { killer, victim } => FeedKindView::Ko { killer: *killer, victim: *victim },
            FeedKind::SelfDestruct { player } => FeedKindView::SelfDestruct { player: *player },
            FeedKind::Damage { player, dealt, total, hits } => FeedKindView::Damage {
                player: *player,
                dealt: *dealt,
                total: *total,
                hits: *hits,
            },
        }
    }
}

/// One row of the feed, with the frame it was last refreshed on.
#[derive(Clone, Debug, PartialEq, Eq)]
pub struct FeedEntry {
    pub born: u64,
    pub kind: FeedKind,
}

pub struct FeedEntryView {
    pub born: u64,
    pub kind: FeedKindView,
}

impl View for FeedEntry {
    type V = FeedEntryView;

    open spec fn view(&self) -> FeedEntryView {
        FeedEntryView { born: self.born, kind: self.kind@ }
    }
}

/// The ticket the collector is working on, shown over the bag.
#[derive(Clone, Debug, PartialEq, Eq)]
pub struct Nameplate {
    pub key: String,
    pub summary: String,
}

/// Everything the heads-up display remembers between frames.
pub struct HudView {
    pub feed: Seq<FeedEntryView>,
    pub nameplate: Option<(Seq<char>, Seq<char>)>,
    pub mode: GameMode,
    pub match_started: Option<u64>,
    pub match_ended: Option<u64>,
    pub kos: Seq<u32>,
    pub falls: Seq<u32>,
}

/// The heads-up display's state: the event feed, the match clock, the
/// knockout tally and the nameplate.
pub struct Hud {
    feed: VecDeque<FeedEntry>,
    nameplate: Option<Nameplate>,
    mode: GameMode,
    match_started: Option<u64>,
    match_ended: Option<u64>,
    kos: [u32; 6],
    falls: [u32; 6],
}

pub open spec fn feed_view(feed: Seq<FeedEntry>) -> Seq<FeedEntryView> {
    feed.map_values(|e: FeedEntry| e@)
}

impl View for Hud {
    type V = HudView;

    closed spec fn view(&self) -> HudView {
        HudView {
            feed: feed_view(self.feed@),
            nameplate: match self.nameplate {
                Some(p) => Some((p.key@, p.summary@)),
                None => None,
            },
            mode: self.mode,
            match_started: self.match_started,
            match_ended: self.match_ended,
            kos: self.kos@,
            falls: self.falls@,
        }
    }
}

/// The display before anything happened.
pub open spec fn fresh_hud() -> HudView {
    HudView {
        feed: seq![],
        nameplate: None,
        mode: GameMode::Title,
        match_started: None,
        match_ended: None,
        kos: seq![0u32, 0u32, 0u32, 0u32, 0u32, 0u32],
        falls: seq![0u32, 0u32, 0u32, 0u32, 0u32, 0u32],
    }
}

/// A display state the display can be in: a bounded feed and one tally per
/// slot.
pub open spec fn well_formed(h: HudView) -> bool {
    h.feed.len() <= FEED_CAPACITY && h.kos.len() == PLAYER_SLOTS && h.falls.len() == PLAYER_SLOTS
}

/// `feed` with a row added at the back, the oldest dropped when it overflows.
pub open spec fn pushed_feed(feed: Seq<FeedEntryView>, frame: u64, kind: FeedKindView) -> Seq<FeedEntryView> {
    let longer = feed.push(FeedEntryView { born: frame, kind });
    if longer.len() > FEED_CAPACITY {
        longer.drop_first()
    } else {
        longer
    }
}

pub open spec fn pushed(h: HudView, frame: u64, kind: FeedKindView) -> HudView {
    HudView { feed: pushed_feed(h.feed, frame, kind), ..h }
}

/// `counts` with one more for `player`, if it names a slot.
pub open spec fn bumped(counts: Seq<u32>, player: u8) -> Seq<u32> {
    match spec_slot_index(player) {
        Some(slot) => counts.update(slot as int, counts[slot as int].wrapping_add(1)),
        None => counts,
    }
}

/// Whether `e` is a damage row for `player` still open for more hits at `frame`.
pub open spec fn open_combo(e: FeedEntryView, player: u8, frame: u64) -> bool {
    e.kind matches FeedKindView::Damage { player: hit, .. } && hit == player
        && frame.saturating_sub(e.born) <= COMBO_WINDOW
}

/// The newest of the first `n` rows that is an open combo for `player`.
pub open spec fn combo_row(feed: Seq<FeedEntryView>, player: u8, frame: u64, n: int) -> Option<int>
    decreases n,
{
    if n <= 0 {
        None
    } else if open_combo(feed[n - 1], player, frame) {
        Some(n - 1)
    } else {
        combo_row(feed, player, frame, n - 1)
    }
}

/// The display after `e` at `frame`.
pub open spec fn ingested(h: HudView, frame: u64, e: EventView) -> HudView {
    match e {
        EventView::ModeChange { to, .. } => HudView { mode: to, ..h },
        EventView::SceneChange { .. } => h,
        EventView::StockLost { .. } => h,
        EventView::MatchStart { .. } => pushed(
            HudView {
                match_started: Some(frame),
                match_ended: None,
                kos: seq![0u32, 0u32, 0u32, 0u32, 0u32, 0u32],
                falls: seq![0u32, 0u32, 0u32, 0u32, 0u32, 0u32],
                ..h
            },
            frame,
            FeedKindView::Banner(match_start_text()),
        ),
        EventView::HomeRunResult { distance } => pushed(h, frame, FeedKindView::HomeRun { distance }),
        EventView::MatchEnd => pushed(
            HudView { match_ended: Some(frame), ..h },
            frame,
            FeedKindView::Banner(match_end_text()),
        ),
        EventView::Ko { killer, victim } => pushed(
            HudView { kos: bumped(h.kos, killer), falls: bumped(h.falls, victim), ..h },
            frame,
            FeedKindView::Ko { killer, victim },
        ),
        EventView::SelfDestruct { player } => pushed(
            HudView { falls: bumped(h.falls, player), ..h },
            frame,
            FeedKindView::SelfDestruct { player },
        ),
        EventView::Damage { player, from, to } => {
            if to <= from {
                h
            } else {
                match combo_row(h.feed, player, frame, h.feed.len() as int) {
                    Some(j) => match h.feed[j].kind {
                        FeedKindView::Damage { dealt, hits, .. } => HudView {
                            feed: h.feed.update(
                                j,
                                FeedEntryView {
                                    born: frame,
                                    kind: FeedKindView::Damage {
                                        player,
                                        dealt: dealt.wrapping_add(to.wrapping_sub(from)),
                                        total: to,
                                        hits: hits.wrapping_add(1),
                                    },
                                },
                            ),
                            ..h
                        },
                        _ => h,
                    },
                    None => pushed(
                        h,
                        frame,
                        FeedKindView::Damage { player, dealt: to.wrapping_sub(from), total: to, hits: 1 },
                    ),
                }
            }
        },
    }
}

pub open spec fn match_start_text() -> Seq<char> {
    seq!['M', 'A', 'T', 'C', 'H', ' ', 'S', 'T', 'A', 'R', 'T']
}

pub open spec fn match_end_text() -> Seq<char> {
    seq!['M', 'A', 'T', 'C', 'H', ' ', 'E', 'N', 'D']
}

/// Whether a row born at `born` is still up at `frame`.
pub open spec fn alive(born: u64, frame: u64) -> bool {
    frame.saturating_sub(born) < FEED_LIFETIME
}

/// The rows of `feed` still up at `frame`.
pub open spec fn unexpired(feed: Seq<FeedEntryView>, frame: u64) -> Seq<FeedEntryView>
    decreases feed.len(),
{
    if feed.len() == 0 {
        seq![]
    } else {
        let earlier = unexpired(feed.drop_last(), frame);
        if alive(feed.last().born, frame) {
            earlier.push(feed.last())
        } else {
            earlier
        }
    }
}

proof fn lemma_unexpired_len(feed: Seq<FeedEntryView>, frame: u64)
    ensures
        unexpired(feed, frame).len() <= feed.len(),
    decreases feed.len(),
{
    if feed.len() > 0 {
        lemma_unexpired_len(feed.drop_last(), frame);
    }
}

fn feed_text(text: &str) -> (s: String)
    ensures
        s@ == text@,
{
    let mut s = String::new();
    push_str(&mut s, text);
    s
}

impl Hud {
    #[verifier::type_invariant]
    spec fn bounded(self) -> bool {
        self.feed@.len() <= FEED_CAPACITY
    }

    pub fn new() -> (h: Hud)
        ensures
            h@ == fresh_hud(),
            well_formed(h@),
    {
        let h = Hud {
            feed: VecDeque::new(),
            nameplate: None,
            mode: GameMode::Title,
            match_started: None,
            match_ended: None,
            kos: [0, 0, 0, 0, 0, 0],
            falls: [0, 0, 0, 0, 0, 0],
        };
        assert(h@.feed =~= seq![]);
        h
    }

    fn push(&mut self, frame: u64, kind: FeedKind)
        ensures
            final(self)@ == pushed(old(self)@, frame, kind@),
    {
        proof {
            use_type_invariant(&*self);
        }
        let mut feed: VecDeque<FeedEntry> = VecDeque::new();
        std::mem::swap(&mut feed, &mut self.feed);
        let ghost before = feed@;
        let entry = FeedEntry { born: frame, kind };
        feed.push_back(entry);
        assert(feed_view(feed@) =~= feed_view(before).push(entry@));
        if feed.len() > FEED_CAPACITY {
            let _ = feed.pop_front();
            assert(feed_view(feed@) =~= feed_view(before.push(entry)).drop_first());
        }
        self.feed = feed;
    }
}


fn bump(counts: [u32; 6], player: u8) -> (r: [u32; 6])
    ensures
        r@ == bumped(counts@, player),
{
    let mut r = counts;
    if let Some(slot) = slot_index(player) {
        r[slot] = r[slot].wrapping_add(1);
    }
    assert(r@ =~= bumped(counts@, player));
    r
}

impl Hud {
    /// Takes in one event from the tracker: modes and match boundaries are
    /// remembered, knockouts tallied, and what is worth showing becomes a
    /// feed row. A hit on a player who took another hit within the combo
    /// window adds to that row and refreshes it instead.
    pub fn ingest(&mut self, frame: u64, event: &Event)
        ensures
            final(self)@ == ingested(old(self)@, frame, event@),
            well_formed(final(self)@),
    {
        proof {
            use_type_invariant(&*self);
        }
        let kind = match event {
            Event::ModeChange { to, .. } => {
                self.mode = *to;
                return;
            },
            Event::SceneChange { .. } => {
                return;
            },
            Event::StockLost { .. } => {
                return;
            },
            Event::MatchStart { .. } => {
                self.match_started = Some(frame);
                self.match_ended = None;
                self.kos = [0, 0, 0, 0, 0, 0];
                self.falls = [0, 0, 0, 0, 0, 0];
                proof {
                    reveal_strlit("MATCH START");
                }
                assert("MATCH START"@ == match_start_text());
                FeedKind::Banner("MATCH START")
            },
            Event::HomeRunResult { distance } => FeedKind::HomeRun { distance: *distance },
            Event::MatchEnd => {
                self.match_ended = Some(frame);
                proof {
                    reveal_strlit("MATCH END");
                }
                assert("MATCH END"@ == match_end_text());
                FeedKind::Banner("MATCH END")
            },
            Event::Ko { killer, victim } => {
                self.kos = bump(self.kos, *killer);
                self.falls = bump(self.falls, *victim);
                FeedKind::Ko { killer: *killer, victim: *victim }
            },
            Event::SelfDestruct { player } => {
                self.falls = bump(self.falls, *player);
                FeedKind::SelfDestruct { player: *player }
            },
            Event::Damage { player, from, to } => {
                let (player, from, to) = (*player, *from, *to);
                if to <= from {
                    return;
                }
                if self.merge_hit(frame, player, from, to) {
                    return;
                }
                FeedKind::Damage { player, dealt: to.wrapping_sub(from), total: to, hits: 1 }
            },
        };
        self.push(frame, kind);
    }

    /// Adds a hit to the newest open combo row of `player`, if there is one.
    fn merge_hit(&mut self, frame: u64, player: u8, from: i32, to: i32) -> (merged: bool)
        requires
            from < to,
        ensures
            merged == (combo_row(old(self)@.feed, player, frame, old(self)@.feed.len() as int) is Some),
            merged ==> final(self)@ == ingested(old(self)@, frame, EventView::Damage { player, from, to }),
            !merged ==> final(self)@ == old(self)@,
            well_formed(final(self)@),
    {
        proof {
            use_type_invariant(&*self);
        }
        let ghost start = self@;
        assert(start == old(self)@);
        let mut j = self.feed.len();
        assert(start.feed.len() == j);
        while j > 0
            invariant
                j <= self.feed@.len(),
                self.feed@.len() <= FEED_CAPACITY,
                self@ == start,
                start == old(self)@,
                from < to,
                feed_view(self.feed@) == start.feed,
                combo_row(start.feed, player, frame, start.feed.len() as int)
                    == combo_row(start.feed, player, frame, j as int),
            decreases j,
        {
            let entry = &self.feed[j - 1];
            assert(start.feed[j - 1] == entry@);
            if let FeedKind::Damage { player: hit, dealt, total: _, hits } = &entry.kind {
                if *hit == player && frame.saturating_sub(entry.born) <= COMBO_WINDOW {
                    assert(open_combo(start.feed[j - 1], player, frame));
                    assert(combo_row(start.feed, player, frame, j as int) == Some(j - 1));
                    let updated = FeedEntry {
                        born: frame,
                        kind: FeedKind::Damage {
                            player,
                            dealt: dealt.wrapping_add(to.wrapping_sub(from)),
                            total: to,
                            hits: hits.wrapping_add(1),
                        },
                    };
                    let mut feed: VecDeque<FeedEntry> = VecDeque::new();
                    std::mem::swap(&mut feed, &mut self.feed);
                    let ghost before = feed@;
                    let _ = feed.remove(j - 1);
                    feed.insert(j - 1, updated);
                    assert(feed@ =~= before.update(j - 1, updated));
                    assert(feed_view(feed@) =~= feed_view(before).update(j - 1, updated@));
                    self.feed = feed;
                    assert(combo_row(old(self)@.feed, player, frame, old(self)@.feed.len() as int) is Some);
                    return true;
                }
            }
            j -= 1;
        }
        false
    }

    /// Carries out a command from the collector: a nameplate replaces the one
    /// shown, a notice becomes a feed row.
    pub fn command(&mut self, frame: u64, command: Command)
        ensures
            match command {
                Command::Nameplate { key, summary } => final(self)@ == (HudView {
                    nameplate: Some((key@, summary@)),
                    ..old(self)@
                }),
                Command::Notice { text } => final(self)@ == pushed(
                    old(self)@,
                    frame,
                    FeedKindView::Notice(text@),
                ),
            },
            well_formed(final(self)@),
    {
        proof {
            use_type_invariant(&*self);
        }
        match command {
            Command::Nameplate { key, summary } => {
                self.nameplate = Some(Nameplate { key, summary });
            },
            Command::Notice { text } => self.push(frame, FeedKind::Notice(text)),
        }
    }

    /// Whether the nameplate should be drawn over the bag: there is one and
    /// the game is in Home-Run Contest.
    pub fn wants_bag(&self) -> (r: bool)
        ensures
            r == (self@.nameplate is Some && self@.mode == GameMode::HomeRunContest),
    {
        self.nameplate.is_some() && self.mode == GameMode::HomeRunContest
    }

    /// Drops every row that has been up for its whole lifetime.
    pub fn expire(&mut self, frame: u64)
        ensures
            final(self)@ == (HudView { feed: unexpired(old(self)@.feed, frame), ..old(self)@ }),
            well_formed(final(self)@),
    {
        proof {
            use_type_invariant(&*self);
        }
        let mut feed: VecDeque<FeedEntry> = VecDeque::new();
        std::mem::swap(&mut feed, &mut self.feed);
        let ghost all = feed_view(feed@);
        let mut kept: VecDeque<FeedEntry> = VecDeque::new();
        let mut i: usize = 0;
        while i < feed.len()
            invariant
                i <= feed@.len(),
                all == feed_view(feed@),
                feed_view(kept@) == unexpired(all.take(i as int), frame),
                self.feed@.len() == 0,
            decreases feed@.len() - i,
        {
            let ghost prefix = all.take(i as int);
            assert(all.take(i + 1).drop_last() =~= prefix);
            if frame.saturating_sub(feed[i].born) < FEED_LIFETIME {
                let entry = feed[i].clone_entry();
                kept.push_back(entry);
                assert(feed_view(kept@) =~= unexpired(all.take(i + 1), frame));
            }
            i += 1;
        }
        assert(all.take(feed@.len() as int) =~= all);
        proof {
            lemma_unexpired_len(all, frame);
        }
        self.feed = kept;
    }

    /// Frames since the match started, frozen at its end; `None` before the
    /// first match.
    pub fn match_frames(&self, frame: u64) -> (r: Option<u64>)
        ensures
            r == match self@.match_started {
                None => None,
                Some(started) => Some(
                    match self@.match_ended {
                        Some(ended) => ended,
                        None => frame,
                    }.saturating_sub(started),
                ),
            },
            r == clock(self@, frame),
    {
        let started = self.match_started?;
        Some(self.match_ended.unwrap_or(frame).saturating_sub(started))
    }

    /// Whether a match is under way: one started and has not ended.
    pub fn match_live(&self) -> (b: bool)
        ensures
            b == (self@.match_started is Some && self@.match_ended is None),
            b == live(self@),
    {
        self.match_started.is_some() && self.match_ended.is_none()
    }

    /// The feed, oldest row first.
    pub fn feed(&self) -> (f: &VecDeque<FeedEntry>)
        ensures
            feed_view(f@) == self@.feed,
    {
        &self.feed
    }

    /// The nameplate last received, if any.
    pub fn nameplate(&self) -> (p: Option<&Nameplate>)
        ensures
            match p {
                Some(p) => self@.nameplate == Some((p.key@, p.summary@)),
                None => self@.nameplate is None,
            },
    {
        self.nameplate.as_ref()
    }

    /// The game mode last reported.
    pub fn mode(&self) -> (m: GameMode)
        ensures
            m == self@.mode,
    {
        self.mode
    }

    /// Knockouts scored by each slot this match.
    pub fn kos(&self) -> (k: [u32; 6])
        ensures
            k@ == self@.kos,
    {
        self.kos
    }

    /// Times each slot has fallen this match.
    pub fn falls(&self) -> (k: [u32; 6])
        ensures
            k@ == self@.falls,
    {
        self.falls
    }
}

impl Default for Hud {
    fn default() -> (h: Hud)
        ensures
            h@ == fresh_hud(),
            well_formed(h@),
    {
        Hud::new()
    }
}

impl FeedKind {
    /// A copy of the row's content.
    pub fn clone_kind(&self) -> (k: FeedKind)
        ensures
            k@ == self@,
    {
        match self {
            FeedKind::Banner(text) => FeedKind::Banner(text),
            FeedKind::Notice(text) => FeedKind::Notice(text.clone()),
            FeedKind::HomeRun { distance } => FeedKind::HomeRun { distance: *distance },
            FeedKind::Ko { killer, victim } => FeedKind::Ko { killer: *killer, victim: *victim },
            FeedKind::SelfDestruct { player } => FeedKind::SelfDestruct { player: *player },
            FeedKind::Damage { player, dealt, total, hits } => FeedKind::Damage {
                player: *player,
                dealt: *dealt,
                total: *total,
                hits: *hits,
            },
        }
    }
}

impl FeedEntry {
    /// A copy of the row.
    pub fn clone_entry(&self) -> (e: FeedEntry)
        ensures
            e@ == self@,
    {
        FeedEntry { born: self.born, kind: self.kind.clone_kind() }
    }
}

/// The match clock for `frames` at 60 frames a second: minutes, seconds and
/// hundredths, each at least two digits.
pub open spec fn clock_text(frames: nat) -> Seq<char> {
    let seconds = frames / 60;
    let centis = frames % 60 * 100 / 60;
    two_digits(seconds / 60) + seq![':'] + two_digits(seconds % 60) + seq!['.'] + two_digits(centis)
}

/// Formats a frame count as `MM:SS.CC`.
pub fn match_clock(frames: u64) -> (s: String)
    ensures
        s@ == clock_text(frames as nat),
{
    let centis = frames % 60 * 100 / 60;
    let seconds = frames / 60;
    let mut s = String::new();
    push_two_digits(&mut s, seconds / 60);
    s.push(':');
    push_two_digits(&mut s, seconds % 60);
    s.push('.');
    push_two_digits(&mut s, centis);
    s
}

pub open spec fn home_run_text(distance: Centimeters) -> Seq<char> {
    seq!['H', 'O', 'M', 'E', ' ', 'R', 'U', 'N', ' ', ' '] + feet_text(distance.0 as int) + seq![' ', 'F', 'T']
}

/// The feed row for a home run: the distance in feet as the game shows it.
pub fn home_run_label(distance: Centimeters) -> (s: String)
    ensures
        s@ == home_run_text(distance),
{
    let mut s = String::new();
    proof {
        reveal_strlit("HOME RUN  ");
        reveal_strlit(" FT");
    }
    push_str(&mut s, "HOME RUN  ");
    let feet = distance.feet_as_displayed();
    push_str(&mut s, feet.as_str());
    push_str(&mut s, " FT");
    s
}

/// `text` cut to at most `max_chars` characters: a longer text keeps its
/// first `max_chars - 1` characters, loses the white space they end in, and
/// gets an ellipsis.
pub open spec fn truncated_text(text: Seq<char>, max_chars: nat) -> Seq<char> {
    if text.len() <= max_chars {
        text
    } else {
        let keep = if max_chars >= 1 { max_chars - 1 } else { 0 };
        trim_end(text.take(keep as int)).push('…')
    }
}

/// Shortens `text` to fit `max_chars` characters, cutting between characters.
pub fn truncated(text: &str, max_chars: usize) -> (s: String)
    ensures
        s@ == truncated_text(text@, max_chars as nat),
{
    let chars = chars_of(text);
    if chars.len() <= max_chars {
        return string_of(chars.as_slice());
    }
    let keep = max_chars.saturating_sub(1);
    let kept = slice_chars(chars.as_slice(), 0, keep);
    let n = trim_end_len(kept.as_slice());
    let body = slice_chars(kept.as_slice(), 0, n);
    let mut s = string_of(body.as_slice());
    s.push('…');
    assert(kept@ == text@.take(keep as int));
    s
}

/// The slots among the first `n` that scored a knockout or fell this match,
/// in slot order.
pub open spec fn scorer_slots(kos: Seq<u32>, falls: Seq<u32>, n: int) -> Seq<usize>
    decreases n,
{
    if n <= 0 {
        seq![]
    } else {
        scorer_slots(kos, falls, n - 1) + if kos[n - 1] > 0 || falls[n - 1] > 0 { seq![(n - 1) as usize] } else { seq![] }
    }
}

impl Hud {
    /// The slots the match bar lists: those that scored a knockout or fell
    /// this match, in slot order.
    pub fn scorers(&self) -> (r: Vec<usize>)
        ensures
            r@ == scorer_slots(self@.kos, self@.falls, PLAYER_SLOTS as int),
    {
        let kos = self.kos();
        let falls = self.falls();
        let mut r: Vec<usize> = Vec::new();
        let mut slot: usize = 0;
        while slot < PLAYER_SLOTS
            invariant
                slot <= PLAYER_SLOTS,
                kos@ == self@.kos,
                falls@ == self@.falls,
                r@ == scorer_slots(self@.kos, self@.falls, slot as int),
            decreases PLAYER_SLOTS - slot,
        {
            if kos[slot] > 0 || falls[slot] > 0 {
                r.push(slot);
            }
            slot += 1;
            assert(r@ =~= scorer_slots(self@.kos, self@.falls, slot as int));
        }
        r
    }
}

/// A character of a mode's name as the match bar shows it: letters in
/// capitals, `_` as a space.
pub open spec fn banner_char(c: char) -> char {
    if c == '_' {
        ' '
    } else if 'a' <= c && c <= 'z' {
        ((c as u32) - 32) as char
    } else {
        c
    }
}

/// A mode's name as the match bar shows it.
pub open spec fn mode_banner_text(mode: GameMode) -> Seq<char> {
    mode.spec_name().map_values(|c: char| banner_char(c))
}

/// The game mode's name in capitals with spaces between its words, as the
/// match bar shows it.
pub fn mode_banner(mode: GameMode) -> (s: String)
    ensures
        s@ == mode_banner_text(mode),
{
    let name = chars_of(mode.name());
    let mut s = String::new();
    let mut i: usize = 0;
    while i < name.len()
        invariant
            i <= name@.len(),
            name@ == mode.spec_name(),
            s@ == mode.spec_name().take(i as int).map_values(|c: char| banner_char(c)),
        decreases name@.len() - i,
    {
        let c = name[i];
        let shown = if c == '_' {
            ' '
        } else if 'a' <= c && c <= 'z' {
            let u = ((c as u32) - 32) as u8;
            u as char
        } else {
            c
        };
        s.push(shown);
        i += 1;
        assert(mode.spec_name().take(i as int) =~= mode.spec_name().take(i - 1).push(c));
        assert(s@ =~= mode.spec_name().take(i as int).map_values(|c: char| banner_char(c)));
    }
    assert(mode.spec_name().take(i as int) =~= mode.spec_name());
    s
}

/// A player's tag: `P` and the player's number.
pub open spec fn player_tag_text(player: nat) -> Seq<char> {
    seq!['P'] + decimal(player)
}

/// The tag a chip shows for player number `player`.
pub fn player_tag(player: u8) -> (s: String)
    ensures
        s@ == player_tag_text(player as nat),
{
    let mut s = String::new();
    s.push('P');
    push_decimal(&mut s, player as u64);
    s
}

/// A percentage: the number and `%`.
pub open spec fn percent_text(v: int) -> Seq<char> {
    int_text(v) + seq!['%']
}

/// The damage total a combo row shows.
pub fn percent_label(v: i32) -> (s: String)
    ensures
        s@ == percent_text(v as int),
{
    let mut s = String::new();
    push_int(&mut s, v as i64);
    s.push('%');
    s
}

/// The damage a combo row adds: `+N%`, then `  xH` when it took more than one hit.
pub open spec fn damage_text(dealt: int, hits: nat) -> Seq<char> {
    seq!['+'] + percent_text(dealt) + if hits > 1 { seq![' ', ' ', 'x'] + decimal(hits) } else { seq![] }
}

/// The damage a combo row adds, with its hit count when there was more than one.
pub fn damage_label(dealt: i32, hits: u32) -> (s: String)
    ensures
        s@ == damage_text(dealt as int, hits as nat),
{
    let mut s = String::new();
    s.push('+');
    push_int(&mut s, dealt as i64);
    s.push('%');
    if hits > 1 {
        s.push(' ');
        s.push(' ');
        s.push('x');
        push_decimal(&mut s, hits as u64);
    }
    s
}

/// What the match clock shows at `frame`: frames since the match started,
/// frozen at its end; `None` before the first match.
pub open spec fn clock(h: HudView, frame: u64) -> Option<u64> {
    match h.match_started {
        None => None,
        Some(started) => Some(
            match h.match_ended {
                Some(ended) => ended,
                None => frame,
            }.saturating_sub(started),
        ),
    }
}

/// Whether a match is under way.
pub open spec fn live(h: HudView) -> bool {
    h.match_started is Some && h.match_ended is None
}

/// A match start opens a new match whatever came before, an ended match
/// included: the match is live, its clock counts from the start's frame, and
/// the knockout and fall tallies are back at zero.
pub proof fn a_match_start_restarts_the_clock(h: HudView, start: u64, players: Seq<PlayerInfo>, later: u64)
    ensures
        live(ingested(h, start, EventView::MatchStart { players })),
        clock(ingested(h, start, EventView::MatchStart { players }), later) == Some(later.saturating_sub(start)),
        forall|slot: int| 0 <= slot < PLAYER_SLOTS ==> #[trigger] ingested(h, start, EventView::MatchStart { players }).kos[slot] == 0
            && ingested(h, start, EventView::MatchStart { players }).falls[slot] == 0,
{
}

/// A match end stops the clock at the end's frame: from then on it shows the
/// match's length, whatever frame it is read at, and the match is over.
pub proof fn a_match_end_freezes_the_clock(h: HudView, end: u64, later: u64)
    ensures
        !live(ingested(h, end, EventView::MatchEnd)),
        h.match_started matches Some(started) ==> clock(ingested(h, end, EventView::MatchEnd), later) == Some(end.saturating_sub(started)),
{
}

/// Only a match start or a match end moves the clock: every other event leaves
/// what it shows, and whether a match is live, as they were.
pub proof fn other_events_leave_the_clock_alone(h: HudView, frame: u64, e: EventView, later: u64)
    requires
        !(e is MatchStart),
        !(e is MatchEnd),
    ensures
        clock(ingested(h, frame, e), later) == clock(h, later),
        live(ingested(h, frame, e)) == live(h),
{
}

} // verus!
