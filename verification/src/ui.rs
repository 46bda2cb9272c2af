use vstd::prelude::*;

verus! {

/// A menu action read from the controller while the pad drives the menu.
#[derive(Clone, Copy, Debug, PartialEq, Eq, Structural)]
pub enum NavAction {
    Up,
    Down,
    Left,
    Right,
    Activate,
    Back,
}

/// A key the menu understands.
#[derive(Clone, Copy, Debug, PartialEq, Eq, Structural)]
pub enum NavKey {
    Enter,
    Tab,
    ArrowUp,
    ArrowDown,
    ArrowLeft,
    ArrowRight,
}

/// A key going down or coming up.
#[derive(Clone, Copy, Debug, PartialEq, Eq, Structural)]
pub struct KeyPress {
    pub key: NavKey,
    pub pressed: bool,
}

/// The action the game's code `raw` stands for, in the order the game numbers
/// them.
pub open spec fn spec_nav_from_raw(raw: u32) -> Option<NavAction> {
    if raw == 0 {
        Some(NavAction::Up)
    } else if raw == 1 {
        Some(NavAction::Down)
    } else if raw == 2 {
        Some(NavAction::Left)
    } else if raw == 3 {
        Some(NavAction::Right)
    } else if raw == 4 {
        Some(NavAction::Activate)
    } else if raw == 5 {
        Some(NavAction::Back)
    } else {
        None
    }
}

/// The key an action presses: none for `Back`, Enter to activate, Tab for a
/// direction while no widget has focus, else the arrow.
pub open spec fn spec_nav_key(a: NavAction, has_focus: bool) -> Option<NavKey> {
    match a {
        NavAction::Back => None,
        NavAction::Activate => Some(NavKey::Enter),
        _ => if !has_focus {
            Some(NavKey::Tab)
        } else {
            match a {
                NavAction::Up => Some(NavKey::ArrowUp),
                NavAction::Down => Some(NavKey::ArrowDown),
                NavAction::Left => Some(NavKey::ArrowLeft),
                _ => Some(NavKey::ArrowRight),
            }
        },
    }
}

impl NavAction {
    pub fn from_raw(raw: u32) -> (r: Option<NavAction>)
        ensures
            r == spec_nav_from_raw(raw),
    {
        match raw {
            0 => Some(NavAction::Up),
            1 => Some(NavAction::Down),
            2 => Some(NavAction::Left),
            3 => Some(NavAction::Right),
            4 => Some(NavAction::Activate),
            5 => Some(NavAction::Back),
            _ => None,
        }
    }

    pub fn key(self, has_focus: bool) -> (r: Option<NavKey>)
        ensures
            r == spec_nav_key(self, has_focus),
    {
        match self {
            NavAction::Back => None,
            NavAction::Activate => Some(NavKey::Enter),
            _ => if !has_focus {
                Some(NavKey::Tab)
            } else {
                match self {
                    NavAction::Up => Some(NavKey::ArrowUp),
                    NavAction::Down => Some(NavKey::ArrowDown),
                    NavAction::Left => Some(NavKey::ArrowLeft),
                    _ => Some(NavKey::ArrowRight),
                }
            },
        }
    }
}

/// A key pressed and released again.
pub fn key_tap(key: NavKey) -> (r: [KeyPress; 2])
    ensures
        r[0] == (KeyPress { key, pressed: true }),
        r[1] == (KeyPress { key, pressed: false }),
{
    [KeyPress { key, pressed: true }, KeyPress { key, pressed: false }]
}

/// Input from the game: a pointer event, carried as the caller's `P`, or a
/// menu action from the controller.
pub enum InputEvent<P> {
    Pointer(P),
    Nav(NavAction),
}

/// An event queued for the menu's next frame.
pub enum UiEvent<P> {
    Key(KeyPress),
    Pointer(P),
}

/// What the render side is told after a frame.
#[derive(Clone, Copy, Debug, PartialEq, Eq, Structural)]
pub enum Publish {
    Draw,
    Clear,
    Nothing,
}

/// The game thread's side of the debug menu: what is shown, whether the pad
/// drives the menu, and the input queued for the next frame.
pub struct GameSide<P> {
    pub visible: bool,
    pub overlays: bool,
    pub published: bool,
    pub pad_captured: bool,
    pub events: Vec<UiEvent<P>>,
    pub frame_count: u64,
}

pub struct GameSideView<P> {
    pub visible: bool,
    pub overlays: bool,
    pub published: bool,
    pub pad_captured: bool,
    pub events: Seq<UiEvent<P>>,
    pub frame_count: u64,
}

impl<P> View for GameSide<P> {
    type V = GameSideView<P>;

    open spec fn view(&self) -> GameSideView<P> {
        GameSideView {
            visible: self.visible,
            overlays: self.overlays,
            published: self.published,
            pad_captured: self.pad_captured,
            events: self.events@,
            frame_count: self.frame_count,
        }
    }
}

impl<P> GameSideView<P> {
    /// The pad only drives a menu that is shown, and nothing is queued for a
    /// hidden menu.
    pub open spec fn consistent(self) -> bool {
        &&& self.pad_captured ==> self.visible
        &&& !self.visible ==> self.events.len() == 0
    }

    /// Whether a frame is wanted: the window can be drawn and the menu or the
    /// overlays are on.
    pub open spec fn wants(self, drawable: bool) -> bool {
        drawable && (self.visible || self.overlays)
    }

    /// What the render side is told: draw whenever a frame is wanted, clear
    /// once when the last published frame is no longer wanted.
    pub open spec fn publish_result(self, drawable: bool) -> Publish {
        if self.wants(drawable) {
            Publish::Draw
        } else if self.published {
            Publish::Clear
        } else {
            Publish::Nothing
        }
    }
}

/// The two events of tapping the key an action presses, if it presses one.
pub open spec fn nav_events<P>(a: NavAction, has_focus: bool) -> Seq<UiEvent<P>> {
    match spec_nav_key(a, has_focus) {
        Some(k) => seq![
            UiEvent::Key(KeyPress { key: k, pressed: true }),
            UiEvent::Key(KeyPress { key: k, pressed: false }),
        ],
        None => seq![],
    }
}

/// The state after `event`: controller actions count only while the pad is
/// captured, `Back` releases the pad, any other action taps its key; pointer
/// events reach only a shown menu.
pub open spec fn after_input<P>(s: GameSideView<P>, event: InputEvent<P>, has_focus: bool) -> GameSideView<P> {
    match event {
        InputEvent::Nav(a) => if !s.pad_captured {
            s
        } else if a == NavAction::Back {
            GameSideView { pad_captured: false, ..s }
        } else {
            GameSideView { events: s.events + nav_events(a, has_focus), ..s }
        },
        InputEvent::Pointer(p) => if s.visible {
            GameSideView { events: s.events.push(UiEvent::Pointer(p)), ..s }
        } else {
            s
        },
    }
}

impl<P> Default for GameSide<P> {
    fn default() -> (g: GameSide<P>)
        ensures
            !g.visible && !g.overlays && !g.published && !g.pad_captured,
            g.events@.len() == 0,
            g.frame_count == 0,
    {
        GameSide {
            visible: false,
            overlays: false,
            published: false,
            pad_captured: false,
            events: Vec::new(),
            frame_count: 0,
        }
    }
}

impl<P> GameSide<P> {
    /// Decides what the render side is told for this frame and remembers
    /// whether a frame is now published.
    pub fn publish_action(&mut self, drawable: bool) -> (r: Publish)
        ensures
            r == old(self)@.publish_result(drawable),
            final(self)@ == (GameSideView { published: old(self)@.wants(drawable), ..old(self)@ }),
    {
        let wanted = drawable && (self.visible || self.overlays);
        let action = if wanted {
            Publish::Draw
        } else if self.published {
            Publish::Clear
        } else {
            Publish::Nothing
        };
        self.published = wanted;
        action
    }

    /// Shows or hides the menu; either way the pad is released and queued
    /// input is dropped.
    pub fn toggle_visible(&mut self)
        ensures
            final(self)@ == (GameSideView {
                visible: !old(self).visible,
                pad_captured: false,
                events: Seq::empty(),
                ..old(self)@
            }),
            old(self)@.consistent() ==> final(self)@.consistent(),
    {
        self.visible = !self.visible;
        self.pad_captured = false;
        self.events.clear();
    }

    /// Hands the pad to the menu or gives it back; capturing it opens the menu.
    pub fn toggle_pad_capture(&mut self)
        ensures
            final(self)@ == (GameSideView {
                pad_captured: !old(self).pad_captured,
                visible: old(self).visible || !old(self).pad_captured,
                ..old(self)@
            }),
            old(self)@.consistent() ==> final(self)@.consistent(),
    {
        self.pad_captured = !self.pad_captured;
        self.visible = self.visible || self.pad_captured;
    }

    /// Queues the effect of one input event.
    pub fn push(&mut self, event: InputEvent<P>, has_focus: bool)
        ensures
            final(self)@ == after_input(old(self)@, event, has_focus),
            old(self)@.consistent() ==> final(self)@.consistent(),
    {
        match event {
            InputEvent::Nav(action) => {
                if !self.pad_captured {
                } else if action == NavAction::Back {
                    self.pad_captured = false;
                } else {
                    match action.key(has_focus) {
                        Some(k) => {
                            let taps = key_tap(k);
                            self.events.push(UiEvent::Key(taps[0]));
                            self.events.push(UiEvent::Key(taps[1]));
                            assert(self.events@ =~= old(self).events@ + nav_events(action, has_focus));
                        },
                        None => {
                            assert(self.events@ =~= old(self).events@ + nav_events::<P>(action, has_focus));
                        },
                    }
                }
            },
            InputEvent::Pointer(p) => {
                if self.visible {
                    self.events.push(UiEvent::Pointer(p));
                }
            },
        }
    }
}

/// A frame that was cleared is cleared once: while nothing is wanted the next
/// frame publishes nothing.
pub proof fn clear_is_sent_once<P>(s: GameSideView<P>, first: bool, second: bool)
    requires
        s.publish_result(first) == Publish::Clear,
        !s.wants(second),
    ensures
        (GameSideView { published: s.wants(first), ..s }).publish_result(second) == Publish::Nothing,
{
}

/// The scissor rectangle `[x, y, width, height]` for a clip whose corners
/// land on these pixels, none when it covers no pixel.
pub open spec fn spec_scissor(min_x: u32, min_y: u32, max_x: u32, max_y: u32) -> Option<[u32; 4]> {
    if max_x > min_x && max_y > min_y {
        Some([min_x, min_y, (max_x - min_x) as u32, (max_y - min_y) as u32])
    } else {
        None
    }
}

/// The scissor rectangle for a clip given by its pixel corners, the caller
/// having scaled, rounded and clamped them to the target.
pub fn scissor_from_pixels(min_x: u32, min_y: u32, max_x: u32, max_y: u32) -> (r: Option<[u32; 4]>)
    ensures
        r == spec_scissor(min_x, min_y, max_x, max_y),
{
    if max_x > min_x && max_y > min_y {
        Some([min_x, min_y, max_x - min_x, max_y - min_y])
    } else {
        None
    }
}

} // verus!
