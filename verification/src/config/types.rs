//! Types that the binding grammar and the processed configuration share.
//!
//! A type that holds text takes the text's type as a parameter: with `String`
//! it is the executable value, with `Seq<char>` its model.
use vstd::prelude::*;

verus! {

/// Model of a parse result whose value is plain data.
pub open spec fn plain<T>(r: Result<T, String>) -> Result<T, Seq<char>> {
    match r {
        Ok(t) => Ok(t),
        Err(e) => Err(e@),
    }
}

/// Model of a parse result whose value has a model of its own.
pub open spec fn modeled<T: View>(r: Result<T, String>) -> Result<T::V, Seq<char>> {
    match r {
        Ok(t) => Ok(t@),
        Err(e) => Err(e@),
    }
}

/// Model of an optional text.
pub open spec fn opt_text(o: Option<String>) -> Option<Seq<char>> {
    match o {
        Some(s) => Some(s@),
        None => None,
    }
}

/// Exact set of modifiers that a binding asks for.
#[derive(Clone, Copy, Debug, PartialEq, Eq, Hash, Structural)]
pub struct Modifiers {
    pub ctrl: bool,
    pub alt: bool,
    pub shift: bool,
    pub logo: bool,
    pub mod3: bool,
}

/// Modifier state that the keyboard reports.
#[derive(Clone, Copy, Debug, PartialEq, Eq, Structural)]
pub struct ModifiersState {
    pub ctrl: bool,
    pub alt: bool,
    pub shift: bool,
    pub caps_lock: bool,
    pub logo: bool,
    pub num_lock: bool,
    pub iso_level3_shift: bool,
    pub iso_level5_shift: bool,
}

/// No modifier at all.
pub open spec fn no_modifiers() -> Modifiers {
    Modifiers { ctrl: false, alt: false, shift: false, logo: false, mod3: false }
}

/// The modifiers that bindings look at: lock keys and level-3 shift are not
/// among them, and level-5 shift is the third modifier key.
pub open spec fn modifiers_from(state: ModifiersState) -> Modifiers {
    Modifiers {
        ctrl: state.ctrl,
        alt: state.alt,
        shift: state.shift,
        logo: state.logo,
        mod3: state.iso_level5_shift,
    }
}

impl Modifiers {
    /// No modifier at all.
    pub fn empty() -> (r: Modifiers)
        ensures
            r == no_modifiers(),
    {
        Modifiers { ctrl: false, alt: false, shift: false, logo: false, mod3: false }
    }

    /// Is no modifier set?
    pub fn is_empty(&self) -> (r: bool)
        ensures
            r == (*self == no_modifiers()),
    {
        !self.ctrl && !self.alt && !self.shift && !self.logo && !self.mod3
    }

    /// The modifiers that a keyboard state holds.
    pub fn from_state(state: &ModifiersState) -> (r: Modifiers)
        ensures
            r == modifiers_from(*state),
    {
        Modifiers {
            ctrl: state.ctrl,
            alt: state.alt,
            shift: state.shift,
            logo: state.logo,
            mod3: state.iso_level5_shift,
        }
    }
}

/// The key that `mod` stands for in a binding.
#[derive(Clone, Copy, Debug, PartialEq, Eq, Structural)]
pub enum ModKey {
    Alt,
    Super,
    Mod3,
}

/// `m` with the modifier that `mod` stands for.
pub open spec fn with_mod(m: Modifiers, mod_key: ModKey) -> Modifiers {
    match mod_key {
        ModKey::Alt => Modifiers { alt: true, ..m },
        ModKey::Super => Modifiers { logo: true, ..m },
        ModKey::Mod3 => Modifiers { mod3: true, ..m },
    }
}

impl ModKey {
    /// The modifier set of the bare mod key.
    pub fn base(self) -> (r: Modifiers)
        ensures
            r == with_mod(no_modifiers(), self),
    {
        let mut m: Modifiers = Modifiers::empty();
        match self {
            ModKey::Alt => {
                m.alt = true;
            },
            ModKey::Super => {
                m.logo = true;
            },
            ModKey::Mod3 => {
                m.mod3 = true;
            },
        }
        m
    }
}

/// A key symbol.
#[derive(Clone, Copy, Debug, PartialEq, Eq, Hash, Structural)]
pub struct Keysym {
    pub raw: u32,
}

/// A Latin capital letter names the same key as its small letter.
pub open spec fn small_letter(sym: Keysym) -> Keysym {
    if 0x41 <= sym.raw <= 0x5a {
        Keysym { raw: (sym.raw + 0x20) as u32 }
    } else {
        sym
    }
}

#[derive(Clone, Copy, Debug, PartialEq, Eq, Hash, Structural)]
pub struct KeyCombo {
    pub modifiers: Modifiers,
    pub sym: Keysym,
}

/// The form under which a combo is stored and looked up.
pub open spec fn normal_combo(c: KeyCombo) -> KeyCombo {
    KeyCombo { modifiers: c.modifiers, sym: small_letter(c.sym) }
}

impl KeyCombo {
    /// Bring the combo into the form under which it is stored and looked up.
    pub fn normalize(&mut self)
        ensures
            *final(self) == normal_combo(*old(self)),
    {
        if 0x41 <= self.sym.raw && self.sym.raw <= 0x5a {
            self.sym = Keysym { raw: self.sym.raw + 0x20 };
        }
    }
}

/// Linux input codes of the three mouse buttons that bindings can name.
pub const BTN_LEFT: u32 = 0x110;

pub const BTN_RIGHT: u32 = 0x111;

pub const BTN_MIDDLE: u32 = 0x112;

#[derive(Clone, Copy, Debug, PartialEq, Eq, Hash, Structural)]
pub enum MouseTrigger {
    Button(u32),
    TrackpadScroll,
    WheelScroll,
    WheelUp,
    WheelDown,
}

#[derive(Clone, Copy, Debug, PartialEq, Eq, Hash, Structural)]
pub struct MouseBinding {
    pub modifiers: Modifiers,
    pub trigger: MouseTrigger,
}

#[derive(Clone, Copy, Debug, PartialEq, Eq, Structural)]
pub enum Direction {
    Up,
    Down,
    Left,
    Right,
    UpLeft,
    UpRight,
    DownLeft,
    DownRight,
}

#[derive(Clone, Copy, Debug, PartialEq, Eq, Structural)]
pub enum LayoutSwitch {
    Next,
    Prev,
    Index(usize),
}

/// What a key, a click or a completed gesture makes the compositor do.
#[derive(Debug, PartialEq, Eq)]
pub enum ActionOf<S> {
    Exec(S),
    ExecTerminal,
    ExecLauncher,
    Spawn(S),
    CloseWindow,
    SuspendWindow,
    NudgeWindow(Direction),
    PanViewport(Direction),
    CenterWindow,
    FocusCenter,
    CenterNearest(Direction),
    CycleWindows { backward: bool },
    HomeToggle,
    GoToBookmark(S),
    SetBookmark(S),
    MoveToBookmark(S),
    ZoomIn,
    ZoomOut,
    ZoomReset,
    ZoomToFit,
    ZoomToFitSnapped,
    ToggleFullscreen,
    FitWindow,
    FitWindowSnapped,
    FillWindow,
    SendToOutput(Direction),
    SendCursorToOutput(Direction),
    TogglePinToScreen,
    SwitchLayout(LayoutSwitch),
    ReloadConfig,
    ToggleCursorPan,
    Quit,
}

pub type Action = ActionOf<String>;

/// Model of an action.
pub type ActionModel = ActionOf<Seq<char>>;

impl View for ActionOf<String> {
    type V = ActionOf<Seq<char>>;

    open spec fn view(&self) -> ActionOf<Seq<char>> {
        match *self {
            ActionOf::Exec(s) => ActionOf::Exec(s@),
            ActionOf::ExecTerminal => ActionOf::ExecTerminal,
            ActionOf::ExecLauncher => ActionOf::ExecLauncher,
            ActionOf::Spawn(s) => ActionOf::Spawn(s@),
            ActionOf::CloseWindow => ActionOf::CloseWindow,
            ActionOf::SuspendWindow => ActionOf::SuspendWindow,
            ActionOf::NudgeWindow(d) => ActionOf::NudgeWindow(d),
            ActionOf::PanViewport(d) => ActionOf::PanViewport(d),
            ActionOf::CenterWindow => ActionOf::CenterWindow,
            ActionOf::FocusCenter => ActionOf::FocusCenter,
            ActionOf::CenterNearest(d) => ActionOf::CenterNearest(d),
            ActionOf::CycleWindows { backward } => ActionOf::CycleWindows { backward },
            ActionOf::HomeToggle => ActionOf::HomeToggle,
            ActionOf::GoToBookmark(s) => ActionOf::GoToBookmark(s@),
            ActionOf::SetBookmark(s) => ActionOf::SetBookmark(s@),
            ActionOf::MoveToBookmark(s) => ActionOf::MoveToBookmark(s@),
            ActionOf::ZoomIn => ActionOf::ZoomIn,
            ActionOf::ZoomOut => ActionOf::ZoomOut,
            ActionOf::ZoomReset => ActionOf::ZoomReset,
            ActionOf::ZoomToFit => ActionOf::ZoomToFit,
            ActionOf::ZoomToFitSnapped => ActionOf::ZoomToFitSnapped,
            ActionOf::ToggleFullscreen => ActionOf::ToggleFullscreen,
            ActionOf::FitWindow => ActionOf::FitWindow,
            ActionOf::FitWindowSnapped => ActionOf::FitWindowSnapped,
            ActionOf::FillWindow => ActionOf::FillWindow,
            ActionOf::SendToOutput(d) => ActionOf::SendToOutput(d),
            ActionOf::SendCursorToOutput(d) => ActionOf::SendCursorToOutput(d),
            ActionOf::TogglePinToScreen => ActionOf::TogglePinToScreen,
            ActionOf::SwitchLayout(l) => ActionOf::SwitchLayout(l),
            ActionOf::ReloadConfig => ActionOf::ReloadConfig,
            ActionOf::ToggleCursorPan => ActionOf::ToggleCursorPan,
            ActionOf::Quit => ActionOf::Quit,
        }
    }
}

/// What a mouse binding does.
#[derive(Debug, PartialEq, Eq)]
pub enum MouseActionOf<S> {
    MoveWindow,
    MoveSnappedWindows,
    ResizeWindow,
    ResizeWindowSnapped,
    PanViewport,
    Zoom,
    CenterNearest,
    Action(ActionOf<S>),
}

pub type MouseAction = MouseActionOf<String>;

impl View for MouseActionOf<String> {
    type V = MouseActionOf<Seq<char>>;

    open spec fn view(&self) -> MouseActionOf<Seq<char>> {
        match *self {
            MouseActionOf::MoveWindow => MouseActionOf::MoveWindow,
            MouseActionOf::MoveSnappedWindows => MouseActionOf::MoveSnappedWindows,
            MouseActionOf::ResizeWindow => MouseActionOf::ResizeWindow,
            MouseActionOf::ResizeWindowSnapped => MouseActionOf::ResizeWindowSnapped,
            MouseActionOf::PanViewport => MouseActionOf::PanViewport,
            MouseActionOf::Zoom => MouseActionOf::Zoom,
            MouseActionOf::CenterNearest => MouseActionOf::CenterNearest,
            MouseActionOf::Action(a) => MouseActionOf::Action(a@),
        }
    }
}

/// A trackpad or touchscreen gesture with its finger count.
#[derive(Clone, Copy, Debug, PartialEq, Eq, Hash, Structural)]
pub enum GestureTrigger {
    Swipe { fingers: u32 },
    SwipeUp { fingers: u32 },
    SwipeDown { fingers: u32 },
    SwipeLeft { fingers: u32 },
    SwipeRight { fingers: u32 },
    DoubletapSwipe { fingers: u32 },
    HoldSwipe { fingers: u32 },
    DoubletapHoldSwipe { fingers: u32 },
    Pinch { fingers: u32 },
    PinchIn { fingers: u32 },
    PinchOut { fingers: u32 },
    Hold { fingers: u32 },
    Tap { fingers: u32 },
    Doubletap { fingers: u32 },
}

#[derive(Clone, Copy, Debug, PartialEq, Eq, Hash, Structural)]
pub struct GestureBinding {
    pub modifiers: Modifiers,
    pub trigger: GestureTrigger,
}

/// An action that follows the fingers frame by frame.
#[derive(Clone, Copy, Debug, PartialEq, Eq, Structural)]
pub enum ContinuousAction {
    PanViewport,
    Zoom,
    MoveWindow,
    MoveSnappedWindows,
    ResizeWindow,
    ResizeWindowSnapped,
}

/// An action that fires once when a gesture passes its threshold.
#[derive(Debug, PartialEq, Eq)]
pub enum ThresholdActionOf<S> {
    CenterNearest,
    Fixed(ActionOf<S>),
}

pub type ThresholdAction = ThresholdActionOf<String>;

impl View for ThresholdActionOf<String> {
    type V = ThresholdActionOf<Seq<char>>;

    open spec fn view(&self) -> ThresholdActionOf<Seq<char>> {
        match *self {
            ThresholdActionOf::CenterNearest => ThresholdActionOf::CenterNearest,
            ThresholdActionOf::Fixed(a) => ThresholdActionOf::Fixed(a@),
        }
    }
}

#[derive(Debug, PartialEq, Eq)]
pub enum GestureConfigEntryOf<S> {
    Continuous(ContinuousAction),
    Threshold(ThresholdActionOf<S>),
}

pub type GestureConfigEntry = GestureConfigEntryOf<String>;

impl View for GestureConfigEntryOf<String> {
    type V = GestureConfigEntryOf<Seq<char>>;

    open spec fn view(&self) -> GestureConfigEntryOf<Seq<char>> {
        match *self {
            GestureConfigEntryOf::Continuous(c) => GestureConfigEntryOf::Continuous(c),
            GestureConfigEntryOf::Threshold(t) => GestureConfigEntryOf::Threshold(t@),
        }
    }
}

/// Does an action move the view or the windows, so that a fullscreen window has
/// to be restored first?
pub open spec fn ends_fullscreen<S>(a: ActionOf<S>) -> bool {
    match a {
        ActionOf::NudgeWindow(_)
        | ActionOf::PanViewport(_)
        | ActionOf::CenterWindow
        | ActionOf::FocusCenter
        | ActionOf::CenterNearest(_)
        | ActionOf::CycleWindows { .. }
        | ActionOf::HomeToggle
        | ActionOf::GoToBookmark(_)
        | ActionOf::MoveToBookmark(_)
        | ActionOf::ZoomIn
        | ActionOf::ZoomOut
        | ActionOf::ZoomReset
        | ActionOf::ZoomToFit
        | ActionOf::ZoomToFitSnapped
        | ActionOf::FitWindow
        | ActionOf::FitWindowSnapped
        | ActionOf::FillWindow
        | ActionOf::SendToOutput(_) => true,
        _ => false,
    }
}

/// Does a threshold action end fullscreen?
pub open spec fn threshold_ends_fullscreen<S>(a: ThresholdActionOf<S>) -> bool {
    match a {
        ThresholdActionOf::CenterNearest => true,
        ThresholdActionOf::Fixed(a) => ends_fullscreen(a),
    }
}

impl ActionOf<String> {
    /// Does the action move the view or the windows, so that a fullscreen
    /// window has to be restored first?
    pub fn ends_fullscreen(&self) -> (r: bool)
        ensures
            r == ends_fullscreen(self@),
    {
        match self {
            ActionOf::NudgeWindow(_)
            | ActionOf::PanViewport(_)
            | ActionOf::CenterWindow
            | ActionOf::FocusCenter
            | ActionOf::CenterNearest(_)
            | ActionOf::CycleWindows { .. }
            | ActionOf::HomeToggle
            | ActionOf::GoToBookmark(_)
            | ActionOf::MoveToBookmark(_)
            | ActionOf::ZoomIn
            | ActionOf::ZoomOut
            | ActionOf::ZoomReset
            | ActionOf::ZoomToFit
            | ActionOf::ZoomToFitSnapped
            | ActionOf::FitWindow
            | ActionOf::FitWindowSnapped
            | ActionOf::FillWindow
            | ActionOf::SendToOutput(_) => true,
            _ => false,
        }
    }

    /// A copy of the action.
    pub fn duplicate(&self) -> (r: Action)
        ensures
            r@ == self@,
    {
        match self {
            ActionOf::Exec(s) => ActionOf::Exec(s.clone()),
            ActionOf::ExecTerminal => ActionOf::ExecTerminal,
            ActionOf::ExecLauncher => ActionOf::ExecLauncher,
            ActionOf::Spawn(s) => ActionOf::Spawn(s.clone()),
            ActionOf::CloseWindow => ActionOf::CloseWindow,
            ActionOf::SuspendWindow => ActionOf::SuspendWindow,
            ActionOf::NudgeWindow(d) => ActionOf::NudgeWindow(*d),
            ActionOf::PanViewport(d) => ActionOf::PanViewport(*d),
            ActionOf::CenterWindow => ActionOf::CenterWindow,
            ActionOf::FocusCenter => ActionOf::FocusCenter,
            ActionOf::CenterNearest(d) => ActionOf::CenterNearest(*d),
            ActionOf::CycleWindows { backward } => ActionOf::CycleWindows { backward: *backward },
            ActionOf::HomeToggle => ActionOf::HomeToggle,
            ActionOf::GoToBookmark(s) => ActionOf::GoToBookmark(s.clone()),
            ActionOf::SetBookmark(s) => ActionOf::SetBookmark(s.clone()),
            ActionOf::MoveToBookmark(s) => ActionOf::MoveToBookmark(s.clone()),
            ActionOf::ZoomIn => ActionOf::ZoomIn,
            ActionOf::ZoomOut => ActionOf::ZoomOut,
            ActionOf::ZoomReset => ActionOf::ZoomReset,
            ActionOf::ZoomToFit => ActionOf::ZoomToFit,
            ActionOf::ZoomToFitSnapped => ActionOf::ZoomToFitSnapped,
            ActionOf::ToggleFullscreen => ActionOf::ToggleFullscreen,
            ActionOf::FitWindow => ActionOf::FitWindow,
            ActionOf::FitWindowSnapped => ActionOf::FitWindowSnapped,
            ActionOf::FillWindow => ActionOf::FillWindow,
            ActionOf::SendToOutput(d) => ActionOf::SendToOutput(*d),
            ActionOf::SendCursorToOutput(d) => ActionOf::SendCursorToOutput(*d),
            ActionOf::TogglePinToScreen => ActionOf::TogglePinToScreen,
            ActionOf::SwitchLayout(d) => ActionOf::SwitchLayout(*d),
            ActionOf::ReloadConfig => ActionOf::ReloadConfig,
            ActionOf::ToggleCursorPan => ActionOf::ToggleCursorPan,
            ActionOf::Quit => ActionOf::Quit,
        }
    }
}

impl ThresholdActionOf<String> {
    /// Does the action end fullscreen when it fires?
    pub fn ends_fullscreen(&self) -> (r: bool)
        ensures
            r == threshold_ends_fullscreen(self@),
    {
        match self {
            ThresholdActionOf::CenterNearest => true,
            ThresholdActionOf::Fixed(a) => a.ends_fullscreen(),
        }
    }

    /// A copy of the action.
    pub fn duplicate(&self) -> (r: ThresholdAction)
        ensures
            r@ == self@,
    {
        match self {
            ThresholdActionOf::CenterNearest => ThresholdActionOf::CenterNearest,
            ThresholdActionOf::Fixed(a) => ThresholdActionOf::Fixed(a.duplicate()),
        }
    }
}

impl GestureConfigEntryOf<String> {
    /// A copy of the entry.
    pub fn duplicate(&self) -> (r: GestureConfigEntry)
        ensures
            r@ == self@,
    {
        match self {
            GestureConfigEntryOf::Continuous(c) => GestureConfigEntryOf::Continuous(*c),
            GestureConfigEntryOf::Threshold(t) => GestureConfigEntryOf::Threshold(t.duplicate()),
        }
    }
}

} // verus!
