//! Bindings of an empty configuration.
use vstd::prelude::*;

use crate::config::bindings;
use crate::config::bindings::{BindingMap, ContextBindings, ContextOf};
use crate::config::types;
use crate::config::types::{
    Action, ActionOf, ContinuousAction, Direction, GestureBinding, GestureConfigEntry,
    GestureConfigEntryOf, GestureTrigger, KeyCombo, Keysym, ModKey, Modifiers, MouseAction,
    MouseActionOf, MouseBinding, MouseTrigger, ThresholdAction, ThresholdActionOf, BTN_LEFT,
    BTN_MIDDLE, BTN_RIGHT,
};

verus! {

// Raw key symbols of the default bindings.
pub const KEY_RETURN: u32 = 0xff0d;

pub const KEY_D: u32 = 0x0064;

pub const KEY_Q: u32 = 0x0071;

pub const KEY_E: u32 = 0x0065;

pub const KEY_UP: u32 = 0xff52;

pub const KEY_DOWN: u32 = 0xff54;

pub const KEY_LEFT: u32 = 0xff51;

pub const KEY_RIGHT: u32 = 0xff53;

pub const KEY_A: u32 = 0x0061;

pub const KEY_1: u32 = 0x0031;

pub const KEY_2: u32 = 0x0032;

pub const KEY_3: u32 = 0x0033;

pub const KEY_4: u32 = 0x0034;

pub const KEY_C: u32 = 0x0063;

pub const KEY_X: u32 = 0x0078;

pub const KEY_TAB: u32 = 0xff09;

pub const KEY_EQUAL: u32 = 0x003d;

pub const KEY_MINUS: u32 = 0x002d;

pub const KEY_0: u32 = 0x0030;

pub const KEY_Z: u32 = 0x007a;

pub const KEY_W: u32 = 0x0077;

pub const KEY_F: u32 = 0x0066;

pub const KEY_M: u32 = 0x006d;

pub const KEY_T: u32 = 0x0074;

pub const KEY_XF86_AUDIO_RAISE_VOLUME: u32 = 0x1008_ff13;

pub const KEY_XF86_AUDIO_LOWER_VOLUME: u32 = 0x1008_ff11;

pub const KEY_XF86_AUDIO_MUTE: u32 = 0x1008_ff12;

pub const KEY_XF86_MON_BRIGHTNESS_UP: u32 = 0x1008_ff02;

pub const KEY_XF86_MON_BRIGHTNESS_DOWN: u32 = 0x1008_ff03;

pub const KEY_XF86_AUDIO_PLAY: u32 = 0x1008_ff14;

pub const KEY_XF86_AUDIO_PAUSE: u32 = 0x1008_ff31;

pub const KEY_XF86_AUDIO_NEXT: u32 = 0x1008_ff17;

pub const KEY_XF86_AUDIO_PREV: u32 = 0x1008_ff16;

pub const KEY_XF86_AUDIO_STOP: u32 = 0x1008_ff15;

pub const KEY_PRINT: u32 = 0xff61;

pub const KEY_L: u32 = 0x006c;

/// The combo of modifiers and a raw symbol.
pub open spec fn combo(modifiers: Modifiers, raw: u32) -> KeyCombo {
    KeyCombo { modifiers, sym: Keysym { raw } }
}

fn key(modifiers: Modifiers, raw: u32) -> (r: KeyCombo)
    ensures
        r == combo(modifiers, raw),
{
    KeyCombo { modifiers, sym: Keysym { raw } }
}

/// Keys for launching, windows and moving about.
pub open spec fn window_keys(mod_key: ModKey) -> Seq<(KeyCombo, ActionOf<Seq<char>>)> {
    let m = types::with_mod(types::no_modifiers(), mod_key);
    let m_shift = Modifiers { shift: true, ..m };
    let m_ctrl = Modifiers { ctrl: true, ..m };
    seq![
        (combo(m, KEY_RETURN), ActionOf::ExecTerminal),
        (combo(m, KEY_D), ActionOf::ExecLauncher),
        (combo(m, KEY_Q), ActionOf::CloseWindow),
        (combo(m, KEY_E), ActionOf::ToggleCursorPan),
        (combo(m_shift, KEY_UP), ActionOf::NudgeWindow(Direction::Up)),
        (combo(m_shift, KEY_DOWN), ActionOf::NudgeWindow(Direction::Down)),
        (combo(m_shift, KEY_LEFT), ActionOf::NudgeWindow(Direction::Left)),
        (combo(m_shift, KEY_RIGHT), ActionOf::NudgeWindow(Direction::Right)),
        (combo(m_ctrl, KEY_UP), ActionOf::PanViewport(Direction::Up)),
        (combo(m_ctrl, KEY_DOWN), ActionOf::PanViewport(Direction::Down)),
        (combo(m_ctrl, KEY_LEFT), ActionOf::PanViewport(Direction::Left)),
        (combo(m_ctrl, KEY_RIGHT), ActionOf::PanViewport(Direction::Right)),
        (combo(m, KEY_A), ActionOf::HomeToggle),
        (combo(m, KEY_1), ActionOf::GoToBookmark("1"@)),
        (combo(m, KEY_2), ActionOf::GoToBookmark("2"@)),
        (combo(m, KEY_3), ActionOf::GoToBookmark("3"@)),
        (combo(m, KEY_4), ActionOf::GoToBookmark("4"@)),
        (combo(m_shift, KEY_1), ActionOf::SetBookmark("1"@)),
        (combo(m_shift, KEY_2), ActionOf::SetBookmark("2"@)),
        (combo(m_shift, KEY_3), ActionOf::SetBookmark("3"@)),
        (combo(m_shift, KEY_4), ActionOf::SetBookmark("4"@)),
        (combo(m, KEY_C), ActionOf::CenterWindow),
        (combo(m, KEY_X), ActionOf::FocusCenter),
        (combo(m, KEY_UP), ActionOf::CenterNearest(Direction::Up)),
        (combo(m, KEY_DOWN), ActionOf::CenterNearest(Direction::Down)),
        (combo(m, KEY_LEFT), ActionOf::CenterNearest(Direction::Left)),
        (combo(m, KEY_RIGHT), ActionOf::CenterNearest(Direction::Right)),
    ]
}

fn push_window_keys(mod_key: ModKey, v: &mut Vec<(KeyCombo, Action)>)
    ensures
        bindings::entry_models(final(v)@) == bindings::entry_models(old(v)@) + window_keys(mod_key),
{
    let m: Modifiers = mod_key.base();
    let m_shift: Modifiers = Modifiers { shift: true, ..m };
    let m_ctrl: Modifiers = Modifiers { ctrl: true, ..m };
    let ghost before = v@;
    let mut more: Vec<(KeyCombo, Action)> = vec![
        (key(m, KEY_RETURN), Action::ExecTerminal),
        (key(m, KEY_D), Action::ExecLauncher),
        (key(m, KEY_Q), Action::CloseWindow),
        (key(m, KEY_E), Action::ToggleCursorPan),
        (key(m_shift, KEY_UP), Action::NudgeWindow(Direction::Up)),
        (key(m_shift, KEY_DOWN), Action::NudgeWindow(Direction::Down)),
        (key(m_shift, KEY_LEFT), Action::NudgeWindow(Direction::Left)),
        (key(m_shift, KEY_RIGHT), Action::NudgeWindow(Direction::Right)),
        (key(m_ctrl, KEY_UP), Action::PanViewport(Direction::Up)),
        (key(m_ctrl, KEY_DOWN), Action::PanViewport(Direction::Down)),
        (key(m_ctrl, KEY_LEFT), Action::PanViewport(Direction::Left)),
        (key(m_ctrl, KEY_RIGHT), Action::PanViewport(Direction::Right)),
        (key(m, KEY_A), Action::HomeToggle),
        (key(m, KEY_1), Action::GoToBookmark("1".to_owned())),
        (key(m, KEY_2), Action::GoToBookmark("2".to_owned())),
        (key(m, KEY_3), Action::GoToBookmark("3".to_owned())),
        (key(m, KEY_4), Action::GoToBookmark("4".to_owned())),
        (key(m_shift, KEY_1), Action::SetBookmark("1".to_owned())),
        (key(m_shift, KEY_2), Action::SetBookmark("2".to_owned())),
        (key(m_shift, KEY_3), Action::SetBookmark("3".to_owned())),
        (key(m_shift, KEY_4), Action::SetBookmark("4".to_owned())),
        (key(m, KEY_C), Action::CenterWindow),
        (key(m, KEY_X), Action::FocusCenter),
        (key(m, KEY_UP), Action::CenterNearest(Direction::Up)),
        (key(m, KEY_DOWN), Action::CenterNearest(Direction::Down)),
        (key(m, KEY_LEFT), Action::CenterNearest(Direction::Left)),
        (key(m, KEY_RIGHT), Action::CenterNearest(Direction::Right)),
    ];
    proof {
        assert(bindings::entry_models(more@) =~= window_keys(mod_key));
        assert(bindings::entry_models(before + more@) =~= bindings::entry_models(before)
            + bindings::entry_models(more@));
    }
    v.append(&mut more);
}

/// Keys for cycling, zoom and window state.
pub open spec fn view_keys(mod_key: ModKey) -> Seq<(KeyCombo, ActionOf<Seq<char>>)> {
    let m = types::with_mod(types::no_modifiers(), mod_key);
    let none = types::no_modifiers();
    let m_shift = Modifiers { shift: true, ..m };
    let m_ctrl_shift = Modifiers { ctrl: true, shift: true, ..m };
    let cyc = Modifiers { alt: true, ..none };
    let cyc_shift = Modifiers { alt: true, shift: true, ..none };
    seq![
        (combo(cyc, KEY_TAB), ActionOf::CycleWindows { backward: false }),
        (combo(cyc_shift, KEY_TAB), ActionOf::CycleWindows { backward: true }),
        (combo(m, KEY_EQUAL), ActionOf::ZoomIn),
        (combo(m, KEY_MINUS), ActionOf::ZoomOut),
        (combo(m, KEY_0), ActionOf::ZoomReset),
        (combo(m, KEY_Z), ActionOf::ZoomReset),
        (combo(m, KEY_W), ActionOf::ZoomToFit),
        (combo(m_shift, KEY_W), ActionOf::ZoomToFitSnapped),
        (combo(m, KEY_F), ActionOf::ToggleFullscreen),
        (combo(m, KEY_M), ActionOf::FitWindow),
        (combo(m_shift, KEY_M), ActionOf::FitWindowSnapped),
        (combo(m, KEY_T), ActionOf::TogglePinToScreen),
        (combo(m_ctrl_shift, KEY_Q), ActionOf::Quit),
    ]
}

fn push_view_keys(mod_key: ModKey, v: &mut Vec<(KeyCombo, Action)>)
    ensures
        bindings::entry_models(final(v)@) == bindings::entry_models(old(v)@) + view_keys(mod_key),
{
    let m: Modifiers = mod_key.base();
    let none: Modifiers = Modifiers::empty();
    let m_shift: Modifiers = Modifiers { shift: true, ..m };
    let m_ctrl_shift: Modifiers = Modifiers { ctrl: true, shift: true, ..m };
    let cyc: Modifiers = Modifiers { alt: true, ..none };
    let cyc_shift: Modifiers = Modifiers { alt: true, shift: true, ..none };
    let ghost before = v@;
    let mut more: Vec<(KeyCombo, Action)> = vec![
        (key(cyc, KEY_TAB), Action::CycleWindows { backward: false }),
        (key(cyc_shift, KEY_TAB), Action::CycleWindows { backward: true }),
        (key(m, KEY_EQUAL), Action::ZoomIn),
        (key(m, KEY_MINUS), Action::ZoomOut),
        (key(m, KEY_0), Action::ZoomReset),
        (key(m, KEY_Z), Action::ZoomReset),
        (key(m, KEY_W), Action::ZoomToFit),
        (key(m_shift, KEY_W), Action::ZoomToFitSnapped),
        (key(m, KEY_F), Action::ToggleFullscreen),
        (key(m, KEY_M), Action::FitWindow),
        (key(m_shift, KEY_M), Action::FitWindowSnapped),
        (key(m, KEY_T), Action::TogglePinToScreen),
        (key(m_ctrl_shift, KEY_Q), Action::Quit),
    ];
    proof {
        assert(bindings::entry_models(more@) =~= view_keys(mod_key));
        assert(bindings::entry_models(before + more@) =~= bindings::entry_models(before)
            + bindings::entry_models(more@));
    }
    v.append(&mut more);
}

/// Media, screenshot and lock keys; most of them work without a modifier.
pub open spec fn system_keys(mod_key: ModKey) -> Seq<(KeyCombo, ActionOf<Seq<char>>)> {
    let m = types::with_mod(types::no_modifiers(), mod_key);
    let none = types::no_modifiers();
    let shift = Modifiers { shift: true, ..none };
    seq![
        (combo(none, KEY_XF86_AUDIO_RAISE_VOLUME), ActionOf::Spawn("wpctl set-volume @DEFAULT_AUDIO_SINK@ 5%+"@)),
        (combo(none, KEY_XF86_AUDIO_LOWER_VOLUME), ActionOf::Spawn("wpctl set-volume @DEFAULT_AUDIO_SINK@ 5%-"@)),
        (combo(none, KEY_XF86_AUDIO_MUTE), ActionOf::Spawn("wpctl set-mute @DEFAULT_AUDIO_SINK@ toggle"@)),
        (combo(none, KEY_XF86_MON_BRIGHTNESS_UP), ActionOf::Spawn("brightnessctl set +5%"@)),
        (combo(none, KEY_XF86_MON_BRIGHTNESS_DOWN), ActionOf::Spawn("brightnessctl set 5%-"@)),
        (combo(none, KEY_XF86_AUDIO_PLAY), ActionOf::Spawn("playerctl play-pause"@)),
        (combo(none, KEY_XF86_AUDIO_PAUSE), ActionOf::Spawn("playerctl play-pause"@)),
        (combo(none, KEY_XF86_AUDIO_NEXT), ActionOf::Spawn("playerctl next"@)),
        (combo(none, KEY_XF86_AUDIO_PREV), ActionOf::Spawn("playerctl previous"@)),
        (combo(none, KEY_XF86_AUDIO_STOP), ActionOf::Spawn("playerctl stop"@)),
        (combo(none, KEY_PRINT), ActionOf::Spawn("grim - | wl-copy"@)),
        (combo(shift, KEY_PRINT), ActionOf::Spawn("grim -g \"$(slurp -d)\" - | wl-copy"@)),
        (combo(m, KEY_L), ActionOf::Spawn("swaylock -f -c 000000 -kl"@)),
    ]
}

fn push_system_keys(mod_key: ModKey, v: &mut Vec<(KeyCombo, Action)>)
    ensures
        bindings::entry_models(final(v)@) == bindings::entry_models(old(v)@) + system_keys(mod_key),
{
    let m: Modifiers = mod_key.base();
    let none: Modifiers = Modifiers::empty();
    let shift: Modifiers = Modifiers { shift: true, ..none };
    let ghost before = v@;
    let mut more: Vec<(KeyCombo, Action)> = vec![
        (key(none, KEY_XF86_AUDIO_RAISE_VOLUME), Action::Spawn("wpctl set-volume @DEFAULT_AUDIO_SINK@ 5%+".to_owned())),
        (key(none, KEY_XF86_AUDIO_LOWER_VOLUME), Action::Spawn("wpctl set-volume @DEFAULT_AUDIO_SINK@ 5%-".to_owned())),
        (key(none, KEY_XF86_AUDIO_MUTE), Action::Spawn("wpctl set-mute @DEFAULT_AUDIO_SINK@ toggle".to_owned())),
        (key(none, KEY_XF86_MON_BRIGHTNESS_UP), Action::Spawn("brightnessctl set +5%".to_owned())),
        (key(none, KEY_XF86_MON_BRIGHTNESS_DOWN), Action::Spawn("brightnessctl set 5%-".to_owned())),
        (key(none, KEY_XF86_AUDIO_PLAY), Action::Spawn("playerctl play-pause".to_owned())),
        (key(none, KEY_XF86_AUDIO_PAUSE), Action::Spawn("playerctl play-pause".to_owned())),
        (key(none, KEY_XF86_AUDIO_NEXT), Action::Spawn("playerctl next".to_owned())),
        (key(none, KEY_XF86_AUDIO_PREV), Action::Spawn("playerctl previous".to_owned())),
        (key(none, KEY_XF86_AUDIO_STOP), Action::Spawn("playerctl stop".to_owned())),
        (key(none, KEY_PRINT), Action::Spawn("grim - | wl-copy".to_owned())),
        (key(shift, KEY_PRINT), Action::Spawn("grim -g \"$(slurp -d)\" - | wl-copy".to_owned())),
        (key(m, KEY_L), Action::Spawn("swaylock -f -c 000000 -kl".to_owned())),
    ];
    proof {
        assert(bindings::entry_models(more@) =~= system_keys(mod_key));
        assert(bindings::entry_models(before + more@) =~= bindings::entry_models(before)
            + bindings::entry_models(more@));
    }
    v.append(&mut more);
}

/// Keys that send a window to a neighboring output.
pub open spec fn output_keys(mod_key: ModKey) -> Seq<(KeyCombo, ActionOf<Seq<char>>)> {
    let m = types::with_mod(types::no_modifiers(), mod_key);
    let m_alt = Modifiers { alt: true, ..m };
    seq![
        (combo(m_alt, KEY_UP), ActionOf::SendToOutput(Direction::Up)),
        (combo(m_alt, KEY_DOWN), ActionOf::SendToOutput(Direction::Down)),
        (combo(m_alt, KEY_LEFT), ActionOf::SendToOutput(Direction::Left)),
        (combo(m_alt, KEY_RIGHT), ActionOf::SendToOutput(Direction::Right)),
    ]
}

fn push_output_keys(mod_key: ModKey, v: &mut Vec<(KeyCombo, Action)>)
    ensures
        bindings::entry_models(final(v)@) == bindings::entry_models(old(v)@) + output_keys(mod_key),
{
    let m: Modifiers = mod_key.base();
    let m_alt: Modifiers = Modifiers { alt: true, ..m };
    let ghost before = v@;
    let mut more: Vec<(KeyCombo, Action)> = vec![
        (key(m_alt, KEY_UP), Action::SendToOutput(Direction::Up)),
        (key(m_alt, KEY_DOWN), Action::SendToOutput(Direction::Down)),
        (key(m_alt, KEY_LEFT), Action::SendToOutput(Direction::Left)),
        (key(m_alt, KEY_RIGHT), Action::SendToOutput(Direction::Right)),
    ];
    proof {
        assert(bindings::entry_models(more@) =~= output_keys(mod_key));
        assert(bindings::entry_models(before + more@) =~= bindings::entry_models(before)
            + bindings::entry_models(more@));
    }
    v.append(&mut more);
}

/// The default key bindings, in order. Send-to-output keys are left out when
/// Alt is the mod key: they would collapse into the plain Alt bindings.
pub open spec fn default_keys(mod_key: ModKey) -> Seq<(KeyCombo, ActionOf<Seq<char>>)> {
    let base = window_keys(mod_key) + view_keys(mod_key) + system_keys(mod_key);
    if mod_key == ModKey::Alt {
        base
    } else {
        base + output_keys(mod_key)
    }
}

/// The default key bindings.
pub fn default_bindings(mod_key: ModKey) -> (r: Vec<(KeyCombo, Action)>)
    ensures
        bindings::entry_models(r@) == default_keys(mod_key),
{
    let mut v: Vec<(KeyCombo, Action)> = Vec::new();
    proof {
        assert(bindings::entry_models(v@) + window_keys(mod_key) =~= window_keys(mod_key));
    }
    push_window_keys(mod_key, &mut v);
    push_view_keys(mod_key, &mut v);
    push_system_keys(mod_key, &mut v);
    if mod_key != ModKey::Alt {
        push_output_keys(mod_key, &mut v);
    }
    v
}

/// Mouse bindings over a window.
pub open spec fn mouse_on_window(mod_key: ModKey) -> Seq<(MouseBinding, MouseActionOf<Seq<char>>)> {
    let m = types::with_mod(types::no_modifiers(), mod_key);
    let none = types::no_modifiers();
    let alt_only = Modifiers { alt: true, ..none };
    let alt_shift = Modifiers { alt: true, shift: true, ..none };
    seq![
        (MouseBinding { modifiers: alt_only, trigger: MouseTrigger::Button(BTN_LEFT) }, MouseActionOf::MoveWindow),
        (MouseBinding { modifiers: alt_shift, trigger: MouseTrigger::Button(BTN_LEFT) }, MouseActionOf::MoveSnappedWindows),
        (MouseBinding { modifiers: alt_only, trigger: MouseTrigger::Button(BTN_RIGHT) }, MouseActionOf::ResizeWindow),
        (MouseBinding { modifiers: alt_shift, trigger: MouseTrigger::Button(BTN_RIGHT) }, MouseActionOf::ResizeWindowSnapped),
        (MouseBinding { modifiers: alt_only, trigger: MouseTrigger::Button(BTN_MIDDLE) }, MouseActionOf::Action(ActionOf::FitWindow)),
        (MouseBinding { modifiers: alt_shift, trigger: MouseTrigger::Button(BTN_MIDDLE) }, MouseActionOf::Action(ActionOf::FitWindowSnapped)),
        (MouseBinding { modifiers: m, trigger: MouseTrigger::Button(BTN_MIDDLE) }, MouseActionOf::Action(ActionOf::ToggleFullscreen)),
    ]
}

fn list_mouse_on_window(mod_key: ModKey) -> (r: Vec<(MouseBinding, MouseAction)>)
    ensures
        bindings::entry_models(r@) == mouse_on_window(mod_key),
{
    let m: Modifiers = mod_key.base();
    let none: Modifiers = Modifiers::empty();
    let alt_only: Modifiers = Modifiers { alt: true, ..none };
    let alt_shift: Modifiers = Modifiers { alt: true, shift: true, ..none };
    let r: Vec<(MouseBinding, MouseAction)> = vec![
        (MouseBinding { modifiers: alt_only, trigger: MouseTrigger::Button(BTN_LEFT) }, MouseAction::MoveWindow),
        (MouseBinding { modifiers: alt_shift, trigger: MouseTrigger::Button(BTN_LEFT) }, MouseAction::MoveSnappedWindows),
        (MouseBinding { modifiers: alt_only, trigger: MouseTrigger::Button(BTN_RIGHT) }, MouseAction::ResizeWindow),
        (MouseBinding { modifiers: alt_shift, trigger: MouseTrigger::Button(BTN_RIGHT) }, MouseAction::ResizeWindowSnapped),
        (MouseBinding { modifiers: alt_only, trigger: MouseTrigger::Button(BTN_MIDDLE) }, MouseAction::Action(Action::FitWindow)),
        (MouseBinding { modifiers: alt_shift, trigger: MouseTrigger::Button(BTN_MIDDLE) }, MouseAction::Action(Action::FitWindowSnapped)),
        (MouseBinding { modifiers: m, trigger: MouseTrigger::Button(BTN_MIDDLE) }, MouseAction::Action(Action::ToggleFullscreen)),
    ];
    proof {
        assert(bindings::entry_models(r@) =~= mouse_on_window(mod_key));
    }
    r
}

/// Mouse bindings over empty canvas.
pub open spec fn mouse_on_canvas(mod_key: ModKey) -> Seq<(MouseBinding, MouseActionOf<Seq<char>>)> {
    let none = types::no_modifiers();
    seq![
        (MouseBinding { modifiers: none, trigger: MouseTrigger::Button(BTN_LEFT) }, MouseActionOf::PanViewport),
        (MouseBinding { modifiers: none, trigger: MouseTrigger::TrackpadScroll }, MouseActionOf::PanViewport),
        (MouseBinding { modifiers: none, trigger: MouseTrigger::WheelScroll }, MouseActionOf::Zoom),
    ]
}

fn list_mouse_on_canvas(mod_key: ModKey) -> (r: Vec<(MouseBinding, MouseAction)>)
    ensures
        bindings::entry_models(r@) == mouse_on_canvas(mod_key),
{
    let none: Modifiers = Modifiers::empty();
    let r: Vec<(MouseBinding, MouseAction)> = vec![
        (MouseBinding { modifiers: none, trigger: MouseTrigger::Button(BTN_LEFT) }, MouseAction::PanViewport),
        (MouseBinding { modifiers: none, trigger: MouseTrigger::TrackpadScroll }, MouseAction::PanViewport),
        (MouseBinding { modifiers: none, trigger: MouseTrigger::WheelScroll }, MouseAction::Zoom),
    ];
    proof {
        assert(bindings::entry_models(r@) =~= mouse_on_canvas(mod_key));
    }
    r
}

/// Mouse bindings that hold everywhere.
pub open spec fn mouse_anywhere(mod_key: ModKey) -> Seq<(MouseBinding, MouseActionOf<Seq<char>>)> {
    let m = types::with_mod(types::no_modifiers(), mod_key);
    let m_ctrl = Modifiers { ctrl: true, ..m };
    seq![
        (MouseBinding { modifiers: m, trigger: MouseTrigger::Button(BTN_LEFT) }, MouseActionOf::PanViewport),
        (MouseBinding { modifiers: m_ctrl, trigger: MouseTrigger::Button(BTN_LEFT) }, MouseActionOf::CenterNearest),
        (MouseBinding { modifiers: m, trigger: MouseTrigger::TrackpadScroll }, MouseActionOf::PanViewport),
        (MouseBinding { modifiers: m, trigger: MouseTrigger::WheelScroll }, MouseActionOf::Zoom),
    ]
}

fn list_mouse_anywhere(mod_key: ModKey) -> (r: Vec<(MouseBinding, MouseAction)>)
    ensures
        bindings::entry_models(r@) == mouse_anywhere(mod_key),
{
    let m: Modifiers = mod_key.base();
    let m_ctrl: Modifiers = Modifiers { ctrl: true, ..m };
    let r: Vec<(MouseBinding, MouseAction)> = vec![
        (MouseBinding { modifiers: m, trigger: MouseTrigger::Button(BTN_LEFT) }, MouseAction::PanViewport),
        (MouseBinding { modifiers: m_ctrl, trigger: MouseTrigger::Button(BTN_LEFT) }, MouseAction::CenterNearest),
        (MouseBinding { modifiers: m, trigger: MouseTrigger::TrackpadScroll }, MouseAction::PanViewport),
        (MouseBinding { modifiers: m, trigger: MouseTrigger::WheelScroll }, MouseAction::Zoom),
    ];
    proof {
        assert(bindings::entry_models(r@) =~= mouse_anywhere(mod_key));
    }
    r
}

/// The default mouse bindings.
pub open spec fn default_mouse(mod_key: ModKey) -> ContextOf<Seq<(MouseBinding, MouseActionOf<Seq<char>>)>> {
    ContextOf {
        on_window: bindings::bind_all(Seq::empty(), mouse_on_window(mod_key)),
        on_canvas: bindings::bind_all(Seq::empty(), mouse_on_canvas(mod_key)),
        anywhere: bindings::bind_all(Seq::empty(), mouse_anywhere(mod_key)),
    }
}

/// The default mouse bindings.
pub fn default_mouse_bindings(mod_key: ModKey) -> (r: ContextBindings<MouseBinding, MouseAction>)
    ensures
        r@ == default_mouse(mod_key),
        bindings::contexts_distinct(r@),
{
    ContextOf {
        on_window: BindingMap::collect(list_mouse_on_window(mod_key)),
        on_canvas: BindingMap::collect(list_mouse_on_canvas(mod_key)),
        anywhere: BindingMap::collect(list_mouse_anywhere(mod_key)),
    }
}

/// Trackpad gesture bindings over a window.
pub open spec fn gesture_on_window(mod_key: ModKey) -> Seq<(GestureBinding, GestureConfigEntryOf<Seq<char>>)> {
    let none = types::no_modifiers();
    let alt_only = Modifiers { alt: true, ..none };
    let alt_shift = Modifiers { alt: true, shift: true, ..none };
    seq![
        (GestureBinding { modifiers: alt_only, trigger: GestureTrigger::Swipe { fingers: 3 } }, GestureConfigEntryOf::Continuous(ContinuousAction::ResizeWindow)),
        (GestureBinding { modifiers: alt_shift, trigger: GestureTrigger::Swipe { fingers: 3 } }, GestureConfigEntryOf::Continuous(ContinuousAction::ResizeWindowSnapped)),
        (GestureBinding { modifiers: none, trigger: GestureTrigger::DoubletapSwipe { fingers: 3 } }, GestureConfigEntryOf::Continuous(ContinuousAction::MoveWindow)),
        (GestureBinding { modifiers: alt_only, trigger: GestureTrigger::PinchIn { fingers: 2 } }, GestureConfigEntryOf::Threshold(ThresholdActionOf::Fixed(ActionOf::FitWindow))),
        (GestureBinding { modifiers: alt_only, trigger: GestureTrigger::PinchOut { fingers: 2 } }, GestureConfigEntryOf::Threshold(ThresholdActionOf::Fixed(ActionOf::FitWindow))),
        (GestureBinding { modifiers: alt_shift, trigger: GestureTrigger::PinchIn { fingers: 2 } }, GestureConfigEntryOf::Threshold(ThresholdActionOf::Fixed(ActionOf::FitWindowSnapped))),
        (GestureBinding { modifiers: alt_shift, trigger: GestureTrigger::PinchOut { fingers: 2 } }, GestureConfigEntryOf::Threshold(ThresholdActionOf::Fixed(ActionOf::FitWindowSnapped))),
        (GestureBinding { modifiers: alt_only, trigger: GestureTrigger::PinchIn { fingers: 3 } }, GestureConfigEntryOf::Threshold(ThresholdActionOf::Fixed(ActionOf::ToggleFullscreen))),
        (GestureBinding { modifiers: alt_only, trigger: GestureTrigger::PinchOut { fingers: 3 } }, GestureConfigEntryOf::Threshold(ThresholdActionOf::Fixed(ActionOf::ToggleFullscreen))),
    ]
}

fn list_gesture_on_window(mod_key: ModKey) -> (r: Vec<(GestureBinding, GestureConfigEntry)>)
    ensures
        bindings::entry_models(r@) == gesture_on_window(mod_key),
{
    let none: Modifiers = Modifiers::empty();
    let alt_only: Modifiers = Modifiers { alt: true, ..none };
    let alt_shift: Modifiers = Modifiers { alt: true, shift: true, ..none };
    let r: Vec<(GestureBinding, GestureConfigEntry)> = vec![
        (GestureBinding { modifiers: alt_only, trigger: GestureTrigger::Swipe { fingers: 3 } }, GestureConfigEntry::Continuous(ContinuousAction::ResizeWindow)),
        (GestureBinding { modifiers: alt_shift, trigger: GestureTrigger::Swipe { fingers: 3 } }, GestureConfigEntry::Continuous(ContinuousAction::ResizeWindowSnapped)),
        (GestureBinding { modifiers: none, trigger: GestureTrigger::DoubletapSwipe { fingers: 3 } }, GestureConfigEntry::Continuous(ContinuousAction::MoveWindow)),
        (GestureBinding { modifiers: alt_only, trigger: GestureTrigger::PinchIn { fingers: 2 } }, GestureConfigEntry::Threshold(ThresholdAction::Fixed(Action::FitWindow))),
        (GestureBinding { modifiers: alt_only, trigger: GestureTrigger::PinchOut { fingers: 2 } }, GestureConfigEntry::Threshold(ThresholdAction::Fixed(Action::FitWindow))),
        (GestureBinding { modifiers: alt_shift, trigger: GestureTrigger::PinchIn { fingers: 2 } }, GestureConfigEntry::Threshold(ThresholdAction::Fixed(Action::FitWindowSnapped))),
        (GestureBinding { modifiers: alt_shift, trigger: GestureTrigger::PinchOut { fingers: 2 } }, GestureConfigEntry::Threshold(ThresholdAction::Fixed(Action::FitWindowSnapped))),
        (GestureBinding { modifiers: alt_only, trigger: GestureTrigger::PinchIn { fingers: 3 } }, GestureConfigEntry::Threshold(ThresholdAction::Fixed(Action::ToggleFullscreen))),
        (GestureBinding { modifiers: alt_only, trigger: GestureTrigger::PinchOut { fingers: 3 } }, GestureConfigEntry::Threshold(ThresholdAction::Fixed(Action::ToggleFullscreen))),
    ];
    proof {
        assert(bindings::entry_models(r@) =~= gesture_on_window(mod_key));
    }
    r
}

/// Trackpad gesture bindings over empty canvas.
pub open spec fn gesture_on_canvas(mod_key: ModKey) -> Seq<(GestureBinding, GestureConfigEntryOf<Seq<char>>)> {
    let none = types::no_modifiers();
    seq![
        (GestureBinding { modifiers: none, trigger: GestureTrigger::Pinch { fingers: 2 } }, GestureConfigEntryOf::Continuous(ContinuousAction::Zoom)),
    ]
}

fn list_gesture_on_canvas(mod_key: ModKey) -> (r: Vec<(GestureBinding, GestureConfigEntry)>)
    ensures
        bindings::entry_models(r@) == gesture_on_canvas(mod_key),
{
    let none: Modifiers = Modifiers::empty();
    let r: Vec<(GestureBinding, GestureConfigEntry)> = vec![
        (GestureBinding { modifiers: none, trigger: GestureTrigger::Pinch { fingers: 2 } }, GestureConfigEntry::Continuous(ContinuousAction::Zoom)),
    ];
    proof {
        assert(bindings::entry_models(r@) =~= gesture_on_canvas(mod_key));
    }
    r
}

/// Trackpad gesture bindings that hold everywhere.
pub open spec fn gesture_anywhere(mod_key: ModKey) -> Seq<(GestureBinding, GestureConfigEntryOf<Seq<char>>)> {
    let m = types::with_mod(types::no_modifiers(), mod_key);
    let none = types::no_modifiers();
    seq![
        (GestureBinding { modifiers: m, trigger: GestureTrigger::Pinch { fingers: 2 } }, GestureConfigEntryOf::Continuous(ContinuousAction::Zoom)),
        (GestureBinding { modifiers: none, trigger: GestureTrigger::Swipe { fingers: 3 } }, GestureConfigEntryOf::Continuous(ContinuousAction::PanViewport)),
        (GestureBinding { modifiers: none, trigger: GestureTrigger::Swipe { fingers: 4 } }, GestureConfigEntryOf::Threshold(ThresholdActionOf::CenterNearest)),
        (GestureBinding { modifiers: none, trigger: GestureTrigger::Pinch { fingers: 3 } }, GestureConfigEntryOf::Continuous(ContinuousAction::Zoom)),
        (GestureBinding { modifiers: none, trigger: GestureTrigger::PinchIn { fingers: 4 } }, GestureConfigEntryOf::Threshold(ThresholdActionOf::Fixed(ActionOf::ZoomToFit))),
        (GestureBinding { modifiers: none, trigger: GestureTrigger::PinchOut { fingers: 4 } }, GestureConfigEntryOf::Threshold(ThresholdActionOf::Fixed(ActionOf::HomeToggle))),
        (GestureBinding { modifiers: m, trigger: GestureTrigger::PinchIn { fingers: 4 } }, GestureConfigEntryOf::Threshold(ThresholdActionOf::Fixed(ActionOf::ZoomToFitSnapped))),
        (GestureBinding { modifiers: m, trigger: GestureTrigger::PinchIn { fingers: 3 } }, GestureConfigEntryOf::Threshold(ThresholdActionOf::Fixed(ActionOf::ZoomToFit))),
        (GestureBinding { modifiers: m, trigger: GestureTrigger::PinchOut { fingers: 3 } }, GestureConfigEntryOf::Threshold(ThresholdActionOf::Fixed(ActionOf::HomeToggle))),
        (GestureBinding { modifiers: none, trigger: GestureTrigger::Hold { fingers: 4 } }, GestureConfigEntryOf::Threshold(ThresholdActionOf::Fixed(ActionOf::CenterWindow))),
        (GestureBinding { modifiers: m, trigger: GestureTrigger::Hold { fingers: 3 } }, GestureConfigEntryOf::Threshold(ThresholdActionOf::Fixed(ActionOf::CenterWindow))),
        (GestureBinding { modifiers: m, trigger: GestureTrigger::Swipe { fingers: 3 } }, GestureConfigEntryOf::Threshold(ThresholdActionOf::CenterNearest)),
    ]
}

fn list_gesture_anywhere(mod_key: ModKey) -> (r: Vec<(GestureBinding, GestureConfigEntry)>)
    ensures
        bindings::entry_models(r@) == gesture_anywhere(mod_key),
{
    let m: Modifiers = mod_key.base();
    let none: Modifiers = Modifiers::empty();
    let r: Vec<(GestureBinding, GestureConfigEntry)> = vec![
        (GestureBinding { modifiers: m, trigger: GestureTrigger::Pinch { fingers: 2 } }, GestureConfigEntry::Continuous(ContinuousAction::Zoom)),
        (GestureBinding { modifiers: none, trigger: GestureTrigger::Swipe { fingers: 3 } }, GestureConfigEntry::Continuous(ContinuousAction::PanViewport)),
        (GestureBinding { modifiers: none, trigger: GestureTrigger::Swipe { fingers: 4 } }, GestureConfigEntry::Threshold(ThresholdAction::CenterNearest)),
        (GestureBinding { modifiers: none, trigger: GestureTrigger::Pinch { fingers: 3 } }, GestureConfigEntry::Continuous(ContinuousAction::Zoom)),
        (GestureBinding { modifiers: none, trigger: GestureTrigger::PinchIn { fingers: 4 } }, GestureConfigEntry::Threshold(ThresholdAction::Fixed(Action::ZoomToFit))),
        (GestureBinding { modifiers: none, trigger: GestureTrigger::PinchOut { fingers: 4 } }, GestureConfigEntry::Threshold(ThresholdAction::Fixed(Action::HomeToggle))),
        (GestureBinding { modifiers: m, trigger: GestureTrigger::PinchIn { fingers: 4 } }, GestureConfigEntry::Threshold(ThresholdAction::Fixed(Action::ZoomToFitSnapped))),
        (GestureBinding { modifiers: m, trigger: GestureTrigger::PinchIn { fingers: 3 } }, GestureConfigEntry::Threshold(ThresholdAction::Fixed(Action::ZoomToFit))),
        (GestureBinding { modifiers: m, trigger: GestureTrigger::PinchOut { fingers: 3 } }, GestureConfigEntry::Threshold(ThresholdAction::Fixed(Action::HomeToggle))),
        (GestureBinding { modifiers: none, trigger: GestureTrigger::Hold { fingers: 4 } }, GestureConfigEntry::Threshold(ThresholdAction::Fixed(Action::CenterWindow))),
        (GestureBinding { modifiers: m, trigger: GestureTrigger::Hold { fingers: 3 } }, GestureConfigEntry::Threshold(ThresholdAction::Fixed(Action::CenterWindow))),
        (GestureBinding { modifiers: m, trigger: GestureTrigger::Swipe { fingers: 3 } }, GestureConfigEntry::Threshold(ThresholdAction::CenterNearest)),
    ];
    proof {
        assert(bindings::entry_models(r@) =~= gesture_anywhere(mod_key));
    }
    r
}

/// The default gesture bindings.
pub open spec fn default_gesture(mod_key: ModKey) -> ContextOf<Seq<(GestureBinding, GestureConfigEntryOf<Seq<char>>)>> {
    ContextOf {
        on_window: bindings::bind_all(Seq::empty(), gesture_on_window(mod_key)),
        on_canvas: bindings::bind_all(Seq::empty(), gesture_on_canvas(mod_key)),
        anywhere: bindings::bind_all(Seq::empty(), gesture_anywhere(mod_key)),
    }
}

/// The default gesture bindings.
pub fn default_gesture_bindings(mod_key: ModKey) -> (r: ContextBindings<GestureBinding, GestureConfigEntry>)
    ensures
        r@ == default_gesture(mod_key),
        bindings::contexts_distinct(r@),
{
    ContextOf {
        on_window: BindingMap::collect(list_gesture_on_window(mod_key)),
        on_canvas: BindingMap::collect(list_gesture_on_canvas(mod_key)),
        anywhere: BindingMap::collect(list_gesture_anywhere(mod_key)),
    }
}

/// Touch bindings over a window.
pub open spec fn touch_on_window() -> Seq<(GestureTrigger, GestureConfigEntryOf<Seq<char>>)> {
    seq![
        (GestureTrigger::Doubletap { fingers: 3 }, GestureConfigEntryOf::Threshold(ThresholdActionOf::Fixed(ActionOf::FitWindow))),
        (GestureTrigger::DoubletapSwipe { fingers: 3 }, GestureConfigEntryOf::Continuous(ContinuousAction::MoveWindow)),
        (GestureTrigger::HoldSwipe { fingers: 3 }, GestureConfigEntryOf::Continuous(ContinuousAction::ResizeWindow)),
        (GestureTrigger::DoubletapHoldSwipe { fingers: 3 }, GestureConfigEntryOf::Continuous(ContinuousAction::MoveSnappedWindows)),
    ]
}

fn list_touch_on_window() -> (r: Vec<(GestureTrigger, GestureConfigEntry)>)
    ensures
        bindings::entry_models(r@) == touch_on_window(),
{
    let r: Vec<(GestureTrigger, GestureConfigEntry)> = vec![
        (GestureTrigger::Doubletap { fingers: 3 }, GestureConfigEntry::Threshold(ThresholdAction::Fixed(Action::FitWindow))),
        (GestureTrigger::DoubletapSwipe { fingers: 3 }, GestureConfigEntry::Continuous(ContinuousAction::MoveWindow)),
        (GestureTrigger::HoldSwipe { fingers: 3 }, GestureConfigEntry::Continuous(ContinuousAction::ResizeWindow)),
        (GestureTrigger::DoubletapHoldSwipe { fingers: 3 }, GestureConfigEntry::Continuous(ContinuousAction::MoveSnappedWindows)),
    ];
    proof {
        assert(bindings::entry_models(r@) =~= touch_on_window());
    }
    r
}

/// Touch bindings over empty canvas.
pub open spec fn touch_on_canvas() -> Seq<(GestureTrigger, GestureConfigEntryOf<Seq<char>>)> {
    seq![
        (GestureTrigger::Swipe { fingers: 1 }, GestureConfigEntryOf::Continuous(ContinuousAction::PanViewport)),
        (GestureTrigger::Swipe { fingers: 2 }, GestureConfigEntryOf::Continuous(ContinuousAction::PanViewport)),
        (GestureTrigger::Pinch { fingers: 2 }, GestureConfigEntryOf::Continuous(ContinuousAction::Zoom)),
    ]
}

fn list_touch_on_canvas() -> (r: Vec<(GestureTrigger, GestureConfigEntry)>)
    ensures
        bindings::entry_models(r@) == touch_on_canvas(),
{
    let r: Vec<(GestureTrigger, GestureConfigEntry)> = vec![
        (GestureTrigger::Swipe { fingers: 1 }, GestureConfigEntry::Continuous(ContinuousAction::PanViewport)),
        (GestureTrigger::Swipe { fingers: 2 }, GestureConfigEntry::Continuous(ContinuousAction::PanViewport)),
        (GestureTrigger::Pinch { fingers: 2 }, GestureConfigEntry::Continuous(ContinuousAction::Zoom)),
    ];
    proof {
        assert(bindings::entry_models(r@) =~= touch_on_canvas());
    }
    r
}

/// Touch bindings that hold everywhere.
pub open spec fn touch_anywhere() -> Seq<(GestureTrigger, GestureConfigEntryOf<Seq<char>>)> {
    seq![
        (GestureTrigger::Swipe { fingers: 3 }, GestureConfigEntryOf::Continuous(ContinuousAction::PanViewport)),
        (GestureTrigger::Pinch { fingers: 3 }, GestureConfigEntryOf::Continuous(ContinuousAction::Zoom)),
        (GestureTrigger::Swipe { fingers: 4 }, GestureConfigEntryOf::Threshold(ThresholdActionOf::CenterNearest)),
        (GestureTrigger::PinchIn { fingers: 4 }, GestureConfigEntryOf::Threshold(ThresholdActionOf::Fixed(ActionOf::ZoomToFit))),
        (GestureTrigger::PinchOut { fingers: 4 }, GestureConfigEntryOf::Threshold(ThresholdActionOf::Fixed(ActionOf::HomeToggle))),
        (GestureTrigger::Swipe { fingers: 5 }, GestureConfigEntryOf::Threshold(ThresholdActionOf::CenterNearest)),
        (GestureTrigger::PinchIn { fingers: 5 }, GestureConfigEntryOf::Threshold(ThresholdActionOf::Fixed(ActionOf::ZoomToFit))),
        (GestureTrigger::PinchOut { fingers: 5 }, GestureConfigEntryOf::Threshold(ThresholdActionOf::Fixed(ActionOf::HomeToggle))),
        (GestureTrigger::Tap { fingers: 3 }, GestureConfigEntryOf::Threshold(ThresholdActionOf::Fixed(ActionOf::CenterWindow))),
    ]
}

fn list_touch_anywhere() -> (r: Vec<(GestureTrigger, GestureConfigEntry)>)
    ensures
        bindings::entry_models(r@) == touch_anywhere(),
{
    let r: Vec<(GestureTrigger, GestureConfigEntry)> = vec![
        (GestureTrigger::Swipe { fingers: 3 }, GestureConfigEntry::Continuous(ContinuousAction::PanViewport)),
        (GestureTrigger::Pinch { fingers: 3 }, GestureConfigEntry::Continuous(ContinuousAction::Zoom)),
        (GestureTrigger::Swipe { fingers: 4 }, GestureConfigEntry::Threshold(ThresholdAction::CenterNearest)),
        (GestureTrigger::PinchIn { fingers: 4 }, GestureConfigEntry::Threshold(ThresholdAction::Fixed(Action::ZoomToFit))),
        (GestureTrigger::PinchOut { fingers: 4 }, GestureConfigEntry::Threshold(ThresholdAction::Fixed(Action::HomeToggle))),
        (GestureTrigger::Swipe { fingers: 5 }, GestureConfigEntry::Threshold(ThresholdAction::CenterNearest)),
        (GestureTrigger::PinchIn { fingers: 5 }, GestureConfigEntry::Threshold(ThresholdAction::Fixed(Action::ZoomToFit))),
        (GestureTrigger::PinchOut { fingers: 5 }, GestureConfigEntry::Threshold(ThresholdAction::Fixed(Action::HomeToggle))),
        (GestureTrigger::Tap { fingers: 3 }, GestureConfigEntry::Threshold(ThresholdAction::Fixed(Action::CenterWindow))),
    ];
    proof {
        assert(bindings::entry_models(r@) =~= touch_anywhere());
    }
    r
}

/// The default touch bindings.
pub open spec fn default_touch() -> ContextOf<Seq<(GestureTrigger, GestureConfigEntryOf<Seq<char>>)>> {
    ContextOf {
        on_window: bindings::bind_all(Seq::empty(), touch_on_window()),
        on_canvas: bindings::bind_all(Seq::empty(), touch_on_canvas()),
        anywhere: bindings::bind_all(Seq::empty(), touch_anywhere()),
    }
}

/// The default touch bindings.
pub fn default_touch_bindings() -> (r: ContextBindings<GestureTrigger, GestureConfigEntry>)
    ensures
        r@ == default_touch(),
        bindings::contexts_distinct(r@),
{
    ContextOf {
        on_window: BindingMap::collect(list_touch_on_window()),
        on_canvas: BindingMap::collect(list_touch_on_canvas()),
        anywhere: BindingMap::collect(list_touch_anywhere()),
    }
}

} // verus!
