//! The grammar of key combos, mouse and gesture bindings, and actions.
use vstd::prelude::*;

use crate::config::types;
use crate::config::types::{
    Action, ActionOf, ContinuousAction, Direction, GestureBinding, GestureConfigEntry,
    GestureConfigEntryOf, GestureTrigger, KeyCombo, Keysym, LayoutSwitch, ModKey, Modifiers,
    MouseAction, MouseActionOf, MouseBinding, MouseTrigger, ThresholdAction, ThresholdActionOf,
    BTN_LEFT, BTN_MIDDLE, BTN_RIGHT,
};
use crate::text;
use crate::text::{
    chars_of, cut_text, cut_white, is_digit, join3, parse_unsigned, show_i64, split_trim, text_eq,
    to_lowercase, trim,
};

verus! {

// ── Modifiers ────────────────────────────────────────────────────────

/// `m` with the modifier that the lowercase word `w` names.
pub open spec fn with_modifier(m: Modifiers, w: Seq<char>, mod_key: ModKey) -> Result<
    Modifiers,
    Seq<char>,
> {
    if w == "mod"@ {
        Ok(types::with_mod(m, mod_key))
    } else if w == "alt"@ {
        Ok(Modifiers { alt: true, ..m })
    } else if w == "super"@ || w == "logo"@ {
        Ok(Modifiers { logo: true, ..m })
    } else if w == "ctrl"@ || w == "control"@ {
        Ok(Modifiers { ctrl: true, ..m })
    } else if w == "shift"@ {
        Ok(Modifiers { shift: true, ..m })
    } else if w == "mod3"@ {
        Ok(Modifiers { mod3: true, ..m })
    } else {
        Err("unknown modifier: "@ + w)
    }
}

/// The modifiers that a list of words names, in any case; the first word that
/// names none is an error.
pub open spec fn modifiers_of(parts: Seq<Seq<char>>, mod_key: ModKey) -> Result<
    Modifiers,
    Seq<char>,
>
    decreases parts.len(),
{
    if parts.len() == 0 {
        Ok(types::no_modifiers())
    } else {
        match modifiers_of(parts.drop_last(), mod_key) {
            Err(e) => Err(e),
            Ok(m) => with_modifier(m, text::lowercase(parts.last()), mod_key),
        }
    }
}

/// Parse the first `n` of `parts` as modifier names.
fn parse_modifiers(parts: &Vec<&str>, n: usize, mod_key: ModKey) -> (r: Result<Modifiers, String>)
    requires
        n <= parts@.len(),
    ensures
        types::plain(r) == modifiers_of(text::views(parts@).take(n as int), mod_key),
{
    let mut mods: Modifiers = Modifiers::empty();
    let mut i: usize = 0;
    let ghost all = text::views(parts@);
    while i < n
        invariant
            i <= n <= parts@.len(),
            all == text::views(parts@),
            modifiers_of(all.take(i as int), mod_key) == Ok::<Modifiers, Seq<char>>(mods),
        decreases n - i,
    {
        let word: String = to_lowercase(parts[i]);
        let w: &str = word.as_str();
        proof {
            assert(all.take(i + 1).drop_last() =~= all.take(i as int));
            assert(all.take(i + 1).last() == parts@[i as int]@);
        }
        if text_eq(w, "mod") {
            match mod_key {
                ModKey::Alt => {
                    mods.alt = true;
                },
                ModKey::Super => {
                    mods.logo = true;
                },
                ModKey::Mod3 => {
                    mods.mod3 = true;
                },
            }
        } else if text_eq(w, "alt") {
            mods.alt = true;
        } else if text_eq(w, "super") || text_eq(w, "logo") {
            mods.logo = true;
        } else if text_eq(w, "ctrl") || text_eq(w, "control") {
            mods.ctrl = true;
        } else if text_eq(w, "shift") {
            mods.shift = true;
        } else if text_eq(w, "mod3") {
            mods.mod3 = true;
        } else {
            let e: String = message("unknown modifier: ", w);
            proof {
                lemma_first_error(all, i + 1, n as int, mod_key);
            }
            return Err(e);
        }
        i = i + 1;
    }
    Ok(mods)
}

/// An error on a prefix of the words is the error of all of them.
proof fn lemma_first_error(parts: Seq<Seq<char>>, i: int, n: int, mod_key: ModKey)
    requires
        0 <= i <= n <= parts.len(),
        modifiers_of(parts.take(i), mod_key) is Err,
    ensures
        modifiers_of(parts.take(n), mod_key) == modifiers_of(parts.take(i), mod_key),
    decreases n - i,
{
    if i < n {
        lemma_first_error(parts, i, n - 1, mod_key);
        assert(parts.take(n).drop_last() =~= parts.take(n - 1));
    }
}

/// The modifiers of a combo that names nothing else.
pub open spec fn tap_of(s: Seq<char>, mod_key: ModKey) -> Option<Modifiers> {
    match modifiers_of(text::split_trimmed(s, '+'), mod_key) {
        Ok(m) => Some(m),
        Err(_) => None,
    }
}

/// True if every `+`-separated token names a modifier: such a combo has no
/// key symbol and binds a tap of the bare modifiers.
pub fn is_modifier_only(s: &str, mod_key: ModKey) -> (r: bool)
    ensures
        r == tap_of(s@, mod_key) is Some,
{
    let parts: Vec<&str> = split_trim(s, '+');
    proof {
        assert(text::views(parts@).take(parts@.len() as int) =~= text::views(parts@));
    }
    match parse_modifiers(&parts, parts.len(), mod_key) {
        Ok(_) => true,
        Err(_) => false,
    }
}

/// Parse a modifier-only combo like "alt+shift". `None` when `s` is not
/// modifier-only: it is then a key combo.
pub fn parse_tap_combo(s: &str, mod_key: ModKey) -> (r: Option<Result<Modifiers, String>>)
    ensures
        match r {
            Some(Ok(m)) => tap_of(s@, mod_key) == Some(m),
            Some(Err(_)) => false,
            None => tap_of(s@, mod_key) is None,
        },
{
    if !is_modifier_only(s, mod_key) {
        return None;
    }
    let parts: Vec<&str> = split_trim(s, '+');
    proof {
        assert(text::views(parts@).take(parts@.len() as int) =~= text::views(parts@));
    }
    Some(parse_modifiers(&parts, parts.len(), mod_key))
}

// ── Key combos ───────────────────────────────────────────────────────

/// Key names with the raw symbol that the keyboard library finds for each, 0
/// for a name that stands for none.
pub struct KeysymTable {
    pub entries: Vec<(String, u32)>,
}

/// Model of a table of key names.
pub open spec fn table_model(entries: Seq<(String, u32)>) -> Seq<(Seq<char>, u32)> {
    entries.map_values(|p: (String, u32)| (p.0@, p.1))
}

/// The symbol of the first entry for `name`, 0 if there is none.
pub open spec fn keysym_named(table: Seq<(Seq<char>, u32)>, name: Seq<char>) -> u32
    decreases table.len(),
{
    if table.len() == 0 {
        0
    } else if table[0].0 == name {
        table[0].1
    } else {
        keysym_named(table.drop_first(), name)
    }
}

impl View for KeysymTable {
    type V = Seq<(Seq<char>, u32)>;

    open spec fn view(&self) -> Seq<(Seq<char>, u32)> {
        table_model(self.entries@)
    }
}

impl KeysymTable {
    /// The raw symbol of a key name, 0 if the table has none.
    pub fn lookup(&self, name: &str) -> (raw: u32)
        ensures
            raw == keysym_named(self@, name@),
    {
        let n: usize = self.entries.len();
        let mut i: usize = 0;
        proof {
            assert(self@.skip(0) =~= self@);
        }
        while i < n
            invariant
                i <= n,
                n == self.entries@.len(),
                keysym_named(self@, name@) == keysym_named(self@.skip(i as int), name@),
            decreases n - i,
        {
            proof {
                let rest = self@.skip(i as int);
                assert(rest[0] == (self.entries@[i as int].0@, self.entries@[i as int].1));
                assert(rest.drop_first() =~= self@.skip(i + 1));
            }
            if text_eq(self.entries[i].0.as_str(), name) {
                return self.entries[i].1;
            }
            i = i + 1;
        }
        0
    }
}

/// The combo made of modifiers and the symbol `raw` that `name` stands for.
pub open spec fn key_combo_with(
    mods: Result<Modifiers, Seq<char>>,
    name: Seq<char>,
    raw: u32,
) -> Result<KeyCombo, Seq<char>> {
    match mods {
        Err(e) => Err(e),
        Ok(modifiers) => if raw == 0 {
            Err("unknown keysym: "@ + name)
        } else {
            Ok(KeyCombo { modifiers, sym: Keysym { raw } })
        },
    }
}

/// The modifiers before the last `+`-separated part.
pub open spec fn leading_modifiers(s: Seq<char>, mod_key: ModKey) -> Result<Modifiers, Seq<char>> {
    modifiers_of(text::split_trimmed(s, '+').drop_last(), mod_key)
}

/// The last `+`-separated part.
pub open spec fn last_part(s: Seq<char>) -> Seq<char> {
    text::split_trimmed(s, '+').last()
}

/// The combo that a string like "Mod+Shift+Up" stands for.
pub open spec fn key_combo_of(
    s: Seq<char>,
    mod_key: ModKey,
    table: Seq<(Seq<char>, u32)>,
) -> Result<KeyCombo, Seq<char>> {
    key_combo_with(leading_modifiers(s, mod_key), last_part(s), keysym_named(table, last_part(s)))
}

/// The name whose symbol a key combo string asks for.
pub fn key_name(s: &str) -> (r: &str)
    ensures
        r@ == last_part(s@),
{
    let parts: Vec<&str> = split_trim(s, '+');
    parts[parts.len() - 1]
}

/// Combine parsed modifiers with the symbol that was found for a key name.
pub fn combine_key(modifiers: Modifiers, name: &str, raw: u32) -> (r: Result<KeyCombo, String>)
    ensures
        types::plain(r) == key_combo_with(Ok(modifiers), name@, raw),
{
    if raw == 0 {
        Err(message("unknown keysym: ", name))
    } else {
        Ok(KeyCombo { modifiers, sym: Keysym { raw } })
    }
}

/// Parse a key combo string like "Mod+Shift+Up".
pub fn parse_key_combo(s: &str, mod_key: ModKey, keysyms: &KeysymTable) -> (r: Result<
    KeyCombo,
    String,
>)
    ensures
        types::plain(r) == key_combo_of(s@, mod_key, keysyms@),
{
    let parts: Vec<&str> = split_trim(s, '+');
    let n: usize = parts.len() - 1;
    proof {
        assert(text::views(parts@).take(n as int) =~= text::views(parts@).drop_last());
    }
    match parse_modifiers(&parts, n, mod_key) {
        Err(e) => Err(e),
        Ok(mods) => {
            let raw: u32 = keysyms.lookup(parts[n]);
            combine_key(mods, parts[n], raw)
        },
    }
}

/// `prefix` followed by `rest`.
fn message(prefix: &str, rest: &str) -> (r: String)
    ensures
        r@ == prefix@ + rest@,
{
    let mut m: String = prefix.to_owned();
    m.append(rest);
    m
}

// ── Mouse bindings ───────────────────────────────────────────────────

/// The trigger that a lowercase word names.
pub open spec fn mouse_trigger_of(w: Seq<char>) -> Result<MouseTrigger, Seq<char>> {
    if w == "left"@ {
        Ok(MouseTrigger::Button(BTN_LEFT))
    } else if w == "right"@ {
        Ok(MouseTrigger::Button(BTN_RIGHT))
    } else if w == "middle"@ {
        Ok(MouseTrigger::Button(BTN_MIDDLE))
    } else if w == "trackpad-scroll"@ {
        Ok(MouseTrigger::TrackpadScroll)
    } else if w == "wheel-scroll"@ {
        Ok(MouseTrigger::WheelScroll)
    } else if w == "wheel-up"@ {
        Ok(MouseTrigger::WheelUp)
    } else if w == "wheel-down"@ {
        Ok(MouseTrigger::WheelDown)
    } else {
        Err("unknown mouse trigger: "@ + w)
    }
}

/// The binding that a string like "Mod+Shift+Left" stands for.
pub open spec fn mouse_binding_of(s: Seq<char>, mod_key: ModKey) -> Result<
    MouseBinding,
    Seq<char>,
> {
    match leading_modifiers(s, mod_key) {
        Err(e) => Err(e),
        Ok(modifiers) => match mouse_trigger_of(text::lowercase(last_part(s))) {
            Err(e) => Err(e),
            Ok(trigger) => Ok(MouseBinding { modifiers, trigger }),
        },
    }
}

/// Parse a mouse binding string like "Mod+Shift+Left". The last segment is the
/// trigger: Left, Right, Middle, Trackpad-Scroll, Wheel-Scroll, Wheel-Up or
/// Wheel-Down.
pub fn parse_mouse_binding(s: &str, mod_key: ModKey) -> (r: Result<MouseBinding, String>)
    ensures
        types::plain(r) == mouse_binding_of(s@, mod_key),
{
    let parts: Vec<&str> = split_trim(s, '+');
    let n: usize = parts.len() - 1;
    proof {
        assert(text::views(parts@).take(n as int) =~= text::views(parts@).drop_last());
    }
    let modifiers: Modifiers = match parse_modifiers(&parts, n, mod_key) {
        Err(e) => {
            return Err(e);
        },
        Ok(m) => m,
    };
    let word: String = to_lowercase(parts[n]);
    let w: &str = word.as_str();
    let trigger: MouseTrigger = if text_eq(w, "left") {
        MouseTrigger::Button(BTN_LEFT)
    } else if text_eq(w, "right") {
        MouseTrigger::Button(BTN_RIGHT)
    } else if text_eq(w, "middle") {
        MouseTrigger::Button(BTN_MIDDLE)
    } else if text_eq(w, "trackpad-scroll") {
        MouseTrigger::TrackpadScroll
    } else if text_eq(w, "wheel-scroll") {
        MouseTrigger::WheelScroll
    } else if text_eq(w, "wheel-up") {
        MouseTrigger::WheelUp
    } else if text_eq(w, "wheel-down") {
        MouseTrigger::WheelDown
    } else {
        return Err(message("unknown mouse trigger: ", w));
    };
    Ok(MouseBinding { modifiers, trigger })
}


// ── Directions ───────────────────────────────────────────────────────

/// The direction that a lowercase word names.
pub open spec fn direction_word(w: Seq<char>) -> Result<Direction, Seq<char>> {
    if w == "up"@ {
        Ok(Direction::Up)
    } else if w == "down"@ {
        Ok(Direction::Down)
    } else if w == "left"@ {
        Ok(Direction::Left)
    } else if w == "right"@ {
        Ok(Direction::Right)
    } else if w == "up-left"@ {
        Ok(Direction::UpLeft)
    } else if w == "up-right"@ {
        Ok(Direction::UpRight)
    } else if w == "down-left"@ {
        Ok(Direction::DownLeft)
    } else if w == "down-right"@ {
        Ok(Direction::DownRight)
    } else {
        Err("unknown direction: "@ + w)
    }
}

/// The direction that a text names, in any case and with any whitespace round
/// it.
pub open spec fn direction_of(s: Seq<char>) -> Result<Direction, Seq<char>> {
    direction_word(text::lowercase(text::trimmed(s)))
}

/// Parse a direction string (case-insensitive).
pub fn parse_direction(s: &str) -> (r: Result<Direction, String>)
    ensures
        types::plain(r) == direction_of(s@),
{
    let word: String = to_lowercase(trim(s));
    let w: &str = word.as_str();
    if text_eq(w, "up") {
        Ok(Direction::Up)
    } else if text_eq(w, "down") {
        Ok(Direction::Down)
    } else if text_eq(w, "left") {
        Ok(Direction::Left)
    } else if text_eq(w, "right") {
        Ok(Direction::Right)
    } else if text_eq(w, "up-left") {
        Ok(Direction::UpLeft)
    } else if text_eq(w, "up-right") {
        Ok(Direction::UpRight)
    } else if text_eq(w, "down-left") {
        Ok(Direction::DownLeft)
    } else if text_eq(w, "down-right") {
        Ok(Direction::DownRight)
    } else {
        Err(message("unknown direction: ", w))
    }
}

// ── Actions ──────────────────────────────────────────────────────────

/// An argument that names a direction; `missing` is the error when there is
/// none.
pub open spec fn direction_arg(arg: Option<Seq<char>>, missing: Seq<char>) -> Result<
    Direction,
    Seq<char>,
> {
    match arg {
        None => Err(missing),
        Some(a) => direction_of(a),
    }
}

/// An argument that holds some text; `missing` is the error when it is absent
/// or empty.
pub open spec fn name_arg(arg: Option<Seq<char>>, missing: Seq<char>) -> Result<
    Seq<char>,
    Seq<char>,
> {
    match arg {
        Some(a) if a.len() > 0 => Ok(a),
        _ => Err(missing),
    }
}

/// The window cycling direction that an argument names.
pub open spec fn cycle_of(arg: Option<Seq<char>>) -> Result<bool, Seq<char>> {
    match arg {
        None => Err("cycle-windows requires forward or backward"@),
        Some(a) => if a == "forward"@ {
            Ok(false)
        } else if a == "backward"@ {
            Ok(true)
        } else {
            Err("cycle-windows: expected forward or backward, got '"@ + a + "'"@)
        },
    }
}

/// The keyboard layout that a lowercase word names.
pub open spec fn layout_word(w: Seq<char>) -> Result<LayoutSwitch, Seq<char>> {
    if w == "next"@ {
        Ok(LayoutSwitch::Next)
    } else if w == "prev"@ || w == "previous"@ {
        Ok(LayoutSwitch::Prev)
    } else {
        match text::unsigned(w, usize::MAX as nat) {
            Some(n) => Ok(LayoutSwitch::Index(n as usize)),
            None => Err(
                "switch-layout: expected next, prev, or an index, got '"@ + w + "'"@,
            ),
        }
    }
}

/// The keyboard layout that an argument names.
pub open spec fn layout_of(arg: Option<Seq<char>>) -> Result<LayoutSwitch, Seq<char>> {
    match arg {
        None => Err("switch-layout requires next, prev, or a layout index"@),
        Some(a) => layout_word(text::lowercase(text::trimmed(a))),
    }
}

/// The message for the action that bookmarks have replaced.
pub open spec fn removed_message() -> Seq<char> {
    "go-to was removed — save the point as a bookmark and use go-to-bookmark <name>"@
}

/// The action that a name and its argument stand for.
pub open spec fn named_action(name: Seq<char>, arg: Option<Seq<char>>) -> Result<
    ActionOf<Seq<char>>,
    Seq<char>,
> {
    if name == "exec"@ {
        match arg {
            Some(c) => Ok(ActionOf::Exec(c)),
            None => Err("exec requires a command argument"@),
        }
    } else if name == "spawn"@ {
        match arg {
            Some(c) => Ok(ActionOf::Spawn(c)),
            None => Err("spawn requires a command argument"@),
        }
    } else if name == "exec-terminal"@ {
        Ok(ActionOf::ExecTerminal)
    } else if name == "exec-launcher"@ {
        Ok(ActionOf::ExecLauncher)
    } else if name == "close-window"@ {
        Ok(ActionOf::CloseWindow)
    } else if name == "suspend-window"@ {
        Ok(ActionOf::SuspendWindow)
    } else if name == "nudge-window"@ {
        match direction_arg(arg, "nudge-window requires a direction"@) {
            Ok(d) => Ok(ActionOf::NudgeWindow(d)),
            Err(e) => Err(e),
        }
    } else if name == "pan-viewport"@ {
        match direction_arg(arg, "pan-viewport requires a direction"@) {
            Ok(d) => Ok(ActionOf::PanViewport(d)),
            Err(e) => Err(e),
        }
    } else if name == "center-window"@ {
        Ok(ActionOf::CenterWindow)
    } else if name == "focus-center"@ {
        Ok(ActionOf::FocusCenter)
    } else if name == "center-nearest"@ {
        match direction_arg(arg, "center-nearest requires a direction"@) {
            Ok(d) => Ok(ActionOf::CenterNearest(d)),
            Err(e) => Err(e),
        }
    } else if name == "cycle-windows"@ {
        match cycle_of(arg) {
            Ok(backward) => Ok(ActionOf::CycleWindows { backward }),
            Err(e) => Err(e),
        }
    } else if name == "home-toggle"@ {
        Ok(ActionOf::HomeToggle)
    } else if name == "go-to"@ {
        Err(removed_message())
    } else if name == "go-to-bookmark"@ {
        match name_arg(arg, "go-to-bookmark requires a bookmark name"@) {
            Ok(n) => Ok(ActionOf::GoToBookmark(n)),
            Err(e) => Err(e),
        }
    } else if name == "set-bookmark"@ {
        match name_arg(arg, "set-bookmark requires a bookmark name"@) {
            Ok(n) => Ok(ActionOf::SetBookmark(n)),
            Err(e) => Err(e),
        }
    } else if name == "move-to-bookmark"@ {
        match name_arg(arg, "move-to-bookmark requires a bookmark name"@) {
            Ok(n) => Ok(ActionOf::MoveToBookmark(n)),
            Err(e) => Err(e),
        }
    } else if name == "zoom-in"@ {
        Ok(ActionOf::ZoomIn)
    } else if name == "zoom-out"@ {
        Ok(ActionOf::ZoomOut)
    } else if name == "zoom-reset"@ {
        Ok(ActionOf::ZoomReset)
    } else if name == "zoom-to-fit"@ {
        Ok(ActionOf::ZoomToFit)
    } else if name == "zoom-to-fit-snapped"@ {
        Ok(ActionOf::ZoomToFitSnapped)
    } else if name == "toggle-fullscreen"@ {
        Ok(ActionOf::ToggleFullscreen)
    } else if name == "fit-window"@ {
        Ok(ActionOf::FitWindow)
    } else if name == "fit-window-snapped"@ {
        Ok(ActionOf::FitWindowSnapped)
    } else if name == "fill-window"@ {
        Ok(ActionOf::FillWindow)
    } else if name == "send-to-output"@ {
        match direction_arg(arg, "send-to-output requires a direction"@) {
            Ok(d) => Ok(ActionOf::SendToOutput(d)),
            Err(e) => Err(e),
        }
    } else if name == "send-cursor-to-output"@ {
        match direction_arg(arg, "send-cursor-to-output requires a direction"@) {
            Ok(d) => Ok(ActionOf::SendCursorToOutput(d)),
            Err(e) => Err(e),
        }
    } else if name == "switch-layout"@ {
        match layout_of(arg) {
            Ok(l) => Ok(ActionOf::SwitchLayout(l)),
            Err(e) => Err(e),
        }
    } else if name == "toggle-pin-to-screen"@ {
        Ok(ActionOf::TogglePinToScreen)
    } else if name == "reload-config"@ {
        Ok(ActionOf::ReloadConfig)
    } else if name == "toggle-cursor-pan"@ {
        Ok(ActionOf::ToggleCursorPan)
    } else if name == "quit"@ {
        Ok(ActionOf::Quit)
    } else {
        Err("unknown action: "@ + name)
    }
}

/// The name and the argument of an action string: the argument is what follows
/// the first whitespace, without whitespace round it.
pub open spec fn action_parts(s: Seq<char>) -> (Seq<char>, Option<Seq<char>>) {
    let t = text::trimmed(s);
    match text::split_once_white(t) {
        Some((n, a)) => (n, Some(text::trimmed(a))),
        None => (t, None),
    }
}

/// The action that a string like "exec foot" or "center-nearest up" stands for.
pub open spec fn action_of(s: Seq<char>) -> Result<ActionOf<Seq<char>>, Seq<char>> {
    let (name, arg) = action_parts(s);
    named_action(name, arg)
}

/// Model of an optional string slice.
pub open spec fn opt_str(o: Option<&str>) -> Option<Seq<char>> {
    match o {
        Some(s) => Some(s@),
        None => None,
    }
}

fn require_direction(arg: Option<&str>, missing: &str) -> (r: Result<Direction, String>)
    ensures
        types::plain(r) == direction_arg(opt_str(arg), missing@),
{
    match arg {
        None => Err(missing.to_owned()),
        Some(a) => parse_direction(a),
    }
}

fn require_name(arg: Option<&str>, missing: &str) -> (r: Result<String, String>)
    ensures
        types::modeled(r) == name_arg(opt_str(arg), missing@),
{
    match arg {
        None => Err(missing.to_owned()),
        Some(a) => {
            if a.is_empty() {
                Err(missing.to_owned())
            } else {
                Ok(a.to_owned())
            }
        },
    }
}

fn parse_cycle(arg: Option<&str>) -> (r: Result<bool, String>)
    ensures
        types::plain(r) == cycle_of(opt_str(arg)),
{
    match arg {
        None => Err("cycle-windows requires forward or backward".to_owned()),
        Some(a) => {
            if text_eq(a, "forward") {
                Ok(false)
            } else if text_eq(a, "backward") {
                Ok(true)
            } else {
                Err(join3("cycle-windows: expected forward or backward, got '", a, "'"))
            }
        },
    }
}

fn parse_layout(arg: Option<&str>) -> (r: Result<LayoutSwitch, String>)
    ensures
        types::plain(r) == layout_of(opt_str(arg)),
{
    match arg {
        None => Err("switch-layout requires next, prev, or a layout index".to_owned()),
        Some(a) => {
            let word: String = to_lowercase(trim(a));
            let w: &str = word.as_str();
            if text_eq(w, "next") {
                Ok(LayoutSwitch::Next)
            } else if text_eq(w, "prev") || text_eq(w, "previous") {
                Ok(LayoutSwitch::Prev)
            } else {
                match parse_unsigned(w, usize::MAX as u64) {
                    Some(n) => Ok(LayoutSwitch::Index(n as usize)),
                    None => Err(
                        join3("switch-layout: expected next, prev, or an index, got '", w, "'"),
                    ),
                }
            }
        },
    }
}

/// Parse a keyboard action string like "exec foot" or "center-nearest up".
pub fn parse_action(s: &str) -> (r: Result<Action, String>)
    ensures
        types::modeled(r) == action_of(s@),
{
    let t: &str = trim(s);
    let mut name: &str = t;
    let mut arg: Option<&str> = None;
    if let Some((n, a)) = cut_white(t) {
        name = n;
        arg = Some(trim(a));
    }
    if text_eq(name, "exec") {
        match arg {
            Some(c) => Ok(Action::Exec(c.to_owned())),
            None => Err("exec requires a command argument".to_owned()),
        }
    } else if text_eq(name, "spawn") {
        match arg {
            Some(c) => Ok(Action::Spawn(c.to_owned())),
            None => Err("spawn requires a command argument".to_owned()),
        }
    } else if text_eq(name, "exec-terminal") {
        Ok(Action::ExecTerminal)
    } else if text_eq(name, "exec-launcher") {
        Ok(Action::ExecLauncher)
    } else if text_eq(name, "close-window") {
        Ok(Action::CloseWindow)
    } else if text_eq(name, "suspend-window") {
        Ok(Action::SuspendWindow)
    } else if text_eq(name, "nudge-window") {
        match require_direction(arg, "nudge-window requires a direction") {
            Ok(d) => Ok(Action::NudgeWindow(d)),
            Err(e) => Err(e),
        }
    } else if text_eq(name, "pan-viewport") {
        match require_direction(arg, "pan-viewport requires a direction") {
            Ok(d) => Ok(Action::PanViewport(d)),
            Err(e) => Err(e),
        }
    } else if text_eq(name, "center-window") {
        Ok(Action::CenterWindow)
    } else if text_eq(name, "focus-center") {
        Ok(Action::FocusCenter)
    } else if text_eq(name, "center-nearest") {
        match require_direction(arg, "center-nearest requires a direction") {
            Ok(d) => Ok(Action::CenterNearest(d)),
            Err(e) => Err(e),
        }
    } else if text_eq(name, "cycle-windows") {
        match parse_cycle(arg) {
            Ok(backward) => Ok(Action::CycleWindows { backward }),
            Err(e) => Err(e),
        }
    } else if text_eq(name, "home-toggle") {
        Ok(Action::HomeToggle)
    } else if text_eq(name, "go-to") {
        Err(
            "go-to was removed — save the point as a bookmark and use go-to-bookmark <name>".to_owned(),
        )
    } else if text_eq(name, "go-to-bookmark") {
        match require_name(arg, "go-to-bookmark requires a bookmark name") {
            Ok(n) => Ok(Action::GoToBookmark(n)),
            Err(e) => Err(e),
        }
    } else if text_eq(name, "set-bookmark") {
        match require_name(arg, "set-bookmark requires a bookmark name") {
            Ok(n) => Ok(Action::SetBookmark(n)),
            Err(e) => Err(e),
        }
    } else if text_eq(name, "move-to-bookmark") {
        match require_name(arg, "move-to-bookmark requires a bookmark name") {
            Ok(n) => Ok(Action::MoveToBookmark(n)),
            Err(e) => Err(e),
        }
    } else if text_eq(name, "zoom-in") {
        Ok(Action::ZoomIn)
    } else if text_eq(name, "zoom-out") {
        Ok(Action::ZoomOut)
    } else if text_eq(name, "zoom-reset") {
        Ok(Action::ZoomReset)
    } else if text_eq(name, "zoom-to-fit") {
        Ok(Action::ZoomToFit)
    } else if text_eq(name, "zoom-to-fit-snapped") {
        Ok(Action::ZoomToFitSnapped)
    } else if text_eq(name, "toggle-fullscreen") {
        Ok(Action::ToggleFullscreen)
    } else if text_eq(name, "fit-window") {
        Ok(Action::FitWindow)
    } else if text_eq(name, "fit-window-snapped") {
        Ok(Action::FitWindowSnapped)
    } else if text_eq(name, "fill-window") {
        Ok(Action::FillWindow)
    } else if text_eq(name, "send-to-output") {
        match require_direction(arg, "send-to-output requires a direction") {
            Ok(d) => Ok(Action::SendToOutput(d)),
            Err(e) => Err(e),
        }
    } else if text_eq(name, "send-cursor-to-output") {
        match require_direction(arg, "send-cursor-to-output requires a direction") {
            Ok(d) => Ok(Action::SendCursorToOutput(d)),
            Err(e) => Err(e),
        }
    } else if text_eq(name, "switch-layout") {
        match parse_layout(arg) {
            Ok(l) => Ok(Action::SwitchLayout(l)),
            Err(e) => Err(e),
        }
    } else if text_eq(name, "toggle-pin-to-screen") {
        Ok(Action::TogglePinToScreen)
    } else if text_eq(name, "reload-config") {
        Ok(Action::ReloadConfig)
    } else if text_eq(name, "toggle-cursor-pan") {
        Ok(Action::ToggleCursorPan)
    } else if text_eq(name, "quit") {
        Ok(Action::Quit)
    } else {
        Err(message("unknown action: ", name))
    }
}

/// Every action name that binds something, with a sample binding value.
pub open spec fn catalog() -> Seq<(Seq<char>, Seq<char>)> {
    seq![
        ("center-nearest"@, "center-nearest up"@),
        ("center-window"@, "center-window"@),
        ("close-window"@, "close-window"@),
        ("cycle-windows"@, "cycle-windows forward"@),
        ("exec"@, "exec foo"@),
        ("exec-launcher"@, "exec-launcher"@),
        ("exec-terminal"@, "exec-terminal"@),
        ("fill-window"@, "fill-window"@),
        ("fit-window"@, "fit-window"@),
        ("fit-window-snapped"@, "fit-window-snapped"@),
        ("focus-center"@, "focus-center"@),
        ("go-to-bookmark"@, "go-to-bookmark 1"@),
        ("home-toggle"@, "home-toggle"@),
        ("move-to-bookmark"@, "move-to-bookmark 1"@),
        ("nudge-window"@, "nudge-window up"@),
        ("pan-viewport"@, "pan-viewport up"@),
        ("quit"@, "quit"@),
        ("reload-config"@, "reload-config"@),
        ("send-cursor-to-output"@, "send-cursor-to-output up"@),
        ("send-to-output"@, "send-to-output up"@),
        ("set-bookmark"@, "set-bookmark 1"@),
        ("spawn"@, "spawn foo"@),
        ("suspend-window"@, "suspend-window"@),
        ("switch-layout"@, "switch-layout next"@),
        ("toggle-cursor-pan"@, "toggle-cursor-pan"@),
        ("toggle-fullscreen"@, "toggle-fullscreen"@),
        ("toggle-pin-to-screen"@, "toggle-pin-to-screen"@),
        ("zoom-in"@, "zoom-in"@),
        ("zoom-out"@, "zoom-out"@),
        ("zoom-reset"@, "zoom-reset"@),
        ("zoom-to-fit"@, "zoom-to-fit"@),
        ("zoom-to-fit-snapped"@, "zoom-to-fit-snapped"@),
    ]
}

/// The views of a sequence of pairs of string slices.
pub open spec fn pair_views(v: Seq<(&str, &str)>) -> Seq<(Seq<char>, Seq<char>)> {
    v.map_values(|p: (&str, &str)| (p.0@, p.1@))
}

/// Every action name `parse_action` accepts, with a canonical sample binding
/// value that parses.
pub fn action_names() -> (r: Vec<(&'static str, &'static str)>)
    ensures
        pair_views(r@) == catalog(),
{
    let r: Vec<(&'static str, &'static str)> = vec![
        ("center-nearest", "center-nearest up"),
        ("center-window", "center-window"),
        ("close-window", "close-window"),
        ("cycle-windows", "cycle-windows forward"),
        ("exec", "exec foo"),
        ("exec-launcher", "exec-launcher"),
        ("exec-terminal", "exec-terminal"),
        ("fill-window", "fill-window"),
        ("fit-window", "fit-window"),
        ("fit-window-snapped", "fit-window-snapped"),
        ("focus-center", "focus-center"),
        ("go-to-bookmark", "go-to-bookmark 1"),
        ("home-toggle", "home-toggle"),
        ("move-to-bookmark", "move-to-bookmark 1"),
        ("nudge-window", "nudge-window up"),
        ("pan-viewport", "pan-viewport up"),
        ("quit", "quit"),
        ("reload-config", "reload-config"),
        ("send-cursor-to-output", "send-cursor-to-output up"),
        ("send-to-output", "send-to-output up"),
        ("set-bookmark", "set-bookmark 1"),
        ("spawn", "spawn foo"),
        ("suspend-window", "suspend-window"),
        ("switch-layout", "switch-layout next"),
        ("toggle-cursor-pan", "toggle-cursor-pan"),
        ("toggle-fullscreen", "toggle-fullscreen"),
        ("toggle-pin-to-screen", "toggle-pin-to-screen"),
        ("zoom-in", "zoom-in"),
        ("zoom-out", "zoom-out"),
        ("zoom-reset", "zoom-reset"),
        ("zoom-to-fit", "zoom-to-fit"),
        ("zoom-to-fit-snapped", "zoom-to-fit-snapped"),
    ];
    proof {
        assert(pair_views(r@) =~= catalog());
    }
    r
}

/// Is `name` in the catalog of actions?
pub open spec fn in_catalog(name: Seq<char>) -> bool {
    exists|i: int| 0 <= i < catalog().len() && (#[trigger] catalog()[i]).0 == name
}

/// Action names that are rejected with a migration message: not bindable, so
/// not in the catalog, but still recognized so that the message survives.
pub open spec fn is_removed(name: Seq<char>) -> bool {
    name == "go-to"@
}

/// The removed action names.
pub fn removed_actions() -> (r: Vec<&'static str>)
    ensures
        r@.len() == 1,
        r@[0]@ == "go-to"@,
{
    vec!["go-to"]
}

fn is_known_name(name: &str) -> (r: bool)
    ensures
        r == (in_catalog(name@) || is_removed(name@)),
{
    let names: Vec<(&'static str, &'static str)> = action_names();
    let n: usize = names.len();
    let mut i: usize = 0;
    while i < n
        invariant
            i <= n,
            n == names@.len(),
            pair_views(names@) == catalog(),
            forall|j: int| 0 <= j < i ==> (#[trigger] catalog()[j]).0 != name@,
        decreases n - i,
    {
        proof {
            assert(pair_views(names@)[i as int] == catalog()[i as int]);
        }
        if text_eq(names[i].0, name) {
            return true;
        }
        i = i + 1;
    }
    proof {
        assert(pair_views(names@).len() == names@.len());
    }
    text_eq(name, "go-to")
}

// ── Mouse actions ────────────────────────────────────────────────────

/// The mouse action that a string stands for: the grab and scroll actions by
/// name, any keyboard action otherwise.
pub open spec fn mouse_action_of(s: Seq<char>) -> Result<MouseActionOf<Seq<char>>, Seq<char>> {
    let w = text::trimmed(s);
    if w == "move-window"@ {
        Ok(MouseActionOf::MoveWindow)
    } else if w == "move-snapped-windows"@ {
        Ok(MouseActionOf::MoveSnappedWindows)
    } else if w == "resize-window"@ {
        Ok(MouseActionOf::ResizeWindow)
    } else if w == "resize-window-snapped"@ {
        Ok(MouseActionOf::ResizeWindowSnapped)
    } else if w == "pan-viewport"@ {
        Ok(MouseActionOf::PanViewport)
    } else if w == "zoom"@ {
        Ok(MouseActionOf::Zoom)
    } else if w == "center-nearest"@ {
        Ok(MouseActionOf::CenterNearest)
    } else {
        match action_of(w) {
            Ok(a) => Ok(MouseActionOf::Action(a)),
            Err(e) => Err(e),
        }
    }
}

/// Parse a mouse action string like "move-window" or "zoom". Continuous and
/// grab actions are matched first; anything else is a keyboard action.
pub fn parse_mouse_action(s: &str) -> (r: Result<MouseAction, String>)
    ensures
        types::modeled(r) == mouse_action_of(s@),
{
    let w: &str = trim(s);
    if text_eq(w, "move-window") {
        Ok(MouseAction::MoveWindow)
    } else if text_eq(w, "move-snapped-windows") {
        Ok(MouseAction::MoveSnappedWindows)
    } else if text_eq(w, "resize-window") {
        Ok(MouseAction::ResizeWindow)
    } else if text_eq(w, "resize-window-snapped") {
        Ok(MouseAction::ResizeWindowSnapped)
    } else if text_eq(w, "pan-viewport") {
        Ok(MouseAction::PanViewport)
    } else if text_eq(w, "zoom") {
        Ok(MouseAction::Zoom)
    } else if text_eq(w, "center-nearest") {
        Ok(MouseAction::CenterNearest)
    } else {
        match parse_action(w) {
            Ok(a) => Ok(MouseAction::Action(a)),
            Err(e) => Err(e),
        }
    }
}

// ── Gestures ─────────────────────────────────────────────────────────

/// The index of the first part that starts with a decimal digit, or the
/// number of parts.
pub open spec fn finger_part(parts: Seq<Seq<char>>, i: int) -> int
    decreases parts.len() - i,
{
    if i >= parts.len() {
        parts.len() as int
    } else if parts[i].len() > 0 && text::digit(parts[i][0]) {
        i
    } else {
        finger_part(parts, i + 1)
    }
}

/// The parts from `i` on with a plus sign between them.
pub open spec fn joined(parts: Seq<Seq<char>>, i: int) -> Seq<char>
    decreases parts.len() - i,
{
    if i >= parts.len() {
        Seq::empty()
    } else if i + 1 == parts.len() {
        parts[i]
    } else {
        parts[i] + "+"@ + joined(parts, i + 1)
    }
}

/// The gesture that a name stands for on a trackpad.
pub open spec fn gesture_kind(w: Seq<char>, fingers: u32) -> Result<GestureTrigger, Seq<char>> {
    if w == "swipe"@ {
        Ok(GestureTrigger::Swipe { fingers })
    } else if w == "swipe-up"@ {
        Ok(GestureTrigger::SwipeUp { fingers })
    } else if w == "swipe-down"@ {
        Ok(GestureTrigger::SwipeDown { fingers })
    } else if w == "swipe-left"@ {
        Ok(GestureTrigger::SwipeLeft { fingers })
    } else if w == "swipe-right"@ {
        Ok(GestureTrigger::SwipeRight { fingers })
    } else if w == "doubletap-swipe"@ {
        Ok(GestureTrigger::DoubletapSwipe { fingers })
    } else if w == "pinch"@ {
        Ok(GestureTrigger::Pinch { fingers })
    } else if w == "pinch-in"@ {
        Ok(GestureTrigger::PinchIn { fingers })
    } else if w == "pinch-out"@ {
        Ok(GestureTrigger::PinchOut { fingers })
    } else if w == "hold"@ {
        Ok(GestureTrigger::Hold { fingers })
    } else {
        Err("unknown gesture type: '"@ + w + "'"@)
    }
}

/// The gesture that a name stands for on a touchscreen.
pub open spec fn touch_kind(w: Seq<char>, fingers: u32) -> Result<GestureTrigger, Seq<char>> {
    if w == "swipe"@ {
        Ok(GestureTrigger::Swipe { fingers })
    } else if w == "swipe-up"@ {
        Ok(GestureTrigger::SwipeUp { fingers })
    } else if w == "swipe-down"@ {
        Ok(GestureTrigger::SwipeDown { fingers })
    } else if w == "swipe-left"@ {
        Ok(GestureTrigger::SwipeLeft { fingers })
    } else if w == "swipe-right"@ {
        Ok(GestureTrigger::SwipeRight { fingers })
    } else if w == "doubletap-swipe"@ {
        Ok(GestureTrigger::DoubletapSwipe { fingers })
    } else if w == "hold-swipe"@ {
        Ok(GestureTrigger::HoldSwipe { fingers })
    } else if w == "doubletap-hold-swipe"@ {
        Ok(GestureTrigger::DoubletapHoldSwipe { fingers })
    } else if w == "pinch"@ {
        Ok(GestureTrigger::Pinch { fingers })
    } else if w == "pinch-in"@ {
        Ok(GestureTrigger::PinchIn { fingers })
    } else if w == "pinch-out"@ {
        Ok(GestureTrigger::PinchOut { fingers })
    } else if w == "tap"@ {
        Ok(GestureTrigger::Tap { fingers })
    } else if w == "doubletap"@ {
        Ok(GestureTrigger::Doubletap { fingers })
    } else {
        Err("unknown touch gesture type: '"@ + w + "'"@)
    }
}

/// The gesture that a lowercase string like "3-finger-swipe" stands for on a
/// trackpad, with two to five fingers.
pub open spec fn gesture_trigger_word(s: Seq<char>) -> Result<GestureTrigger, Seq<char>> {
    match text::split_once_text(s, "-finger-"@) {
        None => Err("invalid gesture trigger '"@ + s + "' (expected N-finger-<type>)"@),
        Some((count, kind)) => match text::unsigned(count, u32::MAX as nat) {
            None => Err("invalid finger count: '"@ + count + "'"@),
            Some(n) => if 2 <= n <= 5 {
                gesture_kind(kind, n as u32)
            } else {
                Err("finger count must be 2-5, got "@ + text::int_text(n as int))
            },
        },
    }
}

/// The gesture that a lowercase string like "1-finger-swipe" stands for on a
/// touchscreen, with one to five fingers.
pub open spec fn touch_trigger_word(s: Seq<char>) -> Result<GestureTrigger, Seq<char>> {
    match text::split_once_text(s, "-finger-"@) {
        None => Err("invalid touch trigger '"@ + s + "' (expected N-finger-<type>)"@),
        Some((count, kind)) => match text::unsigned(count, u32::MAX as nat) {
            None => Err("invalid finger count: '"@ + count + "'"@),
            Some(n) => if 1 <= n <= 5 {
                touch_kind(kind, n as u32)
            } else {
                Err("finger count must be 1-5, got "@ + text::int_text(n as int))
            },
        },
    }
}

/// The gesture that a trackpad trigger string stands for, in any case.
pub open spec fn gesture_trigger_of(s: Seq<char>) -> Result<GestureTrigger, Seq<char>> {
    gesture_trigger_word(text::lowercase(text::trimmed(s)))
}

/// The gesture that a touch trigger string stands for, in any case.
pub open spec fn touch_trigger_of(s: Seq<char>) -> Result<GestureTrigger, Seq<char>> {
    touch_trigger_word(text::lowercase(text::trimmed(s)))
}

/// The binding that a string like "mod+3-finger-swipe" stands for: what stands
/// before the finger count are modifiers.
pub open spec fn gesture_binding_of(s: Seq<char>, mod_key: ModKey) -> Result<
    GestureBinding,
    Seq<char>,
> {
    let low = text::lowercase(text::trimmed(s));
    let parts = text::split_trimmed(low, '+');
    let i = finger_part(parts, 0);
    if i >= parts.len() {
        Err("no gesture trigger found in '"@ + low + "' (expected N-finger-...)"@)
    } else {
        match modifiers_of(parts.take(i), mod_key) {
            Err(e) => Err(e),
            Ok(modifiers) => match gesture_trigger_of(joined(parts, i)) {
                Err(e) => Err(e),
                Ok(trigger) => Ok(GestureBinding { modifiers, trigger }),
            },
        }
    }
}

/// Parse a gesture trigger string like "3-finger-swipe" or "4-finger-pinch-in".
pub fn parse_gesture_trigger(s: &str) -> (r: Result<GestureTrigger, String>)
    ensures
        types::plain(r) == gesture_trigger_of(s@),
{
    let low: String = to_lowercase(trim(s));
    proof {
        reveal_strlit("-finger-");
    }
    match cut_text(low.as_str(), "-finger-") {
        None => Err(
            join3("invalid gesture trigger '", low.as_str(), "' (expected N-finger-<type>)"),
        ),
        Some((count, w)) => {
            match parse_unsigned(count, u32::MAX as u64) {
                None => Err(join3("invalid finger count: '", count, "'")),
                Some(n) => {
                    if 2 <= n && n <= 5 {
                        trackpad_gesture(w, n as u32)
                    } else {
                        let shown: String = show_i64(n as i64);
                        Err(message("finger count must be 2-5, got ", shown.as_str()))
                    }
                },
            }
        },
    }
}

fn trackpad_gesture(w: &str, fingers: u32) -> (r: Result<GestureTrigger, String>)
    ensures
        types::plain(r) == gesture_kind(w@, fingers),
{
    if text_eq(w, "swipe") {
        Ok(GestureTrigger::Swipe { fingers })
    } else if text_eq(w, "swipe-up") {
        Ok(GestureTrigger::SwipeUp { fingers })
    } else if text_eq(w, "swipe-down") {
        Ok(GestureTrigger::SwipeDown { fingers })
    } else if text_eq(w, "swipe-left") {
        Ok(GestureTrigger::SwipeLeft { fingers })
    } else if text_eq(w, "swipe-right") {
        Ok(GestureTrigger::SwipeRight { fingers })
    } else if text_eq(w, "doubletap-swipe") {
        Ok(GestureTrigger::DoubletapSwipe { fingers })
    } else if text_eq(w, "pinch") {
        Ok(GestureTrigger::Pinch { fingers })
    } else if text_eq(w, "pinch-in") {
        Ok(GestureTrigger::PinchIn { fingers })
    } else if text_eq(w, "pinch-out") {
        Ok(GestureTrigger::PinchOut { fingers })
    } else if text_eq(w, "hold") {
        Ok(GestureTrigger::Hold { fingers })
    } else {
        Err(join3("unknown gesture type: '", w, "'"))
    }
}

fn touch_gesture(w: &str, fingers: u32) -> (r: Result<GestureTrigger, String>)
    ensures
        types::plain(r) == touch_kind(w@, fingers),
{
    if text_eq(w, "swipe") {
        Ok(GestureTrigger::Swipe { fingers })
    } else if text_eq(w, "swipe-up") {
        Ok(GestureTrigger::SwipeUp { fingers })
    } else if text_eq(w, "swipe-down") {
        Ok(GestureTrigger::SwipeDown { fingers })
    } else if text_eq(w, "swipe-left") {
        Ok(GestureTrigger::SwipeLeft { fingers })
    } else if text_eq(w, "swipe-right") {
        Ok(GestureTrigger::SwipeRight { fingers })
    } else if text_eq(w, "doubletap-swipe") {
        Ok(GestureTrigger::DoubletapSwipe { fingers })
    } else if text_eq(w, "hold-swipe") {
        Ok(GestureTrigger::HoldSwipe { fingers })
    } else if text_eq(w, "doubletap-hold-swipe") {
        Ok(GestureTrigger::DoubletapHoldSwipe { fingers })
    } else if text_eq(w, "pinch") {
        Ok(GestureTrigger::Pinch { fingers })
    } else if text_eq(w, "pinch-in") {
        Ok(GestureTrigger::PinchIn { fingers })
    } else if text_eq(w, "pinch-out") {
        Ok(GestureTrigger::PinchOut { fingers })
    } else if text_eq(w, "tap") {
        Ok(GestureTrigger::Tap { fingers })
    } else if text_eq(w, "doubletap") {
        Ok(GestureTrigger::Doubletap { fingers })
    } else {
        Err(join3("unknown touch gesture type: '", w, "'"))
    }
}

/// Parse a touch trigger string like "1-finger-swipe", "3-finger-tap" or
/// "3-finger-hold-swipe". Touch has no modifiers (the whole string is the
/// trigger), and one-finger gestures are valid, unlike the trackpad's
/// two-finger floor.
pub fn parse_touch_trigger(s: &str) -> (r: Result<GestureTrigger, String>)
    ensures
        types::plain(r) == touch_trigger_of(s@),
{
    let low: String = to_lowercase(trim(s));
    proof {
        reveal_strlit("-finger-");
    }
    match cut_text(low.as_str(), "-finger-") {
        None => Err(join3("invalid touch trigger '", low.as_str(), "' (expected N-finger-<type>)")),
        Some((count, w)) => {
            match parse_unsigned(count, u32::MAX as u64) {
                None => Err(join3("invalid finger count: '", count, "'")),
                Some(n) => {
                    if 1 <= n && n <= 5 {
                        touch_gesture(w, n as u32)
                    } else {
                        let shown: String = show_i64(n as i64);
                        Err(message("finger count must be 1-5, got ", shown.as_str()))
                    }
                },
            }
        },
    }
}

/// The parts from `i` on with a plus sign between them.
fn join_plus(parts: &Vec<&str>, i: usize) -> (r: String)
    requires
        i < parts@.len(),
    ensures
        r@ == joined(text::views(parts@), i as int),
    decreases parts@.len() - i,
{
    if i == parts.len() - 1 {
        parts[i].to_owned()
    } else {
        let rest: String = join_plus(parts, i + 1);
        join3(parts[i], "+", rest.as_str())
    }
}

fn starts_with_digit(s: &str) -> (r: bool)
    ensures
        r == (s@.len() > 0 && text::digit(s@[0])),
{
    let v: Vec<char> = chars_of(s);
    v.len() > 0 && is_digit(v[0])
}

/// Parse a gesture binding string like "mod+3-finger-swipe".
pub fn parse_gesture_binding(s: &str, mod_key: ModKey) -> (r: Result<GestureBinding, String>)
    ensures
        types::plain(r) == gesture_binding_of(s@, mod_key),
{
    let low: String = to_lowercase(trim(s));
    let parts: Vec<&str> = split_trim(low.as_str(), '+');
    let n: usize = parts.len();
    let ghost all = text::views(parts@);
    let mut i: usize = 0;
    while i < n && !starts_with_digit(parts[i])
        invariant
            i <= n,
            n == parts@.len(),
            all == text::views(parts@),
            finger_part(all, 0) == finger_part(all, i as int),
        decreases n - i,
    {
        proof {
            assert(all[i as int] == parts@[i as int]@);
        }
        i = i + 1;
    }
    if i == n {
        return Err(
            join3("no gesture trigger found in '", low.as_str(), "' (expected N-finger-...)"),
        );
    }
    proof {
        assert(all[i as int] == parts@[i as int]@);
    }
    let modifiers: Modifiers = match parse_modifiers(&parts, i, mod_key) {
        Err(e) => {
            return Err(e);
        },
        Ok(m) => m,
    };
    let trigger_str: String = join_plus(&parts, i);
    match parse_gesture_trigger(trigger_str.as_str()) {
        Err(e) => Err(e),
        Ok(trigger) => Ok(GestureBinding { modifiers, trigger }),
    }
}

/// The continuous action that a string names.
pub open spec fn continuous_of(w: Seq<char>) -> Option<ContinuousAction> {
    if w == "pan-viewport"@ {
        Some(ContinuousAction::PanViewport)
    } else if w == "zoom"@ {
        Some(ContinuousAction::Zoom)
    } else if w == "move-window"@ {
        Some(ContinuousAction::MoveWindow)
    } else if w == "move-snapped-windows"@ {
        Some(ContinuousAction::MoveSnappedWindows)
    } else if w == "resize-window"@ {
        Some(ContinuousAction::ResizeWindow)
    } else if w == "resize-window-snapped"@ {
        Some(ContinuousAction::ResizeWindowSnapped)
    } else {
        None
    }
}

/// Check if an action string names a continuous action.
pub fn parse_continuous_action(w: &str) -> (r: Option<ContinuousAction>)
    ensures
        r == continuous_of(w@),
{
    if text_eq(w, "pan-viewport") {
        Some(ContinuousAction::PanViewport)
    } else if text_eq(w, "zoom") {
        Some(ContinuousAction::Zoom)
    } else if text_eq(w, "move-window") {
        Some(ContinuousAction::MoveWindow)
    } else if text_eq(w, "move-snapped-windows") {
        Some(ContinuousAction::MoveSnappedWindows)
    } else if text_eq(w, "resize-window") {
        Some(ContinuousAction::ResizeWindow)
    } else if text_eq(w, "resize-window-snapped") {
        Some(ContinuousAction::ResizeWindowSnapped)
    } else {
        None
    }
}

/// The first word of a text.
pub open spec fn first_word(s: Seq<char>) -> Seq<char> {
    let t = text::trim_start(s);
    t.take(text::find_white(t, 0))
}

/// The threshold action that a string names: every keyboard action, and bare
/// `center-nearest`, whose direction comes from the swipe. A known name keeps
/// its own error; an unknown one is no threshold action.
pub open spec fn threshold_of(s: Seq<char>) -> Result<
    Option<ThresholdActionOf<Seq<char>>>,
    Seq<char>,
> {
    if s == "center-nearest"@ {
        Ok(Some(ThresholdActionOf::CenterNearest))
    } else if continuous_of(s) is Some {
        Ok(None)
    } else {
        match action_of(s) {
            Ok(a) => Ok(Some(ThresholdActionOf::Fixed(a))),
            Err(e) => if in_catalog(first_word(s)) || is_removed(first_word(s)) {
                Err(e)
            } else {
                Ok(None)
            },
        }
    }
}

/// Model of an optional threshold action.
pub open spec fn opt_threshold(o: Option<ThresholdAction>) -> Option<
    ThresholdActionOf<Seq<char>>,
> {
    match o {
        Some(t) => Some(t@),
        None => None,
    }
}

proof fn lemma_find_white(s: Seq<char>, i: int)
    requires
        0 <= i <= s.len(),
    ensures
        i <= text::find_white(s, i) <= s.len(),
    decreases s.len() - i,
{
    if i < s.len() {
        lemma_find_white(s, i + 1);
    }
}

/// The first whitespace-separated word of `s`.
fn leading_word(s: &str) -> (r: &str)
    ensures
        r@ == first_word(s@),
{
    let t: &str = text::skip_white(s);
    match cut_white(t) {
        Some((w, _)) => w,
        None => {
            proof {
                lemma_find_white(t@, 0);
                assert(t@.take(t@.len() as int) =~= t@);
            }
            t
        },
    }
}

/// Classify `s` as a threshold action. A known action name with a bad argument
/// keeps its specific parse error; an unknown name yields `None`, so that the
/// caller's generic message applies.
pub fn parse_threshold_action(s: &str) -> (r: Result<Option<ThresholdAction>, String>)
    ensures
        match r {
            Ok(o) => threshold_of(s@) == Ok::<Option<ThresholdActionOf<Seq<char>>>, Seq<char>>(
                opt_threshold(o),
            ),
            Err(e) => threshold_of(s@) == Err::<Option<ThresholdActionOf<Seq<char>>>, Seq<char>>(
                e@,
            ),
        },
{
    if text_eq(s, "center-nearest") {
        return Ok(Some(ThresholdAction::CenterNearest));
    }
    if parse_continuous_action(s).is_some() {
        return Ok(None);
    }
    match parse_action(s) {
        Ok(action) => Ok(Some(ThresholdAction::Fixed(action))),
        Err(e) => {
            if is_known_name(leading_word(s)) {
                Err(e)
            } else {
                Ok(None)
            }
        },
    }
}

/// Does a continuous action grab a window?
pub open spec fn grabs_window(c: ContinuousAction) -> bool {
    c is MoveWindow || c is MoveSnappedWindows || c is ResizeWindow || c is ResizeWindowSnapped
}

pub open spec fn grab_only_message() -> Seq<char> {
    "doubletap-swipe/hold-swipe/doubletap-hold-swipe only support the window-grab actions: move-window, move-snapped-windows, resize-window, resize-window-snapped"@
}

pub open spec fn needs_swipe_message() -> Seq<char> {
    "center-nearest requires a swipe trigger (needs direction from input)"@
}

/// A threshold action, or the message that the text `s` names no action.
pub open spec fn threshold_entry(
    t: Option<ThresholdActionOf<Seq<char>>>,
    unknown: Seq<char>,
    s: Seq<char>,
) -> Result<GestureConfigEntryOf<Seq<char>>, Seq<char>> {
    match t {
        Some(a) => Ok(GestureConfigEntryOf::Threshold(a)),
        None => Err(unknown + s + "'"@),
    }
}

/// What a trackpad trigger accepts: the entry for a trigger, given how the
/// action text `s` reads as a continuous and as a threshold action.
pub open spec fn entry_for(
    trigger: GestureTrigger,
    s: Seq<char>,
    c: Option<ContinuousAction>,
    t: Option<ThresholdActionOf<Seq<char>>>,
) -> Result<GestureConfigEntryOf<Seq<char>>, Seq<char>> {
    let unknown = "unknown gesture action: '"@;
    match trigger {
        GestureTrigger::Swipe { .. } => match c {
            Some(ContinuousAction::Zoom) => Err(
                "zoom requires a pinch trigger (needs scale from input)"@,
            ),
            Some(ca) => Ok(GestureConfigEntryOf::Continuous(ca)),
            None => threshold_entry(t, unknown, s),
        },
        GestureTrigger::DoubletapSwipe { .. }
        | GestureTrigger::HoldSwipe { .. }
        | GestureTrigger::DoubletapHoldSwipe { .. } => match c {
            Some(ca) => if grabs_window(ca) {
                Ok(GestureConfigEntryOf::Continuous(ca))
            } else {
                Err(grab_only_message())
            },
            None => match t {
                Some(_) => Err(grab_only_message()),
                None => Err(unknown + s + "'"@),
            },
        },
        GestureTrigger::SwipeUp { .. }
        | GestureTrigger::SwipeDown { .. }
        | GestureTrigger::SwipeLeft { .. }
        | GestureTrigger::SwipeRight { .. } => if c is Some {
            Err("per-direction swipe triggers only accept threshold actions, not '"@ + s + "'"@)
        } else {
            threshold_entry(t, unknown, s)
        },
        GestureTrigger::Pinch { .. } => match c {
            Some(ContinuousAction::Zoom) => Ok(
                GestureConfigEntryOf::Continuous(ContinuousAction::Zoom),
            ),
            _ => Err("pinch only supports zoom; use pinch-in/pinch-out for discrete actions"@),
        },
        GestureTrigger::PinchIn { .. } | GestureTrigger::PinchOut { .. } => if c is Some {
            Err("pinch-in/pinch-out triggers only accept threshold actions, not '"@ + s + "'"@)
        } else if t == Some(ThresholdActionOf::<Seq<char>>::CenterNearest) {
            Err(needs_swipe_message())
        } else {
            threshold_entry(t, unknown, s)
        },
        GestureTrigger::Hold { .. } => if c is Some {
            Err("hold trigger only accepts threshold actions, not '"@ + s + "'"@)
        } else if t == Some(ThresholdActionOf::<Seq<char>>::CenterNearest) {
            Err(needs_swipe_message())
        } else {
            threshold_entry(t, unknown, s)
        },
        GestureTrigger::Tap { .. } | GestureTrigger::Doubletap { .. } => Err(
            "tap/doubletap are touch-only triggers"@,
        ),
    }
}

/// The entry that a trackpad trigger and an action string make.
pub open spec fn gesture_entry_of(trigger: GestureTrigger, s: Seq<char>) -> Result<
    GestureConfigEntryOf<Seq<char>>,
    Seq<char>,
> {
    let a = text::trimmed(s);
    match threshold_of(a) {
        Err(e) => Err(e),
        Ok(t) => entry_for(trigger, a, continuous_of(a), t),
    }
}

/// The entry that a touch trigger and an action string make: taps have rules
/// of their own, every other trigger follows the trackpad's.
pub open spec fn touch_entry_of(trigger: GestureTrigger, s: Seq<char>) -> Result<
    GestureConfigEntryOf<Seq<char>>,
    Seq<char>,
> {
    let a = text::trimmed(s);
    if trigger is Tap || trigger is Doubletap {
        if continuous_of(a) is Some {
            Err("tap/doubletap triggers only accept threshold actions, not '"@ + a + "'"@)
        } else {
            match threshold_of(a) {
                Err(e) => Err(e),
                Ok(t) => if t == Some(ThresholdActionOf::<Seq<char>>::CenterNearest) {
                    Err(needs_swipe_message())
                } else {
                    threshold_entry(t, "unknown touch action: '"@, a)
                },
            }
        }
    } else {
        gesture_entry_of(trigger, a)
    }
}

fn require_threshold(t: Option<ThresholdAction>, unknown: &str, s: &str) -> (r: Result<
    GestureConfigEntry,
    String,
>)
    ensures
        types::modeled(r) == threshold_entry(opt_threshold(t), unknown@, s@),
{
    match t {
        Some(a) => Ok(GestureConfigEntry::Threshold(a)),
        None => Err(join3(unknown, s, "'")),
    }
}

fn is_center_nearest(t: &Option<ThresholdAction>) -> (r: bool)
    ensures
        r == (opt_threshold(*t) == Some(ThresholdActionOf::<Seq<char>>::CenterNearest)),
{
    match t {
        Some(ThresholdActionOf::CenterNearest) => true,
        _ => false,
    }
}

/// Validate a trigger and action combination.
pub fn parse_gesture_config_entry(trigger: &GestureTrigger, action_str: &str) -> (r: Result<
    GestureConfigEntry,
    String,
>)
    ensures
        types::modeled(r) == gesture_entry_of(*trigger, action_str@),
{
    let s: &str = trim(action_str);
    let is_continuous: Option<ContinuousAction> = parse_continuous_action(s);
    let is_threshold: Option<ThresholdAction> = match parse_threshold_action(s) {
        Err(e) => {
            return Err(e);
        },
        Ok(t) => t,
    };
    match *trigger {
        GestureTrigger::Swipe { .. } => match is_continuous {
            Some(ContinuousAction::Zoom) => Err(
                "zoom requires a pinch trigger (needs scale from input)".to_owned(),
            ),
            Some(ca) => Ok(GestureConfigEntry::Continuous(ca)),
            None => require_threshold(is_threshold, "unknown gesture action: '", s),
        },
        GestureTrigger::DoubletapSwipe { .. }
        | GestureTrigger::HoldSwipe { .. }
        | GestureTrigger::DoubletapHoldSwipe { .. } => match is_continuous {
            Some(ca) => match ca {
                ContinuousAction::MoveWindow
                | ContinuousAction::MoveSnappedWindows
                | ContinuousAction::ResizeWindow
                | ContinuousAction::ResizeWindowSnapped => Ok(GestureConfigEntry::Continuous(ca)),
                _ => Err(
                    "doubletap-swipe/hold-swipe/doubletap-hold-swipe only support the window-grab actions: move-window, move-snapped-windows, resize-window, resize-window-snapped".to_owned(),
                ),
            },
            None => match is_threshold {
                Some(_) => Err(
                    "doubletap-swipe/hold-swipe/doubletap-hold-swipe only support the window-grab actions: move-window, move-snapped-windows, resize-window, resize-window-snapped".to_owned(),
                ),
                None => Err(join3("unknown gesture action: '", s, "'")),
            },
        },
        GestureTrigger::SwipeUp { .. }
        | GestureTrigger::SwipeDown { .. }
        | GestureTrigger::SwipeLeft { .. }
        | GestureTrigger::SwipeRight { .. } => {
            if is_continuous.is_some() {
                Err(
                    join3(
                        "per-direction swipe triggers only accept threshold actions, not '",
                        s,
                        "'",
                    ),
                )
            } else {
                require_threshold(is_threshold, "unknown gesture action: '", s)
            }
        },
        GestureTrigger::Pinch { .. } => match is_continuous {
            Some(ContinuousAction::Zoom) => Ok(
                GestureConfigEntry::Continuous(ContinuousAction::Zoom),
            ),
            _ => Err(
                "pinch only supports zoom; use pinch-in/pinch-out for discrete actions".to_owned(),
            ),
        },
        GestureTrigger::PinchIn { .. } | GestureTrigger::PinchOut { .. } => {
            if is_continuous.is_some() {
                Err(
                    join3(
                        "pinch-in/pinch-out triggers only accept threshold actions, not '",
                        s,
                        "'",
                    ),
                )
            } else if is_center_nearest(&is_threshold) {
                Err(
                    "center-nearest requires a swipe trigger (needs direction from input)".to_owned(),
                )
            } else {
                require_threshold(is_threshold, "unknown gesture action: '", s)
            }
        },
        GestureTrigger::Hold { .. } => {
            if is_continuous.is_some() {
                Err(join3("hold trigger only accepts threshold actions, not '", s, "'"))
            } else if is_center_nearest(&is_threshold) {
                Err(
                    "center-nearest requires a swipe trigger (needs direction from input)".to_owned(),
                )
            } else {
                require_threshold(is_threshold, "unknown gesture action: '", s)
            }
        },
        GestureTrigger::Tap { .. } | GestureTrigger::Doubletap { .. } => Err(
            "tap/doubletap are touch-only triggers".to_owned(),
        ),
    }
}

/// Validate a touch trigger and action combination. Touch adds its own tap and
/// doubletap rules; every other trigger shares the trackpad's.
pub fn parse_touch_config_entry(trigger: &GestureTrigger, action_str: &str) -> (r: Result<
    GestureConfigEntry,
    String,
>)
    ensures
        types::modeled(r) == touch_entry_of(*trigger, action_str@),
{
    let s: &str = trim(action_str);
    match *trigger {
        GestureTrigger::Tap { .. } | GestureTrigger::Doubletap { .. } => {
            if parse_continuous_action(s).is_some() {
                return Err(
                    join3("tap/doubletap triggers only accept threshold actions, not '", s, "'"),
                );
            }
            match parse_threshold_action(s) {
                Err(e) => Err(e),
                Ok(t) => {
                    if is_center_nearest(&t) {
                        Err(
                            "center-nearest requires a swipe trigger (needs direction from input)".to_owned(),
                        )
                    } else {
                        require_threshold(t, "unknown touch action: '", s)
                    }
                },
            }
        },
        _ => parse_gesture_config_entry(trigger, s),
    }
}

} // verus!
