//! Window rules: what a `[[window_rules]]` entry asks for, and how the rules
//! that match one window combine.
use vstd::prelude::*;

use crate::config::colors;
use crate::config::colors::{parse_color, Rgba};
use crate::config::decoration;
use crate::config::decoration::{clamp_unit, DecorationMode, ONE};
use crate::config::numbers::{Number, Real};
use crate::config::parse;
use crate::config::parse::{parse_key_combo, KeysymTable};
use crate::config::patterns;
use crate::config::patterns::{parse_pattern, Pattern, PatternOf};
use crate::config::types;
use crate::config::types::{KeyCombo, ModKey};
use crate::config::warnings;
use crate::config::warnings::{clamp_warn, collect_warn, Severity, Warnings};
use crate::text;
use crate::text::{join3, join4, join5, show_i64, text_eq};

verus! {

/// A `pass_keys` value: `true`/`false`, or a list of key combos.
#[derive(Debug, PartialEq, Eq)]
pub enum PassKeysFile {
    Bool(bool),
    Keys(Vec<String>),
}

/// A `[[window_rules]]` entry as the file holds it.
#[derive(Debug, Default, PartialEq, Eq)]
pub struct WindowRuleFile {
    pub app_id: Option<String>,
    pub title: Option<String>,
    pub position: Option<(i32, i32)>,
    pub size: Option<(i32, i32)>,
    pub fullscreen: Option<bool>,
    pub focus_on_open: Option<bool>,
    pub widget: bool,
    pub pinned_to_screen: bool,
    pub suspend_on_close: Option<bool>,
    pub preserve_aspect_ratio: bool,
    pub decoration: Option<String>,
    pub blur: Option<bool>,
    pub opacity: Option<Number>,
    pub pass_keys: Option<PassKeysFile>,
    pub border_width: Option<i32>,
    pub border_color: Option<String>,
    pub border_color_focused: Option<String>,
    pub corner_radius: Option<i32>,
    pub shadow: Option<bool>,
    pub output: Option<String>,
    pub layer_order: Option<i32>,
}

/// Every color text of the entry can be read.
pub open spec fn rule_readable(r: WindowRuleFile) -> bool {
    colors::opt_readable(r.border_color) && colors::opt_readable(r.border_color_focused)
}

/// Which keys a window gets although the compositor binds them.
#[derive(Debug, PartialEq, Eq)]
pub enum PassKeysOf<L> {
    /// None of them.
    Off,
    All,
    Only(L),
}

pub type PassKeys = PassKeysOf<Vec<KeyCombo>>;

pub open spec fn pass_keys_model(k: PassKeys) -> PassKeysOf<Seq<KeyCombo>> {
    match k {
        PassKeysOf::Off => PassKeysOf::Off,
        PassKeysOf::All => PassKeysOf::All,
        PassKeysOf::Only(v) => PassKeysOf::Only(v@),
    }
}

/// A validated window rule. A `decoration` that is not set leaves the window
/// to the `[decorations]` default.
#[derive(Debug, PartialEq, Eq)]
pub struct WindowRuleOf<S, L> {
    pub app_id: Option<PatternOf<S>>,
    pub title: Option<PatternOf<S>>,
    pub position: Option<(i32, i32)>,
    pub size: Option<(i32, i32)>,
    pub fullscreen: Option<bool>,
    pub focus_on_open: Option<bool>,
    pub widget: bool,
    pub pinned_to_screen: bool,
    pub suspend_on_close: Option<bool>,
    pub preserve_aspect_ratio: bool,
    pub decoration: Option<DecorationMode>,
    pub blur: bool,
    pub opacity: Option<Real>,
    pub pass_keys: PassKeysOf<L>,
    pub border_width: Option<i32>,
    pub border_color: Option<Rgba>,
    pub border_color_focused: Option<Rgba>,
    pub corner_radius: Option<i32>,
    pub shadow: Option<bool>,
    pub output: Option<S>,
    pub layer_order: Option<i32>,
}

pub type WindowRule = WindowRuleOf<String, Vec<KeyCombo>>;

/// Model of a window rule.
pub type RuleModel = WindowRuleOf<Seq<char>, Seq<KeyCombo>>;

pub open spec fn opt_pattern(o: Option<Pattern>) -> Option<PatternOf<Seq<char>>> {
    match o {
        Some(p) => Some(p@),
        None => None,
    }
}

impl View for WindowRuleOf<String, Vec<KeyCombo>> {
    type V = WindowRuleOf<Seq<char>, Seq<KeyCombo>>;

    open spec fn view(&self) -> WindowRuleOf<Seq<char>, Seq<KeyCombo>> {
        WindowRuleOf {
            app_id: opt_pattern(self.app_id),
            title: opt_pattern(self.title),
            position: self.position,
            size: self.size,
            fullscreen: self.fullscreen,
            focus_on_open: self.focus_on_open,
            widget: self.widget,
            pinned_to_screen: self.pinned_to_screen,
            suspend_on_close: self.suspend_on_close,
            preserve_aspect_ratio: self.preserve_aspect_ratio,
            decoration: self.decoration,
            blur: self.blur,
            opacity: self.opacity,
            pass_keys: pass_keys_model(self.pass_keys),
            border_width: self.border_width,
            border_color: self.border_color,
            border_color_focused: self.border_color_focused,
            corner_radius: self.corner_radius,
            shadow: self.shadow,
            output: types::opt_text(self.output),
            layer_order: self.layer_order,
        }
    }
}

/// What the rules that match a window add up to.
#[derive(Debug, PartialEq, Eq)]
pub struct AppliedWindowRuleOf<S, L> {
    pub position: Option<(i32, i32)>,
    pub size: Option<(i32, i32)>,
    pub fullscreen: Option<bool>,
    pub focus_on_open: Option<bool>,
    pub widget: bool,
    pub pinned_to_screen: bool,
    pub suspend_on_close: Option<bool>,
    pub preserve_aspect_ratio: bool,
    pub decoration: Option<DecorationMode>,
    pub blur: bool,
    pub opacity: Option<Real>,
    pub pass_keys: PassKeysOf<L>,
    pub border_width: Option<i32>,
    pub border_color: Option<Rgba>,
    pub border_color_focused: Option<Rgba>,
    pub corner_radius: Option<i32>,
    pub shadow: Option<bool>,
    pub output: Option<S>,
    pub layer_order: Option<i32>,
}

pub type AppliedWindowRule = AppliedWindowRuleOf<String, Vec<KeyCombo>>;

/// Model of an applied rule.
pub type AppliedModel = AppliedWindowRuleOf<Seq<char>, Seq<KeyCombo>>;

impl View for AppliedWindowRuleOf<String, Vec<KeyCombo>> {
    type V = AppliedWindowRuleOf<Seq<char>, Seq<KeyCombo>>;

    open spec fn view(&self) -> AppliedWindowRuleOf<Seq<char>, Seq<KeyCombo>> {
        AppliedWindowRuleOf {
            position: self.position,
            size: self.size,
            fullscreen: self.fullscreen,
            focus_on_open: self.focus_on_open,
            widget: self.widget,
            pinned_to_screen: self.pinned_to_screen,
            suspend_on_close: self.suspend_on_close,
            preserve_aspect_ratio: self.preserve_aspect_ratio,
            decoration: self.decoration,
            blur: self.blur,
            opacity: self.opacity,
            pass_keys: pass_keys_model(self.pass_keys),
            border_width: self.border_width,
            border_color: self.border_color,
            border_color_focused: self.border_color_focused,
            corner_radius: self.corner_radius,
            shadow: self.shadow,
            output: types::opt_text(self.output),
            layer_order: self.layer_order,
        }
    }
}

// ── Reading an entry ─────────────────────────────────────────────────

/// The mode that a rule's `decoration` names.
pub open spec fn rule_mode_of(o: Option<String>) -> Option<DecorationMode> {
    match o {
        None => None,
        Some(s) => if s@ == "none"@ {
            Some(DecorationMode::Bare)
        } else if s@ == "minimal"@ {
            Some(DecorationMode::Minimal)
        } else if s@ == "server"@ {
            Some(DecorationMode::Server)
        } else if s@ == "client"@ {
            Some(DecorationMode::Client)
        } else {
            None
        },
    }
}

pub open spec fn rule_mode_warning(o: Option<String>) -> Seq<(Severity, Seq<char>)> {
    match o {
        Some(s) => if rule_mode_of(o) is None {
            warnings::rejected(
                "config: unknown decoration mode '"@ + s@
                    + "', falling through to default_mode"@,
            )
        } else {
            warnings::silent()
        },
        None => warnings::silent(),
    }
}

/// The combos that a list of texts stands for, in order, without those that
/// stand for none.
pub open spec fn pass_combos(
    keys: Seq<Seq<char>>,
    mod_key: ModKey,
    table: Seq<(Seq<char>, u32)>,
) -> Seq<KeyCombo>
    decreases keys.len(),
{
    if keys.len() == 0 {
        Seq::empty()
    } else {
        let before = pass_combos(keys.drop_last(), mod_key, table);
        match parse::key_combo_of(keys.last(), mod_key, table) {
            Ok(c) => before.push(types::normal_combo(c)),
            Err(_) => before,
        }
    }
}

/// The warnings `w`, followed by one for each text that stands for no combo.
pub open spec fn pass_warnings(
    w: Seq<(Severity, Seq<char>)>,
    keys: Seq<Seq<char>>,
    mod_key: ModKey,
    table: Seq<(Seq<char>, u32)>,
) -> Seq<(Severity, Seq<char>)>
    decreases keys.len(),
{
    if keys.len() == 0 {
        w
    } else {
        let before = pass_warnings(w, keys.drop_last(), mod_key, table);
        match parse::key_combo_of(keys.last(), mod_key, table) {
            Ok(_) => before,
            Err(e) => before + warnings::rejected(
                "config: pass_keys invalid key combo '"@ + keys.last() + "': "@ + e,
            ),
        }
    }
}

/// The keys that a `pass_keys` value passes on.
pub open spec fn pass_keys_of(
    o: Option<PassKeysFile>,
    mod_key: ModKey,
    table: Seq<(Seq<char>, u32)>,
) -> PassKeysOf<Seq<KeyCombo>> {
    match o {
        None => PassKeysOf::Off,
        Some(PassKeysFile::Bool(b)) => if b {
            PassKeysOf::All
        } else {
            PassKeysOf::Off
        },
        Some(PassKeysFile::Keys(strs)) => {
            let combos = pass_combos(text::string_views(strs@), mod_key, table);
            if combos.len() == 0 {
                PassKeysOf::Off
            } else {
                PassKeysOf::Only(combos)
            }
        },
    }
}

pub open spec fn pass_keys_warnings(
    w: Seq<(Severity, Seq<char>)>,
    o: Option<PassKeysFile>,
    mod_key: ModKey,
    table: Seq<(Seq<char>, u32)>,
) -> Seq<(Severity, Seq<char>)> {
    match o {
        Some(PassKeysFile::Keys(strs)) => pass_warnings(
            w,
            text::string_views(strs@),
            mod_key,
            table,
        ),
        _ => w,
    }
}

pub open spec fn pattern_or_none(o: Option<String>) -> Option<PatternOf<Seq<char>>> {
    match o {
        Some(s) => Some(patterns::pattern_of(s@)),
        None => None,
    }
}

pub open spec fn pattern_warnings(o: Option<String>) -> Seq<(Severity, Seq<char>)> {
    match o {
        Some(s) => patterns::pattern_warning(s@),
        None => warnings::silent(),
    }
}

pub open spec fn size_of_rule(o: Option<(i32, i32)>) -> Option<(i32, i32)> {
    match o {
        Some((w, h)) => if w > 0 && h > 0 {
            Some((w, h))
        } else {
            None
        },
        None => None,
    }
}

pub open spec fn size_warning(o: Option<(i32, i32)>) -> Seq<(Severity, Seq<char>)> {
    match o {
        Some((w, h)) => if w > 0 && h > 0 {
            warnings::silent()
        } else {
            warnings::rejected(
                "config: window rule size must be positive, got ["@ + text::int_text(w as int)
                    + ", "@ + text::int_text(h as int) + "]"@,
            )
        },
        None => warnings::silent(),
    }
}

pub open spec fn rule_opacity(o: Option<Number>) -> Option<Real> {
    match o {
        Some(n) => Some(
            decoration::clamped(
                n@,
                decoration::number(0, "0"@),
                decoration::number(ONE, "1"@),
            ),
        ),
        None => None,
    }
}

pub open spec fn rule_opacity_warning(o: Option<Number>) -> Seq<(Severity, Seq<char>)> {
    match o {
        Some(n) => decoration::clamped_warning(
            n@,
            decoration::number(0, "0"@),
            decoration::number(ONE, "1"@),
            "window rule opacity"@,
        ),
        None => warnings::silent(),
    }
}

pub open spec fn rule_length(o: Option<i32>) -> Option<i32> {
    match o {
        Some(n) => Some(warnings::clamp_of(n, 0, i32::MAX)),
        None => None,
    }
}

pub open spec fn rule_length_warning(o: Option<i32>, field: Seq<char>) -> Seq<
    (Severity, Seq<char>),
> {
    match o {
        Some(n) => warnings::clamp_warning(n, 0, i32::MAX, field),
        None => warnings::silent(),
    }
}

pub open spec fn rule_color(o: Option<String>) -> Option<Rgba> {
    match o {
        Some(s) => colors::color_of(s@),
        None => None,
    }
}

pub open spec fn rule_color_warning(o: Option<String>, field: Seq<char>) -> Seq<
    (Severity, Seq<char>),
> {
    colors::color_warning(o, "config: window rule "@ + field + " '"@, "' invalid, ignoring"@)
}

/// The rule that an entry stands for: none where it matches on neither
/// `app_id` nor `title`.
pub open spec fn window_rule_of(
    r: WindowRuleFile,
    mod_key: ModKey,
    table: Seq<(Seq<char>, u32)>,
) -> Option<WindowRuleOf<Seq<char>, Seq<KeyCombo>>> {
    if r.app_id is None && r.title is None {
        None
    } else {
        Some(
            WindowRuleOf {
                app_id: pattern_or_none(r.app_id),
                title: pattern_or_none(r.title),
                position: r.position,
                size: size_of_rule(r.size),
                fullscreen: r.fullscreen,
                focus_on_open: r.focus_on_open,
                widget: r.widget,
                pinned_to_screen: r.pinned_to_screen,
                suspend_on_close: r.suspend_on_close,
                preserve_aspect_ratio: r.preserve_aspect_ratio,
                decoration: rule_mode_of(r.decoration),
                blur: decoration::or_else(r.blur, false),
                opacity: rule_opacity(r.opacity),
                pass_keys: pass_keys_of(r.pass_keys, mod_key, table),
                border_width: rule_length(r.border_width),
                border_color: rule_color(r.border_color),
                border_color_focused: rule_color(r.border_color_focused),
                corner_radius: rule_length(r.corner_radius),
                shadow: r.shadow,
                output: types::opt_text(r.output),
                layer_order: r.layer_order,
            },
        )
    }
}

/// The warnings `w`, followed by those of an entry.
pub open spec fn window_rule_warnings(
    w: Seq<(Severity, Seq<char>)>,
    r: WindowRuleFile,
    mod_key: ModKey,
    table: Seq<(Seq<char>, u32)>,
) -> Seq<(Severity, Seq<char>)> {
    if r.app_id is None && r.title is None {
        w + warnings::rejected(
            "config: window rule has no match criteria (app_id/title), skipping"@,
        )
    } else {
        pass_keys_warnings(w + rule_mode_warning(r.decoration), r.pass_keys, mod_key, table)
            + pattern_warnings(r.app_id) + pattern_warnings(r.title) + size_warning(r.size)
            + rule_opacity_warning(r.opacity) + rule_length_warning(
            r.border_width,
            "window rule border_width"@,
        ) + rule_length_warning(r.corner_radius, "window rule corner_radius"@)
            + rule_color_warning(r.border_color, "border_color"@) + rule_color_warning(
            r.border_color_focused,
            "border_color_focused"@,
        )
    }
}

fn parse_rule_mode(o: &Option<String>, errors: &mut Warnings) -> (r: Option<DecorationMode>)
    ensures
        r == rule_mode_of(*o),
        warnings::warned(final(errors)@) == warnings::warned(old(errors)@) + rule_mode_warning(*o),
{
    proof {
        warnings::lemma_silent(warnings::warned(errors@));
    }
    match o {
        None => None,
        Some(s) => {
            if text_eq(s.as_str(), "none") {
                Some(DecorationMode::Bare)
            } else if text_eq(s.as_str(), "minimal") {
                Some(DecorationMode::Minimal)
            } else if text_eq(s.as_str(), "server") {
                Some(DecorationMode::Server)
            } else if text_eq(s.as_str(), "client") {
                Some(DecorationMode::Client)
            } else {
                collect_warn(
                    errors,
                    join3(
                        "config: unknown decoration mode '",
                        s.as_str(),
                        "', falling through to default_mode",
                    ),
                );
                None
            }
        },
    }
}

fn parse_pass_keys(
    o: &Option<PassKeysFile>,
    mod_key: ModKey,
    keysyms: &KeysymTable,
    errors: &mut Warnings,
) -> (r: PassKeys)
    ensures
        pass_keys_model(r) == pass_keys_of(*o, mod_key, keysyms@),
        warnings::warned(final(errors)@) == pass_keys_warnings(
            warnings::warned(old(errors)@),
            *o,
            mod_key,
            keysyms@,
        ),
{
    match o {
        None => PassKeys::Off,
        Some(PassKeysFile::Bool(b)) => {
            if *b {
                PassKeys::All
            } else {
                PassKeys::Off
            }
        },
        Some(PassKeysFile::Keys(strs)) => {
            let mut combos: Vec<KeyCombo> = Vec::new();
            let n: usize = strs.len();
            let ghost keys = text::string_views(strs@);
            let ghost start = warnings::warned(errors@);
            let mut i: usize = 0;
            while i < n
                invariant
                    i <= n,
                    n == strs@.len(),
                    keys == text::string_views(strs@),
                    combos@ == pass_combos(keys.take(i as int), mod_key, keysyms@),
                    warnings::warned(errors@) == pass_warnings(
                        start,
                        keys.take(i as int),
                        mod_key,
                        keysyms@,
                    ),
                decreases n - i,
            {
                proof {
                    assert(keys.take(i + 1).drop_last() =~= keys.take(i as int));
                    assert(keys.take(i + 1).last() == strs@[i as int]@);
                }
                match parse_key_combo(strs[i].as_str(), mod_key, keysyms) {
                    Ok(c) => {
                        let mut combo: KeyCombo = c;
                        combo.normalize();
                        combos.push(combo);
                    },
                    Err(e) => {
                        collect_warn(
                            errors,
                            join4(
                                "config: pass_keys invalid key combo '",
                                strs[i].as_str(),
                                "': ",
                                e.as_str(),
                            ),
                        );
                    },
                }
                i = i + 1;
            }
            proof {
                assert(keys.take(n as int) =~= keys);
            }
            if combos.len() == 0 {
                PassKeys::Off
            } else {
                PassKeys::Only(combos)
            }
        },
    }
}

fn parse_opt_pattern(o: &Option<String>, errors: &mut Warnings) -> (r: Option<Pattern>)
    ensures
        opt_pattern(r) == pattern_or_none(*o),
        warnings::warned(final(errors)@) == warnings::warned(old(errors)@) + pattern_warnings(*o),
{
    match o {
        Some(s) => Some(parse_pattern(s.as_str(), errors)),
        None => {
            proof {
                warnings::lemma_silent(warnings::warned(errors@));
            }
            None
        },
    }
}

fn parse_rule_size(o: Option<(i32, i32)>, errors: &mut Warnings) -> (r: Option<(i32, i32)>)
    ensures
        r == size_of_rule(o),
        warnings::warned(final(errors)@) == warnings::warned(old(errors)@) + size_warning(o),
{
    proof {
        warnings::lemma_silent(warnings::warned(errors@));
    }
    match o {
        None => None,
        Some((w, h)) => {
            if w > 0 && h > 0 {
                Some((w, h))
            } else {
                let ws: String = show_i64(w as i64);
                let hs: String = show_i64(h as i64);
                collect_warn(
                    errors,
                    join5(
                        "config: window rule size must be positive, got [",
                        ws.as_str(),
                        ", ",
                        hs.as_str(),
                        "]",
                    ),
                );
                None
            }
        },
    }
}

fn parse_rule_length(o: Option<i32>, field: &str, errors: &mut Warnings) -> (r: Option<i32>)
    ensures
        r == rule_length(o),
        warnings::warned(final(errors)@) == warnings::warned(old(errors)@) + rule_length_warning(
            o,
            field@,
        ),
{
    match o {
        Some(n) => Some(clamp_warn(n, 0, i32::MAX, field, errors)),
        None => {
            proof {
                warnings::lemma_silent(warnings::warned(errors@));
            }
            None
        },
    }
}

fn parse_rule_opacity(o: &Option<Number>, errors: &mut Warnings) -> (r: Option<Real>)
    ensures
        r == rule_opacity(*o),
        warnings::warned(final(errors)@) == warnings::warned(old(errors)@) + rule_opacity_warning(
            *o,
        ),
{
    match o {
        Some(n) => Some(clamp_unit(n.duplicate(), "window rule opacity", errors)),
        None => {
            proof {
                warnings::lemma_silent(warnings::warned(errors@));
            }
            None
        },
    }
}

fn parse_rule_color(o: &Option<String>, field: &str, errors: &mut Warnings) -> (r: Option<Rgba>)
    requires
        colors::opt_readable(*o),
    ensures
        r == rule_color(*o),
        warnings::warned(final(errors)@) == warnings::warned(old(errors)@) + rule_color_warning(
            *o,
            field@,
        ),
{
    proof {
        warnings::lemma_silent(warnings::warned(errors@));
    }
    match o {
        None => None,
        Some(s) => {
            let parsed: Option<Rgba> = parse_color(s.as_str());
            if parsed.is_none() {
                collect_warn(
                    errors,
                    join5("config: window rule ", field, " '", s.as_str(), "' invalid, ignoring"),
                );
            }
            parsed
        },
    }
}

/// A copy of an optional text.
pub fn clone_text(o: &Option<String>) -> (r: Option<String>)
    ensures
        r == *o,
{
    match o {
        Some(s) => Some(s.clone()),
        None => None,
    }
}

/// Process a `[[window_rules]]` entry.
pub fn parse_window_rule(
    r: &WindowRuleFile,
    mod_key: ModKey,
    keysyms: &KeysymTable,
    errors: &mut Warnings,
) -> (res: Option<WindowRule>)
    requires
        rule_readable(*r),
    ensures
        match res {
            Some(rule) => window_rule_of(*r, mod_key, keysyms@) == Some(rule@),
            None => window_rule_of(*r, mod_key, keysyms@) is None,
        },
        warnings::warned(final(errors)@) == window_rule_warnings(
            warnings::warned(old(errors)@),
            *r,
            mod_key,
            keysyms@,
        ),
{
    if r.app_id.is_none() && r.title.is_none() {
        collect_warn(
            errors,
            "config: window rule has no match criteria (app_id/title), skipping".to_owned(),
        );
        return None;
    }
    let decoration: Option<DecorationMode> = parse_rule_mode(&r.decoration, errors);
    let pass_keys: PassKeys = parse_pass_keys(&r.pass_keys, mod_key, keysyms, errors);
    let app_id: Option<Pattern> = parse_opt_pattern(&r.app_id, errors);
    let title: Option<Pattern> = parse_opt_pattern(&r.title, errors);
    let size: Option<(i32, i32)> = parse_rule_size(r.size, errors);
    let opacity: Option<Real> = parse_rule_opacity(&r.opacity, errors);
    let border_width: Option<i32> = parse_rule_length(
        r.border_width,
        "window rule border_width",
        errors,
    );
    let corner_radius: Option<i32> = parse_rule_length(
        r.corner_radius,
        "window rule corner_radius",
        errors,
    );
    let border_color: Option<Rgba> = parse_rule_color(&r.border_color, "border_color", errors);
    let border_color_focused: Option<Rgba> = parse_rule_color(
        &r.border_color_focused,
        "border_color_focused",
        errors,
    );
    Some(
        WindowRule {
            app_id,
            title,
            position: r.position,
            size,
            fullscreen: r.fullscreen,
            focus_on_open: r.focus_on_open,
            widget: r.widget,
            pinned_to_screen: r.pinned_to_screen,
            suspend_on_close: r.suspend_on_close,
            preserve_aspect_ratio: r.preserve_aspect_ratio,
            decoration,
            blur: r.blur.unwrap_or(false),
            opacity,
            pass_keys,
            border_width,
            border_color,
            border_color_focused,
            corner_radius,
            shadow: r.shadow,
            output: clone_text(&r.output),
            layer_order: r.layer_order,
        },
    )
}

// ── Matching and merging ─────────────────────────────────────────────

/// Does a rule match a window? A criterion that is not set matches anything.
pub open spec fn rule_matches(
    r: WindowRuleOf<Seq<char>, Seq<KeyCombo>>,
    app_id: Seq<char>,
    title: Seq<char>,
) -> bool {
    &&& (r.app_id is Some ==> patterns::pattern_matches(r.app_id->0, app_id))
    &&& (r.title is Some ==> patterns::pattern_matches(r.title->0, title))
}

impl WindowRuleOf<String, Vec<KeyCombo>> {
    /// Does the rule match a window?
    pub fn matches(&self, app_id: &str, title: &str) -> (r: bool)
        ensures
            r == rule_matches(self@, app_id@, title@),
    {
        let a: bool = match &self.app_id {
            Some(p) => p.matches(app_id),
            None => true,
        };
        let t: bool = match &self.title {
            Some(p) => p.matches(title),
            None => true,
        };
        a && t
    }
}

/// A later setting overrides an earlier one, where it is there.
pub open spec fn later<T>(a: Option<T>, b: Option<T>) -> Option<T> {
    if b is Some {
        b
    } else {
        a
    }
}

/// `a`, followed by those of `b` that are not yet there.
pub open spec fn with_combos(a: Seq<KeyCombo>, b: Seq<KeyCombo>) -> Seq<KeyCombo>
    decreases b.len(),
{
    if b.len() == 0 {
        a
    } else {
        let before = with_combos(a, b.drop_last());
        if before.contains(b.last()) {
            before
        } else {
            before.push(b.last())
        }
    }
}

/// Passed keys stay passed: a later rule only adds to them.
pub open spec fn merged_keys(
    a: PassKeysOf<Seq<KeyCombo>>,
    b: PassKeysOf<Seq<KeyCombo>>,
) -> PassKeysOf<Seq<KeyCombo>> {
    match (a, b) {
        (PassKeysOf::All, _) => PassKeysOf::All,
        (_, PassKeysOf::All) => PassKeysOf::All,
        (_, PassKeysOf::Off) => a,
        (PassKeysOf::Off, _) => b,
        (PassKeysOf::Only(x), PassKeysOf::Only(y)) => PassKeysOf::Only(with_combos(x, y)),
    }
}

/// What one rule applies.
pub open spec fn applied_from(r: WindowRuleOf<Seq<char>, Seq<KeyCombo>>) -> AppliedWindowRuleOf<
    Seq<char>,
    Seq<KeyCombo>,
> {
    AppliedWindowRuleOf {
        position: r.position,
        size: r.size,
        fullscreen: r.fullscreen,
        focus_on_open: r.focus_on_open,
        widget: r.widget,
        pinned_to_screen: r.pinned_to_screen,
        suspend_on_close: r.suspend_on_close,
        preserve_aspect_ratio: r.preserve_aspect_ratio,
        decoration: r.decoration,
        blur: r.blur,
        opacity: r.opacity,
        pass_keys: r.pass_keys,
        border_width: r.border_width,
        border_color: r.border_color,
        border_color_focused: r.border_color_focused,
        corner_radius: r.corner_radius,
        shadow: r.shadow,
        output: r.output,
        layer_order: r.layer_order,
    }
}

/// What a later rule adds: its settings override, its flags only switch on.
pub open spec fn applied_merge(
    a: AppliedWindowRuleOf<Seq<char>, Seq<KeyCombo>>,
    r: WindowRuleOf<Seq<char>, Seq<KeyCombo>>,
) -> AppliedWindowRuleOf<Seq<char>, Seq<KeyCombo>> {
    AppliedWindowRuleOf {
        position: later(a.position, r.position),
        size: later(a.size, r.size),
        fullscreen: later(a.fullscreen, r.fullscreen),
        focus_on_open: later(a.focus_on_open, r.focus_on_open),
        widget: a.widget || r.widget,
        pinned_to_screen: a.pinned_to_screen || r.pinned_to_screen,
        suspend_on_close: later(a.suspend_on_close, r.suspend_on_close),
        preserve_aspect_ratio: a.preserve_aspect_ratio || r.preserve_aspect_ratio,
        decoration: later(a.decoration, r.decoration),
        blur: a.blur || r.blur,
        opacity: later(a.opacity, r.opacity),
        pass_keys: merged_keys(a.pass_keys, r.pass_keys),
        border_width: later(a.border_width, r.border_width),
        border_color: later(a.border_color, r.border_color),
        border_color_focused: later(a.border_color_focused, r.border_color_focused),
        corner_radius: later(a.corner_radius, r.corner_radius),
        shadow: later(a.shadow, r.shadow),
        output: later(a.output, r.output),
        layer_order: later(a.layer_order, r.layer_order),
    }
}

fn pick<T: Copy>(a: Option<T>, b: Option<T>) -> (r: Option<T>)
    ensures
        r == later(a, b),
{
    match b {
        Some(_) => b,
        None => a,
    }
}

fn has_combo(v: &Vec<KeyCombo>, c: KeyCombo) -> (r: bool)
    ensures
        r == v@.contains(c),
{
    let n: usize = v.len();
    let mut i: usize = 0;
    while i < n
        invariant
            i <= n,
            n == v@.len(),
            forall|j: int| 0 <= j < i ==> v@[j] != c,
        decreases n - i,
    {
        if v[i] == c {
            return true;
        }
        i = i + 1;
    }
    false
}

fn add_combos(a: &mut Vec<KeyCombo>, b: &Vec<KeyCombo>)
    ensures
        final(a)@ == with_combos(old(a)@, b@),
{
    let n: usize = b.len();
    let ghost start = a@;
    let mut i: usize = 0;
    while i < n
        invariant
            i <= n,
            n == b@.len(),
            a@ == with_combos(start, b@.take(i as int)),
        decreases n - i,
    {
        proof {
            assert(b@.take(i + 1).drop_last() =~= b@.take(i as int));
        }
        if !has_combo(a, b[i]) {
            a.push(b[i]);
        }
        i = i + 1;
    }
    proof {
        assert(b@.take(n as int) =~= b@);
    }
}

fn clone_combos(v: &Vec<KeyCombo>) -> (r: Vec<KeyCombo>)
    ensures
        r@ == v@,
{
    let mut r: Vec<KeyCombo> = Vec::new();
    let n: usize = v.len();
    let mut i: usize = 0;
    while i < n
        invariant
            i <= n,
            n == v@.len(),
            r@ == v@.take(i as int),
        decreases n - i,
    {
        r.push(v[i]);
        i = i + 1;
    }
    r
}

fn clone_keys(k: &PassKeys) -> (r: PassKeys)
    ensures
        pass_keys_model(r) == pass_keys_model(*k),
{
    match k {
        PassKeysOf::Off => PassKeysOf::Off,
        PassKeysOf::All => PassKeysOf::All,
        PassKeysOf::Only(v) => PassKeysOf::Only(clone_combos(v)),
    }
}

impl AppliedWindowRuleOf<String, Vec<KeyCombo>> {
    /// What one rule applies.
    pub fn from_rule(rule: &WindowRule) -> (r: AppliedWindowRule)
        ensures
            r@ == applied_from(rule@),
    {
        AppliedWindowRule {
            position: rule.position,
            size: rule.size,
            fullscreen: rule.fullscreen,
            focus_on_open: rule.focus_on_open,
            widget: rule.widget,
            pinned_to_screen: rule.pinned_to_screen,
            suspend_on_close: rule.suspend_on_close,
            preserve_aspect_ratio: rule.preserve_aspect_ratio,
            decoration: rule.decoration,
            blur: rule.blur,
            opacity: rule.opacity,
            pass_keys: clone_keys(&rule.pass_keys),
            border_width: rule.border_width,
            border_color: rule.border_color,
            border_color_focused: rule.border_color_focused,
            corner_radius: rule.corner_radius,
            shadow: rule.shadow,
            output: clone_text(&rule.output),
            layer_order: rule.layer_order,
        }
    }

    fn merge_keys(&mut self, keys: &PassKeys)
        ensures
            final(self)@ == (AppliedWindowRuleOf::<Seq<char>, Seq<KeyCombo>> {
                pass_keys: merged_keys(old(self)@.pass_keys, pass_keys_model(*keys)),
                ..old(self)@
            }),
    {
        match keys {
            PassKeysOf::All => {
                self.pass_keys = PassKeysOf::All;
            },
            PassKeysOf::Off => {},
            PassKeysOf::Only(more) => {
                match &mut self.pass_keys {
                    PassKeysOf::All => {},
                    PassKeysOf::Off => {
                        self.pass_keys = PassKeysOf::Only(clone_combos(more));
                    },
                    PassKeysOf::Only(have) => {
                        add_combos(have, more);
                    },
                }
            },
        }
    }

    /// Merge a later rule in.
    pub fn merge_from(&mut self, rule: &WindowRule)
        ensures
            final(self)@ == applied_merge(old(self)@, rule@),
    {
        self.merge_keys(&rule.pass_keys);
        self.position = pick(self.position, rule.position);
        self.size = pick(self.size, rule.size);
        self.fullscreen = pick(self.fullscreen, rule.fullscreen);
        self.focus_on_open = pick(self.focus_on_open, rule.focus_on_open);
        self.widget = self.widget || rule.widget;
        self.pinned_to_screen = self.pinned_to_screen || rule.pinned_to_screen;
        self.suspend_on_close = pick(self.suspend_on_close, rule.suspend_on_close);
        self.preserve_aspect_ratio = self.preserve_aspect_ratio || rule.preserve_aspect_ratio;
        self.decoration = pick(self.decoration, rule.decoration);
        self.blur = self.blur || rule.blur;
        self.opacity = pick(self.opacity, rule.opacity);
        self.border_width = pick(self.border_width, rule.border_width);
        self.border_color = pick(self.border_color, rule.border_color);
        self.border_color_focused = pick(self.border_color_focused, rule.border_color_focused);
        self.corner_radius = pick(self.corner_radius, rule.corner_radius);
        self.shadow = pick(self.shadow, rule.shadow);
        if rule.output.is_some() {
            self.output = clone_text(&rule.output);
        }
        self.layer_order = pick(self.layer_order, rule.layer_order);
    }
}

/// Does a rule take part for a layer instance? A rule with a position does so
/// only if it is the instance's own.
pub open spec fn takes_part(
    rules: Seq<WindowRuleOf<Seq<char>, Seq<KeyCombo>>>,
    i: int,
    instance: Option<int>,
) -> bool {
    instance is Some && rules[i].position is Some ==> instance == Some(i)
}

/// What the first `n` rules apply to a window.
pub open spec fn applied_upto(
    rules: Seq<WindowRuleOf<Seq<char>, Seq<KeyCombo>>>,
    app_id: Seq<char>,
    title: Seq<char>,
    instance: Option<int>,
    n: int,
) -> Option<AppliedWindowRuleOf<Seq<char>, Seq<KeyCombo>>>
    decreases n,
{
    if n <= 0 {
        None
    } else {
        let before = applied_upto(rules, app_id, title, instance, n - 1);
        if rule_matches(rules[n - 1], app_id, title) && takes_part(rules, n - 1, instance) {
            match before {
                None => Some(applied_from(rules[n - 1])),
                Some(a) => Some(applied_merge(a, rules[n - 1])),
            }
        } else {
            before
        }
    }
}

/// The first index at or after `i` of a rule that matches, or the number of
/// rules.
pub open spec fn first_match(
    rules: Seq<WindowRuleOf<Seq<char>, Seq<KeyCombo>>>,
    app_id: Seq<char>,
    title: Seq<char>,
    i: int,
) -> int
    decreases rules.len() - i,
{
    if i >= rules.len() {
        rules.len() as int
    } else if rule_matches(rules[i], app_id, title) {
        i
    } else {
        first_match(rules, app_id, title, i + 1)
    }
}

/// The index of the `n`th rule (from 0) at or after `i` that matches and has a
/// position, or the number of rules.
pub open spec fn nth_positioned(
    rules: Seq<WindowRuleOf<Seq<char>, Seq<KeyCombo>>>,
    app_id: Seq<char>,
    title: Seq<char>,
    n: nat,
    i: int,
) -> int
    decreases rules.len() - i,
{
    if i >= rules.len() {
        rules.len() as int
    } else if rules[i].position is Some && rule_matches(rules[i], app_id, title) {
        if n == 0 {
            i
        } else {
            nth_positioned(rules, app_id, title, (n - 1) as nat, i + 1)
        }
    } else {
        nth_positioned(rules, app_id, title, n, i + 1)
    }
}

/// The models of a list of rules.
pub open spec fn rule_models(rules: Seq<WindowRule>) -> Seq<
    WindowRuleOf<Seq<char>, Seq<KeyCombo>>,
> {
    rules.map_values(|r: WindowRule| r@)
}

/// The index of the first rule that matches, or the number of rules.
pub fn find_rule(rules: &Vec<WindowRule>, app_id: &str, title: &str) -> (r: usize)
    ensures
        r == first_match(rule_models(rules@), app_id@, title@, 0),
        r <= rules@.len(),
{
    let n: usize = rules.len();
    let ghost all = rule_models(rules@);
    let mut i: usize = 0;
    while i < n
        invariant
            i <= n,
            n == rules@.len(),
            all == rule_models(rules@),
            first_match(all, app_id@, title@, 0) == first_match(all, app_id@, title@, i as int),
        decreases n - i,
    {
        proof {
            assert(all[i as int] == rules@[i as int]@);
        }
        if rules[i].matches(app_id, title) {
            return i;
        }
        i = i + 1;
    }
    n
}

/// The index of the `n`th rule (from 0) that matches and has a position, or
/// the number of rules.
pub fn find_positioned(rules: &Vec<WindowRule>, app_id: &str, title: &str, n: usize) -> (r: usize)
    ensures
        r == nth_positioned(rule_models(rules@), app_id@, title@, n as nat, 0),
        r <= rules@.len(),
{
    let len: usize = rules.len();
    let ghost all = rule_models(rules@);
    let mut left: usize = n;
    let mut i: usize = 0;
    while i < len
        invariant
            i <= len,
            len == rules@.len(),
            all == rule_models(rules@),
            nth_positioned(all, app_id@, title@, n as nat, 0) == nth_positioned(
                all,
                app_id@,
                title@,
                left as nat,
                i as int,
            ),
        decreases len - i,
    {
        proof {
            assert(all[i as int] == rules@[i as int]@);
        }
        if rules[i].position.is_some() && rules[i].matches(app_id, title) {
            if left == 0 {
                return i;
            }
            left = left - 1;
        }
        i = i + 1;
    }
    len
}

/// Model of an optional applied rule.
pub open spec fn opt_applied(o: Option<AppliedWindowRule>) -> Option<
    AppliedWindowRuleOf<Seq<char>, Seq<KeyCombo>>,
> {
    match o {
        Some(a) => Some(a@),
        None => None,
    }
}

/// Model of the index of a layer instance's own rule.
pub open spec fn opt_index(o: Option<usize>) -> Option<int> {
    match o {
        Some(i) => Some(i as int),
        None => None,
    }
}

/// Merge all the rules that match, in order. With an `instance`, rules with a
/// position take part only at that index.
pub fn merge_rules(
    rules: &Vec<WindowRule>,
    app_id: &str,
    title: &str,
    instance: Option<usize>,
) -> (r: Option<AppliedWindowRule>)
    ensures
        opt_applied(r) == applied_upto(
            rule_models(rules@),
            app_id@,
            title@,
            opt_index(instance),
            rules@.len() as int,
        ),
{
    let n: usize = rules.len();
    let ghost all = rule_models(rules@);
    let mut result: Option<AppliedWindowRule> = None;
    let mut i: usize = 0;
    while i < n
        invariant
            i <= n,
            n == rules@.len(),
            all == rule_models(rules@),
            opt_applied(result) == applied_upto(
                all,
                app_id@,
                title@,
                opt_index(instance),
                i as int,
            ),
        decreases n - i,
    {
        proof {
            assert(all[i as int] == rules@[i as int]@);
        }
        let excluded: bool = match instance {
            Some(k) => rules[i].position.is_some() && k != i,
            None => false,
        };
        if !excluded && rules[i].matches(app_id, title) {
            result = match result {
                None => Some(AppliedWindowRule::from_rule(&rules[i])),
                Some(a) => {
                    let mut merged: AppliedWindowRule = a;
                    merged.merge_from(&rules[i]);
                    Some(merged)
                },
            };
        }
        i = i + 1;
    }
    result
}

/// The decoration mode of a window: what a rule sets, else the default.
pub fn effective_decoration_mode(rule: Option<DecorationMode>, default: DecorationMode) -> (r:
    DecorationMode)
    ensures
        r == decoration::or_else(rule, default),
{
    match rule {
        Some(m) => m,
        None => default,
    }
}

} // verus!
