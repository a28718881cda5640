//! User bindings merged over the defaults.
use vstd::prelude::*;

use crate::config::bindings;
use crate::config::bindings::{BindingContext, BindingMap, ContextBindings, ContextOf};
use crate::config::parse;
use crate::config::parse::{
    parse_action, parse_gesture_binding, parse_gesture_config_entry, parse_key_combo,
    parse_mouse_action, parse_mouse_binding, parse_tap_combo, parse_touch_config_entry,
    parse_touch_trigger, KeysymTable,
};
use crate::config::raw::{ContextTables, Table};
use crate::config::types;
use crate::config::types::{
    Action, ActionOf, GestureBinding, GestureConfigEntry, GestureConfigEntryOf, GestureTrigger,
    KeyCombo, ModKey, Modifiers, MouseAction, MouseActionOf, MouseBinding,
};
use crate::config::warnings;
use crate::config::warnings::{collect_warn, Severity, Warnings};
use crate::text;
use crate::text::{contains_text, join3, join4, join5, split_trim, text_eq};

verus! {

/// Model of a table of strings.
pub open spec fn table_views(t: Seq<(String, String)>) -> Seq<(Seq<char>, Seq<char>)> {
    t.map_values(|p: (String, String)| (p.0@, p.1@))
}

/// Model of an optional table: one that is absent is empty.
pub open spec fn opt_table(t: Option<Table>) -> Seq<(Seq<char>, Seq<char>)> {
    match t {
        Some(v) => table_views(v@),
        None => Seq::empty(),
    }
}

// ── Default categories ───────────────────────────────────────────────

/// Default bindings that are switched off.
#[derive(Clone, Copy, Debug, PartialEq, Eq, Structural)]
pub struct DisabledDefaults {
    pub keys: bool,
    pub mouse: bool,
    pub gestures: bool,
}

/// The categories that a list names.
pub open spec fn disabled_of(list: Seq<Seq<char>>) -> DisabledDefaults {
    DisabledDefaults {
        keys: list.contains("keys"@),
        mouse: list.contains("mouse"@),
        gestures: list.contains("gestures"@),
    }
}

pub open spec fn is_category(s: Seq<char>) -> bool {
    s == "keys"@ || s == "mouse"@ || s == "gestures"@
}

/// The warnings `w`, followed by one for each name that is no category.
pub open spec fn disabled_warnings(w: Seq<(Severity, Seq<char>)>, list: Seq<Seq<char>>) -> Seq<
    (Severity, Seq<char>),
>
    decreases list.len(),
{
    if list.len() == 0 {
        w
    } else {
        let before = disabled_warnings(w, list.drop_last());
        if is_category(list.last()) {
            before
        } else {
            before + warnings::rejected(
                "config: unknown bindings.disable_defaults category '"@ + list.last()
                    + "' (expected \"keys\", \"mouse\", or \"gestures\")"@,
            )
        }
    }
}

/// Model of an optional list of strings: one that is absent is empty.
pub open spec fn opt_list(o: Option<Vec<String>>) -> Seq<Seq<char>> {
    match o {
        Some(v) => text::string_views(v@),
        None => Seq::empty(),
    }
}

fn list_has(v: &Vec<String>, s: &str) -> (r: bool)
    ensures
        r == text::string_views(v@).contains(s@),
{
    let n: usize = v.len();
    let ghost all = text::string_views(v@);
    let mut i: usize = 0;
    while i < n
        invariant
            i <= n,
            n == v@.len(),
            all == text::string_views(v@),
            forall|j: int| 0 <= j < i ==> all[j] != s@,
        decreases n - i,
    {
        proof {
            assert(all[i as int] == v@[i as int]@);
        }
        if text_eq(v[i].as_str(), s) {
            return true;
        }
        i = i + 1;
    }
    false
}

/// Which default categories a list switches off.
pub fn parse_disabled(o: &Option<Vec<String>>, errors: &mut Warnings) -> (r: DisabledDefaults)
    ensures
        r == disabled_of(opt_list(*o)),
        warnings::warned(final(errors)@) == disabled_warnings(
            warnings::warned(old(errors)@),
            opt_list(*o),
        ),
{
    match o {
        None => DisabledDefaults { keys: false, mouse: false, gestures: false },
        Some(v) => {
            let n: usize = v.len();
            let ghost all = text::string_views(v@);
            let ghost start = warnings::warned(errors@);
            let mut i: usize = 0;
            while i < n
                invariant
                    i <= n,
                    n == v@.len(),
                    all == text::string_views(v@),
                    warnings::warned(errors@) == disabled_warnings(start, all.take(i as int)),
                decreases n - i,
            {
                proof {
                    assert(all.take(i + 1).drop_last() =~= all.take(i as int));
                    assert(all.take(i + 1).last() == v@[i as int]@);
                }
                let c: &str = v[i].as_str();
                if !text_eq(c, "keys") && !text_eq(c, "mouse") && !text_eq(c, "gestures") {
                    collect_warn(
                        errors,
                        join3(
                            "config: unknown bindings.disable_defaults category '",
                            c,
                            "' (expected \"keys\", \"mouse\", or \"gestures\")",
                        ),
                    );
                }
                i = i + 1;
            }
            proof {
                assert(all.take(n as int) =~= all);
            }
            DisabledDefaults {
                keys: list_has(v, "keys"),
                mouse: list_has(v, "mouse"),
                gestures: list_has(v, "gestures"),
            }
        },
    }
}

// ── Key bindings ─────────────────────────────────────────────────────

/// The key bindings, the tap bindings and the warnings after an entry. A
/// bare modifier chord is a tap binding; `none` removes a binding.
pub open spec fn key_step(
    st: (
        Seq<(KeyCombo, ActionOf<Seq<char>>)>,
        Seq<(Modifiers, ActionOf<Seq<char>>)>,
        Seq<(Severity, Seq<char>)>,
    ),
    entry: (Seq<char>, Seq<char>),
    mod_key: ModKey,
    table: Seq<(Seq<char>, u32)>,
) -> (
    Seq<(KeyCombo, ActionOf<Seq<char>>)>,
    Seq<(Modifiers, ActionOf<Seq<char>>)>,
    Seq<(Severity, Seq<char>)>,
) {
    let (keys, taps, w) = st;
    let (key, action) = entry;
    match parse::tap_of(key, mod_key) {
        Some(mods) => if action == "none"@ {
            (keys, bindings::unbind(taps, mods), w)
        } else {
            match parse::action_of(action) {
                Ok(a) => (keys, bindings::bind(taps, mods, a), w),
                Err(e) => (keys, taps, w + invalid_action(action, e)),
            }
        },
        None => match parse::key_combo_of(key, mod_key, table) {
            Ok(c) => {
                let combo = types::normal_combo(c);
                if action == "none"@ {
                    (bindings::unbind(keys, combo), taps, w)
                } else {
                    match parse::action_of(action) {
                        Ok(a) => (bindings::bind(keys, combo, a), taps, w),
                        Err(e) => (keys, taps, w + invalid_action(action, e)),
                    }
                }
            },
            Err(e) => (
                keys,
                taps,
                w + warnings::rejected("config: invalid key combo '"@ + key + "': "@ + e),
            ),
        },
    }
}

pub open spec fn invalid_action(action: Seq<char>, e: Seq<char>) -> Seq<(Severity, Seq<char>)> {
    warnings::rejected("config: invalid action '"@ + action + "': "@ + e)
}

/// The key bindings, the tap bindings and the warnings after all entries.
pub open spec fn keys_after(
    st: (
        Seq<(KeyCombo, ActionOf<Seq<char>>)>,
        Seq<(Modifiers, ActionOf<Seq<char>>)>,
        Seq<(Severity, Seq<char>)>,
    ),
    entries: Seq<(Seq<char>, Seq<char>)>,
    mod_key: ModKey,
    table: Seq<(Seq<char>, u32)>,
) -> (
    Seq<(KeyCombo, ActionOf<Seq<char>>)>,
    Seq<(Modifiers, ActionOf<Seq<char>>)>,
    Seq<(Severity, Seq<char>)>,
)
    decreases entries.len(),
{
    if entries.len() == 0 {
        st
    } else {
        key_step(
            keys_after(st, entries.drop_last(), mod_key, table),
            entries.last(),
            mod_key,
            table,
        )
    }
}

fn merge_key(
    key: &str,
    action: &str,
    mod_key: ModKey,
    keysyms: &KeysymTable,
    keys: &mut BindingMap<KeyCombo, Action>,
    taps: &mut BindingMap<Modifiers, Action>,
    errors: &mut Warnings,
)
    ensures
        (final(keys)@, final(taps)@, warnings::warned(final(errors)@)) == key_step(
            (old(keys)@, old(taps)@, warnings::warned(old(errors)@)),
            (key@, action@),
            mod_key,
            keysyms@,
        ),
        bindings::distinct(old(keys)@) ==> bindings::distinct(final(keys)@),
        bindings::distinct(old(taps)@) ==> bindings::distinct(final(taps)@),
{
    match parse_tap_combo(key, mod_key) {
        Some(Ok(mods)) => {
            if text_eq(action, "none") {
                taps.remove(&mods);
            } else {
                match parse_action(action) {
                    Ok(a) => {
                        taps.insert(mods, a);
                    },
                    Err(e) => {
                        collect_warn(
                            errors,
                            join4("config: invalid action '", action, "': ", e.as_str()),
                        );
                    },
                }
            }
        },
        Some(Err(_)) => {},
        None => match parse_key_combo(key, mod_key, keysyms) {
            Ok(c) => {
                let mut combo: KeyCombo = c;
                combo.normalize();
                if text_eq(action, "none") {
                    keys.remove(&combo);
                } else {
                    match parse_action(action) {
                        Ok(a) => {
                            keys.insert(combo, a);
                        },
                        Err(e) => {
                            collect_warn(
                                errors,
                                join4("config: invalid action '", action, "': ", e.as_str()),
                            );
                        },
                    }
                }
            },
            Err(e) => {
                collect_warn(errors, join4("config: invalid key combo '", key, "': ", e.as_str()));
            },
        },
    }
}

/// Merge a `[keybindings]` table.
pub fn merge_keys(
    t: &Option<Table>,
    mod_key: ModKey,
    keysyms: &KeysymTable,
    keys: &mut BindingMap<KeyCombo, Action>,
    taps: &mut BindingMap<Modifiers, Action>,
    errors: &mut Warnings,
)
    ensures
        (final(keys)@, final(taps)@, warnings::warned(final(errors)@)) == keys_after(
            (old(keys)@, old(taps)@, warnings::warned(old(errors)@)),
            opt_table(*t),
            mod_key,
            keysyms@,
        ),
        bindings::distinct(old(keys)@) ==> bindings::distinct(final(keys)@),
        bindings::distinct(old(taps)@) ==> bindings::distinct(final(taps)@),
{
    if let Some(v) = t {
        let n: usize = v.len();
        let ghost all = table_views(v@);
        let ghost st = (keys@, taps@, warnings::warned(errors@));
        let mut i: usize = 0;
        while i < n
            invariant
                i <= n,
                n == v@.len(),
                all == table_views(v@),
                (keys@, taps@, warnings::warned(errors@)) == keys_after(
                    st,
                    all.take(i as int),
                    mod_key,
                    keysyms@,
                ),
                bindings::distinct(st.0) ==> bindings::distinct(keys@),
                bindings::distinct(st.1) ==> bindings::distinct(taps@),
            decreases n - i,
        {
            proof {
                assert(all.take(i + 1).drop_last() =~= all.take(i as int));
                assert(all.take(i + 1).last() == (v@[i as int].0@, v@[i as int].1@));
            }
            merge_key(v[i].0.as_str(), v[i].1.as_str(), mod_key, keysyms, keys, taps, errors);
            i = i + 1;
        }
        proof {
            assert(all.take(n as int) =~= all);
        }
    }
}

/// The first index at or after `i` that is bound to cycling forward, or the
/// length.
pub open spec fn forward_index(keys: Seq<(KeyCombo, ActionOf<Seq<char>>)>, i: int) -> int
    decreases keys.len() - i,
{
    if i >= keys.len() {
        keys.len() as int
    } else if keys[i].1 == (ActionOf::<Seq<char>>::CycleWindows { backward: false }) {
        i
    } else {
        forward_index(keys, i + 1)
    }
}

/// The modifiers whose release commits a window cycle: those of the
/// `cycle-windows forward` binding, or Alt where it has none.
pub open spec fn cycle_hold_of(keys: Seq<(KeyCombo, ActionOf<Seq<char>>)>) -> Modifiers {
    let i = forward_index(keys, 0);
    if i < keys.len() && keys[i].0.modifiers != types::no_modifiers() {
        keys[i].0.modifiers
    } else {
        Modifiers { alt: true, ..types::no_modifiers() }
    }
}

/// The modifiers whose release commits a window cycle.
pub fn cycle_hold(keys: &BindingMap<KeyCombo, Action>) -> (r: Modifiers)
    ensures
        r == cycle_hold_of(keys@),
{
    let n: usize = keys.entries.len();
    let mut i: usize = 0;
    while i < n
        invariant
            i <= n,
            n == keys.entries@.len(),
            forward_index(keys@, 0) == forward_index(keys@, i as int),
        decreases n - i,
    {
        proof {
            assert(keys@[i as int] == (keys.entries@[i as int].0, keys.entries@[i as int].1@));
        }
        let forward: bool = match &keys.entries[i].1 {
            ActionOf::CycleWindows { backward } => !*backward,
            _ => false,
        };
        if forward {
            let m: Modifiers = keys.entries[i].0.modifiers;
            if m.is_empty() {
                return Modifiers { alt: true, ..Modifiers::empty() };
            }
            return m;
        }
        i = i + 1;
    }
    Modifiers { alt: true, ..Modifiers::empty() }
}

// ── Tap conflicts ────────────────────────────────────────────────────

/// Does a layout-switch option consume the modifiers of a tap chord? Only a
/// toggle on a pair of modifiers does.
pub open spec fn option_consumes(mods: Modifiers, opt: Seq<char>) -> bool {
    ||| mods.alt && mods.shift && text::has_text(opt, "alt"@) && text::has_text(opt, "shift"@)
    ||| mods.ctrl && mods.shift && (text::has_text(opt, "ctrl"@) || text::has_text(
        opt,
        "control"@,
    )) && text::has_text(opt, "shift"@)
}

/// The first option at or after `i` that consumes the modifiers.
pub open spec fn conflict_from(mods: Modifiers, opts: Seq<Seq<char>>, i: int) -> Option<Seq<char>>
    decreases opts.len() - i,
{
    if i >= opts.len() {
        None
    } else if option_consumes(mods, opts[i]) {
        Some(opts[i])
    } else {
        conflict_from(mods, opts, i + 1)
    }
}

/// The option of a comma-separated list that makes a tap chord unreachable.
pub open spec fn tap_conflict(mods: Modifiers, options: Seq<char>) -> Option<Seq<char>> {
    conflict_from(mods, text::split_trimmed(options, ','), 0)
}

/// If a tap chord would be made unreachable by a layout-switch option in
/// `options` (comma-separated), return that option. Only toggles on a pair of
/// modifiers conflict: they turn the second modifier into a layout switch, so
/// the pair never forms a held chord.
pub fn tap_option_conflict<'a>(mods: &Modifiers, options: &'a str) -> (r: Option<&'a str>)
    ensures
        parse::opt_str(r) == tap_conflict(*mods, options@),
{
    let opts: Vec<&'a str> = split_trim(options, ',');
    let ghost all = text::views(opts@);
    let n: usize = opts.len();
    let mut i: usize = 0;
    while i < n
        invariant
            i <= n,
            n == opts@.len(),
            all == text::views(opts@),
            conflict_from(*mods, all, 0) == conflict_from(*mods, all, i as int),
            all == text::split_trimmed(options@, ','),
        decreases n - i,
    {
        let opt: &'a str = opts[i];
        proof {
            assert(all[i as int] == opt@);
        }
        let alt_shift: bool = mods.alt && mods.shift && contains_text(opt, "alt") && contains_text(
            opt,
            "shift",
        );
        let ctrl_shift: bool = mods.ctrl && mods.shift && (contains_text(opt, "ctrl")
            || contains_text(opt, "control")) && contains_text(opt, "shift");
        if alt_shift || ctrl_shift {
            return Some(opt);
        }
        i = i + 1;
    }
    None
}

/// `label` with another name behind a plus sign.
pub open spec fn label_with(label: Seq<char>, on: bool, name: Seq<char>) -> Seq<char> {
    if !on {
        label
    } else if label.len() == 0 {
        name
    } else {
        label + "+"@ + name
    }
}

/// A modifier set as it is written in a binding.
pub open spec fn label_of(m: Modifiers) -> Seq<char> {
    label_with(
        label_with(
            label_with(label_with(Seq::empty(), m.ctrl, "ctrl"@), m.alt, "alt"@),
            m.shift,
            "shift"@,
        ),
        m.logo,
        "super"@,
    )
}

fn add_label(label: String, on: bool, name: &str) -> (r: String)
    ensures
        r@ == label_with(label@, on, name@),
{
    if !on {
        label
    } else if label.as_str().is_empty() {
        name.to_owned()
    } else {
        join3(label.as_str(), "+", name)
    }
}

/// Render a modifier set as a binding string (`alt+shift`) for messages.
pub fn tap_combo_label(m: &Modifiers) -> (r: String)
    ensures
        r@ == label_of(*m),
{
    let a: String = add_label(String::new(), m.ctrl, "ctrl");
    let b: String = add_label(a, m.alt, "alt");
    let c: String = add_label(b, m.shift, "shift");
    add_label(c, m.logo, "super")
}

/// The warnings `w`, followed by one for each tap binding that an option makes
/// unreachable.
pub open spec fn conflict_warnings(
    w: Seq<(Severity, Seq<char>)>,
    taps: Seq<(Modifiers, ActionOf<Seq<char>>)>,
    options: Seq<char>,
) -> Seq<(Severity, Seq<char>)>
    decreases taps.len(),
{
    if taps.len() == 0 {
        w
    } else {
        let before = conflict_warnings(w, taps.drop_last(), options);
        match tap_conflict(taps.last().0, options) {
            None => before,
            Some(opt) => before + warnings::rejected(
                "config: tap binding '"@ + label_of(taps.last().0)
                    + "' will never fire while [input.keyboard] options has "@ + opt
                    + " (it consumes those modifiers for layout switching) — remove the option and use this tap binding for layout switching instead"@,
            ),
        }
    }
}

/// Warn about tap bindings that a keyboard option makes unreachable.
pub fn warn_conflicts(taps: &BindingMap<Modifiers, Action>, options: &str, errors: &mut Warnings)
    ensures
        warnings::warned(final(errors)@) == conflict_warnings(
            warnings::warned(old(errors)@),
            taps@,
            options@,
        ),
{
    let n: usize = taps.entries.len();
    let ghost start = warnings::warned(errors@);
    let mut i: usize = 0;
    while i < n
        invariant
            i <= n,
            n == taps.entries@.len(),
            warnings::warned(errors@) == conflict_warnings(start, taps@.take(i as int), options@),
        decreases n - i,
    {
        proof {
            assert(taps@.take(i + 1).drop_last() =~= taps@.take(i as int));
            assert(taps@.take(i + 1).last().0 == taps.entries@[i as int].0);
        }
        let mods: Modifiers = taps.entries[i].0;
        if let Some(opt) = tap_option_conflict(&mods, options) {
            let label: String = tap_combo_label(&mods);
            collect_warn(
                errors,
                join5(
                    "config: tap binding '",
                    label.as_str(),
                    "' will never fire while [input.keyboard] options has ",
                    opt,
                    " (it consumes those modifiers for layout switching) — remove the option and use this tap binding for layout switching instead",
                ),
            );
        }
        i = i + 1;
    }
    proof {
        assert(taps@.take(n as int) =~= taps@);
    }
}

// ── Mouse bindings ──

/// The mouse bindings and the warnings after an entry of a context.
pub open spec fn mouse_step(
    st: (ContextOf<Seq<(MouseBinding, MouseActionOf<Seq<char>>)>>, Seq<(Severity, Seq<char>)>),
    context: BindingContext,
    entry: (Seq<char>, Seq<char>),
    mod_key: ModKey,
) -> (ContextOf<Seq<(MouseBinding, MouseActionOf<Seq<char>>)>>, Seq<(Severity, Seq<char>)>) {
    let (c, w) = st;
    let (key, action) = entry;
    match parse::mouse_binding_of(key, mod_key) {
        Ok(b) => if action == "none"@ {
            (
                bindings::with_context(
                    c,
                    context,
                    bindings::unbind(bindings::in_context(c, context), b),
                ),
                w,
            )
        } else {
            match parse::mouse_action_of(action) {
                Ok(a) => (
                    bindings::with_context(
                        c,
                        context,
                        bindings::bind(bindings::in_context(c, context), b, a),
                    ),
                    w,
                ),
                Err(e) => (c, w + warnings::rejected("config: invalid mouse action '"@ + action + "': "@ + e)),
            }
        },
        Err(e) => (c, w + warnings::rejected("config: invalid mouse binding '"@ + key + "': "@ + e)),
    }
}

/// The mouse bindings and the warnings after all entries of a context.
pub open spec fn mouse_after(
    st: (ContextOf<Seq<(MouseBinding, MouseActionOf<Seq<char>>)>>, Seq<(Severity, Seq<char>)>),
    context: BindingContext,
    entries: Seq<(Seq<char>, Seq<char>)>,
    mod_key: ModKey,
) -> (ContextOf<Seq<(MouseBinding, MouseActionOf<Seq<char>>)>>, Seq<(Severity, Seq<char>)>)
    decreases entries.len(),
{
    if entries.len() == 0 {
        st
    } else {
        mouse_step(
            mouse_after(st, context, entries.drop_last(), mod_key),
            context,
            entries.last(),
            mod_key,
        )
    }
}

/// The mouse bindings and the warnings after the tables of all contexts.
pub open spec fn mouse_merged(
    st: (ContextOf<Seq<(MouseBinding, MouseActionOf<Seq<char>>)>>, Seq<(Severity, Seq<char>)>),
    t: ContextTables,
    mod_key: ModKey,
) -> (ContextOf<Seq<(MouseBinding, MouseActionOf<Seq<char>>)>>, Seq<(Severity, Seq<char>)>) {
    let a = mouse_after(st, BindingContext::OnWindow, opt_table(t.on_window), mod_key);
    let b = mouse_after(a, BindingContext::OnCanvas, opt_table(t.on_canvas), mod_key);
    mouse_after(b, BindingContext::Anywhere, opt_table(t.anywhere), mod_key)
}

fn merge_mouse_entry(
    context: BindingContext,
    key: &str,
    action: &str,
    mod_key: ModKey,
    map: &mut ContextBindings<MouseBinding, MouseAction>,
    errors: &mut Warnings,
)
    ensures
        (final(map)@, warnings::warned(final(errors)@)) == mouse_step(
            (old(map)@, warnings::warned(old(errors)@)),
            context,
            (key@, action@),
            mod_key,
        ),
        bindings::contexts_distinct(old(map)@) ==> bindings::contexts_distinct(final(map)@),
{
    match parse_mouse_binding(key, mod_key) {
        Ok(b) => {
            if text_eq(action, "none") {
                map.remove(context, &b);
            } else {
                match parse_mouse_action(action) {
                    Ok(a) => {
                        map.insert(context, b, a);
                    },
                    Err(e) => {
                        collect_warn(errors, join4("config: invalid mouse action '", action, "': ", e.as_str()));
                    },
                }
            }
        },
        Err(e) => {
            collect_warn(errors, join4("config: invalid mouse binding '", key, "': ", e.as_str()));
        },
    }
}

fn merge_mouse_table(
    context: BindingContext,
    t: &Option<Table>,
    mod_key: ModKey,
    map: &mut ContextBindings<MouseBinding, MouseAction>,
    errors: &mut Warnings,
)
    ensures
        (final(map)@, warnings::warned(final(errors)@)) == mouse_after(
            (old(map)@, warnings::warned(old(errors)@)),
            context,
            opt_table(*t),
            mod_key,
        ),
        bindings::contexts_distinct(old(map)@) ==> bindings::contexts_distinct(final(map)@),
{
    if let Some(v) = t {
        let n: usize = v.len();
        let ghost all = table_views(v@);
        let ghost st = (map@, warnings::warned(errors@));
        let mut i: usize = 0;
        while i < n
            invariant
                i <= n,
                n == v@.len(),
                all == table_views(v@),
                (map@, warnings::warned(errors@)) == mouse_after(
                    st,
                    context,
                    all.take(i as int),
                    mod_key,
                ),
                bindings::contexts_distinct(st.0) ==> bindings::contexts_distinct(map@),
            decreases n - i,
        {
            proof {
                assert(all.take(i + 1).drop_last() =~= all.take(i as int));
                assert(all.take(i + 1).last() == (v@[i as int].0@, v@[i as int].1@));
            }
            merge_mouse_entry(
                context,
                v[i].0.as_str(),
                v[i].1.as_str(),
                mod_key,
                map,
                errors,
            );
            i = i + 1;
        }
        proof {
            assert(all.take(n as int) =~= all);
        }
    }
}

/// Merge the mouse binding tables of all contexts.
pub fn merge_mouse(
    t: &ContextTables,
    mod_key: ModKey,
    map: &mut ContextBindings<MouseBinding, MouseAction>,
    errors: &mut Warnings,
)
    ensures
        (final(map)@, warnings::warned(final(errors)@)) == mouse_merged(
            (old(map)@, warnings::warned(old(errors)@)),
            *t,
            mod_key,
        ),
        bindings::contexts_distinct(old(map)@) ==> bindings::contexts_distinct(final(map)@),
{
    merge_mouse_table(BindingContext::OnWindow, &t.on_window, mod_key, map, errors);
    merge_mouse_table(BindingContext::OnCanvas, &t.on_canvas, mod_key, map, errors);
    merge_mouse_table(BindingContext::Anywhere, &t.anywhere, mod_key, map, errors);
}

// ── Gesture bindings ──

/// The gesture bindings and the warnings after an entry of a context.
pub open spec fn gesture_step(
    st: (ContextOf<Seq<(GestureBinding, GestureConfigEntryOf<Seq<char>>)>>, Seq<(Severity, Seq<char>)>),
    context: BindingContext,
    entry: (Seq<char>, Seq<char>),
    mod_key: ModKey,
) -> (ContextOf<Seq<(GestureBinding, GestureConfigEntryOf<Seq<char>>)>>, Seq<(Severity, Seq<char>)>) {
    let (c, w) = st;
    let (key, action) = entry;
    match parse::gesture_binding_of(key, mod_key) {
        Ok(b) => if action == "none"@ {
            (
                bindings::with_context(
                    c,
                    context,
                    bindings::unbind(bindings::in_context(c, context), b),
                ),
                w,
            )
        } else {
            match parse::gesture_entry_of(b.trigger, action) {
                Ok(a) => (
                    bindings::with_context(
                        c,
                        context,
                        bindings::bind(bindings::in_context(c, context), b, a),
                    ),
                    w,
                ),
                Err(e) => (c, w + warnings::rejected("config: invalid gesture binding '"@ + key + "' = '"@ + action + "': "@ + e)),
            }
        },
        Err(e) => (c, w + warnings::rejected("config: invalid gesture binding '"@ + key + "': "@ + e)),
    }
}

/// The gesture bindings and the warnings after all entries of a context.
pub open spec fn gesture_after(
    st: (ContextOf<Seq<(GestureBinding, GestureConfigEntryOf<Seq<char>>)>>, Seq<(Severity, Seq<char>)>),
    context: BindingContext,
    entries: Seq<(Seq<char>, Seq<char>)>,
    mod_key: ModKey,
) -> (ContextOf<Seq<(GestureBinding, GestureConfigEntryOf<Seq<char>>)>>, Seq<(Severity, Seq<char>)>)
    decreases entries.len(),
{
    if entries.len() == 0 {
        st
    } else {
        gesture_step(
            gesture_after(st, context, entries.drop_last(), mod_key),
            context,
            entries.last(),
            mod_key,
        )
    }
}

/// The gesture bindings and the warnings after the tables of all contexts.
pub open spec fn gesture_merged(
    st: (ContextOf<Seq<(GestureBinding, GestureConfigEntryOf<Seq<char>>)>>, Seq<(Severity, Seq<char>)>),
    t: ContextTables,
    mod_key: ModKey,
) -> (ContextOf<Seq<(GestureBinding, GestureConfigEntryOf<Seq<char>>)>>, Seq<(Severity, Seq<char>)>) {
    let a = gesture_after(st, BindingContext::OnWindow, opt_table(t.on_window), mod_key);
    let b = gesture_after(a, BindingContext::OnCanvas, opt_table(t.on_canvas), mod_key);
    gesture_after(b, BindingContext::Anywhere, opt_table(t.anywhere), mod_key)
}

fn merge_gesture_entry(
    context: BindingContext,
    key: &str,
    action: &str,
    mod_key: ModKey,
    map: &mut ContextBindings<GestureBinding, GestureConfigEntry>,
    errors: &mut Warnings,
)
    ensures
        (final(map)@, warnings::warned(final(errors)@)) == gesture_step(
            (old(map)@, warnings::warned(old(errors)@)),
            context,
            (key@, action@),
            mod_key,
        ),
        bindings::contexts_distinct(old(map)@) ==> bindings::contexts_distinct(final(map)@),
{
    match parse_gesture_binding(key, mod_key) {
        Ok(b) => {
            if text_eq(action, "none") {
                map.remove(context, &b);
            } else {
                match parse_gesture_config_entry(&b.trigger, action) {
                    Ok(a) => {
                        map.insert(context, b, a);
                    },
                    Err(e) => {
                        collect_warn(errors, join3(join4("config: invalid gesture binding '", key, "' = '", action).as_str(), "': ", e.as_str()));
                    },
                }
            }
        },
        Err(e) => {
            collect_warn(errors, join4("config: invalid gesture binding '", key, "': ", e.as_str()));
        },
    }
}

fn merge_gesture_table(
    context: BindingContext,
    t: &Option<Table>,
    mod_key: ModKey,
    map: &mut ContextBindings<GestureBinding, GestureConfigEntry>,
    errors: &mut Warnings,
)
    ensures
        (final(map)@, warnings::warned(final(errors)@)) == gesture_after(
            (old(map)@, warnings::warned(old(errors)@)),
            context,
            opt_table(*t),
            mod_key,
        ),
        bindings::contexts_distinct(old(map)@) ==> bindings::contexts_distinct(final(map)@),
{
    if let Some(v) = t {
        let n: usize = v.len();
        let ghost all = table_views(v@);
        let ghost st = (map@, warnings::warned(errors@));
        let mut i: usize = 0;
        while i < n
            invariant
                i <= n,
                n == v@.len(),
                all == table_views(v@),
                (map@, warnings::warned(errors@)) == gesture_after(
                    st,
                    context,
                    all.take(i as int),
                    mod_key,
                ),
                bindings::contexts_distinct(st.0) ==> bindings::contexts_distinct(map@),
            decreases n - i,
        {
            proof {
                assert(all.take(i + 1).drop_last() =~= all.take(i as int));
                assert(all.take(i + 1).last() == (v@[i as int].0@, v@[i as int].1@));
            }
            merge_gesture_entry(
                context,
                v[i].0.as_str(),
                v[i].1.as_str(),
                mod_key,
                map,
                errors,
            );
            i = i + 1;
        }
        proof {
            assert(all.take(n as int) =~= all);
        }
    }
}

/// Merge the gesture binding tables of all contexts.
pub fn merge_gesture(
    t: &ContextTables,
    mod_key: ModKey,
    map: &mut ContextBindings<GestureBinding, GestureConfigEntry>,
    errors: &mut Warnings,
)
    ensures
        (final(map)@, warnings::warned(final(errors)@)) == gesture_merged(
            (old(map)@, warnings::warned(old(errors)@)),
            *t,
            mod_key,
        ),
        bindings::contexts_distinct(old(map)@) ==> bindings::contexts_distinct(final(map)@),
{
    merge_gesture_table(BindingContext::OnWindow, &t.on_window, mod_key, map, errors);
    merge_gesture_table(BindingContext::OnCanvas, &t.on_canvas, mod_key, map, errors);
    merge_gesture_table(BindingContext::Anywhere, &t.anywhere, mod_key, map, errors);
}

// ── Touch bindings ──

/// The touch bindings and the warnings after an entry of a context.
pub open spec fn touch_step(
    st: (ContextOf<Seq<(GestureTrigger, GestureConfigEntryOf<Seq<char>>)>>, Seq<(Severity, Seq<char>)>),
    context: BindingContext,
    entry: (Seq<char>, Seq<char>),
) -> (ContextOf<Seq<(GestureTrigger, GestureConfigEntryOf<Seq<char>>)>>, Seq<(Severity, Seq<char>)>) {
    let (c, w) = st;
    let (key, action) = entry;
    match parse::touch_trigger_of(key) {
        Ok(b) => if action == "none"@ {
            (
                bindings::with_context(
                    c,
                    context,
                    bindings::unbind(bindings::in_context(c, context), b),
                ),
                w,
            )
        } else {
            match parse::touch_entry_of(b, action) {
                Ok(a) => (
                    bindings::with_context(
                        c,
                        context,
                        bindings::bind(bindings::in_context(c, context), b, a),
                    ),
                    w,
                ),
                Err(e) => (c, w + warnings::rejected("config: invalid touch binding '"@ + key + "' = '"@ + action + "': "@ + e)),
            }
        },
        Err(e) => (c, w + warnings::rejected("config: invalid touch binding '"@ + key + "': "@ + e)),
    }
}

/// The touch bindings and the warnings after all entries of a context.
pub open spec fn touch_after(
    st: (ContextOf<Seq<(GestureTrigger, GestureConfigEntryOf<Seq<char>>)>>, Seq<(Severity, Seq<char>)>),
    context: BindingContext,
    entries: Seq<(Seq<char>, Seq<char>)>,
) -> (ContextOf<Seq<(GestureTrigger, GestureConfigEntryOf<Seq<char>>)>>, Seq<(Severity, Seq<char>)>)
    decreases entries.len(),
{
    if entries.len() == 0 {
        st
    } else {
        touch_step(
            touch_after(st, context, entries.drop_last()),
            context,
            entries.last(),
        )
    }
}

/// The touch bindings and the warnings after the tables of all contexts.
pub open spec fn touch_merged(
    st: (ContextOf<Seq<(GestureTrigger, GestureConfigEntryOf<Seq<char>>)>>, Seq<(Severity, Seq<char>)>),
    t: ContextTables,
) -> (ContextOf<Seq<(GestureTrigger, GestureConfigEntryOf<Seq<char>>)>>, Seq<(Severity, Seq<char>)>) {
    let a = touch_after(st, BindingContext::OnWindow, opt_table(t.on_window));
    let b = touch_after(a, BindingContext::OnCanvas, opt_table(t.on_canvas));
    touch_after(b, BindingContext::Anywhere, opt_table(t.anywhere))
}

fn merge_touch_entry(
    context: BindingContext,
    key: &str,
    action: &str,
    map: &mut ContextBindings<GestureTrigger, GestureConfigEntry>,
    errors: &mut Warnings,
)
    ensures
        (final(map)@, warnings::warned(final(errors)@)) == touch_step(
            (old(map)@, warnings::warned(old(errors)@)),
            context,
            (key@, action@),
        ),
        bindings::contexts_distinct(old(map)@) ==> bindings::contexts_distinct(final(map)@),
{
    match parse_touch_trigger(key) {
        Ok(b) => {
            if text_eq(action, "none") {
                map.remove(context, &b);
            } else {
                match parse_touch_config_entry(&b, action) {
                    Ok(a) => {
                        map.insert(context, b, a);
                    },
                    Err(e) => {
                        collect_warn(errors, join3(join4("config: invalid touch binding '", key, "' = '", action).as_str(), "': ", e.as_str()));
                    },
                }
            }
        },
        Err(e) => {
            collect_warn(errors, join4("config: invalid touch binding '", key, "': ", e.as_str()));
        },
    }
}

fn merge_touch_table(
    context: BindingContext,
    t: &Option<Table>,
    map: &mut ContextBindings<GestureTrigger, GestureConfigEntry>,
    errors: &mut Warnings,
)
    ensures
        (final(map)@, warnings::warned(final(errors)@)) == touch_after(
            (old(map)@, warnings::warned(old(errors)@)),
            context,
            opt_table(*t),
        ),
        bindings::contexts_distinct(old(map)@) ==> bindings::contexts_distinct(final(map)@),
{
    if let Some(v) = t {
        let n: usize = v.len();
        let ghost all = table_views(v@);
        let ghost st = (map@, warnings::warned(errors@));
        let mut i: usize = 0;
        while i < n
            invariant
                i <= n,
                n == v@.len(),
                all == table_views(v@),
                (map@, warnings::warned(errors@)) == touch_after(
                    st,
                    context,
                    all.take(i as int),
                ),
                bindings::contexts_distinct(st.0) ==> bindings::contexts_distinct(map@),
            decreases n - i,
        {
            proof {
                assert(all.take(i + 1).drop_last() =~= all.take(i as int));
                assert(all.take(i + 1).last() == (v@[i as int].0@, v@[i as int].1@));
            }
            merge_touch_entry(
                context,
                v[i].0.as_str(),
                v[i].1.as_str(),
                map,
                errors,
            );
            i = i + 1;
        }
        proof {
            assert(all.take(n as int) =~= all);
        }
    }
}

/// Merge the touch binding tables of all contexts.
pub fn merge_touch(
    t: &ContextTables,
    map: &mut ContextBindings<GestureTrigger, GestureConfigEntry>,
    errors: &mut Warnings,
)
    ensures
        (final(map)@, warnings::warned(final(errors)@)) == touch_merged(
            (old(map)@, warnings::warned(old(errors)@)),
            *t,
        ),
        bindings::contexts_distinct(old(map)@) ==> bindings::contexts_distinct(final(map)@),
{
    merge_touch_table(BindingContext::OnWindow, &t.on_window, map, errors);
    merge_touch_table(BindingContext::OnCanvas, &t.on_canvas, map, errors);
    merge_touch_table(BindingContext::Anywhere, &t.anywhere, map, errors);
}

} // verus!
