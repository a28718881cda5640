//! What the tables of a configuration do to the bindings: each entry changes the
//! one binding that it names, in the context of its table.
use vstd::prelude::*;

use crate::config;
use crate::config::bindings;
use crate::config::bindings::{BindingContext, ContextOf};
use crate::config::defaults;
use crate::config::merge;
use crate::config::parse;
use crate::config::raw;
use crate::config::raw::{ConfigFile, ContextTables};
use crate::config::settings;
use crate::config::types;
use crate::config::types::{
    ActionOf, GestureBinding, GestureConfigEntryOf, GestureTrigger, KeyCombo, Keysym, ModKey,
    Modifiers, ModifiersState, MouseActionOf, MouseBinding, ThresholdActionOf,
};
use crate::config::warnings::Severity;
use crate::text;

verus! {

/// What a binding is bound to in the table of one context.
pub open spec fn own<K, W>(c: ContextOf<Seq<(K, W)>>, cx: BindingContext, k: K) -> Option<W> {
    match cx {
        BindingContext::OnWindow => bindings::bound(c.on_window, k),
        BindingContext::OnCanvas => bindings::bound(c.on_canvas, k),
        BindingContext::Anywhere => bindings::bound(c.anywhere, k),
    }
}

/// Does one binding of one context change to `now`, and nothing else?
pub open spec fn changes_one<K, W>(
    before: ContextOf<Seq<(K, W)>>,
    after: ContextOf<Seq<(K, W)>>,
    cx: BindingContext,
    k: K,
    now: Option<W>,
    other: K,
) -> bool {
    &&& own(after, cx, k) == now
    &&& other != k ==> own(after, cx, other) == own(before, cx, other)
    &&& !(cx is OnWindow) ==> after.on_window == before.on_window
    &&& !(cx is OnCanvas) ==> after.on_canvas == before.on_canvas
    &&& !(cx is Anywhere) ==> after.anywhere == before.anywhere
}

/// A binding is found in its own context first and anywhere else after that.
pub proof fn lemma_lookup_falls_back<K, W>(c: ContextOf<Seq<(K, W)>>, k: K, cx: BindingContext)
    ensures
        own(c, cx, k) is Some ==> bindings::bound_in(c, k, cx) == own(c, cx, k),
        own(c, cx, k) is None ==> bindings::bound_in(c, k, cx) == own(
            c,
            BindingContext::Anywhere,
            k,
        ),
{
}

/// A key is bound to what the first entry for it says, and to nothing where there
/// is none.
pub proof fn lemma_bound_by_first<K, W>(s: Seq<(K, W)>, k: K, i: int)
    requires
        0 <= i <= s.len(),
        forall|j: int| 0 <= j < i ==> (#[trigger] s[j]).0 != k,
        i < s.len() ==> s[i].0 == k,
    ensures
        bindings::bound(s, k) == (if i < s.len() {
            Some(s[i].1)
        } else {
            None
        }),
{
    bindings::lemma_index_of(s, k, 0);
    let f = bindings::index_of(s, k, 0);
    if f < i {
        assert(s[f].0 != k);
    }
}

/// An entry of a mouse table binds what it names, `none` unbinds it, and what is
/// no binding or no action changes nothing, with one warning.
pub proof fn lemma_mouse_entry(
    c: ContextOf<Seq<(MouseBinding, MouseActionOf<Seq<char>>)>>,
    w: Seq<(Severity, Seq<char>)>,
    cx: BindingContext,
    entry: (Seq<char>, Seq<char>),
    mod_key: ModKey,
    other: MouseBinding,
)
    requires
        bindings::contexts_distinct(c),
    ensures
        ({
            let (after, said) = merge::mouse_step((c, w), cx, entry, mod_key);
            match parse::mouse_binding_of(entry.0, mod_key) {
                Ok(b) => {
                    &&& entry.1 == "none"@ ==> changes_one(c, after, cx, b, None, other) && said
                        == w
                    &&& entry.1 != "none"@ ==> match parse::mouse_action_of(entry.1) {
                        Ok(a) => changes_one(c, after, cx, b, Some(a), other) && said == w,
                        Err(_) => after == c && said.len() == w.len() + 1,
                    }
                },
                Err(_) => after == c && said.len() == w.len() + 1,
            }
        }),
{
    if let Ok(b) = parse::mouse_binding_of(entry.0, mod_key) {
        let list = bindings::in_context(c, cx);
        bindings::lemma_bound_after_unbind(list, b, other);
        if let Ok(a) = parse::mouse_action_of(entry.1) {
            bindings::lemma_bound_after_bind(list, b, a, other);
        }
    }
}

/// An entry of a gesture table binds what it names, `none` unbinds it, and what
/// is no binding, or no action for it, changes nothing, with one warning.
pub proof fn lemma_gesture_entry(
    c: ContextOf<Seq<(GestureBinding, GestureConfigEntryOf<Seq<char>>)>>,
    w: Seq<(Severity, Seq<char>)>,
    cx: BindingContext,
    entry: (Seq<char>, Seq<char>),
    mod_key: ModKey,
    other: GestureBinding,
)
    requires
        bindings::contexts_distinct(c),
    ensures
        ({
            let (after, said) = merge::gesture_step((c, w), cx, entry, mod_key);
            match parse::gesture_binding_of(entry.0, mod_key) {
                Ok(b) => {
                    &&& entry.1 == "none"@ ==> changes_one(c, after, cx, b, None, other) && said
                        == w
                    &&& entry.1 != "none"@ ==> match parse::gesture_entry_of(b.trigger, entry.1) {
                        Ok(a) => changes_one(c, after, cx, b, Some(a), other) && said == w,
                        Err(_) => after == c && said.len() == w.len() + 1,
                    }
                },
                Err(_) => after == c && said.len() == w.len() + 1,
            }
        }),
{
    if let Ok(b) = parse::gesture_binding_of(entry.0, mod_key) {
        let list = bindings::in_context(c, cx);
        bindings::lemma_bound_after_unbind(list, b, other);
        if let Ok(a) = parse::gesture_entry_of(b.trigger, entry.1) {
            bindings::lemma_bound_after_bind(list, b, a, other);
        }
    }
}

/// An entry of a touch table binds what it names, `none` unbinds it, and what is
/// no gesture, or no action for it, changes nothing, with one warning.
pub proof fn lemma_touch_entry(
    c: ContextOf<Seq<(GestureTrigger, GestureConfigEntryOf<Seq<char>>)>>,
    w: Seq<(Severity, Seq<char>)>,
    cx: BindingContext,
    entry: (Seq<char>, Seq<char>),
    other: GestureTrigger,
)
    requires
        bindings::contexts_distinct(c),
    ensures
        ({
            let (after, said) = merge::touch_step((c, w), cx, entry);
            match parse::touch_trigger_of(entry.0) {
                Ok(b) => {
                    &&& entry.1 == "none"@ ==> changes_one(c, after, cx, b, None, other) && said
                        == w
                    &&& entry.1 != "none"@ ==> match parse::touch_entry_of(b, entry.1) {
                        Ok(a) => changes_one(c, after, cx, b, Some(a), other) && said == w,
                        Err(_) => after == c && said.len() == w.len() + 1,
                    }
                },
                Err(_) => after == c && said.len() == w.len() + 1,
            }
        }),
{
    if let Ok(b) = parse::touch_trigger_of(entry.0) {
        let list = bindings::in_context(c, cx);
        bindings::lemma_bound_after_unbind(list, b, other);
        if let Ok(a) = parse::touch_entry_of(b, entry.1) {
            bindings::lemma_bound_after_bind(list, b, a, other);
        }
    }
}

/// A bare modifier chord binds a tap: the entry sets it, `none` removes it, and
/// no key is touched.
pub proof fn lemma_tap_entry(
    keys: Seq<(KeyCombo, ActionOf<Seq<char>>)>,
    taps: Seq<(Modifiers, ActionOf<Seq<char>>)>,
    w: Seq<(Severity, Seq<char>)>,
    entry: (Seq<char>, Seq<char>),
    mod_key: ModKey,
    table: Seq<(Seq<char>, u32)>,
    other: Modifiers,
)
    requires
        bindings::distinct(taps),
        parse::tap_of(entry.0, mod_key) is Some,
    ensures
        ({
            let mods = parse::tap_of(entry.0, mod_key)->0;
            let (after_keys, after, said) = merge::key_step((keys, taps, w), entry, mod_key, table);
            &&& after_keys == keys
            &&& other != mods ==> bindings::bound(after, other) == bindings::bound(taps, other)
            &&& entry.1 == "none"@ ==> bindings::bound(after, mods) is None && said == w
            &&& entry.1 != "none"@ ==> match parse::action_of(entry.1) {
                Ok(a) => bindings::bound(after, mods) == Some(a) && said == w,
                Err(_) => after == taps && said.len() == w.len() + 1,
            }
        }),
{
    let mods = parse::tap_of(entry.0, mod_key)->0;
    bindings::lemma_bound_after_unbind(taps, mods, other);
    if let Ok(a) = parse::action_of(entry.1) {
        bindings::lemma_bound_after_bind(taps, mods, a, other);
    }
}

// ── Tables ───────────────────────────────────────────────────────────

proof fn lemma_mouse_table_stays_in_its_context(
    a: (ContextOf<Seq<(MouseBinding, MouseActionOf<Seq<char>>)>>, Seq<(Severity, Seq<char>)>),
    b: (ContextOf<Seq<(MouseBinding, MouseActionOf<Seq<char>>)>>, Seq<(Severity, Seq<char>)>),
    cx: BindingContext,
    entries: Seq<(Seq<char>, Seq<char>)>,
    mod_key: ModKey,
)
    requires
        bindings::in_context(a.0, cx) == bindings::in_context(b.0, cx),
    ensures
        bindings::in_context(merge::mouse_after(a, cx, entries, mod_key).0, cx)
            == bindings::in_context(merge::mouse_after(b, cx, entries, mod_key).0, cx),
        !(cx is OnWindow) ==> merge::mouse_after(a, cx, entries, mod_key).0.on_window
            == a.0.on_window,
        !(cx is OnCanvas) ==> merge::mouse_after(a, cx, entries, mod_key).0.on_canvas
            == a.0.on_canvas,
        !(cx is Anywhere) ==> merge::mouse_after(a, cx, entries, mod_key).0.anywhere
            == a.0.anywhere,
    decreases entries.len(),
{
    if entries.len() > 0 {
        lemma_mouse_table_stays_in_its_context(a, b, cx, entries.drop_last(), mod_key);
    }
}

/// Each mouse table changes the bindings of its own context, and those alone.
pub proof fn lemma_mouse_tables_stay_apart(
    st: (ContextOf<Seq<(MouseBinding, MouseActionOf<Seq<char>>)>>, Seq<(Severity, Seq<char>)>),
    t: ContextTables,
    mod_key: ModKey,
)
    ensures
        ({
            let r = merge::mouse_merged(st, t, mod_key).0;
            let alone = |cx: BindingContext, table: Seq<(Seq<char>, Seq<char>)>|
                merge::mouse_after(st, cx, table, mod_key).0;
            &&& r.on_window == alone(
                BindingContext::OnWindow,
                merge::opt_table(t.on_window),
            ).on_window
            &&& r.on_canvas == alone(
                BindingContext::OnCanvas,
                merge::opt_table(t.on_canvas),
            ).on_canvas
            &&& r.anywhere == alone(BindingContext::Anywhere, merge::opt_table(t.anywhere)).anywhere
        }),
{
    let (w, c, y) = (
        merge::opt_table(t.on_window),
        merge::opt_table(t.on_canvas),
        merge::opt_table(t.anywhere),
    );
    let a = merge::mouse_after(st, BindingContext::OnWindow, w, mod_key);
    let b = merge::mouse_after(a, BindingContext::OnCanvas, c, mod_key);
    lemma_mouse_table_stays_in_its_context(st, st, BindingContext::OnWindow, w, mod_key);
    lemma_mouse_table_stays_in_its_context(a, st, BindingContext::OnCanvas, c, mod_key);
    lemma_mouse_table_stays_in_its_context(b, st, BindingContext::Anywhere, y, mod_key);
}

proof fn lemma_gesture_table_stays_in_its_context(
    a: (ContextOf<Seq<(GestureBinding, GestureConfigEntryOf<Seq<char>>)>>, Seq<
        (Severity, Seq<char>),
    >),
    b: (ContextOf<Seq<(GestureBinding, GestureConfigEntryOf<Seq<char>>)>>, Seq<
        (Severity, Seq<char>),
    >),
    cx: BindingContext,
    entries: Seq<(Seq<char>, Seq<char>)>,
    mod_key: ModKey,
)
    requires
        bindings::in_context(a.0, cx) == bindings::in_context(b.0, cx),
    ensures
        bindings::in_context(merge::gesture_after(a, cx, entries, mod_key).0, cx)
            == bindings::in_context(merge::gesture_after(b, cx, entries, mod_key).0, cx),
        !(cx is OnWindow) ==> merge::gesture_after(a, cx, entries, mod_key).0.on_window
            == a.0.on_window,
        !(cx is OnCanvas) ==> merge::gesture_after(a, cx, entries, mod_key).0.on_canvas
            == a.0.on_canvas,
        !(cx is Anywhere) ==> merge::gesture_after(a, cx, entries, mod_key).0.anywhere
            == a.0.anywhere,
    decreases entries.len(),
{
    if entries.len() > 0 {
        lemma_gesture_table_stays_in_its_context(a, b, cx, entries.drop_last(), mod_key);
    }
}

/// Each gesture table changes the bindings of its own context, and those alone.
pub proof fn lemma_gesture_tables_stay_apart(
    st: (ContextOf<Seq<(GestureBinding, GestureConfigEntryOf<Seq<char>>)>>, Seq<
        (Severity, Seq<char>),
    >),
    t: ContextTables,
    mod_key: ModKey,
)
    ensures
        ({
            let r = merge::gesture_merged(st, t, mod_key).0;
            let alone = |cx: BindingContext, table: Seq<(Seq<char>, Seq<char>)>|
                merge::gesture_after(st, cx, table, mod_key).0;
            &&& r.on_window == alone(
                BindingContext::OnWindow,
                merge::opt_table(t.on_window),
            ).on_window
            &&& r.on_canvas == alone(
                BindingContext::OnCanvas,
                merge::opt_table(t.on_canvas),
            ).on_canvas
            &&& r.anywhere == alone(BindingContext::Anywhere, merge::opt_table(t.anywhere)).anywhere
        }),
{
    let (w, c, y) = (
        merge::opt_table(t.on_window),
        merge::opt_table(t.on_canvas),
        merge::opt_table(t.anywhere),
    );
    let a = merge::gesture_after(st, BindingContext::OnWindow, w, mod_key);
    let b = merge::gesture_after(a, BindingContext::OnCanvas, c, mod_key);
    lemma_gesture_table_stays_in_its_context(st, st, BindingContext::OnWindow, w, mod_key);
    lemma_gesture_table_stays_in_its_context(a, st, BindingContext::OnCanvas, c, mod_key);
    lemma_gesture_table_stays_in_its_context(b, st, BindingContext::Anywhere, y, mod_key);
}

proof fn lemma_touch_table_stays_in_its_context(
    a: (ContextOf<Seq<(GestureTrigger, GestureConfigEntryOf<Seq<char>>)>>, Seq<
        (Severity, Seq<char>),
    >),
    b: (ContextOf<Seq<(GestureTrigger, GestureConfigEntryOf<Seq<char>>)>>, Seq<
        (Severity, Seq<char>),
    >),
    cx: BindingContext,
    entries: Seq<(Seq<char>, Seq<char>)>,
)
    requires
        bindings::in_context(a.0, cx) == bindings::in_context(b.0, cx),
    ensures
        bindings::in_context(merge::touch_after(a, cx, entries).0, cx) == bindings::in_context(
            merge::touch_after(b, cx, entries).0,
            cx,
        ),
        !(cx is OnWindow) ==> merge::touch_after(a, cx, entries).0.on_window == a.0.on_window,
        !(cx is OnCanvas) ==> merge::touch_after(a, cx, entries).0.on_canvas == a.0.on_canvas,
        !(cx is Anywhere) ==> merge::touch_after(a, cx, entries).0.anywhere == a.0.anywhere,
    decreases entries.len(),
{
    if entries.len() > 0 {
        lemma_touch_table_stays_in_its_context(a, b, cx, entries.drop_last());
    }
}

/// Each touch table changes the bindings of its own context, and those alone.
pub proof fn lemma_touch_tables_stay_apart(
    st: (ContextOf<Seq<(GestureTrigger, GestureConfigEntryOf<Seq<char>>)>>, Seq<
        (Severity, Seq<char>),
    >),
    t: ContextTables,
)
    ensures
        ({
            let r = merge::touch_merged(st, t).0;
            let alone = |cx: BindingContext, table: Seq<(Seq<char>, Seq<char>)>|
                merge::touch_after(st, cx, table).0;
            &&& r.on_window == alone(
                BindingContext::OnWindow,
                merge::opt_table(t.on_window),
            ).on_window
            &&& r.on_canvas == alone(
                BindingContext::OnCanvas,
                merge::opt_table(t.on_canvas),
            ).on_canvas
            &&& r.anywhere == alone(BindingContext::Anywhere, merge::opt_table(t.anywhere)).anywhere
        }),
{
    let (w, c, y) = (
        merge::opt_table(t.on_window),
        merge::opt_table(t.on_canvas),
        merge::opt_table(t.anywhere),
    );
    let a = merge::touch_after(st, BindingContext::OnWindow, w);
    let b = merge::touch_after(a, BindingContext::OnCanvas, c);
    lemma_touch_table_stays_in_its_context(st, st, BindingContext::OnWindow, w);
    lemma_touch_table_stays_in_its_context(a, st, BindingContext::OnCanvas, c);
    lemma_touch_table_stays_in_its_context(b, st, BindingContext::Anywhere, y);
}

// ── Switched-off defaults ────────────────────────────────────────────

/// Is a word in the list of what is switched off?
pub open spec fn switched_off(raw: ConfigFile, word: Seq<char>) -> bool {
    raw.disable_defaults matches Some(v) && text::string_views(v@).contains(word)
}

/// A file that binds nothing itself has the default keys, mouse and gesture
/// bindings, each unless the list of switched-off defaults names it; touch
/// bindings cannot be switched off.
pub proof fn lemma_defaults_can_be_switched_off(raw: ConfigFile, table: Seq<(Seq<char>, u32)>)
    requires
        raw.keybindings is None,
        raw.mouse.bindings == raw::no_tables(),
        raw.gestures.bindings == raw::no_tables(),
        raw.touch == raw::no_tables(),
    ensures
        ({
            let mod_key = if raw.mod_key matches Some(s) && s@ == "alt"@ {
                ModKey::Alt
            } else {
                ModKey::Super
            };
            &&& config::keys_state(raw, table).0 == (if switched_off(raw, "keys"@) {
                Seq::empty()
            } else {
                bindings::bind_all(
                    Seq::empty(),
                    config::normal_keys(defaults::default_keys(mod_key)),
                )
            })
            &&& config::keys_state(raw, table).1.len() == 0
            &&& if switched_off(raw, "mouse"@) {
                let m = config::mouse_state(raw, table).0;
                m.on_window.len() == 0 && m.on_canvas.len() == 0 && m.anywhere.len() == 0
            } else {
                config::mouse_state(raw, table).0 == defaults::default_mouse(mod_key)
            }
            &&& if switched_off(raw, "gestures"@) {
                let g = config::gesture_state(raw, table).0;
                g.on_window.len() == 0 && g.on_canvas.len() == 0 && g.anywhere.len() == 0
            } else {
                config::gesture_state(raw, table).0 == defaults::default_gesture(mod_key)
            }
            &&& config::touch_state(raw, table).0 == defaults::default_touch()
        }),
{
    assert(merge::opt_table(raw.keybindings).len() == 0);
    assert(merge::opt_table(raw::no_tables().on_window).len() == 0);
    assert(merge::opt_table(raw::no_tables().on_canvas).len() == 0);
    assert(merge::opt_table(raw::no_tables().anywhere).len() == 0);
}

// ── Keys and modifiers ───────────────────────────────────────────────

/// Each modifier of a keyboard is the flag of the same name, and the fifth level
/// shift is the third one of the configuration; locks do not count.
pub proof fn lemma_modifiers_of_the_keyboard(s: ModifiersState)
    ensures
        types::modifiers_from(s).ctrl == s.ctrl,
        types::modifiers_from(s).alt == s.alt,
        types::modifiers_from(s).shift == s.shift,
        types::modifiers_from(s).logo == s.logo,
        types::modifiers_from(s).mod3 == s.iso_level5_shift,
{
}

/// The mod key adds its own modifier and no other.
pub proof fn lemma_mod_key_adds_its_modifier(m: Modifiers, k: ModKey)
    ensures
        types::with_mod(m, k).alt == (m.alt || k is Alt),
        types::with_mod(m, k).logo == (m.logo || k is Super),
        types::with_mod(m, k).mod3 == (m.mod3 || k is Mod3),
        types::with_mod(m, k).ctrl == m.ctrl,
        types::with_mod(m, k).shift == m.shift,
        types::no_modifiers() == (Modifiers {
            ctrl: false,
            alt: false,
            shift: false,
            logo: false,
            mod3: false,
        }),
{
}

/// A capital and its small letter are the same key, any other symbol is its own,
/// and a combo is found under the form that it is stored in.
pub proof fn lemma_letters_without_case(m: Modifiers, raw: u32)
    ensures
        ({
            let stored = |r: u32| types::normal_combo(
                KeyCombo { modifiers: m, sym: Keysym { raw: r } },
            );
            &&& 0x41 <= raw <= 0x5a ==> stored(raw) == stored((raw + 0x20) as u32) && stored(
                raw,
            ).sym.raw == raw + 0x20
            &&& !(0x41 <= raw <= 0x5a) ==> stored(raw).sym.raw == raw
            &&& stored(raw).modifiers == m
            &&& types::normal_combo(stored(raw)) == stored(raw)
        }),
{
}

proof fn lemma_forward_from(keys: Seq<(KeyCombo, ActionOf<Seq<char>>)>, i: int)
    requires
        0 <= i <= keys.len(),
    ensures
        ({
            let f = merge::forward_index(keys, i);
            &&& i <= f <= keys.len()
            &&& f < keys.len() ==> keys[f].1 == (ActionOf::<Seq<char>>::CycleWindows {
                backward: false,
            })
            &&& forall|j: int|
                i <= j < f ==> (#[trigger] keys[j]).1 != (ActionOf::<Seq<char>>::CycleWindows {
                    backward: false,
                })
        }),
    decreases keys.len() - i,
{
    if i < keys.len() {
        lemma_forward_from(keys, i + 1);
    }
}

/// Cycling goes on while the modifiers of the first key that cycles forward are
/// held, or Alt where there is none or it has none.
pub proof fn lemma_cycling_is_held(keys: Seq<(KeyCombo, ActionOf<Seq<char>>)>, i: int)
    requires
        0 <= i <= keys.len(),
        forall|j: int|
            0 <= j < i ==> (#[trigger] keys[j]).1 != (ActionOf::<Seq<char>>::CycleWindows {
                backward: false,
            }),
        i < keys.len() ==> keys[i].1 == (ActionOf::<Seq<char>>::CycleWindows { backward: false }),
    ensures
        ({
            let alt = Modifiers { ctrl: false, alt: true, shift: false, logo: false, mod3: false };
            let none = Modifiers {
                ctrl: false,
                alt: false,
                shift: false,
                logo: false,
                mod3: false,
            };
            merge::cycle_hold_of(keys) == (if i < keys.len() && keys[i].0.modifiers != none {
                keys[i].0.modifiers
            } else {
                alt
            })
        }),
{
    lemma_forward_from(keys, 0);
    let f = merge::forward_index(keys, 0);
    if f < i {
        assert(keys[f].1 != (ActionOf::<Seq<char>>::CycleWindows { backward: false }));
    }
}

// ── Taps that cannot fire ────────────────────────────────────────────

/// Does an option switch layouts with a pair of modifiers that a tap holds?
pub open spec fn takes_pair(m: Modifiers, opt: Seq<char>) -> bool {
    let (alt, shift) = (text::has_text(opt, "alt"@), text::has_text(opt, "shift"@));
    let ctrl = text::has_text(opt, "ctrl"@) || text::has_text(opt, "control"@);
    m.shift && shift && ((m.alt && alt) || (m.ctrl && ctrl))
}

proof fn lemma_conflict_from(m: Modifiers, opts: Seq<Seq<char>>, i: int)
    requires
        0 <= i <= opts.len(),
    ensures
        match merge::conflict_from(m, opts, i) {
            Some(o) => exists|k: int|
                i <= k < opts.len() && #[trigger] opts[k] == o && takes_pair(m, o) && forall|j: int|
                    i <= j < k ==> !takes_pair(m, #[trigger] opts[j]),
            None => forall|j: int| i <= j < opts.len() ==> !takes_pair(m, #[trigger] opts[j]),
        },
    decreases opts.len() - i,
{
    if i < opts.len() {
        lemma_conflict_from(m, opts, i + 1);
        assert(merge::option_consumes(m, opts[i]) == takes_pair(m, opts[i]));
        if !takes_pair(m, opts[i]) {
            if let Some(o) = merge::conflict_from(m, opts, i + 1) {
                let k = choose|k: int|
                    i + 1 <= k < opts.len() && #[trigger] opts[k] == o && takes_pair(m, o)
                        && forall|j: int| i + 1 <= j < k ==> !takes_pair(m, #[trigger] opts[j]);
                assert(opts[k] == o);
            }
        } else {
            assert(opts[i] == merge::conflict_from(m, opts, i)->0);
        }
    }
}

/// A tap cannot fire if and only if some option of the keyboard switches layouts
/// with a pair of its modifiers; the first such option is named.
pub proof fn lemma_tap_conflicts(m: Modifiers, options: Seq<char>)
    ensures
        ({
            let opts = text::split_trimmed(options, ',');
            match merge::tap_conflict(m, options) {
                Some(o) => exists|k: int|
                    0 <= k < opts.len() && #[trigger] opts[k] == o && takes_pair(m, o)
                        && forall|j: int| 0 <= j < k ==> !takes_pair(m, #[trigger] opts[j]),
                None => forall|j: int| 0 <= j < opts.len() ==> !takes_pair(m, #[trigger] opts[j]),
            }
        }),
{
    lemma_conflict_from(m, text::split_trimmed(options, ','), 0);
}

// ── Fullscreen ───────────────────────────────────────────────────────

/// An action ends fullscreen if and only if it moves the view or the window:
/// what starts programs, only marks a place, or changes settings does not.
pub proof fn lemma_what_ends_fullscreen(a: ActionOf<Seq<char>>)
    ensures
        types::ends_fullscreen(a) == (match a {
            ActionOf::Exec(_) => false,
            ActionOf::ExecTerminal => false,
            ActionOf::ExecLauncher => false,
            ActionOf::Spawn(_) => false,
            ActionOf::CloseWindow => false,
            ActionOf::SuspendWindow => false,
            ActionOf::NudgeWindow(_) => true,
            ActionOf::PanViewport(_) => true,
            ActionOf::CenterWindow => true,
            ActionOf::FocusCenter => true,
            ActionOf::CenterNearest(_) => true,
            ActionOf::CycleWindows { .. } => true,
            ActionOf::HomeToggle => true,
            ActionOf::GoToBookmark(_) => true,
            ActionOf::SetBookmark(_) => false,
            ActionOf::MoveToBookmark(_) => true,
            ActionOf::ZoomIn => true,
            ActionOf::ZoomOut => true,
            ActionOf::ZoomReset => true,
            ActionOf::ZoomToFit => true,
            ActionOf::ZoomToFitSnapped => true,
            ActionOf::ToggleFullscreen => false,
            ActionOf::FitWindow => true,
            ActionOf::FitWindowSnapped => true,
            ActionOf::FillWindow => true,
            ActionOf::SendToOutput(_) => true,
            ActionOf::SendCursorToOutput(_) => false,
            ActionOf::TogglePinToScreen => false,
            ActionOf::SwitchLayout(_) => false,
            ActionOf::ReloadConfig => false,
            ActionOf::ToggleCursorPan => false,
            ActionOf::Quit => false,
        }),
        types::threshold_ends_fullscreen(ThresholdActionOf::Fixed(a)) == types::ends_fullscreen(a),
        types::threshold_ends_fullscreen(ThresholdActionOf::<Seq<char>>::CenterNearest),
{
}

} // verus!
