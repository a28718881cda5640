//! What a configuration is warned of: how often, how severely, and about what.
use vstd::prelude::*;

use crate::config::colors;
use crate::config::decoration;
use crate::config::merge;
use crate::config::numbers::{Number, NumberOf};
use crate::config::parse;
use crate::config::raw::ConfigFile;
use crate::config::settings;
use crate::config::types::{ActionOf, ModKey, Modifiers};
use crate::config::warnings;
use crate::config::warnings::Severity;
use crate::config::window_rules;
use crate::config::window_rules::{PassKeysFile, WindowRuleFile};
use crate::text;
use crate::text_laws;

verus! {

/// Is this one warning of what was rejected, if something holds, and none if it
/// does not?
pub open spec fn rejects_if(when: bool, w: Seq<(Severity, Seq<char>)>) -> bool {
    w.len() == (if when {
        1nat
    } else {
        0
    }) && (when ==> w[0].0 is Rejected)
}

/// Is this one warning of what was corrected, if something holds, and none if it
/// does not?
pub open spec fn corrects_if(when: bool, w: Seq<(Severity, Seq<char>)>) -> bool {
    w.len() == (if when {
        1nat
    } else {
        0
    }) && (when ==> w[0].0 is Corrected)
}

// ── Numbers ──────────────────────────────────────────────────────────

/// A number that is below its range, or not a number, or above its range, is
/// corrected with a warning that begins with its field and what was written, and
/// ends with what is used.
pub proof fn lemma_number_warnings(v: NumberOf<Seq<char>>, n: i32, field: Seq<char>)
    ensures
        ({
            let (zero, one) = (
                decoration::number(0, "0"@),
                decoration::number(0x3ff0_0000_0000_0000, "1"@),
            );
            let minus = decoration::number(0xbff0_0000_0000_0000, "-1"@);
            let low = 0x8000_0000_0000_0000 < v.value.bits || 0x7ff0_0000_0000_0000 < v.value.bits
                < 0x8000_0000_0000_0000;
            let high = 0x3ff0_0000_0000_0000 < v.value.bits <= 0x7ff0_0000_0000_0000;
            let (below, unit) = (
                decoration::floored_warning(v, field),
                decoration::clamped_warning(v, zero, one, field),
            );
            let start = "config: "@ + field + " "@ + v.text;
            &&& corrects_if(low, below)
            &&& low ==> below[0].1 == start + " is negative, using 0"@
            &&& corrects_if(low || high, unit)
            &&& low ==> unit[0].1 == start + " below minimum "@ + "0"@ + ", using "@ + "0"@
            &&& high ==> unit[0].1 == start + " above maximum "@ + "1"@ + ", using "@ + "1"@
            &&& corrects_if(
                !(v.value.bits <= 0x3ff0_0000_0000_0000 || 0x8000_0000_0000_0000 <= v.value.bits
                    <= 0xbff0_0000_0000_0000),
                decoration::clamped_warning(v, minus, one, field),
            )
        }),
        corrects_if(n < 0, warnings::negative_warning(n, field)),
        corrects_if(n < 0, warnings::clamp_warning(n, 0i32, i32::MAX, field)),
        corrects_if(n < 1, warnings::clamp_warning(n, 1i32, i32::MAX, field)),
{
}

/// A speed that would freeze the camera is rejected, and one above 1 corrected.
pub proof fn lemma_camera_warnings(n: Number)
    ensures
        ({
            let w = settings::animation_speed_warning(Some(n));
            let freezes = n.value.bits == 0 || n.value.bits > 0x7ff0_0000_0000_0000;
            &&& freezes ==> rejects_if(true, w)
            &&& !freezes ==> corrects_if(n.value.bits > 0x3ff0_0000_0000_0000, w)
            &&& settings::animation_speed_warning(None).len() == 0
        }),
{
    assert(n@.value == n.value);
}

// ── Names and colors ─────────────────────────────────────────────────

/// What is no name of a choice, and what is no color, is rejected with a warning
/// that holds it.
pub proof fn lemma_name_warnings(s: String, before: Seq<char>, after: Seq<char>)
    ensures
        rejects_if(
            s@ != "alt"@ && s@ != "super"@,
            settings::mod_key_warning(Some(s)),
        ),
        rejects_if(
            s@ != "cursor"@ && s@ != "auto"@ && s@ != "center"@,
            settings::placement_warning(Some(s)),
        ),
        rejects_if(
            s@ != "flat"@ && s@ != "adaptive"@,
            settings::profile_warning(Some(s), before, after),
        ),
        rejects_if(
            s@ != "client"@ && s@ != "minimal"@ && s@ != "none"@,
            decoration::default_mode_warning(Some(s)),
        ),
        rejects_if(
            s@ != "left"@ && s@ != "center"@,
            decoration::title_align_warning(Some(s)),
        ),
        rejects_if(
            s@ != "none"@ && s@ != "minimal"@ && s@ != "server"@ && s@ != "client"@,
            window_rules::rule_mode_warning(Some(s)),
        ),
        rejects_if(colors::color_of(s@) is None, colors::color_warning(Some(s), before, after)),
        colors::color_of(s@) is None ==> colors::color_warning(Some(s), before, after)[0].1 == before
            + s@ + after,
        colors::color_warning(None, before, after).len() == 0,
        window_rules::rule_mode_warning(None).len() == 0,
{
}

/// A setting under a name that it has no more is rejected, for each of the three
/// that were renamed; what was warned of before stays.
pub proof fn lemma_renamed_settings_warn(w: Seq<(Severity, Seq<char>)>, raw: ConfigFile)
    ensures
        ({
            let all = settings::renamed_warnings(w, raw);
            let count = |b: bool|
                if b {
                    1int
                } else {
                    0
                };
            &&& all.len() == w.len() + count(raw.navigation.friction is Some) + count(
                raw.snap.same_edge is Some,
            ) + count(raw.snap.edge_center is Some)
            &&& all.take(w.len() as int) == w
            &&& forall|i: int| w.len() <= i < all.len() ==> (#[trigger] all[i]).0 is Rejected
        }),
{
}

/// Are these the warnings before, with some of what was rejected behind them?
pub open spec fn more_rejected(
    w: Seq<(Severity, Seq<char>)>,
    all: Seq<(Severity, Seq<char>)>,
    n: nat,
) -> bool {
    &&& all.len() == w.len() + n
    &&& all.take(w.len() as int) == w
    &&& forall|i: int| w.len() <= i < all.len() ==> (#[trigger] all[i]).0 is Rejected
}

proof fn lemma_one_more_rejected(
    w: Seq<(Severity, Seq<char>)>,
    all: Seq<(Severity, Seq<char>)>,
    n: nat,
    m: Seq<char>,
)
    requires
        more_rejected(w, all, n),
    ensures
        more_rejected(w, all + warnings::rejected(m), n + 1),
{
    let more = all + warnings::rejected(m);
    assert(more.take(w.len() as int) == all.take(w.len() as int));
}

/// How many of the words are no category of defaults.
pub open spec fn strange_words(list: Seq<Seq<char>>) -> nat
    decreases list.len(),
{
    if list.len() == 0 {
        0
    } else {
        let l = list.last();
        strange_words(list.drop_last()) + (if l == "keys"@ || l == "mouse"@ || l == "gestures"@ {
            0nat
        } else {
            1
        })
    }
}

/// Each word that is no category of defaults is rejected, once.
pub proof fn lemma_strange_categories_warn(w: Seq<(Severity, Seq<char>)>, list: Seq<Seq<char>>)
    ensures
        more_rejected(w, merge::disabled_warnings(w, list), strange_words(list)),
    decreases list.len(),
{
    if list.len() > 0 {
        lemma_strange_categories_warn(w, list.drop_last());
        lemma_one_more_rejected(
            w,
            merge::disabled_warnings(w, list.drop_last()),
            strange_words(list.drop_last()),
            "config: unknown bindings.disable_defaults category '"@ + list.last()
                + "' (expected \"keys\", \"mouse\", or \"gestures\")"@,
        );
    } else {
        assert(w.take(w.len() as int) == w);
    }
}

// ── Taps ─────────────────────────────────────────────────────────────

/// The names of the modifiers that are held, in the order in which they are
/// written.
pub open spec fn held_names(m: Modifiers) -> Seq<Seq<char>> {
    let one = |on: bool, name: Seq<char>|
        if on {
            seq![name]
        } else {
            Seq::<Seq<char>>::empty()
        };
    one(m.ctrl, "ctrl"@) + one(m.alt, "alt"@) + one(m.shift, "shift"@) + one(m.logo, "super"@)
}

/// A set of modifiers is written as their names with a plus sign between each
/// two: Control, Alt, Shift and Super.
pub proof fn lemma_label_joins_the_names(m: Modifiers)
    ensures
        merge::label_of(m) == text_laws::joined(held_names(m), '+'),
{
    reveal_strlit("ctrl");
    reveal_strlit("alt");
    reveal_strlit("shift");
    reveal_strlit("super");
    reveal_strlit("+");
    reveal_with_fuel(text_laws::joined, 5);
    assert("+"@ == seq!['+']);
    let names = held_names(m);
    let label = merge::label_of(m);
    let rest = names.drop_first();
    let (two, three) = (rest.drop_first(), rest.drop_first().drop_first());
    if names.len() == 0 {
        assert(label == Seq::<char>::empty());
    } else if names.len() == 1 {
        assert(label == names[0]);
    } else if names.len() == 2 {
        assert(label == names[0] + seq!['+'] + names[1]);
        assert(rest == seq![names[1]]);
    } else if names.len() == 3 {
        assert(rest == seq![names[1], names[2]]);
        assert(two == seq![names[2]]);
        assert(label == names[0] + seq!['+'] + (names[1] + seq!['+'] + names[2]));
    } else {
        assert(rest == seq![names[1], names[2], names[3]]);
        assert(two == seq![names[2], names[3]]);
        assert(three == seq![names[3]]);
        assert(label == names[0] + seq!['+'] + (names[1] + seq!['+'] + (names[2] + seq!['+']
            + names[3])));
    }
}

/// How many taps cannot fire.
pub open spec fn dead_taps(taps: Seq<(Modifiers, ActionOf<Seq<char>>)>, options: Seq<char>) -> nat
    decreases taps.len(),
{
    if taps.len() == 0 {
        0
    } else {
        dead_taps(taps.drop_last(), options) + (if merge::tap_conflict(
            taps.last().0,
            options,
        ) is Some {
            1nat
        } else {
            0
        })
    }
}

/// Each tap that cannot fire is rejected, once.
pub proof fn lemma_dead_taps_warn(
    w: Seq<(Severity, Seq<char>)>,
    taps: Seq<(Modifiers, ActionOf<Seq<char>>)>,
    options: Seq<char>,
)
    ensures
        more_rejected(w, merge::conflict_warnings(w, taps, options), dead_taps(taps, options)),
    decreases taps.len(),
{
    if taps.len() > 0 {
        let rest = taps.drop_last();
        lemma_dead_taps_warn(w, rest, options);
        let before = merge::conflict_warnings(w, rest, options);
        let all = merge::conflict_warnings(w, taps, options);
        if merge::tap_conflict(taps.last().0, options) is Some {
            let m = all.last().1;
            assert(all == before + warnings::rejected(m));
            lemma_one_more_rejected(w, before, dead_taps(rest, options), m);
        }
    } else {
        assert(w.take(w.len() as int) == w);
    }
}

// ── Rules ────────────────────────────────────────────────────────────

/// How many of the texts are no keys.
pub open spec fn strange_keys(
    keys: Seq<Seq<char>>,
    mod_key: ModKey,
    table: Seq<(Seq<char>, u32)>,
) -> nat
    decreases keys.len(),
{
    if keys.len() == 0 {
        0
    } else {
        strange_keys(keys.drop_last(), mod_key, table) + (if parse::key_combo_of(
            keys.last(),
            mod_key,
            table,
        ) is Err {
            1nat
        } else {
            0
        })
    }
}

/// Each text among the keys to pass that is no key is rejected, once.
pub proof fn lemma_strange_keys_warn(
    w: Seq<(Severity, Seq<char>)>,
    keys: Seq<Seq<char>>,
    mod_key: ModKey,
    table: Seq<(Seq<char>, u32)>,
)
    ensures
        more_rejected(
            w,
            window_rules::pass_warnings(w, keys, mod_key, table),
            strange_keys(keys, mod_key, table),
        ),
    decreases keys.len(),
{
    if keys.len() > 0 {
        let rest = keys.drop_last();
        lemma_strange_keys_warn(w, rest, mod_key, table);
        let before = window_rules::pass_warnings(w, rest, mod_key, table);
        let all = window_rules::pass_warnings(w, keys, mod_key, table);
        if parse::key_combo_of(keys.last(), mod_key, table) is Err {
            let m = all.last().1;
            assert(all == before + warnings::rejected(m));
            lemma_one_more_rejected(w, before, strange_keys(rest, mod_key, table), m);
        }
    } else {
        assert(w.take(w.len() as int) == w);
    }
}

/// A size of a rule is rejected unless both its sides are positive; an opacity or
/// a length out of its range is corrected.
pub proof fn lemma_rule_value_warnings(
    size: (i32, i32),
    opacity: Number,
    n: i32,
    field: Seq<char>,
)
    ensures
        rejects_if(size.0 <= 0 || size.1 <= 0, window_rules::size_warning(Some(size))),
        window_rules::size_warning(None).len() == 0,
        corrects_if(
            !(opacity.value.bits <= 0x3ff0_0000_0000_0000 || opacity.value.bits
                == 0x8000_0000_0000_0000),
            window_rules::rule_opacity_warning(Some(opacity)),
        ),
        window_rules::rule_opacity_warning(None).len() == 0,
        corrects_if(n < 0, window_rules::rule_length_warning(Some(n), field)),
        window_rules::rule_length_warning(None, field).len() == 0,
{
    assert(opacity@.value == opacity.value);
}

/// A rule that names neither an app nor a title is rejected with one warning and
/// nothing else is said of it. Any other is warned of for each of its parts, and
/// what was warned of before stays.
pub proof fn lemma_rule_warnings(
    w: Seq<(Severity, Seq<char>)>,
    r: WindowRuleFile,
    mod_key: ModKey,
    table: Seq<(Seq<char>, u32)>,
)
    ensures
        ({
            let all = window_rules::window_rule_warnings(w, r, mod_key, table);
            let bare = r.app_id is None && r.title is None;
            let keys = match r.pass_keys {
                Some(PassKeysFile::Keys(v)) => strange_keys(
                    text::string_views(v@),
                    mod_key,
                    table,
                ),
                _ => 0,
            };
            &&& all.len() >= w.len() && all.take(w.len() as int) == w
            &&& bare ==> all.len() == w.len() + 1 && all.last().0 is Rejected
            &&& !bare ==> all.len() == w.len() + keys + window_rules::rule_mode_warning(
                r.decoration,
            ).len() + window_rules::pattern_warnings(r.app_id).len()
                + window_rules::pattern_warnings(r.title).len() + window_rules::size_warning(
                r.size,
            ).len() + window_rules::rule_opacity_warning(r.opacity).len()
                + window_rules::rule_length_warning(r.border_width, ""@).len()
                + window_rules::rule_length_warning(r.corner_radius, ""@).len()
                + window_rules::rule_color_warning(r.border_color, ""@).len()
                + window_rules::rule_color_warning(r.border_color_focused, ""@).len()
        }),
{
    let all = window_rules::window_rule_warnings(w, r, mod_key, table);
    let first = w + window_rules::rule_mode_warning(r.decoration);
    let second = window_rules::pass_keys_warnings(first, r.pass_keys, mod_key, table);
    if let Some(PassKeysFile::Keys(v)) = r.pass_keys {
        lemma_strange_keys_warn(first, text::string_views(v@), mod_key, table);
    } else {
        assert(first.take(first.len() as int) == first);
    }
    assert(second.take(first.len() as int) == first);
    assert(first.take(w.len() as int) == w);
    assert(second.take(w.len() as int) == w) by {
        assert(second.take(w.len() as int) == second.take(first.len() as int).take(w.len() as int));
    }
    assert(all.take(w.len() as int) == w) by {
        if !(r.app_id is None && r.title is None) {
            assert(all.take(w.len() as int) == second.take(w.len() as int));
        }
    }
}

} // verus!
